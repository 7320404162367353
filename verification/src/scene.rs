//! The hit rules of a scene: which of the two points where a ray crosses a
//! primitive counts as the hit, and which primitive of a scene is hit first.
//!
//! Distances along the ray arrive as integer keys that order like the
//! distances they stand for. A distance held in the IEEE 754 single-precision
//! format gets its key from its bit pattern.

use vstd::prelude::*;

verus! {

/// The number that a bit pattern stands for when its top bit is read as a
/// sign and the other 31 bits as a magnitude. IEEE 754 numbers that are not
/// NaN order as these numbers do.
pub open spec fn sign_magnitude(bits: u32) -> int {
    if bits < 0x8000_0000 {
        bits as int
    } else {
        0x8000_0000 - bits
    }
}

/// The key of a bit pattern: its sign-magnitude number moved up by `2^31`,
/// with the patterns of negative sign one lower, so that negative zero comes
/// just below positive zero and no two patterns share a key.
pub open spec fn spec_order_key(bits: u32) -> int {
    if bits < 0x8000_0000 {
        sign_magnitude(bits) + 0x8000_0000
    } else {
        sign_magnitude(bits) + 0x7fff_ffff
    }
}

/// The key by which the distance with the given bit pattern is ordered.
pub fn order_key(bits: u32) -> (key: u32)
    ensures
        key == spec_order_key(bits),
{
    let key: u32 = if bits >> 31 == 0 {
        bits | 0x8000_0000
    } else {
        !bits
    };
    assert(key == if bits < 0x8000_0000 {
        bits + 0x8000_0000
    } else {
        0xffff_ffff - bits
    }) by (bit_vector)
        requires
            key == if bits >> 31 == 0 {
                bits | 0x8000_0000
            } else {
                !bits
            },
    ;
    key
}

/// Keys order as the sign-magnitude numbers of their bit patterns do, and
/// different bit patterns have different keys.
pub proof fn lemma_order_key_monotone(a: u32, b: u32)
    ensures
        sign_magnitude(a) < sign_magnitude(b) ==> spec_order_key(a) < spec_order_key(b),
        spec_order_key(a) < spec_order_key(b) ==> sign_magnitude(a) <= sign_magnitude(b),
        a != b ==> spec_order_key(a) != spec_order_key(b),
        0 <= spec_order_key(a) <= u32::MAX,
{
}

/// Whether `key` lies in the open interval from `floor` to `limit`.
pub open spec fn within(key: u32, floor: u32, limit: u32) -> bool {
    floor < key && key < limit
}

/// One of the two points where a ray's line crosses a closed surface.
#[derive(Clone, Copy, Debug, PartialEq, Eq, Structural)]
pub enum Root {
    /// The crossing at the smaller distance.
    Near,
    /// The crossing at the larger distance.
    Far,
}

/// The keys of the two distances at which a ray's line crosses a primitive.
#[derive(Clone, Copy, Debug, PartialEq, Eq, Structural)]
pub struct Crossing {
    pub near: u32,
    pub far: u32,
}

impl Crossing {
    /// Whether the near crossing is indeed not beyond the far one.
    pub open spec fn ordered(self) -> bool {
        self.near <= self.far
    }

    /// The key of the crossing at `root`.
    pub open spec fn spec_key(self, root: Root) -> u32 {
        match root {
            Root::Near => self.near,
            Root::Far => self.far,
        }
    }

    /// The crossing that counts as the hit where only distances between
    /// `floor` and `limit`, both excluded, are of interest: the near one
    /// where it lies in that interval, else the far one where that does.
    pub open spec fn spec_accept(self, floor: u32, limit: u32) -> Option<Root> {
        if within(self.near, floor, limit) {
            Some(Root::Near)
        } else if within(self.far, floor, limit) {
            Some(Root::Far)
        } else {
            None
        }
    }

    /// Whether no crossing of this primitive between `floor` and `limit` is
    /// nearer than `key`.
    pub open spec fn none_before(self, key: u32, floor: u32, limit: u32) -> bool {
        &&& within(self.near, floor, limit) ==> key <= self.near
        &&& within(self.far, floor, limit) ==> key <= self.far
    }

    /// Whether every crossing of this primitive between `floor` and `limit`
    /// is farther than `key`.
    pub open spec fn all_beyond(self, key: u32, floor: u32, limit: u32) -> bool {
        &&& within(self.near, floor, limit) ==> key < self.near
        &&& within(self.far, floor, limit) ==> key < self.far
    }

    /// The key of the crossing at `root`.
    pub fn key(&self, root: Root) -> (key: u32)
        ensures
            key == self.spec_key(root),
    {
        match root {
            Root::Near => self.near,
            Root::Far => self.far,
        }
    }

    /// Picks the crossing that counts as the hit between `floor` and `limit`,
    /// trying the near one first, or `None` where neither lies in between.
    pub fn accept(&self, floor: u32, limit: u32) -> (root: Option<Root>)
        ensures
            root == self.spec_accept(floor, limit),
            root.is_some() ==> within(self.spec_key(root.unwrap()), floor, limit),
            root.is_none() ==> !within(self.near, floor, limit) && !within(self.far, floor, limit),
    {
        if floor < self.near && self.near < limit {
            Some(Root::Near)
        } else if floor < self.far && self.far < limit {
            Some(Root::Far)
        } else {
            None
        }
    }
}

/// Trying the near crossing first picks the nearest crossing in the interval:
/// where the two are in order, the accepted one is in the interval and the
/// other, where it is in the interval too, is no nearer.
pub proof fn lemma_accept_is_nearest(crossing: Crossing, floor: u32, limit: u32)
    requires
        crossing.ordered(),
    ensures
        match crossing.spec_accept(floor, limit) {
            Some(root) => within(crossing.spec_key(root), floor, limit) && crossing.none_before(
                crossing.spec_key(root),
                floor,
                limit,
            ),
            None => !within(crossing.near, floor, limit) && !within(crossing.far, floor, limit),
        },
{
}

/// Lowering the limit never changes which crossing of a primitive counts:
/// what is accepted below the lower limit is what was accepted below the
/// higher one.
pub proof fn lemma_accept_under_lower_limit(
    crossing: Crossing,
    floor: u32,
    limit: u32,
    lower: u32,
)
    requires
        crossing.ordered(),
        lower <= limit,
    ensures
        crossing.spec_accept(floor, lower) is Some ==> crossing.spec_accept(floor, lower)
            == crossing.spec_accept(floor, limit),
{
}

/// The primitives of a scene as a ray sees them: for each, in scene order,
/// its crossing, or `None` where the ray's line does not cross it.
pub type Crossings = Seq<Option<Crossing>>;

/// Whether every crossing has its near key not beyond its far key.
pub open spec fn all_ordered(crossings: Crossings) -> bool {
    forall|j: int|
        0 <= j < crossings.len() && crossings[j] is Some ==> (#[trigger] crossings[j])
            .unwrap().ordered()
}

/// Whether no primitive is crossed between `floor` and `limit`.
pub open spec fn all_missed(crossings: Crossings, floor: u32, limit: u32) -> bool {
    forall|j: int|
        0 <= j < crossings.len() && crossings[j] is Some ==> {
            &&& !within((#[trigger] crossings[j]).unwrap().near, floor, limit)
            &&& !within(crossings[j].unwrap().far, floor, limit)
        }
}

/// Whether the crossing at `root` of primitive `i` is the hit of the scene:
/// it lies between `floor` and `limit`, it is the accepted crossing of its
/// primitive, no crossing of any primitive in that interval is nearer, and
/// every such crossing of an earlier primitive is farther.
pub open spec fn is_nearest(
    crossings: Crossings,
    floor: u32,
    limit: u32,
    i: int,
    root: Root,
) -> bool {
    &&& 0 <= i < crossings.len()
    &&& crossings[i] is Some
    &&& crossings[i].unwrap().spec_accept(floor, limit) == Some(root)
    &&& forall|j: int|
        0 <= j < crossings.len() && crossings[j] is Some ==> (#[trigger] crossings[j])
            .unwrap().none_before(crossings[i].unwrap().spec_key(root), floor, limit)
    &&& forall|j: int|
        0 <= j < i && crossings[j] is Some ==> (#[trigger] crossings[j]).unwrap().all_beyond(
            crossings[i].unwrap().spec_key(root),
            floor,
            limit,
        )
}

/// The upper bound that a scan has shrunk to: the key of the hit found so
/// far, or `limit` where none was found.
pub open spec fn bound_after(crossings: Crossings, limit: u32, found: Option<(int, Root)>) -> u32 {
    match found {
        Some((i, root)) => crossings[i].unwrap().spec_key(root),
        None => limit,
    }
}

/// The hit that a scan of the primitives in scene order finds: each
/// primitive is asked for its accepted crossing below the bound that the scan
/// has shrunk to, and a crossing so found replaces the hit found before.
pub open spec fn spec_nearest(crossings: Crossings, floor: u32, limit: u32) -> Option<(int, Root)>
    decreases crossings.len(),
{
    if crossings.len() == 0 {
        None
    } else {
        let front = crossings.drop_last();
        let before = spec_nearest(front, floor, limit);
        match crossings.last() {
            Some(crossing) => match crossing.spec_accept(
                floor,
                bound_after(front, limit, before),
            ) {
                Some(root) => Some((crossings.len() - 1, root)),
                None => before,
            },
            None => before,
        }
    }
}

/// The hit of the scene between `floor` and `limit`: the primitive that is
/// crossed nearest, the first of them in scene order where several are
/// crossed equally near, with the crossing that counts; or `None` where no
/// primitive is crossed in between.
pub fn nearest(crossings: &Vec<Option<Crossing>>, floor: u32, limit: u32) -> (hit: Option<
    (usize, Root),
>)
    ensures
        match hit {
            Some((i, root)) => spec_nearest(crossings@, floor, limit) == Some((i as int, root)),
            None => spec_nearest(crossings@, floor, limit) is None,
        },
        all_ordered(crossings@) ==> match hit {
            Some((i, root)) => is_nearest(crossings@, floor, limit, i as int, root),
            None => all_missed(crossings@, floor, limit),
        },
{
    let mut hit: Option<(usize, Root)> = None;
    let mut bound: u32 = limit;
    let mut index: usize = 0;
    while index < crossings.len()
        invariant
            index <= crossings.len(),
            match hit {
                Some((i, root)) => spec_nearest(crossings@.take(index as int), floor, limit)
                    == Some((i as int, root)) && i < index,
                None => spec_nearest(crossings@.take(index as int), floor, limit) is None,
            },
            bound == bound_after(
                crossings@.take(index as int),
                limit,
                spec_nearest(crossings@.take(index as int), floor, limit),
            ),
        decreases crossings.len() - index,
    {
        proof {
            let grown = crossings@.take(index + 1);
            assert(grown.drop_last() == crossings@.take(index as int));
            assert(grown.last() == crossings@[index as int]);
            if hit.is_some() {
                let i = hit.unwrap().0 as int;
                assert(grown[i] == crossings@.take(index as int)[i]);
            }
        }
        match &crossings[index] {
            Some(crossing) => match crossing.accept(floor, bound) {
                Some(root) => {
                    bound = crossing.key(root);
                    hit = Some((index, root));
                },
                None => {},
            },
            None => {},
        }
        index += 1;
    }
    proof {
        assert(crossings@.take(index as int) == crossings@);
        if all_ordered(crossings@) {
            lemma_scan_finds_nearest(crossings@, floor, limit);
        }
    }
    hit
}

/// A scan that shrinks its upper bound finds the hit of the scene: where
/// each primitive's crossings are in order, what the scan finds is the
/// nearest crossing in the interval, of the first primitive that has it,
/// and the scan finds nothing only where nothing is crossed in the interval.
pub proof fn lemma_scan_finds_nearest(crossings: Crossings, floor: u32, limit: u32)
    requires
        all_ordered(crossings),
    ensures
        match spec_nearest(crossings, floor, limit) {
            Some((i, root)) => is_nearest(crossings, floor, limit, i, root),
            None => all_missed(crossings, floor, limit),
        },
    decreases crossings.len(),
{
    if crossings.len() > 0 {
        let front = crossings.drop_last();
        let last = crossings.len() - 1;
        assert(forall|j: int| 0 <= j < last ==> front[j] == crossings[j]);
        lemma_scan_finds_nearest(front, floor, limit);
        let before = spec_nearest(front, floor, limit);
        let bound = bound_after(front, limit, before);
        match crossings[last] {
            Some(crossing) => {
                assert(crossing.ordered());
                match crossing.spec_accept(floor, bound) {
                    Some(root) => {
                        assert(is_nearest(crossings, floor, limit, last, root));
                    },
                    None => {
                        if before is Some {
                            let (i, root) = before.unwrap();
                            assert(is_nearest(crossings, floor, limit, i, root));
                        }
                    },
                }
            },
            None => {
                if before is Some {
                    let (i, root) = before.unwrap();
                    assert(is_nearest(crossings, floor, limit, i, root));
                }
            },
        }
    }
}

/// A scene has at most one hit.
pub proof fn lemma_nearest_unique(
    crossings: Crossings,
    floor: u32,
    limit: u32,
    i: int,
    root: Root,
    j: int,
    other: Root,
)
    requires
        is_nearest(crossings, floor, limit, i, root),
        is_nearest(crossings, floor, limit, j, other),
    ensures
        i == j,
        root == other,
{
    let first = crossings[i].unwrap();
    let second = crossings[j].unwrap();
    if i < j {
        assert(first.all_beyond(second.spec_key(other), floor, limit));
    } else if j < i {
        assert(second.all_beyond(first.spec_key(root), floor, limit));
    }
}

/// A scene without primitives is missed by every ray.
pub proof fn lemma_empty_scene_is_missed(floor: u32, limit: u32)
    ensures
        spec_nearest(Seq::empty(), floor, limit) is None,
        all_missed(Seq::empty(), floor, limit),
{
}

} // verus!
