//! The bounce bookkeeping of the path integrator: how far a light path may
//! still go, and how it ends.
//!
//! Tracing a ray and scattering it off a surface is arithmetic on real
//! numbers and happens elsewhere. What is decided here is what follows from
//! each outcome: whether the scene is consulted at all, and whether the path
//! goes on, ends in the background, or ends black.

use vstd::prelude::*;

verus! {

/// What the scene did to the ray that was traced into it.
#[derive(Clone, Copy, Debug, PartialEq, Eq, Structural)]
pub enum Probe {
    /// The ray touched no surface.
    Miss,
    /// The ray hit a surface, which swallowed it.
    Absorbed,
    /// The ray hit a surface, which sent a new ray on.
    Scattered,
}

/// Where a light path stands.
#[derive(Clone, Copy, Debug, PartialEq, Eq, Structural)]
pub enum Path {
    /// A ray is to be traced, and `bounces` are left for it and its
    /// successors.
    Tracing { bounces: usize },
    /// The path has left the scene and takes the colour of the background.
    Sky,
    /// The path carries no light.
    Black,
}

impl Path {
    /// The path of a fresh ray that may bounce `bounces` times.
    pub open spec fn spec_start(bounces: usize) -> Path {
        if bounces == 0 {
            Path::Black
        } else {
            Path::Tracing { bounces }
        }
    }

    /// The path after its ray was traced with the outcome `found`. A path
    /// that has ended stays as it is, and one with no bounce left is black
    /// whatever was found.
    pub open spec fn spec_step(self, found: Probe) -> Path {
        match self {
            Path::Tracing { bounces } => if bounces == 0 {
                Path::Black
            } else {
                match found {
                    Probe::Miss => Path::Sky,
                    Probe::Absorbed => Path::Black,
                    Probe::Scattered => Path::spec_start((bounces - 1) as usize),
                }
            },
            _ => self,
        }
    }

    /// Whether the path has ended.
    pub open spec fn ended(self) -> bool {
        !(self is Tracing)
    }

    /// The number of rays that the path may still trace.
    pub open spec fn budget(self) -> nat {
        match self {
            Path::Tracing { bounces } => bounces as nat,
            _ => 0,
        }
    }

    /// The path after each outcome of `found`, in order.
    pub open spec fn spec_walk(self, found: Seq<Probe>) -> Path
        decreases found.len(),
    {
        if found.len() == 0 {
            self
        } else {
            self.spec_walk(found.drop_last()).spec_step(found.last())
        }
    }

    /// Starts the path of a fresh ray that may bounce `bounces` times. With
    /// no bounce left the path is black before any ray is traced.
    pub fn start(bounces: usize) -> (path: Path)
        ensures
            path == Path::spec_start(bounces),
            path.budget() == bounces,
            bounces == 0 ==> path == Path::Black,
    {
        if bounces == 0 {
            Path::Black
        } else {
            Path::Tracing { bounces }
        }
    }

    /// Moves the path on by the outcome of tracing its ray: a miss ends it in
    /// the background, an absorbed ray ends it black, and a scattered ray
    /// goes on with one bounce fewer, or ends black where that was the last.
    pub fn step(self, found: Probe) -> (next: Path)
        ensures
            next == self.spec_step(found),
            self.ended() ==> next == self,
            !self.ended() ==> next.ended() || next.budget() + 1 == self.budget(),
    {
        match self {
            Path::Tracing { bounces } => if bounces == 0 {
                Path::Black
            } else {
                match found {
                    Probe::Miss => Path::Sky,
                    Probe::Absorbed => Path::Black,
                    Probe::Scattered => Path::start(bounces - 1),
                }
            },
            Path::Sky => Path::Sky,
            Path::Black => Path::Black,
        }
    }
}

/// A path that has ended is not moved by any further outcome.
pub proof fn lemma_ended_stays(path: Path, found: Seq<Probe>)
    requires
        path.ended(),
    ensures
        path.spec_walk(found) == path,
    decreases found.len(),
{
    if found.len() > 0 {
        lemma_ended_stays(path, found.drop_last());
    }
}

/// Each outcome uses up one bounce of a path that is still tracing: after
/// `found`, a path either has ended or has `found.len()` bounces fewer.
pub proof fn lemma_walk_spends(path: Path, found: Seq<Probe>)
    ensures
        path.spec_walk(found).ended() || path.spec_walk(found).budget() + found.len()
            == path.budget(),
    decreases found.len(),
{
    if found.len() > 0 {
        lemma_walk_spends(path, found.drop_last());
    }
}

/// A path that starts with no bounce left is black whatever the scene holds.
pub proof fn lemma_no_bounce_is_black(found: Seq<Probe>)
    ensures
        Path::spec_start(0).spec_walk(found) == Path::Black,
{
    lemma_ended_stays(Path::Black, found);
}

/// A path traces at most as many rays as it had bounces: once that many
/// outcomes are in, it has ended.
pub proof fn lemma_walk_ends(bounces: usize, found: Seq<Probe>)
    requires
        found.len() >= bounces,
    ensures
        Path::spec_start(bounces).spec_walk(found).ended(),
{
    lemma_walk_spends(Path::spec_start(bounces), found);
}

/// A first ray that misses everything ends the path in the background,
/// whatever else `found` lists.
pub proof fn lemma_first_miss_is_sky(bounces: usize, found: Seq<Probe>)
    requires
        bounces > 0,
        found.len() > 0,
        found[0] == Probe::Miss,
    ensures
        Path::spec_start(bounces).spec_walk(found) == Path::Sky,
    decreases found.len(),
{
    let start = Path::spec_start(bounces);
    if found.len() > 1 {
        assert(found.drop_last()[0] == found[0]);
        lemma_first_miss_is_sky(bounces, found.drop_last());
    } else {
        assert(start.spec_walk(found.drop_last()) == start);
    }
}

/// A path ends in the background only through a miss.
pub proof fn lemma_sky_needs_miss(bounces: usize, found: Seq<Probe>)
    requires
        Path::spec_start(bounces).spec_walk(found) == Path::Sky,
    ensures
        exists|i: int| 0 <= i < found.len() && found[i] == Probe::Miss,
    decreases found.len(),
{
    if found.len() > 0 {
        let front = found.drop_last();
        if Path::spec_start(bounces).spec_walk(front) == Path::Sky {
            lemma_sky_needs_miss(bounces, front);
            let i = choose|i: int| 0 <= i < front.len() && front[i] == Probe::Miss;
            assert(found[i] == Probe::Miss);
        } else {
            assert(found[found.len() - 1] == Probe::Miss);
        }
    }
}

} // verus!
