//! A framebuffer of packed pixels, addressed from the bottom-left corner and
//! stored row by row from the top.

use crate::pixel::Rgb;
use vstd::arithmetic::div_mod::{
    lemma_fundamental_div_mod, lemma_fundamental_div_mod_converse, lemma_mod_bound,
    lemma_multiply_divide_lt,
};
use vstd::prelude::*;

verus! {

/// The storage index of pixel `(x, y)` in a `width` by `height` image whose
/// rows are stored from the top, while `y` counts rows from the bottom.
pub open spec fn slot_of(width: nat, height: nat, x: nat, y: nat) -> int {
    (height - 1 - y) * width + x
}

/// The column of the pixel stored at `index`.
pub open spec fn column_of(width: nat, index: nat) -> int {
    index as int % width as int
}

/// The row, counted from the bottom, of the pixel stored at `index`.
pub open spec fn row_of(width: nat, height: nat, index: nat) -> int {
    height - 1 - index as int / width as int
}

/// Every pixel of the image has a storage index below `width * height`.
pub proof fn lemma_slot_in_range(width: nat, height: nat, x: nat, y: nat)
    requires
        x < width,
        y < height,
    ensures
        0 <= slot_of(width, height, x, y) < width * height,
{
    let rows_above = height - 1 - y;
    assert(0 <= rows_above * width && rows_above * width + width <= width * height)
        by (nonlinear_arith)
        requires
            0 <= rows_above,
            rows_above + 1 <= height,
            0 <= width,
    ;
}

/// The pixel found at the storage index of `(x, y)` is `(x, y)` again.
pub proof fn lemma_position_of_slot(width: nat, height: nat, x: nat, y: nat)
    requires
        x < width,
        y < height,
    ensures
        column_of(width, slot_of(width, height, x, y) as nat) == x,
        row_of(width, height, slot_of(width, height, x, y) as nat) == y,
{
    lemma_slot_in_range(width, height, x, y);
    lemma_fundamental_div_mod_converse(
        slot_of(width, height, x, y),
        width as int,
        height - 1 - y,
        x as int,
    );
}

/// Every storage index below `width * height` holds a pixel of the image,
/// and the storage index of that pixel is the index itself.
pub proof fn lemma_slot_of_position(width: nat, height: nat, index: nat)
    requires
        index < width * height,
    ensures
        0 <= column_of(width, index) < width,
        0 <= row_of(width, height, index) < height,
        slot_of(
            width,
            height,
            column_of(width, index) as nat,
            row_of(width, height, index) as nat,
        ) == index,
{
    assert(width > 0) by (nonlinear_arith)
        requires
            index < width * height,
    ;
    let w = width as int;
    let i = index as int;
    lemma_mod_bound(i, w);
    lemma_fundamental_div_mod(i, w);
    lemma_multiply_divide_lt(i, w, height as int);
    assert(0 <= i / w) by (nonlinear_arith)
        requires
            0 <= i,
            0 < w,
    ;
    assert((i / w) * w == w * (i / w)) by (nonlinear_arith);
}

/// Two different pixels of the image never share a storage index.
pub proof fn lemma_slots_distinct(width: nat, height: nat, x1: nat, y1: nat, x2: nat, y2: nat)
    requires
        x1 < width,
        y1 < height,
        x2 < width,
        y2 < height,
        slot_of(width, height, x1, y1) == slot_of(width, height, x2, y2),
    ensures
        x1 == x2,
        y1 == y2,
{
    lemma_position_of_slot(width, height, x1, y1);
    lemma_position_of_slot(width, height, x2, y2);
}

/// A `width` by `height` image of packed 32-bit pixels.
pub struct Bitmap {
    width: usize,
    height: usize,
    buffer: Vec<u32>,
}

impl View for Bitmap {
    type V = Seq<u32>;

    /// The pixels in storage order: the top row first, each row from the left.
    closed spec fn view(&self) -> Seq<u32> {
        self.buffer@
    }
}

impl Bitmap {
    /// The number of pixels in a row.
    pub closed spec fn spec_width(&self) -> nat {
        self.width as nat
    }

    /// The number of rows.
    pub closed spec fn spec_height(&self) -> nat {
        self.height as nat
    }

    /// There is exactly one stored word per pixel.
    pub open spec fn wf(&self) -> bool {
        self@.len() == self.spec_width() * self.spec_height()
    }

    /// Whether `(x, y)` names a pixel of this image.
    pub open spec fn contains(&self, x: nat, y: nat) -> bool {
        x < self.spec_width() && y < self.spec_height()
    }

    /// The storage index of pixel `(x, y)` of this image.
    pub open spec fn slot(&self, x: nat, y: nat) -> int {
        slot_of(self.spec_width(), self.spec_height(), x, y)
    }

    /// Whether `other` has the size of this image.
    pub open spec fn same_size(&self, other: &Bitmap) -> bool {
        self.spec_width() == other.spec_width() && self.spec_height() == other.spec_height()
    }

    /// An image of the given size with every pixel zero.
    pub fn new(width: usize, height: usize) -> (bitmap: Bitmap)
        requires
            width * height <= usize::MAX,
        ensures
            bitmap.wf(),
            bitmap.spec_width() == width,
            bitmap.spec_height() == height,
            forall|i: int| 0 <= i < bitmap@.len() ==> bitmap@[i] == 0,
    {
        Bitmap { width, height, buffer: vec![0; width * height] }
    }

    /// The number of pixels in a row.
    pub fn width(&self) -> (w: usize)
        ensures
            w == self.spec_width(),
    {
        self.width
    }

    /// The number of rows.
    pub fn height(&self) -> (h: usize)
        ensures
            h == self.spec_height(),
    {
        self.height
    }

    /// The stored words, top row first.
    pub fn buffer(&self) -> (words: &[u32])
        ensures
            words@ == self@,
    {
        self.buffer.as_slice()
    }

    /// The storage index of pixel `(x, y)`, or `None` where the image has no
    /// such pixel.
    pub fn index_of(&self, x: usize, y: usize) -> (index: Option<usize>)
        requires
            self.wf(),
        ensures
            index.is_some() == self.contains(x as nat, y as nat),
            index.is_some() ==> index.unwrap() == self.slot(x as nat, y as nat),
            index.is_some() ==> index.unwrap() < self@.len(),
    {
        if x >= self.width || y >= self.height {
            None
        } else {
            let rows_above: usize = self.height - y - 1;
            proof {
                lemma_slot_in_range(self.width as nat, self.height as nat, x as nat, y as nat);
                assert(self.buffer.len() == self@.len());
                assert(rows_above * self.width == (self.height - 1 - y) * self.width)
                    by (nonlinear_arith)
                    requires
                        rows_above == self.height - 1 - y,
                ;
            }
            Some(rows_above * self.width + x)
        }
    }

    /// The pixel stored at `index`, as `(x, y)`, or `None` where `index` is
    /// past the last pixel.
    pub fn position(&self, index: usize) -> (at: Option<(usize, usize)>)
        requires
            self.wf(),
        ensures
            at.is_some() == (index < self@.len()),
            at.is_some() ==> {
                let (x, y) = at.unwrap();
                &&& x == column_of(self.spec_width(), index as nat)
                &&& y == row_of(self.spec_width(), self.spec_height(), index as nat)
                &&& self.contains(x as nat, y as nat)
                &&& self.slot(x as nat, y as nat) == index
            },
    {
        if index >= self.buffer.len() {
            None
        } else {
            proof {
                lemma_slot_of_position(self.width as nat, self.height as nat, index as nat);
                lemma_fundamental_div_mod(index as int, self.width as int);
            }
            let rows_above: usize = index / self.width;
            assert(rows_above * self.width == self.width * (index as int / self.width as int))
                by (nonlinear_arith)
                requires
                    rows_above == index as int / self.width as int,
            ;
            let x: usize = index - rows_above * self.width;
            Some((x, self.height - rows_above - 1))
        }
    }

    /// Every pixel with its coordinates, `(x, y, word)`, in storage order.
    pub fn pixels(&self) -> (all: Vec<(usize, usize, u32)>)
        requires
            self.wf(),
        ensures
            all@.len() == self@.len(),
            forall|i: int|
                0 <= i < all@.len() ==> {
                    &&& (#[trigger] all@[i]).0 == column_of(self.spec_width(), i as nat)
                    &&& all@[i].1 == row_of(self.spec_width(), self.spec_height(), i as nat)
                    &&& all@[i].2 == self@[i]
                },
    {
        let mut all: Vec<(usize, usize, u32)> = Vec::new();
        let mut index: usize = 0;
        while index < self.buffer.len()
            invariant
                self.wf(),
                index <= self.buffer.len(),
                all@.len() == index,
                forall|i: int|
                    0 <= i < index ==> {
                        &&& (#[trigger] all@[i]).0 == column_of(self.spec_width(), i as nat)
                        &&& all@[i].1 == row_of(self.spec_width(), self.spec_height(), i as nat)
                        &&& all@[i].2 == self@[i]
                    },
            decreases self.buffer.len() - index,
        {
            match self.position(index) {
                Some((x, y)) => {
                    all.push((x, y, self.buffer[index]));
                },
                None => {},
            }
            index += 1;
        }
        all
    }

    /// A mutable reference to pixel `(x, y)`, or `None`, and no access at
    /// all, where the image has no such pixel.
    pub fn get_mut(&mut self, x: usize, y: usize) -> (pixel: Option<&mut u32>)
        requires
            old(self).wf(),
        ensures
            final(self).wf(),
            final(self).same_size(old(self)),
            pixel.is_some() == old(self).contains(x as nat, y as nat),
            pixel.is_some() ==> *pixel.unwrap() == old(self)@[old(self).slot(x as nat, y as nat)]
                && final(self)@ == old(self)@.update(
                old(self).slot(x as nat, y as nat),
                *final(pixel.unwrap()),
            ),
            pixel.is_none() ==> final(self)@ == old(self)@,
    {
        match self.index_of(x, y) {
            None => None,
            Some(index) => Some(&mut self.buffer[index]),
        }
    }

    /// Writes one colour over every pixel, `colors[i]` over the pixel stored
    /// at `i`, and keeps each pixel's top byte. Where `colors` does not hold
    /// exactly one colour per pixel, nothing is written.
    pub fn paint(&mut self, colors: &Vec<Rgb>) -> (painted: bool)
        requires
            old(self).wf(),
        ensures
            final(self).wf(),
            final(self).same_size(old(self)),
            painted == (colors@.len() == old(self)@.len()),
            final(self)@.len() == old(self)@.len(),
            painted ==> forall|i: int|
                0 <= i < old(self)@.len() ==> #[trigger] final(self)@[i] == colors@[i].spec_pack(
                    old(self)@[i],
                ),
            !painted ==> final(self)@ == old(self)@,
    {
        if colors.len() != self.buffer.len() {
            return false;
        }
        let mut index: usize = 0;
        while index < self.buffer.len()
            invariant
                self.width == old(self).width,
                self.height == old(self).height,
                self.buffer.len() == old(self).buffer.len(),
                colors@.len() == self.buffer.len(),
                index <= self.buffer.len(),
                forall|i: int|
                    0 <= i < index ==> #[trigger] self@[i] == colors@[i].spec_pack(old(self)@[i]),
                forall|i: int| index <= i < self@.len() ==> #[trigger] self@[i] == old(self)@[i],
            decreases self.buffer.len() - index,
        {
            let ghost before = self@;
            let word: u32 = colors[index].pack(self.buffer[index]);
            self.buffer[index] = word;
            assert(self@ == before.update(index as int, word));
            index += 1;
        }
        true
    }
}

} // verus!
