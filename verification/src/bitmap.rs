//! Monochrome bitmaps: a width, a height and one bit for each dot, row after row.

use crate::bits::{
    max_bits, spec_max_bits, store_from_bytes, store_get, store_new, store_push, store_set,
    store_truncate, stored_bits, unpacked, BitBuf,
};
use crate::error::PrinterError;
use vstd::arithmetic::div_mod::{
    lemma_fundamental_div_mod, lemma_fundamental_div_mod_converse,
};
use vstd::prelude::*;
use vstd::string::StringExecFns;

verus! {

/// What a bitmap is: its size in dots and its bits in row-major order.
pub struct BitmapView {
    /// Dots in a row.
    pub width: nat,
    /// Rows.
    pub height: nat,
    /// The dots, row after row, each row from the left.
    pub bits: Seq<bool>,
}

impl BitmapView {
    /// A bitmap holds exactly one bit for each dot, and no more than a bit store takes.
    pub open spec fn wf(self) -> bool {
        &&& self.bits.len() == self.width * self.height
        &&& self.bits.len() <= spec_max_bits()
    }

    /// The dot in row `row`, column `col`.
    pub open spec fn dot(self, row: int, col: int) -> bool
        recommends
            0 <= row < self.height,
            0 <= col < self.width,
    {
        self.bits[row * self.width + col]
    }

    /// Tells whether `src` fits this bitmap with its top left corner at column `x`, row
    /// `y`.
    pub open spec fn takes(self, src: BitmapView, x: int, y: int) -> bool {
        &&& x + src.width <= self.width
        &&& y + src.height <= self.height
    }

    /// Tells whether the dot at `index` lies under `src`, laid at column `x`, row `y`.
    pub open spec fn under(self, src: BitmapView, x: int, y: int, index: int) -> bool {
        let r = index / (self.width as int) - y;
        let c = index % (self.width as int) - x;
        0 <= r < src.height && 0 <= c < src.width
    }

    /// The dot of `src`, laid at column `x`, row `y`, that lies over the dot at `index`.
    pub open spec fn dot_over(self, src: BitmapView, x: int, y: int, index: int) -> bool
        recommends
            self.under(src, x, y, index),
    {
        src.dot(index / (self.width as int) - y, index % (self.width as int) - x)
    }

    /// This bitmap with `src` copied over it, top left corner at column `x`, row `y`:
    /// under `src` every dot is the dot of `src`, elsewhere it is as it was.
    pub open spec fn blitted(self, src: BitmapView, x: int, y: int) -> BitmapView {
        BitmapView {
            bits: Seq::new(
                self.bits.len(),
                |i: int|
                    if self.under(src, x, y, i) {
                        self.dot_over(src, x, y, i)
                    } else {
                        self.bits[i]
                    },
            ),
            ..self
        }
    }

    /// Tells whether the dot at `index` lies under `src` and under a dot of `src` that
    /// comes before row `row`, column `col` in reading order.
    pub open spec fn covered(
        self,
        src: BitmapView,
        x: int,
        y: int,
        row: int,
        col: int,
        index: int,
    ) -> bool {
        let r = index / (self.width as int) - y;
        let c = index % (self.width as int) - x;
        self.under(src, x, y, index) && (r < row || (r == row && c < col))
    }

    /// This bitmap with the dots of `src` copied over it that come before row `row`,
    /// column `col` of `src` in reading order.
    pub open spec fn blitted_upto(
        self,
        src: BitmapView,
        x: int,
        y: int,
        row: int,
        col: int,
    ) -> BitmapView {
        BitmapView {
            bits: Seq::new(
                self.bits.len(),
                |i: int|
                    if self.covered(src, x, y, row, col, i) {
                        self.dot_over(src, x, y, i)
                    } else {
                        self.bits[i]
                    },
            ),
            ..self
        }
    }

    /// A row as text: `#` for a set dot, a blank for a clear one.
    pub open spec fn row_chars(self, row: int) -> Seq<char> {
        Seq::new(
            self.width,
            |col: int|
                if self.dot(row, col) {
                    '#'
                } else {
                    ' '
                },
        )
    }

    /// The bits of row `row`.
    pub open spec fn row(self, row: int) -> Seq<bool>
        recommends
            0 <= row < self.height,
    {
        self.bits.subrange(row * self.width, (row + 1) * self.width)
    }
}

/// Bytes needed to hold `bits` bits.
pub open spec fn bytes_for(bits: int) -> int {
    (bits + 7) / 8
}

/// Tells whether `byte_len` bytes are the data of a `width` by `height` bitmap: the bits
/// fit a bit store, and the bytes are just enough to hold them.
pub open spec fn dimensions_fit(width: int, height: int, byte_len: int) -> bool {
    &&& width * height <= spec_max_bits()
    &&& byte_len == bytes_for(width * height)
}

/// A monochrome bitmap.
pub struct Bitmap {
    bits: BitBuf,
    width: usize,
    height: usize,
}

/// In a grid of `height` rows of `width`, every cell's index is below `width * height`,
/// and a row ends where the next begins.
pub proof fn lemma_cell_index(width: int, height: int, row: int, col: int)
    requires
        0 <= row < height,
        0 <= col < width,
    ensures
        0 <= row * width + col < width * height,
        (row + 1) * width == row * width + width,
        (row + 1) * width <= width * height,
        0 <= row * width,
{
    assert(0 <= row * width && (row + 1) * width == row * width + width && (row + 1) * width
        <= width * height) by (nonlinear_arith)
        requires
            0 <= row < height,
            0 < width,
    ;
}

impl View for Bitmap {
    type V = BitmapView;

    closed spec fn view(&self) -> BitmapView {
        BitmapView {
            width: self.width as nat,
            height: self.height as nat,
            bits: stored_bits(self.bits),
        }
    }
}

impl Bitmap {
    #[verifier::type_invariant]
    spec fn inv(&self) -> bool {
        self@.wf()
    }

    /// The product of the two sides, when it is no more than a bit store takes.
    fn area(width: usize, height: usize) -> (total: Option<usize>)
        ensures
            width * height <= spec_max_bits() <==> total is Some,
            total matches Some(n) ==> n == width * height,
    {
        match width.checked_mul(height) {
            Some(n) => {
                if n <= max_bits() {
                    Some(n)
                } else {
                    None
                }
            },
            None => None,
        }
    }

    /// A blank bitmap: every dot is clear.
    ///
    /// It is refused when `width * height` is more than a bit store takes.
    pub fn new(width: usize, height: usize) -> (r: Result<Bitmap, PrinterError>)
        ensures
            width * height > spec_max_bits() <==> r is Err,
            r is Err ==> r == Err::<Bitmap, PrinterError>(PrinterError::Precondition),
            r matches Ok(bitmap) ==> bitmap@ == (BitmapView {
                width: width as nat,
                height: height as nat,
                bits: Seq::new((width * height) as nat, |i: int| false),
            }) && bitmap@.wf(),
    {
        let total = match Self::area(width, height) {
            Some(n) => n,
            None => {
                return Err(PrinterError::Precondition);
            },
        };
        let mut bits = store_new();
        let mut i: usize = 0;
        while i < total
            invariant
                i <= total <= spec_max_bits(),
                stored_bits(bits) == Seq::new(i as nat, |k: int| false),
            decreases total - i,
        {
            store_push(&mut bits, false);
            i += 1;
            assert(stored_bits(bits) =~= Seq::new(i as nat, |k: int| false));
        }
        Ok(Bitmap { bits, width, height })
    }

    /// The bitmap that packed bytes hold: the first `width * height` bits of `bytes`,
    /// most significant bit first.
    ///
    /// It is refused unless the sizes fit the data: see [`dimensions_fit`].
    pub fn from_bytes(width: usize, height: usize, bytes: &[u8]) -> (r: Result<
        Bitmap,
        PrinterError,
    >)
        ensures
            dimensions_fit(width as int, height as int, bytes@.len() as int) <==> r is Ok,
            r is Err ==> r == Err::<Bitmap, PrinterError>(PrinterError::Precondition),
            r matches Ok(bitmap) ==> bitmap@ == (BitmapView {
                width: width as nat,
                height: height as nat,
                bits: unpacked(bytes@).take(width * height),
            }) && bitmap@.wf(),
    {
        let total = match Self::area(width, height) {
            Some(n) => n,
            None => {
                return Err(PrinterError::Precondition);
            },
        };
        if bytes.len() != (total + 7) / 8 {
            return Err(PrinterError::Precondition);
        }
        let mut bits = store_from_bytes(bytes);
        store_truncate(&mut bits, total);
        assert(stored_bits(bits) =~= unpacked(bytes@).take(total as int));
        Ok(Bitmap { bits, width, height })
    }

    /// The bitmap of a grey image: a dot is set where the pixel is brighter than
    /// `threshold`.
    ///
    /// It is refused unless there is exactly one pixel for each dot, and no more dots than
    /// a bit store takes.
    pub fn from_luma(width: usize, height: usize, pixels: &[u8], threshold: u8) -> (r: Result<
        Bitmap,
        PrinterError,
    >)
        ensures
            (width * height <= spec_max_bits() && pixels@.len() == width * height) <==> r is Ok,
            r is Err ==> r == Err::<Bitmap, PrinterError>(PrinterError::Precondition),
            r matches Ok(bitmap) ==> bitmap@ == (BitmapView {
                width: width as nat,
                height: height as nat,
                bits: Seq::new(pixels@.len(), |i: int| pixels@[i] > threshold),
            }) && bitmap@.wf(),
    {
        let total = match Self::area(width, height) {
            Some(n) => n,
            None => {
                return Err(PrinterError::Precondition);
            },
        };
        if pixels.len() != total {
            return Err(PrinterError::Precondition);
        }
        let mut bits = store_new();
        let mut i: usize = 0;
        while i < total
            invariant
                i <= total <= spec_max_bits(),
                total == pixels@.len(),
                stored_bits(bits) == Seq::new(i as nat, |k: int| pixels@[k] > threshold),
            decreases total - i,
        {
            store_push(&mut bits, pixels[i] > threshold);
            i += 1;
            assert(stored_bits(bits) =~= Seq::new(i as nat, |k: int| pixels@[k] > threshold));
        }
        Ok(Bitmap { bits, width, height })
    }

    /// Dots in a row.
    pub fn width(&self) -> (w: usize)
        ensures
            w == self@.width,
            self@.wf(),
    {
        proof {
            use_type_invariant(self);
        }
        self.width
    }

    /// Rows.
    pub fn height(&self) -> (h: usize)
        ensures
            h == self@.height,
            self@.wf(),
    {
        proof {
            use_type_invariant(self);
        }
        self.height
    }

    /// The dot in row `row`, column `col`; `None` outside the bitmap.
    pub fn get(&self, row: usize, col: usize) -> (dot: Option<bool>)
        ensures
            (row < self@.height && col < self@.width) <==> dot is Some,
            dot matches Some(bit) ==> bit == self@.dot(row as int, col as int),
    {
        proof {
            use_type_invariant(self);
        }
        if row < self.height && col < self.width {
            proof {
                lemma_cell_index(self.width as int, self.height as int, row as int, col as int);
            }
            Some(store_get(&self.bits, row * self.width + col))
        } else {
            None
        }
    }

    /// Copies `src` over this bitmap, its top left corner at column `x`, row `y`.
    ///
    /// It is refused, and nothing changes, unless `src` lies within this bitmap.
    pub fn blit(&mut self, src: &Bitmap, x: usize, y: usize) -> (r: Result<(), PrinterError>)
        ensures
            old(self)@.takes(src@, x as int, y as int) <==> r is Ok,
            r is Ok ==> final(self)@ == old(self)@.blitted(src@, x as int, y as int),
            r is Err ==> r == Err::<(), PrinterError>(PrinterError::Precondition) && final(self)@
                == old(self)@,
    {
        proof {
            use_type_invariant(&*self);
            use_type_invariant(src);
        }
        if x > self.width || src.width > self.width - x || y > self.height || src.height
            > self.height - y {
            return Err(PrinterError::Precondition);
        }
        let ghost start = self@;
        let ghost from = src@;
        let width = self.width;
        assert(self@.bits =~= start.blitted_upto(from, x as int, y as int, 0, 0).bits);
        let mut row: usize = 0;
        while row < src.height
            invariant
                start == old(self)@,
                start.wf(),
                from == src@,
                from.wf(),
                start.takes(from, x as int, y as int),
                width == start.width,
                row <= src.height,
                self@ == start.blitted_upto(from, x as int, y as int, row as int, 0),
            decreases src.height - row,
        {
            let mut col: usize = 0;
            while col < src.width
                invariant
                    start == old(self)@,
                    start.wf(),
                    from == src@,
                    from.wf(),
                    start.takes(from, x as int, y as int),
                    width == start.width,
                    row < src.height,
                    col <= src.width,
                    self@ == start.blitted_upto(from, x as int, y as int, row as int, col as int),
                decreases src.width - col,
            {
                proof {
                    lemma_cell_index(from.width as int, from.height as int, row as int, col as int);
                    lemma_cell_index(
                        start.width as int,
                        start.height as int,
                        row + y,
                        col + x,
                    );
                }
                let bit = store_get(&src.bits, row * src.width + col);
                let index: usize = (row + y) * width + (col + x);
                let ghost before = self@;
                store_set(&mut self.bits, index, bit);
                proof {
                    let w = width as int;
                    lemma_fundamental_div_mod_converse(index as int, w, row + y, col + x);
                    let after = start.blitted_upto(
                        from,
                        x as int,
                        y as int,
                        row as int,
                        col + 1,
                    );
                    assert forall|i: int| 0 <= i < start.bits.len() implies self@.bits[i]
                        == after.bits[i] by {
                        lemma_fundamental_div_mod(i, w);
                        if i / w == row + y && i % w == col + x {
                            assert(w * (i / w) == (row + y) * w) by (nonlinear_arith)
                                requires
                                    i / w == row + y,
                            ;
                            assert(i == index);
                        }
                    }
                    assert(self@.bits =~= after.bits);
                }
                col += 1;
            }
            assert(self@.bits =~= start.blitted_upto(from, x as int, y as int, row + 1, 0).bits);
            row += 1;
        }
        assert(self@.bits =~= start.blitted(from, x as int, y as int).bits);
        Ok(())
    }

    /// A row as text, for a terminal: `#` for a set dot, a blank for a clear one. `None`
    /// for a row that the bitmap does not have.
    pub fn row_text(&self, row: usize) -> (text: Option<String>)
        ensures
            row < self@.height <==> text is Some,
            text matches Some(t) ==> t@ == self@.row_chars(row as int),
    {
        proof {
            use_type_invariant(self);
        }
        if row >= self.height {
            return None;
        }
        let mut text = String::new();
        let mut col: usize = 0;
        while col < self.width
            invariant
                self@.wf(),
                row < self.height,
                col <= self.width,
                self.width == self@.width,
                self.height == self@.height,
                stored_bits(self.bits) == self@.bits,
                text@ == self@.row_chars(row as int).take(col as int),
            decreases self.width - col,
        {
            proof {
                lemma_cell_index(self.width as int, self.height as int, row as int, col as int);
                reveal_strlit("#");
                reveal_strlit(" ");
            }
            let ghost before = text@;
            if store_get(&self.bits, row * self.width + col) {
                text.append("#");
                assert(text@ =~= before.push('#'));
            } else {
                text.append(" ");
                assert(text@ =~= before.push(' '));
            }
            col += 1;
            assert(text@ =~= self@.row_chars(row as int).take(col as int));
        }
        assert(text@ =~= self@.row_chars(row as int));
        Some(text)
    }

    /// The bit store behind the bitmap.
    pub(crate) fn store(&self) -> (store: &BitBuf)
        ensures
            stored_bits(*store) == self@.bits,
            self@.wf(),
    {
        proof {
            use_type_invariant(self);
        }
        &self.bits
    }
}

} // verus!
