//! The image buffer: pixels in row-major order, filled from the first pixel
//! of the top row to the last pixel of the bottom row.

use crate::color::Color;
use vstd::prelude::*;

verus! {

/// An image as a mathematical value: its dimensions and the pixels stored
/// so far, row by row.
pub struct ImageView {
    pub width: nat,
    pub height: nat,
    pub pixels: Seq<Color>,
}

impl ImageView {
    /// The number of pixels of the finished image.
    pub open spec fn capacity(self) -> nat {
        self.width * self.height
    }

    /// No more pixels are stored than the dimensions allow.
    pub open spec fn well_formed(self) -> bool {
        self.pixels.len() <= self.capacity()
    }

    /// Every pixel of the image has been stored.
    pub open spec fn is_complete(self) -> bool {
        self.pixels.len() == self.capacity()
    }

    /// The row and the column of the pixel that is stored next, `None` for
    /// a complete image.
    pub open spec fn cursor(self) -> Option<(nat, nat)> {
        if self.pixels.len() < self.capacity() {
            Some((self.pixels.len() / self.width, self.pixels.len() % self.width))
        } else {
            None
        }
    }

    /// Pixels are stored in row-major order: the next pixel is the one at
    /// `row` and `column` exactly when that position lies inside the image
    /// and `row` full rows and `column` further pixels are stored already.
    pub proof fn lemma_cursor_row_major(self, row: nat, column: nat)
        ensures
            self.cursor() == Some((row, column)) <==> (row < self.height && column < self.width
                && row * self.width + column == self.pixels.len()),
    {
        let stored = self.pixels.len() as int;
        let width = self.width as int;
        let height = self.height as int;
        if row < height && column < width && row * width + column == stored {
            assert(stored < width * height) by (nonlinear_arith)
                requires
                    0 <= row < height,
                    0 <= column < width,
                    row * width + column == stored,
            ;
            vstd::arithmetic::div_mod::lemma_fundamental_div_mod_converse(
                stored,
                width,
                row as int,
                column as int,
            );
            assert(self.cursor() == Some((row, column)));
        }
        if self.cursor() == Some((row, column)) {
            assert(width > 0) by (nonlinear_arith)
                requires
                    0 <= stored < width * height,
                    0 <= width,
            ;
            assert(row == stored / width && column == stored % width);
            vstd::arithmetic::div_mod::lemma_fundamental_div_mod(stored, width);
            assert(width * row == row * width) by (nonlinear_arith);
            assert(row < height) by (nonlinear_arith)
                requires
                    0 <= stored < width * height,
                    width > 0,
                    stored == width * row + column,
                    0 <= column,
            ;
        }
    }
}

/// An image of fixed dimensions whose pixels arrive one at a time.
pub struct Image {
    width: u32,
    height: u32,
    buf: Vec<Color>,
}

impl View for Image {
    type V = ImageView;

    closed spec fn view(&self) -> ImageView {
        ImageView { width: self.width as nat, height: self.height as nat, pixels: self.buf@ }
    }
}

impl Image {
    #[verifier::type_invariant]
    spec fn fits(self) -> bool {
        self.buf@.len() <= self.width * self.height
    }

    /// An image of the given dimensions with no pixel stored yet.
    pub fn new(width: u32, height: u32) -> (image: Image)
        ensures
            image@ == (ImageView { width: width as nat, height: height as nat, pixels: Seq::empty() }),
    {
        Image { width, height, buf: Vec::new() }
    }

    /// The number of pixels in a row.
    pub fn width(&self) -> (width: u32)
        ensures
            width == self@.width,
    {
        self.width
    }

    /// The number of rows.
    pub fn height(&self) -> (height: u32)
        ensures
            height == self@.height,
    {
        self.height
    }

    /// The pixels stored so far, in row-major order.
    pub fn pixels(&self) -> (pixels: &Vec<Color>)
        ensures
            pixels@ == self@.pixels,
            self@.well_formed(),
    {
        proof {
            use_type_invariant(self);
        }
        &self.buf
    }

    /// The row and the column of the pixel that `push` stores next, `None`
    /// once the image is complete.
    pub fn next_pixel(&self) -> (next: Option<(u32, u32)>)
        ensures
            self@.well_formed(),
            match next {
                Some((row, column)) => self@.cursor() == Some((row as nat, column as nat)),
                None => self@.cursor().is_none(),
            },
    {
        proof {
            use_type_invariant(self);
        }
        let stored: u64 = self.buf.len() as u64;
        let width: u64 = self.width as u64;
        let height: u64 = self.height as u64;
        assert(width * height <= 0xffff_ffff * 0xffff_ffff) by (nonlinear_arith)
            requires
                width <= 0xffff_ffff,
                height <= 0xffff_ffff,
        ;
        if stored < width * height {
            assert(width > 0) by (nonlinear_arith)
                requires
                    stored < width * height,
            ;
            let row: u64 = stored / width;
            let column: u64 = stored % width;
            assert(row < height) by (nonlinear_arith)
                requires
                    stored < width * height,
                    width > 0,
                    row == stored / width,
            ;
            Some((row as u32, column as u32))
        } else {
            None
        }
    }

    /// Whether every pixel has been stored.
    pub fn is_complete(&self) -> (complete: bool)
        ensures
            self@.well_formed(),
            complete == self@.is_complete(),
    {
        self.next_pixel().is_none()
    }

    /// Stores `color` as the next pixel and returns `true`; leaves a
    /// complete image as it is and returns `false`.
    pub fn push(&mut self, color: Color) -> (stored: bool)
        ensures
            stored == !old(self)@.is_complete(),
            final(self)@.width == old(self)@.width,
            final(self)@.height == old(self)@.height,
            final(self)@.pixels == if stored {
                old(self)@.pixels.push(color)
            } else {
                old(self)@.pixels
            },
            final(self)@.well_formed(),
    {
        if self.is_complete() {
            false
        } else {
            // The buffer is moved out while it grows, so that the image is
            // within its dimensions whenever control can leave this function.
            let mut buf: Vec<Color> = Vec::new();
            core::mem::swap(&mut self.buf, &mut buf);
            buf.push(color);
            core::mem::swap(&mut self.buf, &mut buf);
            true
        }
    }
}

} // verus!
