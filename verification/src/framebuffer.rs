//! The pixel buffer that the renderer paints into.

use vstd::prelude::*;

verus! {

/// Mathematical model of a pixel buffer: its size and its packed RGB pixels
/// in row-major order.
pub struct Canvas {
    pub width: nat,
    pub height: nat,
    pub pixels: Seq<u32>,
}

impl Canvas {
    /// The canvas stores exactly one pixel per position.
    pub open spec fn wf(self) -> bool {
        self.pixels.len() == self.width * self.height
    }

    /// The pixel position `(x, y)` lies on the canvas.
    pub open spec fn contains(self, x: int, y: int) -> bool {
        0 <= x < self.width && 0 <= y < self.height
    }

    /// The colour at `(x, y)`, for a position on the canvas.
    pub open spec fn at(self, x: int, y: int) -> u32 {
        self.pixels[y * self.width + x]
    }

    /// Both canvases have the same size, and both are well formed.
    pub open spec fn same_size(self, other: Canvas) -> bool {
        &&& self.wf()
        &&& other.wf()
        &&& self.width == other.width
        &&& self.height == other.height
    }

    /// The canvas with the pixel at `(x, y)` set to `color`; unchanged when
    /// the position lies off the canvas.
    pub open spec fn paint(self, x: int, y: int, color: u32) -> Canvas {
        if self.contains(x, y) {
            Canvas { pixels: self.pixels.update(y * self.width + x, color), ..self }
        } else {
            self
        }
    }

    /// Whether `(x, y)` lies in the rectangle with corner `(left, top)` and
    /// the given extent.
    pub open spec fn in_rect(x: int, y: int, left: int, top: int, wide: int, high: int) -> bool {
        left <= x < left + wide && top <= y < top + high
    }

    /// Distinct positions on the canvas are stored at distinct indices, all
    /// of them inside the pixel sequence.
    pub proof fn lemma_index(self, x: int, y: int, i: int, j: int)
        requires
            self.wf(),
            self.contains(x, y),
            self.contains(i, j),
        ensures
            0 <= y * self.width + x < self.pixels.len(),
            (y * self.width + x == j * self.width + i) <==> (x == i && y == j),
    {
        let w = self.width as int;
        let h = self.height as int;
        assert(0 <= y * w + x < w * h) by (nonlinear_arith)
            requires
                0 <= x < w,
                0 <= y < h,
        ;
        if y * w + x == j * w + i {
            assert(y == j) by (nonlinear_arith)
                requires
                    y * w + x == j * w + i,
                    0 <= x < w,
                    0 <= i < w,
            ;
        }
    }

    /// Painting one pixel changes that pixel and no other.
    pub proof fn lemma_paint(self, x: int, y: int, color: u32, i: int, j: int)
        requires
            self.wf(),
            self.contains(i, j),
        ensures
            self.paint(x, y, color).same_size(self),
            self.paint(x, y, color).at(i, j) == (if i == x && j == y {
                color
            } else {
                self.at(i, j)
            }),
    {
        if self.contains(x, y) {
            self.lemma_index(x, y, i, j);
            self.lemma_index(i, j, x, y);
        }
    }
}

/// A pixel buffer of packed RGB values, one `u32` per pixel, row by row.
pub struct Framebuffer {
    width: usize,
    height: usize,
    buffer: Vec<u32>,
}

impl View for Framebuffer {
    type V = Canvas;

    closed spec fn view(&self) -> Canvas {
        Canvas { width: self.width as nat, height: self.height as nat, pixels: self.buffer@ }
    }
}

impl Framebuffer {
    /// Every framebuffer is well formed.
    #[verifier::type_invariant]
    pub open spec fn inv(self) -> bool {
        self@.wf()
    }

    /// A buffer of the given size with every pixel zero.
    pub fn new(width: usize, height: usize) -> (fb: Framebuffer)
        requires
            width * height <= usize::MAX,
        ensures
            fb@.wf(),
            fb@.width == width,
            fb@.height == height,
            forall|i: int| 0 <= i < fb@.pixels.len() ==> fb@.pixels[i] == 0,
    {
        let buffer: Vec<u32> = vec![0u32; width * height];
        Framebuffer { width, height, buffer }
    }

    /// Number of pixels in a row.
    pub fn width(&self) -> (w: usize)
        ensures
            w == self@.width,
    {
        self.width
    }

    /// Number of rows.
    pub fn height(&self) -> (h: usize)
        ensures
            h == self@.height,
    {
        self.height
    }

    /// The pixels, row by row, for handing to a display.
    pub fn buffer(&self) -> (pixels: &Vec<u32>)
        ensures
            pixels@ == self@.pixels,
            self@.wf(),
    {
        proof {
            use_type_invariant(self);
        }
        &self.buffer
    }

    /// The colour at `(x, y)`, if the position lies in the buffer.
    pub fn pixel(&self, x: usize, y: usize) -> (color: Option<u32>)
        ensures
            color == (if self@.contains(x as int, y as int) {
                Some(self@.at(x as int, y as int))
            } else {
                None
            }),
    {
        proof {
            use_type_invariant(self);
        }
        if x < self.width && y < self.height {
            proof {
                self@.lemma_index(x as int, y as int, x as int, y as int);
            }
            let count: usize = self.buffer.len();
            Some(self.buffer[y * self.width + x])
        } else {
            None
        }
    }

    /// Sets every pixel to `color`.
    pub fn clear(&mut self, color: u32)
        ensures
            final(self)@.same_size(old(self)@),
            forall|i: int| 0 <= i < final(self)@.pixels.len() ==> final(self)@.pixels[i] == color,
    {
        proof {
            use_type_invariant(&*self);
        }
        let count: usize = self.buffer.len();
        self.buffer = vec![color; count];
    }

    /// Sets the pixel at `(x, y)` to `color`. A position outside the buffer
    /// is ignored.
    pub fn point(&mut self, x: usize, y: usize, color: u32)
        ensures
            final(self)@ == old(self)@.paint(x as int, y as int, color),
            final(self)@.same_size(old(self)@),
    {
        proof {
            use_type_invariant(&*self);
        }
        if x < self.width && y < self.height {
            proof {
                self@.lemma_index(x as int, y as int, x as int, y as int);
            }
            let count: usize = self.buffer.len();
            let index: usize = y * self.width + x;
            self.buffer[index] = color;
        }
    }

    /// Fills the rectangle with corner `(left, top)` and the given extent
    /// with `color`. The part of it that lies outside the buffer is ignored.
    pub fn fill_rect(&mut self, left: usize, top: usize, wide: usize, high: usize, color: u32)
        ensures
            final(self)@.same_size(old(self)@),
            forall|x: int, y: int|
                old(self)@.contains(x, y) ==> #[trigger] final(self)@.at(x, y) == (if Canvas::in_rect(
                    x,
                    y,
                    left as int,
                    top as int,
                    wide as int,
                    high as int,
                ) {
                    color
                } else {
                    old(self)@.at(x, y)
                }),
    {
        proof {
            use_type_invariant(&*self);
        }
        let right: usize = left.saturating_add(wide);
        let bottom: usize = top.saturating_add(high);
        let x_end: usize = if right < self.width {
            right
        } else {
            self.width
        };
        let y_end: usize = if bottom < self.height {
            bottom
        } else {
            self.height
        };
        let mut y: usize = top;
        while y < y_end
            invariant
                self@.same_size(old(self)@),
                top <= y,
                y <= y_end || y == top,
                y_end <= self@.height,
                x_end <= self@.width,
                y_end <= top + high,
                x_end <= left + wide,
                y_end == self@.height || y_end == top + high,
                x_end == self@.width || x_end == left + wide,
                forall|i: int, j: int|
                    old(self)@.contains(i, j) ==> #[trigger] self@.at(i, j) == (if Canvas::in_rect(
                        i,
                        j,
                        left as int,
                        top as int,
                        wide as int,
                        y - top,
                    ) {
                        color
                    } else {
                        old(self)@.at(i, j)
                    }),
            decreases y_end - y,
        {
            let mut x: usize = left;
            while x < x_end
                invariant
                    self@.same_size(old(self)@),
                    top <= y < y_end,
                    left <= x,
                    x <= x_end || x == left,
                    y_end <= self@.height,
                    x_end <= self@.width,
                    x_end <= left + wide,
                    x_end == self@.width || x_end == left + wide,
                    forall|i: int, j: int|
                        old(self)@.contains(i, j) ==> #[trigger] self@.at(i, j) == (if Canvas::in_rect(
                            i,
                            j,
                            left as int,
                            top as int,
                            wide as int,
                            y - top,
                        ) || (j == y && left <= i < x) {
                            color
                        } else {
                            old(self)@.at(i, j)
                        }),
                decreases x_end - x,
            {
                let ghost before = self@;
                self.point(x, y, color);
                proof {
                    assert forall|i: int, j: int| old(self)@.contains(i, j) implies #[trigger] self@.at(
                        i,
                        j,
                    ) == (if Canvas::in_rect(i, j, left as int, top as int, wide as int, y - top) || (j
                        == y && left <= i < x + 1) {
                        color
                    } else {
                        old(self)@.at(i, j)
                    }) by {
                        before.lemma_paint(x as int, y as int, color, i, j);
                    }
                }
                x = x + 1;
            }
            y = y + 1;
        }
    }
}

} // verus!
