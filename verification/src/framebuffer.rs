//! The render-resolution color buffer: a row-major vector of packed
//! 32-bit cells, one per pixel, sized once and fully rewritten each frame.

use vstd::prelude::*;

verus! {

use vstd::arithmetic::mul::lemma_mul_inequality;

/// Row-major index arithmetic stays inside the buffer.
pub proof fn lemma_row_major(x: int, y: int, w: int, h: int)
    by (nonlinear_arith)
    requires
        0 <= x < w,
        0 <= y < h,
    ensures
        0 <= y * w + x < w * h,
        y * w + x < h * w,
{
}

/// A framebuffer at the render resolution.
#[derive(Clone, Debug)]
pub struct Framebuffer {
    pub width: usize,
    pub height: usize,
    /// Packed cells, row major: the cell of pixel `(x, y)` sits at
    /// `y * width + x`.
    pub buffer: Vec<u32>,
}

impl Framebuffer {
    /// The size invariant: one cell per pixel.
    pub open spec fn wf(self) -> bool {
        self.buffer.len() == self.width * self.height
    }

    /// A framebuffer of the given resolution, cleared to black.
    pub fn new(width: usize, height: usize) -> (fb: Framebuffer)
        requires
            width * height <= usize::MAX,
        ensures
            fb.width == width,
            fb.height == height,
            fb.wf(),
            forall|i: int| 0 <= i < fb.buffer.len() ==> fb.buffer[i] == 0,
    {
        proof {
            if height > 0 {
                lemma_mul_inequality(1, height as int, width as int);
            }
        }
        let n = width * height;
        let mut buffer: Vec<u32> = Vec::new();
        let mut i: usize = 0;
        while i < n
            invariant
                i <= n,
                buffer.len() == i,
                forall|j: int| 0 <= j < i ==> buffer[j] == 0,
            decreases n - i,
        {
            buffer.push(0);
            i = i + 1;
        }
        Framebuffer { width, height, buffer }
    }

    /// Every cell reset to black; the resolution is unchanged.
    pub fn clear(&mut self)
        ensures
            final(self).width == old(self).width,
            final(self).height == old(self).height,
            final(self).buffer.len() == old(self).buffer.len(),
            forall|i: int| 0 <= i < final(self).buffer.len() ==> final(self).buffer[i] == 0,
    {
        let n = self.buffer.len();
        let mut buffer: Vec<u32> = Vec::new();
        let mut i: usize = 0;
        while i < n
            invariant
                i <= n,
                buffer.len() == i,
                forall|j: int| 0 <= j < i ==> buffer[j] == 0,
            decreases n - i,
        {
            buffer.push(0);
            i = i + 1;
        }
        self.buffer = buffer;
    }

    /// The cell of pixel `(x, y)`.
    pub fn point(&self, x: usize, y: usize) -> (v: u32)
        requires
            self.wf(),
            x < self.width,
            y < self.height,
        ensures
            v == self.buffer[y * self.width + x],
    {
        proof {
            lemma_row_major(x as int, y as int, self.width as int, self.height as int);
        }
        self.buffer[y * self.width + x]
    }
}

} // verus!
