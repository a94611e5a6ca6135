//! Decoded 8-bit RGB rasters, stored row-major with three bytes per pixel.
use vstd::prelude::*;

verus! {

/// A pixel as its three channels.
pub type Rgb = (u8, u8, u8);

/// An 8-bit RGB raster: `data` holds `width * height` pixels row by row, three bytes each.
#[derive(Debug, Clone)]
pub struct Raster {
    pub width: u32,
    pub height: u32,
    pub data: Vec<u8>,
}

/// The pixel at linear index `i` of a row-major RGB byte sequence.
pub open spec fn pixel_of(data: Seq<u8>, i: int) -> Rgb {
    (data[3 * i], data[3 * i + 1], data[3 * i + 2])
}

/// Whether every pixel of the byte sequence has equal channels.
pub open spec fn all_grey(data: Seq<u8>, n: int) -> bool {
    forall|i: int| 0 <= i < n ==> #[trigger] data[3 * i] == data[3 * i + 1] && data[3 * i + 1] == data[3 * i + 2]
}

/// Proof that a pixel inside the raster has its bytes inside the buffer.
pub proof fn lemma_index_in_bounds(x: int, y: int, w: int, h: int)
    requires
        0 <= x < w,
        0 <= y < h,
    ensures
        0 <= y * w + x < w * h,
{
    assert(y * w + x < w * h) by (nonlinear_arith)
        requires
            0 <= x < w,
            0 <= y < h,
    ;
    assert(0 <= y * w) by (nonlinear_arith)
        requires
            0 <= y,
            0 <= w,
    ;
}

/// Whether two pixels are equal in all three channels.
pub fn same_rgb(a: Rgb, b: Rgb) -> (r: bool)
    ensures
        r == (a == b),
{
    a.0 == b.0 && a.1 == b.1 && a.2 == b.2
}

impl Raster {
    /// The number of pixels.
    pub open spec fn area(&self) -> nat {
        (self.width * self.height) as nat
    }

    /// The buffer holds exactly three bytes per pixel.
    pub open spec fn wf(&self) -> bool {
        self.data@.len() == 3 * self.area()
    }

    /// The linear index of the pixel at column `x`, row `y`.
    pub open spec fn index_of(&self, x: int, y: int) -> int {
        y * self.width + x
    }

    /// The pixel at column `x`, row `y`.
    pub open spec fn pixel(&self, x: int, y: int) -> Rgb {
        pixel_of(self.data@, self.index_of(x, y))
    }

    /// The pixel at column `x`, row `y`.
    pub fn get_pixel(&self, x: u32, y: u32) -> (p: Rgb)
        requires
            self.wf(),
            x < self.width,
            y < self.height,
        ensures
            p == self.pixel(x as int, y as int),
    {
        let len = self.data.len();
        proof {
            lemma_index_in_bounds(x as int, y as int, self.width as int, self.height as int);
            assert(3 * (y * self.width + x) < len);
        }
        let i: usize = (y as usize) * (self.width as usize) + (x as usize);
        (self.data[3 * i], self.data[3 * i + 1], self.data[3 * i + 2])
    }

    /// Whether every pixel has equal red, green and blue channels.
    pub fn is_grey(&self) -> (r: bool)
        requires
            self.wf(),
        ensures
            r == all_grey(self.data@, self.area() as int),
    {
        let len = self.data.len();
        let n: usize = len / 3;
        let mut i: usize = 0;
        while i < n
            invariant
                n == self.area(),
                3 * n == self.data@.len(),
                len == self.data@.len(),
                self.wf(),
                i <= n,
                all_grey(self.data@, i as int),
            decreases n - i,
        {
            let r = self.data[3 * i];
            let g = self.data[3 * i + 1];
            let b = self.data[3 * i + 2];
            if r != g || g != b {
                return false;
            }
            i = i + 1;
        }
        true
    }

    /// The single-channel luminance plane of a grey raster: the red channel of each pixel.
    pub fn luma_plane(&self) -> (r: Vec<u8>)
        requires
            self.wf(),
        ensures
            r@.len() == self.area(),
            forall|i: int| 0 <= i < self.area() ==> #[trigger] r@[i] == self.data@[3 * i],
    {
        let len = self.data.len();
        let n: usize = len / 3;
        let mut out: Vec<u8> = Vec::with_capacity(n);
        let mut i: usize = 0;
        while i < n
            invariant
                n == self.area(),
                3 * n == self.data@.len(),
                len == self.data@.len(),
                self.wf(),
                i <= n,
                out@.len() == i,
                forall|k: int| 0 <= k < i ==> #[trigger] out@[k] == self.data@[3 * k],
            decreases n - i,
        {
            out.push(self.data[3 * i]);
            i = i + 1;
        }
        out
    }
}

/// Spreads a luminance plane back to three equal channels per pixel.
pub open spec fn expand_luma(plane: Seq<u8>) -> Seq<u8> {
    Seq::new(3 * plane.len(), |j: int| plane[j / 3])
}

} // verus!
