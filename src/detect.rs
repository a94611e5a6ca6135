//! Background detection: deciding whether a page shows a plain dark or light border around
//! the watermark area, and normalising such a page into a reference.
use vstd::prelude::*;
use crate::raster::{pixel_of, same_rgb, Raster, Rgb};

verus! {

/// The detection rectangle, bounds included on all four sides.
#[derive(Debug, Clone, Copy, PartialEq, Eq, Structural)]
pub struct RectData {
    pub left: u32,
    pub top: u32,
    pub right: u32,
    pub bottom: u32,
}

/// Which reference a page can serve as.
#[derive(Debug, Clone, Copy, PartialEq, Eq, Structural)]
pub enum BackgroundKind {
    Dark,
    Light,
}

impl RectData {
    /// The rectangle lies inside a `width` x `height` image, its bounds ordered.
    pub open spec fn fits(&self, width: int, height: int) -> bool {
        self.left <= self.right < width && self.top <= self.bottom < height
    }

    /// Whether the pixel at column `x`, row `y` lies inside the rectangle or on its border.
    pub open spec fn contains(&self, x: int, y: int) -> bool {
        self.left <= x <= self.right && self.top <= y <= self.bottom
    }

    /// The number of pixels inside the rectangle, border included.
    pub open spec fn area(&self) -> int {
        (self.right - self.left + 1) * (self.bottom - self.top + 1)
    }

    /// The rectangle used when the caller names none:
    /// `left = floor(0.835 w)`, `top = floor(0.946 h)`, `right = floor(0.994 w)`,
    /// `bottom = floor(0.994 h)`.
    pub fn default_for(width: u32, height: u32) -> (r: RectData)
        ensures
            r.left == width * 835 / 1000,
            r.top == height * 946 / 1000,
            r.right == width * 994 / 1000,
            r.bottom == height * 994 / 1000,
            width >= 1 && height >= 1 ==> r.fits(width as int, height as int),
    {
        let w = width as u64;
        let h = height as u64;
        RectData {
            left: (w * 835 / 1000) as u32,
            top: (h * 946 / 1000) as u32,
            right: (w * 994 / 1000) as u32,
            bottom: (h * 994 / 1000) as u32,
        }
    }
}

/// The colour at the rectangle's top-left corner.
pub open spec fn corner(img: Raster, rect: RectData) -> Rgb {
    img.pixel(rect.left as int, rect.top as int)
}

/// Every pixel on the four border lines of the rectangle has colour `c`.
pub open spec fn border_uniform(img: Raster, rect: RectData, c: Rgb) -> bool {
    &&& forall|y: int| rect.top <= y <= rect.bottom ==>
        #[trigger] img.pixel(rect.left as int, y) == c && img.pixel(rect.right as int, y) == c
    &&& forall|x: int| rect.left <= x <= rect.right ==>
        #[trigger] img.pixel(x, rect.top as int) == c && img.pixel(x, rect.bottom as int) == c
}

/// Whether the pixel at linear index `i` lies in the rectangle.
pub open spec fn in_rect_at(img: Raster, rect: RectData, i: int) -> bool {
    rect.contains(i % (img.width as int), i / (img.width as int))
}

/// How many of the first `n` pixels lie in the rectangle and have colour `c`.
pub open spec fn count_in_rect(img: Raster, rect: RectData, c: Rgb, n: int) -> int
    decreases n,
{
    if n <= 0 {
        0
    } else {
        count_in_rect(img, rect, c, n - 1) + if in_rect_at(img, rect, n - 1) && pixel_of(img.data@, n - 1) == c {
            1int
        } else {
            0int
        }
    }
}

/// Every pixel in the rectangle has a red channel above 100.
pub open spec fn rect_bright(img: Raster, rect: RectData) -> bool {
    forall|i: int| 0 <= i < img.area() && #[trigger] in_rect_at(img, rect, i) ==> pixel_of(img.data@, i).0 > 100
}

/// Over nine tenths of the rectangle has the corner colour: no glyph is present.
pub open spec fn nearly_solid(img: Raster, rect: RectData) -> bool {
    10 * count_in_rect(img, rect, corner(img, rect), img.area() as int) > 9 * rect.area()
}

/// What a page can serve as: a dark reference when the corner colour is achromatic with red
/// at most 25, a light one when red is at least 230 and every pixel of the rectangle has red
/// above 100; neither when the corner colour is not achromatic, a border pixel differs from
/// it, or the rectangle is nearly solid.
pub open spec fn classification(img: Raster, rect: RectData) -> Option<BackgroundKind> {
    let c = corner(img, rect);
    if !(c.0 == c.1 && c.1 == c.2) {
        None
    } else if !border_uniform(img, rect, c) {
        None
    } else if nearly_solid(img, rect) {
        None
    } else if c.0 <= 25 {
        Some(BackgroundKind::Dark)
    } else if c.0 >= 230 && rect_bright(img, rect) {
        Some(BackgroundKind::Light)
    } else {
        None
    }
}

/// `out` is `img` with every pixel outside the rectangle set to the corner colour.
pub open spec fn is_normalized(out: Raster, img: Raster, rect: RectData) -> bool {
    &&& out.width == img.width
    &&& out.height == img.height
    &&& out.wf()
    &&& forall|i: int| 0 <= i < img.area() ==> #[trigger] pixel_of(out.data@, i) == if in_rect_at(img, rect, i) {
        pixel_of(img.data@, i)
    } else {
        corner(img, rect)
    }
}

/// Decides whether `img` can serve as a dark or light reference; see `classification`.
pub fn classify_background(img: &Raster, rect: &RectData) -> (r: Option<BackgroundKind>)
    requires
        img.wf(),
        rect.fits(img.width as int, img.height as int),
    ensures
        r == classification(*img, *rect),
{
    let c = img.get_pixel(rect.left, rect.top);
    if c.0 != c.1 || c.1 != c.2 {
        return None;
    }
    let mut y: u32 = rect.top;
    while y <= rect.bottom
        invariant
            img.wf(),
            rect.fits(img.width as int, img.height as int),
            c == corner(*img, *rect),
            rect.top <= y <= rect.bottom + 1,
            forall|yy: int| rect.top <= yy < y ==>
                #[trigger] img.pixel(rect.left as int, yy) == c && img.pixel(rect.right as int, yy) == c,
        decreases rect.bottom + 1 - y,
    {
        if !same_rgb(img.get_pixel(rect.left, y), c) || !same_rgb(img.get_pixel(rect.right, y), c) {
            return None;
        }
        y = y + 1;
    }
    let mut x: u32 = rect.left;
    while x <= rect.right
        invariant
            img.wf(),
            rect.fits(img.width as int, img.height as int),
            c == corner(*img, *rect),
            rect.left <= x <= rect.right + 1,
            forall|xx: int| rect.left <= xx < x ==>
                #[trigger] img.pixel(xx, rect.top as int) == c && img.pixel(xx, rect.bottom as int) == c,
        decreases rect.right + 1 - x,
    {
        if !same_rgb(img.get_pixel(x, rect.top), c) || !same_rgb(img.get_pixel(x, rect.bottom), c) {
            return None;
        }
        x = x + 1;
    }
    assert(border_uniform(*img, *rect, c));
    let len = img.data.len();
    let n: usize = len / 3;
    let w: usize = img.width as usize;
    let mut count: u64 = 0;
    let mut bright = true;
    let mut i: usize = 0;
    while i < n
        invariant
            img.wf(),
            w == img.width,
            w > 0,
            n == img.area(),
            3 * n == len,
            len == img.data@.len(),
            i <= n,
            count == count_in_rect(*img, *rect, c, i as int),
            count <= i,
            bright == forall|k: int| 0 <= k < i && #[trigger] in_rect_at(*img, *rect, k) ==> pixel_of(img.data@, k).0 > 100,
        decreases n - i,
    {
        let px = (img.data[3 * i], img.data[3 * i + 1], img.data[3 * i + 2]);
        let xx = i % w;
        let yy = i / w;
        let inside = rect.left as usize <= xx && xx <= rect.right as usize && rect.top as usize <= yy && yy <= rect.bottom as usize;
        assert(inside == in_rect_at(*img, *rect, i as int));
        if inside && same_rgb(px, c) {
            count = count + 1;
        }
        if inside && px.0 <= 100 {
            bright = false;
        }
        i = i + 1;
    }
    let rw: u64 = (rect.right - rect.left + 1) as u64;
    let rh: u64 = (rect.bottom - rect.top + 1) as u64;
    proof {
        assert(rw * rh <= 0x1_0000_0000 * 0x1_0000_0000) by (nonlinear_arith)
            requires
                rw <= 0x1_0000_0000,
                rh <= 0x1_0000_0000,
        ;
    }
    let area: u128 = (rw as u128) * (rh as u128);
    if 10 * (count as u128) > 9 * area {
        return None;
    }
    if c.0 <= 25 {
        Some(BackgroundKind::Dark)
    } else if c.0 >= 230 && bright {
        Some(BackgroundKind::Light)
    } else {
        None
    }
}

/// Sets every pixel of `img` outside the rectangle to the rectangle's corner colour.
pub fn normalize(img: &Raster, rect: &RectData) -> (out: Raster)
    requires
        img.wf(),
        rect.fits(img.width as int, img.height as int),
    ensures
        is_normalized(out, *img, *rect),
{
    let c = img.get_pixel(rect.left, rect.top);
    let len = img.data.len();
    let n: usize = len / 3;
    let w: usize = img.width as usize;
    let mut data: Vec<u8> = Vec::with_capacity(len);
    let mut i: usize = 0;
    while i < n
        invariant
            img.wf(),
            w == img.width,
            w > 0,
            n == img.area(),
            3 * n == len,
            len == img.data@.len(),
            i <= n,
            c == corner(*img, *rect),
            data@.len() == 3 * i,
            forall|k: int| 0 <= k < i ==> #[trigger] pixel_of(data@, k) == if in_rect_at(*img, *rect, k) {
                pixel_of(img.data@, k)
            } else {
                c
            },
        decreases n - i,
    {
        let xx = i % w;
        let yy = i / w;
        let inside = rect.left as usize <= xx && xx <= rect.right as usize && rect.top as usize <= yy && yy <= rect.bottom as usize;
        assert(inside == in_rect_at(*img, *rect, i as int));
        let ghost before = data@;
        if inside {
            data.push(img.data[3 * i]);
            data.push(img.data[3 * i + 1]);
            data.push(img.data[3 * i + 2]);
        } else {
            data.push(c.0);
            data.push(c.1);
            data.push(c.2);
        }
        assert forall|k: int| 0 <= k < i + 1 implies #[trigger] pixel_of(data@, k) == if in_rect_at(*img, *rect, k) {
            pixel_of(img.data@, k)
        } else {
            c
        } by {
            if k < i {
                assert(pixel_of(data@, k) == pixel_of(before, k));
            }
        }
        i = i + 1;
    }
    Raster { width: img.width, height: img.height, data }
}

} // verus!
