//! Raster drawing on RGBA images: horizontal lines, clipped straight lines
//! and scaled bitmap text.

use vstd::prelude::*;
use crate::text::chars_of;

verus! {

/// An RGBA image being drawn on. The `image` crate's buffer type cannot be
/// declared to Verus (a declaration with its `Pixel` bound is refused), so
/// the buffer is kept out of Verus's sight here and known through
/// `canvas_pixels` and `canvas_size`.
#[verifier::external_body]
pub struct Canvas {
    img: image::RgbaImage,
}

/// The pixels of a canvas, by position, as red, green, blue, alpha.
pub uninterp spec fn canvas_pixels(c: Canvas) -> Map<(u32, u32), (u8, u8, u8, u8)>;

/// The width and height of a canvas.
pub uninterp spec fn canvas_size(c: Canvas) -> (u32, u32);

/// The positions inside a `w` by `h` image.
pub open spec fn in_bounds(w: u32, h: u32) -> Set<(u32, u32)> {
    Set::new(|p: (u32, u32)| p.0 < w && p.1 < h)
}

/// A canvas holds exactly one pixel per position inside it.
pub open spec fn canvas_wf(c: Canvas) -> bool {
    canvas_pixels(c).dom() == in_bounds(canvas_size(c).0, canvas_size(c).1)
}

/// `m` with every position of `s` it holds set to `col`.
pub open spec fn paint(m: Map<(u32, u32), (u8, u8, u8, u8)>, s: Set<(u32, u32)>, col: (u8, u8, u8, u8)) -> Map<(u32, u32), (u8, u8, u8, u8)> {
    Map::new(|p: (u32, u32)| m.dom().contains(p), |p: (u32, u32)| if s.contains(p) { col } else { m[p] })
}

/// Whether a `w` by `h` RGBA image fits a buffer of `len` bytes: the row
/// length `4 * w` and the size `4 * w * h` fit `usize`, and the buffer holds
/// the size.
pub open spec fn raw_fits(w: u32, h: u32, len: int) -> bool {
    &&& 4 * (w as int) <= usize::MAX
    &&& 4 * (w as int) * (h as int) <= usize::MAX
    &&& 4 * (w as int) * (h as int) <= len
}

/// The byte offset of pixel `(x, y)` in a row-major RGBA buffer of width `w`.
pub open spec fn raw_offset(w: u32, x: u32, y: u32) -> int {
    (y as int * w as int + x as int) * 4
}

/// Calls `ImageBuffer::from_pixel`, which panics when the row length
/// `4 * w` or then the buffer size `4 * w * h` overflows `usize`, or the
/// buffer cannot be allocated (beyond `isize::MAX` bytes);
/// claims the size and that every pixel is `c`.
#[verifier::external_body]
fn image_from_pixel(w: u32, h: u32, c: (u8, u8, u8, u8)) -> (r: Canvas)
    requires
        4 * (w as int) <= usize::MAX,
        4 * (w as int) * (h as int) <= isize::MAX,
    ensures
        canvas_size(r) == (w, h),
        canvas_pixels(r).dom() == in_bounds(w, h),
        forall|p: (u32, u32)| #[trigger] in_bounds(w, h).contains(p) ==> canvas_pixels(r)[p] == c,
{
    Canvas { img: image::RgbaImage::from_pixel(w, h, image::Rgba([c.0, c.1, c.2, c.3])) }
}

/// Calls `ImageBuffer::from_raw`; claims that it succeeds exactly when
/// `4 * w` and then `4 * w * h` fit `usize` (the crate multiplies in that
/// order, checking each step) and the buffer holds at least `4 * w * h`
/// bytes, and that pixel `(x, y)` is then read, row by row, from the four
/// bytes at `raw_offset(w, x, y)`.
#[verifier::external_body]
fn image_from_raw(w: u32, h: u32, data: Vec<u8>) -> (r: Option<Canvas>)
    ensures
        r is Some <==> raw_fits(w, h, data@.len() as int),
        r matches Some(c) ==> {
            &&& canvas_size(c) == (w, h)
            &&& canvas_pixels(c).dom() == in_bounds(w, h)
            &&& forall|p: (u32, u32)| #[trigger] in_bounds(w, h).contains(p) ==> canvas_pixels(c)[p] == (
                data@[raw_offset(w, p.0, p.1)], data@[raw_offset(w, p.0, p.1) + 1],
                data@[raw_offset(w, p.0, p.1) + 2], data@[raw_offset(w, p.0, p.1) + 3])
        },
{
    image::RgbaImage::from_raw(w, h, data).map(|img| Canvas { img })
}

/// Calls `ImageBuffer::into_raw`; claims that the bytes of pixel `(x, y)`
/// stand at `raw_offset(w, x, y)`.
#[verifier::external_body]
fn image_into_raw(c: Canvas) -> (r: Vec<u8>)
    ensures
        r@.len() >= 4 * (canvas_size(c).0 as int) * (canvas_size(c).1 as int),
        forall|p: (u32, u32)| #[trigger] in_bounds(canvas_size(c).0, canvas_size(c).1).contains(p) ==> canvas_pixels(c)[p] == (
            r@[raw_offset(canvas_size(c).0, p.0, p.1)], r@[raw_offset(canvas_size(c).0, p.0, p.1) + 1],
            r@[raw_offset(canvas_size(c).0, p.0, p.1) + 2], r@[raw_offset(canvas_size(c).0, p.0, p.1) + 3]),
{
    c.img.into_raw()
}

/// Calls `ImageBuffer::dimensions`.
#[verifier::external_body]
fn image_dimensions(c: &Canvas) -> (r: (u32, u32))
    ensures
        r == canvas_size(*c),
{
    c.img.dimensions()
}

/// Calls `ImageBuffer::put_pixel`, which panics outside the image; claims
/// that only the pixel at `(x, y)` changes, to `col`, and the size stays.
#[verifier::external_body]
fn image_put_pixel(c: &mut Canvas, x: u32, y: u32, col: (u8, u8, u8, u8))
    requires
        x < canvas_size(*old(c)).0,
        y < canvas_size(*old(c)).1,
    ensures
        canvas_size(*final(c)) == canvas_size(*old(c)),
        canvas_pixels(*final(c)) == canvas_pixels(*old(c)).insert((x, y), col),
{
    c.img.put_pixel(x, y, image::Rgba([col.0, col.1, col.2, col.3]));
}

/// Calls `ImageBuffer::get_pixel`, which panics outside the image; claims
/// it reads the pixel at `(x, y)`.
#[verifier::external_body]
fn image_get_pixel(c: &Canvas, x: u32, y: u32) -> (r: (u8, u8, u8, u8))
    requires
        x < canvas_size(*c).0,
        y < canvas_size(*c).1,
    ensures
        r == canvas_pixels(*c)[(x, y)],
{
    let p = c.img.get_pixel(x, y);
    (p.0[0], p.0[1], p.0[2], p.0[3])
}

/// Calls `imageops::crop_imm` and `SubImage::to_image`; claims a `width`
/// by `height` copy of the region whose top-left corner is `(x, y)`, which
/// `requires` keeps inside the image (where the crate clamps nothing).
#[verifier::external_body]
fn image_crop(c: &Canvas, x: u32, y: u32, width: u32, height: u32) -> (r: Canvas)
    requires
        x as int + width as int <= canvas_size(*c).0 as int,
        y as int + height as int <= canvas_size(*c).1 as int,
    ensures
        canvas_size(r) == (width, height),
        canvas_pixels(r).dom() == in_bounds(width, height),
        forall|p: (u32, u32)| #[trigger] in_bounds(width, height).contains(p) ==>
            canvas_pixels(r)[p] == canvas_pixels(*c)[((p.0 + x) as u32, (p.1 + y) as u32)],
{
    Canvas { img: image::imageops::crop_imm(&c.img, x, y, width, height).to_image() }
}

impl Canvas {
    /// A `w` by `h` canvas filled with `col`.
    pub fn from_pixel(w: u32, h: u32, col: (u8, u8, u8, u8)) -> (r: Canvas)
        requires
            4 * (w as int) <= usize::MAX,
            4 * (w as int) * (h as int) <= isize::MAX,
        ensures
            canvas_wf(r),
            canvas_size(r) == (w, h),
            forall|p: (u32, u32)| #[trigger] in_bounds(w, h).contains(p) ==> canvas_pixels(r)[p] == col,
    {
        image_from_pixel(w, h, col)
    }

    /// A canvas over a row-major RGBA buffer, if the buffer is large enough.
    pub fn from_raw(w: u32, h: u32, data: Vec<u8>) -> (r: Option<Canvas>)
        ensures
            r is Some <==> raw_fits(w, h, data@.len() as int),
            r matches Some(c) ==> {
                &&& canvas_wf(c)
                &&& canvas_size(c) == (w, h)
                &&& forall|p: (u32, u32)| #[trigger] in_bounds(w, h).contains(p) ==> canvas_pixels(c)[p] == (
                    data@[raw_offset(w, p.0, p.1)], data@[raw_offset(w, p.0, p.1) + 1],
                    data@[raw_offset(w, p.0, p.1) + 2], data@[raw_offset(w, p.0, p.1) + 3])
            },
    {
        image_from_raw(w, h, data)
    }

    /// The row-major RGBA bytes of the canvas.
    pub fn into_raw(self) -> (r: Vec<u8>)
        ensures
            r@.len() >= 4 * (canvas_size(self).0 as int) * (canvas_size(self).1 as int),
            forall|p: (u32, u32)| #[trigger] in_bounds(canvas_size(self).0, canvas_size(self).1).contains(p) ==> canvas_pixels(self)[p] == (
                r@[raw_offset(canvas_size(self).0, p.0, p.1)], r@[raw_offset(canvas_size(self).0, p.0, p.1) + 1],
                r@[raw_offset(canvas_size(self).0, p.0, p.1) + 2], r@[raw_offset(canvas_size(self).0, p.0, p.1) + 3]),
    {
        image_into_raw(self)
    }

    /// The width and height.
    pub fn dimensions(&self) -> (r: (u32, u32))
        ensures
            r == canvas_size(*self),
    {
        image_dimensions(self)
    }

    /// Set the pixel at `(x, y)`.
    pub fn put_pixel(&mut self, x: u32, y: u32, col: (u8, u8, u8, u8))
        requires
            canvas_wf(*old(self)),
            x < canvas_size(*old(self)).0,
            y < canvas_size(*old(self)).1,
        ensures
            canvas_wf(*final(self)),
            canvas_size(*final(self)) == canvas_size(*old(self)),
            canvas_pixels(*final(self)) == canvas_pixels(*old(self)).insert((x, y), col),
    {
        image_put_pixel(self, x, y, col);
        assert(canvas_pixels(*self).dom() =~= in_bounds(canvas_size(*self).0, canvas_size(*self).1));
    }

    /// Read the pixel at `(x, y)`.
    pub fn get_pixel(&self, x: u32, y: u32) -> (r: (u8, u8, u8, u8))
        requires
            x < canvas_size(*self).0,
            y < canvas_size(*self).1,
        ensures
            r == canvas_pixels(*self)[(x, y)],
    {
        image_get_pixel(self, x, y)
    }
}

/// The part of the `width` by `height` rectangle at `(x, y)` inside a `w` by
/// `h` image: its size shortened to fit; `None` when nothing of it remains.
pub open spec fn spec_crop_region(w: u32, h: u32, x: u32, y: u32, width: u32, height: u32) -> Option<(u32, u32, u32, u32)> {
    let fw: int = if x < w { w - x } else { 0 };
    let fh: int = if y < h { h - y } else { 0 };
    let cw: int = if width < fw { width as int } else { fw };
    let ch: int = if height < fh { height as int } else { fh };
    if cw > 0 && ch > 0 { Some((x, y, cw as u32, ch as u32)) } else { None }
}

/// The region of a `w` by `h` image a screenshot is cut to.
pub fn crop_region(w: u32, h: u32, x: u32, y: u32, width: u32, height: u32) -> (r: Option<(u32, u32, u32, u32)>)
    ensures
        r == spec_crop_region(w, h, x, y, width, height),
{
    let fw: u32 = if x < w { w - x } else { 0 };
    let fh: u32 = if y < h { h - y } else { 0 };
    let cw: u32 = if width < fw { width } else { fw };
    let ch: u32 = if height < fh { height } else { fh };
    if cw > 0 && ch > 0 { Some((x, y, cw, ch)) } else { None }
}

/// A screenshot is never cut outside the image: the region lies inside it
/// and is not empty.
pub proof fn law_crop_inside_image(w: u32, h: u32, x: u32, y: u32, width: u32, height: u32)
    ensures
        spec_crop_region(w, h, x, y, width, height) matches Some((cx, cy, cw, ch)) ==>
            cx as int + cw as int <= w as int && cy as int + ch as int <= h as int && cw > 0 && ch > 0,
{
}

/// Cut a screenshot to the requested rectangle, shortened to fit the image;
/// the whole image is kept when nothing of the rectangle remains.
pub fn crop_screenshot(img: Canvas, x: u32, y: u32, width: u32, height: u32) -> (r: Canvas)
    requires
        canvas_wf(img),
    ensures
        canvas_wf(r),
        match spec_crop_region(canvas_size(img).0, canvas_size(img).1, x, y, width, height) {
            Some((cx, cy, cw, ch)) => canvas_size(r) == (cw, ch)
                && forall|p: (u32, u32)| #[trigger] in_bounds(cw, ch).contains(p) ==>
                    canvas_pixels(r)[p] == canvas_pixels(img)[((p.0 + cx) as u32, (p.1 + cy) as u32)],
            None => r == img,
        },
{
    let (w, h) = img.dimensions();
    match crop_region(w, h, x, y, width, height) {
        Some((cx, cy, cw, ch)) => image_crop(&img, cx, cy, cw, ch),
        None => img,
    }
}

/// The pixels a horizontal line covers: row `y`, columns `x1` up to (not
/// including) `x2`, inside the canvas.
pub open spec fn hline_set(x1: u32, x2: u32, y: u32, w: u32, h: u32) -> Set<(u32, u32)> {
    Set::new(|p: (u32, u32)| p.1 == y && y < h && x1 <= p.0 && p.0 < x2 && p.0 < w)
}

/// Draw a horizontal line on row `y` from column `x1` up to `x2`, clipped
/// to the canvas.
pub fn draw_hline(img: &mut Canvas, x1: u32, x2: u32, y: u32, color: (u8, u8, u8, u8))
    requires
        canvas_wf(*old(img)),
    ensures
        canvas_wf(*final(img)),
        canvas_size(*final(img)) == canvas_size(*old(img)),
        canvas_pixels(*final(img)) == paint(canvas_pixels(*old(img)),
            hline_set(x1, x2, y, canvas_size(*old(img)).0, canvas_size(*old(img)).1), color),
{
    let (w, h) = img.dimensions();
    let ghost m0 = canvas_pixels(*img);
    if y >= h {
        assert(canvas_pixels(*img) =~= paint(m0, hline_set(x1, x2, y, w, h), color));
        return;
    }
    let end = if x2 < w { x2 } else { w };
    let mut x = x1;
    assert(canvas_pixels(*img) =~= paint(m0, hline_set(x1, x1, y, w, h), color));
    while x < end
        invariant
            canvas_wf(*img),
            canvas_size(*img) == (w, h),
            m0.dom() == in_bounds(w, h),
            y < h,
            end <= w,
            end <= x2,
            x1 <= x,
            x == x1 || x <= end,
            canvas_pixels(*img) == paint(m0, hline_set(x1, x, y, w, h), color),
        decreases end - x,
    {
        img.put_pixel(x, y, color);
        x = x + 1;
        assert(canvas_pixels(*img) =~= paint(m0, hline_set(x1, x, y, w, h), color));
    }
    assert(hline_set(x1, x, y, w, h) =~= hline_set(x1, x2, y, w, h));
}

/// The pixels of the `scale` by `scale` block with top-left corner
/// `(bx, by)`, inside a `w` by `h` canvas.
pub open spec fn block_set(bx: int, by: int, scale: int, w: u32, h: u32) -> Set<(u32, u32)> {
    Set::new(|p: (u32, u32)| bx <= p.0 < bx + scale && by <= p.1 < by + scale && p.0 < w && p.1 < h)
}

/// Painting twice with one colour paints the union.
pub proof fn lemma_paint_union(m: Map<(u32, u32), (u8, u8, u8, u8)>, a: Set<(u32, u32)>, b: Set<(u32, u32)>, col: (u8, u8, u8, u8))
    ensures
        paint(paint(m, a, col), b, col) == paint(m, a.union(b), col),
{
    assert(paint(paint(m, a, col), b, col) =~= paint(m, a.union(b), col));
}

/// Fill the block of `scale` by `scale` pixels at `(bx, by)`, clipped to
/// the canvas.
fn fill_block(img: &mut Canvas, bx: u32, by: u32, scale: u32, color: (u8, u8, u8, u8))
    requires
        canvas_wf(*old(img)),
        bx as int + scale as int <= u32::MAX + 1,
        by as int + scale as int <= u32::MAX + 1,
    ensures
        canvas_wf(*final(img)),
        canvas_size(*final(img)) == canvas_size(*old(img)),
        canvas_pixels(*final(img)) == paint(canvas_pixels(*old(img)),
            block_set(bx as int, by as int, scale as int, canvas_size(*old(img)).0, canvas_size(*old(img)).1), color),
{
    let (w, h) = img.dimensions();
    let ghost m0 = canvas_pixels(*img);
    let mut sy: u32 = 0;
    assert(canvas_pixels(*img) =~= paint(m0, block_set(bx as int, by as int, 0, w, h), color));
    while sy < scale
        invariant
            canvas_wf(*img),
            canvas_size(*img) == (w, h),
            m0.dom() == in_bounds(w, h),
            sy <= scale,
            bx as int + scale as int <= u32::MAX + 1,
            by as int + scale as int <= u32::MAX + 1,
            canvas_pixels(*img) == paint(m0,
                Set::new(|p: (u32, u32)| bx <= p.0 < bx + scale && by <= p.1 < by + sy && p.0 < w && p.1 < h), color),
        decreases scale - sy,
    {
        let ghost before = canvas_pixels(*img);
        let mut sx: u32 = 0;
        while sx < scale
            invariant
                canvas_wf(*img),
                canvas_size(*img) == (w, h),
                m0.dom() == in_bounds(w, h),
                sy < scale,
                sx <= scale,
                bx as int + scale as int <= u32::MAX + 1,
                by as int + scale as int <= u32::MAX + 1,
                canvas_pixels(*img) == paint(m0,
                    Set::new(|p: (u32, u32)| (bx <= p.0 < bx + scale && by <= p.1 < by + sy && p.0 < w && p.1 < h)
                        || (bx <= p.0 < bx + sx && p.1 == by + sy && p.0 < w && p.1 < h)), color),
            decreases scale - sx,
        {
            let px = bx + sx;
            let py = by + sy;
            if px < w && py < h {
                img.put_pixel(px, py, color);
            }
            sx = sx + 1;
            assert(canvas_pixels(*img) =~= paint(m0,
                Set::new(|p: (u32, u32)| (bx <= p.0 < bx + scale && by <= p.1 < by + sy && p.0 < w && p.1 < h)
                    || (bx <= p.0 < bx + sx && p.1 == by + sy && p.0 < w && p.1 < h)), color));
        }
        sy = sy + 1;
        assert(canvas_pixels(*img) =~= paint(m0,
            Set::new(|p: (u32, u32)| bx <= p.0 < bx + scale && by <= p.1 < by + sy && p.0 < w && p.1 < h), color));
    }
    assert(canvas_pixels(*img) =~= paint(m0, block_set(bx as int, by as int, scale as int, w, h), color));
}

/// The 5x7 bitmap of a character: seven rows, the leftmost column in bit 4.
pub open spec fn spec_glyph(ch: char) -> Seq<u8> {
    match ch {
        '0' => seq![0b01110u8, 0b10001u8, 0b10011u8, 0b10101u8, 0b11001u8, 0b10001u8, 0b01110u8],
        '1' => seq![0b00100u8, 0b01100u8, 0b00100u8, 0b00100u8, 0b00100u8, 0b00100u8, 0b01110u8],
        '2' => seq![0b01110u8, 0b10001u8, 0b00001u8, 0b00110u8, 0b01000u8, 0b10000u8, 0b11111u8],
        '3' => seq![0b01110u8, 0b10001u8, 0b00001u8, 0b00110u8, 0b00001u8, 0b10001u8, 0b01110u8],
        '4' => seq![0b00010u8, 0b00110u8, 0b01010u8, 0b10010u8, 0b11111u8, 0b00010u8, 0b00010u8],
        '5' => seq![0b11111u8, 0b10000u8, 0b11110u8, 0b00001u8, 0b00001u8, 0b10001u8, 0b01110u8],
        '6' => seq![0b01110u8, 0b10000u8, 0b11110u8, 0b10001u8, 0b10001u8, 0b10001u8, 0b01110u8],
        '7' => seq![0b11111u8, 0b00001u8, 0b00010u8, 0b00100u8, 0b01000u8, 0b01000u8, 0b01000u8],
        '8' => seq![0b01110u8, 0b10001u8, 0b10001u8, 0b01110u8, 0b10001u8, 0b10001u8, 0b01110u8],
        '9' => seq![0b01110u8, 0b10001u8, 0b10001u8, 0b01111u8, 0b00001u8, 0b00001u8, 0b01110u8],
        'A' | 'a' => seq![0b01110u8, 0b10001u8, 0b10001u8, 0b11111u8, 0b10001u8, 0b10001u8, 0b10001u8],
        'B' | 'b' => seq![0b11110u8, 0b10001u8, 0b10001u8, 0b11110u8, 0b10001u8, 0b10001u8, 0b11110u8],
        'C' | 'c' => seq![0b01110u8, 0b10001u8, 0b10000u8, 0b10000u8, 0b10000u8, 0b10001u8, 0b01110u8],
        'D' | 'd' => seq![0b11110u8, 0b10001u8, 0b10001u8, 0b10001u8, 0b10001u8, 0b10001u8, 0b11110u8],
        'E' | 'e' => seq![0b11111u8, 0b10000u8, 0b10000u8, 0b11110u8, 0b10000u8, 0b10000u8, 0b11111u8],
        'F' | 'f' => seq![0b11111u8, 0b10000u8, 0b10000u8, 0b11110u8, 0b10000u8, 0b10000u8, 0b10000u8],
        'G' | 'g' => seq![0b01110u8, 0b10001u8, 0b10000u8, 0b10111u8, 0b10001u8, 0b10001u8, 0b01110u8],
        'H' | 'h' => seq![0b10001u8, 0b10001u8, 0b10001u8, 0b11111u8, 0b10001u8, 0b10001u8, 0b10001u8],
        'I' | 'i' => seq![0b01110u8, 0b00100u8, 0b00100u8, 0b00100u8, 0b00100u8, 0b00100u8, 0b01110u8],
        'J' | 'j' => seq![0b00111u8, 0b00010u8, 0b00010u8, 0b00010u8, 0b00010u8, 0b10010u8, 0b01100u8],
        'K' | 'k' => seq![0b10001u8, 0b10010u8, 0b10100u8, 0b11000u8, 0b10100u8, 0b10010u8, 0b10001u8],
        'L' | 'l' => seq![0b10000u8, 0b10000u8, 0b10000u8, 0b10000u8, 0b10000u8, 0b10000u8, 0b11111u8],
        'M' | 'm' => seq![0b10001u8, 0b11011u8, 0b10101u8, 0b10101u8, 0b10001u8, 0b10001u8, 0b10001u8],
        'N' | 'n' => seq![0b10001u8, 0b11001u8, 0b10101u8, 0b10011u8, 0b10001u8, 0b10001u8, 0b10001u8],
        'O' | 'o' => seq![0b01110u8, 0b10001u8, 0b10001u8, 0b10001u8, 0b10001u8, 0b10001u8, 0b01110u8],
        'P' | 'p' => seq![0b11110u8, 0b10001u8, 0b10001u8, 0b11110u8, 0b10000u8, 0b10000u8, 0b10000u8],
        'Q' | 'q' => seq![0b01110u8, 0b10001u8, 0b10001u8, 0b10001u8, 0b10101u8, 0b10010u8, 0b01101u8],
        'R' | 'r' => seq![0b11110u8, 0b10001u8, 0b10001u8, 0b11110u8, 0b10100u8, 0b10010u8, 0b10001u8],
        'S' | 's' => seq![0b01110u8, 0b10001u8, 0b10000u8, 0b01110u8, 0b00001u8, 0b10001u8, 0b01110u8],
        'T' | 't' => seq![0b11111u8, 0b00100u8, 0b00100u8, 0b00100u8, 0b00100u8, 0b00100u8, 0b00100u8],
        'U' | 'u' => seq![0b10001u8, 0b10001u8, 0b10001u8, 0b10001u8, 0b10001u8, 0b10001u8, 0b01110u8],
        'V' | 'v' => seq![0b10001u8, 0b10001u8, 0b10001u8, 0b10001u8, 0b01010u8, 0b01010u8, 0b00100u8],
        'W' | 'w' => seq![0b10001u8, 0b10001u8, 0b10001u8, 0b10101u8, 0b10101u8, 0b11011u8, 0b10001u8],
        'X' | 'x' => seq![0b10001u8, 0b10001u8, 0b01010u8, 0b00100u8, 0b01010u8, 0b10001u8, 0b10001u8],
        'Y' | 'y' => seq![0b10001u8, 0b10001u8, 0b01010u8, 0b00100u8, 0b00100u8, 0b00100u8, 0b00100u8],
        'Z' | 'z' => seq![0b11111u8, 0b00001u8, 0b00010u8, 0b00100u8, 0b01000u8, 0b10000u8, 0b11111u8],
        ' ' => seq![0u8, 0u8, 0u8, 0u8, 0u8, 0u8, 0u8],
        '.' => seq![0b00000u8, 0b00000u8, 0b00000u8, 0b00000u8, 0b00000u8, 0b01100u8, 0b01100u8],
        ',' => seq![0b00000u8, 0b00000u8, 0b00000u8, 0b00000u8, 0b00110u8, 0b00100u8, 0b01000u8],
        ':' => seq![0b00000u8, 0b01100u8, 0b01100u8, 0b00000u8, 0b01100u8, 0b01100u8, 0b00000u8],
        '-' => seq![0b00000u8, 0b00000u8, 0b00000u8, 0b11111u8, 0b00000u8, 0b00000u8, 0b00000u8],
        '+' => seq![0b00000u8, 0b00100u8, 0b00100u8, 0b11111u8, 0b00100u8, 0b00100u8, 0b00000u8],
        '(' => seq![0b00010u8, 0b00100u8, 0b01000u8, 0b01000u8, 0b01000u8, 0b00100u8, 0b00010u8],
        ')' => seq![0b01000u8, 0b00100u8, 0b00010u8, 0b00010u8, 0b00010u8, 0b00100u8, 0b01000u8],
        '/' => seq![0b00001u8, 0b00010u8, 0b00010u8, 0b00100u8, 0b01000u8, 0b01000u8, 0b10000u8],
        '_' => seq![0b00000u8, 0b00000u8, 0b00000u8, 0b00000u8, 0b00000u8, 0b00000u8, 0b11111u8],
        '=' => seq![0b00000u8, 0b00000u8, 0b11111u8, 0b00000u8, 0b11111u8, 0b00000u8, 0b00000u8],
        '±' => seq![0b00100u8, 0b00100u8, 0b11111u8, 0b00100u8, 0b00100u8, 0b00000u8, 0b11111u8],
        '▸' => seq![0b01000u8, 0b01100u8, 0b01110u8, 0b01111u8, 0b01110u8, 0b01100u8, 0b01000u8],
        _ => seq![0b11111u8, 0b10001u8, 0b10001u8, 0b10001u8, 0b10001u8, 0b10001u8, 0b11111u8],
    }
}

/// 5x7 bitmap font for basic ASCII characters.
pub fn get_glyph(ch: char) -> (r: [u8; 7])
    ensures
        r@ == spec_glyph(ch),
{
    let g: [u8; 7] = match ch {
        '0' => [0b01110, 0b10001, 0b10011, 0b10101, 0b11001, 0b10001, 0b01110],
        '1' => [0b00100, 0b01100, 0b00100, 0b00100, 0b00100, 0b00100, 0b01110],
        '2' => [0b01110, 0b10001, 0b00001, 0b00110, 0b01000, 0b10000, 0b11111],
        '3' => [0b01110, 0b10001, 0b00001, 0b00110, 0b00001, 0b10001, 0b01110],
        '4' => [0b00010, 0b00110, 0b01010, 0b10010, 0b11111, 0b00010, 0b00010],
        '5' => [0b11111, 0b10000, 0b11110, 0b00001, 0b00001, 0b10001, 0b01110],
        '6' => [0b01110, 0b10000, 0b11110, 0b10001, 0b10001, 0b10001, 0b01110],
        '7' => [0b11111, 0b00001, 0b00010, 0b00100, 0b01000, 0b01000, 0b01000],
        '8' => [0b01110, 0b10001, 0b10001, 0b01110, 0b10001, 0b10001, 0b01110],
        '9' => [0b01110, 0b10001, 0b10001, 0b01111, 0b00001, 0b00001, 0b01110],
        'A' | 'a' => [0b01110, 0b10001, 0b10001, 0b11111, 0b10001, 0b10001, 0b10001],
        'B' | 'b' => [0b11110, 0b10001, 0b10001, 0b11110, 0b10001, 0b10001, 0b11110],
        'C' | 'c' => [0b01110, 0b10001, 0b10000, 0b10000, 0b10000, 0b10001, 0b01110],
        'D' | 'd' => [0b11110, 0b10001, 0b10001, 0b10001, 0b10001, 0b10001, 0b11110],
        'E' | 'e' => [0b11111, 0b10000, 0b10000, 0b11110, 0b10000, 0b10000, 0b11111],
        'F' | 'f' => [0b11111, 0b10000, 0b10000, 0b11110, 0b10000, 0b10000, 0b10000],
        'G' | 'g' => [0b01110, 0b10001, 0b10000, 0b10111, 0b10001, 0b10001, 0b01110],
        'H' | 'h' => [0b10001, 0b10001, 0b10001, 0b11111, 0b10001, 0b10001, 0b10001],
        'I' | 'i' => [0b01110, 0b00100, 0b00100, 0b00100, 0b00100, 0b00100, 0b01110],
        'J' | 'j' => [0b00111, 0b00010, 0b00010, 0b00010, 0b00010, 0b10010, 0b01100],
        'K' | 'k' => [0b10001, 0b10010, 0b10100, 0b11000, 0b10100, 0b10010, 0b10001],
        'L' | 'l' => [0b10000, 0b10000, 0b10000, 0b10000, 0b10000, 0b10000, 0b11111],
        'M' | 'm' => [0b10001, 0b11011, 0b10101, 0b10101, 0b10001, 0b10001, 0b10001],
        'N' | 'n' => [0b10001, 0b11001, 0b10101, 0b10011, 0b10001, 0b10001, 0b10001],
        'O' | 'o' => [0b01110, 0b10001, 0b10001, 0b10001, 0b10001, 0b10001, 0b01110],
        'P' | 'p' => [0b11110, 0b10001, 0b10001, 0b11110, 0b10000, 0b10000, 0b10000],
        'Q' | 'q' => [0b01110, 0b10001, 0b10001, 0b10001, 0b10101, 0b10010, 0b01101],
        'R' | 'r' => [0b11110, 0b10001, 0b10001, 0b11110, 0b10100, 0b10010, 0b10001],
        'S' | 's' => [0b01110, 0b10001, 0b10000, 0b01110, 0b00001, 0b10001, 0b01110],
        'T' | 't' => [0b11111, 0b00100, 0b00100, 0b00100, 0b00100, 0b00100, 0b00100],
        'U' | 'u' => [0b10001, 0b10001, 0b10001, 0b10001, 0b10001, 0b10001, 0b01110],
        'V' | 'v' => [0b10001, 0b10001, 0b10001, 0b10001, 0b01010, 0b01010, 0b00100],
        'W' | 'w' => [0b10001, 0b10001, 0b10001, 0b10101, 0b10101, 0b11011, 0b10001],
        'X' | 'x' => [0b10001, 0b10001, 0b01010, 0b00100, 0b01010, 0b10001, 0b10001],
        'Y' | 'y' => [0b10001, 0b10001, 0b01010, 0b00100, 0b00100, 0b00100, 0b00100],
        'Z' | 'z' => [0b11111, 0b00001, 0b00010, 0b00100, 0b01000, 0b10000, 0b11111],
        ' ' => [0, 0, 0, 0, 0, 0, 0],
        '.' => [0b00000, 0b00000, 0b00000, 0b00000, 0b00000, 0b01100, 0b01100],
        ',' => [0b00000, 0b00000, 0b00000, 0b00000, 0b00110, 0b00100, 0b01000],
        ':' => [0b00000, 0b01100, 0b01100, 0b00000, 0b01100, 0b01100, 0b00000],
        '-' => [0b00000, 0b00000, 0b00000, 0b11111, 0b00000, 0b00000, 0b00000],
        '+' => [0b00000, 0b00100, 0b00100, 0b11111, 0b00100, 0b00100, 0b00000],
        '(' => [0b00010, 0b00100, 0b01000, 0b01000, 0b01000, 0b00100, 0b00010],
        ')' => [0b01000, 0b00100, 0b00010, 0b00010, 0b00010, 0b00100, 0b01000],
        '/' => [0b00001, 0b00010, 0b00010, 0b00100, 0b01000, 0b01000, 0b10000],
        '_' => [0b00000, 0b00000, 0b00000, 0b00000, 0b00000, 0b00000, 0b11111],
        '=' => [0b00000, 0b00000, 0b11111, 0b00000, 0b11111, 0b00000, 0b00000],
        '±' => [0b00100, 0b00100, 0b11111, 0b00100, 0b00100, 0b00000, 0b11111],
        '▸' => [0b01000, 0b01100, 0b01110, 0b01111, 0b01110, 0b01100, 0b01000],
        _ => [0b11111, 0b10001, 0b10001, 0b10001, 0b10001, 0b10001, 0b11111],
    };
    assert(g@ =~= spec_glyph(ch));
    g
}

/// Every glyph has seven rows of five columns: no row has a bit beyond the
/// fifth.
pub proof fn law_glyphs_five_by_seven(ch: char)
    ensures
        spec_glyph(ch).len() == 7,
        forall|r: int| 0 <= r < 7 ==> #[trigger] spec_glyph(ch)[r] < 32,
{
}

/// Whether cell `(row, col)` of glyph `g` is lit.
pub open spec fn glyph_on(g: Seq<u8>, row: int, col: int) -> bool {
    0 <= row < 7 && 0 <= col < 5 && (g[row] & (1u8 << ((4 - col) as u32))) != 0
}

/// The pixels covered by the lit cells among the first `upto` cells (row
/// by row) of glyph `g` drawn at `(cx, y)` with blocks of `scale` pixels.
pub open spec fn glyph_set(cx: int, y: int, g: Seq<u8>, scale: int, w: u32, h: u32, upto: int) -> Set<(u32, u32)> {
    Set::new(|p: (u32, u32)| exists|row: int, col: int|
        0 <= row < 7 && 0 <= col < 5 && row * 5 + col < upto && #[trigger] glyph_on(g, row, col)
            && block_set(cx + col * scale, y + row * scale, scale, w, h).contains(p))
}

/// The pixels covered by the first `upto` characters of `t` drawn from
/// `(x, y)`, each glyph six blocks wide.
pub open spec fn text_set(x: int, y: int, t: Seq<char>, scale: int, w: u32, h: u32, upto: int) -> Set<(u32, u32)> {
    Set::new(|p: (u32, u32)| exists|k: int|
        0 <= k < upto && k < t.len() && #[trigger] glyph_set(x + 6 * scale * k, y, spec_glyph(t[k]), scale, w, h, 35).contains(p))
}

/// Draw one glyph with its top-left corner at `(cx, y)`.
fn draw_glyph(img: &mut Canvas, cx: u32, y: u32, g: &[u8; 7], scale: u32, color: (u8, u8, u8, u8))
    requires
        canvas_wf(*old(img)),
        cx as int + 5 * scale as int <= u32::MAX + 1,
        y as int + 7 * scale as int <= u32::MAX + 1,
    ensures
        canvas_wf(*final(img)),
        canvas_size(*final(img)) == canvas_size(*old(img)),
        canvas_pixels(*final(img)) == paint(canvas_pixels(*old(img)),
            glyph_set(cx as int, y as int, g@, scale as int, canvas_size(*old(img)).0, canvas_size(*old(img)).1, 35), color),
{
    let (w, h) = img.dimensions();
    let ghost m0 = canvas_pixels(*img);
    let ghost gs = g@;
    assert(canvas_pixels(*img) =~= paint(m0, glyph_set(cx as int, y as int, gs, scale as int, w, h, 0), color));
    let mut row: usize = 0;
    while row < 7
        invariant
            canvas_wf(*img),
            canvas_size(*img) == (w, h),
            m0.dom() == in_bounds(w, h),
            gs == g@,
            row <= 7,
            cx as int + 5 * scale as int <= u32::MAX + 1,
            y as int + 7 * scale as int <= u32::MAX + 1,
            canvas_pixels(*img) == paint(m0, glyph_set(cx as int, y as int, gs, scale as int, w, h, row * 5), color),
        decreases 7 - row,
    {
        let bits = g[row];
        let mut col: u32 = 0;
        while col < 5
            invariant
                canvas_wf(*img),
                canvas_size(*img) == (w, h),
                m0.dom() == in_bounds(w, h),
                gs == g@,
                row < 7,
                col <= 5,
                bits == gs[row as int],
                cx as int + 5 * scale as int <= u32::MAX + 1,
                y as int + 7 * scale as int <= u32::MAX + 1,
                canvas_pixels(*img) == paint(m0, glyph_set(cx as int, y as int, gs, scale as int, w, h, row * 5 + col), color),
            decreases 5 - col,
        {
            let ghost upto = row * 5 + col;
            let ghost before = glyph_set(cx as int, y as int, gs, scale as int, w, h, upto);
            let ghost after = glyph_set(cx as int, y as int, gs, scale as int, w, h, upto + 1);
            if bits & (1 << (4 - col)) != 0 {
                assert(col * scale <= 4 * scale) by (nonlinear_arith)
                    requires col <= 4;
                assert(row * scale <= 6 * scale) by (nonlinear_arith)
                    requires row <= 6;
                let bx = cx + col * scale;
                let by = y + (row as u32) * scale;
                let ghost blk = block_set(bx as int, by as int, scale as int, w, h);
                fill_block(img, bx, by, scale, color);
                proof {
                    lemma_paint_union(m0, before, blk, color);
                    assert(glyph_on(gs, row as int, col as int));
                    assert forall|p: (u32, u32)| after.contains(p) == before.union(blk).contains(p) by {
                        if blk.contains(p) {
                            assert(glyph_on(gs, row as int, col as int) && block_set(cx + col * scale, y + row * scale, scale as int, w, h).contains(p));
                        }
                        if after.contains(p) && !before.contains(p) {
                            let (r2, c2) = choose|r2: int, c2: int|
                                0 <= r2 < 7 && 0 <= c2 < 5 && r2 * 5 + c2 < upto + 1 && #[trigger] glyph_on(gs, r2, c2)
                                    && block_set(cx + c2 * scale, y + r2 * scale, scale as int, w, h).contains(p);
                            assert(r2 * 5 + c2 == upto);
                            assert(r2 == row && c2 == col);
                        }
                    }
                    assert(after =~= before.union(blk));
                }
            } else {
                proof {
                    assert(!glyph_on(gs, row as int, col as int));
                    assert forall|p: (u32, u32)| after.contains(p) implies before.contains(p) by {
                        let (r2, c2) = choose|r2: int, c2: int|
                            0 <= r2 < 7 && 0 <= c2 < 5 && r2 * 5 + c2 < upto + 1 && #[trigger] glyph_on(gs, r2, c2)
                                && block_set(cx + c2 * scale, y + r2 * scale, scale as int, w, h).contains(p);
                        if r2 * 5 + c2 == upto {
                            assert(r2 == row && c2 == col);
                        }
                    }
                    assert(after =~= before);
                }
            }
            col = col + 1;
        }
        row = row + 1;
    }
}

/// Scaled bitmap text renderer. Each glyph pixel is rendered as a
/// scale×scale block; characters advance by six blocks.
pub fn draw_text_scaled(img: &mut Canvas, x: u32, y: u32, text: &str, color: (u8, u8, u8, u8), scale: u32)
    requires
        canvas_wf(*old(img)),
        x as int + 6 * (scale as int) * (text@.len() as int) <= u32::MAX,
        y as int + 7 * scale as int <= u32::MAX + 1,
    ensures
        canvas_wf(*final(img)),
        canvas_size(*final(img)) == canvas_size(*old(img)),
        canvas_pixels(*final(img)) == paint(canvas_pixels(*old(img)),
            text_set(x as int, y as int, text@, scale as int, canvas_size(*old(img)).0, canvas_size(*old(img)).1, text@.len() as int), color),
{
    let (w, h) = img.dimensions();
    let ghost m0 = canvas_pixels(*img);
    let chars = chars_of(text);
    let n = chars.len();
    let mut cursor_x = x;
    let mut k: usize = 0;
    assert(canvas_pixels(*img) =~= paint(m0, text_set(x as int, y as int, text@, scale as int, w, h, 0), color));
    while k < n
        invariant
            canvas_wf(*img),
            canvas_size(*img) == (w, h),
            m0.dom() == in_bounds(w, h),
            chars@ == text@,
            n == chars@.len(),
            k <= n,
            cursor_x as int == x as int + 6 * (scale as int) * (k as int),
            x as int + 6 * (scale as int) * (n as int) <= u32::MAX,
            y as int + 7 * scale as int <= u32::MAX + 1,
            canvas_pixels(*img) == paint(m0, text_set(x as int, y as int, text@, scale as int, w, h, k as int), color),
        decreases n - k,
    {
        let g = get_glyph(chars[k]);
        assert(6 * (scale as int) * (k as int) + 6 * (scale as int) <= 6 * (scale as int) * (n as int)) by (nonlinear_arith)
            requires k < n;
        let ghost before = text_set(x as int, y as int, text@, scale as int, w, h, k as int);
        let ghost gl = glyph_set(cursor_x as int, y as int, g@, scale as int, w, h, 35);
        draw_glyph(img, cursor_x, y, &g, scale, color);
        proof {
            lemma_paint_union(m0, before, gl, color);
            let after = text_set(x as int, y as int, text@, scale as int, w, h, k + 1);
            assert forall|p: (u32, u32)| after.contains(p) == before.union(gl).contains(p) by {
                if gl.contains(p) {
                    assert(glyph_set(x + 6 * scale * k, y as int, spec_glyph(text@[k as int]), scale as int, w, h, 35).contains(p));
                }
                if after.contains(p) && !before.contains(p) {
                    let k2 = choose|k2: int| 0 <= k2 < k + 1 && k2 < text@.len()
                        && #[trigger] glyph_set(x + 6 * scale * k2, y as int, spec_glyph(text@[k2]), scale as int, w, h, 35).contains(p);
                    assert(k2 == k);
                }
            }
            assert(after =~= before.union(gl));
        }
        cursor_x = cursor_x + 6 * scale;
        k = k + 1;
        assert(cursor_x as int == x as int + 6 * (scale as int) * (k as int)) by (nonlinear_arith)
            requires cursor_x as int == x as int + 6 * (scale as int) * ((k - 1) as int) + 6 * (scale as int);
    }
}

/// One step of Bresenham's line walk from `(cx, cy)` with error term
/// `err`, for a line with extents `dx >= 0 >= dy` and directions `sx`, `sy`.
pub open spec fn bres_step(cx: int, cy: int, err: int, dx: int, dy: int, sx: int, sy: int) -> (int, int, int) {
    let e2 = 2 * err;
    let cx1 = if e2 >= dy { cx + sx } else { cx };
    let err1 = if e2 >= dy { err + dy } else { err };
    if e2 <= dx { (cx1, cy + sy, err1 + dx) } else { (cx1, cy, err1) }
}

/// The points the walk visits from `(cx, cy)` until it reaches `(x1, y1)`,
/// within `fuel` points.
pub open spec fn bres_visit(cx: int, cy: int, err: int, x1: int, y1: int, dx: int, dy: int, sx: int, sy: int, fuel: nat) -> Set<(int, int)>
    decreases fuel,
{
    if fuel == 0 {
        Set::empty()
    } else if cx == x1 && cy == y1 {
        set![(cx, cy)]
    } else {
        let n = bres_step(cx, cy, err, dx, dy, sx, sy);
        set![(cx, cy)].union(bres_visit(n.0, n.1, n.2, x1, y1, dx, dy, sx, sy, (fuel - 1) as nat))
    }
}

/// The absolute value of `v`.
pub open spec fn abs_int(v: int) -> int {
    if v < 0 { -v } else { v }
}

/// The points of the straight line from `(x0, y0)` to `(x1, y1)`, as
/// Bresenham's algorithm walks it (both ends included).
pub open spec fn line_points(x0: int, y0: int, x1: int, y1: int) -> Set<(int, int)> {
    let dx = abs_int(x1 - x0);
    let dy = -abs_int(y1 - y0);
    let sx = if x0 < x1 { 1int } else { -1int };
    let sy = if y0 < y1 { 1int } else { -1int };
    bres_visit(x0, y0, dx + dy, x1, y1, dx, dy, sx, sy, (dx - dy + 1) as nat)
}

/// Whether `(px, py)` lies in the clip box `[cx0, cx1) x [cy0, cy1)`.
pub open spec fn in_clip(px: int, py: int, cx0: int, cy0: int, cx1: int, cy1: int) -> bool {
    cx0 <= px < cx1 && cy0 <= py < cy1
}

/// The pixels of the points of `pts` inside the clip box.
pub open spec fn clipped_pixels(pts: Set<(int, int)>, cx0: int, cy0: int, cx1: int, cy1: int) -> Set<(u32, u32)> {
    Set::new(|q: (u32, u32)| pts.contains((q.0 as int, q.1 as int)) && in_clip(q.0 as int, q.1 as int, cx0, cy0, cx1, cy1))
}

proof fn lemma_bres_progress(dx: int, ady: int, nx: int, ny: int, f: int)
    requires
        0 <= nx <= dx,
        0 <= ny <= ady,
        f == dx * ny - ady * nx,
        -(dx + ady) <= f <= dx + ady,
        !(nx == dx && ny == ady),
    ensures
        2 * f >= ady - 2 * dx || 2 * f <= 2 * ady - dx,
        2 * f >= ady - 2 * dx ==> nx < dx,
        2 * f <= 2 * ady - dx ==> ny < ady,
{
    if nx == dx {
        assert(ny < ady);
        assert(dx * ny <= dx * (ady - 1)) by (nonlinear_arith)
            requires ny <= ady - 1, dx >= 0;
        assert(ady * nx == ady * dx) by (nonlinear_arith)
            requires nx == dx;
        assert(dx * (ady - 1) == dx * ady - dx) by (nonlinear_arith);
        assert(dx * ady == ady * dx) by (nonlinear_arith);
    }
    if ny == ady {
        assert(nx < dx);
        assert(ady * nx <= ady * (dx - 1)) by (nonlinear_arith)
            requires nx <= dx - 1, ady >= 0;
        assert(dx * ny == dx * ady) by (nonlinear_arith)
            requires ny == ady;
        assert(ady * (dx - 1) == ady * dx - ady) by (nonlinear_arith);
        assert(dx * ady == ady * dx) by (nonlinear_arith);
    }
}

/// Draw a line with Bresenham's algorithm, clipped to the box
/// `[clip_x0, clip_x1) x [clip_y0, clip_y1)`.
pub fn draw_line_aa(
    img: &mut Canvas,
    x0: i32, y0: i32, x1: i32, y1: i32,
    color: (u8, u8, u8, u8),
    clip_x0: i32, clip_y0: i32, clip_x1: i32, clip_y1: i32,
)
    requires
        canvas_wf(*old(img)),
        forall|p: (int, int)| #[trigger] line_points(x0 as int, y0 as int, x1 as int, y1 as int).contains(p)
            && in_clip(p.0, p.1, clip_x0 as int, clip_y0 as int, clip_x1 as int, clip_y1 as int)
            ==> 0 <= p.0 < canvas_size(*old(img)).0 && 0 <= p.1 < canvas_size(*old(img)).1,
    ensures
        canvas_wf(*final(img)),
        canvas_size(*final(img)) == canvas_size(*old(img)),
        canvas_pixels(*final(img)) == paint(canvas_pixels(*old(img)),
            clipped_pixels(line_points(x0 as int, y0 as int, x1 as int, y1 as int),
                clip_x0 as int, clip_y0 as int, clip_x1 as int, clip_y1 as int), color),
{
    let (w, h) = img.dimensions();
    let ghost m0 = canvas_pixels(*img);
    let ghost full = line_points(x0 as int, y0 as int, x1 as int, y1 as int);
    let x0l = x0 as i64;
    let y0l = y0 as i64;
    let x1l = x1 as i64;
    let y1l = y1 as i64;
    let dx: i64 = if x1l >= x0l { x1l - x0l } else { x0l - x1l };
    let ady: i64 = if y1l >= y0l { y1l - y0l } else { y0l - y1l };
    let dy: i64 = -ady;
    let sx: i64 = if x0l < x1l { 1 } else { -1 };
    let sy: i64 = if y0l < y1l { 1 } else { -1 };
    let mut err: i64 = dx + dy;
    let mut cx: i64 = x0l;
    let mut cy: i64 = y0l;
    let ghost mut nx: int = 0;
    let ghost mut ny: int = 0;
    let ghost mut f: int = 0;
    let ghost mut fuel: nat = (dx - dy + 1) as nat;
    let ghost mut done: Set<(int, int)> = Set::empty();
    assert(dx * 0 - ady * 0 == 0) by (nonlinear_arith);
    assert(full == done.union(bres_visit(cx as int, cy as int, err as int, x1 as int, y1 as int, dx as int, dy as int, sx as int, sy as int, fuel)));
    assert(canvas_pixels(*img) =~= paint(m0, clipped_pixels(done, clip_x0 as int, clip_y0 as int, clip_x1 as int, clip_y1 as int), color));
    loop
        invariant_except_break
            canvas_wf(*img),
            canvas_size(*img) == (w, h),
            m0.dom() == in_bounds(w, h),
            x1l == x1 as i64,
            y1l == y1 as i64,
            0 <= dx <= 0x1_0000_0000,
            0 <= ady <= 0x1_0000_0000,
            dy == -ady,
            dx as int == abs_int(x1 - x0),
            ady as int == abs_int(y1 - y0),
            sx == (if x0 < x1 { 1int } else { -1int }),
            sy == (if y0 < y1 { 1int } else { -1int }),
            0 <= nx <= dx,
            0 <= ny <= ady,
            cx as int == (if x0 < x1 { x0 + nx } else { x0 - nx }),
            cy as int == (if y0 < y1 { y0 + ny } else { y0 - ny }),
            f == dx * ny - ady * nx,
            -(dx + ady) <= f <= dx + ady,
            err as int == dx - ady + f,
            fuel >= (dx - nx) + (ady - ny) + 1,
            full == line_points(x0 as int, y0 as int, x1 as int, y1 as int),
            full == done.union(bres_visit(cx as int, cy as int, err as int, x1 as int, y1 as int, dx as int, dy as int, sx as int, sy as int, fuel)),
            canvas_pixels(*img) == paint(m0, clipped_pixels(done, clip_x0 as int, clip_y0 as int, clip_x1 as int, clip_y1 as int), color),
            forall|p: (int, int)| #[trigger] full.contains(p)
                && in_clip(p.0, p.1, clip_x0 as int, clip_y0 as int, clip_x1 as int, clip_y1 as int)
                ==> 0 <= p.0 < w && 0 <= p.1 < h,
        ensures
            canvas_wf(*img),
            canvas_size(*img) == (w, h),
            canvas_pixels(*img) == paint(m0, clipped_pixels(full, clip_x0 as int, clip_y0 as int, clip_x1 as int, clip_y1 as int), color),
        decreases (dx - nx) + (ady - ny),
    {
        let ghost cur = (cx as int, cy as int);
        assert(bres_visit(cx as int, cy as int, err as int, x1 as int, y1 as int, dx as int, dy as int, sx as int, sy as int, fuel).contains(cur));
        assert(full.contains(cur));
        if cx >= clip_x0 as i64 && cx < clip_x1 as i64 && cy >= clip_y0 as i64 && cy < clip_y1 as i64 {
            img.put_pixel(cx as u32, cy as u32, color);
        }
        proof {
            done = done.insert(cur);
            assert(canvas_pixels(*img) =~= paint(m0, clipped_pixels(done, clip_x0 as int, clip_y0 as int, clip_x1 as int, clip_y1 as int), color));
        }
        if cx == x1l && cy == y1l {
            proof {
                assert(fuel > 0);
                assert(cx as int == x1 as int && cy as int == y1 as int);
                assert(bres_visit(cx as int, cy as int, err as int, x1 as int, y1 as int, dx as int, dy as int, sx as int, sy as int, fuel) =~= set![cur]);
                assert(full =~= done);
            }
            break;
        }
        proof {
            assert(nx == dx ==> cx == x1l);
            if ny == ady {
                if y0 < y1 {
                    assert(ady as int == y1 as int - y0 as int);
                } else {
                    assert(ady as int == y0 as int - y1 as int);
                }
                assert(cy == y1l);
            }
            assert(!(nx == dx && ny == ady));
            lemma_bres_progress(dx as int, ady as int, nx, ny, f);
        }
        let e2 = 2 * err;
        let ghost old_visit = bres_visit(cx as int, cy as int, err as int, x1 as int, y1 as int, dx as int, dy as int, sx as int, sy as int, fuel);
        let ghost nxt = bres_step(cx as int, cy as int, err as int, dx as int, dy as int, sx as int, sy as int);
        if e2 >= dy {
            err = err + dy;
            cx = cx + sx;
            proof {
                assert(ady * (nx + 1) == ady * nx + ady) by (nonlinear_arith);
                nx = nx + 1;
                f = f - ady;
            }
        }
        if e2 <= dx {
            err = err + dx;
            cy = cy + sy;
            proof {
                assert(dx * (ny + 1) == dx * ny + dx) by (nonlinear_arith);
                ny = ny + 1;
                f = f + dx;
            }
        }
        proof {
            assert((cx as int, cy as int, err as int) == nxt);
            fuel = (fuel - 1) as nat;
            assert(old_visit == set![cur].union(bres_visit(cx as int, cy as int, err as int, x1 as int, y1 as int, dx as int, dy as int, sx as int, sy as int, fuel)));
            assert(full =~= done.union(bres_visit(cx as int, cy as int, err as int, x1 as int, y1 as int, dx as int, dy as int, sx as int, sy as int, fuel)));
        }
    }
}

} // verus!
