//! Pixel drawing on RGBA images used by the PNG exporters.

use vstd::prelude::*;
use image::{ImageBuffer, Rgba, RgbaImage};
use vstd::string::StringSliceAdditionalSpecFns;
use crate::glyph::{glyph_of, glyph_rows, lemma_font_rows, is_glyph_row, FONT_CHAR_COUNT};

verus! {

/// An RGBA image being drawn on. The image itself is hidden from the
/// verifier; `canvas_pixels` and `canvas_size` name what it holds.
#[verifier::external_body]
pub struct Canvas {
    img: RgbaImage,
}

/// The pixels a canvas holds, by `(x, y)` position, as `[r, g, b, a]`.
pub uninterp spec fn canvas_pixels(c: Canvas) -> Map<(u32, u32), [u8; 4]>;

/// The `(width, height)` a canvas was created with.
pub uninterp spec fn canvas_size(c: Canvas) -> (u32, u32);

impl Canvas {
    /// `ImageBuffer::new`: a `width` x `height` image whose pixels are all
    /// `[0, 0, 0, 0]`. It panics when the byte length overflows `usize`, and
    /// its buffer allocation panics past `isize::MAX` bytes; `requires`
    /// excludes both.
    #[verifier::external_body]
    pub(crate) fn new(width: u32, height: u32) -> (c: Canvas)
        requires
            width * height * 4 <= isize::MAX,
        ensures
            canvas_size(c) == (width, height),
            canvas_pixels(c) == Map::new(
                |p: (u32, u32)| p.0 < width && p.1 < height,
                |p: (u32, u32)| [0u8, 0u8, 0u8, 0u8],
            ),
    {
        Canvas { img: ImageBuffer::new(width, height) }
    }

    /// `ImageBuffer::into_raw`: the image's bytes, row by row, four bytes
    /// `[r, g, b, a]` per pixel.
    #[verifier::external_body]
    pub(crate) fn into_raw(self) -> (r: Vec<u8>)
        ensures
            r@.len() == canvas_size(self).0 * canvas_size(self).1 * 4,
            forall|x: u32, y: u32, k: int|
                x < canvas_size(self).0 && y < canvas_size(self).1 && 0 <= k < 4
                ==> #[trigger] r@[(y * canvas_size(self).0 + x) * 4 + k] == canvas_pixels(self)[(x, y)][k],
    {
        self.img.into_raw()
    }

    /// `ImageBuffer::dimensions`: the width and height the image was created
    /// with.
    #[verifier::external_body]
    pub(crate) fn dimensions(&self) -> (r: (u32, u32))
        ensures
            r == canvas_size(*self),
    {
        self.img.dimensions()
    }

    /// `ImageBuffer::get_pixel`: the pixel at `(x, y)`; it panics outside the
    /// image, which `requires` excludes.
    #[verifier::external_body]
    pub(crate) fn get_pixel(&self, x: u32, y: u32) -> (r: [u8; 4])
        requires
            x < canvas_size(*self).0,
            y < canvas_size(*self).1,
        ensures
            r == canvas_pixels(*self)[(x, y)],
    {
        self.img.get_pixel(x, y).0
    }

    /// `ImageBuffer::put_pixel`: stores `color` at `(x, y)` and changes no
    /// other pixel nor the size; it panics outside the image, which
    /// `requires` excludes.
    #[verifier::external_body]
    pub(crate) fn put_pixel(&mut self, x: u32, y: u32, color: [u8; 4])
        requires
            x < canvas_size(*old(self)).0,
            y < canvas_size(*old(self)).1,
        ensures
            canvas_size(*final(self)) == canvas_size(*old(self)),
            canvas_pixels(*final(self)) == canvas_pixels(*old(self)).insert((x, y), color),
    {
        self.img.put_pixel(x, y, Rgba(color))
    }
}

impl Canvas {
    /// A `width` x `height` image with every pixel `[0, 0, 0, 0]`; `None`
    /// when its bytes would exceed the largest possible allocation,
    /// `isize::MAX` bytes.
    pub fn blank(width: u32, height: u32) -> (r: Option<Canvas>)
        ensures
            r is Some <==> width * height * 4 <= isize::MAX,
            r matches Some(c) ==> canvas_size(c) == (width, height) && canvas_pixels(c) == Map::new(
                |p: (u32, u32)| p.0 < width && p.1 < height,
                |p: (u32, u32)| [0u8, 0u8, 0u8, 0u8],
            ),
    {
        let w = width as usize;
        let h = height as usize;
        match w.checked_mul(h) {
            Some(pixels) => match pixels.checked_mul(4) {
                Some(bytes) => if bytes <= isize::MAX as usize {
                    Some(Canvas::new(width, height))
                } else {
                    None
                },
                None => None,
            },
            None => {
                proof {
                    assert(width * height * 4 > usize::MAX) by (nonlinear_arith)
                        requires
                            width * height > usize::MAX,
                    ;
                }
                None
            },
        }
    }

    /// The pixel at (`x`, `y`), or `None` outside the image.
    pub fn pixel_at(&self, x: u32, y: u32) -> (r: Option<[u8; 4]>)
        ensures
            r == if x < canvas_size(*self).0 && y < canvas_size(*self).1 {
                Some(canvas_pixels(*self)[(x, y)])
            } else {
                None
            },
    {
        let (width, height) = self.dimensions();
        if x < width && y < height {
            Some(self.get_pixel(x, y))
        } else {
            None
        }
    }

    /// Store `color` at (`x`, `y`); a position outside the image is ignored.
    pub fn set_pixel(&mut self, x: u32, y: u32, color: [u8; 4])
        ensures
            canvas_size(*final(self)) == canvas_size(*old(self)),
            canvas_pixels(*final(self)) == if x < canvas_size(*old(self)).0 && y < canvas_size(*old(self)).1 {
                canvas_pixels(*old(self)).insert((x, y), color)
            } else {
                canvas_pixels(*old(self))
            },
    {
        let (width, height) = self.dimensions();
        if x < width && y < height {
            self.put_pixel(x, y, color);
        }
    }

    /// The image's bytes, row by row, four bytes `[r, g, b, a]` per pixel.
    pub fn into_bytes(self) -> (r: Vec<u8>)
        ensures
            r@.len() == canvas_size(self).0 * canvas_size(self).1 * 4,
            forall|x: u32, y: u32, k: int|
                x < canvas_size(self).0 && y < canvas_size(self).1 && 0 <= k < 4
                ==> #[trigger] r@[(y * canvas_size(self).0 + x) * 4 + k] == canvas_pixels(self)[(x, y)][k],
    {
        self.into_raw()
    }
}

/// The pixels with `left <= x < right` and `top <= y < bottom`, all `color`.
pub open spec fn rect_pixels(left: int, top: int, right: int, bottom: int, color: [u8; 4]) -> Map<(u32, u32), [u8; 4]> {
    Map::new(
        |p: (u32, u32)| left <= p.0 < right && top <= p.1 < bottom,
        |p: (u32, u32)| color,
    )
}

/// Fill the rectangle of `width` x `height` pixels at (`left`, `top`),
/// clipped to the image.
pub fn draw_filled_rect(img: &mut Canvas, left: u32, top: u32, width: u32, height: u32, color: [u8; 4])
    ensures
        canvas_size(*final(img)) == canvas_size(*old(img)),
        canvas_pixels(*final(img)) == canvas_pixels(*old(img)).union_prefer_right(
            rect_pixels(
                left as int,
                top as int,
                vstd::math::min(left + width, u32::MAX as int) as int,
                vstd::math::min(top + height, u32::MAX as int) as int,
                color,
            ).restrict(Set::new(|p: (u32, u32)| p.0 < canvas_size(*old(img)).0 && p.1 < canvas_size(*old(img)).1)),
        ),
{
    let (img_width, img_height) = img.dimensions();
    let right = left.saturating_add(width).min(img_width);
    let bottom = top.saturating_add(height).min(img_height);
    let ghost start = canvas_pixels(*img);
    let mut y = top;
    while y < bottom
        invariant
            canvas_size(*img) == (img_width, img_height),
            right <= img_width,
            bottom <= img_height,
            top <= bottom ==> top <= y <= bottom,
            top > bottom ==> y == top,
            canvas_pixels(*img) == start.union_prefer_right(rect_pixels(left as int, top as int, right as int, y as int, color)),
        decreases bottom - y,
    {
        let mut x = left;
        while x < right
            invariant
                canvas_size(*img) == (img_width, img_height),
                right <= img_width,
                top <= y < bottom,
                bottom <= img_height,
                left <= right ==> left <= x <= right,
                left > right ==> x == left,
                canvas_pixels(*img) == start.union_prefer_right(rect_pixels(left as int, top as int, right as int, y as int, color)).union_prefer_right(
                    rect_pixels(left as int, y as int, x as int, y + 1, color)),
            decreases right - x,
        {
            img.put_pixel(x, y, color);
            x += 1;
        }
        y += 1;
    }
}

/// Whether pixel `p` is painted by a disk of `radius` around (`cx`, `cy`)
/// on an image of `width` x `height`: within the bounding square, within the
/// radius, and on the image as its size reads in `i32`.
pub open spec fn in_disk(cx: int, cy: int, radius: int, width: u32, height: u32, p: (u32, u32)) -> bool {
    let x = p.0 as int;
    let y = p.1 as int;
    &&& cx - radius <= x <= cx + radius
    &&& cy - radius <= y <= cy + radius
    &&& (x - cx) * (x - cx) + (y - cy) * (y - cy) <= radius * radius
    &&& x < (width as i32) as int
    &&& y < (height as i32) as int
}

/// The disk's pixels in rows before `row`, and in row `row` left of `col`.
pub open spec fn disk_pixels_before(
    cx: int,
    cy: int,
    radius: int,
    width: u32,
    height: u32,
    row: int,
    col: int,
    color: [u8; 4],
) -> Map<(u32, u32), [u8; 4]> {
    Map::new(
        |p: (u32, u32)|
            in_disk(cx, cy, radius, width, height, p) && ((p.1 as int) < row || (p.1 as int == row
                && (p.0 as int) < col)),
        |p: (u32, u32)| color,
    )
}

proof fn lemma_square_le(d: int, r: int)
    by (nonlinear_arith)
    requires
        -r <= d <= r,
    ensures
        d * d <= r * r,
        0 <= d * d,
{
}

/// Paint the filled disk of `radius` around (`cx`, `cy`), clipped to the image.
pub fn draw_filled_circle(img: &mut Canvas, cx: i32, cy: i32, radius: i32, color: [u8; 4])
    requires
        radius * radius <= i32::MAX,
        i32::MIN <= cy - radius <= i32::MAX,
        i32::MIN <= cy + radius <= i32::MAX,
        radius >= 0 ==> {
            &&& i32::MIN <= cx - radius
            &&& cx + radius <= i32::MAX
            &&& 2 * radius * radius <= i32::MAX
        },
    ensures
        canvas_size(*final(img)) == canvas_size(*old(img)),
        canvas_pixels(*final(img)) == canvas_pixels(*old(img)).union_prefer_right(
            Map::new(
                |p: (u32, u32)| in_disk(cx as int, cy as int, radius as int, canvas_size(*old(img)).0, canvas_size(*old(img)).1, p),
                |p: (u32, u32)| color,
            ),
        ),
{
    let (width, height) = img.dimensions();
    let ghost start = canvas_pixels(*img);
    if radius < 0 {
        // The disk is empty: no row lies between `cy - radius` and
        // `cy + radius`.
        proof {
            let disk = Map::new(
                |p: (u32, u32)| in_disk(cx as int, cy as int, radius as int, width, height, p),
                |p: (u32, u32)| color,
            );
            assert(disk =~= Map::empty());
            assert(start.union_prefer_right(disk) =~= start);
        }
        return;
    }
    proof {
        assert(radius * radius <= 2 * radius * radius) by (nonlinear_arith);
        assert(0 <= radius * radius) by (nonlinear_arith);
        assert(2 * radius * radius == radius * radius + radius * radius) by (nonlinear_arith);
    }
    let r2 = radius * radius;
    let y_end: i64 = cy as i64 + radius as i64;
    let x_start: i32 = cx - radius;
    let x_end: i64 = cx as i64 + radius as i64;
    let mut y: i64 = (cy - radius) as i64;
    while y <= y_end
        invariant
            canvas_size(*img) == (width, height),
            r2 == radius * radius,
            2 * radius * radius <= i32::MAX,
            i32::MIN <= cx - radius,
            cx + radius <= i32::MAX,
            i32::MIN <= cy - radius,
            cy + radius <= i32::MAX,
            y_end == cy + radius,
            2 * radius * radius == radius * radius + radius * radius,
            x_end == cx + radius,
            x_start == cx - radius,
            cy - radius <= y <= y_end + 1 || (radius < 0 && y == cy - radius),
            canvas_pixels(*img) == start.union_prefer_right(
                disk_pixels_before(cx as int, cy as int, radius as int, width, height, y as int, cx - radius, color)),
        decreases y_end + 1 - y,
    {
        let mut x: i64 = x_start as i64;
        let yi: i32 = y as i32;
        while x <= x_end
            invariant
                canvas_size(*img) == (width, height),
                r2 == radius * radius,
                2 * radius * radius <= i32::MAX,
                i32::MIN <= cx - radius,
                cx + radius <= i32::MAX,
                i32::MIN <= cy - radius,
                cy + radius <= i32::MAX,
                x_end == cx + radius,
                cy - radius <= y <= cy + radius,
                yi == y,
                2 * radius * radius == radius * radius + radius * radius,
                cx - radius <= x <= x_end + 1,
                canvas_pixels(*img) == start.union_prefer_right(
                    disk_pixels_before(cx as int, cy as int, radius as int, width, height, y as int, x as int, color)),
            decreases x_end + 1 - x,
        {
            let xi: i32 = x as i32;
            let dx = xi - cx;
            let dy = yi - cy;
            proof {
                lemma_square_le(dx as int, radius as int);
                lemma_square_le(dy as int, radius as int);
            }
            let ghost before = canvas_pixels(*img);
            if dx * dx + dy * dy <= r2 && xi >= 0 && yi >= 0 && xi < width as i32 && yi < height as i32 {
                img.put_pixel(xi as u32, yi as u32, color);
                proof {
                    let next = disk_pixels_before(cx as int, cy as int, radius as int, width, height, y as int, x + 1, color);
                    let prev = disk_pixels_before(cx as int, cy as int, radius as int, width, height, y as int, x as int, color);
                    assert(next =~= prev.insert((xi as u32, yi as u32), color));
                    assert(start.union_prefer_right(next) =~= start.union_prefer_right(prev).insert((xi as u32, yi as u32), color));
                }
            } else {
                proof {
                    let next = disk_pixels_before(cx as int, cy as int, radius as int, width, height, y as int, x + 1, color);
                    let prev = disk_pixels_before(cx as int, cy as int, radius as int, width, height, y as int, x as int, color);
                    assert(next =~= prev);
                }
            }
            x += 1;
        }
        proof {
            let next = disk_pixels_before(cx as int, cy as int, radius as int, width, height, y + 1, cx - radius, color);
            let prev = disk_pixels_before(cx as int, cy as int, radius as int, width, height, y as int, x as int, color);
            assert(next =~= prev);
        }
        y += 1;
    }
    proof {
        let fin = disk_pixels_before(cx as int, cy as int, radius as int, width, height, y as int, cx - radius, color);
        let all = Map::new(
            |p: (u32, u32)| in_disk(cx as int, cy as int, radius as int, width, height, p),
            |p: (u32, u32)| color,
        );
        assert(fin =~= all);
    }
}

/// `a` moved `k` steps in direction `s` (`1` forwards, anything else backwards).
pub open spec fn along(a: int, s: int, k: int) -> int {
    if s == 1 { a + k } else { a - k }
}

/// The error term of Bresenham's walk on a line spanning `dx` columns and
/// `dy` rows after `i` column steps and `j` row steps.
pub open spec fn line_error(dx: int, dy: int, i: int, j: int) -> int {
    dx * (1 + j) - dy * (1 + i)
}

/// The pixels Bresenham's walk visits from step counts (`i`, `j`) on, for the
/// line from (`x0`, `y0`) spanning `dx` columns in direction `sx` and `dy`
/// rows in direction `sy`: each step moves one column when twice the error is
/// at least `-dy`, and one row when twice the error is at most `dx`.
pub open spec fn line_from(x0: int, y0: int, sx: int, sy: int, dx: int, dy: int, i: int, j: int) -> Set<(int, int)>
    decreases dx + dy + 2 - i - j,
{
    if i < 0 || j < 0 || i > dx || j > dy {
        Set::empty()
    } else if i == dx && j == dy {
        set![(along(x0, sx, i), along(y0, sy, j))]
    } else {
        let e2 = 2 * line_error(dx, dy, i, j);
        let ni = if e2 >= -dy { i + 1 } else { i };
        let nj = if e2 <= dx { j + 1 } else { j };
        set![(along(x0, sx, i), along(y0, sy, j))].union(line_from(x0, y0, sx, sy, dx, dy, ni, nj))
    }
}

/// The absolute difference of two integers.
pub open spec fn span(a: int, b: int) -> int {
    if a <= b { b - a } else { a - b }
}

/// The pixels of the line from (`x0`, `y0`) to (`x1`, `y1`).
pub open spec fn line_pixels(x0: int, y0: int, x1: int, y1: int) -> Set<(int, int)> {
    line_from(
        x0,
        y0,
        if x0 < x1 { 1 } else { -1 },
        if y0 < y1 { 1 } else { -1 },
        span(x0, x1),
        span(y0, y1),
        0,
        0,
    )
}

/// The points of `points` that lie on an image of `width` x `height` (as
/// its size reads in `i32`), all `color`.
pub open spec fn paint(points: Set<(int, int)>, width: u32, height: u32, color: [u8; 4]) -> Map<(u32, u32), [u8; 4]> {
    Map::new(
        |p: (u32, u32)|
            points.contains((p.0 as int, p.1 as int)) && (p.0 as int) < (width as i32) as int
                && (p.1 as int) < (height as i32) as int,
        |p: (u32, u32)| color,
    )
}

/// Bresenham's walk never steps past the end in either direction.
proof fn lemma_line_no_overshoot(dx: int, dy: int, i: int, j: int)
    by (nonlinear_arith)
    requires
        0 <= i <= dx,
        0 <= j <= dy,
        !(i == dx && j == dy),
    ensures
        i == dx ==> 2 * line_error(dx, dy, i, j) < -dy,
        j == dy ==> 2 * line_error(dx, dy, i, j) > dx,
{
}

proof fn lemma_line_error_steps(dx: int, dy: int, i: int, j: int)
    by (nonlinear_arith)
    ensures
        line_error(dx, dy, i + 1, j) == line_error(dx, dy, i, j) - dy,
        line_error(dx, dy, i, j + 1) == line_error(dx, dy, i, j) + dx,
        line_error(dx, dy, i + 1, j + 1) == line_error(dx, dy, i, j) - dy + dx,
{
}

proof fn lemma_line_from_shape(x0: int, y0: int, sx: int, sy: int, dx: int, dy: int, i: int, j: int)
    requires
        0 <= i <= dx,
        0 <= j <= dy,
    ensures
        line_from(x0, y0, sx, sy, dx, dy, i, j).contains((along(x0, sx, i), along(y0, sy, j))),
        line_from(x0, y0, sx, sy, dx, dy, i, j).contains((along(x0, sx, dx), along(y0, sy, dy))),
        forall|p: (int, int)| #[trigger] line_from(x0, y0, sx, sy, dx, dy, i, j).contains(p) ==> exists|a: int, b: int|
            i <= a <= dx && j <= b <= dy && p == (along(x0, sx, a), along(y0, sy, b)),
    decreases dx + dy + 2 - i - j,
{
    if !(i == dx && j == dy) {
        lemma_line_no_overshoot(dx, dy, i, j);
        let e2 = 2 * line_error(dx, dy, i, j);
        let ni = if e2 >= -dy { i + 1 } else { i };
        let nj = if e2 <= dx { j + 1 } else { j };
        lemma_line_from_shape(x0, y0, sx, sy, dx, dy, ni, nj);
        let here = (along(x0, sx, i), along(y0, sy, j));
        assert forall|p: (int, int)| #[trigger] line_from(x0, y0, sx, sy, dx, dy, i, j).contains(p) implies exists|a: int, b: int|
            i <= a <= dx && j <= b <= dy && p == (along(x0, sx, a), along(y0, sy, b)) by {
            if p == here {
                assert(i <= i <= dx && j <= j <= dy && p == (along(x0, sx, i), along(y0, sy, j)));
            } else {
                assert(line_from(x0, y0, sx, sy, dx, dy, ni, nj).contains(p));
            }
        }
    }
}

/// A line's pixels include both of its ends and lie within the rectangle
/// the ends span.
pub proof fn lemma_line_ends_and_bounds(x0: int, y0: int, x1: int, y1: int)
    ensures
        line_pixels(x0, y0, x1, y1).contains((x0, y0)),
        line_pixels(x0, y0, x1, y1).contains((x1, y1)),
        forall|p: (int, int)| #[trigger] line_pixels(x0, y0, x1, y1).contains(p) ==> {
            &&& vstd::math::min(x0, x1) <= p.0 <= vstd::math::max(x0, x1)
            &&& vstd::math::min(y0, y1) <= p.1 <= vstd::math::max(y0, y1)
        },
{
    let sx: int = if x0 < x1 { 1 } else { -1 };
    let sy: int = if y0 < y1 { 1 } else { -1 };
    lemma_line_from_shape(x0, y0, sx, sy, span(x0, x1), span(y0, y1), 0, 0);
}

/// The value of `v` read as an `i32`: past `i32::MAX` it wraps to a
/// negative number.
pub open spec fn wrapped_i32(v: u32) -> int {
    if v <= i32::MAX {
        v as int
    } else {
        v - 0x1_0000_0000
    }
}

/// Draw a line from (`x0`, `y0`) to (`x1`, `y1`) with Bresenham's algorithm,
/// clipped to the image. The coordinates are read as `i32`; both ends of an
/// axis must then lie on the same side of zero. The error term is kept in an
/// `i64`, so that it cannot overflow.
pub fn draw_line(img: &mut Canvas, x0: u32, y0: u32, x1: u32, y1: u32, color: [u8; 4])
    requires
        (x0 <= i32::MAX) == (x1 <= i32::MAX),
        (y0 <= i32::MAX) == (y1 <= i32::MAX),
    ensures
        canvas_size(*final(img)) == canvas_size(*old(img)),
        canvas_pixels(*final(img)) == canvas_pixels(*old(img)).union_prefer_right(
            paint(
                line_pixels(wrapped_i32(x0), wrapped_i32(y0), wrapped_i32(x1), wrapped_i32(y1)),
                canvas_size(*old(img)).0,
                canvas_size(*old(img)).1,
                color,
            ),
        ),
{
    if x0 > 0x7fff_ffff || y0 > 0x7fff_ffff {
        // Every point of the line then has a negative coordinate, so none
        // lies on the image.
        proof {
            let points = line_pixels(wrapped_i32(x0), wrapped_i32(y0), wrapped_i32(x1), wrapped_i32(y1));
            lemma_line_ends_and_bounds(wrapped_i32(x0), wrapped_i32(y0), wrapped_i32(x1), wrapped_i32(y1));
            let (width, height) = canvas_size(*img);
            assert(paint(points, width, height, color) =~= Map::empty());
            assert(canvas_pixels(*img).union_prefer_right(paint(points, width, height, color)) =~= canvas_pixels(*img));
        }
        return;
    }
    let ax0 = x0 as i32;
    let ay0 = y0 as i32;
    let ax1 = x1 as i32;
    let ay1 = y1 as i32;
    let dx: i64 = if ax1 >= ax0 { ax1 as i64 - ax0 as i64 } else { ax0 as i64 - ax1 as i64 };
    let dy: i64 = -(if ay1 >= ay0 { ay1 as i64 - ay0 as i64 } else { ay0 as i64 - ay1 as i64 });
    let sx: i32 = if x0 < x1 { 1 } else { -1 };
    let sy: i32 = if y0 < y1 { 1 } else { -1 };
    let mut err: i64 = dx + dy;

    let mut x: i32 = ax0;
    let mut y: i32 = ay0;

    let (width, height) = img.dimensions();
    let ghost start = canvas_pixels(*img);
    let ghost ddx: int = dx as int;
    let ghost ddy: int = -dy;
    let ghost all = line_from(x0 as int, y0 as int, sx as int, sy as int, ddx, ddy, 0, 0);
    let ghost mut i: int = 0;
    let ghost mut j: int = 0;
    let ghost mut visited: Set<(int, int)> = Set::empty();
    assert(all == line_pixels(x0 as int, y0 as int, x1 as int, y1 as int));

    loop
        invariant
            canvas_size(*img) == (width, height),
            ddx == dx,
            ddy == -dy,
            ddx == span(x0 as int, x1 as int),
            ddy == span(y0 as int, y1 as int),
            ddx <= i32::MAX,
            ddy <= i32::MAX,
            sx == (if x0 < x1 { 1int } else { -1int }),
            sy == (if y0 < y1 { 1int } else { -1int }),
            ax1 == x1,
            ay1 == y1,
            0 <= i <= ddx,
            0 <= j <= ddy,
            x == along(x0 as int, sx as int, i),
            y == along(y0 as int, sy as int, j),
            err == line_error(ddx, ddy, i, j),
            -2 * (ddx + ddy) <= err <= 2 * (ddx + ddy),
            all == line_from(x0 as int, y0 as int, sx as int, sy as int, ddx, ddy, 0, 0),
            visited.union(line_from(x0 as int, y0 as int, sx as int, sy as int, ddx, ddy, i, j)) == all,
            canvas_pixels(*img) == start.union_prefer_right(paint(visited, width, height, color)),
        ensures
            canvas_size(*img) == (width, height),
            canvas_pixels(*img) == start.union_prefer_right(paint(all, width, height, color)),
        decreases ddx + ddy + 2 - i - j,
    {
        let ghost here = (x as int, y as int);
        let ghost before = canvas_pixels(*img);
        if x >= 0 && x < width as i32 && y >= 0 && y < height as i32 {
            img.put_pixel(x as u32, y as u32, color);
            assert(paint(visited.insert(here), width, height, color) =~= paint(visited, width, height, color).insert((x as u32, y as u32), color));
        } else {
            assert(paint(visited.insert(here), width, height, color) =~= paint(visited, width, height, color));
        }
        assert(start.union_prefer_right(paint(visited.insert(here), width, height, color)) =~= canvas_pixels(*img));
        proof {
            visited = visited.insert(here);
        }

        if x == ax1 && y == ay1 {
            assert(i == ddx && j == ddy);
            assert(line_from(x0 as int, y0 as int, sx as int, sy as int, ddx, ddy, i, j) == set![here]);
            assert(visited =~= all);
            break;
        }

        proof {
            lemma_line_no_overshoot(ddx, ddy, i, j);
            lemma_line_error_steps(ddx, ddy, i, j);
        }
        let e2 = 2 * err;
        let ghost ni = if e2 >= dy { i + 1 } else { i };
        let ghost nj = if e2 <= dx { j + 1 } else { j };
        assert(line_from(x0 as int, y0 as int, sx as int, sy as int, ddx, ddy, i, j) == set![here].union(
            line_from(x0 as int, y0 as int, sx as int, sy as int, ddx, ddy, ni, nj)));
        if e2 >= dy {
            err += dy;
            x += sx;
        }
        if e2 <= dx {
            err += dx;
            y += sy;
        }
        proof {
            i = ni;
            j = nj;
            assert(visited.union(line_from(x0 as int, y0 as int, sx as int, sy as int, ddx, ddy, i, j)) =~= all);
        }
    }
}

/// Whether pixel (`tx`, `ty`) is lit by the glyph of `ch` drawn with its
/// top-left corner at (`x`, `y`), each font pixel a `scale` x `scale` block.
pub open spec fn glyph_pixel(ch: char, x: int, y: int, scale: int, tx: int, ty: int) -> bool {
    let dx = tx - x;
    let dy = ty - y;
    &&& scale > 0
    &&& 0 <= dx < 5 * scale
    &&& 0 <= dy < 7 * scale
    &&& glyph_of(ch)[dy / scale].spec_bytes()[dx / scale] == 49
}

/// The position of pixel (`tx`, `ty`) in the drawing order of a glyph at
/// (`x`, `y`): font row, font column, then the row and column inside the
/// font pixel's block.
pub open spec fn glyph_order(x: int, y: int, scale: int, tx: int, ty: int) -> (int, int, int, int) {
    ((ty - y) / scale, (tx - x) / scale, (ty - y) % scale, (tx - x) % scale)
}

/// Lexicographic order on drawing positions.
pub open spec fn order_before(a: (int, int, int, int), b: (int, int, int, int)) -> bool {
    ||| a.0 < b.0
    ||| a.0 == b.0 && a.1 < b.1
    ||| a.0 == b.0 && a.1 == b.1 && a.2 < b.2
    ||| a.0 == b.0 && a.1 == b.1 && a.2 == b.2 && a.3 < b.3
}

/// The lit pixels of the glyph of `ch` at (`x`, `y`) that come before drawing
/// position `upto` and lie on an image of `width` x `height`, all `color`.
pub open spec fn glyph_paint(
    ch: char,
    x: int,
    y: int,
    scale: int,
    width: u32,
    height: u32,
    upto: (int, int, int, int),
    color: [u8; 4],
) -> Map<(u32, u32), [u8; 4]> {
    Map::new(
        |p: (u32, u32)|
            glyph_pixel(ch, x, y, scale, p.0 as int, p.1 as int) && order_before(
                glyph_order(x, y, scale, p.0 as int, p.1 as int),
                upto,
            ) && (p.0 as int) < (width as i32) as int && (p.1 as int) < (height as i32) as int,
        |p: (u32, u32)| color,
    )
}

proof fn lemma_block_position(cell: int, sub: int, scale: int)
    requires
        scale > 0,
        0 <= sub < scale,
    ensures
        (cell * scale + sub) / scale == cell,
        (cell * scale + sub) % scale == sub,
{
    vstd::arithmetic::div_mod::lemma_fundamental_div_mod_converse(cell * scale + sub, scale, cell, sub);
}

proof fn lemma_block_bounds(d: int, scale: int, n: int)
    requires
        scale > 0,
        0 <= d < n * scale,
    ensures
        0 <= d / scale < n,
        0 <= d % scale < scale,
        d == (d / scale) * scale + d % scale,
{
    vstd::arithmetic::div_mod::lemma_fundamental_div_mod(d, scale);
    vstd::arithmetic::div_mod::lemma_div_pos_is_pos(d, scale);
    vstd::arithmetic::div_mod::lemma_mod_pos_bound(d, scale);
    let q = d / scale;
    let r = d % scale;
    assert(q < n) by (nonlinear_arith)
        requires
            d == scale * q + r,
            0 <= r,
            d < n * scale,
            scale > 0,
    ;
    assert(d == q * scale + r) by (nonlinear_arith)
        requires
            d == scale * q + r,
    ;
}

/// An `as i32` cast of a `u32` gives its value read as an `i32`.
pub(crate) proof fn lemma_wrapped_i32(v: u32)
    ensures
        (v as i32) as int == wrapped_i32(v),
{
    assert(v <= 0x7fff_ffff ==> (v as i32) as int == v as int) by (bit_vector);
    assert(v > 0x7fff_ffff ==> (v as i32) as int == v as int - 0x1_0000_0000) by (bit_vector);
}

/// Draw the glyph of `ch` with its top-left corner at (`x`, `y`), each font
/// pixel a `scale` x `scale` block, clipped to the image.
pub fn draw_char(img: &mut Canvas, ch: char, x: i32, y: i32, scale: u32, color: [u8; 4])
    ensures
        canvas_size(*final(img)) == canvas_size(*old(img)),
        canvas_pixels(*final(img)) == canvas_pixels(*old(img)).union_prefer_right(
            Map::new(
                |p: (u32, u32)|
                    glyph_pixel(ch, x as int, y as int, wrapped_i32(scale), p.0 as int, p.1 as int)
                        && (p.0 as int) < (canvas_size(*old(img)).0 as i32) as int
                        && (p.1 as int) < (canvas_size(*old(img)).1 as i32) as int,
                |p: (u32, u32)| color,
            ),
        ),
{
    let glyph = glyph_rows(ch);
    let (width, height) = img.dimensions();
    let ghost start = canvas_pixels(*img);
    let ghost sc = wrapped_i32(scale);
    let scale_i = scale as i32;
    proof {
        lemma_font_rows();
        lemma_wrapped_i32(scale);
    }
    if scale_i <= 0 {
        proof {
            let lit = Map::new(
                |p: (u32, u32)|
                    glyph_pixel(ch, x as int, y as int, sc, p.0 as int, p.1 as int)
                        && (p.0 as int) < (width as i32) as int && (p.1 as int) < (height as i32) as int,
                |p: (u32, u32)| color,
            );
            assert(lit =~= Map::empty());
            assert(start.union_prefer_right(lit) =~= start);
        }
        return;
    }
    let mut row_idx: usize = 0;
    while row_idx < 7
        invariant
            canvas_size(*img) == (width, height),
            glyph == glyph_of(ch),
            forall|g: int, r: int| 0 <= g < FONT_CHAR_COUNT + 1 && 0 <= r < 7 ==> is_glyph_row(#[trigger] crate::glyph::FONT_GLYPHS[g][r]),
            scale_i == sc,
            0 < sc <= i32::MAX,
            row_idx <= 7,
            canvas_pixels(*img) == start.union_prefer_right(
                glyph_paint(ch, x as int, y as int, sc, width, height, (row_idx as int, 0, 0, 0), color)),
        decreases 7 - row_idx,
    {
        let row = glyph[row_idx];
        let bytes = row.as_bytes();
        proof {
            crate::glyph::lemma_font_index_range(crate::glyph::ascii_upper(ch), 0);
            assert(is_glyph_row(row));
        }
        let mut col_idx: usize = 0;
        while col_idx < bytes.len()
            invariant
                canvas_size(*img) == (width, height),
                glyph == glyph_of(ch),
                row == glyph[row_idx as int],
                is_glyph_row(row),
                bytes@ == row.spec_bytes(),
                scale_i == sc,
                0 < sc <= i32::MAX,
                row_idx < 7,
                col_idx <= 5,
                canvas_pixels(*img) == start.union_prefer_right(
                    glyph_paint(ch, x as int, y as int, sc, width, height, (row_idx as int, col_idx as int, 0, 0), color)),
            decreases 5 - col_idx,
        {
            if bytes[col_idx] == 49u8 {
                proof {
                    vstd::arithmetic::mul::lemma_mul_inequality(col_idx as int, 4, sc);
                    vstd::arithmetic::mul::lemma_mul_inequality(row_idx as int, 6, sc);
                    vstd::arithmetic::mul::lemma_mul_inequality(0, col_idx as int, sc);
                    vstd::arithmetic::mul::lemma_mul_inequality(0, row_idx as int, sc);
                    vstd::arithmetic::mul::lemma_mul_inequality(col_idx + 1, 5, sc);
                    vstd::arithmetic::mul::lemma_mul_inequality(row_idx + 1, 7, sc);
                    vstd::arithmetic::mul::lemma_mul_is_distributive_add_other_way(sc, col_idx as int, 1);
                    vstd::arithmetic::mul::lemma_mul_is_distributive_add_other_way(sc, row_idx as int, 1);
                }
                let px: i64 = x as i64 + col_idx as i64 * scale_i as i64;
                let py: i64 = y as i64 + row_idx as i64 * scale_i as i64;
                let mut sy: i32 = 0;
                while sy < scale_i
                    invariant
                        canvas_size(*img) == (width, height),
                        glyph == glyph_of(ch),
                        row == glyph[row_idx as int],
                        bytes@ == row.spec_bytes(),
                        bytes@[col_idx as int] == 49,
                        scale_i == sc,
                        0 < sc <= i32::MAX,
                        row_idx < 7,
                        col_idx < 5,
                        px == x + col_idx * sc,
                        py == y + row_idx * sc,
                        px + sc <= x + 5 * sc,
                        py + sc <= y + 7 * sc,
                        0 <= sy <= sc,
                        canvas_pixels(*img) == start.union_prefer_right(
                            glyph_paint(ch, x as int, y as int, sc, width, height, (row_idx as int, col_idx as int, sy as int, 0), color)),
                    decreases sc - sy,
                {
                    let mut sx: i32 = 0;
                    while sx < scale_i
                        invariant
                            canvas_size(*img) == (width, height),
                            glyph == glyph_of(ch),
                            row == glyph[row_idx as int],
                            bytes@ == row.spec_bytes(),
                            bytes@[col_idx as int] == 49,
                            scale_i == sc,
                            0 < sc <= i32::MAX,
                            row_idx < 7,
                            col_idx < 5,
                            px == x + col_idx * sc,
                            py == y + row_idx * sc,
                            px + sc <= x + 5 * sc,
                            py + sc <= y + 7 * sc,
                            0 <= sy < sc,
                            0 <= sx <= sc,
                            canvas_pixels(*img) == start.union_prefer_right(
                                glyph_paint(ch, x as int, y as int, sc, width, height, (row_idx as int, col_idx as int, sy as int, sx as int), color)),
                        decreases sc - sx,
                    {
                        let tx: i64 = px + sx as i64;
                        let ty: i64 = py + sy as i64;
                        let ghost key = (row_idx as int, col_idx as int, sy as int, sx as int);
                        let ghost next = (row_idx as int, col_idx as int, sy as int, sx + 1);
                        proof {
                            lemma_block_position(col_idx as int, sx as int, sc);
                            lemma_block_position(row_idx as int, sy as int, sc);
                        }
                        if tx >= 0 && ty >= 0 && tx < width as i32 as i64 && ty < height as i32 as i64 {
                            img.put_pixel(tx as u32, ty as u32, color);
                        }
                        proof {
                            let before = glyph_paint(ch, x as int, y as int, sc, width, height, key, color);
                            let after = glyph_paint(ch, x as int, y as int, sc, width, height, next, color);
                            assert forall|p: (u32, u32)| after.contains_key(p) <==> (before.contains_key(p)
                                || (p.0 as int == tx && p.1 as int == ty && tx < (width as i32) as int && ty < (height as i32) as int)) by {
                                if glyph_pixel(ch, x as int, y as int, sc, p.0 as int, p.1 as int) {
                                    lemma_block_bounds(p.0 - x, sc, 5);
                                    lemma_block_bounds(p.1 - y, sc, 7);
                                }
                            }
                            if tx >= 0 && ty >= 0 && tx < width as i32 as i64 && ty < height as i32 as i64 {
                                assert(after =~= before.insert((tx as u32, ty as u32), color));
                            } else {
                                assert(after =~= before);
                            }
                        }
                        sx += 1;
                    }
                    proof {
                        let a = glyph_paint(ch, x as int, y as int, sc, width, height, (row_idx as int, col_idx as int, sy as int, sc), color);
                        let b = glyph_paint(ch, x as int, y as int, sc, width, height, (row_idx as int, col_idx as int, sy + 1, 0), color);
                        assert forall|p: (u32, u32)| a.contains_key(p) <==> b.contains_key(p) by {
                            if glyph_pixel(ch, x as int, y as int, sc, p.0 as int, p.1 as int) {
                                lemma_block_bounds(p.0 - x, sc, 5);
                                lemma_block_bounds(p.1 - y, sc, 7);
                            }
                        }
                        assert(a =~= b);
                    }
                    sy += 1;
                }
                proof {
                    let a = glyph_paint(ch, x as int, y as int, sc, width, height, (row_idx as int, col_idx as int, sc, 0), color);
                    let b = glyph_paint(ch, x as int, y as int, sc, width, height, (row_idx as int, col_idx + 1, 0, 0), color);
                    assert forall|p: (u32, u32)| a.contains_key(p) <==> b.contains_key(p) by {
                        if glyph_pixel(ch, x as int, y as int, sc, p.0 as int, p.1 as int) {
                            lemma_block_bounds(p.0 - x, sc, 5);
                            lemma_block_bounds(p.1 - y, sc, 7);
                        }
                    }
                    assert(a =~= b);
                }
            } else {
                proof {
                    let a = glyph_paint(ch, x as int, y as int, sc, width, height, (row_idx as int, col_idx as int, 0, 0), color);
                    let b = glyph_paint(ch, x as int, y as int, sc, width, height, (row_idx as int, col_idx + 1, 0, 0), color);
                    assert forall|p: (u32, u32)| a.contains_key(p) <==> b.contains_key(p) by {
                        if glyph_pixel(ch, x as int, y as int, sc, p.0 as int, p.1 as int) {
                            lemma_block_bounds(p.0 - x, sc, 5);
                            lemma_block_bounds(p.1 - y, sc, 7);
                        }
                    }
                    assert(a =~= b);
                }
            }
            col_idx += 1;
        }
        proof {
            let a = glyph_paint(ch, x as int, y as int, sc, width, height, (row_idx as int, 5, 0, 0), color);
            let b = glyph_paint(ch, x as int, y as int, sc, width, height, (row_idx + 1, 0, 0, 0), color);
            assert forall|p: (u32, u32)| a.contains_key(p) <==> b.contains_key(p) by {
                if glyph_pixel(ch, x as int, y as int, sc, p.0 as int, p.1 as int) {
                    lemma_block_bounds(p.0 - x, sc, 5);
                    lemma_block_bounds(p.1 - y, sc, 7);
                }
            }
            assert(a =~= b);
        }
        row_idx += 1;
    }
    proof {
        let a = glyph_paint(ch, x as int, y as int, sc, width, height, (7, 0, 0, 0), color);
        let b = Map::new(
            |p: (u32, u32)|
                glyph_pixel(ch, x as int, y as int, wrapped_i32(scale), p.0 as int, p.1 as int)
                    && (p.0 as int) < (width as i32) as int && (p.1 as int) < (height as i32) as int,
            |p: (u32, u32)| color,
        );
        assert forall|p: (u32, u32)| a.contains_key(p) <==> b.contains_key(p) by {
            if glyph_pixel(ch, x as int, y as int, sc, p.0 as int, p.1 as int) {
                lemma_block_bounds(p.1 - y, sc, 7);
            }
        }
        assert(a =~= b);
    }
}

/// Whether pixel (`tx`, `ty`) is lit by `text` drawn from (`x`, `y`): some
/// character's glyph lights it, the `k`-th character drawn `step * k` pixels
/// right of `x`.
pub open spec fn text_pixel(text: Seq<char>, x: int, y: int, step: int, scale: int, tx: int, ty: int) -> bool {
    exists|k: int| 0 <= k < text.len() && #[trigger] glyph_pixel(text[k], x + step * k, y, scale, tx, ty)
}

/// The pixels `text` lights when drawn from (`x`, `y`) on an image of
/// `width` x `height`, all `color`.
pub open spec fn text_paint(
    text: Seq<char>,
    x: int,
    y: int,
    step: int,
    scale: int,
    width: u32,
    height: u32,
    color: [u8; 4],
) -> Map<(u32, u32), [u8; 4]> {
    Map::new(
        |p: (u32, u32)|
            text_pixel(text, x, y, step, scale, p.0 as int, p.1 as int) && (p.0 as int) < (width as i32) as int
                && (p.1 as int) < (height as i32) as int,
        |p: (u32, u32)| color,
    )
}

/// Draw `text` from (`x`, `y`) with the export font at `scale`, one
/// character every six font pixels, clipped to the image. For text that
/// is not empty, the advance `6 * scale` must fit in a `u32`, and is then
/// read as an `i32`; the position after the last character must fit in an
/// `i32`.
pub fn draw_text(img: &mut Canvas, text: &str, x: i32, y: i32, scale: u32, color: [u8; 4])
    requires
        text@.len() > 0 ==> 6 * scale <= u32::MAX,
        text@.len() > 0 ==> i32::MIN <= x + wrapped_i32((6 * scale) as u32) * text@.len() <= i32::MAX,
    ensures
        canvas_size(*final(img)) == canvas_size(*old(img)),
        canvas_pixels(*final(img)) == canvas_pixels(*old(img)).union_prefer_right(
            text_paint(
                text@,
                x as int,
                y as int,
                wrapped_i32((6 * scale) as u32),
                wrapped_i32(scale),
                canvas_size(*old(img)).0,
                canvas_size(*old(img)).1,
                color,
            ),
        ),
{
    let (width, height) = img.dimensions();
    let ghost start = canvas_pixels(*img);
    let ghost d = wrapped_i32((6 * scale) as u32);
    let ghost n = text@.len() as int;
    let mut cursor_x = x;
    for ch in it: text.chars()
        invariant
            it.seq() == text@,
            n == text@.len(),
            canvas_size(*img) == (width, height),
            d == wrapped_i32((6 * scale) as u32),
            n > 0 ==> 6 * scale <= u32::MAX,
            n > 0 ==> i32::MIN <= x + d * n <= i32::MAX,
            0 <= it.index() <= n,
            cursor_x == x + d * it.index(),
            canvas_pixels(*img) == start.union_prefer_right(
                text_paint(text@.subrange(0, it.index()), x as int, y as int, d, wrapped_i32(scale), width, height, color)),
    {
        let ghost k = it.index();
        assert(k < n);
        let advance: u32 = 6 * scale;
        let step = advance as i32;
        proof {
            lemma_wrapped_i32(advance);
            lemma_between_ends(x as int, d, k + 1, n);
        }
        let ghost sc = wrapped_i32(scale);
        draw_char(img, ch, cursor_x, y, scale, color);
        proof {
            let prev = text_paint(text@.subrange(0, k), x as int, y as int, d, sc, width, height, color);
            let next = text_paint(text@.subrange(0, k + 1), x as int, y as int, d, sc, width, height, color);
            let glyph = Map::new(
                |p: (u32, u32)|
                    glyph_pixel(ch, cursor_x as int, y as int, sc, p.0 as int, p.1 as int)
                        && (p.0 as int) < (width as i32) as int && (p.1 as int) < (height as i32) as int,
                |p: (u32, u32)| color,
            );
            assert(text@[k] == ch);
            assert forall|p: (u32, u32)| next.contains_key(p) <==> prev.contains_key(p) || glyph.contains_key(p) by {
                let s1 = text@.subrange(0, k + 1);
                let s0 = text@.subrange(0, k);
                if text_pixel(s1, x as int, y as int, d, sc, p.0 as int, p.1 as int) {
                    let j = choose|j: int| 0 <= j < s1.len() && #[trigger] glyph_pixel(s1[j], x + d * j, y as int, sc, p.0 as int, p.1 as int);
                    if j < k {
                        assert(s0[j] == s1[j]);
                        assert(glyph_pixel(s0[j], x + d * j, y as int, sc, p.0 as int, p.1 as int));
                    }
                }
                if text_pixel(s0, x as int, y as int, d, sc, p.0 as int, p.1 as int) {
                    let j = choose|j: int| 0 <= j < s0.len() && #[trigger] glyph_pixel(s0[j], x + d * j, y as int, sc, p.0 as int, p.1 as int);
                    assert(s0[j] == s1[j]);
                    assert(glyph_pixel(s1[j], x + d * j, y as int, sc, p.0 as int, p.1 as int));
                }
                if glyph.contains_key(p) {
                    assert(s1[k] == ch);
                    assert(glyph_pixel(s1[k], x + d * k, y as int, sc, p.0 as int, p.1 as int));
                }
            }
            assert(next =~= prev.union_prefer_right(glyph));
            assert(start.union_prefer_right(next) =~= start.union_prefer_right(prev).union_prefer_right(glyph));
            assert(x + d * (k + 1) == x + d * k + d) by (nonlinear_arith);
        }
        cursor_x = cursor_x + step;
    }
    proof {
        assert(text@.subrange(0, text@.len() as int) =~= text@);
    }
}

/// A point between the start and the end of an even walk lies between them.
proof fn lemma_between_ends(x: int, d: int, k: int, n: int)
    by (nonlinear_arith)
    requires
        0 <= k <= n,
    ensures
        vstd::math::min(x, x + d * n) <= x + d * k <= vstd::math::max(x, x + d * n),
{
}

} // verus!
