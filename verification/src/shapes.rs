//! Lines, rectangles, triangles and circles. Which pixels make up a shape is
//! decided by the pixel iterators of embedded-graphics' styled primitives;
//! this module names those pixels and fetches them.

use crate::hub75::Dot;
use embedded_graphics::pixelcolor::{Rgb888, RgbColor};
use embedded_graphics::prelude::{Point, Primitive};
use embedded_graphics::primitives::{Circle, Line, PrimitiveStyle, Rectangle, Triangle};
use embedded_graphics::Pixel;
use vstd::prelude::*;

verus! {

/// Largest diameter of a circle: that of the largest radius a command can carry.
pub const MAX_DIAMETER: u32 = 511;

/// Largest number whose square is an `i32`. The rasterizer squares, in
/// `i32`, a sum that grows until its square exceeds the stroke weight.
pub const MAX_STROKE_ROOT: i64 = 46_340;

/// Largest doubled area of a triangle: the largest number whose square is an
/// `i32`. The rasterizer squares the doubled area between the outlines of two
/// edges.
pub const MAX_CORNER_WEIGHT: i64 = 46_340;

/// How far from a corner the outlines of its two edges may meet. The
/// rasterizer squares the distance in `i32`, so it has to stay within 46 340
/// pixels; the rest is left for the way from the corner to the outlines and
/// for rounding.
pub const MAX_MEETING_REACH: i64 = 46_000;

/// The weight of a stroke along an edge: four times the square of the width
/// times the square of the edge's length. The rasterizer compares the
/// distance of a pixel from the edge with it.
pub open spec fn stroke_weight(width: u8, from: (u8, u8), to: (u8, u8)) -> int {
    let dx = to.0 - from.0;
    let dy = to.1 - from.1;
    4 * (width * width) * (dx * dx + dy * dy)
}

/// The distance of two coordinates.
pub open spec fn gap(a: u8, b: u8) -> int {
    if a < b {
        b - a
    } else {
        a - b
    }
}

/// The larger of the horizontal and the vertical distance of two points.
pub open spec fn reach(a: (u8, u8), b: (u8, u8)) -> int {
    if gap(a.0, b.0) < gap(a.1, b.1) {
        gap(a.1, b.1)
    } else {
        gap(a.0, b.0)
    }
}

/// A line that the rasterizer can draw. The rasterizer adds up a sum, by
/// steps of at most twice the line's reach, until the square of the sum
/// exceeds the stroke weight; that square, too, has to be an `i32`.
pub open spec fn line_fits(from: (u8, u8), to: (u8, u8), width: u8) -> bool {
    let root = MAX_STROKE_ROOT - 2 * reach(from, to);
    stroke_weight(width, from, to) <= root * root
}

/// Twice the area of a triangle.
pub open spec fn doubled_area(corners: ((u8, u8), (u8, u8), (u8, u8))) -> int {
    let (a, b, c) = corners;
    let cross = (b.0 - a.0) * (c.1 - b.1) - (b.1 - a.1) * (c.0 - b.0);
    if cross < 0 {
        -cross
    } else {
        cross
    }
}

/// The sum of the horizontal and the vertical distance of two points.
pub open spec fn span(a: (u8, u8), b: (u8, u8)) -> int {
    gap(a.0, b.0) + gap(a.1, b.1)
}

/// The square of the length of an edge that is a pixel longer each way.
pub open spec fn stretched(a: (u8, u8), b: (u8, u8)) -> int {
    (gap(a.0, b.0) + 1) * (gap(a.0, b.0) + 1) + (gap(a.1, b.1) + 1) * (gap(a.1, b.1) + 1)
}

/// A corner whose edges the rasterizer can join under a stroke of two
/// pixels or more. The outlines of the two edges run beside them, each
/// within `width + 2` pixels of its edge and at most a pixel shorter each
/// way. `slack` is what that can take from the triangle's doubled area or add
/// to it, and `room` what is left of it at least. The outlines are at most
/// `2 * width + 6` pixels apart where they pass the corner, and so meet at
/// most that many pixels, times the lengths of the two outlines and divided
/// by the doubled area between them, further on.
pub open spec fn corner_fits(
    before: (u8, u8),
    corner: (u8, u8),
    after: (u8, u8),
    area: int,
    width: u8,
) -> bool {
    let slack = span(before, corner) + span(corner, after) + 2;
    let room = if area - slack < 1 {
        1
    } else {
        area - slack
    };
    let apart = 2 * width + 6;
    &&& area + slack <= MAX_CORNER_WEIGHT
    &&& (apart * apart) * (stretched(before, corner) * stretched(corner, after))
        <= (MAX_MEETING_REACH * MAX_MEETING_REACH) * (room * room)
}

/// A triangle that the rasterizer can draw. The stroke of every edge fits,
/// as that of a line does. The rasterizer joins the edges where their
/// outlines meet, whatever the stroke. Under a stroke of at most one pixel
/// the outlines are the edges themselves and meet in the corners: then the
/// square of the doubled area is all that has to fit. Under a wider stroke
/// every corner has to fit.
pub open spec fn triangle_fits(corners: ((u8, u8), (u8, u8), (u8, u8)), width: u8) -> bool {
    let (a, b, c) = corners;
    let area = doubled_area(corners);
    &&& line_fits(a, b, width)
    &&& line_fits(b, c, width)
    &&& line_fits(c, a, width)
    &&& if width <= 1 {
        area <= MAX_CORNER_WEIGHT
    } else {
        &&& corner_fits(c, a, b, area, width)
        &&& corner_fits(a, b, c, area, width)
        &&& corner_fits(b, c, a, area, width)
    }
}

/// The product of two numbers within bounds is within the product of the bounds.
proof fn lemma_product_bound(a: int, b: int, most_a: int, most_b: int)
    by (nonlinear_arith)
    requires
        -most_a <= a <= most_a,
        -most_b <= b <= most_b,
    ensures
        -(most_a * most_b) <= a * b <= most_a * most_b,
{
}

/// The difference of two coordinates.
fn distance(from: u8, to: u8) -> (d: i64)
    ensures
        d == to - from,
        -255 <= d <= 255,
{
    to as i64 - from as i64
}

/// The distance of two coordinates.
fn gap_of(a: u8, b: u8) -> (d: i64)
    ensures
        d == gap(a, b),
        0 <= d <= 255,
{
    if a < b {
        (b - a) as i64
    } else {
        (a - b) as i64
    }
}

/// The product of two small numbers.
fn product(a: i64, b: i64) -> (p: i64)
    requires
        -256 <= a <= 256,
        -256 <= b <= 256,
    ensures
        p == a * b,
        -65536 <= p <= 65536,
{
    proof {
        lemma_product_bound(a as int, b as int, 256, 256);
    }
    a * b
}

/// Computes the stroke weight of an edge.
fn edge_weight(width: u8, from: (u8, u8), to: (u8, u8)) -> (weight: i64)
    ensures
        weight == stroke_weight(width, from, to),
        0 <= weight <= 0x8_0000_0000,
{
    let dx = distance(from.0, to.0);
    let dy = distance(from.1, to.1);
    let breadth = product(width as i64, width as i64);
    let length = product(dx, dx) + product(dy, dy);
    proof {
        assert(0 <= breadth && 0 <= length) by (nonlinear_arith)
            requires
                breadth == width * width,
                length == dx * dx + dy * dy,
        ;
        lemma_product_bound(breadth as int, length as int, 65536, 131072);
        assert(0 <= breadth * length) by (nonlinear_arith)
            requires
                0 <= breadth,
                0 <= length,
        ;
        assert(4 * (breadth * length) == 4 * breadth * length) by (nonlinear_arith);
    }
    4 * (breadth * length)
}

/// Computes the reach between two points.
fn reach_of(a: (u8, u8), b: (u8, u8)) -> (r: i64)
    ensures
        r == reach(a, b),
        0 <= r <= 255,
{
    let dx = gap_of(a.0, b.0);
    let dy = gap_of(a.1, b.1);
    if dx < dy {
        dy
    } else {
        dx
    }
}

/// Tells whether the rasterizer can draw a line.
pub fn line_is_drawable(from: (u8, u8), to: (u8, u8), width: u8) -> (ok: bool)
    ensures
        ok == line_fits(from, to, width),
{
    let root = MAX_STROKE_ROOT - 2 * reach_of(from, to);
    proof {
        lemma_product_bound(root as int, root as int, 46340, 46340);
    }
    edge_weight(width, from, to) <= root * root
}

/// Computes the stretched square of an edge.
fn stretched_of(a: (u8, u8), b: (u8, u8)) -> (s: i64)
    ensures
        s == stretched(a, b),
        0 <= s <= 131072,
{
    let dx = gap_of(a.0, b.0) + 1;
    let dy = gap_of(a.1, b.1) + 1;
    let across = product(dx, dx);
    let down = product(dy, dy);
    proof {
        assert(0 <= across && 0 <= down) by (nonlinear_arith)
            requires
                across == dx * dx,
                down == dy * dy,
        ;
    }
    across + down
}

/// Tells whether the rasterizer can join the two edges of a corner.
fn corner_is_drawable(
    before: (u8, u8),
    corner: (u8, u8),
    after: (u8, u8),
    area: i64,
    width: u8,
) -> (ok: bool)
    requires
        0 <= area <= 131072,
    ensures
        ok == corner_fits(before, corner, after, area as int, width),
{
    let slack = gap_of(before.0, corner.0) + gap_of(before.1, corner.1) + gap_of(
        corner.0,
        after.0,
    ) + gap_of(corner.1, after.1) + 2;
    if area + slack > MAX_CORNER_WEIGHT {
        return false;
    }
    let room = if area - slack < 1 {
        1
    } else {
        area - slack
    };
    let apart = 2 * (width as i64) + 6;
    let first = stretched_of(before, corner);
    let second = stretched_of(corner, after);
    proof {
        lemma_product_bound(apart as int, apart as int, 516, 516);
        lemma_product_bound(first as int, second as int, 131072, 131072);
        lemma_product_bound(apart * apart, first * second, 266_256, 17_179_869_184);
        lemma_product_bound(room as int, room as int, 46340, 46340);
        lemma_product_bound(
            MAX_MEETING_REACH * MAX_MEETING_REACH,
            room * room,
            2_116_000_000,
            2_147_395_600,
        );
    }
    (apart * apart) * (first * second) <= (MAX_MEETING_REACH * MAX_MEETING_REACH) * (room * room)
}

/// Tells whether the rasterizer can draw a triangle.
pub fn triangle_is_drawable(corners: ((u8, u8), (u8, u8), (u8, u8)), width: u8) -> (ok: bool)
    ensures
        ok == triangle_fits(corners, width),
{
    let (a, b, c) = corners;
    if !line_is_drawable(a, b, width) || !line_is_drawable(b, c, width) || !line_is_drawable(
        c,
        a,
        width,
    ) {
        return false;
    }
    let cross = product(distance(a.0, b.0), distance(b.1, c.1)) - product(
        distance(a.1, b.1),
        distance(b.0, c.0),
    );
    let area = if cross < 0 {
        -cross
    } else {
        cross
    };
    if width <= 1 {
        area <= MAX_CORNER_WEIGHT
    } else {
        corner_is_drawable(c, a, b, area, width) && corner_is_drawable(a, b, c, area, width)
            && corner_is_drawable(b, c, a, area, width)
    }
}

/// The pixels of a line from `(x1, y1)` to `(x2, y2)` with a stroke of the
/// given width and colour, in the order embedded-graphics yields them.
pub uninterp spec fn line_pixels(
    x1: u8,
    y1: u8,
    x2: u8,
    y2: u8,
    width: u8,
    stroke: (u8, u8, u8),
) -> Seq<Dot>;

/// The pixels of the rectangle with the opposite corners `(x1, y1)` and
/// `(x2, y2)`, with a stroke of the given width and colour and, if `fill`
/// holds a colour, filled with it.
pub uninterp spec fn rectangle_pixels(
    x1: u8,
    y1: u8,
    x2: u8,
    y2: u8,
    width: u8,
    stroke: (u8, u8, u8),
    fill: Option<(u8, u8, u8)>,
) -> Seq<Dot>;

/// The pixels of the triangle with the given three corners, stroke and fill.
pub uninterp spec fn triangle_pixels(
    corners: ((u8, u8), (u8, u8), (u8, u8)),
    width: u8,
    stroke: (u8, u8, u8),
    fill: Option<(u8, u8, u8)>,
) -> Seq<Dot>;

/// The pixels of the circle of the given diameter around `(cx, cy)`, with the
/// given stroke and fill.
pub uninterp spec fn circle_pixels(
    cx: u8,
    cy: u8,
    diameter: u32,
    width: u8,
    stroke: (u8, u8, u8),
    fill: Option<(u8, u8, u8)>,
) -> Seq<Dot>;

/// Collects `Styled::pixels` of an embedded-graphics `Line` with a stroke
/// style. Trusted: the result is a function of the arguments, named
/// `line_pixels`; nothing is claimed about which pixels they are. The line is
/// one that fits: the rasterizer computes in `i32` the stroke weight and the
/// square of a sum that grows, by steps of at most twice the line's reach,
/// until the square exceeds the weight.
#[verifier::external_body]
pub(crate) fn line_dots(
    x1: u8,
    y1: u8,
    x2: u8,
    y2: u8,
    width: u8,
    stroke: (u8, u8, u8),
) -> (dots: Vec<Dot>)
    requires
        line_fits((x1, y1), (x2, y2), width),
    ensures
        dots@ == line_pixels(x1, y1, x2, y2, width, stroke),
{
    let ink = Rgb888::new(stroke.0, stroke.1, stroke.2);
    let style = PrimitiveStyle::with_stroke(ink, width as u32);
    Line::new(Point::new(x1 as i32, y1 as i32), Point::new(x2 as i32, y2 as i32))
        .into_styled(style)
        .pixels()
        .map(|Pixel(p, c)| (p.x, p.y, c.r(), c.g(), c.b()))
        .collect()
}

/// Collects `Styled::pixels` of an embedded-graphics `Rectangle` made with
/// `Rectangle::with_corners`. Trusted: the result is a function of the
/// arguments, named `rectangle_pixels`.
#[verifier::external_body]
pub(crate) fn rectangle_dots(
    x1: u8,
    y1: u8,
    x2: u8,
    y2: u8,
    width: u8,
    stroke: (u8, u8, u8),
    fill: Option<(u8, u8, u8)>,
) -> (dots: Vec<Dot>)
    ensures
        dots@ == rectangle_pixels(x1, y1, x2, y2, width, stroke, fill),
{
    let ink = Rgb888::new(stroke.0, stroke.1, stroke.2);
    let mut style = PrimitiveStyle::with_stroke(ink, width as u32);
    style.fill_color = fill.map(|c| Rgb888::new(c.0, c.1, c.2));
    let corner = Point::new(x1 as i32, y1 as i32);
    Rectangle::with_corners(corner, Point::new(x2 as i32, y2 as i32))
        .into_styled(style)
        .pixels()
        .map(|Pixel(p, c)| (p.x, p.y, c.r(), c.g(), c.b()))
        .collect()
}

/// Collects `Styled::pixels` of an embedded-graphics `Triangle`. Trusted: the
/// result is a function of the arguments, named `triangle_pixels`. The
/// triangle is one that fits: the rasterizer computes in `i32`, for every
/// edge what it computes for a line, and for every corner the square of the
/// doubled area between the outlines of its two edges and the squared
/// distance of the corner from the point where the outlines meet, which lies
/// far out where a corner is very pointed and the stroke is wide.
#[verifier::external_body]
pub(crate) fn triangle_dots(
    corners: ((u8, u8), (u8, u8), (u8, u8)),
    width: u8,
    stroke: (u8, u8, u8),
    fill: Option<(u8, u8, u8)>,
) -> (dots: Vec<Dot>)
    requires
        triangle_fits(corners, width),
    ensures
        dots@ == triangle_pixels(corners, width, stroke, fill),
{
    let ink = Rgb888::new(stroke.0, stroke.1, stroke.2);
    let mut style = PrimitiveStyle::with_stroke(ink, width as u32);
    style.fill_color = fill.map(|c| Rgb888::new(c.0, c.1, c.2));
    let (a, b, c) = corners;
    let a = Point::new(a.0 as i32, a.1 as i32);
    let b = Point::new(b.0 as i32, b.1 as i32);
    let c = Point::new(c.0 as i32, c.1 as i32);
    Triangle::new(a, b, c)
        .into_styled(style)
        .pixels()
        .map(|Pixel(p, c)| (p.x, p.y, c.r(), c.g(), c.b()))
        .collect()
}

/// Collects `Styled::pixels` of an embedded-graphics `Circle` made with
/// `Circle::with_center`. Trusted: the result is a function of the arguments,
/// named `circle_pixels`. The diameter is kept small, so that no coordinate
/// of the circle leaves the range of `i32`.
#[verifier::external_body]
pub(crate) fn circle_dots(
    cx: u8,
    cy: u8,
    diameter: u32,
    width: u8,
    stroke: (u8, u8, u8),
    fill: Option<(u8, u8, u8)>,
) -> (dots: Vec<Dot>)
    requires
        diameter <= MAX_DIAMETER,
    ensures
        dots@ == circle_pixels(cx, cy, diameter, width, stroke, fill),
{
    let ink = Rgb888::new(stroke.0, stroke.1, stroke.2);
    let mut style = PrimitiveStyle::with_stroke(ink, width as u32);
    style.fill_color = fill.map(|c| Rgb888::new(c.0, c.1, c.2));
    Circle::with_center(Point::new(cx as i32, cy as i32), diameter)
        .into_styled(style)
        .pixels()
        .map(|Pixel(p, c)| (p.x, p.y, c.r(), c.g(), c.b()))
        .collect()
}

} // verus!
