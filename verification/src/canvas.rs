//! Drawing on anything that has pixels in rows: single pixels, lines along
//! an axis and filled rectangles.

use vstd::prelude::*;
use crate::fb::Pixel;

verus! {

/// The step of the midpoint walk along a circle from the point that lies
/// `xx` right of and `yy` below the centre, where `f` tells on which side of
/// the circle the next midpoint lies: one pixel to the right, and one pixel
/// up where the midpoint is outside.
pub open spec fn circle_next(xx: int, yy: int, f: int) -> (int, int, int) {
    if f >= 0 {
        (xx + 1, yy - 1, f - 2 * (yy - 1) + 2 * (xx + 1) + 1)
    } else {
        (xx + 1, yy, f + 2 * (xx + 1) + 1)
    }
}

/// The points of the midpoint walk from (`xx`, `yy`) on, as long as the
/// walk is right of the diagonal: the eighth of a circle, as distances from
/// the centre.
pub open spec fn circle_steps(xx: int, yy: int, f: int) -> Seq<(int, int)>
    decreases yy + 1 - xx,
{
    if xx < yy {
        let next = circle_next(xx, yy, f);
        seq![(next.0, next.1)] + circle_steps(next.0, next.1, next.2)
    } else {
        Seq::<(int, int)>::empty()
    }
}

/// Whether the pixel at the distance (`dx`, `dy`) from the centre is one of
/// the eight mirror images of the point at the distance (`a`, `b`).
pub open spec fn mirrors(dx: int, dy: int, a: int, b: int) -> bool {
    ||| (vstd::math::abs(dx) == a && vstd::math::abs(dy) == b)
    ||| (vstd::math::abs(dx) == b && vstd::math::abs(dy) == a)
}

/// Whether the pixel at the distance (`dx`, `dy`) from the centre is a
/// mirror image of one of the points `steps`.
pub open spec fn on_steps(dx: int, dy: int, steps: Seq<(int, int)>) -> bool {
    exists|k: int| 0 <= k < steps.len() && mirrors(dx, dy, (#[trigger] steps[k]).0, steps[k].1)
}

/// Whether the pixel at the distance (`dx`, `dy`) from the centre lies on
/// the circle of radius `radius` as the midpoint walk draws it.
pub open spec fn on_circle(dx: int, dy: int, radius: int) -> bool {
    on_steps(dx, dy, circle_steps(0, radius, 1 - radius))
}

/// A pixel is a mirror image of one of the points, or of one more point.
proof fn lemma_one_more_step(dx: int, dy: int, steps: Seq<(int, int)>, point: (int, int))
    ensures
        on_steps(dx, dy, steps.push(point)) <==> (on_steps(dx, dy, steps) || mirrors(
            dx,
            dy,
            point.0,
            point.1,
        )),
{
    let more = steps.push(point);
    if on_steps(dx, dy, steps) {
        let k = choose|k: int|
            0 <= k < steps.len() && mirrors(dx, dy, (#[trigger] steps[k]).0, steps[k].1);
        assert(more[k] == steps[k]);
    }
    if mirrors(dx, dy, point.0, point.1) {
        assert(more[steps.len() as int] == point);
    }
    if on_steps(dx, dy, more) {
        let k = choose|k: int| 0 <= k < more.len() && mirrors(dx, dy, (#[trigger] more[k]).0, more[k].1);
        if k < steps.len() {
            assert(steps[k] == more[k]);
        }
    }
}

/// A filled rectangle of one colour, between two corners that both belong
/// to it.
pub struct Stroke {
    pub x0: int,
    pub y0: int,
    pub x1: int,
    pub y1: int,
    pub color: Pixel,
}

impl Stroke {
    /// Whether the stroke covers the pixel in column `i` of row `j`.
    pub open spec fn covers(self, i: int, j: int) -> bool {
        self.x0 <= i <= self.x1 && self.y0 <= j <= self.y1
    }

    /// The stroke of a single pixel.
    pub open spec fn dot(x: int, y: int, color: Pixel) -> Stroke {
        Stroke { x0: x, y0: y, x1: x, y1: y, color }
    }

    /// The stroke of a line in row `y` from column `x0` to column `x1`.
    pub open spec fn row(x0: int, x1: int, y: int, color: Pixel) -> Stroke {
        Stroke { x0, y0: y, x1, y1: y, color }
    }
}

/// The colour of the pixel in column `i` of row `j` after `strokes` have
/// been painted over the colour `base`, the first stroke first: the colour
/// of the last stroke that covers the pixel.
pub open spec fn painted(i: int, j: int, strokes: Seq<Stroke>, base: Pixel) -> Pixel
    decreases strokes.len(),
{
    if strokes.len() == 0 {
        base
    } else if strokes.last().covers(i, j) {
        strokes.last().color
    } else {
        painted(i, j, strokes.drop_last(), base)
    }
}

/// Painting one more stroke changes the pixels that it covers.
pub proof fn lemma_paint_one(i: int, j: int, strokes: Seq<Stroke>, stroke: Stroke, base: Pixel)
    ensures
        painted(i, j, strokes.push(stroke), base) == if stroke.covers(i, j) {
            stroke.color
        } else {
            painted(i, j, strokes, base)
        },
{
    assert(strokes.push(stroke).drop_last() =~= strokes);
}

/// Painting two lists of strokes one after the other is painting the second
/// over what the first has painted.
pub proof fn lemma_paint_more(i: int, j: int, first: Seq<Stroke>, second: Seq<Stroke>, base: Pixel)
    ensures
        painted(i, j, first + second, base) == painted(i, j, second, painted(i, j, first, base)),
    decreases second.len(),
{
    if second.len() == 0 {
        assert(first + second =~= first);
    } else {
        assert((first + second).drop_last() =~= first + second.drop_last());
        lemma_paint_more(i, j, first, second.drop_last(), base);
    }
}

/// The strokes of one step of the midpoint walk along two corners of a
/// rounded rectangle. The corners are quarter circles around the columns
/// `left` and `right` of row `centre`; they open upwards where `up`, else
/// downwards. The step has come to the point (`a`, `b`), and `moved` tells
/// whether it has changed `b`. Four pixels of the border are drawn, then
/// the lines that fill the rows between them: the row at the distance `b`
/// where the step has moved to it, and the row at the distance `a`.
pub open spec fn corner_step_strokes(
    left: int,
    right: int,
    centre: int,
    up: bool,
    a: int,
    b: int,
    moved: bool,
    border: Pixel,
    fill: Pixel,
) -> Seq<Stroke> {
    let row_b = if up { centre - b } else { centre + b };
    let row_a = if up { centre - a } else { centre + a };
    let dots = seq![
        Stroke::dot(left - a, row_b, border),
        Stroke::dot(left - b, row_a, border),
        Stroke::dot(right + a, row_b, border),
        Stroke::dot(right + b, row_a, border),
    ];
    let far = if moved {
        seq![Stroke::row(left - a + 1, right + a - 1, row_b, fill)]
    } else {
        Seq::<Stroke>::empty()
    };
    dots + far + seq![Stroke::row(left - b + 1, right + b - 1, row_a, fill)]
}

/// The strokes of the midpoint walk along two corners of a rounded
/// rectangle from the point (`xx`, `yy`) on; see [`corner_step_strokes`].
pub open spec fn corner_strokes(
    xx: int,
    yy: int,
    f: int,
    left: int,
    right: int,
    centre: int,
    up: bool,
    border: Pixel,
    fill: Pixel,
) -> Seq<Stroke>
    decreases yy + 1 - xx,
{
    if xx < yy {
        let next = circle_next(xx, yy, f);
        corner_step_strokes(left, right, centre, up, next.0, next.1, next.1 != yy, border, fill)
            + corner_strokes(next.0, next.1, next.2, left, right, centre, up, border, fill)
    } else {
        Seq::<Stroke>::empty()
    }
}

/// The strokes of a rounded rectangle of `width` by `height` pixels at
/// (`x`, `y`) with corners of radius `radius`, in the order in which they
/// are painted: the two upper corners, the two lower corners, the four
/// straight parts of the border, and the lines that fill the rows between
/// the corners.
pub open spec fn round_rect_strokes(
    x: int,
    y: int,
    width: int,
    height: int,
    radius: int,
    border: Pixel,
    fill: Pixel,
) -> Seq<Stroke> {
    let x0 = x;
    let y0 = y;
    let x1 = x + width - 1;
    let y1 = y + height - 1;
    corner_strokes(0, radius, 1 - radius, x0 + radius, x1 - radius, y0 + radius, true, border, fill)
        + corner_strokes(
        0,
        radius,
        1 - radius,
        x0 + radius,
        x1 - radius,
        y1 - radius,
        false,
        border,
        fill,
    ) + seq![
        Stroke { x0: x0 + radius, y0, x1: x1 - radius, y1: y0, color: border },
        Stroke { x0: x0 + radius, y0: y1, x1: x1 - radius, y1, color: border },
        Stroke { x0, y0: y0 + radius, x1: x0, y1: y1 - radius, color: border },
        Stroke { x0: x1, y0: y0 + radius, x1, y1: y1 - radius, color: border },
    ] + Seq::new(
        (y1 - radius - (y0 + radius) + 1) as nat,
        |k: int| Stroke::row(x0 + 1, x1 - 1, y0 + radius + k, fill),
    )
}

/// Something to draw on, pixel by pixel.
pub trait DrawingCanvas {
    /// The number of pixels in a row.
    spec fn spec_width(&self) -> u32;

    /// The number of rows.
    spec fn spec_height(&self) -> u32;

    /// The pixel in column `x` of row `y`.
    spec fn spec_pixel(&self, x: int, y: int) -> Pixel;

    /// Sets the pixel in column `x` of row `y`.
    fn draw_pixel(&mut self, x: u32, y: u32, pixel: Pixel)
        requires
            x < old(self).spec_width(),
            y < old(self).spec_height(),
        ensures
            final(self).spec_width() == old(self).spec_width(),
            final(self).spec_height() == old(self).spec_height(),
            forall|i: int, j: int|
                #[trigger] final(self).spec_pixel(i, j) == if i == x && j == y {
                    pixel
                } else {
                    old(self).spec_pixel(i, j)
                },
    ;

    fn width(&self) -> (w: u32)
        ensures
            w == self.spec_width(),
    ;

    fn height(&self) -> (h: u32)
        ensures
            h == self.spec_height(),
    ;

    /// Fills the rectangle between the corners (`x1`, `y1`) and
    /// (`x2`, `y2`), both of which belong to it.
    fn draw_rect_points(&mut self, x1: u32, y1: u32, x2: u32, y2: u32, pixel: Pixel)
        requires
            x1 <= x2 < old(self).spec_width(),
            y1 <= y2 < old(self).spec_height(),
        ensures
            final(self).spec_width() == old(self).spec_width(),
            final(self).spec_height() == old(self).spec_height(),
            forall|i: int, j: int|
                #[trigger] final(self).spec_pixel(i, j) == if x1 <= i <= x2 && y1 <= j <= y2 {
                    pixel
                } else {
                    old(self).spec_pixel(i, j)
                },
    {
        // includes x2 and y2
        let width = (x2 - x1) + 1;
        let height = (y2 - y1) + 1;

        self.draw_rect(x1, y1, width, height, pixel);
    }

    /// Fills the rectangle of `width` by `height` pixels at (`x`, `y`).
    fn draw_rect(&mut self, x: u32, y: u32, width: u32, height: u32, pixel: Pixel)
        requires
            x + width <= old(self).spec_width(),
            y + height <= old(self).spec_height(),
        ensures
            final(self).spec_width() == old(self).spec_width(),
            final(self).spec_height() == old(self).spec_height(),
            forall|i: int, j: int|
                #[trigger] final(self).spec_pixel(i, j) == if x <= i < x + width && y <= j < y
                    + height {
                    pixel
                } else {
                    old(self).spec_pixel(i, j)
                },
    {
        let mut row: u32 = 0;
        while row < height
            invariant
                row <= height,
                x + width <= self.spec_width(),
                y + height <= self.spec_height(),
                self.spec_width() == old(self).spec_width(),
                self.spec_height() == old(self).spec_height(),
                forall|i: int, j: int|
                    #[trigger] self.spec_pixel(i, j) == if x <= i < x + width && y <= j < y + row {
                        pixel
                    } else {
                        old(self).spec_pixel(i, j)
                    },
            decreases height - row,
        {
            let mut col: u32 = 0;
            while col < width
                invariant
                    row < height,
                    col <= width,
                    x + width <= self.spec_width(),
                    y + height <= self.spec_height(),
                    self.spec_width() == old(self).spec_width(),
                    self.spec_height() == old(self).spec_height(),
                    forall|i: int, j: int|
                        #[trigger] self.spec_pixel(i, j) == if (x <= i < x + width && y <= j < y
                            + row) || (x <= i < x + col && j == y + row) {
                            pixel
                        } else {
                            old(self).spec_pixel(i, j)
                        },
                decreases width - col,
            {
                self.draw_pixel(col + x, row + y, pixel);
                col += 1;
            }
            row += 1;
        }
    }

    /// Draws the line between (`x0`, `y0`) and (`x1`, `y1`), which lie in one
    /// row or in one column; between other points, the rectangle that has
    /// them as corners.
    fn draw_line(&mut self, x0: u32, y0: u32, x1: u32, y1: u32, pixel: Pixel)
        requires
            x0 <= x1 < old(self).spec_width(),
            y0 <= y1 < old(self).spec_height(),
        ensures
            final(self).spec_width() == old(self).spec_width(),
            final(self).spec_height() == old(self).spec_height(),
            forall|i: int, j: int|
                #[trigger] final(self).spec_pixel(i, j) == if x0 <= i <= x1 && y0 <= j <= y1 {
                    pixel
                } else {
                    old(self).spec_pixel(i, j)
                },
    {
        self.draw_rect_points(x0, y0, x1, y1, pixel)
    }

    /// Draws the circle of radius `radius` whose bounding square has its
    /// top-left corner at (`x`, `y`): the pixels of the midpoint walk and
    /// their mirror images take `border_color`. The inside is left as it
    /// is; `fill_color` is not used.
    fn draw_circle(&mut self, x: u32, y: u32, radius: u32, border_color: Pixel, fill_color: Pixel)
        requires
            radius <= 0x7FFF,
            x + 3 * radius <= u32::MAX,
            y + 3 * radius <= u32::MAX,
            x + 2 * radius < old(self).spec_width(),
            y + 2 * radius < old(self).spec_height(),
        ensures
            final(self).spec_width() == old(self).spec_width(),
            final(self).spec_height() == old(self).spec_height(),
            forall|i: int, j: int|
                #[trigger] final(self).spec_pixel(i, j) == if on_circle(
                    i - (x + radius),
                    j - (y + radius),
                    radius as int,
                ) {
                    border_color
                } else {
                    old(self).spec_pixel(i, j)
                },
    {
        let ghost centre_x = x + radius;
        let ghost centre_y = y + radius;
        let x = x + (radius * 2);
        let y = y + (radius * 2);

        let signed_radius: i32 = radius as i32;
        let mut f: i32 = 1 - signed_radius;
        let mut ddf_x: i32 = 1;
        let mut ddf_y: i32 = 0 - 2 * signed_radius;

        let mut xx: u32 = 0u32;
        let mut yy: u32 = radius;
        let ghost mut done: Seq<(int, int)> = Seq::empty();
        proof {
            assert(done + circle_steps(0, radius as int, 1 - radius) =~= circle_steps(
                0,
                radius as int,
                1 - radius,
            ));
            assert(radius * radius - radius * radius == 0) by (nonlinear_arith);
        }

        while xx < yy
            invariant
                radius <= 0x7FFF,
                x == centre_x + radius,
                y == centre_y + radius,
                centre_x >= radius,
                centre_y >= radius,
                x + radius <= u32::MAX,
                y + radius <= u32::MAX,
                x < self.spec_width(),
                y < self.spec_height(),
                xx <= yy + 1,
                yy <= radius,
                ddf_x == 2 * xx + 1,
                ddf_y == -2 * yy,
                f == xx * xx + yy * yy - radius * radius + 2 * xx - yy + 1,
                circle_steps(0, radius as int, 1 - radius) == done + circle_steps(
                    xx as int,
                    yy as int,
                    f as int,
                ),
                self.spec_width() == old(self).spec_width(),
                self.spec_height() == old(self).spec_height(),
                forall|i: int, j: int|
                    #[trigger] self.spec_pixel(i, j) == if on_steps(
                        i - centre_x,
                        j - centre_y,
                        done,
                    ) {
                        border_color
                    } else {
                        old(self).spec_pixel(i, j)
                    },
            decreases yy + 1 - xx,
        {
            let ghost before = |i: int, j: int| self.spec_pixel(i, j);
            let ghost xx0 = xx as int;
            let ghost yy0 = yy as int;
            let ghost f0 = f as int;
            proof {
                assert(0 <= xx * xx <= radius * radius) by (nonlinear_arith)
                    requires
                        0 <= xx <= radius,
                ;
                assert(0 <= yy * yy <= radius * radius) by (nonlinear_arith)
                    requires
                        0 <= yy <= radius,
                ;
                assert((xx + 1) * (xx + 1) <= radius * radius) by (nonlinear_arith)
                    requires
                        0 <= xx + 1 <= radius,
                ;
                assert((xx + 1) * (xx + 1) == xx * xx + 2 * xx + 1) by (nonlinear_arith);
                assert((yy - 1) * (yy - 1) == yy * yy - 2 * yy + 1) by (nonlinear_arith);
                assert(radius * radius <= 0x7FFF * 0x7FFF) by (nonlinear_arith)
                    requires
                        0 <= radius <= 0x7FFF,
                ;
            }
            if f >= 0 {
                yy -= 1;
                ddf_y += 2;
                f += ddf_y;
            }
            xx += 1;
            ddf_x += 2;
            f += ddf_x;

            // Bottom Right corner
            self.draw_pixel(x + xx - radius, y + yy - radius, border_color);
            self.draw_pixel(x + yy - radius, y + xx - radius, border_color);
            // Top Right corner
            self.draw_pixel(x + xx - radius, y - yy - radius, border_color);
            self.draw_pixel(x + yy - radius, y - xx - radius, border_color);
            // Bottom Left corner
            self.draw_pixel(x - xx - radius, y + yy - radius, border_color);
            self.draw_pixel(x - yy - radius, y + xx - radius, border_color);
            // Top Left corner
            self.draw_pixel(x - xx - radius, y - yy - radius, border_color);
            self.draw_pixel(x - yy - radius, y - xx - radius, border_color);

            proof {
                let point = (xx as int, yy as int);
                let next = circle_next(xx0, yy0, f0);
                assert(next == (xx as int, yy as int, f as int));
                assert(circle_steps(xx0, yy0, f0) == seq![point] + circle_steps(
                    xx as int,
                    yy as int,
                    f as int,
                ));
                assert(done + (seq![point] + circle_steps(xx as int, yy as int, f as int))
                    =~= done.push(point) + circle_steps(xx as int, yy as int, f as int));
                assert forall|i: int, j: int|
                    #[trigger] self.spec_pixel(i, j) == if on_steps(
                        i - centre_x,
                        j - centre_y,
                        done.push(point),
                    ) {
                        border_color
                    } else {
                        old(self).spec_pixel(i, j)
                    } by {
                    lemma_one_more_step(i - centre_x, j - centre_y, done, point);
                    assert(before(i, j) == if on_steps(
                        i - centre_x,
                        j - centre_y,
                        done,
                    ) {
                        border_color
                    } else {
                        old(self).spec_pixel(i, j)
                    });
                }
                done = done.push(point);
            }
        }
        proof {
            assert(circle_steps(xx as int, yy as int, f as int) =~= Seq::<(int, int)>::empty());
            assert(done + Seq::<(int, int)>::empty() =~= done);
        }
    }

    /// Draws two corners of a rounded rectangle with their filling: quarter
    /// circles of radius `radius` around the columns `x0 + radius` and
    /// `x1 + radius` of row `y + radius`, which open upwards where `top`,
    /// else downwards. See [`corner_strokes`].
    fn draw_2corners(
        &mut self,
        x0: u32,
        x1: u32,
        y: u32,
        radius: u32,
        top: bool,
        border_color: Pixel,
        fill_color: Pixel,
    )
        requires
            radius <= 0x7FFF,
            x0 + 2 <= x1,
            x1 + 3 * radius <= u32::MAX,
            y + 3 * radius <= u32::MAX,
            x1 + 2 * radius < old(self).spec_width(),
            if top {
                y + radius < old(self).spec_height()
            } else {
                y + 2 * radius < old(self).spec_height()
            },
        ensures
            final(self).spec_width() == old(self).spec_width(),
            final(self).spec_height() == old(self).spec_height(),
            forall|i: int, j: int|
                #[trigger] final(self).spec_pixel(i, j) == painted(
                    i,
                    j,
                    corner_strokes(
                        0,
                        radius as int,
                        1 - radius,
                        x0 + radius,
                        x1 + radius,
                        y + radius,
                        top,
                        border_color,
                        fill_color,
                    ),
                    old(self).spec_pixel(i, j),
                ),
    {
        let ghost left = x0 + radius;
        let ghost right = x1 + radius;
        let ghost centre = y + radius;
        let x0 = x0 + (radius * 2);
        let x1 = x1 + (radius * 2);

        let y = y + (radius * 2);

        let signed_radius: i32 = radius as i32;
        let mut f: i32 = 1 - signed_radius;
        let mut ddf_x: i32 = 1;
        let mut ddf_y: i32 = 0 - 2 * signed_radius;

        let mut xx: u32 = 0u32;
        let mut yy: u32 = radius;
        let ghost mut done: Seq<Stroke> = Seq::empty();
        proof {
            assert(done + corner_strokes(
                0,
                radius as int,
                1 - radius,
                left,
                right,
                centre,
                top,
                border_color,
                fill_color,
            ) =~= corner_strokes(
                0,
                radius as int,
                1 - radius,
                left,
                right,
                centre,
                top,
                border_color,
                fill_color,
            ));
            assert(radius * radius - radius * radius == 0) by (nonlinear_arith);
        }

        while xx < yy
            invariant
                radius <= 0x7FFF,
                x0 == left + radius,
                x1 == right + radius,
                y == centre + radius,
                left >= radius,
                centre >= radius,
                left + 2 <= right,
                x1 + radius <= u32::MAX,
                y + radius <= u32::MAX,
                x1 < self.spec_width(),
                if top {
                    centre < self.spec_height()
                } else {
                    y < self.spec_height()
                },
                xx <= yy + 1,
                yy <= radius,
                ddf_x == 2 * xx + 1,
                ddf_y == -2 * yy,
                f == xx * xx + yy * yy - radius * radius + 2 * xx - yy + 1,
                corner_strokes(
                    0,
                    radius as int,
                    1 - radius,
                    left,
                    right,
                    centre,
                    top,
                    border_color,
                    fill_color,
                ) == done + corner_strokes(
                    xx as int,
                    yy as int,
                    f as int,
                    left,
                    right,
                    centre,
                    top,
                    border_color,
                    fill_color,
                ),
                self.spec_width() == old(self).spec_width(),
                self.spec_height() == old(self).spec_height(),
                forall|i: int, j: int|
                    #[trigger] self.spec_pixel(i, j) == painted(i, j, done, old(self).spec_pixel(i, j)),
            decreases yy + 1 - xx,
        {
            let last_yy = yy;
            let last_xx = xx;
            let ghost f0 = f as int;
            let ghost s0 = |i: int, j: int| self.spec_pixel(i, j);
            proof {
                assert(0 <= xx * xx <= radius * radius) by (nonlinear_arith)
                    requires
                        0 <= xx <= radius,
                ;
                assert(0 <= yy * yy <= radius * radius) by (nonlinear_arith)
                    requires
                        0 <= yy <= radius,
                ;
                assert((xx + 1) * (xx + 1) <= radius * radius) by (nonlinear_arith)
                    requires
                        0 <= xx + 1 <= radius,
                ;
                assert((xx + 1) * (xx + 1) == xx * xx + 2 * xx + 1) by (nonlinear_arith);
                assert((yy - 1) * (yy - 1) == yy * yy - 2 * yy + 1) by (nonlinear_arith);
                assert(radius * radius <= 0x7FFF * 0x7FFF) by (nonlinear_arith)
                    requires
                        0 <= radius <= 0x7FFF,
                ;
            }

            if f >= 0 {
                yy -= 1;
                ddf_y += 2;
                f += ddf_y;
            }
            xx += 1;
            ddf_x += 2;
            f += ddf_x;

            let ghost a = xx as int;
            let ghost b = yy as int;
            let ghost row_b = if top { centre - b } else { centre + b };
            let ghost row_a = if top { centre - a } else { centre + a };
            let ghost d1 = Stroke::dot(left - a, row_b, border_color);
            let ghost d2 = Stroke::dot(left - b, row_a, border_color);
            let ghost d3 = Stroke::dot(right + a, row_b, border_color);
            let ghost d4 = Stroke::dot(right + b, row_a, border_color);
            let ghost l1 = Stroke::row(left - a + 1, right + a - 1, row_b, fill_color);
            let ghost l2 = Stroke::row(left - b + 1, right + b - 1, row_a, fill_color);

            if top {
                // Top Left corner
                self.draw_pixel(x0 - xx - radius, y - yy - radius, border_color);
                self.draw_pixel(x0 - yy - radius, y - xx - radius, border_color);

                // Top Right corner
                self.draw_pixel(x1 + xx - radius, y - yy - radius, border_color);
                self.draw_pixel(x1 + yy - radius, y - xx - radius, border_color);
            } else {
                // Bottom Left corner
                self.draw_pixel(x0 - xx - radius, y + yy - radius, border_color);
                self.draw_pixel(x0 - yy - radius, y + xx - radius, border_color);

                // Bottom Right corner
                self.draw_pixel(x1 + xx - radius, y + yy - radius, border_color);
                self.draw_pixel(x1 + yy - radius, y + xx - radius, border_color);
            }
            let ghost dots = done.push(d1).push(d2).push(d3).push(d4);
            proof {
                assert forall|i: int, j: int|
                    #[trigger] self.spec_pixel(i, j) == painted(
                        i,
                        j,
                        dots,
                        old(self).spec_pixel(i, j),
                    ) by {
                    let base = old(self).spec_pixel(i, j);
                    assert(s0(i, j) == painted(i, j, done, base));
                    lemma_paint_one(i, j, done, d1, base);
                    lemma_paint_one(i, j, done.push(d1), d2, base);
                    lemma_paint_one(i, j, done.push(d1).push(d2), d3, base);
                    lemma_paint_one(i, j, done.push(d1).push(d2).push(d3), d4, base);
                }
            }
            let ghost s1 = |i: int, j: int| self.spec_pixel(i, j);

            // only if yy changed
            if yy != last_yy {
                // Connect from x0 to x1
                let line_x0 = x0 - xx - radius + 1;
                let line_y0 = if top { y - yy - radius } else { y + yy - radius };
                let line_x1 = x1 + xx - radius - 1;

                self.draw_line(line_x0, line_y0, line_x1, line_y0, fill_color);
            }
            let ghost far = if yy != last_yy { dots.push(l1) } else { dots };
            proof {
                assert forall|i: int, j: int|
                    #[trigger] self.spec_pixel(i, j) == painted(
                        i,
                        j,
                        far,
                        old(self).spec_pixel(i, j),
                    ) by {
                    let base = old(self).spec_pixel(i, j);
                    assert(s1(i, j) == painted(i, j, dots, base));
                    lemma_paint_one(i, j, dots, l1, base);
                }
            }
            let ghost s2 = |i: int, j: int| self.spec_pixel(i, j);

            if xx != last_xx {
                // Connect from x0 to x1 (rotated)
                let line_x0 = x0 - yy - radius + 1;
                let line_y0 = if top { y - xx - radius } else { y + xx - radius };
                let line_x1 = x1 + yy - radius - 1;

                self.draw_line(line_x0, line_y0, line_x1, line_y0, fill_color);
            }
            proof {
                let step = corner_step_strokes(
                    left,
                    right,
                    centre,
                    top,
                    a,
                    b,
                    b != last_yy,
                    border_color,
                    fill_color,
                );
                assert(done + step =~= far.push(l2));
                assert forall|i: int, j: int|
                    #[trigger] self.spec_pixel(i, j) == painted(
                        i,
                        j,
                        done + step,
                        old(self).spec_pixel(i, j),
                    ) by {
                    let base = old(self).spec_pixel(i, j);
                    assert(s2(i, j) == painted(i, j, far, base));
                    lemma_paint_one(i, j, far, l2, base);
                }
                let next = circle_next(last_xx as int, last_yy as int, f0);
                assert(next == (xx as int, yy as int, f as int));
                let rest = corner_strokes(
                    xx as int,
                    yy as int,
                    f as int,
                    left,
                    right,
                    centre,
                    top,
                    border_color,
                    fill_color,
                );
                assert(corner_strokes(
                    last_xx as int,
                    last_yy as int,
                    f0,
                    left,
                    right,
                    centre,
                    top,
                    border_color,
                    fill_color,
                ) == step + rest);
                assert(done + (step + rest) =~= (done + step) + rest);
                done = done + step;
            }
        }
        proof {
            assert(corner_strokes(
                xx as int,
                yy as int,
                f as int,
                left,
                right,
                centre,
                top,
                border_color,
                fill_color,
            ) =~= Seq::<Stroke>::empty());
            assert(done + Seq::<Stroke>::empty() =~= done);
        }
    }

    /// Draws a rectangle with rounded corners: a border in `border_color`
    /// around an inside in `fill_color`. What is painted, and in which
    /// order, is [`round_rect_strokes`].
    fn draw_round_rect(
        &mut self,
        x: u32,
        y: u32,
        width: u32,
        height: u32,
        radius: u32,
        border_color: Pixel,
        fill_color: Pixel,
    )
        requires
            radius <= 0x7FFF,
            width >= 2 * radius + 3,
            height >= 2 * radius + 1,
            x + width + radius <= u32::MAX,
            y + height + radius <= u32::MAX,
            x + width <= old(self).spec_width(),
            y + height <= old(self).spec_height(),
        ensures
            final(self).spec_width() == old(self).spec_width(),
            final(self).spec_height() == old(self).spec_height(),
            forall|i: int, j: int|
                #[trigger] final(self).spec_pixel(i, j) == painted(
                    i,
                    j,
                    round_rect_strokes(
                        x as int,
                        y as int,
                        width as int,
                        height as int,
                        radius as int,
                        border_color,
                        fill_color,
                    ),
                    old(self).spec_pixel(i, j),
                ),
    {
        let x0 = x;
        let y0 = y;
        let x1 = (x + width) - 1;
        let y1 = (y + height) - 1;
        let ghost upper = corner_strokes(
            0,
            radius as int,
            1 - radius,
            x0 + radius,
            x1 - radius,
            y0 + radius,
            true,
            border_color,
            fill_color,
        );
        let ghost lower = corner_strokes(
            0,
            radius as int,
            1 - radius,
            x0 + radius,
            x1 - radius,
            y1 - radius,
            false,
            border_color,
            fill_color,
        );
        let ghost b1 = Stroke { x0: x0 + radius, y0: y0 as int, x1: x1 - radius, y1: y0 as int, color: border_color };
        let ghost b2 = Stroke { x0: x0 + radius, y0: y1 as int, x1: x1 - radius, y1: y1 as int, color: border_color };
        let ghost b3 = Stroke { x0: x0 as int, y0: y0 + radius, x1: x0 as int, y1: y1 - radius, color: border_color };
        let ghost b4 = Stroke { x0: x1 as int, y0: y0 + radius, x1: x1 as int, y1: y1 - radius, color: border_color };

        self.draw_2corners(x0, x1 - (radius * 2), y0, radius, true, border_color, fill_color);
        let ghost s1 = |i: int, j: int| self.spec_pixel(i, j);
        self.draw_2corners(
            x0,
            x1 - (radius * 2),
            y1 - (radius * 2),
            radius,
            false,
            border_color,
            fill_color,
        );
        let ghost s2 = |i: int, j: int| self.spec_pixel(i, j);

        // Draws the border
        // Top line
        self.draw_line(x0 + radius, y0, x1 - radius, y0, border_color);
        // Bottom line
        self.draw_line(x0 + radius, y1, x1 - radius, y1, border_color);
        // Left line
        self.draw_line(x0, y0 + radius, x0, y1 - radius, border_color);
        // Right line
        self.draw_line(x1, y0 + radius, x1, y1 - radius, border_color);

        let ghost framed = (upper + lower).push(b1).push(b2).push(b3).push(b4);
        proof {
            assert forall|i: int, j: int|
                #[trigger] self.spec_pixel(i, j) == painted(
                    i,
                    j,
                    framed,
                    old(self).spec_pixel(i, j),
                ) by {
                let base = old(self).spec_pixel(i, j);
                assert(s1(i, j) == painted(i, j, upper, base));
                assert(s2(i, j) == painted(i, j, lower, s1(i, j)));
                lemma_paint_more(i, j, upper, lower, base);
                lemma_paint_one(i, j, upper + lower, b1, base);
                lemma_paint_one(i, j, (upper + lower).push(b1), b2, base);
                lemma_paint_one(i, j, (upper + lower).push(b1).push(b2), b3, base);
                lemma_paint_one(i, j, (upper + lower).push(b1).push(b2).push(b3), b4, base);
            }
        }

        let first = y0 + radius;
        let last = y1 - radius;
        let ghost rows = Seq::new(
            (last - first + 1) as nat,
            |k: int| Stroke::row(x0 + 1, x1 - 1, first + k, fill_color),
        );
        let mut y: u32 = first;
        while y <= last
            invariant
                first <= y <= last + 1,
                last < self.spec_height(),
                x0 + 1 <= x1 - 1,
                x1 < self.spec_width(),
                last + 1 <= u32::MAX,
                rows == Seq::new(
                    (last - first + 1) as nat,
                    |k: int| Stroke::row(x0 + 1, x1 - 1, first + k, fill_color),
                ),
                self.spec_width() == old(self).spec_width(),
                self.spec_height() == old(self).spec_height(),
                forall|i: int, j: int|
                    #[trigger] self.spec_pixel(i, j) == painted(
                        i,
                        j,
                        framed + rows.subrange(0, y - first),
                        old(self).spec_pixel(i, j),
                    ),
            decreases last + 1 - y,
        {
            let ghost s3 = |i: int, j: int| self.spec_pixel(i, j);
            self.draw_line(x0 + 1, y, x1 - 1, y, fill_color);
            proof {
                let sofar = framed + rows.subrange(0, y - first);
                let stroke = rows[y - first];
                assert(framed + rows.subrange(0, y + 1 - first) =~= sofar.push(stroke));
                assert forall|i: int, j: int|
                    #[trigger] self.spec_pixel(i, j) == painted(
                        i,
                        j,
                        framed + rows.subrange(0, y + 1 - first),
                        old(self).spec_pixel(i, j),
                    ) by {
                    let base = old(self).spec_pixel(i, j);
                    assert(s3(i, j) == painted(i, j, sofar, base));
                    lemma_paint_one(i, j, sofar, stroke, base);
                }
            }
            y += 1;
        }
        proof {
            assert(rows.subrange(0, y - first) =~= rows);
            assert(framed + rows =~= round_rect_strokes(
                x as int,
                y0 as int,
                width as int,
                height as int,
                radius as int,
                border_color,
                fill_color,
            ));
        }
    }
}

} // verus!
