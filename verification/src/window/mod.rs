//! Windows, their Z-order and the damage they cause.

use vstd::prelude::*;
use crate::com::response::event::Event;
use crate::bmp::BMPImage;
use crate::fb::Pixel;
use crate::framebuffer::{spec_blended, Framebuffer};
use crate::ids::WinID;

/// Rectangles of damage and of intersection.
pub mod region;
/// The window store.
pub mod store;
/// The table from window ids to windows.
pub mod table;

pub use crate::window::region::{DamageRegion, IntersectionPoint};
pub use crate::window::store::Windows;

verus! {

/// The handle by which the program around the store knows the connection to
/// a client.
pub type PipeId = usize;

/// An event on its way to the client that owns a window.
#[derive(Debug, Clone, Copy, PartialEq, Eq, Structural)]
pub struct Delivery {
    /// The connection to send the event on.
    pub pipe: PipeId,
    /// The window the event is about.
    pub win_id: WinID,
    pub event: Event,
}

/// How a window is ordered among the others; the cursor, for one, is an
/// overlay.
#[derive(Debug, Clone, Copy, PartialEq, Eq, Structural)]
pub enum WindowKind {
    /// Always displayed above all other windows.
    Overlay,
    /// Normal ordering.
    Normal,
}

/// A rectangle of pixels on the screen.
pub struct Window {
    pos_x: usize,
    pos_y: usize,
    width: usize,
    height: usize,
    /// The pixels of the window, row by row.
    pixels: Vec<Pixel>,
    /// The key of the shared memory that the client draws into.
    shm_key: usize,
    com_pipe: Option<PipeId>,
}

impl Window {
    /// The x-coordinate of the top-left corner, in framebuffer coordinates.
    pub closed spec fn spec_pos_x(&self) -> usize {
        self.pos_x
    }

    /// The y-coordinate of the top-left corner, in framebuffer coordinates.
    pub closed spec fn spec_pos_y(&self) -> usize {
        self.pos_y
    }

    /// The number of columns.
    pub closed spec fn spec_width(&self) -> usize {
        self.width
    }

    /// The number of rows.
    pub closed spec fn spec_height(&self) -> usize {
        self.height
    }

    /// The pixels, row by row.
    pub closed spec fn spec_pixels(&self) -> Seq<Pixel> {
        self.pixels@
    }

    /// The key of the shared memory that the client draws into.
    pub closed spec fn spec_shm_key(&self) -> usize {
        self.shm_key
    }

    /// The connection to the client that owns the window, if a client does.
    pub closed spec fn spec_com_pipe(&self) -> Option<PipeId> {
        self.com_pipe
    }

    /// There are `width * height` pixels, and the far edges are in the range
    /// of the machine's word.
    #[verifier::type_invariant]
    pub closed spec fn wf(&self) -> bool {
        &&& self.pixels@.len() == self.width * self.height
        &&& self.pos_x + self.width <= usize::MAX
        &&& self.pos_y + self.height <= usize::MAX
    }

    /// What well-formedness says in terms of the public accessors.
    pub proof fn lemma_wf(&self)
        ensures
            self.wf() <==> {
                &&& self.spec_pixels().len() == self.spec_width() * self.spec_height()
                &&& self.spec_pos_x() + self.spec_width() <= usize::MAX
                &&& self.spec_pos_y() + self.spec_height() <= usize::MAX
            },
    {
    }

    /// The rectangle that the window covers on the framebuffer.
    pub open spec fn spec_rect(&self) -> DamageRegion {
        DamageRegion::spec_new(
            self.spec_pos_x(),
            self.spec_pos_y(),
            self.spec_width(),
            self.spec_height(),
        )
    }

    /// Whether `region` is the rectangle that the window covers on the
    /// framebuffer.
    pub open spec fn spec_damage(&self, region: DamageRegion) -> bool {
        &&& region.x0() == self.spec_pos_x()
        &&& region.y0() == self.spec_pos_y()
        &&& region.x1() == self.spec_pos_x() + self.spec_width()
        &&& region.y1() == self.spec_pos_y() + self.spec_height()
    }

    /// Whether `other` is this window at another place: everything but the
    /// position is the same.
    pub open spec fn same_but_position(&self, other: Window) -> bool {
        &&& other.spec_width() == self.spec_width()
        &&& other.spec_height() == self.spec_height()
        &&& other.spec_pixels() == self.spec_pixels()
        &&& other.spec_shm_key() == self.spec_shm_key()
        &&& other.spec_com_pipe() == self.spec_com_pipe()
    }

    /// The same window with events going to the connection `com_pipe`.
    pub fn with_com_pipe(self, com_pipe: PipeId) -> (win: Self)
        ensures
            win.spec_com_pipe() == Some(com_pipe),
            win.spec_pos_x() == self.spec_pos_x(),
            win.spec_pos_y() == self.spec_pos_y(),
            win.spec_width() == self.spec_width(),
            win.spec_height() == self.spec_height(),
            win.spec_pixels() == self.spec_pixels(),
            win.spec_shm_key() == self.spec_shm_key(),
    {
        proof {
            use_type_invariant(&self);
        }
        let Window { pos_x, pos_y, width, height, pixels, shm_key, com_pipe: _ } = self;
        Window { pos_x, pos_y, width, height, pixels, shm_key, com_pipe: Some(com_pipe) }
    }

    /// The same window with its pixels shared under the key `shm_key`.
    pub fn with_shm_key(self, shm_key: usize) -> (win: Self)
        ensures
            win.spec_shm_key() == shm_key,
            win.spec_pos_x() == self.spec_pos_x(),
            win.spec_pos_y() == self.spec_pos_y(),
            win.spec_width() == self.spec_width(),
            win.spec_height() == self.spec_height(),
            win.spec_pixels() == self.spec_pixels(),
            win.spec_com_pipe() == self.spec_com_pipe(),
    {
        proof {
            use_type_invariant(&self);
        }
        let Window { pos_x, pos_y, width, height, pixels, shm_key: _, com_pipe } = self;
        Window { pos_x, pos_y, width, height, pixels, shm_key, com_pipe }
    }

    /// The key of the shared memory that holds the pixels of the window.
    pub fn shm_key(&self) -> (key: &usize)
        ensures
            *key == self.spec_shm_key(),
    {
        &self.shm_key
    }

    /// The connection to the client that owns the window, if a client does.
    pub fn com_pipe(&self) -> (pipe: Option<PipeId>)
        ensures
            pipe == self.spec_com_pipe(),
    {
        self.com_pipe
    }

    /// The x-coordinate of the top-left corner.
    pub fn pos_x(&self) -> (x: usize)
        ensures
            x == self.spec_pos_x(),
    {
        self.pos_x
    }

    /// The y-coordinate of the top-left corner.
    pub fn pos_y(&self) -> (y: usize)
        ensures
            y == self.spec_pos_y(),
    {
        self.pos_y
    }

    /// The number of columns.
    pub fn width(&self) -> (w: usize)
        ensures
            w == self.spec_width(),
    {
        self.width
    }

    /// The number of rows.
    pub fn height(&self) -> (h: usize)
        ensures
            h == self.spec_height(),
    {
        self.height
    }

    /// The pixels, row by row.
    pub fn pixels(&self) -> (pixels: &Vec<Pixel>)
        ensures
            pixels@ == self.spec_pixels(),
            pixels@.len() == self.spec_width() * self.spec_height(),
    {
        proof {
            use_type_invariant(self);
        }
        &self.pixels
    }

    /// A window of `width` by `height` pixels at (`pos_x`, `pos_y`) that
    /// shows `fill_pixels`, row by row.
    pub fn new_from_pixels(
        pos_x: usize,
        pos_y: usize,
        width: usize,
        height: usize,
        fill_pixels: Vec<Pixel>,
    ) -> (win: Window)
        requires
            fill_pixels@.len() == width * height,
            pos_x + width <= usize::MAX,
            pos_y + height <= usize::MAX,
        ensures
            win.wf(),
            win.spec_pos_x() == pos_x,
            win.spec_pos_y() == pos_y,
            win.spec_width() == width,
            win.spec_height() == height,
            win.spec_pixels() == fill_pixels@,
            win.spec_shm_key() == 0,
            win.spec_com_pipe() == None::<PipeId>,
    {
        Window { pos_x, pos_y, width, height, pixels: fill_pixels, shm_key: 0, com_pipe: None }
    }

    /// A window at (`pos_x`, `pos_y`) that shows the bitmap image `image`.
    pub fn new_from_bmp(pos_x: usize, pos_y: usize, image: BMPImage) -> (win: Window)
        requires
            pos_x + image.spec_width() <= usize::MAX,
            pos_y + image.spec_height() <= usize::MAX,
        ensures
            win.wf(),
            win.spec_pos_x() == pos_x,
            win.spec_pos_y() == pos_y,
            win.spec_width() == image.spec_width(),
            win.spec_height() == image.spec_height(),
            win.spec_pixels() == image.spec_pixels(),
            win.spec_shm_key() == 0,
            win.spec_com_pipe() == None::<PipeId>,
    {
        let pixels = image.to_pixels();
        Self::new_from_pixels(pos_x, pos_y, image.width(), image.height(), pixels)
    }

    /// A window of `width` by `height` pixels at (`pos_x`, `pos_y`), every
    /// pixel of which is `pixel`.
    pub fn new_filled_with(pos_x: usize, pos_y: usize, width: usize, height: usize, pixel: Pixel) -> (win:
        Self)
        requires
            width * height <= usize::MAX,
            pos_x + width <= usize::MAX,
            pos_y + height <= usize::MAX,
        ensures
            win.wf(),
            win.spec_pos_x() == pos_x,
            win.spec_pos_y() == pos_y,
            win.spec_width() == width,
            win.spec_height() == height,
            win.spec_pixels() == Seq::new((width * height) as nat, |i: int| pixel),
            win.spec_shm_key() == 0,
            win.spec_com_pipe() == None::<PipeId>,
    {
        let pixels_required: usize = width * height;
        let mut pixels: Vec<Pixel> = Vec::new();
        let mut i: usize = 0;
        while i < pixels_required
            invariant
                i <= pixels_required,
                pixels@ == Seq::new(i as nat, |j: int| pixel),
            decreases pixels_required - i,
        {
            pixels.push(pixel);
            i += 1;
            assert(pixels@ =~= Seq::new(i as nat, |j: int| pixel));
        }
        Window { pos_x, pos_y, width, height, pixels, shm_key: 0, com_pipe: None }
    }

    /// The rectangle of the framebuffer that the window covers, which is the
    /// damage it causes when it appears, moves or goes.
    pub fn damage(&self) -> (region: DamageRegion)
        ensures
            self.spec_damage(region),
            region == self.spec_rect(),
            region.wf(),
    {
        proof {
            use_type_invariant(self);
            DamageRegion::lemma_new(self.pos_x, self.pos_y, self.width, self.height);
        }
        DamageRegion::new(self.pos_x, self.pos_y, self.width, self.height)
    }

    /// The surface `before` after the part `point` of the window has been
    /// drawn onto it. A part as large as the window is the whole window;
    /// any other part is cut to the window.
    pub open spec fn spec_drawn_at(
        &self,
        before: Seq<Pixel>,
        stride: int,
        rows: int,
        point: IntersectionPoint,
    ) -> Seq<Pixel> {
        if point.right() - point.left() == self.spec_width() && point.bottom() - point.top()
            == self.spec_height() {
            spec_blended(
                before,
                stride,
                rows,
                self.spec_pos_x() as int,
                self.spec_pos_y() as int,
                self.spec_width() as int,
                self.spec_height() as int,
                self.spec_pixels(),
                self.spec_width() as int,
                self.spec_height() as int,
                0,
                0,
            )
        } else {
            spec_blended(
                before,
                stride,
                rows,
                self.spec_pos_x() + point.left(),
                self.spec_pos_y() + point.top(),
                point.right() - point.left(),
                point.bottom() - point.top(),
                self.spec_pixels(),
                self.spec_width() as int,
                self.spec_height() as int,
                point.left(),
                point.top(),
            )
        }
    }

    /// Blends the whole window onto the surface, cut to the surface.
    pub fn draw(&self, fb: &mut Framebuffer)
        requires
            old(fb).wf(),
        ensures
            final(fb).wf(),
            final(fb).spec_width() == old(fb).spec_width(),
            final(fb).spec_height() == old(fb).spec_height(),
            final(fb)@ == spec_blended(
                old(fb)@,
                old(fb).spec_width() as int,
                old(fb).spec_height() as int,
                self.spec_pos_x() as int,
                self.spec_pos_y() as int,
                self.spec_width() as int,
                self.spec_height() as int,
                self.spec_pixels(),
                self.spec_width() as int,
                self.spec_height() as int,
                0,
                0,
            ),
    {
        proof {
            use_type_invariant(self);
        }
        fb.draw_rect(self.pos_x, self.pos_y, self.width, self.height, self.pixels.as_slice());
    }

    /// Blends the part `point` of the window onto the surface, at the place
    /// of the surface where that part of the window stands.
    pub fn draw_at(&self, fb: &mut Framebuffer, point: IntersectionPoint)
        requires
            old(fb).wf(),
        ensures
            final(fb).wf(),
            final(fb).spec_width() == old(fb).spec_width(),
            final(fb).spec_height() == old(fb).spec_height(),
            final(fb)@ == self.spec_drawn_at(
                old(fb)@,
                old(fb).spec_width() as int,
                old(fb).spec_height() as int,
                point,
            ),
    {
        proof {
            use_type_invariant(self);
            point.lemma_wf();
        }
        let top_x_within = point.x();
        let top_y_within = point.y();
        let width = point.width();
        let height = point.height();

        if width == self.width && height == self.height {
            return self.draw(fb);
        }
        if top_x_within > self.width || top_y_within > self.height {
            proof {
                fb.lemma_wf();
                assert(fb@ =~= self.spec_drawn_at(
                    fb@,
                    fb.spec_width() as int,
                    fb.spec_height() as int,
                    point,
                ));
            }
            return ;
        }
        // The offset within the surface is that of the window and the part.
        let off_x = self.pos_x + top_x_within;
        let off_y = self.pos_y + top_y_within;

        fb.draw_rect_within(
            off_x,
            off_y,
            width,
            height,
            self.pixels.as_slice(),
            self.width,
            self.height,
            top_x_within,
            top_y_within,
        );
    }

    /// Whether `other` is this window with other pixels: everything but the
    /// pixels is the same.
    pub open spec fn same_but_pixels(&self, other: Window) -> bool {
        &&& other.spec_pos_x() == self.spec_pos_x()
        &&& other.spec_pos_y() == self.spec_pos_y()
        &&& other.spec_width() == self.spec_width()
        &&& other.spec_height() == self.spec_height()
        &&& other.spec_shm_key() == self.spec_shm_key()
        &&& other.spec_com_pipe() == self.spec_com_pipe()
    }

    /// Shows `pixels` in the window from now on.
    pub(crate) fn set_pixels(&mut self, pixels: Vec<Pixel>)
        requires
            pixels@.len() == old(self).spec_width() * old(self).spec_height(),
        ensures
            final(self).spec_pixels() == pixels@,
            old(self).same_but_pixels(*final(self)),
            final(self).wf(),
    {
        proof {
            use_type_invariant(&*self);
        }
        self.pixels = pixels;
    }

    /// Moves the window to (`pos_x`, `pos_y`).
    pub(crate) fn move_to(&mut self, pos_x: usize, pos_y: usize)
        requires
            pos_x + old(self).spec_width() <= usize::MAX,
            pos_y + old(self).spec_height() <= usize::MAX,
        ensures
            final(self).spec_pos_x() == pos_x,
            final(self).spec_pos_y() == pos_y,
            old(self).same_but_position(*final(self)),
            final(self).wf(),
    {
        proof {
            use_type_invariant(&*self);
        }
        self.pos_x = pos_x;
        self.pos_y = pos_y;
    }
}

impl DamageRegion {
    /// The part of `win` that this region covers, in the coordinates of
    /// `win`; `None` when the two do not meet.
    pub fn overlaps_with(&self, win: &Window) -> (point: Option<IntersectionPoint>)
        ensures
            point == if self.intersects(win.spec_rect()) {
                Some(self.spec_intersection(win.spec_rect()))
            } else {
                None
            },
            forall|rect: DamageRegion|
                win.spec_damage(rect) ==> {
                    &&& point is Some <==> self.intersects(rect)
                    &&& point matches Some(p) ==> p.wf() && self.intersection_is(rect, p)
                },
    {
        let rect = win.damage();
        let point = self.intersect(&rect);
        proof {
            assert forall|other: DamageRegion| win.spec_damage(other) implies other == rect by {
                other.lemma_ext(rect);
            }
        }
        point
    }
}

/// Adds `window` to `windows` as a window of kind `kind`; see
/// [`Windows::add_window`].
pub fn add_window(windows: &mut Windows, window: Window, kind: WindowKind) -> (id: Option<WinID>)
    requires
        old(windows).wf(),
    ensures
        final(windows).wf(),
        old(windows).focus_is_topmost() ==> final(windows).focus_is_topmost(),
        id is Some <==> exists|any: WinID|
            any < crate::ids::MAX_WINDOW_ID && !old(windows).table().contains_key(any),
        id is None ==> old(windows).same_state(final(windows)),
        id matches Some(id) ==> old(windows).spec_window_added(final(windows), id, window, kind)
            && match kind {
            WindowKind::Normal => old(windows).spec_focus_moved_to_new(final(windows), id),
            WindowKind::Overlay => {
                &&& final(windows).normal() == old(windows).normal()
                &&& final(windows).overlay() == old(windows).overlay().push(id)
                &&& final(windows).focused() == old(windows).focused()
                &&& final(windows).outbox() == old(windows).outbox()
            },
        },
{
    windows.add_window(window, kind)
}

/// Records damage on a rectangle of the window `win_id` of `windows`; see
/// [`Windows::damage_window`].
pub fn damage_window(
    windows: &mut Windows,
    win_id: WinID,
    x: usize,
    y: usize,
    width: usize,
    height: usize,
) -> (done: Result<(), ()>)
    requires
        old(windows).wf(),
    ensures
        final(windows).wf(),
        old(windows).spec_damage_window(final(windows), win_id, x, y, width, height, done is Ok),
{
    windows.damage_window(win_id, x, y, width, height)
}

/// Whether damage waits for a redraw of `windows`.
pub fn should_redraw(windows: &Windows) -> (pending: bool)
    ensures
        pending == (windows.damage().len() > 0),
{
    windows.should_redraw()
}

/// Redraws the damaged areas of the screen if there are any, and returns
/// the regions that the caller has to present; see
/// [`Windows::damage_redraw`].
pub fn redraw(windows: &mut Windows, fb: &mut Framebuffer) -> (mended: Vec<DamageRegion>)
    requires
        old(windows).wf(),
        old(fb).wf(),
    ensures
        final(windows).wf(),
        old(windows).focus_is_topmost() ==> final(windows).focus_is_topmost(),
        old(windows).same_windows(final(windows)),
        final(windows).outbox() == old(windows).outbox(),
        final(windows).damage() == Seq::<DamageRegion>::empty(),
        mended@ == old(windows).damage(),
        final(fb).wf(),
        final(fb).spec_width() == old(fb).spec_width(),
        final(fb).spec_height() == old(fb).spec_height(),
        final(fb)@ == if old(windows).damage().len() == 0 {
            old(fb)@
        } else {
            old(windows).spec_redrawn(
                old(fb)@,
                old(fb).spec_width() as int,
                old(fb).spec_height() as int,
            )
        },
{
    if should_redraw(windows) {
        windows.damage_redraw(fb)
    } else {
        assert(windows.damage() =~= Seq::<DamageRegion>::empty());
        Vec::new()
    }
}

} // verus!
