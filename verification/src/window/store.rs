//! The window store: the windows by id, their Z-order, the focus, the damage
//! that waits for a redraw and the events that wait to be sent.

use vstd::prelude::*;
use crate::com::response::event::Event;
use crate::fb::Pixel;
use crate::framebuffer::{bg_pixel, spec_bg_pixel, spec_filled, Framebuffer};
use crate::ids::{WinID, WindowIds, MAX_WINDOW_ID};
use crate::window::region::{DamageRegion, IntersectionPoint};
use crate::window::table::{
    table_get, table_get_mut, table_insert, table_new, table_remove, Entry, WindowTable,
};
use crate::window::{Delivery, PipeId, Window, WindowKind};
use crate::zlist::{
    lemma_push_fresh, lemma_without_members, lemma_without_no_duplicates,
    zlist_get_index, zlist_ids, zlist_insert, zlist_len, zlist_new, zlist_shift_remove,
    zlist_without, ZList,
};

verus! {

/// The room that a framebuffer of `limit` pixels leaves for the corner of a
/// window of `size` pixels: the largest coordinate at which the window still
/// ends inside, or 0 for a window larger than the framebuffer.
pub open spec fn spec_room(limit: usize, size: usize) -> usize {
    if size <= limit {
        (limit - size) as usize
    } else {
        0
    }
}

/// A coordinate moved by `delta` and held in the range of the machine's word.
pub open spec fn spec_offset(pos: usize, delta: i32) -> usize {
    if pos + delta < 0 {
        0
    } else if pos + delta > usize::MAX {
        usize::MAX
    } else {
        (pos + delta) as usize
    }
}

/// A coordinate moved by `delta` and then held in the room that the
/// framebuffer leaves.
pub open spec fn spec_moved(pos: usize, delta: i32, limit: usize, size: usize) -> usize {
    if spec_offset(pos, delta) <= spec_room(limit, size) {
        spec_offset(pos, delta)
    } else {
        spec_room(limit, size)
    }
}

/// A coordinate moved by `delta` and held in the range of the machine's word.
fn offset_position(pos: usize, delta: i32) -> (moved: usize)
    ensures
        moved == spec_offset(pos, delta),
{
    if delta >= 0 {
        let step: usize = delta as usize;
        if pos > usize::MAX - step {
            usize::MAX
        } else {
            pos + step
        }
    } else {
        let step: usize = (-(delta as i64)) as usize;
        if step > pos {
            0
        } else {
            pos - step
        }
    }
}

/// The event `event` on its way to the owner of the window `id`: one
/// delivery if the window exists and a client owns it, none otherwise.
pub open spec fn spec_notice(table: Map<WinID, Entry>, id: WinID, event: Event) -> Seq<Delivery> {
    if table.contains_key(id) && table[id].0.spec_com_pipe() is Some {
        seq![Delivery { pipe: table[id].0.spec_com_pipe().unwrap(), win_id: id, event }]
    } else {
        Seq::<Delivery>::empty()
    }
}

/// The surface after every region of `regions` has been filled with
/// `pixel`, the first region first.
pub open spec fn spec_fill_regions(
    pixels: Seq<Pixel>,
    stride: int,
    regions: Seq<DamageRegion>,
    pixel: Pixel,
) -> Seq<Pixel>
    decreases regions.len(),
{
    if regions.len() == 0 {
        pixels
    } else {
        let last = regions.last();
        spec_filled(
            spec_fill_regions(pixels, stride, regions.drop_last(), pixel),
            stride,
            last.x0(),
            last.y0(),
            last.x1() - last.x0(),
            last.y1() - last.y0(),
            pixel,
        )
    }
}

/// The parts of the rectangle `rect` that the regions of `damage` cover, one
/// for each region that meets the rectangle, in the order of the regions.
pub open spec fn spec_points(damage: Seq<DamageRegion>, rect: DamageRegion) -> Seq<IntersectionPoint>
    decreases damage.len(),
{
    if damage.len() == 0 {
        Seq::<IntersectionPoint>::empty()
    } else if damage.last().intersects(rect) {
        spec_points(damage.drop_last(), rect).push(damage.last().spec_intersection(rect))
    } else {
        spec_points(damage.drop_last(), rect)
    }
}

/// The surface after the windows `ids` have been drawn onto it, the first
/// first: of each window the union of the parts that `damage` covers, and
/// nothing of a window that the damage does not meet.
pub open spec fn spec_draw_windows(
    pixels: Seq<Pixel>,
    stride: int,
    rows: int,
    table: Map<WinID, Entry>,
    ids: Seq<WinID>,
    damage: Seq<DamageRegion>,
) -> Seq<Pixel>
    decreases ids.len(),
{
    if ids.len() == 0 {
        pixels
    } else {
        let before = spec_draw_windows(pixels, stride, rows, table, ids.drop_last(), damage);
        let win = table[ids.last()].0;
        let point = IntersectionPoint::spec_sum(spec_points(damage, win.spec_rect()));
        if point == IntersectionPoint::spec_none() {
            before
        } else {
            win.spec_drawn_at(before, stride, rows, point)
        }
    }
}

/// The windows of the window manager.
pub struct Windows {
    windows: WindowTable,
    /// Windows that always come on top of the other windows.
    overlay_windows: ZList,
    /// The order of the normal windows on the Z axis; the top-most comes
    /// last.
    normal_windows: ZList,
    /// The ids in use.
    window_ids: WindowIds,
    focused_window: Option<WinID>,
    damaged_regions: Vec<DamageRegion>,
    /// Events that wait to be sent to clients.
    events: Vec<Delivery>,
    fb_width: usize,
    fb_height: usize,
}

impl Windows {
    /// The windows and their kinds, by id.
    pub closed spec fn table(&self) -> Map<WinID, Entry> {
        self.windows@
    }

    /// The normal windows from the bottom-most to the top-most.
    pub closed spec fn normal(&self) -> Seq<WinID> {
        zlist_ids(self.normal_windows)
    }

    /// The overlay windows from the bottom-most to the top-most.
    pub closed spec fn overlay(&self) -> Seq<WinID> {
        zlist_ids(self.overlay_windows)
    }

    /// The ids in use.
    pub closed spec fn ids(&self) -> Set<WinID> {
        self.window_ids@
    }

    /// The id of the focused window.
    pub closed spec fn focused(&self) -> Option<WinID> {
        self.focused_window
    }

    /// The damage that waits for the next redraw, oldest first.
    pub closed spec fn damage(&self) -> Seq<DamageRegion> {
        self.damaged_regions@
    }

    /// The events that wait to be sent, oldest first.
    pub closed spec fn outbox(&self) -> Seq<Delivery> {
        self.events@
    }

    /// The width of the framebuffer.
    pub closed spec fn fb_width(&self) -> usize {
        self.fb_width
    }

    /// The height of the framebuffer.
    pub closed spec fn fb_height(&self) -> usize {
        self.fb_height
    }

    /// Whether `win` stands where the framebuffer leaves room for it.
    pub open spec fn in_room(&self, win: Window) -> bool {
        &&& win.spec_pos_x() <= spec_room(self.fb_width(), win.spec_width())
        &&& win.spec_pos_y() <= spec_room(self.fb_height(), win.spec_height())
    }

    /// The invariant of the store, but that the window `pending`, if any,
    /// may not stand in the list of its kind yet.
    pub open spec fn wf_but(&self, pending: Option<WinID>) -> bool {
        &&& self.ids() == self.table().dom()
        &&& self.normal().no_duplicates()
        &&& self.overlay().no_duplicates()
        &&& forall|id: WinID| #[trigger]
            self.normal().contains(id) ==> self.table().contains_key(id) && self.table()[id].1
                == WindowKind::Normal
        &&& forall|id: WinID| #[trigger]
            self.overlay().contains(id) ==> self.table().contains_key(id) && self.table()[id].1
                == WindowKind::Overlay
        &&& forall|id: WinID| #[trigger]
            self.table().contains_key(id) && Some(id) != pending ==> (if self.table()[id].1
                == WindowKind::Normal {
                self.normal().contains(id)
            } else {
                self.overlay().contains(id)
            })
        &&& forall|id: WinID| #[trigger]
            self.table().contains_key(id) ==> self.table()[id].0.wf() && self.in_room(
                self.table()[id].0,
            )
        &&& self.focused() matches Some(id) ==> self.table().contains_key(id)
        &&& self.focused() matches Some(id) ==> (self.table()[id].1 == WindowKind::Normal
            ==> self.normal().len() > 0 && self.normal().last() == id)
        &&& forall|i: int| 0 <= i < self.damage().len() ==> (#[trigger] self.damage()[i]).wf()
    }

    /// The invariant of the store: the ids in use are those of the windows;
    /// every window stands once in the list of its kind and the lists hold
    /// nothing else; every window is well formed and stands where the
    /// framebuffer leaves room for it; the focused window exists, and a
    /// normal window that has the focus is the top-most normal window.
    pub open spec fn wf(&self) -> bool {
        self.wf_but(None)
    }

    /// Whether the focused window, if there is one, is the top-most normal
    /// window.
    pub open spec fn focus_is_topmost(&self) -> bool {
        self.focused() matches Some(id) ==> self.normal().len() > 0 && self.normal().last() == id
    }

    /// Whether `other` has the same windows in the same order with the same
    /// focus; damage and events may differ.
    pub open spec fn same_windows(&self, other: &Windows) -> bool {
        &&& other.table() == self.table()
        &&& other.normal() == self.normal()
        &&& other.overlay() == self.overlay()
        &&& other.ids() == self.ids()
        &&& other.focused() == self.focused()
        &&& other.fb_width() == self.fb_width()
        &&& other.fb_height() == self.fb_height()
    }

    /// Whether `other` is in the same state throughout.
    pub open spec fn same_state(&self, other: &Windows) -> bool {
        &&& self.same_windows(other)
        &&& other.damage() == self.damage()
        &&& other.outbox() == self.outbox()
    }

    /// The ids of the windows are those of the two Z-lists together, and no
    /// id stands in both lists or twice in one.
    pub proof fn lemma_z_lists_partition(&self)
        requires
            self.wf(),
        ensures
            self.table().dom() == self.normal().to_set().union(self.overlay().to_set()),
            self.normal().to_set().disjoint(self.overlay().to_set()),
            self.normal().no_duplicates(),
            self.overlay().no_duplicates(),
    {
        assert forall|id: WinID|
            self.table().dom().contains(id) <==> self.normal().to_set().union(
                self.overlay().to_set(),
            ).contains(id) by {
            if self.table().contains_key(id) {
                assert(self.normal().contains(id) || self.overlay().contains(id));
            }
        }
        assert(self.table().dom() =~= self.normal().to_set().union(self.overlay().to_set()));
        assert forall|id: WinID|
            !(self.normal().to_set().contains(id) && self.overlay().to_set().contains(id)) by {
            if self.normal().contains(id) && self.overlay().contains(id) {
                assert(self.table()[id].1 == WindowKind::Normal);
                assert(self.table()[id].1 == WindowKind::Overlay);
            }
        }
    }

    /// A normal window that has the focus is the top-most normal window. An
    /// overlay has the focus only after [`Self::set_focused`] was called on
    /// it; then no normal window has the focus.
    pub proof fn lemma_focus_is_topmost(&self)
        requires
            self.wf(),
        ensures
            match self.focused() {
                Some(id) => self.table().contains_key(id) && (self.table()[id].1
                    == WindowKind::Normal ==> self.focus_is_topmost() && self.normal().contains(
                    id,
                )),
                None => self.focus_is_topmost(),
            },
    {
    }

    /// Every window that is not larger than the framebuffer lies inside it:
    /// its corner is at most the framebuffer's size less its own.
    pub proof fn lemma_windows_inside(&self, id: WinID)
        requires
            self.wf(),
            self.table().contains_key(id),
            self.table()[id].0.spec_width() <= self.fb_width(),
            self.table()[id].0.spec_height() <= self.fb_height(),
        ensures
            0 <= self.table()[id].0.spec_pos_x() <= self.fb_width() - self.table()[id].0.spec_width(),
            0 <= self.table()[id].0.spec_pos_y() <= self.fb_height()
                - self.table()[id].0.spec_height(),
    {
    }

    /// The invariant goes over to a store with the same windows whose damage
    /// is well formed.
    proof fn lemma_wf_carries(&self, other: &Windows, pending: Option<WinID>)
        requires
            self.wf_but(pending),
            self.same_windows(other),
            forall|i: int| 0 <= i < other.damage().len() ==> (#[trigger] other.damage()[i]).wf(),
        ensures
            other.wf_but(pending),
    {
        assert forall|id: WinID| #[trigger] other.table().contains_key(id) implies other.table()[id].0.wf()
            && other.in_room(other.table()[id].0) by {
            assert(self.table().contains_key(id));
            assert(self.in_room(self.table()[id].0));
        }
    }

    /// A store without windows for a framebuffer of `fb_width` by
    /// `fb_height` pixels.
    pub fn new(fb_width: usize, fb_height: usize) -> (store: Self)
        ensures
            store.wf(),
            store.focus_is_topmost(),
            store.table() == Map::<WinID, Entry>::empty(),
            store.normal() == Seq::<WinID>::empty(),
            store.overlay() == Seq::<WinID>::empty(),
            store.ids() == Set::<WinID>::empty(),
            store.focused() == None::<WinID>,
            store.damage() == Seq::<DamageRegion>::empty(),
            store.outbox() == Seq::<Delivery>::empty(),
            store.fb_width() == fb_width,
            store.fb_height() == fb_height,
    {
        let store = Self {
            overlay_windows: zlist_new(),
            normal_windows: zlist_new(),
            focused_window: None,
            damaged_regions: Vec::new(),
            events: Vec::new(),
            windows: table_new(),
            window_ids: WindowIds::new(),
            fb_width,
            fb_height,
        };
        assert(store.table() =~= Map::<WinID, Entry>::empty());
        assert(store.ids() =~= store.table().dom());
        store
    }

    /// Records `region` as damage that the next redraw has to mend.
    fn insert_damage(&mut self, region: DamageRegion)
        requires
            region.wf(),
        ensures
            final(self).damage() == old(self).damage().push(region),
            old(self).same_windows(final(self)),
            final(self).outbox() == old(self).outbox(),
            forall|pending: Option<WinID>| old(self).wf_but(pending) ==> final(self).wf_but(pending),
    {
        self.damaged_regions.push(region);
        proof {
            assert forall|pending: Option<WinID>| old(self).wf_but(pending) implies self.wf_but(
                pending,
            ) by {
                assert forall|i: int| 0 <= i < self.damage().len() implies (
                #[trigger] self.damage()[i]).wf() by {
                    if i < old(self).damage().len() {
                        assert(self.damage()[i] == old(self).damage()[i]);
                    }
                }
                old(self).lemma_wf_carries(self, pending);
            }
        }
    }

    /// Puts `event` into the outbox for the owner of the window `id`, if the
    /// window exists and has an owner.
    fn notify(&mut self, id: WinID, event: Event)
        ensures
            final(self).outbox() == old(self).outbox() + spec_notice(old(self).table(), id, event),
            old(self).same_windows(final(self)),
            final(self).damage() == old(self).damage(),
            forall|pending: Option<WinID>| old(self).wf_but(pending) ==> final(self).wf_but(pending),
    {
        let pipe = match table_get(&self.windows, id) {
            Some(entry) => entry.0.com_pipe(),
            None => None,
        };
        match pipe {
            Some(pipe) => {
                self.events.push(Delivery { pipe, win_id: id, event });
            },
            None => {},
        }
        proof {
            assert(self.outbox() =~= old(self).outbox() + spec_notice(old(self).table(), id, event));
            assert forall|pending: Option<WinID>| old(self).wf_but(pending) implies self.wf_but(
                pending,
            ) by {
                old(self).lemma_wf_carries(self, pending);
            }
        }
    }

    /// The id of the focused window.
    pub fn focused_window(&self) -> (id: Option<WinID>)
        ensures
            id == self.focused(),
    {
        self.focused_window
    }

    /// The rectangle that the window `win_id` covers on the framebuffer, if
    /// there is such a window.
    pub fn window_rect(&self, win_id: WinID) -> (rect: Option<DamageRegion>)
        ensures
            match rect {
                Some(rect) => self.table().contains_key(win_id) && rect
                    == self.table()[win_id].0.spec_rect() && self.table()[win_id].0.spec_damage(
                    rect,
                ),
                None => !self.table().contains_key(win_id),
            },
    {
        match table_get(&self.windows, win_id) {
            Some(entry) => Some(entry.0.damage()),
            None => None,
        }
    }

    /// The ids of a Z-list as a vector, bottom-most first.
    fn list_ids(list: &ZList) -> (ids: Vec<WinID>)
        ensures
            ids@ == zlist_ids(*list),
    {
        let count = zlist_len(list);
        let mut ids: Vec<WinID> = Vec::new();
        let mut at: usize = 0;
        while at < count
            invariant
                at <= count,
                count == zlist_ids(*list).len(),
                ids@ == zlist_ids(*list).subrange(0, at as int),
            decreases count - at,
        {
            match zlist_get_index(list, at) {
                Some(id) => {
                    ids.push(id);
                    assert(ids@ =~= zlist_ids(*list).subrange(0, at + 1));
                },
                None => {
                    assert(false);
                },
            }
            at += 1;
        }
        assert(ids@ =~= zlist_ids(*list));
        ids
    }

    /// The normal windows from the bottom-most to the top-most.
    pub fn normal_windows(&self) -> (ids: Vec<WinID>)
        ensures
            ids@ == self.normal(),
    {
        Self::list_ids(&self.normal_windows)
    }

    /// The overlay windows from the bottom-most to the top-most.
    pub fn overlay_windows(&self) -> (ids: Vec<WinID>)
        ensures
            ids@ == self.overlay(),
    {
        Self::list_ids(&self.overlay_windows)
    }

    /// The damage that waits for the next redraw, oldest first.
    pub fn damaged_regions(&self) -> (regions: &Vec<DamageRegion>)
        ensures
            regions@ == self.damage(),
    {
        &self.damaged_regions
    }

    /// The window `win_id`, if there is such a window.
    pub fn window(&self, win_id: WinID) -> (win: Option<&Window>)
        ensures
            match win {
                Some(win) => self.table().contains_key(win_id) && *win == self.table()[win_id].0,
                None => !self.table().contains_key(win_id),
            },
    {
        match table_get(&self.windows, win_id) {
            Some(entry) => Some(&entry.0),
            None => None,
        }
    }

    /// Whether damage waits for a redraw.
    pub fn should_redraw(&self) -> (pending: bool)
        ensures
            pending == (self.damage().len() > 0),
    {
        self.damaged_regions.len() > 0
    }

    /// Takes the events that wait to be sent out of the store, oldest first.
    pub fn take_events(&mut self) -> (events: Vec<Delivery>)
        ensures
            events@ == old(self).outbox(),
            final(self).outbox() == Seq::<Delivery>::empty(),
            old(self).same_windows(final(self)),
            final(self).damage() == old(self).damage(),
            old(self).wf() ==> final(self).wf(),
    {
        let mut events: Vec<Delivery> = Vec::new();
        std::mem::swap(&mut events, &mut self.events);
        proof {
            if old(self).wf() {
                old(self).lemma_wf_carries(self, None);
            }
        }
        events
    }

    /// What [`Self::send_event`] does: the event goes into the outbox if
    /// the window exists and has an owner, and nothing else changes; `sent`
    /// says whether the window exists.
    pub open spec fn spec_send_event(
        &self,
        after: &Windows,
        win_id: WinID,
        event: Event,
        sent: bool,
    ) -> bool {
        &&& sent <==> self.table().contains_key(win_id)
        &&& after.outbox() == self.outbox() + spec_notice(self.table(), win_id, event)
        &&& self.same_windows(after)
        &&& after.damage() == self.damage()
    }

    /// Sends `event` to the client that owns the window `win_id`: the event
    /// goes into the outbox. Fails when there is no such window; a window
    /// without an owner takes the event and drops it.
    pub fn send_event(&mut self, win_id: WinID, event: Event) -> (sent: Result<(), ()>)
        ensures
            old(self).spec_send_event(final(self), win_id, event, sent is Ok),
            old(self).wf() ==> final(self).wf(),
    {
        let found = table_get(&self.windows, win_id).is_some();
        self.notify(win_id, event);
        if found {
            Ok(())
        } else {
            Err(())
        }
    }

    /// The damage that a client reports on the rectangle of `width` by
    /// `height` pixels at (`x`, `y`) of the window `win`: the rectangle cut
    /// to the window, in framebuffer coordinates.
    pub open spec fn spec_window_damage(
        win: Window,
        x: usize,
        y: usize,
        width: usize,
        height: usize,
        region: DamageRegion,
    ) -> bool {
        let x = vstd::math::min(x as int, win.spec_width() as int);
        let y = vstd::math::min(y as int, win.spec_height() as int);
        &&& region.x0() == win.spec_pos_x() + x
        &&& region.y0() == win.spec_pos_y() + y
        &&& region.x1() - region.x0() == vstd::math::min(width as int, win.spec_width() - x)
        &&& region.y1() - region.y0() == vstd::math::min(height as int, win.spec_height() - y)
    }

    /// What [`Self::damage_window`] does; `done` says whether the window
    /// exists. For a window that exists the rectangle, cut to the window,
    /// is the newest damage; nothing else changes.
    pub open spec fn spec_damage_window(
        &self,
        after: &Windows,
        win_id: WinID,
        x: usize,
        y: usize,
        width: usize,
        height: usize,
        done: bool,
    ) -> bool {
        &&& self.same_windows(after)
        &&& after.outbox() == self.outbox()
        &&& done <==> self.table().contains_key(win_id)
        &&& !done ==> after.damage() == self.damage()
        &&& done ==> {
            &&& after.damage().len() == self.damage().len() + 1
            &&& after.damage().drop_last() == self.damage()
            &&& Self::spec_window_damage(
                self.table()[win_id].0,
                x,
                y,
                width,
                height,
                after.damage().last(),
            )
        }
    }

    /// Records damage on the rectangle of `width` by `height` pixels at
    /// (`x`, `y`) of the window `win_id`, cut to the window. Fails, and
    /// records nothing, when there is no such window.
    pub fn damage_window(&mut self, win_id: WinID, x: usize, y: usize, width: usize, height: usize) -> (done:
        Result<(), ()>)
        requires
            old(self).wf(),
        ensures
            final(self).wf(),
            old(self).spec_damage_window(final(self), win_id, x, y, width, height, done is Ok),
    {
        let region = match table_get(&self.windows, win_id) {
            Some(entry) => {
                let win = &entry.0;
                proof {
                    win.lemma_wf();
                }
                let x = if x <= win.width() { x } else { win.width() };
                let y = if y <= win.height() { y } else { win.height() };
                let room_x = win.width() - x;
                let room_y = win.height() - y;
                let width = if width <= room_x { width } else { room_x };
                let height = if height <= room_y { height } else { room_y };
                DamageRegion::new(win.pos_x() + x, win.pos_y() + y, width, height)
            },
            None => {
                return Err(());
            },
        };
        self.insert_damage(region);
        assert(self.damage().drop_last() =~= old(self).damage());
        Ok(())
    }

    /// What [`Self::unfocus_current`] does: no window has the focus
    /// afterwards; the window that had it is told so and its rectangle is
    /// damaged; the windows and their order stay.
    pub open spec fn spec_unfocus_current(&self, after: &Windows) -> bool {
        &&& after.focused() == None::<WinID>
        &&& after.table() == self.table()
        &&& after.normal() == self.normal()
        &&& after.overlay() == self.overlay()
        &&& after.ids() == self.ids()
        &&& after.fb_width() == self.fb_width()
        &&& after.fb_height() == self.fb_height()
        &&& match self.focused() {
            Some(id) => {
                &&& after.outbox() == self.outbox() + spec_notice(
                    self.table(),
                    id,
                    Event::WindowUnfocused,
                )
                &&& after.damage().len() == self.damage().len() + 1
                &&& after.damage().drop_last() == self.damage()
                &&& self.table()[id].0.spec_damage(after.damage().last())
            },
            None => after.outbox() == self.outbox() && after.damage() == self.damage(),
        }
    }

    /// Takes the focus from the focused window, if there is one: the window
    /// is told so and its rectangle is damaged.
    pub fn unfocus_current(&mut self)
        requires
            old(self).wf(),
        ensures
            final(self).wf(),
            final(self).focus_is_topmost(),
            old(self).spec_unfocus_current(final(self)),
    {
        let focused = self.focused_window;
        self.focused_window = None;
        match focused {
            Some(win_id) => {
                let region = match table_get(&self.windows, win_id) {
                    Some(entry) => entry.0.damage(),
                    None => {
                        return ;
                    },
                };
                self.notify(win_id, Event::WindowUnfocused);
                self.insert_damage(region);
                assert(self.damage().drop_last() =~= old(self).damage());
            },
            None => {},
        }
    }

    /// What focusing a window does to the state: the focus goes to `id`,
    /// the window is told so and after it the window that had the focus, the
    /// rectangle of `id` is damaged, and `id` goes to the top of its list.
    pub open spec fn spec_focus_moved(&self, after: &Windows, id: WinID) -> bool {
        &&& after.focused() == Some(id)
        &&& after.outbox() == self.outbox() + spec_notice(self.table(), id, Event::WindowFocused)
            + (match self.focused() {
            Some(before) => spec_notice(self.table(), before, Event::WindowUnfocused),
            None => Seq::<Delivery>::empty(),
        })
        &&& after.damage().len() == self.damage().len() + 1
        &&& after.damage().drop_last() == self.damage()
        &&& self.table()[id].0.spec_damage(after.damage().last())
        &&& after.normal() == if self.table()[id].1 == WindowKind::Normal {
            zlist_without(self.normal(), id).push(id)
        } else {
            zlist_without(self.normal(), id)
        }
        &&& after.overlay() == if self.table()[id].1 == WindowKind::Normal
            || self.overlay().contains(id) {
            self.overlay()
        } else {
            self.overlay().push(id)
        }
    }

    fn focus_inner(&mut self, win_id: WinID) -> (found: bool)
        requires
            old(self).wf_but(Some(win_id)),
        ensures
            found == old(self).table().contains_key(win_id),
            final(self).table() == old(self).table(),
            final(self).ids() == old(self).ids(),
            final(self).fb_width() == old(self).fb_width(),
            final(self).fb_height() == old(self).fb_height(),
            !found || old(self).focused() == Some(win_id) ==> old(self).same_state(final(self)),
            found && old(self).focused() != Some(win_id) ==> old(self).spec_focus_moved(
                final(self),
                win_id,
            ) && final(self).wf(),
            found && old(self).focused() != Some(win_id) && old(self).table()[win_id].1
                == WindowKind::Normal ==> final(self).focus_is_topmost(),
    {
        assert(forall|i: int| 0 <= i < self.damage().len() ==> (#[trigger] self.damage()[i]).wf());
        let (kind, region) = match table_get(&self.windows, win_id) {
            Some(entry) => (entry.1, entry.0.damage()),
            None => {
                return false;
            },
        };
        let old_value = self.focused_window;
        match old_value {
            Some(old_id) => {
                if old_id == win_id {
                    return true;
                }
            },
            None => {},
        }
        self.focused_window = Some(win_id);
        self.notify(win_id, Event::WindowFocused);
        match old_value {
            Some(old_id) => {
                self.notify(old_id, Event::WindowUnfocused);
            },
            None => {
                assert(self.outbox() =~= self.outbox() + Seq::<Delivery>::empty());
            },
        }
        let ghost before_normal = self.normal();
        let ghost before_overlay = self.overlay();
        proof {
            lemma_without_members(before_normal, win_id);
            lemma_without_no_duplicates(before_normal, win_id);
        }
        match kind {
            WindowKind::Normal => {
                zlist_shift_remove(&mut self.normal_windows, win_id);
                zlist_insert(&mut self.normal_windows, win_id);
                proof {
                    lemma_push_fresh(zlist_without(before_normal, win_id), win_id);
                }
            },
            WindowKind::Overlay => {
                zlist_shift_remove(&mut self.normal_windows, win_id);
                zlist_insert(&mut self.overlay_windows, win_id);
                proof {
                    if !before_overlay.contains(win_id) {
                        lemma_push_fresh(before_overlay, win_id);
                    }
                }
            },
        }
        proof {
            assert(self.damage() == old(self).damage());
            assert(self.wf_but(None)) by {
                assert forall|id: WinID| #[trigger] self.table().contains_key(id) implies self.table()[id].0.wf()
                    && self.in_room(self.table()[id].0) by {
                    assert(old(self).table().contains_key(id));
                    assert(old(self).in_room(old(self).table()[id].0));
                }
                assert forall|id: WinID| #[trigger] self.normal().contains(id) implies self.table().contains_key(
                    id,
                ) && self.table()[id].1 == WindowKind::Normal by {
                    if id != win_id {
                        assert(before_normal.contains(id));
                    }
                }
                assert forall|id: WinID| #[trigger] self.overlay().contains(id) implies self.table().contains_key(
                    id,
                ) && self.table()[id].1 == WindowKind::Overlay by {
                    if id != win_id {
                        assert(before_overlay.contains(id));
                    }
                }
                assert forall|id: WinID| #[trigger]
                    self.table().contains_key(id) implies (if self.table()[id].1
                    == WindowKind::Normal {
                    self.normal().contains(id)
                } else {
                    self.overlay().contains(id)
                }) by {
                    if id != win_id {
                        assert(old(self).table().contains_key(id) && Some(id) != Some(win_id));
                        if self.table()[id].1 == WindowKind::Normal {
                            assert(before_normal.contains(id));
                        } else {
                            assert(before_overlay.contains(id));
                        }
                    }
                }
            }
        }
        self.insert_damage(region);
        proof {
            assert(self.damage().drop_last() =~= old(self).damage());
            assert forall|other: DamageRegion|
                old(self).table()[win_id].0.spec_damage(other) implies other == region by {
                other.lemma_ext(region);
            }
        }
        true
    }

    /// What [`Self::set_focused`] does; `found` says whether the window
    /// exists. Nothing changes for a window that does not exist or has the
    /// focus already. Otherwise the focus moves as
    /// [`Self::spec_focus_moved`] says, where an overlay stays in its list.
    pub open spec fn spec_set_focused(&self, after: &Windows, win_id: WinID, found: bool) -> bool {
        &&& found == self.table().contains_key(win_id)
        &&& after.table() == self.table()
        &&& after.ids() == self.ids()
        &&& after.fb_width() == self.fb_width()
        &&& after.fb_height() == self.fb_height()
        &&& !found || self.focused() == Some(win_id) ==> self.same_state(after)
        &&& found && self.focused() != Some(win_id) ==> self.spec_focus_moved(after, win_id)
        &&& found && self.table()[win_id].1 == WindowKind::Overlay ==> after.normal()
            == self.normal() && after.overlay() == self.overlay()
    }

    /// Gives the focus to the window `win_id`. Returns whether the window
    /// exists. A window that has the focus already keeps it and nothing
    /// happens; otherwise the window is told that it has the focus, the
    /// window that had it is told that it lost it, the window goes to the
    /// top of the normal windows, and its rectangle is damaged.
    pub fn set_focused(&mut self, win_id: WinID) -> (found: bool)
        requires
            old(self).wf(),
        ensures
            final(self).wf(),
            old(self).spec_set_focused(final(self), win_id, found),
            found && old(self).table()[win_id].1 == WindowKind::Normal && (old(
                self,
            ).focus_is_topmost() || old(self).focused() != Some(win_id))
                ==> final(self).focus_is_topmost(),
            !found && old(self).focus_is_topmost() ==> final(self).focus_is_topmost(),
    {
        proof {
            lemma_without_members(self.normal(), win_id);
        }
        let found = self.focus_inner(win_id);
        proof {
            if old(self).same_state(self) {
                old(self).lemma_wf_carries(self, None);
            }
        }
        found
    }

    /// Whether `after` has the windows of `self` and, under `id`, `window`
    /// as a window of kind `kind`, moved to where the framebuffer leaves
    /// room for it.
    pub open spec fn spec_window_added(
        &self,
        after: &Windows,
        id: WinID,
        window: Window,
        kind: WindowKind,
    ) -> bool {
        &&& !self.table().contains_key(id)
        &&& after.table().dom() == self.table().dom().insert(id)
        &&& forall|other: WinID| #[trigger]
            self.table().contains_key(other) ==> after.table()[other] == self.table()[other]
        &&& after.table()[id].1 == kind
        &&& window.same_but_position(after.table()[id].0)
        &&& after.table()[id].0.spec_pos_x() == vstd::math::min(
            window.spec_pos_x() as int,
            spec_room(self.fb_width(), window.spec_width()) as int,
        )
        &&& after.table()[id].0.spec_pos_y() == vstd::math::min(
            window.spec_pos_y() as int,
            spec_room(self.fb_height(), window.spec_height()) as int,
        )
        &&& after.ids() == self.ids().insert(id)
        &&& after.fb_width() == self.fb_width()
        &&& after.fb_height() == self.fb_height()
        &&& after.damage().len() == self.damage().len() + 1
        &&& after.damage().drop_last() == self.damage()
        &&& after.table()[id].0.spec_damage(after.damage().last())
    }

    /// What happens to the focus when the new normal window `id` is added:
    /// it goes to the top of the normal windows and takes the focus; it is
    /// told so, and after it the window that had the focus is told that it
    /// lost it.
    pub open spec fn spec_focus_moved_to_new(&self, after: &Windows, id: WinID) -> bool {
        &&& after.normal() == self.normal().push(id)
        &&& after.overlay() == self.overlay()
        &&& after.focused() == Some(id)
        &&& after.outbox() == self.outbox() + spec_notice(after.table(), id, Event::WindowFocused)
            + (match self.focused() {
            Some(before) => spec_notice(self.table(), before, Event::WindowUnfocused),
            None => Seq::<Delivery>::empty(),
        })
    }

    /// Adds `window` as a window of kind `kind` under the lowest id that is
    /// free, and returns the id; returns `None`, and changes nothing, when
    /// all ids are in use. The window is moved to where the framebuffer
    /// leaves room for it, and its rectangle is damaged. A normal window
    /// goes to the top of the normal windows and takes the focus; an overlay
    /// goes to the top of the overlays and leaves the focus where it is.
    pub fn add_window(&mut self, window: Window, kind: WindowKind) -> (id: Option<WinID>)
        requires
            old(self).wf(),
        ensures
            final(self).wf(),
            old(self).focus_is_topmost() ==> final(self).focus_is_topmost(),
            match id {
                None => {
                    &&& forall|any: WinID| any < MAX_WINDOW_ID ==> old(self).table().contains_key(any)
                    &&& old(self).same_state(final(self))
                },
                Some(id) => {
                    &&& id < MAX_WINDOW_ID
                    &&& forall|lower: WinID| lower < id ==> old(self).table().contains_key(lower)
                    &&& old(self).spec_window_added(final(self), id, window, kind)
                    &&& match kind {
                        WindowKind::Normal => {
                            &&& old(self).spec_focus_moved_to_new(final(self), id)
                            &&& final(self).focus_is_topmost()
                        },
                        WindowKind::Overlay => {
                            &&& final(self).normal() == old(self).normal()
                            &&& final(self).overlay() == old(self).overlay().push(id)
                            &&& final(self).focused() == old(self).focused()
                            &&& final(self).outbox() == old(self).outbox()
                        },
                    }
                },
            },
    {
        proof {
            use_type_invariant(&window);
            window.lemma_wf();
        }
        assert(forall|i: int| 0 <= i < self.damage().len() ==> (#[trigger] self.damage()[i]).wf());
        let id = match self.window_ids.add_id() {
            Some(id) => id,
            None => {
                proof {
                    old(self).lemma_wf_carries(self, None);
                }
                return None;
            },
        };
        let room_x = if window.width() <= self.fb_width {
            self.fb_width - window.width()
        } else {
            0
        };
        let room_y = if window.height() <= self.fb_height {
            self.fb_height - window.height()
        } else {
            0
        };
        let pos_x = if window.pos_x() <= room_x { window.pos_x() } else { room_x };
        let pos_y = if window.pos_y() <= room_y { window.pos_y() } else { room_y };
        let mut placed = window;
        placed.move_to(pos_x, pos_y);
        let region = placed.damage();
        let ghost placed_window = placed;
        table_insert(&mut self.windows, id, (placed, kind));
        proof {
            assert(!old(self).table().contains_key(id));
            assert(self.ids() =~= self.table().dom());
            assert(self.table().dom() =~= old(self).table().dom().insert(id));
            assert forall|other: WinID| #[trigger] self.table().contains_key(other) implies self.table()[other].0.wf()
                && self.in_room(self.table()[other].0) by {
                if other != id {
                    assert(old(self).table().contains_key(other));
                    assert(old(self).in_room(old(self).table()[other].0));
                }
            }
            assert forall|other: WinID| #[trigger] self.normal().contains(other) implies self.table().contains_key(
                other,
            ) && self.table()[other].1 == WindowKind::Normal by {
                assert(old(self).normal().contains(other));
            }
            assert forall|other: WinID| #[trigger] self.overlay().contains(other) implies self.table().contains_key(
                other,
            ) && self.table()[other].1 == WindowKind::Overlay by {
                assert(old(self).overlay().contains(other));
            }
            assert forall|other: WinID| #[trigger]
                self.table().contains_key(other) && Some(other) != Some(id) implies (if self.table()[other].1
                == WindowKind::Normal {
                self.normal().contains(other)
            } else {
                self.overlay().contains(other)
            }) by {
                assert(old(self).table().contains_key(other));
            }
            assert(self.wf_but(Some(id)));
            assert(!self.normal().contains(id));
            assert(!self.overlay().contains(id));
            lemma_without_members(self.normal(), id);
        }
        let ghost mid = *self;
        match kind {
            WindowKind::Normal => {
                self.focus_inner(id);
                proof {
                    assert(mid.focused() != Some(id));
                    assert(spec_notice(mid.table(), id, Event::WindowFocused) == spec_notice(
                        self.table(),
                        id,
                        Event::WindowFocused,
                    ));
                    match old(self).focused() {
                        Some(before) => {
                            assert(spec_notice(mid.table(), before, Event::WindowUnfocused)
                                == spec_notice(old(self).table(), before, Event::WindowUnfocused));
                        },
                        None => {},
                    }
                }
            },
            WindowKind::Overlay => {
                self.insert_damage(region);
                zlist_insert(&mut self.overlay_windows, id);
                proof {
                    lemma_push_fresh(mid.overlay(), id);
                    assert(self.damage().drop_last() =~= old(self).damage());
                    assert forall|other: WinID| #[trigger] self.overlay().contains(other) implies self.table().contains_key(
                        other,
                    ) && self.table()[other].1 == WindowKind::Overlay by {
                        if other != id {
                            assert(mid.overlay().contains(other));
                        }
                    }
                    assert forall|other: WinID| #[trigger]
                        self.table().contains_key(other) implies (if self.table()[other].1
                        == WindowKind::Normal {
                        self.normal().contains(other)
                    } else {
                        self.overlay().contains(other)
                    }) by {
                        if other != id {
                            assert(mid.table().contains_key(other) && Some(other) != Some(id));
                        }
                    }
                    assert forall|other: WinID| #[trigger] self.table().contains_key(other) implies self.table()[other].0.wf()
                        && self.in_room(self.table()[other].0) by {
                        assert(mid.table().contains_key(other));
                        assert(mid.in_room(mid.table()[other].0));
                    }
                    assert(self.wf());
                }
            },
        }
        Some(id)
    }

    /// What [`Self::remove_window`] does; `removed` says whether the window
    /// existed. A window that existed is gone from the table and from its
    /// list, its id is free, its rectangle is damaged, and the focus is
    /// cleared if the window had it; otherwise nothing changes.
    pub open spec fn spec_remove_window(&self, after: &Windows, win_id: WinID, removed: bool) -> bool {
        &&& removed <==> self.table().contains_key(win_id)
        &&& !removed ==> self.same_state(after)
        &&& removed ==> {
            &&& after.table() == self.table().remove(win_id)
            &&& after.normal() == zlist_without(self.normal(), win_id)
            &&& after.overlay() == zlist_without(self.overlay(), win_id)
            &&& after.ids() == self.ids().remove(win_id)
            &&& after.focused() == if self.focused() == Some(win_id) {
                None
            } else {
                self.focused()
            }
            &&& after.outbox() == self.outbox()
            &&& after.fb_width() == self.fb_width()
            &&& after.fb_height() == self.fb_height()
            &&& after.damage().len() == self.damage().len() + 1
            &&& after.damage().drop_last() == self.damage()
            &&& self.table()[win_id].0.spec_damage(after.damage().last())
        }
    }

    /// Removes the window `win_id` from the store. Fails, and changes
    /// nothing, when there is no such window. The window leaves the table
    /// and its list, its id is free again, its rectangle is damaged, and the
    /// focus is cleared if the window had it.
    pub fn remove_window(&mut self, win_id: WinID) -> (removed: Result<(), ()>)
        requires
            old(self).wf(),
        ensures
            final(self).wf(),
            old(self).focus_is_topmost() ==> final(self).focus_is_topmost(),
            old(self).spec_remove_window(final(self), win_id, removed is Ok),
    {
        assert(forall|i: int| 0 <= i < self.damage().len() ==> (#[trigger] self.damage()[i]).wf());
        let (window, window_kind) = match table_remove(&mut self.windows, win_id) {
            Some(entry) => entry,
            None => {
                proof {
                    assert(self.table() =~= old(self).table());
                    old(self).lemma_wf_carries(self, None);
                }
                return Err(());
            },
        };
        match self.focused_window {
            Some(focused_id) => {
                if focused_id == win_id {
                    self.focused_window = None;
                }
            },
            None => {},
        }
        let region = window.damage();
        self.insert_damage(region);
        proof {
            lemma_without_members(old(self).normal(), win_id);
            lemma_without_members(old(self).overlay(), win_id);
            lemma_without_no_duplicates(old(self).normal(), win_id);
            lemma_without_no_duplicates(old(self).overlay(), win_id);
        }
        match window_kind {
            WindowKind::Normal => {
                zlist_shift_remove(&mut self.normal_windows, win_id);
                assert(!old(self).overlay().contains(win_id));
            },
            WindowKind::Overlay => {
                zlist_shift_remove(&mut self.overlay_windows, win_id);
                assert(!old(self).normal().contains(win_id));
            },
        }
        self.window_ids.remove_id(win_id);
        proof {
            assert(self.damage().drop_last() =~= old(self).damage());
            assert(self.ids() =~= self.table().dom());
            assert forall|id: WinID| #[trigger] self.table().contains_key(id) implies self.table()[id].0.wf()
                && self.in_room(self.table()[id].0) by {
                assert(old(self).table().contains_key(id));
                assert(old(self).in_room(old(self).table()[id].0));
            }
            assert forall|id: WinID| #[trigger] self.normal().contains(id) implies self.table().contains_key(
                id,
            ) && self.table()[id].1 == WindowKind::Normal by {
                assert(old(self).normal().contains(id));
            }
            assert forall|id: WinID| #[trigger] self.overlay().contains(id) implies self.table().contains_key(
                id,
            ) && self.table()[id].1 == WindowKind::Overlay by {
                assert(old(self).overlay().contains(id));
            }
            assert forall|id: WinID| #[trigger] self.table().contains_key(id) implies (if self.table()[id].1
                == WindowKind::Normal {
                self.normal().contains(id)
            } else {
                self.overlay().contains(id)
            }) by {
                assert(old(self).table().contains_key(id) && Some(id) != None::<WinID>);
            }
            assert(self.wf());
            if old(self).focus_is_topmost() {
                match self.focused() {
                    Some(focused) => {
                        assert(old(self).normal().last() == focused);
                        assert(focused != win_id);
                    },
                    None => {},
                }
            }
        }
        Ok(())
    }

    /// Whether `after` has the windows of `self` but that the window `id`
    /// stands at (`pos_x`, `pos_y`).
    pub open spec fn spec_window_moved(
        &self,
        after: &Windows,
        id: WinID,
        pos_x: usize,
        pos_y: usize,
    ) -> bool {
        &&& after.table().dom() == self.table().dom()
        &&& forall|other: WinID| #[trigger]
            self.table().contains_key(other) && other != id ==> after.table()[other]
                == self.table()[other]
        &&& after.table()[id].1 == self.table()[id].1
        &&& self.table()[id].0.same_but_position(after.table()[id].0)
        &&& after.table()[id].0.spec_pos_x() == pos_x
        &&& after.table()[id].0.spec_pos_y() == pos_y
    }

    /// What [`Self::add_cord`] does; `pos` is what it returns. The order of
    /// the windows, the focus and the outbox stay. A window that exists
    /// moves by (`x`, `y`) as far as the framebuffer leaves room, and `pos`
    /// is where it stands then; if that is another place than before, the
    /// rectangle it left and the rectangle it is in are damaged, in this
    /// order.
    pub open spec fn spec_add_cord(
        &self,
        after: &Windows,
        win_id: WinID,
        x: i32,
        y: i32,
        pos: Option<(usize, usize)>,
    ) -> bool {
        &&& after.normal() == self.normal()
        &&& after.overlay() == self.overlay()
        &&& after.ids() == self.ids()
        &&& after.focused() == self.focused()
        &&& after.outbox() == self.outbox()
        &&& after.fb_width() == self.fb_width()
        &&& after.fb_height() == self.fb_height()
        &&& pos is Some <==> self.table().contains_key(win_id)
        &&& pos is None ==> self.same_state(after)
        &&& pos matches Some((new_x, new_y)) ==> {
            let win = self.table()[win_id].0;
            &&& new_x == spec_moved(win.spec_pos_x(), x, self.fb_width(), win.spec_width())
            &&& new_y == spec_moved(win.spec_pos_y(), y, self.fb_height(), win.spec_height())
            &&& self.spec_window_moved(after, win_id, new_x, new_y)
            &&& if new_x == win.spec_pos_x() && new_y == win.spec_pos_y() {
                after.damage() == self.damage()
            } else {
                &&& after.damage().len() == self.damage().len() + 2
                &&& after.damage().subrange(0, self.damage().len() as int) == self.damage()
                &&& win.spec_damage(after.damage()[self.damage().len() as int])
                &&& after.table()[win_id].0.spec_damage(after.damage().last())
            }
        }
    }

    /// Moves the window `win_id` by `x` to the right and by `y` down, as far
    /// as the framebuffer leaves room, and returns the new position; `None`
    /// when there is no such window. A window that has moved damages the
    /// rectangle it left and, after that, the rectangle it is in now; one
    /// that stays where it is damages nothing.
    pub fn add_cord(&mut self, win_id: WinID, x: i32, y: i32) -> (pos: Option<(usize, usize)>)
        requires
            old(self).wf(),
        ensures
            final(self).wf(),
            old(self).focus_is_topmost() ==> final(self).focus_is_topmost(),
            old(self).spec_add_cord(final(self), win_id, x, y, pos),
    {
        assert(forall|i: int| 0 <= i < self.damage().len() ==> (#[trigger] self.damage()[i]).wf());
        let (damage0, width, height) = match table_get(&self.windows, win_id) {
            Some(entry) => (entry.0.damage(), entry.0.width(), entry.0.height()),
            None => {
                return None;
            },
        };
        let ghost win = old(self).table()[win_id].0;
        proof {
            damage0.lemma_wf();
            win.lemma_wf();
            assert(old(self).in_room(win));
        }
        let old_x = damage0.pos_x();
        let old_y = damage0.pos_y();
        let room_x = if width <= self.fb_width { self.fb_width - width } else { 0 };
        let room_y = if height <= self.fb_height { self.fb_height - height } else { 0 };
        let moved_x = offset_position(old_x, x);
        let moved_y = offset_position(old_y, y);
        let new_x = if moved_x <= room_x { moved_x } else { room_x };
        let new_y = if moved_y <= room_y { moved_y } else { room_y };
        if new_x == old_x && new_y == old_y {
            proof {
                assert(self.table() =~= old(self).table());
            }
            return Some((new_x, new_y));
        }
        let damage1 = match table_get_mut(&mut self.windows, win_id) {
            Some(entry) => {
                entry.0.move_to(new_x, new_y);
                entry.0.damage()
            },
            None => {
                return None;
            },
        };
        proof {
            assert(self.table().dom() =~= old(self).table().dom());
            assert forall|id: WinID| #[trigger] self.table().contains_key(id) implies self.table()[id].0.wf()
                && self.in_room(self.table()[id].0) by {
                assert(old(self).table().contains_key(id));
                assert(old(self).in_room(old(self).table()[id].0));
            }
            assert forall|id: WinID| #[trigger] self.normal().contains(id) implies self.table().contains_key(
                id,
            ) && self.table()[id].1 == WindowKind::Normal by {
                assert(old(self).normal().contains(id));
            }
            assert forall|id: WinID| #[trigger] self.overlay().contains(id) implies self.table().contains_key(
                id,
            ) && self.table()[id].1 == WindowKind::Overlay by {
                assert(old(self).overlay().contains(id));
            }
            assert forall|id: WinID| #[trigger] self.table().contains_key(id) implies (if self.table()[id].1
                == WindowKind::Normal {
                self.normal().contains(id)
            } else {
                self.overlay().contains(id)
            }) by {
                assert(old(self).table().contains_key(id) && Some(id) != None::<WinID>);
            }
            assert(self.ids() =~= self.table().dom());
            assert(self.wf());
        }
        self.insert_damage(damage0);
        self.insert_damage(damage1);
        proof {
            assert(self.damage().subrange(0, old(self).damage().len() as int) =~= old(
                self,
            ).damage());
        }
        Some((new_x, new_y))
    }

    /// Whether the window `win` meets the rectangle from (`x0`, `y0`) to
    /// (`x1`, `y1`).
    pub open spec fn spec_meets(win: Window, x0: int, y0: int, x1: int, y1: int) -> bool {
        &&& x0 < win.spec_pos_x() + win.spec_width()
        &&& x1 > win.spec_pos_x()
        &&& y0 < win.spec_pos_y() + win.spec_height()
        &&& y1 > win.spec_pos_y()
    }

    /// Whether `point` is the part of the window `win` that the rectangle
    /// from (`x0`, `y0`) to (`x1`, `y1`) covers, in the coordinates of `win`.
    pub open spec fn spec_contact(
        win: Window,
        x0: int,
        y0: int,
        x1: int,
        y1: int,
        point: IntersectionPoint,
    ) -> bool {
        &&& point.left() == vstd::math::max(x0, win.spec_pos_x() as int) - win.spec_pos_x()
        &&& point.top() == vstd::math::max(y0, win.spec_pos_y() as int) - win.spec_pos_y()
        &&& point.right() == vstd::math::min(x1, win.spec_pos_x() + win.spec_width())
            - win.spec_pos_x()
        &&& point.bottom() == vstd::math::min(y1, win.spec_pos_y() + win.spec_height())
            - win.spec_pos_y()
    }

    /// Whether the window `id` stands at `at` in the normal windows, meets
    /// the rectangle from (`x0`, `y0`) to (`x1`, `y1`) in `point`, and no
    /// normal window above it meets the rectangle.
    pub open spec fn spec_is_contact(
        &self,
        x0: int,
        y0: int,
        x1: int,
        y1: int,
        at: int,
        id: WinID,
        point: IntersectionPoint,
    ) -> bool {
        &&& 0 <= at < self.normal().len()
        &&& self.normal()[at] == id
        &&& Self::spec_meets(self.table()[id].0, x0, y0, x1, y1)
        &&& Self::spec_contact(self.table()[id].0, x0, y0, x1, y1, point)
        &&& forall|above: int|
            at < above < self.normal().len() ==> !Self::spec_meets(
                self.table()[#[trigger] self.normal()[above]].0,
                x0,
                y0,
                x1,
                y1,
            )
    }

    /// What [`Self::window_in_contact`] finds for the rectangle of `width`
    /// by `height` pixels at (`pos_x`, `pos_y`), cut to the range of the
    /// machine's word.
    pub open spec fn spec_in_contact(
        &self,
        pos_x: usize,
        pos_y: usize,
        width: usize,
        height: usize,
        contact: Option<(WinID, IntersectionPoint)>,
    ) -> bool {
        let x1 = vstd::math::min(pos_x + width, usize::MAX as int);
        let y1 = vstd::math::min(pos_y + height, usize::MAX as int);
        match contact {
            Some((id, point)) => exists|at: int| #[trigger]
                self.spec_is_contact(pos_x as int, pos_y as int, x1, y1, at, id, point),
            None => forall|at: int|
                0 <= at < self.normal().len() ==> !Self::spec_meets(
                    self.table()[#[trigger] self.normal()[at]].0,
                    pos_x as int,
                    pos_y as int,
                    x1,
                    y1,
                ),
        }
    }

    /// The top-most normal window that meets the rectangle of `width` by
    /// `height` pixels at (`pos_x`, `pos_y`), with the part of the window
    /// that the rectangle covers; `None` when no normal window meets it.
    /// Overlays are never in contact.
    pub fn window_in_contact(&self, pos_x: usize, pos_y: usize, width: usize, height: usize) -> (contact:
        Option<(WinID, IntersectionPoint)>)
        requires
            self.wf(),
        ensures
            self.spec_in_contact(pos_x, pos_y, width, height, contact),
    {
        let region = DamageRegion::new(pos_x, pos_y, width, height);
        let ghost x1 = vstd::math::min(pos_x + width, usize::MAX as int);
        let ghost y1 = vstd::math::min(pos_y + height, usize::MAX as int);
        let mut i: usize = zlist_len(&self.normal_windows);
        while i > 0
            invariant
                self.wf(),
                i <= self.normal().len(),
                x1 == vstd::math::min(pos_x + width, usize::MAX as int),
                y1 == vstd::math::min(pos_y + height, usize::MAX as int),
                region.x0() == pos_x,
                region.y0() == pos_y,
                region.x1() == x1,
                region.y1() == y1,
                forall|above: int|
                    i <= above < self.normal().len() ==> !Self::spec_meets(
                        self.table()[#[trigger] self.normal()[above]].0,
                        pos_x as int,
                        pos_y as int,
                        x1,
                        y1,
                    ),
            decreases i,
        {
            i -= 1;
            let win_id = match zlist_get_index(&self.normal_windows, i) {
                Some(win_id) => win_id,
                None => {
                    return None;
                },
            };
            assert(self.normal().contains(win_id));
            let win = match table_get(&self.windows, win_id) {
                Some(entry) => &entry.0,
                None => {
                    return None;
                },
            };
            let rect = win.damage();
            match region.intersect(&rect) {
                Some(point) => {
                    proof {
                        let at = i as int;
                        let found = self.table()[win_id].0;
                        assert(self.normal()[at] == win_id);
                        assert(Self::spec_meets(found, pos_x as int, pos_y as int, x1, y1));
                        assert(Self::spec_contact(found, pos_x as int, pos_y as int, x1, y1, point));
                        assert(forall|above: int|
                            at < above < self.normal().len() ==> !Self::spec_meets(
                                self.table()[#[trigger] self.normal()[above]].0,
                                pos_x as int,
                                pos_y as int,
                                x1,
                                y1,
                            ));
                        assert(self.spec_is_contact(pos_x as int, pos_y as int, x1, y1, at, win_id, point));
                        assert(exists|at: int| #[trigger]
                            self.spec_is_contact(
                                pos_x as int,
                                pos_y as int,
                                vstd::math::min(pos_x + width, usize::MAX as int),
                                vstd::math::min(pos_y + height, usize::MAX as int),
                                at,
                                win_id,
                                point,
                            ));
                    }
                    let contact = Some((win_id, point));
                    assert(contact matches Some((id, p)) && id == win_id && p == point);
                    return contact;
                },
                None => {
                    assert(!Self::spec_meets(
                        self.table()[self.normal()[i as int]].0,
                        pos_x as int,
                        pos_y as int,
                        x1,
                        y1,
                    ));
                },
            }
        }
        None
    }

    /// The surface after a redraw: every damaged region filled with the
    /// background colour, then the damaged part of every normal window drawn
    /// from the bottom-most up, then that of every overlay.
    pub open spec fn spec_redrawn(&self, pixels: Seq<Pixel>, stride: int, rows: int) -> Seq<Pixel> {
        spec_draw_windows(
            spec_draw_windows(
                spec_fill_regions(pixels, stride, self.damage(), spec_bg_pixel()),
                stride,
                rows,
                self.table(),
                self.normal(),
                self.damage(),
            ),
            stride,
            rows,
            self.table(),
            self.overlay(),
            self.damage(),
        )
    }

    /// Draws the damaged parts of the overlays, or of the normal windows,
    /// onto the surface.
    fn redraw_list(&self, fb: &mut Framebuffer, damage: &Vec<DamageRegion>, overlays: bool)
        requires
            old(fb).wf(),
            forall|i: int|
                0 <= i < self.normal().len() ==> self.table().contains_key(
                    #[trigger] self.normal()[i],
                ),
            forall|i: int|
                0 <= i < self.overlay().len() ==> self.table().contains_key(
                    #[trigger] self.overlay()[i],
                ),
        ensures
            final(fb).wf(),
            final(fb).spec_width() == old(fb).spec_width(),
            final(fb).spec_height() == old(fb).spec_height(),
            final(fb)@ == spec_draw_windows(
                old(fb)@,
                old(fb).spec_width() as int,
                old(fb).spec_height() as int,
                self.table(),
                if overlays {
                    self.overlay()
                } else {
                    self.normal()
                },
                damage@,
            ),
    {
        let ghost ids = if overlays { self.overlay() } else { self.normal() };
        let ghost before = fb@;
        let ghost stride = fb.spec_width() as int;
        let ghost rows = fb.spec_height() as int;
        let count = if overlays {
            zlist_len(&self.overlay_windows)
        } else {
            zlist_len(&self.normal_windows)
        };
        let mut at: usize = 0;
        while at < count
            invariant
                at <= count,
                count == ids.len(),
                ids == if overlays {
                    self.overlay()
                } else {
                    self.normal()
                },
                forall|i: int| 0 <= i < ids.len() ==> self.table().contains_key(#[trigger] ids[i]),
                fb.wf(),
                fb.spec_width() == stride,
                fb.spec_height() == rows,
                fb@ == spec_draw_windows(
                    before,
                    stride,
                    rows,
                    self.table(),
                    ids.subrange(0, at as int),
                    damage@,
                ),
            decreases count - at,
        {
            let listed = if overlays {
                zlist_get_index(&self.overlay_windows, at)
            } else {
                zlist_get_index(&self.normal_windows, at)
            };
            let win_id = match listed {
                Some(win_id) => win_id,
                None => {
                    assert(false);
                    return ;
                },
            };
            assert(ids[at as int] == win_id);
            let win = match table_get(&self.windows, win_id) {
                Some(entry) => &entry.0,
                None => {
                    assert(false);
                    return ;
                },
            };
            let rect = win.damage();
            let mut points: Vec<IntersectionPoint> = Vec::new();
            let mut k: usize = 0;
            while k < damage.len()
                invariant
                    k <= damage@.len(),
                    rect == win.spec_rect(),
                    points@ == spec_points(damage@.subrange(0, k as int), rect),
                decreases damage@.len() - k,
            {
                proof {
                    assert(damage@.subrange(0, k + 1).drop_last() =~= damage@.subrange(0, k as int));
                }
                match damage[k].intersect(&rect) {
                    Some(point) => {
                        points.push(point);
                    },
                    None => {},
                }
                k += 1;
            }
            proof {
                assert(damage@.subrange(0, k as int) =~= damage@);
                assert(ids.subrange(0, at + 1).drop_last() =~= ids.subrange(0, at as int));
            }
            let intersection = IntersectionPoint::sum(&points);
            if intersection != IntersectionPoint::none() {
                win.draw_at(fb, intersection);
            }
            at += 1;
        }
        assert(ids.subrange(0, at as int) =~= ids);
    }

    /// Mends the damage: fills every damaged region of the surface with the
    /// background colour and draws the windows over it, normal windows first
    /// and overlays last. Returns the regions that were damaged, oldest
    /// first, for the caller to present; no damage is left in the store.
    pub fn damage_redraw(&mut self, fb: &mut Framebuffer) -> (mended: Vec<DamageRegion>)
        requires
            old(self).wf(),
            old(fb).wf(),
        ensures
            final(self).wf(),
            old(self).focus_is_topmost() ==> final(self).focus_is_topmost(),
            old(self).same_windows(final(self)),
            final(self).outbox() == old(self).outbox(),
            final(self).damage() == Seq::<DamageRegion>::empty(),
            mended@ == old(self).damage(),
            final(fb).wf(),
            final(fb).spec_width() == old(fb).spec_width(),
            final(fb).spec_height() == old(fb).spec_height(),
            final(fb)@ == if old(self).damage().len() == 0 {
                old(fb)@
            } else {
                old(self).spec_redrawn(
                    old(fb)@,
                    old(fb).spec_width() as int,
                    old(fb).spec_height() as int,
                )
            },
    {
        assert(forall|i: int| 0 <= i < self.damage().len() ==> (#[trigger] self.damage()[i]).wf());
        let mut damage: Vec<DamageRegion> = Vec::new();
        std::mem::swap(&mut damage, &mut self.damaged_regions);
        proof {
            old(self).lemma_wf_carries(self, None);
            assert(self.damage() =~= Seq::<DamageRegion>::empty());
        }
        if damage.len() == 0 {
            return damage;
        }
        let ghost before = fb@;
        let ghost stride = fb.spec_width() as int;
        let mut k: usize = 0;
        while k < damage.len()
            invariant
                k <= damage@.len(),
                fb.wf(),
                fb.spec_width() == stride,
                fb.spec_width() == old(fb).spec_width(),
                fb.spec_height() == old(fb).spec_height(),
                fb@ == spec_fill_regions(
                    before,
                    stride,
                    damage@.subrange(0, k as int),
                    spec_bg_pixel(),
                ),
            decreases damage@.len() - k,
        {
            let region = &damage[k];
            proof {
                assert(damage@.subrange(0, k + 1).drop_last() =~= damage@.subrange(0, k as int));
            }
            // Clear the damaged region.
            fb.draw_rect_filled_with(
                region.pos_x(),
                region.pos_y(),
                region.width(),
                region.height(),
                bg_pixel(),
            );
            k += 1;
        }
        proof {
            assert(damage@.subrange(0, k as int) =~= damage@);
            assert forall|i: int| 0 <= i < self.normal().len() implies self.table().contains_key(
                #[trigger] self.normal()[i],
            ) by {
                assert(self.normal().contains(self.normal()[i]));
            }
            assert forall|i: int| 0 <= i < self.overlay().len() implies self.table().contains_key(
                #[trigger] self.overlay()[i],
            ) by {
                assert(self.overlay().contains(self.overlay()[i]));
            }
        }
        self.redraw_list(fb, &damage, false);
        // Overlays on top of the other windows.
        self.redraw_list(fb, &damage, true);
        damage
    }

    /// What [`Self::update_pixels`] does; `done` says whether the pixels
    /// were taken. They are taken for a window that exists and has as many
    /// pixels; the window then shows them and nothing else changes.
    pub open spec fn spec_update_pixels(
        &self,
        after: &Windows,
        win_id: WinID,
        pixels: Seq<Pixel>,
        done: bool,
    ) -> bool {
        &&& done <==> (self.table().contains_key(win_id) && pixels.len()
            == self.table()[win_id].0.spec_pixels().len())
        &&& !done ==> self.same_state(after)
        &&& done ==> {
            &&& after.table().dom() == self.table().dom()
            &&& forall|other: WinID| #[trigger]
                self.table().contains_key(other) && other != win_id ==> after.table()[other]
                    == self.table()[other]
            &&& after.table()[win_id].1 == self.table()[win_id].1
            &&& self.table()[win_id].0.same_but_pixels(after.table()[win_id].0)
            &&& after.table()[win_id].0.spec_pixels() == pixels
            &&& after.normal() == self.normal()
            &&& after.overlay() == self.overlay()
            &&& after.ids() == self.ids()
            &&& after.focused() == self.focused()
            &&& after.fb_width() == self.fb_width()
            &&& after.fb_height() == self.fb_height()
            &&& after.damage() == self.damage()
            &&& after.outbox() == self.outbox()
        }
    }

    /// Takes `pixels` as what the window `win_id` shows from now on: the
    /// pixels that its client has drawn. Fails, and changes nothing, when
    /// there is no such window or when it has another number of pixels.
    pub fn update_pixels(&mut self, win_id: WinID, pixels: Vec<Pixel>) -> (done: Result<(), ()>)
        requires
            old(self).wf(),
        ensures
            final(self).wf(),
            old(self).focus_is_topmost() ==> final(self).focus_is_topmost(),
            old(self).spec_update_pixels(final(self), win_id, pixels@, done is Ok),
    {
        assert(forall|i: int| 0 <= i < self.damage().len() ==> (#[trigger] self.damage()[i]).wf());
        let count = match table_get(&self.windows, win_id) {
            Some(entry) => entry.0.pixels().len(),
            None => {
                return Err(());
            },
        };
        if pixels.len() != count {
            return Err(());
        }
        match table_get_mut(&mut self.windows, win_id) {
            Some(entry) => {
                entry.0.set_pixels(pixels);
            },
            None => {
                return Err(());
            },
        }
        proof {
            assert(self.table().dom() =~= old(self).table().dom());
            assert forall|id: WinID| #[trigger] self.table().contains_key(id) implies self.table()[id].0.wf()
                && self.in_room(self.table()[id].0) by {
                assert(old(self).table().contains_key(id));
                assert(old(self).in_room(old(self).table()[id].0));
            }
            assert forall|id: WinID| #[trigger] self.normal().contains(id) implies self.table().contains_key(
                id,
            ) && self.table()[id].1 == WindowKind::Normal by {
                assert(old(self).normal().contains(id));
            }
            assert forall|id: WinID| #[trigger] self.overlay().contains(id) implies self.table().contains_key(
                id,
            ) && self.table()[id].1 == WindowKind::Overlay by {
                assert(old(self).overlay().contains(id));
            }
            assert forall|id: WinID| #[trigger] self.table().contains_key(id) implies (if self.table()[id].1
                == WindowKind::Normal {
                self.normal().contains(id)
            } else {
                self.overlay().contains(id)
            }) by {
                assert(old(self).table().contains_key(id) && Some(id) != None::<WinID>);
            }
            assert(self.ids() =~= self.table().dom());
        }
        Ok(())
    }
}

} // verus!
