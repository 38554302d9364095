//! The input dispatcher: what a record from the mouse does to the cursor,
//! to the windows and to the clients that own them.

use vstd::prelude::*;
use crate::com::response::event::{
    Event, HeldMouseButtons, MouseChangeEvent, MouseEnterEvent, MouseLeaveEvent, BUTTON_LEFT,
    BUTTON_MIDDLE, BUTTON_RIGHT,
};
use crate::com::packet::{le_u16_at, u16_at};
use crate::ids::WinID;
use crate::window::store::spec_notice;
use crate::window::{Delivery, IntersectionPoint, Window, WindowKind, Windows};

verus! {

/// The bit of the left button in the mask of a mouse record.
pub const BTN_LEFT: u8 = 1;

/// The bit of the middle button in the mask of a mouse record.
pub const BTN_MID: u8 = 2;

/// The bit of the right button in the mask of a mouse record.
pub const BTN_RIGHT: u8 = 4;

/// The kind of a record from the mouse device.
#[derive(Debug, Clone, Copy, PartialEq, Eq, Structural)]
pub enum MouseEventKind {
    /// A filler record.
    Null,
    /// The mouse moved or its buttons changed.
    Change,
}

/// The buttons that a mouse record reports as held, one bit each.
#[derive(Debug, Clone, Copy, PartialEq, Eq, Structural)]
pub struct MiceBtnStatus {
    pub bits: u8,
}

impl MiceBtnStatus {
    /// No button.
    pub fn no_buttons() -> (status: Self)
        ensures
            status.bits == 0,
    {
        Self { bits: 0 }
    }

    /// Whether all bits of `mask` are set.
    pub open spec fn spec_contains(self, mask: u8) -> bool {
        self.bits & mask == mask
    }

    /// Whether all bits of `mask` are set.
    pub fn contains(&self, mask: u8) -> (held: bool)
        ensures
            held == self.spec_contains(mask),
    {
        (self.bits & mask) == mask
    }
}

/// A record from the mouse device.
#[derive(Debug, Clone, Copy, PartialEq, Eq, Structural)]
pub struct MiceEvent {
    pub kind: MouseEventKind,
    pub buttons_status: MiceBtnStatus,
    /// How far the mouse moved to the right.
    pub x_rel_change: i16,
    /// How far the mouse moved up.
    pub y_rel_change: i16,
}

/// The length of a record from the mouse device, in bytes.
pub const MICE_EVENT_SIZE: usize = 6;

/// The number that the two bytes from `bytes[at]` hold, low byte first, as a
/// signed number.
pub open spec fn le_i16_at(bytes: Seq<u8>, at: int) -> i16 {
    if le_u16_at(bytes, at) >= 0x8000 {
        (le_u16_at(bytes, at) - 0x1_0000) as i16
    } else {
        le_u16_at(bytes, at) as i16
    }
}

impl MiceEvent {
    /// The record that six bytes from the mouse device hold: the kind, the
    /// buttons, and the two distances, low byte first. There is no record in
    /// another number of bytes or with another kind than 0, a filler, and 1,
    /// a change.
    pub open spec fn spec_decode(bytes: Seq<u8>) -> Option<MiceEvent> {
        if bytes.len() != MICE_EVENT_SIZE || bytes[0] > 1 {
            None
        } else {
            Some(
                MiceEvent {
                    kind: if bytes[0] == 0 {
                        MouseEventKind::Null
                    } else {
                        MouseEventKind::Change
                    },
                    buttons_status: MiceBtnStatus { bits: bytes[1] },
                    x_rel_change: le_i16_at(bytes, 2),
                    y_rel_change: le_i16_at(bytes, 4),
                },
            )
        }
    }

    /// Reads a record from the bytes that the mouse device has handed out.
    pub fn decode(bytes: &[u8]) -> (event: Option<MiceEvent>)
        ensures
            event == Self::spec_decode(bytes@),
    {
        if bytes.len() != MICE_EVENT_SIZE {
            return None;
        }
        let kind = if bytes[0] == 0 {
            MouseEventKind::Null
        } else if bytes[0] == 1 {
            MouseEventKind::Change
        } else {
            return None;
        };
        Some(
            MiceEvent {
                kind,
                buttons_status: MiceBtnStatus { bits: bytes[1] },
                x_rel_change: signed(u16_at(bytes, 2)),
                y_rel_change: signed(u16_at(bytes, 4)),
            },
        )
    }
}

/// The signed number with the bits of `v`.
fn signed(v: u16) -> (s: i16)
    ensures
        s == if v >= 0x8000 {
            v - 0x1_0000
        } else {
            v as int
        },
{
    if v >= 0x8000 {
        (v as i32 - 0x1_0000) as i16
    } else {
        v as i16
    }
}

/// What a click does to the focus.
#[derive(Debug, Clone, Copy, PartialEq, Eq, Structural)]
pub enum FocusAction {
    /// The focus stays where it is.
    Keep,
    /// The window takes the focus.
    Focus(WinID),
    /// The focused window loses the focus.
    Unfocus,
}

/// The buttons of a mouse record as an event reports them: left, middle and
/// right, and no other bit.
pub fn held_buttons(status: MiceBtnStatus) -> (held: HeldMouseButtons)
    ensures
        held.bits == status.bits & 7,
{
    let mut held = HeldMouseButtons::empty();
    if status.contains(BTN_LEFT) {
        held.insert(HeldMouseButtons::left());
    }
    if status.contains(BTN_MID) {
        held.insert(HeldMouseButtons::middle());
    }
    if status.contains(BTN_RIGHT) {
        held.insert(HeldMouseButtons::right());
    }
    proof {
        let b = status.bits;
        let l: u8 = if b & 1u8 == 1u8 { 0u8 | 1u8 } else { 0u8 };
        let m: u8 = if b & 2u8 == 2u8 { l | 2u8 } else { l };
        let r: u8 = if b & 4u8 == 4u8 { m | 4u8 } else { m };
        assert(r == b & 7u8) by (bit_vector)
            requires
                l == (if b & 1u8 == 1u8 { 0u8 | 1u8 } else { 0u8 }),
                m == (if b & 2u8 == 2u8 { l | 2u8 } else { l }),
                r == (if b & 4u8 == 4u8 { m | 4u8 } else { m }),
        ;
    }
    held
}

/// A coordinate within a window as an event carries it: its low 32 bits.
pub open spec fn spec_event_coordinate(at: int) -> u32 {
    (at % 0x1_0000_0000) as u32
}

/// The events that a mouse record causes, each with the window that it goes
/// to, in the order in which they are sent.
///
/// The cursor was over the window `prev`, if any, and is now in contact with
/// `contact`. A window that the cursor was not over before gets `MouseEnter`
/// and the window that it left `MouseLeave`; a window that the cursor stays
/// over gets `MouseChange`; when the cursor is over no window, the window
/// that it left gets `MouseLeave`.
pub open spec fn spec_pointer_events(
    prev: Option<WinID>,
    contact: Option<(WinID, IntersectionPoint)>,
    prev_buttons: MiceBtnStatus,
    buttons: MiceBtnStatus,
) -> Seq<(WinID, Event)> {
    let leave = match prev {
        Some(old_id) => seq![(old_id, Event::MouseLeave(MouseLeaveEvent))],
        None => Seq::<(WinID, Event)>::empty(),
    };
    match contact {
        Some((id, point)) => {
            let x = spec_event_coordinate(point.left());
            let y = spec_event_coordinate(point.top());
            if prev != Some(id) {
                seq![(id, Event::MouseEnter(MouseEnterEvent { pos_x: x, pos_y: y }))] + leave
            } else {
                seq![
                    (
                        id,
                        Event::MouseChange(
                            MouseChangeEvent {
                                buttons_changed: buttons != prev_buttons,
                                held_buttons: HeldMouseButtons { bits: buttons.bits & 7 },
                                pad: 0,
                                pos_x: x,
                                pos_y: y,
                            },
                        ),
                    ),
                ]
            }
        },
        None => leave,
    }
}

/// The events that a mouse record causes; see [`spec_pointer_events`].
pub fn pointer_events(
    prev: Option<WinID>,
    contact: Option<(WinID, IntersectionPoint)>,
    prev_buttons: MiceBtnStatus,
    buttons: MiceBtnStatus,
) -> (events: Vec<(WinID, Event)>)
    ensures
        events@ == spec_pointer_events(prev, contact, prev_buttons, buttons),
{
    let mut events: Vec<(WinID, Event)> = Vec::new();
    match contact {
        Some((curr_id, contact_point)) => {
            proof {
                contact_point.lemma_wf();
            }
            let x: u32 = ((contact_point.x() as u64) % 0x1_0000_0000) as u32;
            let y: u32 = ((contact_point.y() as u64) % 0x1_0000_0000) as u32;
            let entered = match prev {
                Some(old_id) => old_id != curr_id,
                None => true,
            };
            if entered {
                events.push((curr_id, Event::MouseEnter(MouseEnterEvent::new(x, y))));
                match prev {
                    Some(old_id) => {
                        events.push((old_id, Event::MouseLeave(MouseLeaveEvent::new())));
                    },
                    None => {},
                }
            } else {
                let buttons_changed = prev_buttons.bits != buttons.bits;
                let change_event = MouseChangeEvent::new(buttons_changed, held_buttons(buttons), x, y);
                events.push((curr_id, Event::MouseChange(change_event)));
            }
        },
        None => {
            match prev {
                Some(old_id) => {
                    events.push((old_id, Event::MouseLeave(MouseLeaveEvent::new())));
                },
                None => {},
            }
        },
    }
    assert(events@ =~= spec_pointer_events(prev, contact, prev_buttons, buttons));
    events
}

/// What a mouse record does to the focus: on a press of the left button,
/// and on no other record, the window under the cursor takes the focus
/// unless it has it, and with no window under the cursor the focused window
/// loses it.
pub open spec fn spec_focus_action(
    left_was_pressed: bool,
    left_is_pressed: bool,
    contact: Option<WinID>,
    focused: Option<WinID>,
) -> FocusAction {
    if left_is_pressed && !left_was_pressed {
        match contact {
            Some(id) => if focused != Some(id) {
                FocusAction::Focus(id)
            } else {
                FocusAction::Keep
            },
            None => FocusAction::Unfocus,
        }
    } else {
        FocusAction::Keep
    }
}

/// What a mouse record does to the focus; see [`spec_focus_action`].
pub fn focus_action(
    left_was_pressed: bool,
    left_is_pressed: bool,
    contact: Option<WinID>,
    focused: Option<WinID>,
) -> (action: FocusAction)
    ensures
        action == spec_focus_action(left_was_pressed, left_is_pressed, contact, focused),
{
    if left_is_pressed && !left_was_pressed {
        match contact {
            Some(id) => {
                let has_focus = match focused {
                    Some(focus_id) => focus_id == id,
                    None => false,
                };
                if has_focus {
                    FocusAction::Keep
                } else {
                    FocusAction::Focus(id)
                }
            },
            None => FocusAction::Unfocus,
        }
    } else {
        FocusAction::Keep
    }
}

/// The deliveries that sending `events` puts into the outbox, in order: one
/// for each event whose window exists and has an owner.
pub open spec fn spec_notices(
    table: Map<WinID, crate::window::table::Entry>,
    events: Seq<(WinID, Event)>,
) -> Seq<Delivery>
    decreases events.len(),
{
    if events.len() == 0 {
        Seq::<Delivery>::empty()
    } else {
        spec_notices(table, events.drop_last()) + spec_notice(
            table,
            events.last().0,
            events.last().1,
        )
    }
}

/// The mouse cursor on the screen, and what is remembered from the last
/// mouse record.
pub struct MiceCursor {
    win_id: WinID,
    x: usize,
    y: usize,
    height: usize,
    width: usize,
    last_mouse_event: MiceEvent,
    current_window: Option<WinID>,
}

impl MiceCursor {
    /// The id of the overlay window that shows the cursor.
    pub closed spec fn spec_win_id(&self) -> WinID {
        self.win_id
    }

    /// Where the cursor stands, as far as the dispatcher knows.
    pub closed spec fn spec_pos(&self) -> (usize, usize) {
        (self.x, self.y)
    }

    /// The width and the height of the cursor.
    pub closed spec fn spec_size(&self) -> (usize, usize) {
        (self.width, self.height)
    }

    /// The last mouse record that was handled.
    pub closed spec fn spec_last_event(&self) -> MiceEvent {
        self.last_mouse_event
    }

    /// The window that the cursor was over after the last mouse record.
    pub closed spec fn spec_current_window(&self) -> Option<WinID> {
        self.current_window
    }

    /// The id of the overlay window that shows the cursor.
    pub fn win_id(&self) -> (id: WinID)
        ensures
            id == self.spec_win_id(),
    {
        self.win_id
    }

    /// Where the cursor stands.
    pub fn pos(&self) -> (pos: (usize, usize))
        ensures
            pos == self.spec_pos(),
    {
        (self.x, self.y)
    }

    /// The window that the cursor was over after the last mouse record.
    pub fn current_window(&self) -> (id: Option<WinID>)
        ensures
            id == self.spec_current_window(),
    {
        self.current_window
    }

    /// Puts the window `cursor` into the store as an overlay and makes it
    /// the cursor; `None` when the store has no id left. The cursor starts
    /// where the store placed the window, over no window, and with no button
    /// held.
    pub fn create(windows: &mut Windows, cursor: Window) -> (mice: Option<Self>)
        requires
            old(windows).wf(),
        ensures
            final(windows).wf(),
            old(windows).focus_is_topmost() ==> final(windows).focus_is_topmost(),
            match mice {
                None => {
                    &&& forall|any: WinID|
                        any < crate::ids::MAX_WINDOW_ID ==> old(windows).table().contains_key(any)
                    &&& old(windows).same_state(final(windows))
                },
                Some(mice) => {
                    let id = mice.spec_win_id();
                    &&& old(windows).spec_window_added(final(windows), id, cursor, WindowKind::Overlay)
                    &&& final(windows).normal() == old(windows).normal()
                    &&& final(windows).overlay() == old(windows).overlay().push(id)
                    &&& final(windows).focused() == old(windows).focused()
                    &&& final(windows).outbox() == old(windows).outbox()
                    &&& mice.spec_pos() == (
                        final(windows).table()[id].0.spec_pos_x(),
                        final(windows).table()[id].0.spec_pos_y(),
                    )
                    &&& mice.spec_size() == (cursor.spec_width(), cursor.spec_height())
                    &&& mice.spec_current_window() == None::<WinID>
                    &&& mice.spec_last_event() == (MiceEvent {
                        kind: MouseEventKind::Null,
                        buttons_status: MiceBtnStatus { bits: 0 },
                        x_rel_change: 0,
                        y_rel_change: 0,
                    })
                },
            },
    {
        let cursor_width = cursor.width();
        let cursor_height = cursor.height();
        let win = match windows.add_window(cursor, WindowKind::Overlay) {
            Some(win) => win,
            None => {
                return None;
            },
        };
        let (x, y) = match windows.window_rect(win) {
            Some(rect) => (rect.pos_x(), rect.pos_y()),
            None => (0, 0),
        };
        Some(
            Self {
                win_id: win,
                x,
                y,
                height: cursor_height,
                width: cursor_width,
                last_mouse_event: MiceEvent {
                    kind: MouseEventKind::Null,
                    buttons_status: MiceBtnStatus::no_buttons(),
                    x_rel_change: 0,
                    y_rel_change: 0,
                },
                current_window: None,
            },
        )
    }

    /// How far a mouse record moves the cursor to the right and down: the
    /// record counts upwards, the screen downwards.
    pub open spec fn spec_delta(event: MiceEvent) -> (i32, i32) {
        (event.x_rel_change as i32, (0 - event.y_rel_change) as i32)
    }

    /// What handling a mouse record does, step by step. The store goes from
    /// `s0` through `s1`, `s2` and `s3` to `s4`:
    ///
    /// 1. the cursor window moves by the record's distance, and the cursor
    ///    stands where the window stands then;
    /// 2. if the left button was held at the last record, the focused
    ///    window, if any, moves by the same distance;
    /// 3. `contact` is the normal window that the cursor is then in contact
    ///    with;
    /// 4. the events of [`spec_pointer_events`] are sent;
    /// 5. the focus changes as [`spec_focus_action`] says;
    /// 6. the record and the window in contact are remembered.
    pub open spec fn spec_steps(
        before: MiceCursor,
        after: MiceCursor,
        event: MiceEvent,
        s0: Windows,
        s1: Windows,
        s2: Windows,
        s3: Windows,
        s4: Windows,
        moved: Option<(usize, usize)>,
        dragged: Option<(usize, usize)>,
        contact: Option<(WinID, IntersectionPoint)>,
    ) -> bool {
        let (dx, dy) = Self::spec_delta(event);
        let left_was = before.spec_last_event().buttons_status.spec_contains(BTN_LEFT);
        let left_is = event.buttons_status.spec_contains(BTN_LEFT);
        let pos = match moved {
            Some(pos) => pos,
            None => before.spec_pos(),
        };
        let contact_id = match contact {
            Some((id, _)) => Some(id),
            None => None,
        };
        let events = spec_pointer_events(
            before.spec_current_window(),
            contact,
            before.spec_last_event().buttons_status,
            event.buttons_status,
        );
        &&& s0.spec_add_cord(&s1, before.spec_win_id(), dx, dy, moved)
        &&& if left_was && s1.focused() is Some {
            s1.spec_add_cord(&s2, s1.focused().unwrap(), dx, dy, dragged)
        } else {
            s1.same_state(&s2)
        }
        &&& s2.spec_in_contact(pos.0, pos.1, before.spec_size().0, before.spec_size().1, contact)
        &&& s2.same_windows(&s3)
        &&& s3.damage() == s2.damage()
        &&& s3.outbox() == s2.outbox() + spec_notices(s2.table(), events)
        &&& match spec_focus_action(left_was, left_is, contact_id, s3.focused()) {
            FocusAction::Focus(id) => s3.spec_set_focused(&s4, id, true),
            FocusAction::Unfocus => s3.spec_unfocus_current(&s4),
            FocusAction::Keep => s3.same_state(&s4),
        }
        &&& after.spec_win_id() == before.spec_win_id()
        &&& after.spec_size() == before.spec_size()
        &&& after.spec_pos() == pos
        &&& after.spec_last_event() == event
        &&& after.spec_current_window() == contact_id
    }

    /// Handles one record from the mouse: moves the cursor, drags the
    /// focused window while the left button is held, tells the windows that
    /// the cursor enters, leaves or moves over, and moves the focus on a
    /// click. The events go into the outbox of the store.
    pub fn handle_event(&mut self, windows: &mut Windows, event: MiceEvent)
        requires
            old(windows).wf(),
            event.kind == MouseEventKind::Change,
        ensures
            final(windows).wf(),
            old(windows).focus_is_topmost() ==> final(windows).focus_is_topmost(),
            exists|
                s1: Windows,
                s2: Windows,
                s3: Windows,
                moved: Option<(usize, usize)>,
                dragged: Option<(usize, usize)>,
                contact: Option<(WinID, IntersectionPoint)>,
            | #[trigger]
                Self::spec_steps(
                    *old(self),
                    *final(self),
                    event,
                    *old(windows),
                    s1,
                    s2,
                    s3,
                    *final(windows),
                    moved,
                    dragged,
                    contact,
                ),
    {
        let old_win_id = self.current_window;
        let last_buttons = self.last_mouse_event.buttons_status;
        let left_button_was_pressed = last_buttons.contains(BTN_LEFT);

        let x_change: i32 = event.x_rel_change as i32;
        let y_change: i32 = -(event.y_rel_change as i32);

        let moved = windows.add_cord(self.win_id, x_change, y_change);
        match moved {
            Some((new_x, new_y)) => {
                self.x = new_x;
                self.y = new_y;
            },
            None => {},
        }
        let ghost s1 = *windows;

        let left_button_is_pressed = event.buttons_status.contains(BTN_LEFT);
        let dragged = if left_button_was_pressed {
            match windows.focused_window() {
                Some(focused_id) => windows.add_cord(focused_id, x_change, y_change),
                None => None,
            }
        } else {
            None
        };
        let ghost s2 = *windows;

        let window_in_contact = windows.window_in_contact(self.x, self.y, self.width, self.height);
        let events = pointer_events(old_win_id, window_in_contact, last_buttons, event.buttons_status);
        let mut sent: usize = 0;
        while sent < events.len()
            invariant
                sent <= events@.len(),
                windows.wf(),
                s2.focus_is_topmost() ==> windows.focus_is_topmost(),
                s2.same_windows(windows),
                windows.damage() == s2.damage(),
                windows.outbox() == s2.outbox() + spec_notices(
                    s2.table(),
                    events@.subrange(0, sent as int),
                ),
            decreases events@.len() - sent,
        {
            let (id, what) = events[sent];
            proof {
                assert(events@.subrange(0, sent + 1).drop_last() =~= events@.subrange(
                    0,
                    sent as int,
                ));
            }
            // The window that the cursor left may be gone by now.
            let _ = windows.send_event(id, what);
            proof {
                assert(windows.outbox() =~= s2.outbox() + spec_notices(
                    s2.table(),
                    events@.subrange(0, sent + 1),
                ));
            }
            sent += 1;
        }
        proof {
            assert(events@.subrange(0, sent as int) =~= events@);
        }
        let ghost s3 = *windows;

        let contact_id = match window_in_contact {
            Some((id, _)) => Some(id),
            None => None,
        };
        proof {
            match window_in_contact {
                Some((id, point)) => {
                    let x1 = vstd::math::min(self.x + self.width, usize::MAX as int);
                    let y1 = vstd::math::min(self.y + self.height, usize::MAX as int);
                    let at = choose|at: int| #[trigger]
                        s2.spec_is_contact(self.x as int, self.y as int, x1, y1, at, id, point);
                    assert(s2.normal().contains(s2.normal()[at]));
                    assert(s3.table().contains_key(id));
                    assert(s3.table()[id].1 == WindowKind::Normal);
                },
                None => {},
            }
        }
        match focus_action(
            left_button_was_pressed,
            left_button_is_pressed,
            contact_id,
            windows.focused_window(),
        ) {
            FocusAction::Focus(id) => {
                windows.set_focused(id);
            },
            FocusAction::Unfocus => {
                windows.unfocus_current();
            },
            FocusAction::Keep => {},
        }

        self.last_mouse_event = event;
        self.current_window = contact_id;
        proof {
            assert(Self::spec_steps(
                *old(self),
                *self,
                event,
                *old(windows),
                s1,
                s2,
                s3,
                *windows,
                moved,
                dragged,
                window_in_contact,
            ));
        }
    }
}

} // verus!
