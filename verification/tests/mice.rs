use opal_wm::com::response::event::{
    Event, HeldMouseButtons, MouseChangeEvent, MouseEnterEvent, MouseLeaveEvent,
};
use opal_wm::fb::Pixel;
use opal_wm::mice::{
    focus_action, held_buttons, pointer_events, FocusAction, MiceBtnStatus, MiceCursor, MiceEvent,
    MouseEventKind, BTN_LEFT, BTN_MID, BTN_RIGHT, MICE_EVENT_SIZE,
};
use opal_wm::window::{DamageRegion, Delivery, Window, WindowKind, Windows};

fn black(x: usize, y: usize, w: usize, h: usize) -> Window {
    Window::new_filled_with(x, y, w, h, Pixel::from_rgba(0, 0, 0, 0xFF))
}

fn record(buttons: u8, x_rel: i16, y_rel: i16) -> MiceEvent {
    MiceEvent {
        kind: MouseEventKind::Change,
        buttons_status: MiceBtnStatus { bits: buttons },
        x_rel_change: x_rel,
        y_rel_change: y_rel,
    }
}

fn pos(store: &Windows, id: u16) -> (usize, usize) {
    let r = store.window_rect(id).unwrap();
    (r.pos_x(), r.pos_y())
}

#[test]
fn button_masks() {
    assert_eq!((BTN_LEFT, BTN_MID, BTN_RIGHT), (1, 2, 4));
    let status = MiceBtnStatus { bits: 5 };
    assert!(status.contains(BTN_LEFT));
    assert!(!status.contains(BTN_MID));
    assert!(status.contains(BTN_RIGHT));
    assert_eq!(MiceBtnStatus::no_buttons().bits, 0);
    assert_eq!(held_buttons(status).bits(), 5);
    assert_eq!(held_buttons(MiceBtnStatus { bits: 0xFA }).bits(), 2);
    assert_eq!(held_buttons(MiceBtnStatus { bits: 0xFF }).bits(), 7);
    assert_eq!(held_buttons(MiceBtnStatus { bits: 0 }), HeldMouseButtons::empty());
}

#[test]
fn pointer_events_for_each_transition() {
    let none = MiceBtnStatus { bits: 0 };
    let left = MiceBtnStatus { bits: 1 };
    let win = black(10, 10, 50, 50);
    let point = DamageRegion::new(14, 17, 3, 3).overlaps_with(&win).unwrap();
    let leave = Event::MouseLeave(MouseLeaveEvent::new());
    let enter = Event::MouseEnter(MouseEnterEvent::new(4, 7));

    // enter from nowhere
    assert_eq!(pointer_events(None, Some((3, point)), none, none), vec![(3, enter)]);
    // enter from another window: enter first, then leave
    assert_eq!(pointer_events(Some(8), Some((3, point)), none, left), vec![(3, enter), (8, leave)]);
    // stay: change
    assert_eq!(
        pointer_events(Some(3), Some((3, point)), none, left),
        vec![(3, Event::MouseChange(MouseChangeEvent::new(true, HeldMouseButtons::left(), 4, 7)))]
    );
    assert_eq!(
        pointer_events(Some(3), Some((3, point)), left, left),
        vec![(3, Event::MouseChange(MouseChangeEvent::new(false, HeldMouseButtons::left(), 4, 7)))]
    );
    // bits that are no buttons still count as a change, and are not reported as held
    assert_eq!(
        pointer_events(Some(3), Some((3, point)), MiceBtnStatus { bits: 8 }, none),
        vec![(3, Event::MouseChange(MouseChangeEvent::new(true, HeldMouseButtons::empty(), 4, 7)))]
    );
    // leave to nowhere
    assert_eq!(pointer_events(Some(8), None, none, none), vec![(8, leave)]);
    assert_eq!(pointer_events(None, None, left, none), vec![]);
}

#[test]
fn focus_changes_only_on_a_press() {
    assert_eq!(focus_action(false, true, Some(3), Some(4)), FocusAction::Focus(3));
    assert_eq!(focus_action(false, true, Some(3), None), FocusAction::Focus(3));
    assert_eq!(focus_action(false, true, Some(3), Some(3)), FocusAction::Keep);
    assert_eq!(focus_action(false, true, None, Some(3)), FocusAction::Unfocus);
    assert_eq!(focus_action(false, true, None, None), FocusAction::Unfocus);
    assert_eq!(focus_action(true, true, Some(3), Some(4)), FocusAction::Keep);
    assert_eq!(focus_action(true, false, None, Some(4)), FocusAction::Keep);
    assert_eq!(focus_action(false, false, Some(3), Some(4)), FocusAction::Keep);
}

#[test]
fn cursor_is_an_overlay() {
    let mut store = Windows::new(640, 480);
    let a = store.add_window(black(0, 0, 10, 10), WindowKind::Normal).unwrap();
    let mice = MiceCursor::create(&mut store, black(0, 0, 8, 12)).unwrap();
    assert_eq!(mice.win_id(), 1);
    assert_eq!(mice.pos(), (0, 0));
    assert_eq!(mice.current_window(), None);
    assert_eq!(store.overlay_windows(), vec![1]);
    assert_eq!(store.normal_windows(), vec![a]);
    assert_eq!(store.focused_window(), Some(a));
}

#[test]
fn no_cursor_without_an_id() {
    let mut store = Windows::new(64, 48);
    for _ in 0..1024 {
        store.add_window(black(0, 0, 1, 1), WindowKind::Overlay).unwrap();
    }
    assert!(MiceCursor::create(&mut store, black(0, 0, 8, 12)).is_none());
}

#[test]
fn the_cursor_moves_down_when_the_mouse_moves_down() {
    let mut store = Windows::new(640, 480);
    let mut mice = MiceCursor::create(&mut store, black(100, 100, 8, 12)).unwrap();
    assert_eq!(mice.pos(), (100, 100));
    // the record counts upwards
    mice.handle_event(&mut store, record(0, 5, -3));
    assert_eq!(mice.pos(), (105, 103));
    assert_eq!(pos(&store, mice.win_id()), (105, 103));
    mice.handle_event(&mut store, record(0, -10, 20));
    assert_eq!(mice.pos(), (95, 83));
    // held inside the framebuffer
    mice.handle_event(&mut store, record(0, i16::MAX, i16::MIN));
    assert_eq!(mice.pos(), (632, 468));
    mice.handle_event(&mut store, record(0, i16::MIN, i16::MAX));
    assert_eq!(mice.pos(), (0, 0));
    assert!(store.take_events().is_empty());
}

#[test]
fn drag_moves_the_focused_window() {
    let mut store = Windows::new(640, 480);
    let k = store.add_window(black(10, 20, 100, 80).with_com_pipe(1), WindowKind::Normal).unwrap();
    let mut mice = MiceCursor::create(&mut store, black(30, 40, 8, 12)).unwrap();
    // the cursor comes to rest over k with the left and the middle button held
    mice.handle_event(&mut store, record(BTN_LEFT | BTN_MID, 0, 0));
    assert_eq!(mice.current_window(), Some(k));
    store.take_events();
    let mut fb = opal_wm::framebuffer::Framebuffer::new(640, 480, Pixel::from_hex(0));
    store.damage_redraw(&mut fb);

    mice.handle_event(&mut store, record(BTN_LEFT, 5, -3));
    assert_eq!(mice.pos(), (35, 43));
    assert_eq!(pos(&store, k), (15, 23));
    assert_eq!(store.focused_window(), Some(k));
    // no enter and no leave: the cursor is over the same window
    assert_eq!(
        store.take_events(),
        vec![Delivery {
            pipe: 1,
            win_id: k,
            event: Event::MouseChange(MouseChangeEvent::new(true, HeldMouseButtons::left(), 20, 20)),
        }]
    );
    assert_eq!(
        store.damaged_regions().as_slice(),
        &[
            DamageRegion::new(30, 40, 8, 12),
            DamageRegion::new(35, 43, 8, 12),
            DamageRegion::new(10, 20, 100, 80),
            DamageRegion::new(15, 23, 100, 80),
        ]
    );
    // the button is released: the window stays when the mouse moves on
    mice.handle_event(&mut store, record(0, 0, 0));
    mice.handle_event(&mut store, record(0, 7, 0));
    assert_eq!(pos(&store, k), (15, 23));
    assert_eq!(mice.pos(), (42, 43));
}

#[test]
fn click_switches_the_focus() {
    let mut store = Windows::new(640, 480);
    let a = store.add_window(black(0, 0, 100, 100).with_com_pipe(1), WindowKind::Normal).unwrap();
    let b = store.add_window(black(50, 50, 100, 100).with_com_pipe(2), WindowKind::Normal).unwrap();
    let mut mice = MiceCursor::create(&mut store, black(10, 10, 4, 4)).unwrap();
    // the cursor is inside a only
    mice.handle_event(&mut store, record(0, 0, 0));
    assert_eq!(mice.current_window(), Some(a));
    assert_eq!(store.focused_window(), Some(b));
    store.take_events();

    // a press of the left button without motion
    mice.handle_event(&mut store, record(BTN_LEFT, 0, 0));
    assert_eq!(store.focused_window(), Some(a));
    assert_eq!(store.normal_windows(), vec![b, a]);
    assert_eq!(
        store.take_events(),
        vec![
            Delivery {
                pipe: 1,
                win_id: a,
                event: Event::MouseChange(MouseChangeEvent::new(true, HeldMouseButtons::left(), 10, 10)),
            },
            Delivery { pipe: 1, win_id: a, event: Event::WindowFocused },
            Delivery { pipe: 2, win_id: b, event: Event::WindowUnfocused },
        ]
    );
    // holding the button does not focus again
    mice.handle_event(&mut store, record(BTN_LEFT, 0, 0));
    let events = store.take_events();
    assert_eq!(events.len(), 1);
    assert!(matches!(events[0].event, Event::MouseChange(_)));
}

#[test]
fn click_on_nothing_takes_the_focus_away() {
    let mut store = Windows::new(640, 480);
    let a = store.add_window(black(0, 0, 100, 100).with_com_pipe(1), WindowKind::Normal).unwrap();
    let mut mice = MiceCursor::create(&mut store, black(300, 300, 4, 4)).unwrap();
    store.take_events();
    mice.handle_event(&mut store, record(BTN_LEFT, 0, 0));
    assert_eq!(mice.current_window(), None);
    assert_eq!(store.focused_window(), None);
    assert_eq!(
        store.take_events(),
        vec![Delivery { pipe: 1, win_id: a, event: Event::WindowUnfocused }]
    );
}

#[test]
fn enter_and_leave_follow_the_cursor() {
    let mut store = Windows::new(640, 480);
    let a = store.add_window(black(0, 0, 100, 100).with_com_pipe(1), WindowKind::Normal).unwrap();
    let b = store.add_window(black(200, 0, 100, 100).with_com_pipe(2), WindowKind::Normal).unwrap();
    let mut mice = MiceCursor::create(&mut store, black(150, 10, 4, 4)).unwrap();
    store.take_events();
    mice.handle_event(&mut store, record(0, 0, 0));
    assert!(store.take_events().is_empty());

    mice.handle_event(&mut store, record(0, -60, 0));
    assert_eq!(mice.current_window(), Some(a));
    assert_eq!(
        store.take_events(),
        vec![Delivery { pipe: 1, win_id: a, event: Event::MouseEnter(MouseEnterEvent::new(90, 10)) }]
    );
    // straight over to b
    mice.handle_event(&mut store, record(0, 120, 0));
    assert_eq!(mice.current_window(), Some(b));
    assert_eq!(
        store.take_events(),
        vec![
            Delivery { pipe: 2, win_id: b, event: Event::MouseEnter(MouseEnterEvent::new(10, 10)) },
            Delivery { pipe: 1, win_id: a, event: Event::MouseLeave(MouseLeaveEvent::new()) },
        ]
    );
    // out of b, over no window
    mice.handle_event(&mut store, record(0, 0, -200));
    assert_eq!(mice.current_window(), None);
    assert_eq!(
        store.take_events(),
        vec![Delivery { pipe: 2, win_id: b, event: Event::MouseLeave(MouseLeaveEvent::new()) }]
    );
    // a window that is gone gets no leave
    mice.handle_event(&mut store, record(0, 0, 200));
    assert_eq!(mice.current_window(), Some(b));
    store.remove_window(b).unwrap();
    store.take_events();
    mice.handle_event(&mut store, record(0, 0, 0));
    assert_eq!(mice.current_window(), None);
    assert!(store.take_events().is_empty());
}

#[test]
fn records_from_bytes() {
    assert_eq!(MICE_EVENT_SIZE, 6);
    assert_eq!(MiceEvent::decode(&[1, 5, 5, 0, 0xFD, 0xFF]), Some(record(5, 5, -3)));
    assert_eq!(MiceEvent::decode(&[1, 0, 0xFF, 0x7F, 0x00, 0x80]), Some(record(0, i16::MAX, i16::MIN)));
    assert_eq!(
        MiceEvent::decode(&[0, 0, 0, 0, 0, 0]),
        Some(MiceEvent {
            kind: MouseEventKind::Null,
            buttons_status: MiceBtnStatus::no_buttons(),
            x_rel_change: 0,
            y_rel_change: 0,
        })
    );
    assert_eq!(MiceEvent::decode(&[2, 0, 0, 0, 0, 0]), None);
    assert_eq!(MiceEvent::decode(&[1, 0, 0, 0, 0]), None);
    assert_eq!(MiceEvent::decode(&[1, 0, 0, 0, 0, 0, 0]), None);
    assert_eq!(MiceEvent::decode(&[]), None);
}
