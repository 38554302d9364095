use opal_wm::com::packet::PacketParseErr;
use opal_wm::com::request::{CreateWindow, DamageWindow, Ping, Request};
use opal_wm::com::response::error::ResponseError;
use opal_wm::com::response::event::Event;
use opal_wm::com::response::{CreateWindowResp, OkResponse, Response};
use opal_wm::com::session::{
    event_dropped_silently, orderly_disconnect, receive_request, send_response, window_fits,
    ClientSession, IoFailure, ReadError, SessionStep,
};
use opal_wm::fb::Pixel;
use opal_wm::window::{DamageRegion, Delivery, Window, WindowKind, Windows};

#[test]
fn ping_round_trip() {
    let mut store = Windows::new(640, 480);
    let session = ClientSession::new(1);
    let request = receive_request(Ok(&[0xAD, 0xED, 0xFE, 0xBC, 0, 0, 0, 0]));
    assert_eq!(request, Ok(Request::Ping(Ping::new())));
    let step = session.handle_request(&mut store, request);
    assert_eq!(step, SessionStep::Reply(Response::Accepted(OkResponse::Success)));
    let SessionStep::Reply(response) = step else { unreachable!() };
    assert_eq!(send_response(&response), vec![0xDD, 0x00, 0xEF, 0xA1, 0, 0, 0, 0]);
    let (packet, len) = response.encode();
    assert_eq!(len, 8);
    assert_eq!(packet.len(), 256);
    assert!(packet[8..].iter().all(|b| *b == 0));
    assert!(!store.should_redraw());
}

#[test]
fn create_then_damage() {
    let mut store = Windows::new(640, 480);
    let mut session = ClientSession::new(7);
    assert_eq!(session.pipe(), 7);
    let create = CreateWindow::new(0, 100, 80, 10, 20);
    let step = session.handle_request(&mut store, Ok(Request::CreateWindow(create)));
    assert_eq!(step, SessionStep::Allocate(create));
    assert!(store.window(0).is_none());

    let response = session.window_allocated(&mut store, create, Some(0xABCD));
    assert_eq!(
        response,
        Response::Accepted(OkResponse::WindowCreated(CreateWindowResp::new(0, 0xABCD)))
    );
    assert_eq!(session.window_ids(), &vec![0]);
    let win = store.window(0).unwrap();
    assert_eq!((win.pos_x(), win.pos_y(), win.width(), win.height()), (10, 20, 100, 80));
    assert_eq!(*win.shm_key(), 0xABCD);
    assert_eq!(win.com_pipe(), Some(7));
    assert!(win.pixels().iter().all(|p| *p == Pixel::from_rgba(0, 0, 0, 0xFF)));
    assert_eq!(store.focused_window(), Some(0));
    assert_eq!(
        store.take_events(),
        vec![Delivery { pipe: 7, win_id: 0, event: Event::WindowFocused }]
    );

    let damage = Request::DamageWindow(DamageWindow::new(0, 0, 0, 100, 80));
    let step = session.handle_request(&mut store, Ok(damage));
    assert_eq!(step, SessionStep::Reply(Response::Accepted(OkResponse::Success)));
    assert_eq!(
        store.damaged_regions().as_slice(),
        &[DamageRegion::new(10, 20, 100, 80), DamageRegion::new(10, 20, 100, 80)]
    );
}

#[test]
fn damage_to_an_unknown_window_is_refused() {
    let mut store = Windows::new(640, 480);
    let session = ClientSession::new(1);
    let damage = Request::DamageWindow(DamageWindow::new(3, 0, 0, 1, 1));
    let step = session.handle_request(&mut store, Ok(damage));
    assert_eq!(step, SessionStep::Reply(Response::Rejected(ResponseError::UnknownWindow)));
    assert!(!store.should_redraw());
}

#[test]
fn allocation_failures_are_fatal_errors() {
    let mut store = Windows::new(640, 480);
    let mut session = ClientSession::new(1);
    let create = CreateWindow::new(0, 10, 10, 0, 0);
    // no shared memory
    assert_eq!(
        session.window_allocated(&mut store, create, None),
        Response::Rejected(ResponseError::UnknownFatalError)
    );
    assert!(session.window_ids().is_empty());
    assert!(store.window(0).is_none());
    // no id left
    for _ in 0..1024 {
        let w = Window::new_filled_with(0, 0, 1, 1, Pixel::from_hex(0));
        store.add_window(w, WindowKind::Overlay).unwrap();
    }
    assert_eq!(
        session.window_allocated(&mut store, create, Some(5)),
        Response::Rejected(ResponseError::UnknownFatalError)
    );
    assert!(session.window_ids().is_empty());
}

#[test]
fn windows_too_large_for_memory_are_refused() {
    let mut store = Windows::new(640, 480);
    let mut session = ClientSession::new(1);
    assert!(window_fits(&CreateWindow::new(0, 100, 80, 10, 20)));
    assert!(window_fits(&CreateWindow::new(0, 0, 0, u32::MAX, u32::MAX)));
    let huge = CreateWindow::new(0, u32::MAX, u32::MAX, 0, 0);
    let fits = (u32::MAX as u128) * (u32::MAX as u128) <= usize::MAX as u128;
    assert_eq!(window_fits(&huge), fits);
    if !fits {
        let step = session.handle_request(&mut store, Ok(Request::CreateWindow(huge)));
        assert_eq!(step, SessionStep::Reply(Response::Rejected(ResponseError::UnknownFatalError)));
        assert_eq!(
            session.window_allocated(&mut store, huge, Some(1)),
            Response::Rejected(ResponseError::UnknownFatalError)
        );
    }
}

#[test]
fn malformed_packets_get_an_error_reply() {
    let mut store = Windows::new(640, 480);
    let session = ClientSession::new(1);
    let cases: [(&[u8], PacketParseErr, ResponseError); 4] = [
        (&[1, 2, 3, 4, 0, 0, 0, 0], PacketParseErr::InvalidMagic, ResponseError::InvalidMagic),
        (&[0xAD, 0xED, 0xFE, 0xBC, 9, 0, 0, 0], PacketParseErr::InvalidPacketKind, ResponseError::InvalidRequestKind),
        (&[0xAD, 0xED, 0xFE, 0xBC, 1, 0, 0, 0, 5], PacketParseErr::InvalidPacketSize, ResponseError::PacketTooShort),
        (&[], PacketParseErr::InvalidPacketSize, ResponseError::PacketTooShort),
    ];
    for (bytes, parse, reply) in cases {
        let request = receive_request(Ok(bytes));
        assert_eq!(request, Err(ReadError::ParseErr(parse)));
        assert_eq!(
            session.handle_request(&mut store, request),
            SessionStep::Reply(Response::Rejected(reply))
        );
    }
    assert_eq!(
        session.handle_request(&mut store, Err(ReadError::ParseErr(PacketParseErr::InvalidPacketData))),
        SessionStep::Reply(Response::Rejected(ResponseError::InvalidData))
    );
}

#[test]
fn a_failed_read_ends_the_session() {
    let mut store = Windows::new(640, 480);
    let session = ClientSession::new(1);
    for kind in [IoFailure::ConnectionAborted, IoFailure::ConnectionReset, IoFailure::Other] {
        let request = receive_request(Err(kind));
        assert_eq!(request, Err(ReadError::IOError(kind)));
        assert_eq!(session.handle_request(&mut store, request), SessionStep::Disconnect);
    }
    assert!(orderly_disconnect(IoFailure::ConnectionAborted));
    assert!(!orderly_disconnect(IoFailure::ConnectionReset));
    assert!(!orderly_disconnect(IoFailure::Other));
    assert!(event_dropped_silently(IoFailure::ConnectionAborted));
    assert!(event_dropped_silently(IoFailure::ConnectionReset));
    assert!(!event_dropped_silently(IoFailure::Other));
}

#[test]
fn disconnect_removes_the_windows_of_the_session() {
    let mut store = Windows::new(640, 480);
    let mut first = ClientSession::new(1);
    let mut second = ClientSession::new(2);
    let create = CreateWindow::new(0, 10, 10, 0, 0);
    first.window_allocated(&mut store, create, Some(11));
    second.window_allocated(&mut store, create, Some(12));
    first.window_allocated(&mut store, create, Some(13));
    assert_eq!(first.window_ids(), &vec![0, 2]);
    assert_eq!(second.window_ids(), &vec![1]);
    // one window is gone already
    store.remove_window(2).unwrap();

    let missing = first.disconnect(&mut store);
    assert_eq!(missing, vec![2]);
    assert!(first.window_ids().is_empty());
    assert!(store.window(0).is_none());
    assert!(store.window(2).is_none());
    assert!(store.window(1).is_some());
    assert_eq!(store.normal_windows(), vec![1]);
    // the ids are free again
    assert_eq!(
        second.window_allocated(&mut store, create, Some(14)),
        Response::Accepted(OkResponse::WindowCreated(CreateWindowResp::new(0, 14)))
    );
    assert_eq!(second.disconnect(&mut store), Vec::<u16>::new());
    assert!(store.normal_windows().is_empty());
    assert_eq!(store.focused_window(), None);
}

#[test]
fn wire_constants() {
    assert_eq!(opal_wm::CONNECT_ABSTRACT_ADDR, "opal_wm::connect");
    assert_eq!(opal_wm::com::packet::MAX_PACKET_SIZE, 256);
    assert_eq!(opal_wm::com::request::REQUEST_MAGIC, 0xBCFEEDAD);
    assert_eq!(opal_wm::com::response::RESPONSE_OK_MAGIC, 0xA1EF00DD);
    assert_eq!(opal_wm::com::response::RESPONSE_ERR_MAGIC, 0xBADF00DD);
    assert_eq!(opal_wm::com::response::RESPONSE_EVENT_MAGIC, 0xADFEEDBC);
    assert_eq!(opal_wm::ids::MAX_WINDOW_ID, 1024);
}
