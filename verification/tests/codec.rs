use opal_wm::com::packet::{PacketParseErr, MAX_PACKET_SIZE};
use opal_wm::com::request::{
    CreateWindow, DamageWindow, Ping, RawRequest, Request, RequestHeader, RequestKind,
    RequestMagicNumber, RequestParseErr,
};
use opal_wm::com::response::error::ResponseError;
use opal_wm::com::response::event::{
    Event, HeldMouseButtons, MouseChangeEvent, MouseEnterEvent, MouseLeaveEvent,
};
use opal_wm::com::response::{CreateWindowResp, OkResponse, Response};

#[test]
fn ping_request_is_magic_and_kind_zero() {
    let (bytes, len) = Request::Ping(Ping::new()).encode();
    assert_eq!(len, 8);
    assert_eq!(&bytes[..8], &[0xAD, 0xED, 0xFE, 0xBC, 0, 0, 0, 0]);
    assert!(bytes[8..].iter().all(|b| *b == 0));
    assert_eq!(bytes.len(), MAX_PACKET_SIZE);
}

#[test]
fn ping_reply_is_ok_magic_and_success() {
    let request = Request::decode(&[0xAD, 0xED, 0xFE, 0xBC, 0, 0, 0, 0]);
    assert_eq!(request, Ok(Request::Ping(Ping::new())));
    let (bytes, len) = Response::Accepted(OkResponse::Success).encode();
    assert_eq!(len, 8);
    assert_eq!(&bytes[..8], &[0xDD, 0x00, 0xEF, 0xA1, 0, 0, 0, 0]);
    assert!(bytes[8..].iter().all(|b| *b == 0));
}

#[test]
fn create_window_layout() {
    let (bytes, len) = Request::CreateWindow(CreateWindow::new(7, 100, 80, 10, 20)).encode();
    assert_eq!(len, 28);
    assert_eq!(
        &bytes[..28],
        &[
            0xAD, 0xED, 0xFE, 0xBC, 1, 0, 0, 0, 7, 0, 0, 0, 10, 0, 0, 0, 20, 0, 0, 0, 100, 0, 0,
            0, 80, 0, 0, 0
        ]
    );
}

#[test]
fn damage_window_layout() {
    let (bytes, len) =
        Request::DamageWindow(DamageWindow::new(0x0102, 1, 2, 0x0A0B0C0D, 4)).encode();
    assert_eq!(len, 28);
    assert_eq!(
        &bytes[..28],
        &[
            0xAD, 0xED, 0xFE, 0xBC, 2, 0, 0, 0, 1, 0, 0, 0, 2, 0, 0, 0, 0x0D, 0x0C, 0x0B, 0x0A,
            4, 0, 0, 0, 0x02, 0x01, 0, 0
        ]
    );
}

#[test]
fn requests_round_trip() {
    let all = [
        Request::Ping(Ping::new()),
        Request::CreateWindow(CreateWindow::new(0, 100, 80, 10, 20)),
        Request::CreateWindow(CreateWindow::new(u32::MAX, u32::MAX, 0, 1, 0xDEADBEEF)),
        Request::DamageWindow(DamageWindow::new(1023, 0, 0, 100, 80)),
        Request::DamageWindow(DamageWindow::new(u16::MAX, u32::MAX, 5, 6, 7)),
    ];
    for request in all {
        let (bytes, len) = request.encode();
        assert_eq!(Request::decode(&bytes[..len]), Ok(request));
        assert_eq!(Request::decode(&bytes), Ok(request));
    }
}

#[test]
fn responses_round_trip() {
    let mut held = HeldMouseButtons::empty();
    held.insert(HeldMouseButtons::left());
    held.insert(HeldMouseButtons::right());
    let all = [
        Response::Accepted(OkResponse::Success),
        Response::Accepted(OkResponse::WindowCreated(CreateWindowResp::new(17, 0x1234_5678))),
        Response::Rejected(ResponseError::InvalidMagic),
        Response::Rejected(ResponseError::InvalidRequestKind),
        Response::Rejected(ResponseError::PacketTooShort),
        Response::Rejected(ResponseError::InvalidData),
        Response::Rejected(ResponseError::UnknownFatalError),
        Response::Rejected(ResponseError::UnknownWindow),
        Response::Event(Event::MouseChange(MouseChangeEvent::new(true, held, 3, 4))),
        Response::Event(Event::MouseChange(MouseChangeEvent::new(
            false,
            HeldMouseButtons::from_bits_retain(0xF0),
            u32::MAX,
            0,
        ))),
        Response::Event(Event::MouseLeave(MouseLeaveEvent::new())),
        Response::Event(Event::MouseEnter(MouseEnterEvent::new(9, 8))),
        Response::Event(Event::WindowFocused),
        Response::Event(Event::WindowUnfocused),
    ];
    for response in all {
        let (bytes, len) = response.encode();
        assert_eq!(Response::decode(&bytes[..len]), Ok(response));
        assert_eq!(Response::decode(&bytes), Ok(response));
    }
}

#[test]
fn window_created_layout() {
    let (bytes, len) =
        Response::Accepted(OkResponse::WindowCreated(CreateWindowResp::new(0x0305, 0x0908_0706)))
            .encode();
    assert_eq!(len, 24);
    assert_eq!(
        &bytes[..24],
        &[
            0xDD, 0x00, 0xEF, 0xA1, 1, 0, 0, 0, 0x06, 0x07, 0x08, 0x09, 0, 0, 0, 0, 0x05, 0x03,
            0, 0, 0, 0, 0, 0
        ]
    );
}

#[test]
fn error_and_event_layout() {
    let (bytes, len) = Response::Rejected(ResponseError::UnknownWindow).encode();
    assert_eq!(len, 8);
    assert_eq!(&bytes[..8], &[0xDD, 0x00, 0xDF, 0xBA, 5, 0, 0, 0]);

    let (bytes, len) = Response::Event(Event::MouseChange(MouseChangeEvent::new(
        true,
        HeldMouseButtons::middle(),
        0x0102,
        0x0304,
    )))
    .encode();
    assert_eq!(len, 20);
    assert_eq!(
        &bytes[..20],
        &[0xBC, 0xED, 0xFE, 0xAD, 0, 0, 0, 0, 1, 2, 0, 0, 0x02, 0x01, 0, 0, 0x04, 0x03, 0, 0]
    );

    let (bytes, len) = Response::Event(Event::MouseEnter(MouseEnterEvent::new(1, 2))).encode();
    assert_eq!(len, 16);
    assert_eq!(&bytes[..16], &[0xBC, 0xED, 0xFE, 0xAD, 2, 0, 0, 0, 1, 0, 0, 0, 2, 0, 0, 0]);

    let (bytes, len) = Response::Event(Event::WindowUnfocused).encode();
    assert_eq!(len, 8);
    assert_eq!(&bytes[..8], &[0xBC, 0xED, 0xFE, 0xAD, 4, 0, 0, 0]);
}

#[test]
fn request_decode_errors() {
    assert_eq!(Request::decode(&[]), Err(PacketParseErr::InvalidPacketSize));
    assert_eq!(Request::decode(&[0xAD, 0xED, 0xFE]), Err(PacketParseErr::InvalidPacketSize));
    assert_eq!(Request::decode(&[0xAD, 0xED, 0xFE, 0xBD]), Err(PacketParseErr::InvalidMagic));
    assert_eq!(Request::decode(&[0u8; 256]), Err(PacketParseErr::InvalidMagic));
    assert_eq!(
        Request::decode(&[0xAD, 0xED, 0xFE, 0xBC, 0, 0]),
        Err(PacketParseErr::InvalidPacketSize)
    );
    assert_eq!(
        Request::decode(&[0xAD, 0xED, 0xFE, 0xBC, 3, 0, 0, 0]),
        Err(PacketParseErr::InvalidPacketKind)
    );
    assert_eq!(
        Request::decode(&[0xAD, 0xED, 0xFE, 0xBC, 0, 1, 0, 0]),
        Err(PacketParseErr::InvalidPacketKind)
    );
    let (bytes, len) = Request::CreateWindow(CreateWindow::new(0, 1, 2, 3, 4)).encode();
    assert_eq!(Request::decode(&bytes[..len - 1]), Err(PacketParseErr::InvalidPacketSize));
    let (bytes, len) = Request::DamageWindow(DamageWindow::new(0, 1, 2, 3, 4)).encode();
    assert_eq!(Request::decode(&bytes[..len - 1]), Err(PacketParseErr::InvalidPacketSize));
}

#[test]
fn response_decode_errors() {
    assert_eq!(Response::decode(&[0xDD, 0x00]), Err(PacketParseErr::InvalidPacketSize));
    assert_eq!(
        Response::decode(&[0xAD, 0xED, 0xFE, 0xBC, 0, 0, 0, 0]),
        Err(PacketParseErr::InvalidMagic)
    );
    assert_eq!(
        Response::decode(&[0xDD, 0x00, 0xEF, 0xA1, 2, 0, 0, 0]),
        Err(PacketParseErr::InvalidPacketKind)
    );
    assert_eq!(
        Response::decode(&[0xDD, 0x00, 0xDF, 0xBA, 6, 0, 0, 0]),
        Err(PacketParseErr::InvalidPacketKind)
    );
    assert_eq!(
        Response::decode(&[0xBC, 0xED, 0xFE, 0xAD, 5, 0, 0, 0]),
        Err(PacketParseErr::InvalidPacketKind)
    );
    // a flag that is neither 0 nor 1
    let mut change = [0xBC, 0xED, 0xFE, 0xAD, 0, 0, 0, 0, 2, 0, 0, 0, 0, 0, 0, 0, 0, 0, 0, 0];
    assert_eq!(Response::decode(&change), Err(PacketParseErr::InvalidPacketData));
    change[8] = 1;
    assert_eq!(Response::decode(&change[..19]), Err(PacketParseErr::InvalidPacketSize));
    assert!(Response::decode(&change).is_ok());
    let created = [0xDD, 0x00, 0xEF, 0xA1, 1, 0, 0, 0, 1, 2, 3, 4];
    assert_eq!(Response::decode(&created), Err(PacketParseErr::InvalidPacketSize));
}

#[test]
fn parse_errors_map_to_replies() {
    assert_eq!(ResponseError::from(PacketParseErr::InvalidMagic), ResponseError::InvalidMagic);
    assert_eq!(
        ResponseError::from(PacketParseErr::InvalidPacketSize),
        ResponseError::PacketTooShort
    );
    assert_eq!(
        ResponseError::from(PacketParseErr::InvalidPacketKind),
        ResponseError::InvalidRequestKind
    );
    assert_eq!(ResponseError::from(PacketParseErr::InvalidPacketData), ResponseError::InvalidData);
}

#[test]
fn any_buffer_decodes_or_fails_cleanly() {
    let mut seed: u32 = 0x1234_5678;
    for round in 0..2000 {
        let mut buffer = [0u8; 256];
        for byte in buffer.iter_mut() {
            seed = seed.wrapping_mul(1_664_525).wrapping_add(1_013_904_223);
            *byte = (seed >> 24) as u8;
        }
        if round % 2 == 0 {
            buffer[..4].copy_from_slice(&[0xAD, 0xED, 0xFE, 0xBC]);
            buffer[4] %= 4;
            buffer[5] = 0;
            buffer[6] = 0;
            buffer[7] = 0;
        }
        match Request::decode(&buffer) {
            Ok(request) => {
                let (bytes, len) = request.encode();
                assert_eq!(&bytes[..len], &buffer[..len]);
            }
            Err(e) => {
                let reply = ResponseError::from(e);
                assert!(matches!(
                    reply,
                    ResponseError::InvalidMagic
                        | ResponseError::InvalidRequestKind
                        | ResponseError::PacketTooShort
                        | ResponseError::InvalidData
                ));
            }
        }
    }
}

#[test]
fn held_buttons_bits() {
    let mut held = HeldMouseButtons::empty();
    assert_eq!(held.bits(), 0);
    assert!(!held.contains(HeldMouseButtons::left()));
    held.insert(HeldMouseButtons::left());
    held.insert(HeldMouseButtons::right());
    assert_eq!(held.bits(), 5);
    assert!(held.contains(HeldMouseButtons::left()));
    assert!(!held.contains(HeldMouseButtons::middle()));
    assert!(held.contains(HeldMouseButtons::right()));
    assert_eq!(HeldMouseButtons::left().bits(), 1);
    assert_eq!(HeldMouseButtons::middle().bits(), 2);
    assert_eq!(HeldMouseButtons::right().bits(), 4);
}

#[test]
fn mouse_change_accessors() {
    let event = MouseChangeEvent::new(true, HeldMouseButtons::left(), 11, 12);
    assert!(event.buttons_changed());
    assert_eq!(event.held_buttons(), HeldMouseButtons::left());
    assert_eq!(event.buttons_change(), Some(HeldMouseButtons::left()));
    assert_eq!(event.x(), 11);
    assert_eq!(event.y(), 12);
    let still = MouseChangeEvent::new(false, HeldMouseButtons::left(), 1, 2);
    assert_eq!(still.buttons_change(), None);
    let enter = MouseEnterEvent::new(5, 6);
    assert_eq!((enter.x(), enter.y()), (5, 6));
}

#[test]
fn full_packets() {
    let request = Request::DamageWindow(DamageWindow::new(7, 1, 2, 3, 4));
    let raw = RawRequest::new_valid(request);
    assert_eq!(raw.kind, RequestKind::DamageWindow);
    assert_eq!(raw.header, RequestHeader::new());
    assert_eq!(raw.header.magic, RequestMagicNumber::get());
    assert_eq!(&raw.data[..20], &[1, 0, 0, 0, 2, 0, 0, 0, 3, 0, 0, 0, 4, 0, 0, 0, 7, 0, 0, 0]);
    assert!(raw.data[20..].iter().all(|b| *b == 0));
    assert_eq!(raw.into_request(), request);
    let bytes = raw.as_bytes();
    assert_eq!(bytes.len(), 256);
    assert_eq!(bytes.as_slice(), &request.encode().0);
    let back = RawRequest::try_from_bytes(&bytes).unwrap();
    assert_eq!(back.kind, raw.kind);
    assert_eq!(back.data, raw.data);
    assert_eq!(back.into_request(), request);
    for request in [Request::Ping(Ping::new()), Request::CreateWindow(CreateWindow::new(9, 8, 7, 6, 5))] {
        let raw = RawRequest::new_valid(request);
        assert_eq!(raw.kind, request.kind());
        assert_eq!(RawRequest::try_from_bytes(&raw.as_bytes()).unwrap().into_request(), request);
    }
    assert_eq!((RequestKind::Ping.size(), RequestKind::CreateWindow.size(), RequestKind::DamageWindow.size()), (0, 20, 20));
    assert_eq!(request.as_bytes().0, raw.data[..20].to_vec());
}

#[test]
fn short_packets_are_full_packets_with_zeroes() {
    // the ping of eight bytes
    let raw = RawRequest::try_from_bytes(&[0xAD, 0xED, 0xFE, 0xBC, 0, 0, 0, 0]).unwrap();
    assert_eq!(raw.kind, RequestKind::Ping);
    assert_eq!(raw.data, [0u8; 248]);
    assert_eq!(raw.into_request(), Request::Ping(Ping::new()));
    // a packet that ends with its last field, and one with bytes behind it
    for request in [
        Request::Ping(Ping::new()),
        Request::CreateWindow(CreateWindow::new(9, 8, 7, 6, 5)),
        Request::DamageWindow(DamageWindow::new(1023, 1, 2, 3, 4)),
    ] {
        let (bytes, len) = request.encode();
        for end in [len, len + 1, 100, 255, 256] {
            let raw = RawRequest::try_from_bytes(&bytes[..end]).unwrap();
            assert_eq!(raw.kind, request.kind());
            assert_eq!(&raw.data[..], &bytes[8..]);
            assert_eq!(raw.into_request(), request);
            assert_eq!(Request::decode(&bytes[..end]), Ok(request));
        }
    }
    // what is behind the 256th byte is ignored, what is behind the fields is kept
    let mut long = vec![0xAD, 0xED, 0xFE, 0xBC, 0, 0, 0, 0, 5, 6];
    long.resize(300, 9);
    let raw = RawRequest::try_from_bytes(&long).unwrap();
    assert_eq!(&raw.data[..3], &[5, 6, 9]);
    assert_eq!(raw.data[247], 9);
}

#[test]
fn both_readers_agree() {
    let mut seed: u32 = 77;
    for round in 0..3000 {
        let mut buffer = [0u8; 40];
        for byte in buffer.iter_mut() {
            seed = seed.wrapping_mul(1_664_525).wrapping_add(1_013_904_223);
            *byte = (seed >> 24) as u8;
        }
        if round % 4 != 0 {
            buffer[..4].copy_from_slice(&[0xAD, 0xED, 0xFE, 0xBC]);
            buffer[4] %= 4;
            buffer[5] = 0;
            buffer[6] = 0;
            buffer[7] = 0;
        }
        let len = (seed >> 8) as usize % 41;
        let packet = &buffer[..len];
        match (RawRequest::try_from_bytes(packet), Request::decode(packet)) {
            (Ok(raw), Ok(request)) => assert_eq!(raw.into_request(), request),
            (Err(RequestParseErr::InvalidMagic), Err(PacketParseErr::InvalidMagic)) => {}
            (Err(RequestParseErr::InvalidRequestKind), Err(PacketParseErr::InvalidPacketKind)) => {}
            (Err(RequestParseErr::InvalidPacketSize), Err(PacketParseErr::InvalidPacketSize)) => {}
            (raw, request) => panic!("{:?} and {:?} for {:?}", raw.map(|r| r.kind), request, packet),
        }
    }
}

#[test]
fn full_packet_errors() {
    let good = RawRequest::new_valid(Request::Ping(Ping::new())).as_bytes();
    assert_eq!(RawRequest::try_from_bytes(&[]).err(), Some(RequestParseErr::InvalidPacketSize));
    assert_eq!(RawRequest::try_from_bytes(&good[..3]).err(), Some(RequestParseErr::InvalidPacketSize));
    assert_eq!(RawRequest::try_from_bytes(&good[..7]).err(), Some(RequestParseErr::InvalidPacketSize));
    // the fields of the kind have to be there
    let create = Request::CreateWindow(CreateWindow::new(1, 2, 3, 4, 5)).encode().0;
    assert_eq!(RawRequest::try_from_bytes(&create[..27]).err(), Some(RequestParseErr::InvalidPacketSize));
    assert_eq!(RawRequest::try_from_bytes(&create[..8]).err(), Some(RequestParseErr::InvalidPacketSize));
    let damage = Request::DamageWindow(DamageWindow::new(1, 2, 3, 4, 5)).encode().0;
    assert_eq!(RawRequest::try_from_bytes(&damage[..27]).err(), Some(RequestParseErr::InvalidPacketSize));
    // the magic number is looked at before the kind, the kind before the fields
    assert_eq!(RawRequest::try_from_bytes(&[1, 2, 3, 4]).err(), Some(RequestParseErr::InvalidMagic));
    assert_eq!(
        RawRequest::try_from_bytes(&[0xAD, 0xED, 0xFE, 0xBC, 9, 0, 0, 0]).err(),
        Some(RequestParseErr::InvalidRequestKind)
    );
    let mut magic = good.clone();
    magic[3] = 0;
    assert_eq!(RawRequest::try_from_bytes(&magic).err(), Some(RequestParseErr::InvalidMagic));
    let mut kind = good.clone();
    kind[4] = 3;
    assert_eq!(RawRequest::try_from_bytes(&kind).err(), Some(RequestParseErr::InvalidRequestKind));
    assert_eq!(ResponseError::from(RequestParseErr::InvalidMagic), ResponseError::InvalidMagic);
    assert_eq!(ResponseError::from(RequestParseErr::InvalidPacketSize), ResponseError::PacketTooShort);
    assert_eq!(ResponseError::from(RequestParseErr::InvalidRequestKind), ResponseError::InvalidRequestKind);
}
