use bincode::config::{Configuration, Fixint, Limit, LittleEndian};
use opal_wm::com::packet::{push_u16, push_u32, push_u64, read_u16, read_u32, read_u64};
use opal_wm::com::request::{CreateWindow, DamageWindow, Request};
use opal_wm::com::response::event::{Event, HeldMouseButtons, MouseChangeEvent, MouseEnterEvent};
use opal_wm::com::response::{CreateWindowResp, OkResponse, Response};

type Wire = Configuration<LittleEndian, Fixint, Limit<256>>;

/// The configuration of the wire: little endian, fixed width, at most 256 bytes.
fn wire() -> Wire {
    bincode::config::standard().with_fixed_int_encoding().with_limit::<256>()
}

#[test]
fn integers_are_little_endian() {
    let mut out = Vec::new();
    push_u16(&mut out, 0x0102);
    push_u32(&mut out, 0x0304_0506);
    push_u64(&mut out, 0x0708_090A_0B0C_0D0E);
    assert_eq!(out, vec![2, 1, 6, 5, 4, 3, 0x0E, 0x0D, 0x0C, 0x0B, 0x0A, 9, 8, 7]);
    assert_eq!(read_u16(&out, 0), Some(0x0102));
    assert_eq!(read_u32(&out, 2), Some(0x0304_0506));
    assert_eq!(read_u64(&out, 6), Some(0x0708_090A_0B0C_0D0E));
    assert_eq!(read_u16(&out, 13), None);
    assert_eq!(read_u32(&out, 11), None);
    assert_eq!(read_u64(&out, 7), None);
    assert_eq!(read_u64(&out, usize::MAX), None);
    assert_eq!(read_u16(&[], 0), None);
}

#[test]
fn requests_are_what_bincode_writes() {
    let mut expect = [0u8; 256];
    let len = bincode::encode_into_slice(
        (0xBCFE_EDADu32, 1u32, 7u32, 10u32, 20u32, 100u32, 80u32),
        &mut expect,
        wire(),
    )
    .unwrap();
    let (bytes, got) = Request::CreateWindow(CreateWindow::new(7, 100, 80, 10, 20)).encode();
    assert_eq!(got, len);
    assert_eq!(bytes, expect);

    let mut expect = [0u8; 256];
    let len = bincode::encode_into_slice(
        (0xBCFE_EDADu32, 2u32, 1u32, 2u32, 3u32, 4u32, 515u16, 0u16),
        &mut expect,
        wire(),
    )
    .unwrap();
    let (bytes, got) = Request::DamageWindow(DamageWindow::new(515, 1, 2, 3, 4)).encode();
    assert_eq!(got, len);
    assert_eq!(bytes, expect);
}

#[test]
fn responses_are_what_bincode_writes() {
    let mut expect = [0u8; 256];
    let len = bincode::encode_into_slice(
        (0xA1EF_00DDu32, 1u32, 0x1234_5678usize, 9u16, 0u16, 0u32),
        &mut expect,
        wire(),
    )
    .unwrap();
    let (bytes, got) =
        Response::Accepted(OkResponse::WindowCreated(CreateWindowResp::new(9, 0x1234_5678))).encode();
    assert_eq!(got, len);
    assert_eq!(bytes, expect);

    let mut expect = [0u8; 256];
    let len = bincode::encode_into_slice(
        (0xADFE_EDBCu32, 0u32, true, 5u8, 0u16, 70u32, 80u32),
        &mut expect,
        wire(),
    )
    .unwrap();
    let held = HeldMouseButtons::from_bits_retain(5);
    let (bytes, got) =
        Response::Event(Event::MouseChange(MouseChangeEvent::new(true, held, 70, 80))).encode();
    assert_eq!(got, len);
    assert_eq!(bytes, expect);
}

#[test]
fn bincode_reads_what_the_library_writes() {
    let (bytes, len) = Response::Event(Event::MouseEnter(MouseEnterEvent::new(3, 4))).encode();
    let ((magic, kind, x, y), read): ((u32, u32, u32, u32), usize) =
        bincode::decode_from_slice(&bytes[..len], wire()).unwrap();
    assert_eq!((magic, kind, x, y, read), (0xADFE_EDBC, 2, 3, 4, 16));
    // a flag that is no boolean is an error there as here
    let flag: Result<(bool, usize), _> = bincode::decode_from_slice(&[2u8], wire());
    assert!(flag.is_err());
}
