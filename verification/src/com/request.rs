//! The requests a client sends to the window manager.
//!
//! A request is the magic number, the number of its kind and the fields of
//! that kind, each a little-endian integer of fixed width.

use vstd::prelude::*;
use crate::com::packet::{
    frame, le_bytes_u16, le_bytes_u32, le_u16_at, le_u32_at, lemma_le_bytes_u16,
    lemma_le_bytes_u32, lemma_le_u16_at, lemma_le_u16_back, lemma_le_u32_at, lemma_le_u32_back, push_u16, push_u32, read_u32, u16_at,
    u32_at, PacketParseErr, MAX_PACKET_SIZE,
};

verus! {

/// The number every request starts with.
pub const REQUEST_MAGIC: u32 = 0xBCFE_EDAD;

/// The magic number of a request.
#[derive(Debug, Clone, Copy, PartialEq, Eq, Structural)]
pub struct RequestMagicNumber(pub u32);

impl RequestMagicNumber {
    /// The one magic number a request may carry.
    pub fn get() -> (magic: Self)
        ensures
            magic.0 == REQUEST_MAGIC,
    {
        Self(REQUEST_MAGIC)
    }
}

/// What stands in front of every request.
#[derive(Debug, Clone, Copy, PartialEq, Eq, Structural)]
pub struct RequestHeader {
    pub magic: RequestMagicNumber,
}

impl RequestHeader {
    /// What the first four bytes of a packet say of it as a request: too
    /// few bytes are `InvalidPacketSize`, another magic number is
    /// `InvalidMagic`.
    pub open spec fn spec_decode(bytes: Seq<u8>) -> Result<RequestHeader, PacketParseErr> {
        if bytes.len() < 4 {
            Err(PacketParseErr::InvalidPacketSize)
        } else if le_u32_at(bytes, 0) != REQUEST_MAGIC {
            Err(PacketParseErr::InvalidMagic)
        } else {
            Ok(RequestHeader { magic: RequestMagicNumber(REQUEST_MAGIC) })
        }
    }

    /// The header of every request.
    pub fn new() -> (header: Self)
        ensures
            header.magic.0 == REQUEST_MAGIC,
    {
        Self { magic: RequestMagicNumber::get() }
    }

    /// Reads the header of a request from the start of a packet.
    pub fn decode(bytes: &[u8]) -> (header: Result<RequestHeader, PacketParseErr>)
        ensures
            header == Self::spec_decode(bytes@),
    {
        match read_u32(bytes, 0) {
            None => Err(PacketParseErr::InvalidPacketSize),
            Some(magic) => {
                if magic != REQUEST_MAGIC {
                    Err(PacketParseErr::InvalidMagic)
                } else {
                    Ok(Self::new())
                }
            },
        }
    }
}

/// Asks the window manager to create a window.
#[derive(Debug, Clone, Copy, PartialEq, Eq, Structural)]
pub struct CreateWindow {
    pub flags: u32,
    pub x: u32,
    pub y: u32,
    pub width: u32,
    pub height: u32,
}

impl CreateWindow {
    /// A request for a window of `width` by `height` pixels at (`x`, `y`).
    pub fn new(flags: u32, width: u32, height: u32, x: u32, y: u32) -> (req: Self)
        ensures
            req == (CreateWindow { flags, x, y, width, height }),
    {
        Self { flags, width, height, x, y }
    }

    pub fn x(&self) -> (x: u32)
        ensures
            x == self.x,
    {
        self.x
    }

    pub fn y(&self) -> (y: u32)
        ensures
            y == self.y,
    {
        self.y
    }

    pub fn width(&self) -> (width: u32)
        ensures
            width == self.width,
    {
        self.width
    }

    pub fn height(&self) -> (height: u32)
        ensures
            height == self.height,
    {
        self.height
    }

    /// The twenty bytes of the fields: flags, x, y, width, height.
    pub open spec fn spec_bytes(self) -> Seq<u8> {
        le_bytes_u32(self.flags) + le_bytes_u32(self.x) + le_bytes_u32(self.y) + le_bytes_u32(
            self.width,
        ) + le_bytes_u32(self.height)
    }

    /// The fields read from the twenty bytes that start at `bytes[at]`.
    pub open spec fn spec_parse(bytes: Seq<u8>, at: int) -> CreateWindow {
        CreateWindow {
            flags: le_u32_at(bytes, at),
            x: le_u32_at(bytes, at + 4),
            y: le_u32_at(bytes, at + 8),
            width: le_u32_at(bytes, at + 12),
            height: le_u32_at(bytes, at + 16),
        }
    }
}

/// Asks the window manager whether it is there.
#[derive(Debug, Clone, Copy, PartialEq, Eq, Structural)]
pub struct Ping;

impl Ping {
    pub fn new() -> (ping: Self) {
        Self
    }
}

/// Tells the window manager that a rectangle of a window has new pixels and
/// should be drawn again.
#[derive(Debug, Clone, Copy, PartialEq, Eq, Structural)]
pub struct DamageWindow {
    /// X position within the window.
    pub x: u32,
    /// Y position within the window.
    pub y: u32,
    /// Width of the rectangle.
    pub width: u32,
    /// Height of the rectangle.
    pub height: u32,
    /// The id of the window.
    pub win_id: u16,
    /// Two bytes that fill the layout; written as zero.
    pub pad: u16,
}

impl DamageWindow {
    /// Damage to the rectangle of `width` by `height` pixels at
    /// (`start_x`, `start_y`) of the window `win_id`.
    pub fn new(win_id: u16, start_x: u32, start_y: u32, width: u32, height: u32) -> (req: Self)
        ensures
            req == (DamageWindow { x: start_x, y: start_y, width, height, win_id, pad: 0 }),
    {
        Self { x: start_x, y: start_y, width, height, win_id, pad: 0 }
    }

    pub fn win_id(&self) -> (id: u16)
        ensures
            id == self.win_id,
    {
        self.win_id
    }

    pub fn x(&self) -> (x: u32)
        ensures
            x == self.x,
    {
        self.x
    }

    pub fn y(&self) -> (y: u32)
        ensures
            y == self.y,
    {
        self.y
    }

    pub fn height(&self) -> (height: u32)
        ensures
            height == self.height,
    {
        self.height
    }

    pub fn width(&self) -> (width: u32)
        ensures
            width == self.width,
    {
        self.width
    }

    /// The twenty bytes of the fields: x, y, width, height, id, padding.
    pub open spec fn spec_bytes(self) -> Seq<u8> {
        le_bytes_u32(self.x) + le_bytes_u32(self.y) + le_bytes_u32(self.width) + le_bytes_u32(
            self.height,
        ) + le_bytes_u16(self.win_id) + le_bytes_u16(self.pad)
    }

    /// The fields read from the twenty bytes that start at `bytes[at]`.
    pub open spec fn spec_parse(bytes: Seq<u8>, at: int) -> DamageWindow {
        DamageWindow {
            x: le_u32_at(bytes, at),
            y: le_u32_at(bytes, at + 4),
            width: le_u32_at(bytes, at + 8),
            height: le_u32_at(bytes, at + 12),
            win_id: le_u16_at(bytes, at + 16),
            pad: le_u16_at(bytes, at + 18),
        }
    }
}

/// The kind of a request, without its fields.
#[derive(Debug, Clone, Copy, PartialEq, Eq, Structural)]
pub enum RequestKind {
    /// See [`Ping`].
    Ping,
    /// See [`CreateWindow`].
    CreateWindow,
    /// See [`DamageWindow`].
    DamageWindow,
}

impl RequestKind {
    /// The number that stands for this kind on the wire.
    pub open spec fn spec_number(self) -> u32 {
        match self {
            RequestKind::Ping => 0,
            RequestKind::CreateWindow => 1,
            RequestKind::DamageWindow => 2,
        }
    }

    /// The number of bytes that the fields of this kind take.
    pub open spec fn spec_size(self) -> nat {
        match self {
            RequestKind::Ping => 0,
            RequestKind::CreateWindow => 20,
            RequestKind::DamageWindow => 20,
        }
    }

    /// The number that stands for this kind on the wire.
    pub fn number(self) -> (n: u32)
        ensures
            n == self.spec_number(),
    {
        match self {
            RequestKind::Ping => 0,
            RequestKind::CreateWindow => 1,
            RequestKind::DamageWindow => 2,
        }
    }

    /// The number of bytes that the fields of this kind take.
    pub fn size(self) -> (n: usize)
        ensures
            n == self.spec_size(),
    {
        match self {
            RequestKind::Ping => 0,
            RequestKind::CreateWindow => 20,
            RequestKind::DamageWindow => 20,
        }
    }
}

/// A request from a client to the window manager.
#[derive(Debug, Clone, Copy, PartialEq, Eq, Structural)]
pub enum Request {
    CreateWindow(CreateWindow),
    DamageWindow(DamageWindow),
    Ping(Ping),
}

impl Request {
    /// The kind of this request.
    pub open spec fn spec_kind(self) -> RequestKind {
        match self {
            Request::CreateWindow(_) => RequestKind::CreateWindow,
            Request::DamageWindow(_) => RequestKind::DamageWindow,
            Request::Ping(_) => RequestKind::Ping,
        }
    }

    /// The bytes of the fields, without magic number and kind.
    pub open spec fn spec_payload(self) -> Seq<u8> {
        match self {
            Request::CreateWindow(r) => r.spec_bytes(),
            Request::DamageWindow(d) => d.spec_bytes(),
            Request::Ping(_) => Seq::<u8>::empty(),
        }
    }

    /// The packet: magic number, kind, fields.
    pub open spec fn spec_encode(self) -> Seq<u8> {
        le_bytes_u32(REQUEST_MAGIC) + le_bytes_u32(self.spec_kind().spec_number())
            + self.spec_payload()
    }

    /// What a packet decodes to. The fields are read in order, and the first
    /// that fails decides the error: a field that the packet is too short for
    /// is `InvalidPacketSize`, another magic number is `InvalidMagic`, an
    /// unknown kind is `InvalidPacketKind`. Bytes after the last field are
    /// ignored.
    pub open spec fn spec_decode(bytes: Seq<u8>) -> Result<Request, PacketParseErr> {
        if RequestHeader::spec_decode(bytes) is Err {
            Err(RequestHeader::spec_decode(bytes)->Err_0)
        } else if bytes.len() < 8 {
            Err(PacketParseErr::InvalidPacketSize)
        } else if le_u32_at(bytes, 4) == 0 {
            Ok(Request::Ping(Ping))
        } else if le_u32_at(bytes, 4) == 1 {
            if bytes.len() < 28 {
                Err(PacketParseErr::InvalidPacketSize)
            } else {
                Ok(Request::CreateWindow(CreateWindow::spec_parse(bytes, 8)))
            }
        } else if le_u32_at(bytes, 4) == 2 {
            if bytes.len() < 28 {
                Err(PacketParseErr::InvalidPacketSize)
            } else {
                Ok(Request::DamageWindow(DamageWindow::spec_parse(bytes, 8)))
            }
        } else {
            Err(PacketParseErr::InvalidPacketKind)
        }
    }

    /// The kind of this request.
    pub fn kind(&self) -> (kind: RequestKind)
        ensures
            kind == self.spec_kind(),
    {
        match self {
            Request::CreateWindow(_) => RequestKind::CreateWindow,
            Request::DamageWindow(_) => RequestKind::DamageWindow,
            Request::Ping(_) => RequestKind::Ping,
        }
    }

    /// The bytes of the fields of this request, and its kind.
    pub fn as_bytes(&self) -> (out: (Vec<u8>, RequestKind))
        ensures
            out.0@ == self.spec_payload(),
            out.0@.len() == out.1.spec_size(),
            out.1 == self.spec_kind(),
    {
        let mut bytes: Vec<u8> = Vec::new();
        match self {
            Request::CreateWindow(r) => {
                push_u32(&mut bytes, r.flags);
                push_u32(&mut bytes, r.x);
                push_u32(&mut bytes, r.y);
                push_u32(&mut bytes, r.width);
                push_u32(&mut bytes, r.height);
                proof {
                    assert(bytes@ =~= r.spec_bytes());
                    lemma_request_payload_len(*self);
                }
                (bytes, RequestKind::CreateWindow)
            },
            Request::DamageWindow(d) => {
                push_u32(&mut bytes, d.x);
                push_u32(&mut bytes, d.y);
                push_u32(&mut bytes, d.width);
                push_u32(&mut bytes, d.height);
                push_u16(&mut bytes, d.win_id);
                push_u16(&mut bytes, d.pad);
                proof {
                    assert(bytes@ =~= d.spec_bytes());
                    lemma_request_payload_len(*self);
                }
                (bytes, RequestKind::DamageWindow)
            },
            Request::Ping(_) => (bytes, RequestKind::Ping),
        }
    }

    /// Encodes the request into a buffer of the full packet size, and returns
    /// the buffer with the length of the packet in it.
    pub fn encode(&self) -> (out: ([u8; MAX_PACKET_SIZE], usize))
        ensures
            out.1 == self.spec_encode().len(),
            out.0@.subrange(0, out.1 as int) == self.spec_encode(),
            forall|i: int| out.1 <= i < MAX_PACKET_SIZE ==> out.0@[i] == 0,
    {
        let (payload, kind) = self.as_bytes();
        let mut bytes: Vec<u8> = Vec::new();
        proof {
            lemma_request_payload_len(*self);
        }
        push_u32(&mut bytes, RequestHeader::new().magic.0);
        push_u32(&mut bytes, kind.number());
        let mut i: usize = 0;
        while i < payload.len()
            invariant
                i <= payload@.len(),
                payload@.len() <= 20,
                bytes@ == le_bytes_u32(REQUEST_MAGIC) + le_bytes_u32(kind.spec_number())
                    + payload@.subrange(0, i as int),
            decreases payload@.len() - i,
        {
            bytes.push(payload[i]);
            assert(payload@.subrange(0, i + 1) =~= payload@.subrange(0, i as int).push(
                payload@[i as int],
            ));
            i += 1;
        }
        assert(payload@.subrange(0, i as int) =~= payload@);
        assert(bytes@ =~= self.spec_encode());
        frame(&bytes)
    }

    /// Decodes a packet into a request.
    pub fn decode(bytes: &[u8]) -> (req: Result<Request, PacketParseErr>)
        ensures
            req == Self::spec_decode(bytes@),
    {
        match RequestHeader::decode(bytes) {
            Ok(_) => {},
            Err(e) => {
                return Err(e);
            },
        }
        let kind = match read_u32(bytes, 4) {
            Some(kind) => kind,
            None => return Err(PacketParseErr::InvalidPacketSize),
        };
        if kind == 0 {
            Ok(Request::Ping(Ping))
        } else if kind == 1 {
            if bytes.len() < 28 {
                return Err(PacketParseErr::InvalidPacketSize);
            }
            Ok(
                Request::CreateWindow(
                    CreateWindow {
                        flags: u32_at(bytes, 8),
                        x: u32_at(bytes, 12),
                        y: u32_at(bytes, 16),
                        width: u32_at(bytes, 20),
                        height: u32_at(bytes, 24),
                    },
                ),
            )
        } else if kind == 2 {
            if bytes.len() < 28 {
                return Err(PacketParseErr::InvalidPacketSize);
            }
            Ok(
                Request::DamageWindow(
                    DamageWindow {
                        x: u32_at(bytes, 8),
                        y: u32_at(bytes, 12),
                        width: u32_at(bytes, 16),
                        height: u32_at(bytes, 20),
                        win_id: u16_at(bytes, 24),
                        pad: u16_at(bytes, 26),
                    },
                ),
            )
        } else {
            Err(PacketParseErr::InvalidPacketKind)
        }
    }
}

/// The fields of a request take as many bytes as its kind says.
pub proof fn lemma_request_payload_len(req: Request)
    ensures
        req.spec_payload().len() == req.spec_kind().spec_size(),
        req.spec_encode().len() == 8 + req.spec_kind().spec_size(),
{
    lemma_le_bytes_u32(REQUEST_MAGIC);
    lemma_le_bytes_u32(req.spec_kind().spec_number());
    match req {
        Request::CreateWindow(r) => {
            lemma_le_bytes_u32(r.flags);
            lemma_le_bytes_u32(r.x);
            lemma_le_bytes_u32(r.y);
            lemma_le_bytes_u32(r.width);
            lemma_le_bytes_u32(r.height);
        },
        Request::DamageWindow(d) => {
            lemma_le_bytes_u32(d.x);
            lemma_le_bytes_u32(d.y);
            lemma_le_bytes_u32(d.width);
            lemma_le_bytes_u32(d.height);
            lemma_le_bytes_u16(d.win_id);
            lemma_le_bytes_u16(d.pad);
        },
        Request::Ping(_) => {},
    }
}

/// Decoding what was encoded gives the request back, whatever bytes follow
/// the packet in the buffer.
pub proof fn lemma_request_round_trip(req: Request, tail: Seq<u8>)
    ensures
        Request::spec_decode(req.spec_encode() + tail) == Ok::<Request, PacketParseErr>(req),
{
    let all = req.spec_encode() + tail;
    let kind = req.spec_kind().spec_number();
    lemma_request_payload_len(req);
    lemma_le_bytes_u32(REQUEST_MAGIC);
    lemma_le_bytes_u32(kind);
    assert(all.subrange(0, 4) =~= le_bytes_u32(REQUEST_MAGIC));
    assert(all.subrange(4, 8) =~= le_bytes_u32(kind));
    lemma_le_u32_at(all, 0, REQUEST_MAGIC);
    lemma_le_u32_at(all, 4, kind);
    match req {
        Request::CreateWindow(r) => {
            lemma_le_bytes_u32(r.flags);
            lemma_le_bytes_u32(r.x);
            lemma_le_bytes_u32(r.y);
            lemma_le_bytes_u32(r.width);
            lemma_le_bytes_u32(r.height);
            assert(all.subrange(8, 12) =~= le_bytes_u32(r.flags));
            assert(all.subrange(12, 16) =~= le_bytes_u32(r.x));
            assert(all.subrange(16, 20) =~= le_bytes_u32(r.y));
            assert(all.subrange(20, 24) =~= le_bytes_u32(r.width));
            assert(all.subrange(24, 28) =~= le_bytes_u32(r.height));
            lemma_le_u32_at(all, 8, r.flags);
            lemma_le_u32_at(all, 12, r.x);
            lemma_le_u32_at(all, 16, r.y);
            lemma_le_u32_at(all, 20, r.width);
            lemma_le_u32_at(all, 24, r.height);
        },
        Request::DamageWindow(d) => {
            lemma_le_bytes_u32(d.x);
            lemma_le_bytes_u32(d.y);
            lemma_le_bytes_u32(d.width);
            lemma_le_bytes_u32(d.height);
            lemma_le_bytes_u16(d.win_id);
            lemma_le_bytes_u16(d.pad);
            assert(all.subrange(8, 12) =~= le_bytes_u32(d.x));
            assert(all.subrange(12, 16) =~= le_bytes_u32(d.y));
            assert(all.subrange(16, 20) =~= le_bytes_u32(d.width));
            assert(all.subrange(20, 24) =~= le_bytes_u32(d.height));
            assert(all.subrange(24, 26) =~= le_bytes_u16(d.win_id));
            assert(all.subrange(26, 28) =~= le_bytes_u16(d.pad));
            lemma_le_u32_at(all, 8, d.x);
            lemma_le_u32_at(all, 12, d.y);
            lemma_le_u32_at(all, 16, d.width);
            lemma_le_u32_at(all, 20, d.height);
            lemma_le_u16_at(all, 24, d.win_id);
            lemma_le_u16_at(all, 26, d.pad);
        },
        Request::Ping(_) => {},
    }
}

/// Every buffer decodes to a request or to one of the four parse errors,
/// and a request that a buffer decodes to is the one whose packet the buffer
/// starts with.
pub proof fn lemma_request_decode_total(bytes: Seq<u8>)
    ensures
        match Request::spec_decode(bytes) {
            Ok(req) => req.spec_encode().len() <= bytes.len() && bytes.subrange(
                0,
                req.spec_encode().len() as int,
            ) == req.spec_encode(),
            Err(e) => e == PacketParseErr::InvalidMagic || e == PacketParseErr::InvalidPacketKind
                || e == PacketParseErr::InvalidPacketSize,
        },
{
    match Request::spec_decode(bytes) {
        Ok(req) => {
            lemma_request_payload_len(req);
            lemma_le_u32_back(bytes, 0);
            lemma_le_u32_back(bytes, 4);
            match req {
                Request::CreateWindow(r) => {
                    lemma_le_u32_back(bytes, 8);
                    lemma_le_u32_back(bytes, 12);
                    lemma_le_u32_back(bytes, 16);
                    lemma_le_u32_back(bytes, 20);
                    lemma_le_u32_back(bytes, 24);
                    assert(bytes.subrange(0, 28) =~= bytes.subrange(0, 4) + bytes.subrange(4, 8)
                        + (bytes.subrange(8, 12) + bytes.subrange(12, 16) + bytes.subrange(16, 20)
                        + bytes.subrange(20, 24) + bytes.subrange(24, 28)));
                },
                Request::DamageWindow(d) => {
                    lemma_le_u32_back(bytes, 8);
                    lemma_le_u32_back(bytes, 12);
                    lemma_le_u32_back(bytes, 16);
                    lemma_le_u32_back(bytes, 20);
                    lemma_le_u16_back(bytes, 24);
                    lemma_le_u16_back(bytes, 26);
                    assert(bytes.subrange(0, 28) =~= bytes.subrange(0, 4) + bytes.subrange(4, 8)
                        + (bytes.subrange(8, 12) + bytes.subrange(12, 16) + bytes.subrange(16, 20)
                        + bytes.subrange(20, 24) + bytes.subrange(24, 26) + bytes.subrange(26, 28)));
                },
                Request::Ping(_) => {
                    assert(bytes.subrange(0, 8) =~= bytes.subrange(0, 4) + bytes.subrange(4, 8)
                        + Seq::<u8>::empty());
                },
            }
        },
        Err(_) => {},
    }
}

/// The number of bytes in a full packet behind the magic number and the
/// kind of a request.
pub const RAW_REQUEST_DATA_SIZE: usize = 248;

/// A request as a full packet: header, kind, and the fields of the request
/// in a block of data that fills the packet.
#[derive(Debug, Clone, Copy)]
pub struct RawRequest {
    pub header: RequestHeader,
    pub kind: RequestKind,
    pub data: [u8; 248],
}

/// Why a full packet is no request.
#[derive(Debug, Clone, Copy, PartialEq, Eq, Structural)]
pub enum RequestParseErr {
    InvalidMagic,
    InvalidRequestKind,
    InvalidPacketSize,
}

impl RequestKind {
    /// The kind that `number` stands for on the wire, if any.
    pub open spec fn spec_from_number(number: u32) -> Option<RequestKind> {
        if number == 0 {
            Some(RequestKind::Ping)
        } else if number == 1 {
            Some(RequestKind::CreateWindow)
        } else if number == 2 {
            Some(RequestKind::DamageWindow)
        } else {
            None
        }
    }

    /// The kind that `number` stands for on the wire, if any.
    pub fn from_number(number: u32) -> (kind: Option<RequestKind>)
        ensures
            kind == Self::spec_from_number(number),
    {
        if number == 0 {
            Some(RequestKind::Ping)
        } else if number == 1 {
            Some(RequestKind::CreateWindow)
        } else if number == 2 {
            Some(RequestKind::DamageWindow)
        } else {
            None
        }
    }
}

impl RawRequest {
    /// The request of kind `kind` whose fields stand at the start of `data`.
    pub open spec fn spec_request(kind: RequestKind, data: Seq<u8>) -> Request {
        match kind {
            RequestKind::CreateWindow => Request::CreateWindow(CreateWindow::spec_parse(data, 0)),
            RequestKind::DamageWindow => Request::DamageWindow(DamageWindow::spec_parse(data, 0)),
            RequestKind::Ping => Request::Ping(Ping),
        }
    }

    /// The 256 bytes of the packet: magic number, kind, data.
    pub open spec fn spec_bytes(self) -> Seq<u8> {
        le_bytes_u32(self.header.magic.0) + le_bytes_u32(self.kind.spec_number()) + self.data@
    }

    /// The data of a packet that may end before its 256th byte: the bytes
    /// behind the first eight, and zeroes from where the packet ends.
    pub open spec fn spec_data(bytes: Seq<u8>) -> Seq<u8> {
        Seq::new(
            248,
            |i: int|
                if 8 + i < bytes.len() {
                    bytes[8 + i]
                } else {
                    0u8
                },
        )
    }

    /// What a packet says as a full packet. The checks are those of
    /// [`Request::spec_decode`], in the same order: a packet needs its eight
    /// bytes of magic number and kind and the fields of its kind; fewer
    /// bytes are `InvalidPacketSize`, another magic number is
    /// `InvalidMagic`, an unknown kind is `InvalidRequestKind`. The data are
    /// the bytes behind the kind, filled up with zeroes; bytes behind the
    /// 256th are ignored.
    pub open spec fn spec_try_from_bytes(bytes: Seq<u8>) -> Result<(RequestKind, Seq<u8>), RequestParseErr> {
        if bytes.len() < 4 {
            Err(RequestParseErr::InvalidPacketSize)
        } else if le_u32_at(bytes, 0) != REQUEST_MAGIC {
            Err(RequestParseErr::InvalidMagic)
        } else if bytes.len() < 8 {
            Err(RequestParseErr::InvalidPacketSize)
        } else {
            match RequestKind::spec_from_number(le_u32_at(bytes, 4)) {
                Some(kind) => if bytes.len() < 8 + kind.spec_size() {
                    Err(RequestParseErr::InvalidPacketSize)
                } else {
                    Ok((kind, Self::spec_data(bytes)))
                },
                None => Err(RequestParseErr::InvalidRequestKind),
            }
        }
    }

    /// The full packet of `req`: its fields at the start of the data, zeroes
    /// behind them.
    pub fn new_valid(req: Request) -> (raw: Self)
        ensures
            raw.header.magic.0 == REQUEST_MAGIC,
            raw.kind == req.spec_kind(),
            raw.data@.subrange(0, req.spec_payload().len() as int) == req.spec_payload(),
            forall|i: int| req.spec_payload().len() <= i < 248 ==> raw.data@[i] == 0,
            Self::spec_request(raw.kind, raw.data@) == req,
    {
        let mut data = [0u8; 248];
        let (req_bytes, kind) = req.as_bytes();
        proof {
            lemma_request_payload_len(req);
        }
        let mut i: usize = 0;
        while i < req_bytes.len()
            invariant
                i <= req_bytes@.len(),
                req_bytes@.len() <= 20,
                forall|j: int| 0 <= j < i ==> data@[j] == req_bytes@[j],
                forall|j: int| i <= j < 248 ==> data@[j] == 0,
            decreases req_bytes@.len() - i,
        {
            data[i] = req_bytes[i];
            i += 1;
        }
        proof {
            assert(data@.subrange(0, req_bytes@.len() as int) =~= req_bytes@);
            lemma_raw_request_holds(req, data@);
        }
        Self { header: RequestHeader::new(), kind, data }
    }

    /// The 256 bytes of the packet.
    pub fn as_bytes(&self) -> (bytes: Vec<u8>)
        ensures
            bytes@ == self.spec_bytes(),
    {
        let mut bytes: Vec<u8> = Vec::new();
        push_u32(&mut bytes, self.header.magic.0);
        push_u32(&mut bytes, self.kind.number());
        let mut i: usize = 0;
        while i < 248
            invariant
                i <= 248,
                bytes@ == le_bytes_u32(self.header.magic.0) + le_bytes_u32(self.kind.spec_number())
                    + self.data@.subrange(0, i as int),
            decreases 248 - i,
        {
            bytes.push(self.data[i]);
            assert(self.data@.subrange(0, i + 1) =~= self.data@.subrange(0, i as int).push(
                self.data@[i as int],
            ));
            i += 1;
        }
        assert(self.data@.subrange(0, 248) =~= self.data@);
        bytes
    }

    /// The request that the packet holds.
    pub fn into_request(self) -> (req: Request)
        ensures
            req == Self::spec_request(self.kind, self.data@),
    {
        let data = self.data.as_slice();
        match self.kind {
            RequestKind::CreateWindow => Request::CreateWindow(
                CreateWindow {
                    flags: u32_at(data, 0),
                    x: u32_at(data, 4),
                    y: u32_at(data, 8),
                    width: u32_at(data, 12),
                    height: u32_at(data, 16),
                },
            ),
            RequestKind::DamageWindow => Request::DamageWindow(
                DamageWindow {
                    x: u32_at(data, 0),
                    y: u32_at(data, 4),
                    width: u32_at(data, 8),
                    height: u32_at(data, 12),
                    win_id: u16_at(data, 16),
                    pad: u16_at(data, 18),
                },
            ),
            RequestKind::Ping => Request::Ping(Ping),
        }
    }

    /// Reads a full packet from a packet of at most 256 bytes: the bytes
    /// that the packet does not hold are taken as zero.
    pub fn try_from_bytes(bytes: &[u8]) -> (raw: Result<Self, RequestParseErr>)
        ensures
            match Self::spec_try_from_bytes(bytes@) {
                Ok((kind, data)) => raw is Ok && raw.unwrap().kind == kind && raw.unwrap().data@
                    == data && raw.unwrap().header.magic.0 == REQUEST_MAGIC,
                Err(e) => raw is Err && raw->Err_0 == e,
            },
    {
        let len = bytes.len();
        if len < 4 {
            return Err(RequestParseErr::InvalidPacketSize);
        }
        if u32_at(bytes, 0) != REQUEST_MAGIC {
            return Err(RequestParseErr::InvalidMagic);
        }
        if len < 8 {
            return Err(RequestParseErr::InvalidPacketSize);
        }
        let kind = match RequestKind::from_number(u32_at(bytes, 4)) {
            Some(kind) => kind,
            None => {
                return Err(RequestParseErr::InvalidRequestKind);
            },
        };
        if len < 8 + kind.size() {
            return Err(RequestParseErr::InvalidPacketSize);
        }
        let mut data = [0u8; 248];
        let mut i: usize = 0;
        while i < 248
            invariant
                i <= 248,
                len == bytes@.len(),
                len >= 8,
                forall|j: int| 0 <= j < i ==> data@[j] == Self::spec_data(bytes@)[j],
            decreases 248 - i,
        {
            if i < len - 8 {
                data[i] = bytes[8 + i];
            } else {
                data[i] = 0;
            }
            i += 1;
        }
        assert(data@ =~= Self::spec_data(bytes@));
        Ok(Self { header: RequestHeader::new(), kind, data })
    }
}

/// A block of data that starts with the fields of a request holds the
/// request.
pub proof fn lemma_raw_request_holds(req: Request, data: Seq<u8>)
    requires
        req.spec_payload().len() <= data.len(),
        data.subrange(0, req.spec_payload().len() as int) == req.spec_payload(),
    ensures
        RawRequest::spec_request(req.spec_kind(), data) == req,
{
    lemma_request_payload_len(req);
    match req {
        Request::CreateWindow(r) => {
            lemma_le_bytes_u32(r.flags);
            lemma_le_bytes_u32(r.x);
            lemma_le_bytes_u32(r.y);
            lemma_le_bytes_u32(r.width);
            lemma_le_bytes_u32(r.height);
            let part = data.subrange(0, 20);
            assert(data.subrange(0, 4) =~= part.subrange(0, 4));
            assert(data.subrange(4, 8) =~= part.subrange(4, 8));
            assert(data.subrange(8, 12) =~= part.subrange(8, 12));
            assert(data.subrange(12, 16) =~= part.subrange(12, 16));
            assert(data.subrange(16, 20) =~= part.subrange(16, 20));
            assert(part.subrange(0, 4) =~= le_bytes_u32(r.flags));
            assert(part.subrange(4, 8) =~= le_bytes_u32(r.x));
            assert(part.subrange(8, 12) =~= le_bytes_u32(r.y));
            assert(part.subrange(12, 16) =~= le_bytes_u32(r.width));
            assert(part.subrange(16, 20) =~= le_bytes_u32(r.height));
            lemma_le_u32_at(data, 0, r.flags);
            lemma_le_u32_at(data, 4, r.x);
            lemma_le_u32_at(data, 8, r.y);
            lemma_le_u32_at(data, 12, r.width);
            lemma_le_u32_at(data, 16, r.height);
        },
        Request::DamageWindow(d) => {
            lemma_le_bytes_u32(d.x);
            lemma_le_bytes_u32(d.y);
            lemma_le_bytes_u32(d.width);
            lemma_le_bytes_u32(d.height);
            lemma_le_bytes_u16(d.win_id);
            lemma_le_bytes_u16(d.pad);
            let part = data.subrange(0, 20);
            assert(data.subrange(0, 4) =~= part.subrange(0, 4));
            assert(data.subrange(4, 8) =~= part.subrange(4, 8));
            assert(data.subrange(8, 12) =~= part.subrange(8, 12));
            assert(data.subrange(12, 16) =~= part.subrange(12, 16));
            assert(data.subrange(16, 18) =~= part.subrange(16, 18));
            assert(data.subrange(18, 20) =~= part.subrange(18, 20));
            assert(part.subrange(0, 4) =~= le_bytes_u32(d.x));
            assert(part.subrange(4, 8) =~= le_bytes_u32(d.y));
            assert(part.subrange(8, 12) =~= le_bytes_u32(d.width));
            assert(part.subrange(12, 16) =~= le_bytes_u32(d.height));
            assert(part.subrange(16, 18) =~= le_bytes_u16(d.win_id));
            assert(part.subrange(18, 20) =~= le_bytes_u16(d.pad));
            lemma_le_u32_at(data, 0, d.x);
            lemma_le_u32_at(data, 4, d.y);
            lemma_le_u32_at(data, 8, d.width);
            lemma_le_u32_at(data, 12, d.height);
            lemma_le_u16_at(data, 16, d.win_id);
            lemma_le_u16_at(data, 18, d.pad);
        },
        Request::Ping(_) => {},
    }
}

/// A full packet reads back from its bytes as it was.
pub proof fn lemma_raw_request_round_trip(raw: RawRequest)
    requires
        raw.header.magic.0 == REQUEST_MAGIC,
    ensures
        RawRequest::spec_try_from_bytes(raw.spec_bytes()) == Ok::<
            (RequestKind, Seq<u8>),
            RequestParseErr,
        >((raw.kind, raw.data@)),
        raw.spec_bytes().len() == MAX_PACKET_SIZE,
{
    let all = raw.spec_bytes();
    lemma_le_bytes_u32(REQUEST_MAGIC);
    lemma_le_bytes_u32(raw.kind.spec_number());
    assert(all.subrange(0, 4) =~= le_bytes_u32(REQUEST_MAGIC));
    assert(all.subrange(4, 8) =~= le_bytes_u32(raw.kind.spec_number()));
    lemma_le_u32_at(all, 0, REQUEST_MAGIC);
    lemma_le_u32_at(all, 4, raw.kind.spec_number());
    assert(RawRequest::spec_data(all) =~= raw.data@);
}

/// The two readers of requests agree: a packet that reads as a full packet
/// decodes to the request that the full packet holds, and a packet that
/// does not fails to decode for the same reason.
pub proof fn lemma_raw_request_agrees(bytes: Seq<u8>)
    ensures
        match RawRequest::spec_try_from_bytes(bytes) {
            Ok((kind, data)) => Request::spec_decode(bytes) == Ok::<Request, PacketParseErr>(
                RawRequest::spec_request(kind, data),
            ),
            Err(RequestParseErr::InvalidMagic) => Request::spec_decode(bytes) == Err::<
                Request,
                PacketParseErr,
            >(PacketParseErr::InvalidMagic),
            Err(RequestParseErr::InvalidRequestKind) => Request::spec_decode(bytes) == Err::<
                Request,
                PacketParseErr,
            >(PacketParseErr::InvalidPacketKind),
            Err(RequestParseErr::InvalidPacketSize) => Request::spec_decode(bytes) == Err::<
                Request,
                PacketParseErr,
            >(PacketParseErr::InvalidPacketSize),
        },
{
}

} // verus!
