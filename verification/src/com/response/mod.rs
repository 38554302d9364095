//! The responses the window manager sends: a reply to a request, or an
//! event.
//!
//! A response is one of three magic numbers, the number of its kind and the
//! fields of that kind, each a little-endian integer of fixed width.

use vstd::prelude::*;
use crate::com::packet::{
    frame, le_bytes_u16, le_bytes_u32, le_bytes_u64, le_u16_at, le_u32_at, le_u64_at,
    lemma_le_bytes_u16, lemma_le_bytes_u32, lemma_le_bytes_u64, lemma_le_u16_at, lemma_le_u32_at,
    lemma_le_u16_back, lemma_le_u32_back, lemma_le_u64_at, lemma_le_u64_back, push_u16, push_u32,
    push_u64, read_u32, u16_at, u32_at, u64_at,
    PacketParseErr, MAX_PACKET_SIZE,
};
use crate::com::response::error::ResponseError;
use crate::com::response::event::Event;

/// Possible response errors.
pub mod error;
/// Events delivered to the owner of a window.
pub mod event;

verus! {

/// The number a successful reply starts with.
pub const RESPONSE_OK_MAGIC: u32 = 0xA1EF_00DD;

/// The number a failed reply starts with.
pub const RESPONSE_ERR_MAGIC: u32 = 0xBADF_00DD;

/// The number an event starts with.
pub const RESPONSE_EVENT_MAGIC: u32 = 0xADFE_EDBC;

/// The reply to a request for a new window.
#[derive(Debug, Clone, Copy, PartialEq, Eq, Structural)]
pub struct CreateWindowResp {
    /// The key of the shared memory that holds the pixels of the window.
    pub shm_key: usize,
    /// The id of the window.
    pub win_id: u16,
    /// Two bytes that fill the layout; written as zero.
    pub pad0: u16,
    /// Four bytes that fill the layout; written as zero.
    pub pad1: u32,
}

impl CreateWindowResp {
    /// The id of the created window.
    pub fn window_id(&self) -> (id: u16)
        ensures
            id == self.win_id,
    {
        self.win_id
    }

    /// The key of the shared memory that holds the pixels of the window.
    pub fn shm_key(&self) -> (key: usize)
        ensures
            key == self.shm_key,
    {
        self.shm_key
    }

    pub fn new(win_id: u16, shm_key: usize) -> (resp: Self)
        ensures
            resp == (CreateWindowResp { shm_key, win_id, pad0: 0, pad1: 0 }),
    {
        Self { win_id, shm_key, pad0: 0, pad1: 0 }
    }

    /// The sixteen bytes of the fields: key, id, padding.
    pub open spec fn spec_bytes(self) -> Seq<u8> {
        le_bytes_u64(self.shm_key as u64) + le_bytes_u16(self.win_id) + le_bytes_u16(self.pad0)
            + le_bytes_u32(self.pad1)
    }
}

/// The kind of a successful reply, without its fields.
#[derive(Debug, Clone, Copy, PartialEq, Eq, Structural)]
pub enum OkResponseKind {
    Success,
    /// See [`CreateWindowResp`].
    WindowCreated,
}

impl OkResponseKind {
    /// The number of bytes that the fields of this kind take.
    pub open spec fn spec_size(self) -> nat {
        match self {
            OkResponseKind::Success => 0,
            OkResponseKind::WindowCreated => 16,
        }
    }

    /// The number that stands for this kind on the wire.
    pub open spec fn spec_number(self) -> u32 {
        match self {
            OkResponseKind::Success => 0,
            OkResponseKind::WindowCreated => 1,
        }
    }

    /// The number of bytes that the fields of this kind take.
    pub fn size(&self) -> (n: usize)
        ensures
            n == self.spec_size(),
    {
        match self {
            OkResponseKind::Success => 0,
            OkResponseKind::WindowCreated => 16,
        }
    }

    /// The number that stands for this kind on the wire.
    pub fn number(&self) -> (n: u32)
        ensures
            n == self.spec_number(),
    {
        match self {
            OkResponseKind::Success => 0,
            OkResponseKind::WindowCreated => 1,
        }
    }
}

/// A successful reply to a request.
#[derive(Debug, Clone, Copy, PartialEq, Eq, Structural)]
pub enum OkResponse {
    Success,
    WindowCreated(CreateWindowResp),
}

impl OkResponse {
    /// The kind of this reply.
    pub open spec fn spec_kind(self) -> OkResponseKind {
        match self {
            OkResponse::Success => OkResponseKind::Success,
            OkResponse::WindowCreated(_) => OkResponseKind::WindowCreated,
        }
    }

    /// The bytes of the fields of this reply.
    pub open spec fn spec_payload(self) -> Seq<u8> {
        match self {
            OkResponse::Success => Seq::<u8>::empty(),
            OkResponse::WindowCreated(w) => w.spec_bytes(),
        }
    }

    /// The reply of kind `number` whose fields start at `bytes[8]`. A key
    /// that does not fit the machine's word is `InvalidPacketData`.
    pub open spec fn spec_parse(bytes: Seq<u8>, number: u32) -> Result<OkResponse, PacketParseErr> {
        if number == 0 {
            Ok(OkResponse::Success)
        } else if number == 1 {
            if bytes.len() < 16 {
                Err(PacketParseErr::InvalidPacketSize)
            } else if le_u64_at(bytes, 8) > usize::MAX {
                Err(PacketParseErr::InvalidPacketData)
            } else if bytes.len() < 24 {
                Err(PacketParseErr::InvalidPacketSize)
            } else {
                Ok(
                    OkResponse::WindowCreated(
                        CreateWindowResp {
                            shm_key: le_u64_at(bytes, 8) as usize,
                            win_id: le_u16_at(bytes, 16),
                            pad0: le_u16_at(bytes, 18),
                            pad1: le_u32_at(bytes, 20),
                        },
                    ),
                )
            }
        } else {
            Err(PacketParseErr::InvalidPacketKind)
        }
    }

    /// The bytes of the fields of this reply, and its kind.
    pub fn as_bytes(&self) -> (out: (Vec<u8>, OkResponseKind))
        ensures
            out.0@ == self.spec_payload(),
            out.0@.len() == out.1.spec_size(),
            out.1 == self.spec_kind(),
    {
        let mut bytes: Vec<u8> = Vec::new();
        match self {
            OkResponse::Success => (bytes, OkResponseKind::Success),
            OkResponse::WindowCreated(w) => {
                push_u64(&mut bytes, w.shm_key as u64);
                push_u16(&mut bytes, w.win_id);
                push_u16(&mut bytes, w.pad0);
                push_u32(&mut bytes, w.pad1);
                proof {
                    lemma_le_bytes_u64(w.shm_key as u64);
                    lemma_le_bytes_u16(w.win_id);
                    lemma_le_bytes_u16(w.pad0);
                    lemma_le_bytes_u32(w.pad1);
                    assert(bytes@ =~= w.spec_bytes());
                }
                (bytes, OkResponseKind::WindowCreated)
            },
        }
    }

    /// Reads the reply of kind `number` whose fields start at `bytes[8]`.
    pub fn parse(bytes: &[u8], number: u32) -> (reply: Result<OkResponse, PacketParseErr>)
        ensures
            reply == Self::spec_parse(bytes@, number),
    {
        if number == 0 {
            Ok(OkResponse::Success)
        } else if number == 1 {
            if bytes.len() < 16 {
                return Err(PacketParseErr::InvalidPacketSize);
            }
            let key: u64 = u64_at(bytes, 8);
            if key > usize::MAX as u64 {
                return Err(PacketParseErr::InvalidPacketData);
            }
            if bytes.len() < 24 {
                return Err(PacketParseErr::InvalidPacketSize);
            }
            Ok(
                OkResponse::WindowCreated(
                    CreateWindowResp {
                        shm_key: key as usize,
                        win_id: u16_at(bytes, 16),
                        pad0: u16_at(bytes, 18),
                        pad1: u32_at(bytes, 20),
                    },
                ),
            )
        } else {
            Err(PacketParseErr::InvalidPacketKind)
        }
    }
}

/// What the window manager sends to a client.
#[derive(Debug, Clone, Copy, PartialEq, Eq, Structural)]
pub enum Response {
    /// The request was carried out.
    Accepted(OkResponse),
    /// The request failed.
    Rejected(ResponseError),
    /// Not a reply: something happened to a window of the client.
    Event(Event),
}

impl Response {
    /// The magic number this response starts with.
    pub open spec fn spec_magic(self) -> u32 {
        match self {
            Response::Accepted(_) => RESPONSE_OK_MAGIC,
            Response::Rejected(_) => RESPONSE_ERR_MAGIC,
            Response::Event(_) => RESPONSE_EVENT_MAGIC,
        }
    }

    /// The number of the kind that follows the magic number.
    pub open spec fn spec_number(self) -> u32 {
        match self {
            Response::Accepted(k) => k.spec_kind().spec_number(),
            Response::Rejected(e) => e.spec_number(),
            Response::Event(e) => e.spec_number(),
        }
    }

    /// The bytes of the fields of this response.
    pub open spec fn spec_payload(self) -> Seq<u8> {
        match self {
            Response::Accepted(k) => k.spec_payload(),
            Response::Rejected(_) => Seq::<u8>::empty(),
            Response::Event(e) => e.spec_payload(),
        }
    }

    /// The packet: magic number, kind, fields.
    pub open spec fn spec_encode(self) -> Seq<u8> {
        le_bytes_u32(self.spec_magic()) + le_bytes_u32(self.spec_number()) + self.spec_payload()
    }

    /// What a packet decodes to. The fields are read in order, and the first
    /// that fails decides the error: a field that the packet is too short for
    /// is `InvalidPacketSize`, an unknown magic number is `InvalidMagic`, an
    /// unknown kind is `InvalidPacketKind`, a value that a field cannot hold
    /// is `InvalidPacketData`. Bytes after the last field are ignored.
    pub open spec fn spec_decode(bytes: Seq<u8>) -> Result<Response, PacketParseErr> {
        if bytes.len() < 4 {
            Err(PacketParseErr::InvalidPacketSize)
        } else if le_u32_at(bytes, 0) != RESPONSE_OK_MAGIC && le_u32_at(bytes, 0)
            != RESPONSE_ERR_MAGIC && le_u32_at(bytes, 0) != RESPONSE_EVENT_MAGIC {
            Err(PacketParseErr::InvalidMagic)
        } else if bytes.len() < 8 {
            Err(PacketParseErr::InvalidPacketSize)
        } else if le_u32_at(bytes, 0) == RESPONSE_OK_MAGIC {
            match OkResponse::spec_parse(bytes, le_u32_at(bytes, 4)) {
                Ok(k) => Ok(Response::Accepted(k)),
                Err(e) => Err(e),
            }
        } else if le_u32_at(bytes, 0) == RESPONSE_ERR_MAGIC {
            match ResponseError::spec_from_number(le_u32_at(bytes, 4)) {
                Some(e) => Ok(Response::Rejected(e)),
                None => Err(PacketParseErr::InvalidPacketKind),
            }
        } else {
            match Event::spec_parse(bytes, le_u32_at(bytes, 4)) {
                Ok(e) => Ok(Response::Event(e)),
                Err(e) => Err(e),
            }
        }
    }

    /// Encodes the response into a buffer of the full packet size, and
    /// returns the buffer with the length of the packet in it.
    pub fn encode(&self) -> (out: ([u8; MAX_PACKET_SIZE], usize))
        ensures
            out.1 == self.spec_encode().len(),
            out.0@.subrange(0, out.1 as int) == self.spec_encode(),
            forall|i: int| out.1 <= i < MAX_PACKET_SIZE ==> out.0@[i] == 0,
    {
        let mut bytes: Vec<u8> = Vec::new();
        match self {
            Response::Accepted(k) => {
                push_u32(&mut bytes, RESPONSE_OK_MAGIC);
                push_u32(&mut bytes, k.kind().number());
                k.write_payload(&mut bytes);
            },
            Response::Rejected(e) => {
                push_u32(&mut bytes, RESPONSE_ERR_MAGIC);
                push_u32(&mut bytes, e.number());
            },
            Response::Event(e) => {
                push_u32(&mut bytes, RESPONSE_EVENT_MAGIC);
                push_u32(&mut bytes, e.number());
                e.write_payload(&mut bytes);
            },
        }
        proof {
            lemma_response_len(*self);
            assert(bytes@ =~= self.spec_encode());
        }
        frame(&bytes)
    }

    /// Decodes a packet into a response.
    pub fn decode(bytes: &[u8]) -> (resp: Result<Response, PacketParseErr>)
        ensures
            resp == Self::spec_decode(bytes@),
    {
        let magic = match read_u32(bytes, 0) {
            Some(magic) => magic,
            None => return Err(PacketParseErr::InvalidPacketSize),
        };
        if magic != RESPONSE_OK_MAGIC && magic != RESPONSE_ERR_MAGIC && magic
            != RESPONSE_EVENT_MAGIC {
            return Err(PacketParseErr::InvalidMagic);
        }
        let number = match read_u32(bytes, 4) {
            Some(number) => number,
            None => return Err(PacketParseErr::InvalidPacketSize),
        };
        if magic == RESPONSE_OK_MAGIC {
            match OkResponse::parse(bytes, number) {
                Ok(k) => Ok(Response::Accepted(k)),
                Err(e) => Err(e),
            }
        } else if magic == RESPONSE_ERR_MAGIC {
            match ResponseError::from_number(number) {
                Some(e) => Ok(Response::Rejected(e)),
                None => Err(PacketParseErr::InvalidPacketKind),
            }
        } else {
            match Event::parse(bytes, number) {
                Ok(e) => Ok(Response::Event(e)),
                Err(e) => Err(e),
            }
        }
    }
}

impl OkResponse {
    /// The kind of this reply.
    pub fn kind(&self) -> (kind: OkResponseKind)
        ensures
            kind == self.spec_kind(),
    {
        match self {
            OkResponse::Success => OkResponseKind::Success,
            OkResponse::WindowCreated(_) => OkResponseKind::WindowCreated,
        }
    }

    /// Appends the bytes of the fields of this reply.
    pub fn write_payload(&self, out: &mut Vec<u8>)
        ensures
            final(out)@ == old(out)@ + self.spec_payload(),
    {
        match self {
            OkResponse::Success => {
                assert(out@ =~= old(out)@ + self.spec_payload());
            },
            OkResponse::WindowCreated(w) => {
                push_u64(out, w.shm_key as u64);
                push_u16(out, w.win_id);
                push_u16(out, w.pad0);
                push_u32(out, w.pad1);
                assert(out@ =~= old(out)@ + self.spec_payload());
            },
        }
    }
}

/// A response is never longer than a packet may be: eight bytes and the
/// fields of its kind.
pub proof fn lemma_response_len(resp: Response)
    ensures
        resp.spec_encode().len() == 8 + resp.spec_payload().len(),
        resp.spec_payload().len() == match resp {
            Response::Accepted(k) => k.spec_kind().spec_size(),
            Response::Rejected(_) => 0,
            Response::Event(e) => e.spec_size(),
        },
        resp.spec_encode().len() <= 24,
{
    lemma_le_bytes_u32(resp.spec_magic());
    lemma_le_bytes_u32(resp.spec_number());
    match resp {
        Response::Accepted(OkResponse::WindowCreated(w)) => {
            lemma_le_bytes_u64(w.shm_key as u64);
            lemma_le_bytes_u16(w.win_id);
            lemma_le_bytes_u16(w.pad0);
            lemma_le_bytes_u32(w.pad1);
        },
        Response::Event(Event::MouseChange(e)) => {
            lemma_le_bytes_u16(e.pad);
            lemma_le_bytes_u32(e.pos_x);
            lemma_le_bytes_u32(e.pos_y);
        },
        Response::Event(Event::MouseEnter(e)) => {
            lemma_le_bytes_u32(e.pos_x);
            lemma_le_bytes_u32(e.pos_y);
        },
        _ => {},
    }
}

/// Decoding what was encoded gives the response back, whatever bytes follow
/// the packet in the buffer.
pub proof fn lemma_response_round_trip(resp: Response, tail: Seq<u8>)
    ensures
        Response::spec_decode(resp.spec_encode() + tail) == Ok::<Response, PacketParseErr>(resp),
{
    let all = resp.spec_encode() + tail;
    lemma_response_len(resp);
    lemma_le_bytes_u32(resp.spec_magic());
    lemma_le_bytes_u32(resp.spec_number());
    assert(all.subrange(0, 4) =~= le_bytes_u32(resp.spec_magic()));
    assert(all.subrange(4, 8) =~= le_bytes_u32(resp.spec_number()));
    lemma_le_u32_at(all, 0, resp.spec_magic());
    lemma_le_u32_at(all, 4, resp.spec_number());
    match resp {
        Response::Accepted(OkResponse::WindowCreated(w)) => {
            lemma_le_bytes_u64(w.shm_key as u64);
            lemma_le_bytes_u16(w.win_id);
            lemma_le_bytes_u16(w.pad0);
            lemma_le_bytes_u32(w.pad1);
            assert(all.subrange(8, 16) =~= le_bytes_u64(w.shm_key as u64));
            assert(all.subrange(16, 18) =~= le_bytes_u16(w.win_id));
            assert(all.subrange(18, 20) =~= le_bytes_u16(w.pad0));
            assert(all.subrange(20, 24) =~= le_bytes_u32(w.pad1));
            lemma_le_u64_at(all, 8, w.shm_key as u64);
            lemma_le_u16_at(all, 16, w.win_id);
            lemma_le_u16_at(all, 18, w.pad0);
            lemma_le_u32_at(all, 20, w.pad1);
        },
        Response::Event(Event::MouseChange(e)) => {
            lemma_le_bytes_u16(e.pad);
            lemma_le_bytes_u32(e.pos_x);
            lemma_le_bytes_u32(e.pos_y);
            assert(all[8] == if e.buttons_changed { 1u8 } else { 0u8 });
            assert(all[9] == e.held_buttons.bits);
            assert(all.subrange(10, 12) =~= le_bytes_u16(e.pad));
            assert(all.subrange(12, 16) =~= le_bytes_u32(e.pos_x));
            assert(all.subrange(16, 20) =~= le_bytes_u32(e.pos_y));
            lemma_le_u16_at(all, 10, e.pad);
            lemma_le_u32_at(all, 12, e.pos_x);
            lemma_le_u32_at(all, 16, e.pos_y);
        },
        Response::Event(Event::MouseEnter(e)) => {
            lemma_le_bytes_u32(e.pos_x);
            lemma_le_bytes_u32(e.pos_y);
            assert(all.subrange(8, 12) =~= le_bytes_u32(e.pos_x));
            assert(all.subrange(12, 16) =~= le_bytes_u32(e.pos_y));
            lemma_le_u32_at(all, 8, e.pos_x);
            lemma_le_u32_at(all, 12, e.pos_y);
        },
        _ => {},
    }
}

/// Every buffer decodes to a response or to one of the four parse errors,
/// and a response that a buffer decodes to is the one whose packet the
/// buffer starts with.
pub proof fn lemma_response_decode_total(bytes: Seq<u8>)
    ensures
        match Response::spec_decode(bytes) {
            Ok(resp) => resp.spec_encode().len() <= bytes.len() && bytes.subrange(
                0,
                resp.spec_encode().len() as int,
            ) == resp.spec_encode(),
            Err(e) => e == PacketParseErr::InvalidMagic || e == PacketParseErr::InvalidPacketKind
                || e == PacketParseErr::InvalidPacketSize || e == PacketParseErr::InvalidPacketData,
        },
{
    match Response::spec_decode(bytes) {
        Ok(resp) => {
            lemma_response_len(resp);
            lemma_le_u32_back(bytes, 0);
            lemma_le_u32_back(bytes, 4);
            match resp {
                Response::Accepted(OkResponse::WindowCreated(w)) => {
                    lemma_le_u64_back(bytes, 8);
                    lemma_le_u16_back(bytes, 16);
                    lemma_le_u16_back(bytes, 18);
                    lemma_le_u32_back(bytes, 20);
                    assert(w.shm_key as u64 == le_u64_at(bytes, 8));
                    assert(bytes.subrange(0, 24) =~= bytes.subrange(0, 4) + bytes.subrange(4, 8)
                        + (bytes.subrange(8, 16) + bytes.subrange(16, 18) + bytes.subrange(18, 20)
                        + bytes.subrange(20, 24)));
                },
                Response::Event(Event::MouseChange(e)) => {
                    lemma_le_u16_back(bytes, 10);
                    lemma_le_u32_back(bytes, 12);
                    lemma_le_u32_back(bytes, 16);
                    assert(bytes.subrange(0, 20) =~= bytes.subrange(0, 4) + bytes.subrange(4, 8)
                        + (seq![if e.buttons_changed { 1u8 } else { 0u8 }]
                        + seq![e.held_buttons.bits] + bytes.subrange(10, 12) + bytes.subrange(
                        12,
                        16,
                    ) + bytes.subrange(16, 20)));
                },
                Response::Event(Event::MouseEnter(e)) => {
                    lemma_le_u32_back(bytes, 8);
                    lemma_le_u32_back(bytes, 12);
                    assert(bytes.subrange(0, 16) =~= bytes.subrange(0, 4) + bytes.subrange(4, 8)
                        + (bytes.subrange(8, 12) + bytes.subrange(12, 16)));
                },
                _ => {
                    assert(bytes.subrange(0, 8) =~= bytes.subrange(0, 4) + bytes.subrange(4, 8)
                        + Seq::<u8>::empty());
                },
            }
        },
        Err(_) => {},
    }
}

} // verus!
