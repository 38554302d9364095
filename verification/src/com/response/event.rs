//! The events the window manager sends to the client that owns a window.

use vstd::prelude::*;
use crate::com::packet::{
    le_bytes_u16, le_bytes_u32, le_u16_at, le_u32_at, push_u16, push_u32, u16_at, u32_at,
    PacketParseErr,
};

verus! {

/// The mouse cursor entered a window.
#[derive(Debug, Clone, Copy, PartialEq, Eq, Structural)]
pub struct MouseEnterEvent {
    /// The x-coordinate of the cursor, relative to the window.
    pub pos_x: u32,
    /// The y-coordinate of the cursor, relative to the window.
    pub pos_y: u32,
}

impl MouseEnterEvent {
    pub fn new(pos_x: u32, pos_y: u32) -> (event: Self)
        ensures
            event == (MouseEnterEvent { pos_x, pos_y }),
    {
        Self { pos_x, pos_y }
    }

    /// The x-coordinate of the cursor, relative to the window.
    pub fn x(&self) -> (x: u32)
        ensures
            x == self.pos_x,
    {
        self.pos_x
    }

    /// The y-coordinate of the cursor, relative to the window.
    pub fn y(&self) -> (y: u32)
        ensures
            y == self.pos_y,
    {
        self.pos_y
    }
}

/// The mouse cursor left a window.
#[derive(Debug, Clone, Copy, PartialEq, Eq, Structural)]
pub struct MouseLeaveEvent;

impl MouseLeaveEvent {
    pub fn new() -> (event: Self) {
        Self
    }
}

/// The bit of the left button in a button mask.
pub const BUTTON_LEFT: u8 = 1;

/// The bit of the middle button in a button mask.
pub const BUTTON_MIDDLE: u8 = 2;

/// The bit of the right button in a button mask.
pub const BUTTON_RIGHT: u8 = 4;

/// The mouse buttons that are held down, one bit each.
#[derive(Debug, Clone, Copy, PartialEq, Eq, Structural)]
pub struct HeldMouseButtons {
    pub bits: u8,
}

impl HeldMouseButtons {
    /// The left button alone.
    pub fn left() -> (held: Self)
        ensures
            held.bits == BUTTON_LEFT,
    {
        Self { bits: BUTTON_LEFT }
    }

    /// The middle button alone.
    pub fn middle() -> (held: Self)
        ensures
            held.bits == BUTTON_MIDDLE,
    {
        Self { bits: BUTTON_MIDDLE }
    }

    /// The right button alone.
    pub fn right() -> (held: Self)
        ensures
            held.bits == BUTTON_RIGHT,
    {
        Self { bits: BUTTON_RIGHT }
    }

    /// No button.
    pub fn empty() -> (held: Self)
        ensures
            held.bits == 0,
    {
        Self { bits: 0 }
    }

    /// The mask `bits` as it is, unknown bits included.
    pub fn from_bits_retain(bits: u8) -> (held: Self)
        ensures
            held.bits == bits,
    {
        Self { bits }
    }

    /// The mask as a byte.
    pub fn bits(&self) -> (bits: u8)
        ensures
            bits == self.bits,
    {
        self.bits
    }

    /// Whether every button of `other` is held in `self`.
    pub open spec fn spec_contains(self, other: HeldMouseButtons) -> bool {
        self.bits & other.bits == other.bits
    }

    /// Whether every button of `other` is held in `self`.
    pub fn contains(&self, other: HeldMouseButtons) -> (held: bool)
        ensures
            held == self.spec_contains(other),
    {
        (self.bits & other.bits) == other.bits
    }

    /// Adds the buttons of `other`.
    pub fn insert(&mut self, other: HeldMouseButtons)
        ensures
            final(self).bits == old(self).bits | other.bits,
    {
        self.bits = self.bits | other.bits;
    }
}

/// The mouse cursor moved within a window, or its buttons changed.
#[derive(Debug, Clone, Copy, PartialEq, Eq, Structural)]
pub struct MouseChangeEvent {
    /// Whether the buttons have changed.
    pub buttons_changed: bool,
    /// The buttons that are held down.
    pub held_buttons: HeldMouseButtons,
    /// Two bytes that fill the layout; written as zero.
    pub pad: u16,
    /// The x-coordinate of the cursor, relative to the window.
    pub pos_x: u32,
    /// The y-coordinate of the cursor, relative to the window.
    pub pos_y: u32,
}

impl MouseChangeEvent {
    pub fn new(buttons_changed: bool, held_buttons: HeldMouseButtons, pos_x: u32, pos_y: u32) -> (event:
        Self)
        ensures
            event == (MouseChangeEvent { buttons_changed, held_buttons, pad: 0, pos_x, pos_y }),
    {
        Self { buttons_changed, held_buttons, pad: 0, pos_x, pos_y }
    }

    /// Whether the buttons have changed.
    pub fn buttons_changed(&self) -> (changed: bool)
        ensures
            changed == self.buttons_changed,
    {
        self.buttons_changed
    }

    /// The buttons that are held down.
    pub fn held_buttons(&self) -> (held: HeldMouseButtons)
        ensures
            held == self.held_buttons,
    {
        self.held_buttons
    }

    /// The held buttons if the buttons have changed, otherwise nothing.
    pub fn buttons_change(&self) -> (change: Option<HeldMouseButtons>)
        ensures
            change == if self.buttons_changed {
                Some(self.held_buttons)
            } else {
                None
            },
    {
        if self.buttons_changed {
            Some(self.held_buttons)
        } else {
            None
        }
    }

    /// The x-coordinate of the cursor, relative to the window.
    pub fn x(&self) -> (x: u32)
        ensures
            x == self.pos_x,
    {
        self.pos_x
    }

    /// The y-coordinate of the cursor, relative to the window.
    pub fn y(&self) -> (y: u32)
        ensures
            y == self.pos_y,
    {
        self.pos_y
    }
}

/// Something that happened to a window.
#[derive(Debug, Clone, Copy, PartialEq, Eq, Structural)]
pub enum Event {
    MouseChange(MouseChangeEvent),
    MouseLeave(MouseLeaveEvent),
    MouseEnter(MouseEnterEvent),
    WindowFocused,
    WindowUnfocused,
}

impl Event {
    /// The number that stands for the kind of this event on the wire.
    pub open spec fn spec_number(self) -> u32 {
        match self {
            Event::MouseChange(_) => 0,
            Event::MouseLeave(_) => 1,
            Event::MouseEnter(_) => 2,
            Event::WindowFocused => 3,
            Event::WindowUnfocused => 4,
        }
    }

    /// The bytes of the fields of this event.
    pub open spec fn spec_payload(self) -> Seq<u8> {
        match self {
            Event::MouseChange(e) => seq![if e.buttons_changed { 1u8 } else { 0u8 }]
                + seq![e.held_buttons.bits] + le_bytes_u16(e.pad) + le_bytes_u32(e.pos_x)
                + le_bytes_u32(e.pos_y),
            Event::MouseEnter(e) => le_bytes_u32(e.pos_x) + le_bytes_u32(e.pos_y),
            _ => Seq::<u8>::empty(),
        }
    }

    /// The number of bytes that the fields of this event take.
    pub open spec fn spec_size(self) -> nat {
        match self {
            Event::MouseChange(_) => 12,
            Event::MouseEnter(_) => 8,
            _ => 0,
        }
    }

    /// The event of kind `number` whose fields start at `bytes[8]`. A flag
    /// that is neither 0 nor 1 is `InvalidPacketData`.
    pub open spec fn spec_parse(bytes: Seq<u8>, number: u32) -> Result<Event, PacketParseErr> {
        if number == 0 {
            if bytes.len() < 9 {
                Err(PacketParseErr::InvalidPacketSize)
            } else if bytes[8] > 1 {
                Err(PacketParseErr::InvalidPacketData)
            } else if bytes.len() < 20 {
                Err(PacketParseErr::InvalidPacketSize)
            } else {
                Ok(
                    Event::MouseChange(
                        MouseChangeEvent {
                            buttons_changed: bytes[8] == 1,
                            held_buttons: HeldMouseButtons { bits: bytes[9] },
                            pad: le_u16_at(bytes, 10),
                            pos_x: le_u32_at(bytes, 12),
                            pos_y: le_u32_at(bytes, 16),
                        },
                    ),
                )
            }
        } else if number == 1 {
            Ok(Event::MouseLeave(MouseLeaveEvent))
        } else if number == 2 {
            if bytes.len() < 16 {
                Err(PacketParseErr::InvalidPacketSize)
            } else {
                Ok(
                    Event::MouseEnter(
                        MouseEnterEvent { pos_x: le_u32_at(bytes, 8), pos_y: le_u32_at(bytes, 12) },
                    ),
                )
            }
        } else if number == 3 {
            Ok(Event::WindowFocused)
        } else if number == 4 {
            Ok(Event::WindowUnfocused)
        } else {
            Err(PacketParseErr::InvalidPacketKind)
        }
    }

    /// The number that stands for the kind of this event on the wire.
    pub fn number(&self) -> (n: u32)
        ensures
            n == self.spec_number(),
    {
        match self {
            Event::MouseChange(_) => 0,
            Event::MouseLeave(_) => 1,
            Event::MouseEnter(_) => 2,
            Event::WindowFocused => 3,
            Event::WindowUnfocused => 4,
        }
    }

    /// Appends the bytes of the fields of this event.
    pub fn write_payload(&self, out: &mut Vec<u8>)
        ensures
            final(out)@ == old(out)@ + self.spec_payload(),
    {
        match self {
            Event::MouseChange(e) => {
                out.push(if e.buttons_changed { 1u8 } else { 0u8 });
                out.push(e.held_buttons.bits);
                push_u16(out, e.pad);
                push_u32(out, e.pos_x);
                push_u32(out, e.pos_y);
                assert(out@ =~= old(out)@ + self.spec_payload());
            },
            Event::MouseEnter(e) => {
                push_u32(out, e.pos_x);
                push_u32(out, e.pos_y);
                assert(out@ =~= old(out)@ + self.spec_payload());
            },
            _ => {
                assert(out@ =~= old(out)@ + self.spec_payload());
            },
        }
    }

    /// Reads the event of kind `number` whose fields start at `bytes[8]`.
    pub fn parse(bytes: &[u8], number: u32) -> (event: Result<Event, PacketParseErr>)
        ensures
            event == Self::spec_parse(bytes@, number),
    {
        if number == 0 {
            if bytes.len() < 9 {
                return Err(PacketParseErr::InvalidPacketSize);
            }
            let flag: u8 = bytes[8];
            if flag > 1 {
                return Err(PacketParseErr::InvalidPacketData);
            }
            if bytes.len() < 20 {
                return Err(PacketParseErr::InvalidPacketSize);
            }
            Ok(
                Event::MouseChange(
                    MouseChangeEvent {
                        buttons_changed: flag == 1,
                        held_buttons: HeldMouseButtons { bits: bytes[9] },
                        pad: u16_at(bytes, 10),
                        pos_x: u32_at(bytes, 12),
                        pos_y: u32_at(bytes, 16),
                    },
                ),
            )
        } else if number == 1 {
            Ok(Event::MouseLeave(MouseLeaveEvent))
        } else if number == 2 {
            if bytes.len() < 16 {
                return Err(PacketParseErr::InvalidPacketSize);
            }
            Ok(Event::MouseEnter(MouseEnterEvent { pos_x: u32_at(bytes, 8), pos_y: u32_at(bytes, 12) }))
        } else if number == 3 {
            Ok(Event::WindowFocused)
        } else if number == 4 {
            Ok(Event::WindowUnfocused)
        } else {
            Err(PacketParseErr::InvalidPacketKind)
        }
    }
}

} // verus!
