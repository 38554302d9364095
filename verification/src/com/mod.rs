//! The communication protocol: the layout of the packets that travel
//! between a client and the window manager.

/// General definitions for the protocol, and little-endian integers.
pub mod packet;

/// The requests a client makes.
pub mod request;

/// The responses and events the window manager sends.
pub mod response;

/// The session of one client on the side of the window manager.
pub mod session;
