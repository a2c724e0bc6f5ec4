//! Session management and streaming protocol stack for a self-hosted
//! game-streaming host: pairing handshake, client registry, RTSP
//! negotiation, session lifecycle, and the packetisation logic of the
//! video, audio and control channels.

pub mod audio;
pub mod bytes;
pub mod control;
pub mod crypto;
pub mod hexcode;
pub mod pairing;
pub mod registry;
pub mod rtsp;
pub mod session;
pub mod statefile;
pub mod video;
