//! A client-side implementation of the MQTT 3.1.1 control packet format:
//! encoding packets to bytes, decoding bytes to packets, and the session
//! decisions an MQTT client takes around them.

pub mod codec;
pub mod laws;
pub mod packet;
pub mod parse;
pub mod roundtrip;
pub mod session;

pub use packet::CtrlPacket;
pub use parse::parse;
