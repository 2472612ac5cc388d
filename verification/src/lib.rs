//! Command-to-packet translation and transport management for a legged robot.
//!
//! A line of operator text ("move forward --steps 12", "leg 2 up", "dance")
//! is parsed into an [`value::ActionPacket`], encoded as a canonical JSON
//! object, and written through the single active serial link owned by a
//! [`manager::ConnectionManager`].

pub mod codec;
pub mod floattext;
pub mod manager;
pub mod number;
pub mod parser;
pub mod ports;
pub mod serial;
pub mod text;
pub mod value;
