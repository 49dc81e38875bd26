//! Verified core of a bridge between a VNC server and a browser.
//!
//! The bridge gets WebRTC offers over MQTT ([`signaling`]), answers them
//! ([`webrtc_peer`]) and pipes the bytes of the data channel to the VNC server and back
//! ([`vnc_pipe`]). Its MQTT credentials can come from a gateway ([`bootstrap`]). All
//! input and output is left to the program around the library: it hands in what
//! happened and carries out what it is told to do next.

pub mod bootstrap;
pub mod crypto;
pub mod signaling;
pub mod text;
pub mod vnc_pipe;
pub mod webrtc_peer;
