//! The core of a client-side group-call engine: the participant state
//! machine, end-to-end media key management, and the device-to-device and
//! device-to-SFU control protocols that sit above a WebRTC-like transport
//! and below the application.
//!
//! The engine in [`client`] owns all mutable call state. Every public
//! operation takes the current time and the event's data, and returns the
//! actions the host must perform — observer callbacks, signaling sends, SFU
//! requests, transport reconfigurations, frame-crypto updates. What each
//! operation does to the state and which actions it emits is stated in its
//! contract and verified.
//!
//! The cryptographic primitives (X25519, HKDF-SHA256, SHA-256, the
//! operating-system RNG) are called through trusted wrappers; the frame
//! encryption itself is the host's, with the byte-exact framing around it
//! verified in [`frame`].
//!
//! The ring-update and ring-cancel-reason notices a recipient shows its user
//! travel with fixed wire discriminants and never enter this engine's logic;
//! they belong to the host's codec, beside the other wire encodings.

pub mod client;
pub mod device;
pub mod frame;
pub mod peek;
pub mod polling;
pub mod protocol;
pub mod rates;
pub mod ring_id;
pub mod srtp;
