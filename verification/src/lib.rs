//! Frame transport and format negotiation core for a desktop video capture
//! pipeline.
//!
//! The crate negotiates a pixel format and buffer representation with a remote
//! media-streaming endpoint through a structured parameter-object protocol,
//! classifies each incoming frame buffer as descriptor-backed or mapped-only,
//! stages mapped-only planes into sealed write-once regions, and ships the
//! resulting descriptors over a duplex transport, signalling end-of-stream by
//! half-closing the write direction. A session driver ties the pieces together
//! as a state machine from events to actions.

pub mod codec;
pub mod driver;
pub mod negotiate;
pub mod stage;
pub mod transport;
pub mod vocab;
