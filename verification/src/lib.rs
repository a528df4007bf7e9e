//! A bridge between a voice channel and a radio network that speaks USRP over UDP.
//!
//! The library is the part of the bridge that decides and computes; sockets, threads
//! and the voice platform's client stay outside and hand it plain values.
//!
//! - [`packet`]: the USRP frame and its wire codec.
//! - [`endian`]: the byte order of the integers in a frame.
//! - [`resampler`]: conversion between 8 kHz mono and 48 kHz stereo.
//! - [`framing`]: the discipline of a talk burst.
//! - [`transmitter`]: the uplink, from events of the voice platform to datagrams.
//! - [`receiver`]: the downlink, from datagrams to audio to play.
//! - [`context`]: both pipelines and the call that they serve.
pub mod context;
pub mod endian;
pub mod framing;
pub mod packet;
pub mod receiver;
pub mod resampler;
pub mod transmitter;
