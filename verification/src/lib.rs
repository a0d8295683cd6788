//! Core library for a peer-to-peer LAN chat and video application.
//!
//! The library defines the binary wire protocol (a tagged message codec and a
//! broadcast discovery format), fragmentation and reassembly of oversized
//! payloads, and the peer-liveness bookkeeping of a network node.

use vstd::prelude::*;

pub mod cell;
pub mod codec;
pub mod config;
pub mod gemini;
pub mod tunes;
pub mod webcam;
pub mod sixel;
pub mod render;
pub mod ui;
pub mod drcs;
pub mod terminal;
pub mod input;
pub mod dec_graphics;
pub mod discovery;
pub mod stun;
pub mod error;
pub mod fragment;
pub mod node;
pub mod lz4;
pub mod util;

verus! {

/// Safe per-fragment payload ceiling in bytes, chosen to stay under a typical
/// path MTU and avoid IP-level fragmentation.
pub const MAX_FRAGMENT_SIZE: usize = 1400;

} // verus!

