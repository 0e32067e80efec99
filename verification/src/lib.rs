//! Core of a single-hop HTTP forward proxy: the message translation and
//! inspection pipeline.
//!
//! The crate is organised leaf-first: byte-level helpers, the message data
//! model, the content codec, the message translator, and the exchange
//! coordinator.  Everything here is pure data transformation; socket I/O and
//! the outbound transport live with the embedding application.
#![allow(unused_imports)]
use vstd::prelude::*;

pub mod ascii;
pub mod codec;
pub mod exchange;
pub mod message;
pub mod translate;
