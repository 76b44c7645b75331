//! Core of a FIX ("tag=value") wire-format codec.
//!
//! A FIX message is an ASCII byte stream of integer-keyed fields, each
//! terminated by a single delimiter byte (ASCII SOH, 0x01, by default).
//! This crate covers the two low-level concerns of that format: splitting a
//! raw buffer into (tag number, raw value bytes) pairs, and converting
//! between raw ASCII value bytes and native scalar types with strict
//! validation and overflow detection.  Session management, transport, and
//! message-level validation are left to callers.

pub mod data_types;
pub mod parsers;
pub mod wire_format;
pub mod wire_parser;

use vstd::prelude::*;

verus! {

/// The default FIX delimiter token: the ASCII "start of heading" byte.
pub const SOH: u8 = 0x01;

} // verus!
