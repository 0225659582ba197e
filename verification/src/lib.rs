//! Client-side model of a time-series monitoring server's query API
//! responses: a typed result model together with verified decoding of the
//! JSON wire shapes into it and encoding back out.
//!
//! The wire format carries no discriminator for the `data` payload, so the
//! decoder infers the payload's shape by ordered trial decoding; the rules
//! for that resolution, the positional sample codecs with their sentinel
//! tokens, and the envelope itself all live here with exact contracts.

pub mod decode;
pub mod encode;
pub mod errors;
pub mod json;
pub mod laws;
pub mod numbers;
pub mod parse;
pub mod result_types;
pub mod round_trip;
pub mod string_map;
pub mod text;
pub mod validate;
