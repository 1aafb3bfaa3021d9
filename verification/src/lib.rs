//! Session descriptions and their negotiation.
//!
//! The library reads the text of a session description into a [`sdp::Session`]
//! and writes it back, keeps the attributes of every section in an
//! [`AttributeMap`], and gives a description its meaning for an offer and
//! answer exchange over one bundled transport
//! ([`webrtc::UnifiedBundleSession`]).
//!
//! Every type has a view that says what it is in contracts. A grammar is a
//! specification function from a text and a position to a value and the
//! position after it; a reader computes exactly what its grammar gives, and
//! a writer exactly the text that the view of its value has.
//!
//! What holds of reading and writing together is proved in [`laws`], for a
//! text and the description that is read from it, and in [`readback`], for a
//! session and the description that it writes.

use vstd::prelude::*;

pub mod attribute_map;
pub mod attributes;
pub mod duplicate;
pub mod enums;
pub mod laws;
pub mod lexer;
pub mod native;
pub mod negotiation;
pub mod pairs;
pub mod readback;
pub mod registry;
pub mod sdp;
pub mod text;
pub mod types;
pub mod webrtc;

pub use attribute_map::AttributeMap;

verus! {

/// Failure of a closed vocabulary to recognise a token.
#[derive(Debug, Clone, Copy, PartialEq, Eq, Structural)]
pub enum EnumParseError {
    VariantNotFound,
}

} // verus!
