//! The attributes that have a type of their own.
//!
//! Each type has a name, a grammar for what follows the name on an `a=`
//! line, and the inverse that writes the value back. A grammar is given as
//! a specification function from a text and a position to the value and the
//! position after the line; `parse` computes exactly that. Any malformed
//! field fails the whole attribute.

use vstd::prelude::*;
use crate::enums::{
    AddressType, ExtensionMapDirection, FingerprintHashFunction, FingerprintHashFunctionView,
    GroupSemantics, GroupSemanticsView, IceCandidateType, IceCandidateTypeView, IceOption,
    IceOptionView, IceTcpType, IceTransportType, IceTransportTypeView, NetworkType, RidDirection,
    SetupRole, SsrcGroupSemantics, SsrcGroupSemanticsView,
};
use crate::lexer::{
    at_char, find_free_text_end, find_token_end, free_text_ok, has_char, has_tag, line_end,
    parsed_as, skip_line_end, skip_tag, slice_of, spaced_fields, spaced_pairs, take_spaced_fields,
    take_spaced_pairs, token_end, within, Until,
};
use crate::pairs::{
    clone_text_pairs, collected, distinct_keys, insert, lemma_put_keeps_distinct, lookup, put,
};
use crate::text::{
    all_unsigned, decimal, join, parse_all_unsigned, parse_unsigned, push_decimal, push_joined,
    push_spaced, push_str, spaced, string_of, to_lower, lower, unsigned_of, unsigned_values,
};
use crate::types::{hex_bytes, hex_text, parse_hex_bytes, push_hex_text};

verus! {

/// The value of an attribute without a type of its own: nothing, or a colon
/// and free text up to the end of the line.
pub open spec fn opaque_value(s: Seq<char>, i: int) -> Option<(Option<Seq<char>>, int)> {
    let e = token_end(s, i + 1, Until::Line);
    if has_char(s, i, ':') && free_text_ok(s, i + 1) {
        Some((Some(s.subrange(i + 1, e)), line_end(s, e)->0))
    } else if line_end(s, i) is Some {
        Some((None, line_end(s, i)->0))
    } else {
        None
    }
}

pub fn parse_opaque(input: &Vec<char>, pos: usize) -> (r: Option<(Option<String>, usize)>)
    requires
        pos <= input.len(),
    ensures
        parsed_as(r, opaque_value(input@, pos as int)),
        within(r, pos, input@.len()),
{
    if at_char(input, pos, ':') {
        if let Some(e) = find_free_text_end(input, pos + 1) {
            let next = skip_line_end(input, e)?;
            return Some((Some(string_of(input, pos + 1, e)), next));
        }
    }
    let next = skip_line_end(input, pos)?;
    Some((None, next))
}

/// Free text after a colon, up to the end of the line: the text and the
/// position after the line.
pub open spec fn text_value(s: Seq<char>, i: int) -> Option<(Seq<char>, int)> {
    let e = token_end(s, i + 1, Until::Line);
    if has_char(s, i, ':') && free_text_ok(s, i + 1) {
        Some((s.subrange(i + 1, e), line_end(s, e)->0))
    } else {
        None
    }
}

/// Finds the free text after a colon: where it ends and where the next
/// line starts.
pub fn find_text_value(input: &Vec<char>, pos: usize) -> (r: Option<(usize, usize)>)
    requires
        pos <= input.len(),
    ensures
        match (r, text_value(input@, pos as int)) {
            (Some((e, n)), Some((text, next))) => text == input@.subrange(pos + 1, e as int) && n
                == next && pos + 1 <= e <= n <= input.len(),
            (None, None) => true,
            _ => false,
        },
{
    if !at_char(input, pos, ':') {
        return None;
    }
    let e = find_free_text_end(input, pos + 1)?;
    let next = skip_line_end(input, e)?;
    Some((e, next))
}

/// `a=recvonly`: the section only receives.
#[derive(Debug, Clone, Copy, PartialEq, Eq, Structural)]
pub struct ReceiveOnly;

impl DeepView for ReceiveOnly {
    type V = ReceiveOnly;

    open spec fn deep_view(&self) -> ReceiveOnly {
        *self
    }
}

impl ReceiveOnly {
    /// Nothing but the end of the line may follow the name.
    pub open spec fn grammar(s: Seq<char>, i: int) -> Option<(ReceiveOnly, int)> {
        match line_end(s, i) {
            Some(next) => Some((ReceiveOnly, next)),
            None => None,
        }
    }

    pub fn parse(input: &Vec<char>, pos: usize) -> (r: Option<(ReceiveOnly, usize)>)
        requires
            pos <= input.len(),
        ensures
            parsed_as(r, Self::grammar(input@, pos as int)),
            within(r, pos, input@.len()),
    {
        let next = skip_line_end(input, pos)?;
        Some((ReceiveOnly, next))
    }

    /// A property has no value.
    pub fn to_string(&self) -> (r: Option<String>)
        ensures
            r is None,
    {
        None
    }
}

/// `a=sendrecv`: the section sends and receives.
#[derive(Debug, Clone, Copy, PartialEq, Eq, Structural)]
pub struct SendReceive;

impl DeepView for SendReceive {
    type V = SendReceive;

    open spec fn deep_view(&self) -> SendReceive {
        *self
    }
}

impl SendReceive {
    /// Nothing but the end of the line may follow the name.
    pub open spec fn grammar(s: Seq<char>, i: int) -> Option<(SendReceive, int)> {
        match line_end(s, i) {
            Some(next) => Some((SendReceive, next)),
            None => None,
        }
    }

    pub fn parse(input: &Vec<char>, pos: usize) -> (r: Option<(SendReceive, usize)>)
        requires
            pos <= input.len(),
        ensures
            parsed_as(r, Self::grammar(input@, pos as int)),
            within(r, pos, input@.len()),
    {
        let next = skip_line_end(input, pos)?;
        Some((SendReceive, next))
    }

    /// A property has no value.
    pub fn to_string(&self) -> (r: Option<String>)
        ensures
            r is None,
    {
        None
    }
}

/// `a=sendonly`: the section only sends.
#[derive(Debug, Clone, Copy, PartialEq, Eq, Structural)]
pub struct SendOnly;

impl DeepView for SendOnly {
    type V = SendOnly;

    open spec fn deep_view(&self) -> SendOnly {
        *self
    }
}

impl SendOnly {
    /// Nothing but the end of the line may follow the name.
    pub open spec fn grammar(s: Seq<char>, i: int) -> Option<(SendOnly, int)> {
        match line_end(s, i) {
            Some(next) => Some((SendOnly, next)),
            None => None,
        }
    }

    pub fn parse(input: &Vec<char>, pos: usize) -> (r: Option<(SendOnly, usize)>)
        requires
            pos <= input.len(),
        ensures
            parsed_as(r, Self::grammar(input@, pos as int)),
            within(r, pos, input@.len()),
    {
        let next = skip_line_end(input, pos)?;
        Some((SendOnly, next))
    }

    /// A property has no value.
    pub fn to_string(&self) -> (r: Option<String>)
        ensures
            r is None,
    {
        None
    }
}

/// `a=inactive`: the section neither sends nor receives.
#[derive(Debug, Clone, Copy, PartialEq, Eq, Structural)]
pub struct Inactive;

impl DeepView for Inactive {
    type V = Inactive;

    open spec fn deep_view(&self) -> Inactive {
        *self
    }
}

impl Inactive {
    /// Nothing but the end of the line may follow the name.
    pub open spec fn grammar(s: Seq<char>, i: int) -> Option<(Inactive, int)> {
        match line_end(s, i) {
            Some(next) => Some((Inactive, next)),
            None => None,
        }
    }

    pub fn parse(input: &Vec<char>, pos: usize) -> (r: Option<(Inactive, usize)>)
        requires
            pos <= input.len(),
        ensures
            parsed_as(r, Self::grammar(input@, pos as int)),
            within(r, pos, input@.len()),
    {
        let next = skip_line_end(input, pos)?;
        Some((Inactive, next))
    }

    /// A property has no value.
    pub fn to_string(&self) -> (r: Option<String>)
        ensures
            r is None,
    {
        None
    }
}

/// `a=ice-lite`: the sender is an ICE lite agent.
#[derive(Debug, Clone, Copy, PartialEq, Eq, Structural)]
pub struct IceLite;

impl DeepView for IceLite {
    type V = IceLite;

    open spec fn deep_view(&self) -> IceLite {
        *self
    }
}

impl IceLite {
    /// Nothing but the end of the line may follow the name.
    pub open spec fn grammar(s: Seq<char>, i: int) -> Option<(IceLite, int)> {
        match line_end(s, i) {
            Some(next) => Some((IceLite, next)),
            None => None,
        }
    }

    pub fn parse(input: &Vec<char>, pos: usize) -> (r: Option<(IceLite, usize)>)
        requires
            pos <= input.len(),
        ensures
            parsed_as(r, Self::grammar(input@, pos as int)),
            within(r, pos, input@.len()),
    {
        let next = skip_line_end(input, pos)?;
        Some((IceLite, next))
    }

    /// A property has no value.
    pub fn to_string(&self) -> (r: Option<String>)
        ensures
            r is None,
    {
        None
    }
}

/// `a=rtcp-rsize`: reduced-size RTCP is supported.
#[derive(Debug, Clone, Copy, PartialEq, Eq, Structural)]
pub struct RtcpReducedSize;

impl DeepView for RtcpReducedSize {
    type V = RtcpReducedSize;

    open spec fn deep_view(&self) -> RtcpReducedSize {
        *self
    }
}

impl RtcpReducedSize {
    /// Nothing but the end of the line may follow the name.
    pub open spec fn grammar(s: Seq<char>, i: int) -> Option<(RtcpReducedSize, int)> {
        match line_end(s, i) {
            Some(next) => Some((RtcpReducedSize, next)),
            None => None,
        }
    }

    pub fn parse(input: &Vec<char>, pos: usize) -> (r: Option<(RtcpReducedSize, usize)>)
        requires
            pos <= input.len(),
        ensures
            parsed_as(r, Self::grammar(input@, pos as int)),
            within(r, pos, input@.len()),
    {
        let next = skip_line_end(input, pos)?;
        Some((RtcpReducedSize, next))
    }

    /// A property has no value.
    pub fn to_string(&self) -> (r: Option<String>)
        ensures
            r is None,
    {
        None
    }
}

/// `a=rtcp-mux`: rTP and RTCP share one port.
#[derive(Debug, Clone, Copy, PartialEq, Eq, Structural)]
pub struct RtcpMux;

impl DeepView for RtcpMux {
    type V = RtcpMux;

    open spec fn deep_view(&self) -> RtcpMux {
        *self
    }
}

impl RtcpMux {
    /// Nothing but the end of the line may follow the name.
    pub open spec fn grammar(s: Seq<char>, i: int) -> Option<(RtcpMux, int)> {
        match line_end(s, i) {
            Some(next) => Some((RtcpMux, next)),
            None => None,
        }
    }

    pub fn parse(input: &Vec<char>, pos: usize) -> (r: Option<(RtcpMux, usize)>)
        requires
            pos <= input.len(),
        ensures
            parsed_as(r, Self::grammar(input@, pos as int)),
            within(r, pos, input@.len()),
    {
        let next = skip_line_end(input, pos)?;
        Some((RtcpMux, next))
    }

    /// A property has no value.
    pub fn to_string(&self) -> (r: Option<String>)
        ensures
            r is None,
    {
        None
    }
}

/// `a=rtcp-mux-only`: rTP and RTCP must share one port.
#[derive(Debug, Clone, Copy, PartialEq, Eq, Structural)]
pub struct RtcpMuxOnly;

impl DeepView for RtcpMuxOnly {
    type V = RtcpMuxOnly;

    open spec fn deep_view(&self) -> RtcpMuxOnly {
        *self
    }
}

impl RtcpMuxOnly {
    /// Nothing but the end of the line may follow the name.
    pub open spec fn grammar(s: Seq<char>, i: int) -> Option<(RtcpMuxOnly, int)> {
        match line_end(s, i) {
            Some(next) => Some((RtcpMuxOnly, next)),
            None => None,
        }
    }

    pub fn parse(input: &Vec<char>, pos: usize) -> (r: Option<(RtcpMuxOnly, usize)>)
        requires
            pos <= input.len(),
        ensures
            parsed_as(r, Self::grammar(input@, pos as int)),
            within(r, pos, input@.len()),
    {
        let next = skip_line_end(input, pos)?;
        Some((RtcpMuxOnly, next))
    }

    /// A property has no value.
    pub fn to_string(&self) -> (r: Option<String>)
        ensures
            r is None,
    {
        None
    }
}

/// `a=extmap-allow-mixed`: one-byte and two-byte header extensions may be mixed.
#[derive(Debug, Clone, Copy, PartialEq, Eq, Structural)]
pub struct ExtensionMapAllowMixed;

impl DeepView for ExtensionMapAllowMixed {
    type V = ExtensionMapAllowMixed;

    open spec fn deep_view(&self) -> ExtensionMapAllowMixed {
        *self
    }
}

impl ExtensionMapAllowMixed {
    /// Nothing but the end of the line may follow the name.
    pub open spec fn grammar(s: Seq<char>, i: int) -> Option<(ExtensionMapAllowMixed, int)> {
        match line_end(s, i) {
            Some(next) => Some((ExtensionMapAllowMixed, next)),
            None => None,
        }
    }

    pub fn parse(input: &Vec<char>, pos: usize) -> (r: Option<(ExtensionMapAllowMixed, usize)>)
        requires
            pos <= input.len(),
        ensures
            parsed_as(r, Self::grammar(input@, pos as int)),
            within(r, pos, input@.len()),
    {
        let next = skip_line_end(input, pos)?;
        Some((ExtensionMapAllowMixed, next))
    }

    /// A property has no value.
    pub fn to_string(&self) -> (r: Option<String>)
        ensures
            r is None,
    {
        None
    }
}

/// `a=bundle-only`: the section is only usable inside a bundle.
#[derive(Debug, Clone, Copy, PartialEq, Eq, Structural)]
pub struct BundleOnly;

impl DeepView for BundleOnly {
    type V = BundleOnly;

    open spec fn deep_view(&self) -> BundleOnly {
        *self
    }
}

impl BundleOnly {
    /// Nothing but the end of the line may follow the name.
    pub open spec fn grammar(s: Seq<char>, i: int) -> Option<(BundleOnly, int)> {
        match line_end(s, i) {
            Some(next) => Some((BundleOnly, next)),
            None => None,
        }
    }

    pub fn parse(input: &Vec<char>, pos: usize) -> (r: Option<(BundleOnly, usize)>)
        requires
            pos <= input.len(),
        ensures
            parsed_as(r, Self::grammar(input@, pos as int)),
            within(r, pos, input@.len()),
    {
        let next = skip_line_end(input, pos)?;
        Some((BundleOnly, next))
    }

    /// A property has no value.
    pub fn to_string(&self) -> (r: Option<String>)
        ensures
            r is None,
    {
        None
    }
}

/// `a=end-of-candidates`: no further ICE candidates will follow.
#[derive(Debug, Clone, Copy, PartialEq, Eq, Structural)]
pub struct EndOfCandidates;

impl DeepView for EndOfCandidates {
    type V = EndOfCandidates;

    open spec fn deep_view(&self) -> EndOfCandidates {
        *self
    }
}

impl EndOfCandidates {
    /// Nothing but the end of the line may follow the name.
    pub open spec fn grammar(s: Seq<char>, i: int) -> Option<(EndOfCandidates, int)> {
        match line_end(s, i) {
            Some(next) => Some((EndOfCandidates, next)),
            None => None,
        }
    }

    pub fn parse(input: &Vec<char>, pos: usize) -> (r: Option<(EndOfCandidates, usize)>)
        requires
            pos <= input.len(),
        ensures
            parsed_as(r, Self::grammar(input@, pos as int)),
            within(r, pos, input@.len()),
    {
        let next = skip_line_end(input, pos)?;
        Some((EndOfCandidates, next))
    }

    /// A property has no value.
    pub fn to_string(&self) -> (r: Option<String>)
        ensures
            r is None,
    {
        None
    }
}

/// `a=ice-pwd:<text>`: the ICE password.
#[derive(Debug, PartialEq, Eq)]
pub struct IcePwd(pub String);

impl DeepView for IcePwd {
    type V = Seq<char>;

    open spec fn deep_view(&self) -> Seq<char> {
        self.0@
    }
}

impl IcePwd {
    /// A colon, then free text up to the end of the line.
    pub open spec fn grammar(s: Seq<char>, i: int) -> Option<(Seq<char>, int)> {
        text_value(s, i)
    }

    pub fn parse(input: &Vec<char>, pos: usize) -> (r: Option<(IcePwd, usize)>)
        requires
            pos <= input.len(),
        ensures
            parsed_as(r, Self::grammar(input@, pos as int)),
            within(r, pos, input@.len()),
    {
        let (e, next) = find_text_value(input, pos)?;
        Some((IcePwd(string_of(input, pos + 1, e)), next))
    }

    pub fn to_string(&self) -> (r: Option<String>)
        ensures
            r.deep_view() == Some(self.deep_view()),
    {
        Some(self.0.clone())
    }
}

impl Clone for IcePwd {
    fn clone(&self) -> (r: Self)
        ensures
            r.deep_view() == self.deep_view(),
    {
        IcePwd(self.0.clone())
    }
}

/// `a=ice-ufrag:<text>`: the ICE user name fragment.
#[derive(Debug, PartialEq, Eq)]
pub struct IceUfrag(pub String);

impl DeepView for IceUfrag {
    type V = Seq<char>;

    open spec fn deep_view(&self) -> Seq<char> {
        self.0@
    }
}

impl IceUfrag {
    /// A colon, then free text up to the end of the line.
    pub open spec fn grammar(s: Seq<char>, i: int) -> Option<(Seq<char>, int)> {
        text_value(s, i)
    }

    pub fn parse(input: &Vec<char>, pos: usize) -> (r: Option<(IceUfrag, usize)>)
        requires
            pos <= input.len(),
        ensures
            parsed_as(r, Self::grammar(input@, pos as int)),
            within(r, pos, input@.len()),
    {
        let (e, next) = find_text_value(input, pos)?;
        Some((IceUfrag(string_of(input, pos + 1, e)), next))
    }

    pub fn to_string(&self) -> (r: Option<String>)
        ensures
            r.deep_view() == Some(self.deep_view()),
    {
        Some(self.0.clone())
    }
}

impl Clone for IceUfrag {
    fn clone(&self) -> (r: Self)
        ensures
            r.deep_view() == self.deep_view(),
    {
        IceUfrag(self.0.clone())
    }
}

/// `a=mid:<text>`: the identifier of the media section.
#[derive(Debug, PartialEq, Eq)]
pub struct Mid(pub String);

impl DeepView for Mid {
    type V = Seq<char>;

    open spec fn deep_view(&self) -> Seq<char> {
        self.0@
    }
}

impl Mid {
    /// A colon, then free text up to the end of the line.
    pub open spec fn grammar(s: Seq<char>, i: int) -> Option<(Seq<char>, int)> {
        text_value(s, i)
    }

    pub fn parse(input: &Vec<char>, pos: usize) -> (r: Option<(Mid, usize)>)
        requires
            pos <= input.len(),
        ensures
            parsed_as(r, Self::grammar(input@, pos as int)),
            within(r, pos, input@.len()),
    {
        let (e, next) = find_text_value(input, pos)?;
        Some((Mid(string_of(input, pos + 1, e)), next))
    }

    pub fn to_string(&self) -> (r: Option<String>)
        ensures
            r.deep_view() == Some(self.deep_view()),
    {
        Some(self.0.clone())
    }
}

impl Clone for Mid {
    fn clone(&self) -> (r: Self)
        ensures
            r.deep_view() == self.deep_view(),
    {
        Mid(self.0.clone())
    }
}

/// `a=ptime:<number>`: the length of media in a packet, in milliseconds.
#[derive(Debug, Clone, Copy, PartialEq, Eq, Structural)]
pub struct PacketTime(pub u32);

impl DeepView for PacketTime {
    type V = PacketTime;

    open spec fn deep_view(&self) -> PacketTime {
        *self
    }
}

impl PacketTime {
    /// A colon, then a number that takes the rest of the line.
    pub open spec fn grammar(s: Seq<char>, i: int) -> Option<(PacketTime, int)> {
        match text_value(s, i) {
            Some((text, next)) => match unsigned_of(text, 10, 0xffff_ffff) {
                Some(n) => Some((PacketTime(n as u32), next)),
                None => None,
            },
            None => None,
        }
    }

    pub fn parse(input: &Vec<char>, pos: usize) -> (r: Option<(PacketTime, usize)>)
        requires
            pos <= input.len(),
        ensures
            parsed_as(r, Self::grammar(input@, pos as int)),
            within(r, pos, input@.len()),
    {
        let (e, next) = find_text_value(input, pos)?;
        let n = parse_unsigned(input, pos + 1, e, 10, 0xffff_ffff)?;
        Some((PacketTime(n as u32), next))
    }

    pub fn to_string(&self) -> (r: Option<String>)
        ensures
            r.deep_view() == Some(decimal(self.0 as nat)),
    {
        let mut out = String::new();
        push_decimal(&mut out, self.0 as u64);
        Some(out)
    }
}

/// `a=maxptime:<number>`: the greatest length of media in a packet, in milliseconds.
#[derive(Debug, Clone, Copy, PartialEq, Eq, Structural)]
pub struct MaxPacketTime(pub u32);

impl DeepView for MaxPacketTime {
    type V = MaxPacketTime;

    open spec fn deep_view(&self) -> MaxPacketTime {
        *self
    }
}

impl MaxPacketTime {
    /// A colon, then a number that takes the rest of the line.
    pub open spec fn grammar(s: Seq<char>, i: int) -> Option<(MaxPacketTime, int)> {
        match text_value(s, i) {
            Some((text, next)) => match unsigned_of(text, 10, 0xffff_ffff) {
                Some(n) => Some((MaxPacketTime(n as u32), next)),
                None => None,
            },
            None => None,
        }
    }

    pub fn parse(input: &Vec<char>, pos: usize) -> (r: Option<(MaxPacketTime, usize)>)
        requires
            pos <= input.len(),
        ensures
            parsed_as(r, Self::grammar(input@, pos as int)),
            within(r, pos, input@.len()),
    {
        let (e, next) = find_text_value(input, pos)?;
        let n = parse_unsigned(input, pos + 1, e, 10, 0xffff_ffff)?;
        Some((MaxPacketTime(n as u32), next))
    }

    pub fn to_string(&self) -> (r: Option<String>)
        ensures
            r.deep_view() == Some(decimal(self.0 as nat)),
    {
        let mut out = String::new();
        push_decimal(&mut out, self.0 as u64);
        Some(out)
    }
}

/// `a=setup:<role>`: the DTLS role that the sender offers.
#[derive(Debug, Clone, Copy, PartialEq, Eq, Structural)]
pub struct Setup(pub SetupRole);

impl DeepView for Setup {
    type V = Setup;

    open spec fn deep_view(&self) -> Setup {
        *self
    }
}

impl Setup {
    /// A colon, then a role that takes the rest of the line.
    pub open spec fn grammar(s: Seq<char>, i: int) -> Option<(Setup, int)> {
        match text_value(s, i) {
            Some((text, next)) => match SetupRole::of(text) {
                Some(role) => Some((Setup(role), next)),
                None => None,
            },
            None => None,
        }
    }

    pub fn parse(input: &Vec<char>, pos: usize) -> (r: Option<(Setup, usize)>)
        requires
            pos <= input.len(),
        ensures
            parsed_as(r, Self::grammar(input@, pos as int)),
            within(r, pos, input@.len()),
    {
        let (e, next) = find_text_value(input, pos)?;
        let text = string_of(input, pos + 1, e);
        match SetupRole::from_str(text.as_str()) {
            Ok(role) => Some((Setup(role), next)),
            Err(_) => None,
        }
    }

    pub fn to_string(&self) -> (r: Option<String>)
        ensures
            r.deep_view() == Some(self.0.text()),
    {
        Some(self.0.to_string())
    }
}

/// `a=rtpmap:<payload> <name>/<clock>[/<channels>]`.
#[derive(Debug, Clone, PartialEq, Eq)]
pub struct RtpMap {
    pub payload: u8,
    pub name: String,
    pub clock: u32,
    pub channels: Option<u8>,
}

pub struct RtpMapView {
    pub payload: u8,
    pub name: Seq<char>,
    pub clock: u32,
    pub channels: Option<u8>,
}

impl DeepView for RtpMap {
    type V = RtpMapView;

    open spec fn deep_view(&self) -> RtpMapView {
        RtpMapView {
            payload: self.payload,
            name: self.name@,
            clock: self.clock,
            channels: self.channels,
        }
    }
}

impl RtpMapView {
    /// The payload type ends at a space, the name at a slash, the clock rate
    /// at a slash or the end of the line; the channel count is optional.
    pub open spec fn grammar(s: Seq<char>, i: int) -> Option<(RtpMapView, int)> {
        let a = token_end(s, i + 1, Until::Field);
        let payload = unsigned_of(s.subrange(i + 1, a), 10, 255);
        let b = token_end(s, a + 1, Until::Slash);
        let c = token_end(s, b + 1, Until::Clock);
        let clock = unsigned_of(s.subrange(b + 1, c), 10, 0xffff_ffff);
        let d = token_end(s, c + 1, Until::Field);
        let channels = if has_char(s, c, '/') {
            unsigned_of(s.subrange(c + 1, d), 10, 255)
        } else {
            None
        };
        let e = if channels is Some {
            d
        } else {
            c
        };
        if has_char(s, i, ':') && payload is Some && has_char(s, a, ' ') && b > a + 1 && has_char(
            s,
            b,
            '/',
        ) && clock is Some && line_end(s, e) is Some {
            Some(
                (
                    RtpMapView {
                        payload: payload->0 as u8,
                        name: s.subrange(a + 1, b),
                        clock: clock->0 as u32,
                        channels: match channels {
                            Some(n) => Some(n as u8),
                            None => None,
                        },
                    },
                    line_end(s, e)->0,
                ),
            )
        } else {
            None
        }
    }

    pub open spec fn value(self) -> Seq<char> {
        decimal(self.payload as nat) + seq![' '] + self.name + seq!['/'] + decimal(
            self.clock as nat,
        ) + match self.channels {
            Some(n) => seq!['/'] + decimal(n as nat),
            None => Seq::empty(),
        }
    }
}

impl RtpMap {
    pub fn parse(input: &Vec<char>, pos: usize) -> (r: Option<(RtpMap, usize)>)
        requires
            pos <= input.len(),
        ensures
            parsed_as(r, RtpMapView::grammar(input@, pos as int)),
            within(r, pos, input@.len()),
    {
        if !at_char(input, pos, ':') {
            return None;
        }
        let a = find_token_end(input, pos + 1, Until::Field);
        let payload = parse_unsigned(input, pos + 1, a, 10, 255)?;
        if !at_char(input, a, ' ') {
            return None;
        }
        let b = find_token_end(input, a + 1, Until::Slash);
        if b == a + 1 || !at_char(input, b, '/') {
            return None;
        }
        let c = find_token_end(input, b + 1, Until::Clock);
        let clock = parse_unsigned(input, b + 1, c, 10, 0xffff_ffff)?;
        let mut channels: Option<u8> = None;
        let mut e = c;
        if at_char(input, c, '/') {
            let d = find_token_end(input, c + 1, Until::Field);
            if let Some(n) = parse_unsigned(input, c + 1, d, 10, 255) {
                channels = Some(n as u8);
                e = d;
            }
        }
        let next = skip_line_end(input, e)?;
        Some(
            (
                RtpMap {
                    payload: payload as u8,
                    name: string_of(input, a + 1, b),
                    clock: clock as u32,
                    channels,
                },
                next,
            ),
        )
    }

    pub fn to_string(&self) -> (r: Option<String>)
        ensures
            r.deep_view() == Some(self.deep_view().value()),
    {
        let mut out = String::new();
        push_decimal(&mut out, self.payload as u64);
        out.push(' ');
        push_str(&mut out, self.name.as_str());
        out.push('/');
        push_decimal(&mut out, self.clock as u64);
        if let Some(n) = self.channels {
            out.push('/');
            push_decimal(&mut out, n as u64);
        }
        assert(out@ =~= self.deep_view().value());
        Some(out)
    }
}

/// `a=fmtp:<payload> <parameters>`: the parameters are free text.
#[derive(Debug, Clone, PartialEq, Eq)]
pub struct FormatParameters {
    pub payload: u8,
    pub parameters: String,
}

pub struct FormatParametersView {
    pub payload: u8,
    pub parameters: Seq<char>,
}

impl DeepView for FormatParameters {
    type V = FormatParametersView;

    open spec fn deep_view(&self) -> FormatParametersView {
        FormatParametersView { payload: self.payload, parameters: self.parameters@ }
    }
}

impl FormatParametersView {
    pub open spec fn grammar(s: Seq<char>, i: int) -> Option<(FormatParametersView, int)> {
        let a = token_end(s, i + 1, Until::Field);
        let payload = unsigned_of(s.subrange(i + 1, a), 10, 255);
        let e = token_end(s, a + 1, Until::Line);
        if has_char(s, i, ':') && payload is Some && has_char(s, a, ' ') && free_text_ok(s, a + 1) {
            Some(
                (
                    FormatParametersView {
                        payload: payload->0 as u8,
                        parameters: s.subrange(a + 1, e),
                    },
                    line_end(s, e)->0,
                ),
            )
        } else {
            None
        }
    }

    pub open spec fn value(self) -> Seq<char> {
        decimal(self.payload as nat) + seq![' '] + self.parameters
    }
}

impl FormatParameters {
    pub fn parse(input: &Vec<char>, pos: usize) -> (r: Option<(FormatParameters, usize)>)
        requires
            pos <= input.len(),
        ensures
            parsed_as(r, FormatParametersView::grammar(input@, pos as int)),
            within(r, pos, input@.len()),
    {
        if !at_char(input, pos, ':') {
            return None;
        }
        let a = find_token_end(input, pos + 1, Until::Field);
        let payload = parse_unsigned(input, pos + 1, a, 10, 255)?;
        if !at_char(input, a, ' ') {
            return None;
        }
        let e = find_free_text_end(input, a + 1)?;
        let next = skip_line_end(input, e)?;
        Some(
            (
                FormatParameters { payload: payload as u8, parameters: string_of(input, a + 1, e) },
                next,
            ),
        )
    }

    pub fn to_string(&self) -> (r: Option<String>)
        ensures
            r.deep_view() == Some(self.deep_view().value()),
    {
        let mut out = String::new();
        push_decimal(&mut out, self.payload as u64);
        out.push(' ');
        push_str(&mut out, self.parameters.as_str());
        assert(out@ =~= self.deep_view().value());
        Some(out)
    }
}

/// `a=group:<semantics> <mid> ...`: at least one identifier follows.
#[derive(Debug, Clone, PartialEq, Eq)]
pub struct Group {
    pub semantics: GroupSemantics,
    pub mids: Vec<String>,
}

pub struct GroupView {
    pub semantics: GroupSemanticsView,
    pub mids: Seq<Seq<char>>,
}

impl DeepView for Group {
    type V = GroupView;

    open spec fn deep_view(&self) -> GroupView {
        GroupView { semantics: self.semantics.deep_view(), mids: self.mids.deep_view() }
    }
}

impl GroupView {
    pub open spec fn grammar(s: Seq<char>, i: int) -> Option<(GroupView, int)> {
        let a = token_end(s, i + 1, Until::Field);
        let (mids, b) = spaced_fields(s, a);
        if has_char(s, i, ':') && a > i + 1 && mids.len() > 0 && line_end(s, b) is Some {
            Some(
                (
                    GroupView { semantics: GroupSemanticsView::of(s.subrange(i + 1, a)), mids },
                    line_end(s, b)->0,
                ),
            )
        } else {
            None
        }
    }

    pub open spec fn value(self) -> Seq<char> {
        self.semantics.text() + seq![' '] + join(self.mids, seq![' '])
    }
}

impl Group {
    pub fn parse(input: &Vec<char>, pos: usize) -> (r: Option<(Group, usize)>)
        requires
            pos <= input.len(),
        ensures
            parsed_as(r, GroupView::grammar(input@, pos as int)),
            within(r, pos, input@.len()),
    {
        if !at_char(input, pos, ':') {
            return None;
        }
        let a = find_token_end(input, pos + 1, Until::Field);
        if a == pos + 1 {
            return None;
        }
        let (mids, b) = take_spaced_fields(input, a);
        if mids.len() == 0 {
            return None;
        }
        let next = skip_line_end(input, b)?;
        let token = string_of(input, pos + 1, a);
        match GroupSemantics::from_str(token.as_str()) {
            Ok(semantics) => Some((Group { semantics, mids }, next)),
            Err(_) => None,
        }
    }

    pub fn to_string(&self) -> (r: Option<String>)
        ensures
            r.deep_view() == Some(self.deep_view().value()),
    {
        let mut out = String::new();
        push_str(&mut out, self.semantics.as_str());
        out.push(' ');
        push_joined(&mut out, &self.mids, " ");
        proof {
            reveal_strlit(" ");
            assert(" "@ =~= seq![' ']);
        }
        assert(out@ =~= self.deep_view().value());
        Some(out)
    }
}

/// `a=ssrc:<ssrc> <name>[:<value>]`: one attribute of a source.
#[derive(Debug, Clone, PartialEq, Eq)]
pub struct SsrcAttribute {
    pub ssrc: u32,
    pub name: String,
    pub value: Option<String>,
}

pub struct SsrcAttributeView {
    pub ssrc: u32,
    pub name: Seq<char>,
    pub value: Option<Seq<char>>,
}

impl DeepView for SsrcAttribute {
    type V = SsrcAttributeView;

    open spec fn deep_view(&self) -> SsrcAttributeView {
        SsrcAttributeView { ssrc: self.ssrc, name: self.name@, value: self.value.deep_view() }
    }
}

impl SsrcAttributeView {
    /// The name runs to the next colon, wherever that is.
    pub open spec fn grammar(s: Seq<char>, i: int) -> Option<(SsrcAttributeView, int)> {
        let a = token_end(s, i + 1, Until::Field);
        let ssrc = unsigned_of(s.subrange(i + 1, a), 10, 0xffff_ffff);
        let b = token_end(s, a + 1, Until::Colon);
        let e = token_end(s, b + 1, Until::Line);
        if has_char(s, i, ':') && ssrc is Some && has_char(s, a, ' ') && b > a + 1 && (has_char(
            s,
            b,
            ':',
        ) ==> free_text_ok(s, b + 1)) {
            if has_char(s, b, ':') {
                Some(
                    (
                        SsrcAttributeView {
                            ssrc: ssrc->0 as u32,
                            name: s.subrange(a + 1, b),
                            value: Some(s.subrange(b + 1, e)),
                        },
                        line_end(s, e)->0,
                    ),
                )
            } else {
                Some(
                    (
                        SsrcAttributeView {
                            ssrc: ssrc->0 as u32,
                            name: s.subrange(a + 1, b),
                            value: None,
                        },
                        b,
                    ),
                )
            }
        } else {
            None
        }
    }

    pub open spec fn value(self) -> Seq<char> {
        decimal(self.ssrc as nat) + seq![' '] + self.name + match self.value {
            Some(v) => seq![':'] + v,
            None => Seq::empty(),
        }
    }
}

impl SsrcAttribute {
    pub fn parse(input: &Vec<char>, pos: usize) -> (r: Option<(SsrcAttribute, usize)>)
        requires
            pos <= input.len(),
        ensures
            parsed_as(r, SsrcAttributeView::grammar(input@, pos as int)),
            within(r, pos, input@.len()),
    {
        if !at_char(input, pos, ':') {
            return None;
        }
        let a = find_token_end(input, pos + 1, Until::Field);
        let ssrc = parse_unsigned(input, pos + 1, a, 10, 0xffff_ffff)?;
        if !at_char(input, a, ' ') {
            return None;
        }
        let b = find_token_end(input, a + 1, Until::Colon);
        if b == a + 1 {
            return None;
        }
        proof {
            crate::lexer::lemma_token_end_bounds(input@, a + 1, Until::Colon);
        }
        if at_char(input, b, ':') {
            let e = find_free_text_end(input, b + 1)?;
            let next = skip_line_end(input, e)?;
            Some(
                (
                    SsrcAttribute {
                        ssrc: ssrc as u32,
                        name: string_of(input, a + 1, b),
                        value: Some(string_of(input, b + 1, e)),
                    },
                    next,
                ),
            )
        } else {
            Some(
                (
                    SsrcAttribute {
                        ssrc: ssrc as u32,
                        name: string_of(input, a + 1, b),
                        value: None,
                    },
                    b,
                ),
            )
        }
    }

    pub fn to_string(&self) -> (r: Option<String>)
        ensures
            r.deep_view() == Some(self.deep_view().value()),
    {
        let mut out = String::new();
        push_decimal(&mut out, self.ssrc as u64);
        out.push(' ');
        push_str(&mut out, self.name.as_str());
        if let Some(v) = &self.value {
            out.push(':');
            push_str(&mut out, v.as_str());
        }
        assert(out@ =~= self.deep_view().value());
        Some(out)
    }
}

/// `a=ssrc-group:<semantics> <ssrc> ...`: at least one source follows.
#[derive(Debug, Clone, PartialEq, Eq)]
pub struct SsrcGroup {
    pub semantics: SsrcGroupSemantics,
    pub ssrcs: Vec<u32>,
}

pub struct SsrcGroupView {
    pub semantics: SsrcGroupSemanticsView,
    pub ssrcs: Seq<u32>,
}

impl DeepView for SsrcGroup {
    type V = SsrcGroupView;

    open spec fn deep_view(&self) -> SsrcGroupView {
        SsrcGroupView { semantics: self.semantics.deep_view(), ssrcs: self.ssrcs@ }
    }
}

/// The numbers in decimal, with a space in front of each.
pub open spec fn spaced_decimals(numbers: Seq<u32>) -> Seq<char>
    decreases numbers.len(),
{
    if numbers.len() == 0 {
        Seq::empty()
    } else {
        spaced_decimals(numbers.drop_last()) + seq![' '] + decimal(numbers.last() as nat)
    }
}

impl SsrcGroupView {
    pub open spec fn grammar(s: Seq<char>, i: int) -> Option<(SsrcGroupView, int)> {
        let a = token_end(s, i + 1, Until::Field);
        let (fields, b) = spaced_fields(s, a);
        if has_char(s, i, ':') && a > i + 1 && fields.len() > 0 && all_unsigned(
            fields,
            0xffff_ffff,
        ) && line_end(s, b) is Some {
            Some(
                (
                    SsrcGroupView {
                        semantics: SsrcGroupSemanticsView::of(s.subrange(i + 1, a)),
                        ssrcs: unsigned_values(fields, 0xffff_ffff),
                    },
                    line_end(s, b)->0,
                ),
            )
        } else {
            None
        }
    }

    pub open spec fn value(self) -> Seq<char> {
        self.semantics.text() + spaced_decimals(self.ssrcs)
    }
}

impl SsrcGroup {
    pub fn parse(input: &Vec<char>, pos: usize) -> (r: Option<(SsrcGroup, usize)>)
        requires
            pos <= input.len(),
        ensures
            parsed_as(r, SsrcGroupView::grammar(input@, pos as int)),
            within(r, pos, input@.len()),
    {
        if !at_char(input, pos, ':') {
            return None;
        }
        let a = find_token_end(input, pos + 1, Until::Field);
        if a == pos + 1 {
            return None;
        }
        let (fields, b) = take_spaced_fields(input, a);
        if fields.len() == 0 {
            return None;
        }
        let ssrcs = parse_all_unsigned(&fields)?;
        let next = skip_line_end(input, b)?;
        let token = string_of(input, pos + 1, a);
        match SsrcGroupSemantics::from_str(token.as_str()) {
            Ok(semantics) => Some((SsrcGroup { semantics, ssrcs }, next)),
            Err(_) => None,
        }
    }

    pub fn to_string(&self) -> (r: Option<String>)
        ensures
            r.deep_view() == Some(self.deep_view().value()),
    {
        let mut out = String::new();
        push_str(&mut out, self.semantics.as_str());
        let ghost head = out@;
        let mut i: usize = 0;
        assert(self.ssrcs@.take(0) =~= Seq::<u32>::empty());
        while i < self.ssrcs.len()
            invariant
                i <= self.ssrcs.len(),
                out@ == head + spaced_decimals(self.ssrcs@.take(i as int)),
            decreases self.ssrcs.len() - i,
        {
            assert(self.ssrcs@.take(i + 1).drop_last() =~= self.ssrcs@.take(i as int));
            out.push(' ');
            push_decimal(&mut out, self.ssrcs[i] as u64);
            assert(out@ =~= head + spaced_decimals(self.ssrcs@.take(i + 1)));
            i += 1;
        }
        assert(self.ssrcs@.take(i as int) =~= self.ssrcs@);
        Some(out)
    }
}

/// `a=rtcp:<port>[ <network type> <address type> <address>]`.
#[derive(Debug, Clone, PartialEq, Eq)]
pub struct Rtcp {
    pub port: u16,
    pub network_type: Option<NetworkType>,
    pub address_type: Option<AddressType>,
    pub connection_address: Option<String>,
}

pub struct RtcpView {
    pub port: u16,
    pub network_type: Option<NetworkType>,
    pub address_type: Option<AddressType>,
    pub connection_address: Option<Seq<char>>,
}

impl DeepView for Rtcp {
    type V = RtcpView;

    open spec fn deep_view(&self) -> RtcpView {
        RtcpView {
            port: self.port,
            network_type: self.network_type,
            address_type: self.address_type,
            connection_address: self.connection_address.deep_view(),
        }
    }
}

impl RtcpView {
    /// After the port either the line ends, or a space and the three parts
    /// of an address follow.
    pub open spec fn grammar(s: Seq<char>, i: int) -> Option<(RtcpView, int)> {
        let a = token_end(s, i + 1, Until::Field);
        let port = unsigned_of(s.subrange(i + 1, a), 10, 0xffff);
        let b = token_end(s, a + 1, Until::Field);
        let network = NetworkType::of(s.subrange(a + 1, b));
        let c = token_end(s, b + 1, Until::Field);
        let family = AddressType::of(s.subrange(b + 1, c));
        let d = token_end(s, c + 1, Until::Field);
        if has_char(s, i, ':') && port is Some {
            if has_char(s, a, ' ') {
                if b > a + 1 && network is Some && has_char(s, b, ' ') && c > b + 1
                    && family is Some && has_char(s, c, ' ') && d > c + 1 && line_end(s, d) is Some {
                    Some(
                        (
                            RtcpView {
                                port: port->0 as u16,
                                network_type: network,
                                address_type: family,
                                connection_address: Some(s.subrange(c + 1, d)),
                            },
                            line_end(s, d)->0,
                        ),
                    )
                } else {
                    None
                }
            } else if line_end(s, a) is Some {
                Some(
                    (
                        RtcpView {
                            port: port->0 as u16,
                            network_type: None,
                            address_type: None,
                            connection_address: None,
                        },
                        line_end(s, a)->0,
                    ),
                )
            } else {
                None
            }
        } else {
            None
        }
    }

    /// The address is written where all three of its parts are there.
    pub open spec fn value(self) -> Seq<char> {
        decimal(self.port as nat) + if self.network_type is Some && self.address_type is Some
            && self.connection_address is Some {
            seq![' '] + self.network_type->0.text() + seq![' '] + self.address_type->0.text()
                + seq![' '] + self.connection_address->0
        } else {
            Seq::empty()
        }
    }
}

impl Rtcp {
    pub fn parse(input: &Vec<char>, pos: usize) -> (r: Option<(Rtcp, usize)>)
        requires
            pos <= input.len(),
        ensures
            parsed_as(r, RtcpView::grammar(input@, pos as int)),
            within(r, pos, input@.len()),
    {
        if !at_char(input, pos, ':') {
            return None;
        }
        let a = find_token_end(input, pos + 1, Until::Field);
        let port = parse_unsigned(input, pos + 1, a, 10, 0xffff)?;
        if !at_char(input, a, ' ') {
            let next = skip_line_end(input, a)?;
            return Some(
                (
                    Rtcp {
                        port: port as u16,
                        network_type: None,
                        address_type: None,
                        connection_address: None,
                    },
                    next,
                ),
            );
        }
        let b = find_token_end(input, a + 1, Until::Field);
        if b == a + 1 || !at_char(input, b, ' ') {
            return None;
        }
        let c = find_token_end(input, b + 1, Until::Field);
        if c == b + 1 || !at_char(input, c, ' ') {
            return None;
        }
        let d = find_token_end(input, c + 1, Until::Field);
        if d == c + 1 {
            return None;
        }
        let next = skip_line_end(input, d)?;
        let network = match NetworkType::from_str(string_of(input, a + 1, b).as_str()) {
            Ok(v) => v,
            Err(_) => {
                return None;
            },
        };
        let family = match AddressType::from_str(string_of(input, b + 1, c).as_str()) {
            Ok(v) => v,
            Err(_) => {
                return None;
            },
        };
        Some(
            (
                Rtcp {
                    port: port as u16,
                    network_type: Some(network),
                    address_type: Some(family),
                    connection_address: Some(string_of(input, c + 1, d)),
                },
                next,
            ),
        )
    }

    pub fn to_string(&self) -> (r: Option<String>)
        ensures
            r.deep_view() == Some(self.deep_view().value()),
    {
        let mut out = String::new();
        push_decimal(&mut out, self.port as u64);
        if let (Some(network), Some(family), Some(address)) = (
            &self.network_type,
            &self.address_type,
            &self.connection_address,
        ) {
            out.push(' ');
            push_str(&mut out, network.as_str());
            out.push(' ');
            push_str(&mut out, family.as_str());
            out.push(' ');
            push_str(&mut out, address.as_str());
        }
        assert(out@ =~= self.deep_view().value());
        Some(out)
    }
}

/// `a=rtcp-fb:<payload> <id>[ <parameter>]`: the payload `*` stands for all
/// payloads and is kept as `None`.
#[derive(Debug, Clone, PartialEq, Eq)]
pub struct RtcpFeedback {
    pub payload: Option<u8>,
    pub id: String,
    pub param: Option<String>,
}

pub struct RtcpFeedbackView {
    pub payload: Option<u8>,
    pub id: Seq<char>,
    pub param: Option<Seq<char>>,
}

impl DeepView for RtcpFeedback {
    type V = RtcpFeedbackView;

    open spec fn deep_view(&self) -> RtcpFeedbackView {
        RtcpFeedbackView { payload: self.payload, id: self.id@, param: self.param.deep_view() }
    }
}

impl RtcpFeedbackView {
    /// A first field that is a payload type or `*` is taken as the payload;
    /// any other first field is already the identifier.
    pub open spec fn grammar(s: Seq<char>, i: int) -> Option<(RtcpFeedbackView, int)> {
        let a = token_end(s, i + 1, Until::Field);
        let number = unsigned_of(s.subrange(i + 1, a), 10, 255);
        let star = s.subrange(i + 1, a) == seq!['*'];
        let p = if a > i + 1 && (star || number is Some) {
            a
        } else {
            i + 1
        };
        let q = if has_char(s, p, ' ') {
            p + 1
        } else {
            p
        };
        let b = token_end(s, q, Until::Field);
        let c = token_end(s, b + 1, Until::Field);
        let has_param = has_char(s, b, ' ') && c > b + 1;
        let e = if has_param {
            c
        } else {
            b
        };
        if has_char(s, i, ':') && b > q && line_end(s, e) is Some {
            Some(
                (
                    RtcpFeedbackView {
                        payload: if a > i + 1 && !star && number is Some {
                            Some(number->0 as u8)
                        } else {
                            None
                        },
                        id: s.subrange(q, b),
                        param: if has_param {
                            Some(s.subrange(b + 1, c))
                        } else {
                            None
                        },
                    },
                    line_end(s, e)->0,
                ),
            )
        } else {
            None
        }
    }

    pub open spec fn value(self) -> Seq<char> {
        (match self.payload {
            Some(n) => decimal(n as nat),
            None => seq!['*'],
        }) + seq![' '] + self.id + match self.param {
            Some(p) => seq![' '] + p,
            None => Seq::empty(),
        }
    }
}

impl RtcpFeedback {
    pub fn parse(input: &Vec<char>, pos: usize) -> (r: Option<(RtcpFeedback, usize)>)
        requires
            pos <= input.len(),
        ensures
            parsed_as(r, RtcpFeedbackView::grammar(input@, pos as int)),
            within(r, pos, input@.len()),
    {
        if !at_char(input, pos, ':') {
            return None;
        }
        let a = find_token_end(input, pos + 1, Until::Field);
        let number = parse_unsigned(input, pos + 1, a, 10, 255);
        let star = a - pos == 2 && input[pos + 1] == '*';
        assert(star == (input@.subrange(pos + 1, a as int) == seq!['*'])) by {
            if star {
                assert(input@.subrange(pos + 1, a as int) =~= seq!['*']);
            } else if a == pos + 2 {
                assert(input@.subrange(pos + 1, a as int)[0] != seq!['*'][0]);
            } else {
                assert(input@.subrange(pos + 1, a as int).len() != seq!['*'].len());
            }
        }
        let mut payload: Option<u8> = None;
        let mut p = pos + 1;
        if a > pos + 1 {
            if star {
                p = a;
            } else if let Some(n) = number {
                payload = Some(n as u8);
                p = a;
            }
        }
        let q = if at_char(input, p, ' ') {
            p + 1
        } else {
            p
        };
        let b = find_token_end(input, q, Until::Field);
        if b == q {
            return None;
        }
        let mut param: Option<String> = None;
        let mut e = b;
        if at_char(input, b, ' ') {
            let c = find_token_end(input, b + 1, Until::Field);
            if c > b + 1 {
                param = Some(string_of(input, b + 1, c));
                e = c;
            }
        }
        let next = skip_line_end(input, e)?;
        Some((RtcpFeedback { payload, id: string_of(input, q, b), param }, next))
    }

    pub fn to_string(&self) -> (r: Option<String>)
        ensures
            r.deep_view() == Some(self.deep_view().value()),
    {
        let mut out = String::new();
        match self.payload {
            Some(n) => {
                push_decimal(&mut out, n as u64);
            },
            None => {
                out.push('*');
            },
        }
        out.push(' ');
        push_str(&mut out, self.id.as_str());
        if let Some(p) = &self.param {
            out.push(' ');
            push_str(&mut out, p.as_str());
        }
        assert(out@ =~= self.deep_view().value());
        Some(out)
    }
}

/// `a=extmap:<id>[/<direction>] <extension>[ <attribute> ...]`.
#[derive(Debug, Clone, PartialEq, Eq)]
pub struct ExtensionMap {
    pub id: u16,
    pub direction: Option<ExtensionMapDirection>,
    pub extension: String,
    pub attributes: Vec<String>,
}

pub struct ExtensionMapView {
    pub id: u16,
    pub direction: Option<ExtensionMapDirection>,
    pub extension: Seq<char>,
    pub attributes: Seq<Seq<char>>,
}

impl DeepView for ExtensionMap {
    type V = ExtensionMapView;

    open spec fn deep_view(&self) -> ExtensionMapView {
        ExtensionMapView {
            id: self.id,
            direction: self.direction,
            extension: self.extension@,
            attributes: self.attributes.deep_view(),
        }
    }
}

impl ExtensionMapView {
    pub open spec fn grammar(s: Seq<char>, i: int) -> Option<(ExtensionMapView, int)> {
        let a = token_end(s, i + 1, Until::Slash);
        let id = unsigned_of(s.subrange(i + 1, a), 10, 0xffff);
        let b = token_end(s, a + 1, Until::Field);
        let direction = if has_char(s, a, '/') && b > a + 1 {
            ExtensionMapDirection::of(s.subrange(a + 1, b))
        } else {
            None
        };
        let p = if direction is Some {
            b
        } else {
            a
        };
        let c = token_end(s, p + 1, Until::Field);
        let (attributes, d) = spaced_fields(s, c);
        if has_char(s, i, ':') && id is Some && has_char(s, p, ' ') && c > p + 1 && line_end(s, d)
            is Some {
            Some(
                (
                    ExtensionMapView {
                        id: id->0 as u16,
                        direction,
                        extension: s.subrange(p + 1, c),
                        attributes,
                    },
                    line_end(s, d)->0,
                ),
            )
        } else {
            None
        }
    }

    pub open spec fn value(self) -> Seq<char> {
        decimal(self.id as nat) + (match self.direction {
            Some(d) => seq!['/'] + d.text(),
            None => Seq::empty(),
        }) + seq![' '] + self.extension + spaced(self.attributes)
    }
}

impl ExtensionMap {
    pub fn parse(input: &Vec<char>, pos: usize) -> (r: Option<(ExtensionMap, usize)>)
        requires
            pos <= input.len(),
        ensures
            parsed_as(r, ExtensionMapView::grammar(input@, pos as int)),
            within(r, pos, input@.len()),
    {
        if !at_char(input, pos, ':') {
            return None;
        }
        let a = find_token_end(input, pos + 1, Until::Slash);
        let id = parse_unsigned(input, pos + 1, a, 10, 0xffff)?;
        let mut direction: Option<ExtensionMapDirection> = None;
        let mut p = a;
        if at_char(input, a, '/') {
            let b = find_token_end(input, a + 1, Until::Field);
            if b > a + 1 {
                if let Ok(d) = ExtensionMapDirection::from_str(string_of(input, a + 1, b).as_str()) {
                    direction = Some(d);
                    p = b;
                }
            }
        }
        if !at_char(input, p, ' ') {
            return None;
        }
        let c = find_token_end(input, p + 1, Until::Field);
        if c == p + 1 {
            return None;
        }
        let (attributes, d) = take_spaced_fields(input, c);
        let next = skip_line_end(input, d)?;
        Some(
            (
                ExtensionMap {
                    id: id as u16,
                    direction,
                    extension: string_of(input, p + 1, c),
                    attributes,
                },
                next,
            ),
        )
    }

    pub fn to_string(&self) -> (r: Option<String>)
        ensures
            r.deep_view() == Some(self.deep_view().value()),
    {
        let mut out = String::new();
        push_decimal(&mut out, self.id as u64);
        if let Some(d) = &self.direction {
            out.push('/');
            push_str(&mut out, d.as_str());
        }
        out.push(' ');
        push_str(&mut out, self.extension.as_str());
        push_spaced(&mut out, &self.attributes);
        assert(out@ =~= self.deep_view().value());
        Some(out)
    }
}

/// `a=msid:<id>[ <application data>]`.
#[derive(Debug, Clone, PartialEq, Eq)]
pub struct MediaStreamId {
    pub id: String,
    pub appdata: Option<String>,
}

pub struct MediaStreamIdView {
    pub id: Seq<char>,
    pub appdata: Option<Seq<char>>,
}

impl DeepView for MediaStreamId {
    type V = MediaStreamIdView;

    open spec fn deep_view(&self) -> MediaStreamIdView {
        MediaStreamIdView { id: self.id@, appdata: self.appdata.deep_view() }
    }
}

impl MediaStreamIdView {
    pub open spec fn grammar(s: Seq<char>, i: int) -> Option<(MediaStreamIdView, int)> {
        let a = token_end(s, i + 1, Until::Field);
        let b = token_end(s, a + 1, Until::Field);
        let has_appdata = has_char(s, a, ' ') && b > a + 1;
        let e = if has_appdata {
            b
        } else {
            a
        };
        if has_char(s, i, ':') && a > i + 1 && line_end(s, e) is Some {
            Some(
                (
                    MediaStreamIdView {
                        id: s.subrange(i + 1, a),
                        appdata: if has_appdata {
                            Some(s.subrange(a + 1, b))
                        } else {
                            None
                        },
                    },
                    line_end(s, e)->0,
                ),
            )
        } else {
            None
        }
    }

    pub open spec fn value(self) -> Seq<char> {
        self.id + match self.appdata {
            Some(a) => seq![' '] + a,
            None => Seq::empty(),
        }
    }
}

impl MediaStreamId {
    pub fn parse(input: &Vec<char>, pos: usize) -> (r: Option<(MediaStreamId, usize)>)
        requires
            pos <= input.len(),
        ensures
            parsed_as(r, MediaStreamIdView::grammar(input@, pos as int)),
            within(r, pos, input@.len()),
    {
        if !at_char(input, pos, ':') {
            return None;
        }
        let a = find_token_end(input, pos + 1, Until::Field);
        if a == pos + 1 {
            return None;
        }
        let mut appdata: Option<String> = None;
        let mut e = a;
        if at_char(input, a, ' ') {
            let b = find_token_end(input, a + 1, Until::Field);
            if b > a + 1 {
                appdata = Some(string_of(input, a + 1, b));
                e = b;
            }
        }
        let next = skip_line_end(input, e)?;
        Some((MediaStreamId { id: string_of(input, pos + 1, a), appdata }, next))
    }

    pub fn to_string(&self) -> (r: Option<String>)
        ensures
            r.deep_view() == Some(self.deep_view().value()),
    {
        let mut out = String::new();
        push_str(&mut out, self.id.as_str());
        if let Some(a) = &self.appdata {
            out.push(' ');
            push_str(&mut out, a.as_str());
        }
        assert(out@ =~= self.deep_view().value());
        Some(out)
    }
}

/// `a=msid-semantic: <semantic>[ <id> ...]`: the value is written with a
/// space in front, which readers expect; reading accepts it without.
#[derive(Debug, Clone, PartialEq, Eq)]
pub struct MediaStreamIdSemantic {
    pub semantic: String,
    pub msids: Vec<String>,
}

pub struct MediaStreamIdSemanticView {
    pub semantic: Seq<char>,
    pub msids: Seq<Seq<char>>,
}

impl DeepView for MediaStreamIdSemantic {
    type V = MediaStreamIdSemanticView;

    open spec fn deep_view(&self) -> MediaStreamIdSemanticView {
        MediaStreamIdSemanticView { semantic: self.semantic@, msids: self.msids.deep_view() }
    }
}

impl MediaStreamIdSemanticView {
    pub open spec fn grammar(s: Seq<char>, i: int) -> Option<(MediaStreamIdSemanticView, int)> {
        let p = if has_char(s, i + 1, ' ') {
            i + 2
        } else {
            i + 1
        };
        let a = token_end(s, p, Until::Field);
        let (msids, b) = spaced_fields(s, a);
        if has_char(s, i, ':') && a > p && line_end(s, b) is Some {
            Some(
                (
                    MediaStreamIdSemanticView { semantic: s.subrange(p, a), msids },
                    line_end(s, b)->0,
                ),
            )
        } else {
            None
        }
    }

    pub open spec fn value(self) -> Seq<char> {
        seq![' '] + self.semantic + spaced(self.msids)
    }
}

impl MediaStreamIdSemantic {
    pub fn parse(input: &Vec<char>, pos: usize) -> (r: Option<(MediaStreamIdSemantic, usize)>)
        requires
            pos <= input.len(),
        ensures
            parsed_as(r, MediaStreamIdSemanticView::grammar(input@, pos as int)),
            within(r, pos, input@.len()),
    {
        if !at_char(input, pos, ':') {
            return None;
        }
        let p = if at_char(input, pos + 1, ' ') {
            pos + 2
        } else {
            pos + 1
        };
        let a = find_token_end(input, p, Until::Field);
        if a == p {
            return None;
        }
        let (msids, b) = take_spaced_fields(input, a);
        let next = skip_line_end(input, b)?;
        Some((MediaStreamIdSemantic { semantic: string_of(input, p, a), msids }, next))
    }

    pub fn to_string(&self) -> (r: Option<String>)
        ensures
            r.deep_view() == Some(self.deep_view().value()),
    {
        let mut out = String::new();
        out.push(' ');
        push_str(&mut out, self.semantic.as_str());
        push_spaced(&mut out, &self.msids);
        assert(out@ =~= self.deep_view().value());
        Some(out)
    }
}

/// `a=rid:<id> <direction>[ <restrictions>]`: the restrictions are free text.
#[derive(Debug, Clone, PartialEq, Eq)]
pub struct Rid {
    pub rid: String,
    pub direction: RidDirection,
    pub restrictions: Option<String>,
}

pub struct RidView {
    pub rid: Seq<char>,
    pub direction: RidDirection,
    pub restrictions: Option<Seq<char>>,
}

impl DeepView for Rid {
    type V = RidView;

    open spec fn deep_view(&self) -> RidView {
        RidView {
            rid: self.rid@,
            direction: self.direction,
            restrictions: self.restrictions.deep_view(),
        }
    }
}

impl RidView {
    pub open spec fn grammar(s: Seq<char>, i: int) -> Option<(RidView, int)> {
        let a = token_end(s, i + 1, Until::Field);
        let b = token_end(s, a + 1, Until::Field);
        let direction = RidDirection::of(s.subrange(a + 1, b));
        let e = token_end(s, b + 1, Until::Line);
        let restricted = has_char(s, b, ' ') && free_text_ok(s, b + 1);
        let end = if restricted {
            e
        } else {
            b
        };
        if has_char(s, i, ':') && a > i + 1 && has_char(s, a, ' ') && b > a + 1 && direction
            is Some && line_end(s, end) is Some {
            Some(
                (
                    RidView {
                        rid: s.subrange(i + 1, a),
                        direction: direction->0,
                        restrictions: if restricted {
                            Some(s.subrange(b + 1, e))
                        } else {
                            None
                        },
                    },
                    line_end(s, end)->0,
                ),
            )
        } else {
            None
        }
    }

    pub open spec fn value(self) -> Seq<char> {
        self.rid + seq![' '] + self.direction.text() + match self.restrictions {
            Some(r) => seq![' '] + r,
            None => Seq::empty(),
        }
    }
}

impl Rid {
    pub fn parse(input: &Vec<char>, pos: usize) -> (r: Option<(Rid, usize)>)
        requires
            pos <= input.len(),
        ensures
            parsed_as(r, RidView::grammar(input@, pos as int)),
            within(r, pos, input@.len()),
    {
        if !at_char(input, pos, ':') {
            return None;
        }
        let a = find_token_end(input, pos + 1, Until::Field);
        if a == pos + 1 || !at_char(input, a, ' ') {
            return None;
        }
        let b = find_token_end(input, a + 1, Until::Field);
        if b == a + 1 {
            return None;
        }
        let direction = match RidDirection::from_str(string_of(input, a + 1, b).as_str()) {
            Ok(d) => d,
            Err(_) => {
                return None;
            },
        };
        let mut restrictions: Option<String> = None;
        let mut end = b;
        if at_char(input, b, ' ') {
            if let Some(e) = find_free_text_end(input, b + 1) {
                restrictions = Some(string_of(input, b + 1, e));
                end = e;
            }
        }
        let next = skip_line_end(input, end)?;
        Some((Rid { rid: string_of(input, pos + 1, a), direction, restrictions }, next))
    }

    pub fn to_string(&self) -> (r: Option<String>)
        ensures
            r.deep_view() == Some(self.deep_view().value()),
    {
        let mut out = String::new();
        push_str(&mut out, self.rid.as_str());
        out.push(' ');
        push_str(&mut out, self.direction.as_str());
        if let Some(r) = &self.restrictions {
            out.push(' ');
            push_str(&mut out, r.as_str());
        }
        assert(out@ =~= self.deep_view().value());
        Some(out)
    }
}

/// `a=fingerprint:<hash function> <bytes>`: the bytes are hexadecimal
/// numbers with colons between them.
#[derive(Debug, Clone, PartialEq, Eq)]
pub struct Fingerprint {
    pub hash_function: FingerprintHashFunction,
    pub fingerprint: Vec<u8>,
}

pub struct FingerprintView {
    pub hash_function: FingerprintHashFunctionView,
    pub fingerprint: Seq<u8>,
}

impl DeepView for Fingerprint {
    type V = FingerprintView;

    open spec fn deep_view(&self) -> FingerprintView {
        FingerprintView {
            hash_function: self.hash_function.deep_view(),
            fingerprint: self.fingerprint@,
        }
    }
}

impl FingerprintView {
    pub open spec fn grammar(s: Seq<char>, i: int) -> Option<(FingerprintView, int)> {
        let a = token_end(s, i + 1, Until::Field);
        let e = token_end(s, a + 1, Until::Line);
        let bytes = hex_bytes(s.subrange(a + 1, e), 0, false);
        if has_char(s, i, ':') && a > i + 1 && has_char(s, a, ' ') && bytes is Some && line_end(
            s,
            e,
        ) is Some {
            Some(
                (
                    FingerprintView {
                        hash_function: FingerprintHashFunctionView::of(s.subrange(i + 1, a)),
                        fingerprint: bytes->0,
                    },
                    line_end(s, e)->0,
                ),
            )
        } else {
            None
        }
    }

    pub open spec fn value(self) -> Seq<char> {
        self.hash_function.text() + seq![' '] + hex_text(self.fingerprint)
    }
}

impl Fingerprint {
    pub fn parse(input: &Vec<char>, pos: usize) -> (r: Option<(Fingerprint, usize)>)
        requires
            pos <= input.len(),
        ensures
            parsed_as(r, FingerprintView::grammar(input@, pos as int)),
            within(r, pos, input@.len()),
    {
        if !at_char(input, pos, ':') {
            return None;
        }
        let a = find_token_end(input, pos + 1, Until::Field);
        if a == pos + 1 || !at_char(input, a, ' ') {
            return None;
        }
        let e = find_token_end(input, a + 1, Until::Line);
        let next = skip_line_end(input, e)?;
        let part = slice_of(input, a + 1, e);
        let fingerprint = parse_hex_bytes(&part, false)?;
        match FingerprintHashFunction::from_str(string_of(input, pos + 1, a).as_str()) {
            Ok(hash_function) => Some((Fingerprint { hash_function, fingerprint }, next)),
            Err(_) => None,
        }
    }

    pub fn to_string(&self) -> (r: Option<String>)
        ensures
            r.deep_view() == Some(self.deep_view().value()),
    {
        let mut out = String::new();
        push_str(&mut out, self.hash_function.as_str());
        out.push(' ');
        push_hex_text(&mut out, &self.fingerprint);
        assert(out@ =~= self.deep_view().value());
        Some(out)
    }
}

/// The options that the tokens stand for, each once: a token that is the
/// same as an earlier one is left out.
pub open spec fn distinct_options(tokens: Seq<Seq<char>>) -> Seq<IceOptionView>
    decreases tokens.len(),
{
    if tokens.len() == 0 {
        Seq::empty()
    } else {
        let head = distinct_options(tokens.drop_last());
        let option = IceOptionView::of(tokens.last());
        if has_option(head, option) {
            head
        } else {
            head.push(option)
        }
    }
}

/// The list holds an option that is the same as the given one.
pub open spec fn has_option(options: Seq<IceOptionView>, option: IceOptionView) -> bool {
    exists|j: int| 0 <= j < options.len() && (#[trigger] options[j]).same(option)
}

/// No option is in the list twice.
pub open spec fn no_option_twice(options: Seq<IceOptionView>) -> bool {
    forall|a: int, b: int|
        0 <= a < b < options.len() ==> !(#[trigger] options[a]).same(#[trigger] options[b])
}

/// The options that tokens stand for hold no option twice.
pub proof fn lemma_distinct_options_differ(tokens: Seq<Seq<char>>)
    ensures
        no_option_twice(distinct_options(tokens)),
    decreases tokens.len(),
{
    if tokens.len() > 0 {
        lemma_distinct_options_differ(tokens.drop_last());
        let head = distinct_options(tokens.drop_last());
        let option = IceOptionView::of(tokens.last());
        if !has_option(head, option) {
            let all = head.push(option);
            assert forall|a: int, b: int| 0 <= a < b < all.len() implies !(#[trigger] all[a]).same(
                #[trigger] all[b],
            ) by {
                assert(all[a] == head[a]);
                if b < head.len() {
                    assert(all[b] == head[b]);
                }
            }
        }
    }
}

/// The texts of the options.
pub open spec fn option_texts(options: Seq<IceOptionView>) -> Seq<Seq<char>> {
    Seq::new(options.len(), |j: int| options[j].text())
}

pub fn contains_option(options: &Vec<IceOption>, option: &IceOption) -> (r: bool)
    ensures
        r == has_option(options.deep_view(), option.deep_view()),
{
    let ghost views = options.deep_view();
    let mut i: usize = 0;
    while i < options.len()
        invariant
            i <= options.len(),
            views == options.deep_view(),
            forall|j: int| 0 <= j < i ==> !(#[trigger] views[j]).same(option.deep_view()),
        decreases options.len() - i,
    {
        assert(views[i as int] == options@[i as int].deep_view());
        if options[i] == *option {
            return true;
        }
        i += 1;
    }
    false
}

/// Adds the option that a token stands for, unless the list has it.
pub fn add_option(options: &mut Vec<IceOption>, token: &str)
    ensures
        final(options).deep_view() == if has_option(
            old(options).deep_view(),
            IceOptionView::of(token@),
        ) {
            old(options).deep_view()
        } else {
            old(options).deep_view().push(IceOptionView::of(token@))
        },
{
    match IceOption::from_str(token) {
        Ok(option) => {
            if !contains_option(options, &option) {
                let ghost before = options.deep_view();
                options.push(option);
                assert(options.deep_view() =~= before.push(option.deep_view()));
            }
        },
        Err(_) => {},
    }
}

/// `a=ice-options:<option> ...`: a set of options, kept in the order in
/// which they first came.
#[derive(Debug, Clone, PartialEq, Eq)]
pub struct IceOptions(pub Vec<IceOption>);

impl DeepView for IceOptions {
    type V = Seq<IceOptionView>;

    open spec fn deep_view(&self) -> Seq<IceOptionView> {
        self.0.deep_view()
    }
}

impl IceOptions {
    pub open spec fn grammar(s: Seq<char>, i: int) -> Option<(Seq<IceOptionView>, int)> {
        let a = token_end(s, i + 1, Until::Field);
        let (more, b) = spaced_fields(s, a);
        if has_char(s, i, ':') && a > i + 1 && line_end(s, b) is Some {
            Some((distinct_options(seq![s.subrange(i + 1, a)] + more), line_end(s, b)->0))
        } else {
            None
        }
    }

    pub open spec fn value(options: Seq<IceOptionView>) -> Seq<char> {
        join(option_texts(options), seq![' '])
    }

    /// The options that are read hold no option twice.
    pub proof fn lemma_grammar_is_well_formed(s: Seq<char>, i: int)
        requires
            Self::grammar(s, i) is Some,
        ensures
            no_option_twice(crate::lexer::value_of(Self::grammar(s, i))),
    {
        assert forall|tokens: Seq<Seq<char>>| no_option_twice(
            #[trigger] distinct_options(tokens),
        ) by {
            lemma_distinct_options_differ(tokens);
        }
    }

    pub fn parse(input: &Vec<char>, pos: usize) -> (r: Option<(IceOptions, usize)>)
        requires
            pos <= input.len(),
        ensures
            parsed_as(r, Self::grammar(input@, pos as int)),
            within(r, pos, input@.len()),
    {
        if !at_char(input, pos, ':') {
            return None;
        }
        let a = find_token_end(input, pos + 1, Until::Field);
        if a == pos + 1 {
            return None;
        }
        let (more, b) = take_spaced_fields(input, a);
        let next = skip_line_end(input, b)?;
        let first = string_of(input, pos + 1, a);
        let ghost tokens = seq![first@] + more.deep_view();
        let mut options: Vec<IceOption> = Vec::new();
        assert(tokens.take(1).drop_last() =~= Seq::<Seq<char>>::empty());
        assert(tokens.take(1).last() == first@);
        assert(options.deep_view() =~= Seq::<IceOptionView>::empty());
        assert(distinct_options(Seq::<Seq<char>>::empty()) =~= Seq::<IceOptionView>::empty());
        add_option(&mut options, first.as_str());
        assert(options.deep_view() =~= distinct_options(tokens.take(1)));
        let mut i: usize = 0;
        while i < more.len()
            invariant
                i <= more.len(),
                tokens == seq![first@] + more.deep_view(),
                options.deep_view() == distinct_options(tokens.take(i + 1)),
            decreases more.len() - i,
        {
            assert(tokens.take(i + 2).drop_last() =~= tokens.take(i + 1));
            assert(tokens.take(i + 2).last() == more@[i as int]@);
            add_option(&mut options, more[i].as_str());
            i += 1;
        }
        assert(tokens.take(more.len() + 1) =~= tokens);
        Some((IceOptions(options), next))
    }

    pub fn to_string(&self) -> (r: Option<String>)
        ensures
            r.deep_view() == Some(Self::value(self.deep_view())),
    {
        let ghost texts = option_texts(self.deep_view());
        let mut out = String::new();
        let mut i: usize = 0;
        assert(texts.take(0) =~= Seq::<Seq<char>>::empty());
        while i < self.0.len()
            invariant
                i <= self.0.len(),
                texts == option_texts(self.deep_view()),
                out@ == join(texts.take(i as int), seq![' ']),
            decreases self.0.len() - i,
        {
            assert(texts.take(i + 1).drop_last() =~= texts.take(i as int));
            assert(texts.take(i + 1).last() == self.0@[i as int].deep_view().text());
            if i > 0 {
                out.push(' ');
            }
            push_str(&mut out, self.0[i].as_str());
            assert(out@ =~= join(texts.take(i + 1), seq![' ']));
            i += 1;
        }
        assert(texts.take(self.0.len() as int) =~= texts);
        Some(out)
    }
}

/// What is left of the extension pairs of a candidate once the TCP type is
/// taken out: the keys in lower case, each bound once.
pub open spec fn extension_pairs(raw: Seq<(Seq<char>, Seq<char>)>) -> Seq<(Seq<char>, Seq<char>)>
    decreases raw.len(),
{
    if raw.len() == 0 {
        Seq::empty()
    } else if raw.last().0 == "tcptype"@ {
        extension_pairs(raw.drop_last())
    } else {
        put(extension_pairs(raw.drop_last()), lower(raw.last().0), raw.last().1)
    }
}

/// What is left of the extension pairs holds every key once.
pub proof fn lemma_extension_pairs_are_distinct(raw: Seq<(Seq<char>, Seq<char>)>)
    ensures
        distinct_keys(extension_pairs(raw)),
    decreases raw.len(),
{
    if raw.len() > 0 {
        lemma_extension_pairs_are_distinct(raw.drop_last());
        lemma_put_keeps_distinct(
            extension_pairs(raw.drop_last()),
            lower(raw.last().0),
            raw.last().1,
        );
    }
}

/// The pairs one after another, with a space in front of each key and each
/// value.
pub open spec fn spaced_pair_text(pairs: Seq<(Seq<char>, Seq<char>)>) -> Seq<char>
    decreases pairs.len(),
{
    if pairs.len() == 0 {
        Seq::empty()
    } else {
        spaced_pair_text(pairs.drop_last()) + seq![' '] + pairs.last().0 + seq![' ']
            + pairs.last().1
    }
}

pub fn collect_pairs(bindings: &Vec<(String, String)>) -> (r: Vec<(String, String)>)
    ensures
        r.deep_view() == collected(bindings.deep_view()),
{
    let ghost views = bindings.deep_view();
    let mut out: Vec<(String, String)> = Vec::new();
    let mut i: usize = 0;
    assert(views.take(0) =~= Seq::<(Seq<char>, Seq<char>)>::empty());
    assert(out.deep_view() =~= Seq::<(Seq<char>, Seq<char>)>::empty());
    while i < bindings.len()
        invariant
            i <= bindings.len(),
            views == bindings.deep_view(),
            out.deep_view() == collected(views.take(i as int)),
        decreases bindings.len() - i,
    {
        assert(views.take(i + 1).drop_last() =~= views.take(i as int));
        assert(views.take(i + 1).last() == bindings@[i as int].deep_view());
        insert(&mut out, bindings[i].0.clone(), bindings[i].1.clone());
        i += 1;
    }
    assert(views.take(bindings.len() as int) =~= views);
    out
}

pub fn collect_extension_pairs(raw: &Vec<(String, String)>) -> (r: Vec<(String, String)>)
    ensures
        r.deep_view() == extension_pairs(raw.deep_view()),
{
    let ghost views = raw.deep_view();
    let tcp = "tcptype".to_owned();
    let mut out: Vec<(String, String)> = Vec::new();
    let mut i: usize = 0;
    assert(views.take(0) =~= Seq::<(Seq<char>, Seq<char>)>::empty());
    assert(out.deep_view() =~= Seq::<(Seq<char>, Seq<char>)>::empty());
    while i < raw.len()
        invariant
            i <= raw.len(),
            views == raw.deep_view(),
            tcp@ == "tcptype"@,
            out.deep_view() == extension_pairs(views.take(i as int)),
        decreases raw.len() - i,
    {
        assert(views.take(i + 1).drop_last() =~= views.take(i as int));
        assert(views.take(i + 1).last() == raw@[i as int].deep_view());
        if raw[i].0 != tcp {
            insert(&mut out, to_lower(raw[i].0.as_str()), raw[i].1.clone());
        }
        i += 1;
    }
    assert(views.take(raw.len() as int) =~= views);
    out
}

/// `a=candidate:<foundation> <component> <transport> <priority> <address>
/// <port> typ <kind>[ raddr <address>][ rport <port>][ <key> <value> ...]`.
///
/// Of the pairs at the end, `tcptype` gives the TCP type; the others are
/// kept under their keys in lower case.
#[derive(Debug, PartialEq, Eq)]
pub struct Candidate {
    pub foundation: String,
    pub component: u16,
    pub transport: IceTransportType,
    pub priority: u32,
    pub address: String,
    pub port: u16,
    pub kind: IceCandidateType,
    pub rel_addr: Option<String>,
    pub rel_port: Option<u16>,
    pub unknown: Vec<(String, String)>,
    pub tcp_type: Option<IceTcpType>,
}

pub struct CandidateView {
    pub foundation: Seq<char>,
    pub component: u16,
    pub transport: IceTransportTypeView,
    pub priority: u32,
    pub address: Seq<char>,
    pub port: u16,
    pub kind: IceCandidateTypeView,
    pub rel_addr: Option<Seq<char>>,
    pub rel_port: Option<u16>,
    pub unknown: Seq<(Seq<char>, Seq<char>)>,
    pub tcp_type: Option<IceTcpType>,
}

impl DeepView for Candidate {
    type V = CandidateView;

    open spec fn deep_view(&self) -> CandidateView {
        CandidateView {
            foundation: self.foundation@,
            component: self.component,
            transport: self.transport.deep_view(),
            priority: self.priority,
            address: self.address@,
            port: self.port,
            kind: self.kind.deep_view(),
            rel_addr: self.rel_addr.deep_view(),
            rel_port: self.rel_port,
            unknown: self.unknown.deep_view(),
            tcp_type: self.tcp_type,
        }
    }
}

impl CandidateView {
    /// No extension key is bound twice.
    pub open spec fn wf(self) -> bool {
        distinct_keys(self.unknown)
    }

    /// A candidate that is read is well formed.
    pub proof fn lemma_grammar_is_well_formed(s: Seq<char>, i: int)
        requires
            Self::grammar(s, i) is Some,
        ensures
            crate::lexer::value_of(Self::grammar(s, i)).wf(),
    {
        assert forall|raw: Seq<(Seq<char>, Seq<char>)>| distinct_keys(
            #[trigger] extension_pairs(raw),
        ) by {
            lemma_extension_pairs_are_distinct(raw);
        }
    }

    pub open spec fn grammar(s: Seq<char>, i: int) -> Option<(CandidateView, int)> {
        let a = token_end(s, i + 1, Until::Field);
        let b = token_end(s, a + 1, Until::Field);
        let component = unsigned_of(s.subrange(a + 1, b), 10, 0xffff);
        let c = token_end(s, b + 1, Until::Field);
        let d = token_end(s, c + 1, Until::Field);
        let priority = unsigned_of(s.subrange(c + 1, d), 10, 0xffff_ffff);
        let e = token_end(s, d + 1, Until::Field);
        let f = token_end(s, e + 1, Until::Field);
        let port = unsigned_of(s.subrange(e + 1, f), 10, 0xffff);
        let k = f + " typ "@.len();
        let g = token_end(s, k, Until::Field);
        let ra = g + " raddr "@.len();
        let h = token_end(s, ra, Until::Field);
        let has_raddr = has_tag(s, g, " raddr "@) && h > ra;
        let p = if has_raddr {
            h
        } else {
            g
        };
        let rp = p + " rport "@.len();
        let m = token_end(s, rp, Until::Field);
        let rport = if has_tag(s, p, " rport "@) {
            unsigned_of(s.subrange(rp, m), 10, 0xffff)
        } else {
            None
        };
        let q = if rport is Some {
            m
        } else {
            p
        };
        let (pairs, n) = spaced_pairs(s, q);
        let raw = collected(pairs);
        let tcp = lookup(raw, "tcptype"@);
        if has_char(s, i, ':') && a > i + 1 && has_char(s, a, ' ') && component is Some
            && has_char(s, b, ' ') && c > b + 1 && has_char(s, c, ' ') && priority is Some
            && has_char(s, d, ' ') && e > d + 1 && has_char(s, e, ' ') && port is Some && has_tag(
            s,
            f,
            " typ "@,
        ) && g > k && line_end(s, n) is Some && (tcp is Some ==> IceTcpType::of(tcp->0) is Some) {
            Some(
                (
                    CandidateView {
                        foundation: s.subrange(i + 1, a),
                        component: component->0 as u16,
                        transport: IceTransportTypeView::of(s.subrange(b + 1, c)),
                        priority: priority->0 as u32,
                        address: s.subrange(d + 1, e),
                        port: port->0 as u16,
                        kind: IceCandidateTypeView::of(s.subrange(k, g)),
                        rel_addr: if has_raddr {
                            Some(s.subrange(ra, h))
                        } else {
                            None
                        },
                        rel_port: match rport {
                            Some(v) => Some(v as u16),
                            None => None,
                        },
                        unknown: extension_pairs(raw),
                        tcp_type: match tcp {
                            Some(t) => IceTcpType::of(t),
                            None => None,
                        },
                    },
                    line_end(s, n)->0,
                ),
            )
        } else {
            None
        }
    }

    pub open spec fn value(self) -> Seq<char> {
        self.foundation + seq![' '] + decimal(self.component as nat) + seq![' ']
            + self.transport.text() + seq![' '] + decimal(self.priority as nat) + seq![' ']
            + self.address + seq![' '] + decimal(self.port as nat) + " typ "@ + self.kind.text()
            + (match self.rel_addr {
            Some(a) => " raddr "@ + a,
            None => Seq::empty(),
        }) + (match self.rel_port {
            Some(p) => " rport "@ + decimal(p as nat),
            None => Seq::empty(),
        }) + (match self.tcp_type {
            Some(t) => " tcptype "@ + t.text(),
            None => Seq::empty(),
        }) + spaced_pair_text(self.unknown)
    }
}

impl Candidate {
    pub fn parse(input: &Vec<char>, pos: usize) -> (r: Option<(Candidate, usize)>)
        requires
            pos <= input.len(),
        ensures
            parsed_as(r, CandidateView::grammar(input@, pos as int)),
            within(r, pos, input@.len()),
    {
        if !at_char(input, pos, ':') {
            return None;
        }
        let a = find_token_end(input, pos + 1, Until::Field);
        if a == pos + 1 || !at_char(input, a, ' ') {
            return None;
        }
        let b = find_token_end(input, a + 1, Until::Field);
        let component = parse_unsigned(input, a + 1, b, 10, 0xffff)?;
        if !at_char(input, b, ' ') {
            return None;
        }
        let c = find_token_end(input, b + 1, Until::Field);
        if c == b + 1 || !at_char(input, c, ' ') {
            return None;
        }
        let d = find_token_end(input, c + 1, Until::Field);
        let priority = parse_unsigned(input, c + 1, d, 10, 0xffff_ffff)?;
        if !at_char(input, d, ' ') {
            return None;
        }
        let e = find_token_end(input, d + 1, Until::Field);
        if e == d + 1 || !at_char(input, e, ' ') {
            return None;
        }
        let f = find_token_end(input, e + 1, Until::Field);
        let port = parse_unsigned(input, e + 1, f, 10, 0xffff)?;
        let k = skip_tag(input, f, " typ ")?;
        let g = find_token_end(input, k, Until::Field);
        if g == k {
            return None;
        }
        let mut rel_addr: Option<String> = None;
        let mut p = g;
        if let Some(ra) = skip_tag(input, g, " raddr ") {
            let h = find_token_end(input, ra, Until::Field);
            if h > ra {
                rel_addr = Some(string_of(input, ra, h));
                p = h;
            }
        }
        let mut rel_port: Option<u16> = None;
        let mut q = p;
        if let Some(rp) = skip_tag(input, p, " rport ") {
            let m = find_token_end(input, rp, Until::Field);
            if let Some(v) = parse_unsigned(input, rp, m, 10, 0xffff) {
                rel_port = Some(v as u16);
                q = m;
            }
        }
        let (pairs, n) = take_spaced_pairs(input, q);
        let next = skip_line_end(input, n)?;
        let raw = collect_pairs(&pairs);
        let tcp_type = match crate::pairs::get(&raw, "tcptype") {
            Some(t) => match IceTcpType::from_str(t.as_str()) {
                Ok(v) => Some(v),
                Err(_) => {
                    return None;
                },
            },
            None => None,
        };
        let unknown = collect_extension_pairs(&raw);
        let transport = match IceTransportType::from_str(string_of(input, b + 1, c).as_str()) {
            Ok(v) => v,
            Err(_) => {
                return None;
            },
        };
        let kind = match IceCandidateType::from_str(string_of(input, k, g).as_str()) {
            Ok(v) => v,
            Err(_) => {
                return None;
            },
        };
        Some(
            (
                Candidate {
                    foundation: string_of(input, pos + 1, a),
                    component: component as u16,
                    transport,
                    priority: priority as u32,
                    address: string_of(input, d + 1, e),
                    port: port as u16,
                    kind,
                    rel_addr,
                    rel_port,
                    unknown,
                    tcp_type,
                },
                next,
            ),
        )
    }

    pub fn to_string(&self) -> (r: Option<String>)
        ensures
            r.deep_view() == Some(self.deep_view().value()),
    {
        let ghost v = self.deep_view();
        let mut out = String::new();
        push_str(&mut out, self.foundation.as_str());
        out.push(' ');
        push_decimal(&mut out, self.component as u64);
        out.push(' ');
        push_str(&mut out, self.transport.as_str());
        out.push(' ');
        let ghost s1 = v.foundation + seq![' '] + decimal(v.component as nat) + seq![' ']
            + v.transport.text() + seq![' '];
        assert(out@ =~= s1);
        push_decimal(&mut out, self.priority as u64);
        out.push(' ');
        push_str(&mut out, self.address.as_str());
        out.push(' ');
        push_decimal(&mut out, self.port as u64);
        let ghost s2 = s1 + decimal(v.priority as nat) + seq![' '] + v.address + seq![' ']
            + decimal(v.port as nat);
        assert(out@ =~= s2);
        push_str(&mut out, " typ ");
        push_str(&mut out, self.kind.as_str());
        let ghost s3 = s2 + " typ "@ + v.kind.text();
        assert(out@ =~= s3);
        if let Some(a) = &self.rel_addr {
            push_str(&mut out, " raddr ");
            push_str(&mut out, a.as_str());
        }
        let ghost s4 = s3 + (match v.rel_addr {
            Some(a) => " raddr "@ + a,
            None => Seq::empty(),
        });
        assert(out@ =~= s4);
        if let Some(p) = self.rel_port {
            push_str(&mut out, " rport ");
            push_decimal(&mut out, p as u64);
        }
        let ghost s5 = s4 + (match v.rel_port {
            Some(p) => " rport "@ + decimal(p as nat),
            None => Seq::empty(),
        });
        assert(out@ =~= s5);
        if let Some(t) = &self.tcp_type {
            push_str(&mut out, " tcptype ");
            push_str(&mut out, t.as_str());
        }
        let ghost s6 = s5 + (match v.tcp_type {
            Some(t) => " tcptype "@ + t.text(),
            None => Seq::empty(),
        });
        assert(out@ =~= s6);
        let ghost head = out@;
        let ghost pairs = self.unknown.deep_view();
        let mut i: usize = 0;
        assert(pairs.take(0) =~= Seq::<(Seq<char>, Seq<char>)>::empty());
        while i < self.unknown.len()
            invariant
                i <= self.unknown.len(),
                pairs == self.unknown.deep_view(),
                out@ == head + spaced_pair_text(pairs.take(i as int)),
            decreases self.unknown.len() - i,
        {
            assert(pairs.take(i + 1).drop_last() =~= pairs.take(i as int));
            assert(pairs.take(i + 1).last() == self.unknown@[i as int].deep_view());
            out.push(' ');
            push_str(&mut out, self.unknown[i].0.as_str());
            out.push(' ');
            push_str(&mut out, self.unknown[i].1.as_str());
            assert(out@ =~= head + spaced_pair_text(pairs.take(i + 1)));
            i += 1;
        }
        assert(pairs.take(self.unknown.len() as int) =~= pairs);
        assert(s6 + spaced_pair_text(pairs) =~= v.value());
        Some(out)
    }
}

impl Clone for Candidate {
    fn clone(&self) -> (r: Self)
        ensures
            r.deep_view() == self.deep_view(),
    {
        Candidate {
            foundation: self.foundation.clone(),
            component: self.component,
            transport: self.transport.clone(),
            priority: self.priority,
            address: self.address.clone(),
            port: self.port,
            kind: self.kind.clone(),
            rel_addr: match &self.rel_addr {
                Some(a) => Some(a.clone()),
                None => None,
            },
            rel_port: self.rel_port,
            unknown: clone_text_pairs(&self.unknown),
            tcp_type: self.tcp_type,
        }
    }
}

} // verus!
