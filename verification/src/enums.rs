//! The closed vocabularies of the protocol.
//!
//! Each vocabulary is a table of texts. Reading a token ignores ASCII case.
//! An extensible vocabulary keeps an unlisted token in its `Unknown` variant,
//! exactly as it was written; a fixed one refuses it. Two values of an
//! extensible vocabulary are equal when their texts agree up to ASCII case,
//! whatever their variants, and a hasher is fed that text in lower case.

use vstd::prelude::*;
use vstd::std_specs::cmp::PartialEqSpecImpl;
use std::hash::Hash;
use std::hash::Hasher;
use crate::EnumParseError;
use crate::text::{eq_ignore_case, lower, same_ignoring_case, to_lower};

verus! {

/// `Hash::hash` of `String`: feeds a text to a hasher. Nothing is said of
/// the state that the hasher is left in.
#[verifier::external_body]
fn hash_text<H: Hasher>(text: String, state: &mut H) {
    text.hash(state)
}

/// Network types of origin and connection lines. The table is fixed: any other token is refused.
#[derive(Debug, Clone, Copy, PartialEq, Eq, Structural, Hash)]
pub enum NetworkType {
    Internet,
}

impl DeepView for NetworkType {
    type V = NetworkType;

    open spec fn deep_view(&self) -> NetworkType {
        *self
    }
}

impl NetworkType {
    /// The text that stands for the value on the wire.
    pub open spec fn text(self) -> Seq<char> {
        match self {
            NetworkType::Internet => "IN"@,
        }
    }

    /// The value that a token stands for, if the table lists it.
    pub open spec fn of(token: Seq<char>) -> Option<Self> {
        if same_ignoring_case(token, "IN"@) {
            Some(NetworkType::Internet)
        } else {
            None
        }
    }

    /// Reads a token, up to ASCII case.
    pub fn from_str(s: &str) -> (r: Result<Self, EnumParseError>)
        ensures
            match Self::of(s@) {
                Some(v) => r == Ok::<Self, EnumParseError>(v),
                None => r == Err::<Self, EnumParseError>(EnumParseError::VariantNotFound),
            },
    {
        if eq_ignore_case(s, "IN") {
            Ok(NetworkType::Internet)
        } else {
            Err(EnumParseError::VariantNotFound)
        }
    }

    pub fn as_str(&self) -> (r: &'static str)
        ensures
            r@ == self.text(),
    {
        match self {
            NetworkType::Internet => "IN",
        }
    }

    pub fn to_string(&self) -> (r: String)
        ensures
            r@ == self.text(),
    {
        self.as_str().to_owned()
    }
}

/// Address families of origin and connection lines. The table is fixed: any other token is refused.
#[derive(Debug, Clone, Copy, PartialEq, Eq, Structural, Hash)]
pub enum AddressType {
    Ip4,
    Ip6,
}

impl DeepView for AddressType {
    type V = AddressType;

    open spec fn deep_view(&self) -> AddressType {
        *self
    }
}

impl AddressType {
    /// The text that stands for the value on the wire.
    pub open spec fn text(self) -> Seq<char> {
        match self {
            AddressType::Ip4 => "IP4"@,
            AddressType::Ip6 => "IP6"@,
        }
    }

    /// The value that a token stands for, if the table lists it.
    pub open spec fn of(token: Seq<char>) -> Option<Self> {
        if same_ignoring_case(token, "IP4"@) {
            Some(AddressType::Ip4)
        } else if same_ignoring_case(token, "IP6"@) {
            Some(AddressType::Ip6)
        } else {
            None
        }
    }

    /// Reads a token, up to ASCII case.
    pub fn from_str(s: &str) -> (r: Result<Self, EnumParseError>)
        ensures
            match Self::of(s@) {
                Some(v) => r == Ok::<Self, EnumParseError>(v),
                None => r == Err::<Self, EnumParseError>(EnumParseError::VariantNotFound),
            },
    {
        if eq_ignore_case(s, "IP4") {
            Ok(AddressType::Ip4)
        } else if eq_ignore_case(s, "IP6") {
            Ok(AddressType::Ip6)
        } else {
            Err(EnumParseError::VariantNotFound)
        }
    }

    pub fn as_str(&self) -> (r: &'static str)
        ensures
            r@ == self.text(),
    {
        match self {
            AddressType::Ip4 => "IP4",
            AddressType::Ip6 => "IP6",
        }
    }

    pub fn to_string(&self) -> (r: String)
        ensures
            r@ == self.text(),
    {
        self.as_str().to_owned()
    }
}

/// Bandwidth modifiers of a `b=` line. A token outside the table is kept as it was written.
#[derive(Debug)]
pub enum BandwidthType {
    ConferenceTotal,
    ApplicationSpecific,
    TransportSpecific,
    Unknown(String),
}

/// What a [`BandwidthType`] is in contracts.
pub enum BandwidthTypeView {
    ConferenceTotal,
    ApplicationSpecific,
    TransportSpecific,
    Unknown(Seq<char>),
}

impl DeepView for BandwidthType {
    type V = BandwidthTypeView;

    open spec fn deep_view(&self) -> BandwidthTypeView {
        match self {
            BandwidthType::ConferenceTotal => BandwidthTypeView::ConferenceTotal,
            BandwidthType::ApplicationSpecific => BandwidthTypeView::ApplicationSpecific,
            BandwidthType::TransportSpecific => BandwidthTypeView::TransportSpecific,
            BandwidthType::Unknown(s) => BandwidthTypeView::Unknown(s@),
        }
    }
}

impl BandwidthTypeView {
    /// The text that stands for the value on the wire.
    pub open spec fn text(self) -> Seq<char> {
        match self {
            BandwidthTypeView::ConferenceTotal => "CT"@,
            BandwidthTypeView::ApplicationSpecific => "AS"@,
            BandwidthTypeView::TransportSpecific => "TIAS"@,
            BandwidthTypeView::Unknown(s) => s,
        }
    }

    /// The value that a token stands for.
    pub open spec fn of(token: Seq<char>) -> Self {
        if same_ignoring_case(token, "CT"@) {
            BandwidthTypeView::ConferenceTotal
        } else if same_ignoring_case(token, "AS"@) {
            BandwidthTypeView::ApplicationSpecific
        } else if same_ignoring_case(token, "TIAS"@) {
            BandwidthTypeView::TransportSpecific
        } else {
            BandwidthTypeView::Unknown(token)
        }
    }

    /// Two values are the same when their texts agree up to ASCII case.
    pub open spec fn same(self, other: Self) -> bool {
        same_ignoring_case(self.text(), other.text())
    }

    /// What equal values share, and what is hashed.
    pub open spec fn key(self) -> Seq<char> {
        lower(self.text())
    }

    /// Identity goes by the text and not by the variant: a value is the same
    /// as the `Unknown` value that holds its text in any ASCII case, in both
    /// directions, and the two have one key.
    pub proof fn lemma_unknown_with_same_text(self, raw: Seq<char>)
        requires
            same_ignoring_case(raw, self.text()),
        ensures
            self.same(BandwidthTypeView::Unknown(raw)),
            BandwidthTypeView::Unknown(raw).same(self),
            self.key() == BandwidthTypeView::Unknown(raw).key(),
    {
    }

    /// Two values are the same exactly when their keys are equal.
    pub proof fn lemma_same_is_equal_keys(self, other: Self)
        ensures
            self.same(other) <==> self.key() == other.key(),
    {
    }

    /// Values that are the same hash alike: a hasher is fed the key and
    /// nothing else, so whatever it computes from what it is fed is the
    /// same for both.
    pub proof fn lemma_same_values_hash_alike(
        self,
        other: Self,
        hasher: spec_fn(Seq<char>) -> u64,
    )
        requires
            self.same(other),
        ensures
            hasher(self.key()) == hasher(other.key()),
    {
    }
}

impl BandwidthType {
    /// Reads a token; never fails, since unlisted tokens are kept.
    pub fn from_str(s: &str) -> (r: Result<Self, EnumParseError>)
        ensures
            r is Ok,
            r->Ok_0.deep_view() == BandwidthTypeView::of(s@),
    {
        if eq_ignore_case(s, "CT") {
            Ok(BandwidthType::ConferenceTotal)
        } else if eq_ignore_case(s, "AS") {
            Ok(BandwidthType::ApplicationSpecific)
        } else if eq_ignore_case(s, "TIAS") {
            Ok(BandwidthType::TransportSpecific)
        } else {
            Ok(BandwidthType::Unknown(s.to_owned()))
        }
    }

    pub fn as_str(&self) -> (r: &str)
        ensures
            r@ == self.deep_view().text(),
    {
        match self {
            BandwidthType::ConferenceTotal => "CT",
            BandwidthType::ApplicationSpecific => "AS",
            BandwidthType::TransportSpecific => "TIAS",
            BandwidthType::Unknown(s) => s.as_str(),
        }
    }

    pub fn to_string(&self) -> (r: String)
        ensures
            r@ == self.deep_view().text(),
    {
        self.as_str().to_owned()
    }

    /// The text that is handed to a hasher for this value.
    pub fn hash_key(&self) -> (r: String)
        ensures
            r@ == self.deep_view().key(),
    {
        to_lower(self.as_str())
    }
}

impl Clone for BandwidthType {
    fn clone(&self) -> (r: Self)
        ensures
            r.deep_view() == self.deep_view(),
    {
        match self {
            BandwidthType::ConferenceTotal => BandwidthType::ConferenceTotal,
            BandwidthType::ApplicationSpecific => BandwidthType::ApplicationSpecific,
            BandwidthType::TransportSpecific => BandwidthType::TransportSpecific,
            BandwidthType::Unknown(s) => BandwidthType::Unknown(s.clone()),
        }
    }
}

impl PartialEq for BandwidthType {
    fn eq(&self, other: &Self) -> (r: bool) {
        eq_ignore_case(self.as_str(), other.as_str())
    }
}

impl Eq for BandwidthType {
}

impl PartialEqSpecImpl for BandwidthType {
    open spec fn obeys_eq_spec() -> bool {
        true
    }

    open spec fn eq_spec(&self, other: &Self) -> bool {
        self.deep_view().same(other.deep_view())
    }
}

impl Hash for BandwidthType {
    /// Hashes the key, so that equal values hash alike.
    fn hash<H: Hasher>(&self, state: &mut H) {
        hash_text(self.hash_key(), state)
    }
}

/// Media kinds of an `m=` line. A token outside the table is kept as it was written.
#[derive(Debug)]
pub enum MediaType {
    Audio,
    Video,
    Text,
    Application,
    Message,
    Unknown(String),
}

/// What a [`MediaType`] is in contracts.
pub enum MediaTypeView {
    Audio,
    Video,
    Text,
    Application,
    Message,
    Unknown(Seq<char>),
}

impl DeepView for MediaType {
    type V = MediaTypeView;

    open spec fn deep_view(&self) -> MediaTypeView {
        match self {
            MediaType::Audio => MediaTypeView::Audio,
            MediaType::Video => MediaTypeView::Video,
            MediaType::Text => MediaTypeView::Text,
            MediaType::Application => MediaTypeView::Application,
            MediaType::Message => MediaTypeView::Message,
            MediaType::Unknown(s) => MediaTypeView::Unknown(s@),
        }
    }
}

impl MediaTypeView {
    /// The text that stands for the value on the wire.
    pub open spec fn text(self) -> Seq<char> {
        match self {
            MediaTypeView::Audio => "audio"@,
            MediaTypeView::Video => "video"@,
            MediaTypeView::Text => "text"@,
            MediaTypeView::Application => "application"@,
            MediaTypeView::Message => "message"@,
            MediaTypeView::Unknown(s) => s,
        }
    }

    /// The value that a token stands for.
    pub open spec fn of(token: Seq<char>) -> Self {
        if same_ignoring_case(token, "audio"@) {
            MediaTypeView::Audio
        } else if same_ignoring_case(token, "video"@) {
            MediaTypeView::Video
        } else if same_ignoring_case(token, "text"@) {
            MediaTypeView::Text
        } else if same_ignoring_case(token, "application"@) {
            MediaTypeView::Application
        } else if same_ignoring_case(token, "message"@) {
            MediaTypeView::Message
        } else {
            MediaTypeView::Unknown(token)
        }
    }

    /// Two values are the same when their texts agree up to ASCII case.
    pub open spec fn same(self, other: Self) -> bool {
        same_ignoring_case(self.text(), other.text())
    }

    /// What equal values share, and what is hashed.
    pub open spec fn key(self) -> Seq<char> {
        lower(self.text())
    }

    /// Identity goes by the text and not by the variant: a value is the same
    /// as the `Unknown` value that holds its text in any ASCII case, in both
    /// directions, and the two have one key.
    pub proof fn lemma_unknown_with_same_text(self, raw: Seq<char>)
        requires
            same_ignoring_case(raw, self.text()),
        ensures
            self.same(MediaTypeView::Unknown(raw)),
            MediaTypeView::Unknown(raw).same(self),
            self.key() == MediaTypeView::Unknown(raw).key(),
    {
    }

    /// Two values are the same exactly when their keys are equal.
    pub proof fn lemma_same_is_equal_keys(self, other: Self)
        ensures
            self.same(other) <==> self.key() == other.key(),
    {
    }

    /// Values that are the same hash alike: a hasher is fed the key and
    /// nothing else, so whatever it computes from what it is fed is the
    /// same for both.
    pub proof fn lemma_same_values_hash_alike(
        self,
        other: Self,
        hasher: spec_fn(Seq<char>) -> u64,
    )
        requires
            self.same(other),
        ensures
            hasher(self.key()) == hasher(other.key()),
    {
    }
}

impl MediaType {
    /// Reads a token; never fails, since unlisted tokens are kept.
    pub fn from_str(s: &str) -> (r: Result<Self, EnumParseError>)
        ensures
            r is Ok,
            r->Ok_0.deep_view() == MediaTypeView::of(s@),
    {
        if eq_ignore_case(s, "audio") {
            Ok(MediaType::Audio)
        } else if eq_ignore_case(s, "video") {
            Ok(MediaType::Video)
        } else if eq_ignore_case(s, "text") {
            Ok(MediaType::Text)
        } else if eq_ignore_case(s, "application") {
            Ok(MediaType::Application)
        } else if eq_ignore_case(s, "message") {
            Ok(MediaType::Message)
        } else {
            Ok(MediaType::Unknown(s.to_owned()))
        }
    }

    pub fn as_str(&self) -> (r: &str)
        ensures
            r@ == self.deep_view().text(),
    {
        match self {
            MediaType::Audio => "audio",
            MediaType::Video => "video",
            MediaType::Text => "text",
            MediaType::Application => "application",
            MediaType::Message => "message",
            MediaType::Unknown(s) => s.as_str(),
        }
    }

    pub fn to_string(&self) -> (r: String)
        ensures
            r@ == self.deep_view().text(),
    {
        self.as_str().to_owned()
    }

    /// The text that is handed to a hasher for this value.
    pub fn hash_key(&self) -> (r: String)
        ensures
            r@ == self.deep_view().key(),
    {
        to_lower(self.as_str())
    }
}

impl Clone for MediaType {
    fn clone(&self) -> (r: Self)
        ensures
            r.deep_view() == self.deep_view(),
    {
        match self {
            MediaType::Audio => MediaType::Audio,
            MediaType::Video => MediaType::Video,
            MediaType::Text => MediaType::Text,
            MediaType::Application => MediaType::Application,
            MediaType::Message => MediaType::Message,
            MediaType::Unknown(s) => MediaType::Unknown(s.clone()),
        }
    }
}

impl PartialEq for MediaType {
    fn eq(&self, other: &Self) -> (r: bool) {
        eq_ignore_case(self.as_str(), other.as_str())
    }
}

impl Eq for MediaType {
}

impl PartialEqSpecImpl for MediaType {
    open spec fn obeys_eq_spec() -> bool {
        true
    }

    open spec fn eq_spec(&self, other: &Self) -> bool {
        self.deep_view().same(other.deep_view())
    }
}

impl Hash for MediaType {
    /// Hashes the key, so that equal values hash alike.
    fn hash<H: Hasher>(&self, state: &mut H) {
        hash_text(self.hash_key(), state)
    }
}

/// Transport protocols of an `m=` line, a registry that new transports are
/// added to. A token outside the table is kept as it was written.
#[derive(Debug)]
pub enum TransportProtocol {
    Udp,
    RtpAvp,
    RtpAvpf,
    RtpSavp,
    RtpSavpf,
    TcpTlsRtpSavp,
    TcpTlsRtpSavpf,
    UdpTlsRtpSavp,
    UdpTlsRtpSavpf,
    UdpDtlsSctp,
    TcpDtlsSctp,
    DtlsSctp,
    Unknown(String),
}

/// What a [`TransportProtocol`] is in contracts.
pub enum TransportProtocolView {
    Udp,
    RtpAvp,
    RtpAvpf,
    RtpSavp,
    RtpSavpf,
    TcpTlsRtpSavp,
    TcpTlsRtpSavpf,
    UdpTlsRtpSavp,
    UdpTlsRtpSavpf,
    UdpDtlsSctp,
    TcpDtlsSctp,
    DtlsSctp,
    Unknown(Seq<char>),
}

impl DeepView for TransportProtocol {
    type V = TransportProtocolView;

    open spec fn deep_view(&self) -> TransportProtocolView {
        match self {
            TransportProtocol::Udp => TransportProtocolView::Udp,
            TransportProtocol::RtpAvp => TransportProtocolView::RtpAvp,
            TransportProtocol::RtpAvpf => TransportProtocolView::RtpAvpf,
            TransportProtocol::RtpSavp => TransportProtocolView::RtpSavp,
            TransportProtocol::RtpSavpf => TransportProtocolView::RtpSavpf,
            TransportProtocol::TcpTlsRtpSavp => TransportProtocolView::TcpTlsRtpSavp,
            TransportProtocol::TcpTlsRtpSavpf => TransportProtocolView::TcpTlsRtpSavpf,
            TransportProtocol::UdpTlsRtpSavp => TransportProtocolView::UdpTlsRtpSavp,
            TransportProtocol::UdpTlsRtpSavpf => TransportProtocolView::UdpTlsRtpSavpf,
            TransportProtocol::UdpDtlsSctp => TransportProtocolView::UdpDtlsSctp,
            TransportProtocol::TcpDtlsSctp => TransportProtocolView::TcpDtlsSctp,
            TransportProtocol::DtlsSctp => TransportProtocolView::DtlsSctp,
            TransportProtocol::Unknown(s) => TransportProtocolView::Unknown(s@),
        }
    }
}

impl TransportProtocolView {
    /// The text that stands for the value on the wire.
    pub open spec fn text(self) -> Seq<char> {
        match self {
            TransportProtocolView::Udp => "udp"@,
            TransportProtocolView::RtpAvp => "RTP/AVP"@,
            TransportProtocolView::RtpAvpf => "RTP/AVPF"@,
            TransportProtocolView::RtpSavp => "RTP/SAVP"@,
            TransportProtocolView::RtpSavpf => "RTP/SAVPF"@,
            TransportProtocolView::TcpTlsRtpSavp => "TCP/TLS/RTP/SAVP"@,
            TransportProtocolView::TcpTlsRtpSavpf => "TCP/TLS/RTP/SAVPF"@,
            TransportProtocolView::UdpTlsRtpSavp => "UDP/TLS/RTP/SAVP"@,
            TransportProtocolView::UdpTlsRtpSavpf => "UDP/TLS/RTP/SAVPF"@,
            TransportProtocolView::UdpDtlsSctp => "UDP/DTLS/SCTP"@,
            TransportProtocolView::TcpDtlsSctp => "TCP/DTLS/SCTP"@,
            TransportProtocolView::DtlsSctp => "DTLS/SCTP"@,
            TransportProtocolView::Unknown(s) => s,
        }
    }

    /// The value that a token stands for.
    pub open spec fn of(token: Seq<char>) -> Self {
        if same_ignoring_case(token, "udp"@) {
            TransportProtocolView::Udp
        } else if same_ignoring_case(token, "RTP/AVP"@) {
            TransportProtocolView::RtpAvp
        } else if same_ignoring_case(token, "RTP/AVPF"@) {
            TransportProtocolView::RtpAvpf
        } else if same_ignoring_case(token, "RTP/SAVP"@) {
            TransportProtocolView::RtpSavp
        } else if same_ignoring_case(token, "RTP/SAVPF"@) {
            TransportProtocolView::RtpSavpf
        } else if same_ignoring_case(token, "TCP/TLS/RTP/SAVP"@) {
            TransportProtocolView::TcpTlsRtpSavp
        } else if same_ignoring_case(token, "TCP/TLS/RTP/SAVPF"@) {
            TransportProtocolView::TcpTlsRtpSavpf
        } else if same_ignoring_case(token, "UDP/TLS/RTP/SAVP"@) {
            TransportProtocolView::UdpTlsRtpSavp
        } else if same_ignoring_case(token, "UDP/TLS/RTP/SAVPF"@) {
            TransportProtocolView::UdpTlsRtpSavpf
        } else if same_ignoring_case(token, "UDP/DTLS/SCTP"@) {
            TransportProtocolView::UdpDtlsSctp
        } else if same_ignoring_case(token, "TCP/DTLS/SCTP"@) {
            TransportProtocolView::TcpDtlsSctp
        } else if same_ignoring_case(token, "DTLS/SCTP"@) {
            TransportProtocolView::DtlsSctp
        } else {
            TransportProtocolView::Unknown(token)
        }
    }

    /// Two values are the same when their texts agree up to ASCII case.
    pub open spec fn same(self, other: Self) -> bool {
        same_ignoring_case(self.text(), other.text())
    }

    /// What equal values share, and what is hashed.
    pub open spec fn key(self) -> Seq<char> {
        lower(self.text())
    }

    /// Identity goes by the text and not by the variant: a value is the same
    /// as the `Unknown` value that holds its text in any ASCII case, in both
    /// directions, and the two have one key.
    pub proof fn lemma_unknown_with_same_text(self, raw: Seq<char>)
        requires
            same_ignoring_case(raw, self.text()),
        ensures
            self.same(TransportProtocolView::Unknown(raw)),
            TransportProtocolView::Unknown(raw).same(self),
            self.key() == TransportProtocolView::Unknown(raw).key(),
    {
    }

    /// Two values are the same exactly when their keys are equal.
    pub proof fn lemma_same_is_equal_keys(self, other: Self)
        ensures
            self.same(other) <==> self.key() == other.key(),
    {
    }

    /// Values that are the same hash alike: a hasher is fed the key and
    /// nothing else, so whatever it computes from what it is fed is the
    /// same for both.
    pub proof fn lemma_same_values_hash_alike(
        self,
        other: Self,
        hasher: spec_fn(Seq<char>) -> u64,
    )
        requires
            self.same(other),
        ensures
            hasher(self.key()) == hasher(other.key()),
    {
    }
}

impl TransportProtocol {
    /// Reads a token; never fails, since unlisted tokens are kept.
    pub fn from_str(s: &str) -> (r: Result<Self, EnumParseError>)
        ensures
            r is Ok,
            r->Ok_0.deep_view() == TransportProtocolView::of(s@),
    {
        if eq_ignore_case(s, "udp") {
            Ok(TransportProtocol::Udp)
        } else if eq_ignore_case(s, "RTP/AVP") {
            Ok(TransportProtocol::RtpAvp)
        } else if eq_ignore_case(s, "RTP/AVPF") {
            Ok(TransportProtocol::RtpAvpf)
        } else if eq_ignore_case(s, "RTP/SAVP") {
            Ok(TransportProtocol::RtpSavp)
        } else if eq_ignore_case(s, "RTP/SAVPF") {
            Ok(TransportProtocol::RtpSavpf)
        } else if eq_ignore_case(s, "TCP/TLS/RTP/SAVP") {
            Ok(TransportProtocol::TcpTlsRtpSavp)
        } else if eq_ignore_case(s, "TCP/TLS/RTP/SAVPF") {
            Ok(TransportProtocol::TcpTlsRtpSavpf)
        } else if eq_ignore_case(s, "UDP/TLS/RTP/SAVP") {
            Ok(TransportProtocol::UdpTlsRtpSavp)
        } else if eq_ignore_case(s, "UDP/TLS/RTP/SAVPF") {
            Ok(TransportProtocol::UdpTlsRtpSavpf)
        } else if eq_ignore_case(s, "UDP/DTLS/SCTP") {
            Ok(TransportProtocol::UdpDtlsSctp)
        } else if eq_ignore_case(s, "TCP/DTLS/SCTP") {
            Ok(TransportProtocol::TcpDtlsSctp)
        } else if eq_ignore_case(s, "DTLS/SCTP") {
            Ok(TransportProtocol::DtlsSctp)
        } else {
            Ok(TransportProtocol::Unknown(s.to_owned()))
        }
    }

    pub fn as_str(&self) -> (r: &str)
        ensures
            r@ == self.deep_view().text(),
    {
        match self {
            TransportProtocol::Udp => "udp",
            TransportProtocol::RtpAvp => "RTP/AVP",
            TransportProtocol::RtpAvpf => "RTP/AVPF",
            TransportProtocol::RtpSavp => "RTP/SAVP",
            TransportProtocol::RtpSavpf => "RTP/SAVPF",
            TransportProtocol::TcpTlsRtpSavp => "TCP/TLS/RTP/SAVP",
            TransportProtocol::TcpTlsRtpSavpf => "TCP/TLS/RTP/SAVPF",
            TransportProtocol::UdpTlsRtpSavp => "UDP/TLS/RTP/SAVP",
            TransportProtocol::UdpTlsRtpSavpf => "UDP/TLS/RTP/SAVPF",
            TransportProtocol::UdpDtlsSctp => "UDP/DTLS/SCTP",
            TransportProtocol::TcpDtlsSctp => "TCP/DTLS/SCTP",
            TransportProtocol::DtlsSctp => "DTLS/SCTP",
            TransportProtocol::Unknown(s) => s.as_str(),
        }
    }

    pub fn to_string(&self) -> (r: String)
        ensures
            r@ == self.deep_view().text(),
    {
        self.as_str().to_owned()
    }

    /// The text that is handed to a hasher for this value.
    pub fn hash_key(&self) -> (r: String)
        ensures
            r@ == self.deep_view().key(),
    {
        to_lower(self.as_str())
    }
}

impl Clone for TransportProtocol {
    fn clone(&self) -> (r: Self)
        ensures
            r.deep_view() == self.deep_view(),
    {
        match self {
            TransportProtocol::Udp => TransportProtocol::Udp,
            TransportProtocol::RtpAvp => TransportProtocol::RtpAvp,
            TransportProtocol::RtpAvpf => TransportProtocol::RtpAvpf,
            TransportProtocol::RtpSavp => TransportProtocol::RtpSavp,
            TransportProtocol::RtpSavpf => TransportProtocol::RtpSavpf,
            TransportProtocol::TcpTlsRtpSavp => TransportProtocol::TcpTlsRtpSavp,
            TransportProtocol::TcpTlsRtpSavpf => TransportProtocol::TcpTlsRtpSavpf,
            TransportProtocol::UdpTlsRtpSavp => TransportProtocol::UdpTlsRtpSavp,
            TransportProtocol::UdpTlsRtpSavpf => TransportProtocol::UdpTlsRtpSavpf,
            TransportProtocol::UdpDtlsSctp => TransportProtocol::UdpDtlsSctp,
            TransportProtocol::TcpDtlsSctp => TransportProtocol::TcpDtlsSctp,
            TransportProtocol::DtlsSctp => TransportProtocol::DtlsSctp,
            TransportProtocol::Unknown(s) => TransportProtocol::Unknown(s.clone()),
        }
    }
}

impl PartialEq for TransportProtocol {
    fn eq(&self, other: &Self) -> (r: bool) {
        eq_ignore_case(self.as_str(), other.as_str())
    }
}

impl Eq for TransportProtocol {
}

impl PartialEqSpecImpl for TransportProtocol {
    open spec fn obeys_eq_spec() -> bool {
        true
    }

    open spec fn eq_spec(&self, other: &Self) -> bool {
        self.deep_view().same(other.deep_view())
    }
}

impl Hash for TransportProtocol {
    /// Hashes the key, so that equal values hash alike.
    fn hash<H: Hasher>(&self, state: &mut H) {
        hash_text(self.hash_key(), state)
    }
}

/// Transports of an ICE candidate. A token outside the table is kept as it was written.
#[derive(Debug)]
pub enum IceTransportType {
    Udp,
    Tcp,
    Unknown(String),
}

/// What a [`IceTransportType`] is in contracts.
pub enum IceTransportTypeView {
    Udp,
    Tcp,
    Unknown(Seq<char>),
}

impl DeepView for IceTransportType {
    type V = IceTransportTypeView;

    open spec fn deep_view(&self) -> IceTransportTypeView {
        match self {
            IceTransportType::Udp => IceTransportTypeView::Udp,
            IceTransportType::Tcp => IceTransportTypeView::Tcp,
            IceTransportType::Unknown(s) => IceTransportTypeView::Unknown(s@),
        }
    }
}

impl IceTransportTypeView {
    /// The text that stands for the value on the wire.
    pub open spec fn text(self) -> Seq<char> {
        match self {
            IceTransportTypeView::Udp => "UDP"@,
            IceTransportTypeView::Tcp => "TCP"@,
            IceTransportTypeView::Unknown(s) => s,
        }
    }

    /// The value that a token stands for.
    pub open spec fn of(token: Seq<char>) -> Self {
        if same_ignoring_case(token, "UDP"@) {
            IceTransportTypeView::Udp
        } else if same_ignoring_case(token, "TCP"@) {
            IceTransportTypeView::Tcp
        } else {
            IceTransportTypeView::Unknown(token)
        }
    }

    /// Two values are the same when their texts agree up to ASCII case.
    pub open spec fn same(self, other: Self) -> bool {
        same_ignoring_case(self.text(), other.text())
    }

    /// What equal values share, and what is hashed.
    pub open spec fn key(self) -> Seq<char> {
        lower(self.text())
    }

    /// Identity goes by the text and not by the variant: a value is the same
    /// as the `Unknown` value that holds its text in any ASCII case, in both
    /// directions, and the two have one key.
    pub proof fn lemma_unknown_with_same_text(self, raw: Seq<char>)
        requires
            same_ignoring_case(raw, self.text()),
        ensures
            self.same(IceTransportTypeView::Unknown(raw)),
            IceTransportTypeView::Unknown(raw).same(self),
            self.key() == IceTransportTypeView::Unknown(raw).key(),
    {
    }

    /// Two values are the same exactly when their keys are equal.
    pub proof fn lemma_same_is_equal_keys(self, other: Self)
        ensures
            self.same(other) <==> self.key() == other.key(),
    {
    }

    /// Values that are the same hash alike: a hasher is fed the key and
    /// nothing else, so whatever it computes from what it is fed is the
    /// same for both.
    pub proof fn lemma_same_values_hash_alike(
        self,
        other: Self,
        hasher: spec_fn(Seq<char>) -> u64,
    )
        requires
            self.same(other),
        ensures
            hasher(self.key()) == hasher(other.key()),
    {
    }
}

impl IceTransportType {
    /// Reads a token; never fails, since unlisted tokens are kept.
    pub fn from_str(s: &str) -> (r: Result<Self, EnumParseError>)
        ensures
            r is Ok,
            r->Ok_0.deep_view() == IceTransportTypeView::of(s@),
    {
        if eq_ignore_case(s, "UDP") {
            Ok(IceTransportType::Udp)
        } else if eq_ignore_case(s, "TCP") {
            Ok(IceTransportType::Tcp)
        } else {
            Ok(IceTransportType::Unknown(s.to_owned()))
        }
    }

    pub fn as_str(&self) -> (r: &str)
        ensures
            r@ == self.deep_view().text(),
    {
        match self {
            IceTransportType::Udp => "UDP",
            IceTransportType::Tcp => "TCP",
            IceTransportType::Unknown(s) => s.as_str(),
        }
    }

    pub fn to_string(&self) -> (r: String)
        ensures
            r@ == self.deep_view().text(),
    {
        self.as_str().to_owned()
    }

    /// The text that is handed to a hasher for this value.
    pub fn hash_key(&self) -> (r: String)
        ensures
            r@ == self.deep_view().key(),
    {
        to_lower(self.as_str())
    }
}

impl Clone for IceTransportType {
    fn clone(&self) -> (r: Self)
        ensures
            r.deep_view() == self.deep_view(),
    {
        match self {
            IceTransportType::Udp => IceTransportType::Udp,
            IceTransportType::Tcp => IceTransportType::Tcp,
            IceTransportType::Unknown(s) => IceTransportType::Unknown(s.clone()),
        }
    }
}

impl PartialEq for IceTransportType {
    fn eq(&self, other: &Self) -> (r: bool) {
        eq_ignore_case(self.as_str(), other.as_str())
    }
}

impl Eq for IceTransportType {
}

impl PartialEqSpecImpl for IceTransportType {
    open spec fn obeys_eq_spec() -> bool {
        true
    }

    open spec fn eq_spec(&self, other: &Self) -> bool {
        self.deep_view().same(other.deep_view())
    }
}

impl Hash for IceTransportType {
    /// Hashes the key, so that equal values hash alike.
    fn hash<H: Hasher>(&self, state: &mut H) {
        hash_text(self.hash_key(), state)
    }
}

/// Kinds of ICE candidate. A token outside the table is kept as it was written.
#[derive(Debug)]
pub enum IceCandidateType {
    Host,
    ServerReflexive,
    PeerReflexive,
    Relayed,
    Unknown(String),
}

/// What a [`IceCandidateType`] is in contracts.
pub enum IceCandidateTypeView {
    Host,
    ServerReflexive,
    PeerReflexive,
    Relayed,
    Unknown(Seq<char>),
}

impl DeepView for IceCandidateType {
    type V = IceCandidateTypeView;

    open spec fn deep_view(&self) -> IceCandidateTypeView {
        match self {
            IceCandidateType::Host => IceCandidateTypeView::Host,
            IceCandidateType::ServerReflexive => IceCandidateTypeView::ServerReflexive,
            IceCandidateType::PeerReflexive => IceCandidateTypeView::PeerReflexive,
            IceCandidateType::Relayed => IceCandidateTypeView::Relayed,
            IceCandidateType::Unknown(s) => IceCandidateTypeView::Unknown(s@),
        }
    }
}

impl IceCandidateTypeView {
    /// The text that stands for the value on the wire.
    pub open spec fn text(self) -> Seq<char> {
        match self {
            IceCandidateTypeView::Host => "host"@,
            IceCandidateTypeView::ServerReflexive => "srflx"@,
            IceCandidateTypeView::PeerReflexive => "prflx"@,
            IceCandidateTypeView::Relayed => "relay"@,
            IceCandidateTypeView::Unknown(s) => s,
        }
    }

    /// The value that a token stands for.
    pub open spec fn of(token: Seq<char>) -> Self {
        if same_ignoring_case(token, "host"@) {
            IceCandidateTypeView::Host
        } else if same_ignoring_case(token, "srflx"@) {
            IceCandidateTypeView::ServerReflexive
        } else if same_ignoring_case(token, "prflx"@) {
            IceCandidateTypeView::PeerReflexive
        } else if same_ignoring_case(token, "relay"@) {
            IceCandidateTypeView::Relayed
        } else {
            IceCandidateTypeView::Unknown(token)
        }
    }

    /// Two values are the same when their texts agree up to ASCII case.
    pub open spec fn same(self, other: Self) -> bool {
        same_ignoring_case(self.text(), other.text())
    }

    /// What equal values share, and what is hashed.
    pub open spec fn key(self) -> Seq<char> {
        lower(self.text())
    }

    /// Identity goes by the text and not by the variant: a value is the same
    /// as the `Unknown` value that holds its text in any ASCII case, in both
    /// directions, and the two have one key.
    pub proof fn lemma_unknown_with_same_text(self, raw: Seq<char>)
        requires
            same_ignoring_case(raw, self.text()),
        ensures
            self.same(IceCandidateTypeView::Unknown(raw)),
            IceCandidateTypeView::Unknown(raw).same(self),
            self.key() == IceCandidateTypeView::Unknown(raw).key(),
    {
    }

    /// Two values are the same exactly when their keys are equal.
    pub proof fn lemma_same_is_equal_keys(self, other: Self)
        ensures
            self.same(other) <==> self.key() == other.key(),
    {
    }

    /// Values that are the same hash alike: a hasher is fed the key and
    /// nothing else, so whatever it computes from what it is fed is the
    /// same for both.
    pub proof fn lemma_same_values_hash_alike(
        self,
        other: Self,
        hasher: spec_fn(Seq<char>) -> u64,
    )
        requires
            self.same(other),
        ensures
            hasher(self.key()) == hasher(other.key()),
    {
    }
}

impl IceCandidateType {
    /// Reads a token; never fails, since unlisted tokens are kept.
    pub fn from_str(s: &str) -> (r: Result<Self, EnumParseError>)
        ensures
            r is Ok,
            r->Ok_0.deep_view() == IceCandidateTypeView::of(s@),
    {
        if eq_ignore_case(s, "host") {
            Ok(IceCandidateType::Host)
        } else if eq_ignore_case(s, "srflx") {
            Ok(IceCandidateType::ServerReflexive)
        } else if eq_ignore_case(s, "prflx") {
            Ok(IceCandidateType::PeerReflexive)
        } else if eq_ignore_case(s, "relay") {
            Ok(IceCandidateType::Relayed)
        } else {
            Ok(IceCandidateType::Unknown(s.to_owned()))
        }
    }

    pub fn as_str(&self) -> (r: &str)
        ensures
            r@ == self.deep_view().text(),
    {
        match self {
            IceCandidateType::Host => "host",
            IceCandidateType::ServerReflexive => "srflx",
            IceCandidateType::PeerReflexive => "prflx",
            IceCandidateType::Relayed => "relay",
            IceCandidateType::Unknown(s) => s.as_str(),
        }
    }

    pub fn to_string(&self) -> (r: String)
        ensures
            r@ == self.deep_view().text(),
    {
        self.as_str().to_owned()
    }

    /// The text that is handed to a hasher for this value.
    pub fn hash_key(&self) -> (r: String)
        ensures
            r@ == self.deep_view().key(),
    {
        to_lower(self.as_str())
    }
}

impl Clone for IceCandidateType {
    fn clone(&self) -> (r: Self)
        ensures
            r.deep_view() == self.deep_view(),
    {
        match self {
            IceCandidateType::Host => IceCandidateType::Host,
            IceCandidateType::ServerReflexive => IceCandidateType::ServerReflexive,
            IceCandidateType::PeerReflexive => IceCandidateType::PeerReflexive,
            IceCandidateType::Relayed => IceCandidateType::Relayed,
            IceCandidateType::Unknown(s) => IceCandidateType::Unknown(s.clone()),
        }
    }
}

impl PartialEq for IceCandidateType {
    fn eq(&self, other: &Self) -> (r: bool) {
        eq_ignore_case(self.as_str(), other.as_str())
    }
}

impl Eq for IceCandidateType {
}

impl PartialEqSpecImpl for IceCandidateType {
    open spec fn obeys_eq_spec() -> bool {
        true
    }

    open spec fn eq_spec(&self, other: &Self) -> bool {
        self.deep_view().same(other.deep_view())
    }
}

impl Hash for IceCandidateType {
    /// Hashes the key, so that equal values hash alike.
    fn hash<H: Hasher>(&self, state: &mut H) {
        hash_text(self.hash_key(), state)
    }
}

/// Options of the `ice-options` attribute. A token outside the table is kept as it was written.
#[derive(Debug)]
pub enum IceOption {
    Trickle,
    Unknown(String),
}

/// What a [`IceOption`] is in contracts.
pub enum IceOptionView {
    Trickle,
    Unknown(Seq<char>),
}

impl DeepView for IceOption {
    type V = IceOptionView;

    open spec fn deep_view(&self) -> IceOptionView {
        match self {
            IceOption::Trickle => IceOptionView::Trickle,
            IceOption::Unknown(s) => IceOptionView::Unknown(s@),
        }
    }
}

impl IceOptionView {
    /// The text that stands for the value on the wire.
    pub open spec fn text(self) -> Seq<char> {
        match self {
            IceOptionView::Trickle => "trickle"@,
            IceOptionView::Unknown(s) => s,
        }
    }

    /// The value that a token stands for.
    pub open spec fn of(token: Seq<char>) -> Self {
        if same_ignoring_case(token, "trickle"@) {
            IceOptionView::Trickle
        } else {
            IceOptionView::Unknown(token)
        }
    }

    /// Two values are the same when their texts agree up to ASCII case.
    pub open spec fn same(self, other: Self) -> bool {
        same_ignoring_case(self.text(), other.text())
    }

    /// What equal values share, and what is hashed.
    pub open spec fn key(self) -> Seq<char> {
        lower(self.text())
    }

    /// Identity goes by the text and not by the variant: a value is the same
    /// as the `Unknown` value that holds its text in any ASCII case, in both
    /// directions, and the two have one key.
    pub proof fn lemma_unknown_with_same_text(self, raw: Seq<char>)
        requires
            same_ignoring_case(raw, self.text()),
        ensures
            self.same(IceOptionView::Unknown(raw)),
            IceOptionView::Unknown(raw).same(self),
            self.key() == IceOptionView::Unknown(raw).key(),
    {
    }

    /// Two values are the same exactly when their keys are equal.
    pub proof fn lemma_same_is_equal_keys(self, other: Self)
        ensures
            self.same(other) <==> self.key() == other.key(),
    {
    }

    /// Values that are the same hash alike: a hasher is fed the key and
    /// nothing else, so whatever it computes from what it is fed is the
    /// same for both.
    pub proof fn lemma_same_values_hash_alike(
        self,
        other: Self,
        hasher: spec_fn(Seq<char>) -> u64,
    )
        requires
            self.same(other),
        ensures
            hasher(self.key()) == hasher(other.key()),
    {
    }
}

impl IceOption {
    /// Reads a token; never fails, since unlisted tokens are kept.
    pub fn from_str(s: &str) -> (r: Result<Self, EnumParseError>)
        ensures
            r is Ok,
            r->Ok_0.deep_view() == IceOptionView::of(s@),
    {
        if eq_ignore_case(s, "trickle") {
            Ok(IceOption::Trickle)
        } else {
            Ok(IceOption::Unknown(s.to_owned()))
        }
    }

    pub fn as_str(&self) -> (r: &str)
        ensures
            r@ == self.deep_view().text(),
    {
        match self {
            IceOption::Trickle => "trickle",
            IceOption::Unknown(s) => s.as_str(),
        }
    }

    pub fn to_string(&self) -> (r: String)
        ensures
            r@ == self.deep_view().text(),
    {
        self.as_str().to_owned()
    }

    /// The text that is handed to a hasher for this value.
    pub fn hash_key(&self) -> (r: String)
        ensures
            r@ == self.deep_view().key(),
    {
        to_lower(self.as_str())
    }
}

impl Clone for IceOption {
    fn clone(&self) -> (r: Self)
        ensures
            r.deep_view() == self.deep_view(),
    {
        match self {
            IceOption::Trickle => IceOption::Trickle,
            IceOption::Unknown(s) => IceOption::Unknown(s.clone()),
        }
    }
}

impl PartialEq for IceOption {
    fn eq(&self, other: &Self) -> (r: bool) {
        eq_ignore_case(self.as_str(), other.as_str())
    }
}

impl Eq for IceOption {
}

impl PartialEqSpecImpl for IceOption {
    open spec fn obeys_eq_spec() -> bool {
        true
    }

    open spec fn eq_spec(&self, other: &Self) -> bool {
        self.deep_view().same(other.deep_view())
    }
}

impl Hash for IceOption {
    /// Hashes the key, so that equal values hash alike.
    fn hash<H: Hasher>(&self, state: &mut H) {
        hash_text(self.hash_key(), state)
    }
}

/// Connection directions of a TCP candidate. The table is fixed: any other token is refused.
#[derive(Debug, Clone, Copy, PartialEq, Eq, Structural, Hash)]
pub enum IceTcpType {
    Active,
    Passive,
    SimultaneousOpen,
}

impl DeepView for IceTcpType {
    type V = IceTcpType;

    open spec fn deep_view(&self) -> IceTcpType {
        *self
    }
}

impl IceTcpType {
    /// The text that stands for the value on the wire.
    pub open spec fn text(self) -> Seq<char> {
        match self {
            IceTcpType::Active => "active"@,
            IceTcpType::Passive => "passive"@,
            IceTcpType::SimultaneousOpen => "so"@,
        }
    }

    /// The value that a token stands for, if the table lists it.
    pub open spec fn of(token: Seq<char>) -> Option<Self> {
        if same_ignoring_case(token, "active"@) {
            Some(IceTcpType::Active)
        } else if same_ignoring_case(token, "passive"@) {
            Some(IceTcpType::Passive)
        } else if same_ignoring_case(token, "so"@) {
            Some(IceTcpType::SimultaneousOpen)
        } else {
            None
        }
    }

    /// Reads a token, up to ASCII case.
    pub fn from_str(s: &str) -> (r: Result<Self, EnumParseError>)
        ensures
            match Self::of(s@) {
                Some(v) => r == Ok::<Self, EnumParseError>(v),
                None => r == Err::<Self, EnumParseError>(EnumParseError::VariantNotFound),
            },
    {
        if eq_ignore_case(s, "active") {
            Ok(IceTcpType::Active)
        } else if eq_ignore_case(s, "passive") {
            Ok(IceTcpType::Passive)
        } else if eq_ignore_case(s, "so") {
            Ok(IceTcpType::SimultaneousOpen)
        } else {
            Err(EnumParseError::VariantNotFound)
        }
    }

    pub fn as_str(&self) -> (r: &'static str)
        ensures
            r@ == self.text(),
    {
        match self {
            IceTcpType::Active => "active",
            IceTcpType::Passive => "passive",
            IceTcpType::SimultaneousOpen => "so",
        }
    }

    pub fn to_string(&self) -> (r: String)
        ensures
            r@ == self.text(),
    {
        self.as_str().to_owned()
    }
}

/// DTLS roles of the `setup` attribute. The table is fixed: any other token is refused.
#[derive(Debug, Clone, Copy, PartialEq, Eq, Structural, Hash)]
pub enum SetupRole {
    Active,
    Passive,
    ActivePassive,
    HoldConnection,
}

impl DeepView for SetupRole {
    type V = SetupRole;

    open spec fn deep_view(&self) -> SetupRole {
        *self
    }
}

impl SetupRole {
    /// The text that stands for the value on the wire.
    pub open spec fn text(self) -> Seq<char> {
        match self {
            SetupRole::Active => "active"@,
            SetupRole::Passive => "passive"@,
            SetupRole::ActivePassive => "actpass"@,
            SetupRole::HoldConnection => "holdconn"@,
        }
    }

    /// The value that a token stands for, if the table lists it.
    pub open spec fn of(token: Seq<char>) -> Option<Self> {
        if same_ignoring_case(token, "active"@) {
            Some(SetupRole::Active)
        } else if same_ignoring_case(token, "passive"@) {
            Some(SetupRole::Passive)
        } else if same_ignoring_case(token, "actpass"@) {
            Some(SetupRole::ActivePassive)
        } else if same_ignoring_case(token, "holdconn"@) {
            Some(SetupRole::HoldConnection)
        } else {
            None
        }
    }

    /// Reads a token, up to ASCII case.
    pub fn from_str(s: &str) -> (r: Result<Self, EnumParseError>)
        ensures
            match Self::of(s@) {
                Some(v) => r == Ok::<Self, EnumParseError>(v),
                None => r == Err::<Self, EnumParseError>(EnumParseError::VariantNotFound),
            },
    {
        if eq_ignore_case(s, "active") {
            Ok(SetupRole::Active)
        } else if eq_ignore_case(s, "passive") {
            Ok(SetupRole::Passive)
        } else if eq_ignore_case(s, "actpass") {
            Ok(SetupRole::ActivePassive)
        } else if eq_ignore_case(s, "holdconn") {
            Ok(SetupRole::HoldConnection)
        } else {
            Err(EnumParseError::VariantNotFound)
        }
    }

    pub fn as_str(&self) -> (r: &'static str)
        ensures
            r@ == self.text(),
    {
        match self {
            SetupRole::Active => "active",
            SetupRole::Passive => "passive",
            SetupRole::ActivePassive => "actpass",
            SetupRole::HoldConnection => "holdconn",
        }
    }

    pub fn to_string(&self) -> (r: String)
        ensures
            r@ == self.text(),
    {
        self.as_str().to_owned()
    }

    /// The role of the other side: active and passive change places, the
    /// two undecided roles stay as they are.
    pub open spec fn reversed(self) -> SetupRole {
        match self {
            SetupRole::Active => SetupRole::Passive,
            SetupRole::Passive => SetupRole::Active,
            SetupRole::ActivePassive => SetupRole::ActivePassive,
            SetupRole::HoldConnection => SetupRole::HoldConnection,
        }
    }

    pub fn reverse(&self) -> (r: SetupRole)
        ensures
            r == self.reversed(),
    {
        match self {
            SetupRole::Active => SetupRole::Passive,
            SetupRole::Passive => SetupRole::Active,
            SetupRole::ActivePassive => SetupRole::ActivePassive,
            SetupRole::HoldConnection => SetupRole::HoldConnection,
        }
    }
}

/// Hash functions of the `fingerprint` attribute. A token outside the table is kept as it was written.
#[derive(Debug)]
pub enum FingerprintHashFunction {
    Sha1,
    Sha224,
    Sha256,
    Sha384,
    Sha512,
    Md5,
    Md2,
    Unknown(String),
}

/// What a [`FingerprintHashFunction`] is in contracts.
pub enum FingerprintHashFunctionView {
    Sha1,
    Sha224,
    Sha256,
    Sha384,
    Sha512,
    Md5,
    Md2,
    Unknown(Seq<char>),
}

impl DeepView for FingerprintHashFunction {
    type V = FingerprintHashFunctionView;

    open spec fn deep_view(&self) -> FingerprintHashFunctionView {
        match self {
            FingerprintHashFunction::Sha1 => FingerprintHashFunctionView::Sha1,
            FingerprintHashFunction::Sha224 => FingerprintHashFunctionView::Sha224,
            FingerprintHashFunction::Sha256 => FingerprintHashFunctionView::Sha256,
            FingerprintHashFunction::Sha384 => FingerprintHashFunctionView::Sha384,
            FingerprintHashFunction::Sha512 => FingerprintHashFunctionView::Sha512,
            FingerprintHashFunction::Md5 => FingerprintHashFunctionView::Md5,
            FingerprintHashFunction::Md2 => FingerprintHashFunctionView::Md2,
            FingerprintHashFunction::Unknown(s) => FingerprintHashFunctionView::Unknown(s@),
        }
    }
}

impl FingerprintHashFunctionView {
    /// The text that stands for the value on the wire.
    pub open spec fn text(self) -> Seq<char> {
        match self {
            FingerprintHashFunctionView::Sha1 => "sha-1"@,
            FingerprintHashFunctionView::Sha224 => "sha-224"@,
            FingerprintHashFunctionView::Sha256 => "sha-256"@,
            FingerprintHashFunctionView::Sha384 => "sha-384"@,
            FingerprintHashFunctionView::Sha512 => "sha-512"@,
            FingerprintHashFunctionView::Md5 => "md5"@,
            FingerprintHashFunctionView::Md2 => "md2"@,
            FingerprintHashFunctionView::Unknown(s) => s,
        }
    }

    /// The value that a token stands for.
    pub open spec fn of(token: Seq<char>) -> Self {
        if same_ignoring_case(token, "sha-1"@) {
            FingerprintHashFunctionView::Sha1
        } else if same_ignoring_case(token, "sha-224"@) {
            FingerprintHashFunctionView::Sha224
        } else if same_ignoring_case(token, "sha-256"@) {
            FingerprintHashFunctionView::Sha256
        } else if same_ignoring_case(token, "sha-384"@) {
            FingerprintHashFunctionView::Sha384
        } else if same_ignoring_case(token, "sha-512"@) {
            FingerprintHashFunctionView::Sha512
        } else if same_ignoring_case(token, "md5"@) {
            FingerprintHashFunctionView::Md5
        } else if same_ignoring_case(token, "md2"@) {
            FingerprintHashFunctionView::Md2
        } else {
            FingerprintHashFunctionView::Unknown(token)
        }
    }

    /// Two values are the same when their texts agree up to ASCII case.
    pub open spec fn same(self, other: Self) -> bool {
        same_ignoring_case(self.text(), other.text())
    }

    /// What equal values share, and what is hashed.
    pub open spec fn key(self) -> Seq<char> {
        lower(self.text())
    }

    /// Identity goes by the text and not by the variant: a value is the same
    /// as the `Unknown` value that holds its text in any ASCII case, in both
    /// directions, and the two have one key.
    pub proof fn lemma_unknown_with_same_text(self, raw: Seq<char>)
        requires
            same_ignoring_case(raw, self.text()),
        ensures
            self.same(FingerprintHashFunctionView::Unknown(raw)),
            FingerprintHashFunctionView::Unknown(raw).same(self),
            self.key() == FingerprintHashFunctionView::Unknown(raw).key(),
    {
    }

    /// Two values are the same exactly when their keys are equal.
    pub proof fn lemma_same_is_equal_keys(self, other: Self)
        ensures
            self.same(other) <==> self.key() == other.key(),
    {
    }

    /// Values that are the same hash alike: a hasher is fed the key and
    /// nothing else, so whatever it computes from what it is fed is the
    /// same for both.
    pub proof fn lemma_same_values_hash_alike(
        self,
        other: Self,
        hasher: spec_fn(Seq<char>) -> u64,
    )
        requires
            self.same(other),
        ensures
            hasher(self.key()) == hasher(other.key()),
    {
    }
}

impl FingerprintHashFunction {
    /// Reads a token; never fails, since unlisted tokens are kept.
    pub fn from_str(s: &str) -> (r: Result<Self, EnumParseError>)
        ensures
            r is Ok,
            r->Ok_0.deep_view() == FingerprintHashFunctionView::of(s@),
    {
        if eq_ignore_case(s, "sha-1") {
            Ok(FingerprintHashFunction::Sha1)
        } else if eq_ignore_case(s, "sha-224") {
            Ok(FingerprintHashFunction::Sha224)
        } else if eq_ignore_case(s, "sha-256") {
            Ok(FingerprintHashFunction::Sha256)
        } else if eq_ignore_case(s, "sha-384") {
            Ok(FingerprintHashFunction::Sha384)
        } else if eq_ignore_case(s, "sha-512") {
            Ok(FingerprintHashFunction::Sha512)
        } else if eq_ignore_case(s, "md5") {
            Ok(FingerprintHashFunction::Md5)
        } else if eq_ignore_case(s, "md2") {
            Ok(FingerprintHashFunction::Md2)
        } else {
            Ok(FingerprintHashFunction::Unknown(s.to_owned()))
        }
    }

    pub fn as_str(&self) -> (r: &str)
        ensures
            r@ == self.deep_view().text(),
    {
        match self {
            FingerprintHashFunction::Sha1 => "sha-1",
            FingerprintHashFunction::Sha224 => "sha-224",
            FingerprintHashFunction::Sha256 => "sha-256",
            FingerprintHashFunction::Sha384 => "sha-384",
            FingerprintHashFunction::Sha512 => "sha-512",
            FingerprintHashFunction::Md5 => "md5",
            FingerprintHashFunction::Md2 => "md2",
            FingerprintHashFunction::Unknown(s) => s.as_str(),
        }
    }

    pub fn to_string(&self) -> (r: String)
        ensures
            r@ == self.deep_view().text(),
    {
        self.as_str().to_owned()
    }

    /// The text that is handed to a hasher for this value.
    pub fn hash_key(&self) -> (r: String)
        ensures
            r@ == self.deep_view().key(),
    {
        to_lower(self.as_str())
    }
}

impl Clone for FingerprintHashFunction {
    fn clone(&self) -> (r: Self)
        ensures
            r.deep_view() == self.deep_view(),
    {
        match self {
            FingerprintHashFunction::Sha1 => FingerprintHashFunction::Sha1,
            FingerprintHashFunction::Sha224 => FingerprintHashFunction::Sha224,
            FingerprintHashFunction::Sha256 => FingerprintHashFunction::Sha256,
            FingerprintHashFunction::Sha384 => FingerprintHashFunction::Sha384,
            FingerprintHashFunction::Sha512 => FingerprintHashFunction::Sha512,
            FingerprintHashFunction::Md5 => FingerprintHashFunction::Md5,
            FingerprintHashFunction::Md2 => FingerprintHashFunction::Md2,
            FingerprintHashFunction::Unknown(s) => FingerprintHashFunction::Unknown(s.clone()),
        }
    }
}

impl PartialEq for FingerprintHashFunction {
    fn eq(&self, other: &Self) -> (r: bool) {
        eq_ignore_case(self.as_str(), other.as_str())
    }
}

impl Eq for FingerprintHashFunction {
}

impl PartialEqSpecImpl for FingerprintHashFunction {
    open spec fn obeys_eq_spec() -> bool {
        true
    }

    open spec fn eq_spec(&self, other: &Self) -> bool {
        self.deep_view().same(other.deep_view())
    }
}

impl Hash for FingerprintHashFunction {
    /// Hashes the key, so that equal values hash alike.
    fn hash<H: Hasher>(&self, state: &mut H) {
        hash_text(self.hash_key(), state)
    }
}

/// Semantics of the `group` attribute. A token outside the table is kept as it was written.
#[derive(Debug)]
pub enum GroupSemantics {
    LipSynchronization,
    FlowIdentification,
    Bundle,
    Unknown(String),
}

/// What a [`GroupSemantics`] is in contracts.
pub enum GroupSemanticsView {
    LipSynchronization,
    FlowIdentification,
    Bundle,
    Unknown(Seq<char>),
}

impl DeepView for GroupSemantics {
    type V = GroupSemanticsView;

    open spec fn deep_view(&self) -> GroupSemanticsView {
        match self {
            GroupSemantics::LipSynchronization => GroupSemanticsView::LipSynchronization,
            GroupSemantics::FlowIdentification => GroupSemanticsView::FlowIdentification,
            GroupSemantics::Bundle => GroupSemanticsView::Bundle,
            GroupSemantics::Unknown(s) => GroupSemanticsView::Unknown(s@),
        }
    }
}

impl GroupSemanticsView {
    /// The text that stands for the value on the wire.
    pub open spec fn text(self) -> Seq<char> {
        match self {
            GroupSemanticsView::LipSynchronization => "LS"@,
            GroupSemanticsView::FlowIdentification => "FID"@,
            GroupSemanticsView::Bundle => "BUNDLE"@,
            GroupSemanticsView::Unknown(s) => s,
        }
    }

    /// The value that a token stands for.
    pub open spec fn of(token: Seq<char>) -> Self {
        if same_ignoring_case(token, "LS"@) {
            GroupSemanticsView::LipSynchronization
        } else if same_ignoring_case(token, "FID"@) {
            GroupSemanticsView::FlowIdentification
        } else if same_ignoring_case(token, "BUNDLE"@) {
            GroupSemanticsView::Bundle
        } else {
            GroupSemanticsView::Unknown(token)
        }
    }

    /// Two values are the same when their texts agree up to ASCII case.
    pub open spec fn same(self, other: Self) -> bool {
        same_ignoring_case(self.text(), other.text())
    }

    /// What equal values share, and what is hashed.
    pub open spec fn key(self) -> Seq<char> {
        lower(self.text())
    }

    /// Identity goes by the text and not by the variant: a value is the same
    /// as the `Unknown` value that holds its text in any ASCII case, in both
    /// directions, and the two have one key.
    pub proof fn lemma_unknown_with_same_text(self, raw: Seq<char>)
        requires
            same_ignoring_case(raw, self.text()),
        ensures
            self.same(GroupSemanticsView::Unknown(raw)),
            GroupSemanticsView::Unknown(raw).same(self),
            self.key() == GroupSemanticsView::Unknown(raw).key(),
    {
    }

    /// Two values are the same exactly when their keys are equal.
    pub proof fn lemma_same_is_equal_keys(self, other: Self)
        ensures
            self.same(other) <==> self.key() == other.key(),
    {
    }

    /// Values that are the same hash alike: a hasher is fed the key and
    /// nothing else, so whatever it computes from what it is fed is the
    /// same for both.
    pub proof fn lemma_same_values_hash_alike(
        self,
        other: Self,
        hasher: spec_fn(Seq<char>) -> u64,
    )
        requires
            self.same(other),
        ensures
            hasher(self.key()) == hasher(other.key()),
    {
    }
}

impl GroupSemantics {
    /// Reads a token; never fails, since unlisted tokens are kept.
    pub fn from_str(s: &str) -> (r: Result<Self, EnumParseError>)
        ensures
            r is Ok,
            r->Ok_0.deep_view() == GroupSemanticsView::of(s@),
    {
        if eq_ignore_case(s, "LS") {
            Ok(GroupSemantics::LipSynchronization)
        } else if eq_ignore_case(s, "FID") {
            Ok(GroupSemantics::FlowIdentification)
        } else if eq_ignore_case(s, "BUNDLE") {
            Ok(GroupSemantics::Bundle)
        } else {
            Ok(GroupSemantics::Unknown(s.to_owned()))
        }
    }

    pub fn as_str(&self) -> (r: &str)
        ensures
            r@ == self.deep_view().text(),
    {
        match self {
            GroupSemantics::LipSynchronization => "LS",
            GroupSemantics::FlowIdentification => "FID",
            GroupSemantics::Bundle => "BUNDLE",
            GroupSemantics::Unknown(s) => s.as_str(),
        }
    }

    pub fn to_string(&self) -> (r: String)
        ensures
            r@ == self.deep_view().text(),
    {
        self.as_str().to_owned()
    }

    /// The text that is handed to a hasher for this value.
    pub fn hash_key(&self) -> (r: String)
        ensures
            r@ == self.deep_view().key(),
    {
        to_lower(self.as_str())
    }
}

impl Clone for GroupSemantics {
    fn clone(&self) -> (r: Self)
        ensures
            r.deep_view() == self.deep_view(),
    {
        match self {
            GroupSemantics::LipSynchronization => GroupSemantics::LipSynchronization,
            GroupSemantics::FlowIdentification => GroupSemantics::FlowIdentification,
            GroupSemantics::Bundle => GroupSemantics::Bundle,
            GroupSemantics::Unknown(s) => GroupSemantics::Unknown(s.clone()),
        }
    }
}

impl PartialEq for GroupSemantics {
    fn eq(&self, other: &Self) -> (r: bool) {
        eq_ignore_case(self.as_str(), other.as_str())
    }
}

impl Eq for GroupSemantics {
}

impl PartialEqSpecImpl for GroupSemantics {
    open spec fn obeys_eq_spec() -> bool {
        true
    }

    open spec fn eq_spec(&self, other: &Self) -> bool {
        self.deep_view().same(other.deep_view())
    }
}

impl Hash for GroupSemantics {
    /// Hashes the key, so that equal values hash alike.
    fn hash<H: Hasher>(&self, state: &mut H) {
        hash_text(self.hash_key(), state)
    }
}

/// Semantics of the `ssrc-group` attribute. A token outside the table is kept as it was written.
#[derive(Debug)]
pub enum SsrcGroupSemantics {
    FlowIdentification,
    ForwardErrorCorrection,
    Unknown(String),
}

/// What a [`SsrcGroupSemantics`] is in contracts.
pub enum SsrcGroupSemanticsView {
    FlowIdentification,
    ForwardErrorCorrection,
    Unknown(Seq<char>),
}

impl DeepView for SsrcGroupSemantics {
    type V = SsrcGroupSemanticsView;

    open spec fn deep_view(&self) -> SsrcGroupSemanticsView {
        match self {
            SsrcGroupSemantics::FlowIdentification => SsrcGroupSemanticsView::FlowIdentification,
            SsrcGroupSemantics::ForwardErrorCorrection => SsrcGroupSemanticsView::ForwardErrorCorrection,
            SsrcGroupSemantics::Unknown(s) => SsrcGroupSemanticsView::Unknown(s@),
        }
    }
}

impl SsrcGroupSemanticsView {
    /// The text that stands for the value on the wire.
    pub open spec fn text(self) -> Seq<char> {
        match self {
            SsrcGroupSemanticsView::FlowIdentification => "FID"@,
            SsrcGroupSemanticsView::ForwardErrorCorrection => "FEC"@,
            SsrcGroupSemanticsView::Unknown(s) => s,
        }
    }

    /// The value that a token stands for.
    pub open spec fn of(token: Seq<char>) -> Self {
        if same_ignoring_case(token, "FID"@) {
            SsrcGroupSemanticsView::FlowIdentification
        } else if same_ignoring_case(token, "FEC"@) {
            SsrcGroupSemanticsView::ForwardErrorCorrection
        } else {
            SsrcGroupSemanticsView::Unknown(token)
        }
    }

    /// Two values are the same when their texts agree up to ASCII case.
    pub open spec fn same(self, other: Self) -> bool {
        same_ignoring_case(self.text(), other.text())
    }

    /// What equal values share, and what is hashed.
    pub open spec fn key(self) -> Seq<char> {
        lower(self.text())
    }

    /// Identity goes by the text and not by the variant: a value is the same
    /// as the `Unknown` value that holds its text in any ASCII case, in both
    /// directions, and the two have one key.
    pub proof fn lemma_unknown_with_same_text(self, raw: Seq<char>)
        requires
            same_ignoring_case(raw, self.text()),
        ensures
            self.same(SsrcGroupSemanticsView::Unknown(raw)),
            SsrcGroupSemanticsView::Unknown(raw).same(self),
            self.key() == SsrcGroupSemanticsView::Unknown(raw).key(),
    {
    }

    /// Two values are the same exactly when their keys are equal.
    pub proof fn lemma_same_is_equal_keys(self, other: Self)
        ensures
            self.same(other) <==> self.key() == other.key(),
    {
    }

    /// Values that are the same hash alike: a hasher is fed the key and
    /// nothing else, so whatever it computes from what it is fed is the
    /// same for both.
    pub proof fn lemma_same_values_hash_alike(
        self,
        other: Self,
        hasher: spec_fn(Seq<char>) -> u64,
    )
        requires
            self.same(other),
        ensures
            hasher(self.key()) == hasher(other.key()),
    {
    }
}

impl SsrcGroupSemantics {
    /// Reads a token; never fails, since unlisted tokens are kept.
    pub fn from_str(s: &str) -> (r: Result<Self, EnumParseError>)
        ensures
            r is Ok,
            r->Ok_0.deep_view() == SsrcGroupSemanticsView::of(s@),
    {
        if eq_ignore_case(s, "FID") {
            Ok(SsrcGroupSemantics::FlowIdentification)
        } else if eq_ignore_case(s, "FEC") {
            Ok(SsrcGroupSemantics::ForwardErrorCorrection)
        } else {
            Ok(SsrcGroupSemantics::Unknown(s.to_owned()))
        }
    }

    pub fn as_str(&self) -> (r: &str)
        ensures
            r@ == self.deep_view().text(),
    {
        match self {
            SsrcGroupSemantics::FlowIdentification => "FID",
            SsrcGroupSemantics::ForwardErrorCorrection => "FEC",
            SsrcGroupSemantics::Unknown(s) => s.as_str(),
        }
    }

    pub fn to_string(&self) -> (r: String)
        ensures
            r@ == self.deep_view().text(),
    {
        self.as_str().to_owned()
    }

    /// The text that is handed to a hasher for this value.
    pub fn hash_key(&self) -> (r: String)
        ensures
            r@ == self.deep_view().key(),
    {
        to_lower(self.as_str())
    }
}

impl Clone for SsrcGroupSemantics {
    fn clone(&self) -> (r: Self)
        ensures
            r.deep_view() == self.deep_view(),
    {
        match self {
            SsrcGroupSemantics::FlowIdentification => SsrcGroupSemantics::FlowIdentification,
            SsrcGroupSemantics::ForwardErrorCorrection => SsrcGroupSemantics::ForwardErrorCorrection,
            SsrcGroupSemantics::Unknown(s) => SsrcGroupSemantics::Unknown(s.clone()),
        }
    }
}

impl PartialEq for SsrcGroupSemantics {
    fn eq(&self, other: &Self) -> (r: bool) {
        eq_ignore_case(self.as_str(), other.as_str())
    }
}

impl Eq for SsrcGroupSemantics {
}

impl PartialEqSpecImpl for SsrcGroupSemantics {
    open spec fn obeys_eq_spec() -> bool {
        true
    }

    open spec fn eq_spec(&self, other: &Self) -> bool {
        self.deep_view().same(other.deep_view())
    }
}

impl Hash for SsrcGroupSemantics {
    /// Hashes the key, so that equal values hash alike.
    fn hash<H: Hasher>(&self, state: &mut H) {
        hash_text(self.hash_key(), state)
    }
}

/// Directions of an `extmap` entry. The table is fixed: any other token is refused.
#[derive(Debug, Clone, Copy, PartialEq, Eq, Structural, Hash)]
pub enum ExtensionMapDirection {
    SendOnly,
    ReceiveOnly,
    SendReceive,
    Inactive,
}

impl DeepView for ExtensionMapDirection {
    type V = ExtensionMapDirection;

    open spec fn deep_view(&self) -> ExtensionMapDirection {
        *self
    }
}

impl ExtensionMapDirection {
    /// The text that stands for the value on the wire.
    pub open spec fn text(self) -> Seq<char> {
        match self {
            ExtensionMapDirection::SendOnly => "sendonly"@,
            ExtensionMapDirection::ReceiveOnly => "recvonly"@,
            ExtensionMapDirection::SendReceive => "sendrecv"@,
            ExtensionMapDirection::Inactive => "inactive"@,
        }
    }

    /// The value that a token stands for, if the table lists it.
    pub open spec fn of(token: Seq<char>) -> Option<Self> {
        if same_ignoring_case(token, "sendonly"@) {
            Some(ExtensionMapDirection::SendOnly)
        } else if same_ignoring_case(token, "recvonly"@) {
            Some(ExtensionMapDirection::ReceiveOnly)
        } else if same_ignoring_case(token, "sendrecv"@) {
            Some(ExtensionMapDirection::SendReceive)
        } else if same_ignoring_case(token, "inactive"@) {
            Some(ExtensionMapDirection::Inactive)
        } else {
            None
        }
    }

    /// Reads a token, up to ASCII case.
    pub fn from_str(s: &str) -> (r: Result<Self, EnumParseError>)
        ensures
            match Self::of(s@) {
                Some(v) => r == Ok::<Self, EnumParseError>(v),
                None => r == Err::<Self, EnumParseError>(EnumParseError::VariantNotFound),
            },
    {
        if eq_ignore_case(s, "sendonly") {
            Ok(ExtensionMapDirection::SendOnly)
        } else if eq_ignore_case(s, "recvonly") {
            Ok(ExtensionMapDirection::ReceiveOnly)
        } else if eq_ignore_case(s, "sendrecv") {
            Ok(ExtensionMapDirection::SendReceive)
        } else if eq_ignore_case(s, "inactive") {
            Ok(ExtensionMapDirection::Inactive)
        } else {
            Err(EnumParseError::VariantNotFound)
        }
    }

    pub fn as_str(&self) -> (r: &'static str)
        ensures
            r@ == self.text(),
    {
        match self {
            ExtensionMapDirection::SendOnly => "sendonly",
            ExtensionMapDirection::ReceiveOnly => "recvonly",
            ExtensionMapDirection::SendReceive => "sendrecv",
            ExtensionMapDirection::Inactive => "inactive",
        }
    }

    pub fn to_string(&self) -> (r: String)
        ensures
            r@ == self.text(),
    {
        self.as_str().to_owned()
    }
}

/// Directions of a `rid` attribute. The table is fixed: any other token is refused.
#[derive(Debug, Clone, Copy, PartialEq, Eq, Structural, Hash)]
pub enum RidDirection {
    Send,
    Receive,
}

impl DeepView for RidDirection {
    type V = RidDirection;

    open spec fn deep_view(&self) -> RidDirection {
        *self
    }
}

impl RidDirection {
    /// The text that stands for the value on the wire.
    pub open spec fn text(self) -> Seq<char> {
        match self {
            RidDirection::Send => "send"@,
            RidDirection::Receive => "recv"@,
        }
    }

    /// The value that a token stands for, if the table lists it.
    pub open spec fn of(token: Seq<char>) -> Option<Self> {
        if same_ignoring_case(token, "send"@) {
            Some(RidDirection::Send)
        } else if same_ignoring_case(token, "recv"@) {
            Some(RidDirection::Receive)
        } else {
            None
        }
    }

    /// Reads a token, up to ASCII case.
    pub fn from_str(s: &str) -> (r: Result<Self, EnumParseError>)
        ensures
            match Self::of(s@) {
                Some(v) => r == Ok::<Self, EnumParseError>(v),
                None => r == Err::<Self, EnumParseError>(EnumParseError::VariantNotFound),
            },
    {
        if eq_ignore_case(s, "send") {
            Ok(RidDirection::Send)
        } else if eq_ignore_case(s, "recv") {
            Ok(RidDirection::Receive)
        } else {
            Err(EnumParseError::VariantNotFound)
        }
    }

    pub fn as_str(&self) -> (r: &'static str)
        ensures
            r@ == self.text(),
    {
        match self {
            RidDirection::Send => "send",
            RidDirection::Receive => "recv",
        }
    }

    pub fn to_string(&self) -> (r: String)
        ensures
            r@ == self.text(),
    {
        self.as_str().to_owned()
    }

    /// The direction as the other side sees it.
    pub open spec fn reversed(self) -> RidDirection {
        match self {
            RidDirection::Send => RidDirection::Receive,
            RidDirection::Receive => RidDirection::Send,
        }
    }

    pub fn reverse(&self) -> (r: RidDirection)
        ensures
            r == self.reversed(),
    {
        match self {
            RidDirection::Send => RidDirection::Receive,
            RidDirection::Receive => RidDirection::Send,
        }
    }
}

/// Codec names of the `rtpmap` attribute. A token outside the table is kept as it was written.
#[derive(Debug)]
pub enum RtpCodecName {
    Pcma,
    Pcmu,
    G722,
    Opus,
    ComfortNoise,
    TelephoneEvent,
    H264,
    Vp8,
    Vp9,
    Rtx,
    Red,
    UlpFec,
    FlexFec,
    Unknown(String),
}

/// What a [`RtpCodecName`] is in contracts.
pub enum RtpCodecNameView {
    Pcma,
    Pcmu,
    G722,
    Opus,
    ComfortNoise,
    TelephoneEvent,
    H264,
    Vp8,
    Vp9,
    Rtx,
    Red,
    UlpFec,
    FlexFec,
    Unknown(Seq<char>),
}

impl DeepView for RtpCodecName {
    type V = RtpCodecNameView;

    open spec fn deep_view(&self) -> RtpCodecNameView {
        match self {
            RtpCodecName::Pcma => RtpCodecNameView::Pcma,
            RtpCodecName::Pcmu => RtpCodecNameView::Pcmu,
            RtpCodecName::G722 => RtpCodecNameView::G722,
            RtpCodecName::Opus => RtpCodecNameView::Opus,
            RtpCodecName::ComfortNoise => RtpCodecNameView::ComfortNoise,
            RtpCodecName::TelephoneEvent => RtpCodecNameView::TelephoneEvent,
            RtpCodecName::H264 => RtpCodecNameView::H264,
            RtpCodecName::Vp8 => RtpCodecNameView::Vp8,
            RtpCodecName::Vp9 => RtpCodecNameView::Vp9,
            RtpCodecName::Rtx => RtpCodecNameView::Rtx,
            RtpCodecName::Red => RtpCodecNameView::Red,
            RtpCodecName::UlpFec => RtpCodecNameView::UlpFec,
            RtpCodecName::FlexFec => RtpCodecNameView::FlexFec,
            RtpCodecName::Unknown(s) => RtpCodecNameView::Unknown(s@),
        }
    }
}

impl RtpCodecNameView {
    /// The text that stands for the value on the wire.
    pub open spec fn text(self) -> Seq<char> {
        match self {
            RtpCodecNameView::Pcma => "PCMA"@,
            RtpCodecNameView::Pcmu => "PCMU"@,
            RtpCodecNameView::G722 => "G722"@,
            RtpCodecNameView::Opus => "opus"@,
            RtpCodecNameView::ComfortNoise => "CN"@,
            RtpCodecNameView::TelephoneEvent => "telephone-event"@,
            RtpCodecNameView::H264 => "H264"@,
            RtpCodecNameView::Vp8 => "VP8"@,
            RtpCodecNameView::Vp9 => "VP9"@,
            RtpCodecNameView::Rtx => "rtx"@,
            RtpCodecNameView::Red => "red"@,
            RtpCodecNameView::UlpFec => "ulpfec"@,
            RtpCodecNameView::FlexFec => "flexfec"@,
            RtpCodecNameView::Unknown(s) => s,
        }
    }

    /// The value that a token stands for.
    pub open spec fn of(token: Seq<char>) -> Self {
        if same_ignoring_case(token, "PCMA"@) {
            RtpCodecNameView::Pcma
        } else if same_ignoring_case(token, "PCMU"@) {
            RtpCodecNameView::Pcmu
        } else if same_ignoring_case(token, "G722"@) {
            RtpCodecNameView::G722
        } else if same_ignoring_case(token, "opus"@) {
            RtpCodecNameView::Opus
        } else if same_ignoring_case(token, "CN"@) {
            RtpCodecNameView::ComfortNoise
        } else if same_ignoring_case(token, "telephone-event"@) {
            RtpCodecNameView::TelephoneEvent
        } else if same_ignoring_case(token, "H264"@) {
            RtpCodecNameView::H264
        } else if same_ignoring_case(token, "VP8"@) {
            RtpCodecNameView::Vp8
        } else if same_ignoring_case(token, "VP9"@) {
            RtpCodecNameView::Vp9
        } else if same_ignoring_case(token, "rtx"@) {
            RtpCodecNameView::Rtx
        } else if same_ignoring_case(token, "red"@) {
            RtpCodecNameView::Red
        } else if same_ignoring_case(token, "ulpfec"@) {
            RtpCodecNameView::UlpFec
        } else if same_ignoring_case(token, "flexfec"@) {
            RtpCodecNameView::FlexFec
        } else {
            RtpCodecNameView::Unknown(token)
        }
    }

    /// Two values are the same when their texts agree up to ASCII case.
    pub open spec fn same(self, other: Self) -> bool {
        same_ignoring_case(self.text(), other.text())
    }

    /// What equal values share, and what is hashed.
    pub open spec fn key(self) -> Seq<char> {
        lower(self.text())
    }

    /// Identity goes by the text and not by the variant: a value is the same
    /// as the `Unknown` value that holds its text in any ASCII case, in both
    /// directions, and the two have one key.
    pub proof fn lemma_unknown_with_same_text(self, raw: Seq<char>)
        requires
            same_ignoring_case(raw, self.text()),
        ensures
            self.same(RtpCodecNameView::Unknown(raw)),
            RtpCodecNameView::Unknown(raw).same(self),
            self.key() == RtpCodecNameView::Unknown(raw).key(),
    {
    }

    /// Two values are the same exactly when their keys are equal.
    pub proof fn lemma_same_is_equal_keys(self, other: Self)
        ensures
            self.same(other) <==> self.key() == other.key(),
    {
    }

    /// Values that are the same hash alike: a hasher is fed the key and
    /// nothing else, so whatever it computes from what it is fed is the
    /// same for both.
    pub proof fn lemma_same_values_hash_alike(
        self,
        other: Self,
        hasher: spec_fn(Seq<char>) -> u64,
    )
        requires
            self.same(other),
        ensures
            hasher(self.key()) == hasher(other.key()),
    {
    }
}

impl RtpCodecName {
    /// Reads a token; never fails, since unlisted tokens are kept.
    pub fn from_str(s: &str) -> (r: Result<Self, EnumParseError>)
        ensures
            r is Ok,
            r->Ok_0.deep_view() == RtpCodecNameView::of(s@),
    {
        if eq_ignore_case(s, "PCMA") {
            Ok(RtpCodecName::Pcma)
        } else if eq_ignore_case(s, "PCMU") {
            Ok(RtpCodecName::Pcmu)
        } else if eq_ignore_case(s, "G722") {
            Ok(RtpCodecName::G722)
        } else if eq_ignore_case(s, "opus") {
            Ok(RtpCodecName::Opus)
        } else if eq_ignore_case(s, "CN") {
            Ok(RtpCodecName::ComfortNoise)
        } else if eq_ignore_case(s, "telephone-event") {
            Ok(RtpCodecName::TelephoneEvent)
        } else if eq_ignore_case(s, "H264") {
            Ok(RtpCodecName::H264)
        } else if eq_ignore_case(s, "VP8") {
            Ok(RtpCodecName::Vp8)
        } else if eq_ignore_case(s, "VP9") {
            Ok(RtpCodecName::Vp9)
        } else if eq_ignore_case(s, "rtx") {
            Ok(RtpCodecName::Rtx)
        } else if eq_ignore_case(s, "red") {
            Ok(RtpCodecName::Red)
        } else if eq_ignore_case(s, "ulpfec") {
            Ok(RtpCodecName::UlpFec)
        } else if eq_ignore_case(s, "flexfec") {
            Ok(RtpCodecName::FlexFec)
        } else {
            Ok(RtpCodecName::Unknown(s.to_owned()))
        }
    }

    pub fn as_str(&self) -> (r: &str)
        ensures
            r@ == self.deep_view().text(),
    {
        match self {
            RtpCodecName::Pcma => "PCMA",
            RtpCodecName::Pcmu => "PCMU",
            RtpCodecName::G722 => "G722",
            RtpCodecName::Opus => "opus",
            RtpCodecName::ComfortNoise => "CN",
            RtpCodecName::TelephoneEvent => "telephone-event",
            RtpCodecName::H264 => "H264",
            RtpCodecName::Vp8 => "VP8",
            RtpCodecName::Vp9 => "VP9",
            RtpCodecName::Rtx => "rtx",
            RtpCodecName::Red => "red",
            RtpCodecName::UlpFec => "ulpfec",
            RtpCodecName::FlexFec => "flexfec",
            RtpCodecName::Unknown(s) => s.as_str(),
        }
    }

    pub fn to_string(&self) -> (r: String)
        ensures
            r@ == self.deep_view().text(),
    {
        self.as_str().to_owned()
    }

    /// The text that is handed to a hasher for this value.
    pub fn hash_key(&self) -> (r: String)
        ensures
            r@ == self.deep_view().key(),
    {
        to_lower(self.as_str())
    }
}

impl Clone for RtpCodecName {
    fn clone(&self) -> (r: Self)
        ensures
            r.deep_view() == self.deep_view(),
    {
        match self {
            RtpCodecName::Pcma => RtpCodecName::Pcma,
            RtpCodecName::Pcmu => RtpCodecName::Pcmu,
            RtpCodecName::G722 => RtpCodecName::G722,
            RtpCodecName::Opus => RtpCodecName::Opus,
            RtpCodecName::ComfortNoise => RtpCodecName::ComfortNoise,
            RtpCodecName::TelephoneEvent => RtpCodecName::TelephoneEvent,
            RtpCodecName::H264 => RtpCodecName::H264,
            RtpCodecName::Vp8 => RtpCodecName::Vp8,
            RtpCodecName::Vp9 => RtpCodecName::Vp9,
            RtpCodecName::Rtx => RtpCodecName::Rtx,
            RtpCodecName::Red => RtpCodecName::Red,
            RtpCodecName::UlpFec => RtpCodecName::UlpFec,
            RtpCodecName::FlexFec => RtpCodecName::FlexFec,
            RtpCodecName::Unknown(s) => RtpCodecName::Unknown(s.clone()),
        }
    }
}

impl PartialEq for RtpCodecName {
    fn eq(&self, other: &Self) -> (r: bool) {
        eq_ignore_case(self.as_str(), other.as_str())
    }
}

impl Eq for RtpCodecName {
}

impl PartialEqSpecImpl for RtpCodecName {
    open spec fn obeys_eq_spec() -> bool {
        true
    }

    open spec fn eq_spec(&self, other: &Self) -> bool {
        self.deep_view().same(other.deep_view())
    }
}

impl Hash for RtpCodecName {
    /// Hashes the key, so that equal values hash alike.
    fn hash<H: Hasher>(&self, state: &mut H) {
        hash_text(self.hash_key(), state)
    }
}

} // verus!
