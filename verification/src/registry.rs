//! The registry of attributes: one tagged value for every attribute, the
//! table from names to grammars, and the traits that let a map hand a stored
//! attribute back under its own type.

use vstd::prelude::*;
use crate::attributes::{
    no_option_twice, opaque_value, parse_opaque, BundleOnly, Candidate, CandidateView, EndOfCandidates,
    ExtensionMap, ExtensionMapAllowMixed, ExtensionMapView, Fingerprint, FingerprintView,
    FormatParameters, FormatParametersView, Group, GroupView, IceLite, IceOptions, IcePwd,
    IceUfrag, Inactive, MaxPacketTime, MediaStreamId, MediaStreamIdSemantic,
    MediaStreamIdSemanticView, MediaStreamIdView, Mid, PacketTime, ReceiveOnly, Rid, RidView,
    Rtcp, RtcpFeedback, RtcpFeedbackView, RtcpMux, RtcpMuxOnly, RtcpReducedSize, RtcpView, RtpMap,
    RtpMapView, SendOnly, SendReceive, Setup, SsrcAttribute, SsrcAttributeView, SsrcGroup,
    SsrcGroupView,
};
use crate::enums::IceOptionView;
use crate::lexer::{parsed_as, within};
use crate::text::{decimal, str_eq};

verus! {

/// An attribute of any kind. An attribute whose name has no type of its own
/// is kept as `Unknown`, with its value as it was written.
#[derive(Debug)]
pub enum Attribute {
    BundleOnly(BundleOnly),
    Candidate(Candidate),
    EndOfCandidates(EndOfCandidates),
    ExtensionMap(ExtensionMap),
    ExtensionMapAllowMixed(ExtensionMapAllowMixed),
    Fingerprint(Fingerprint),
    FormatParameters(FormatParameters),
    Group(Group),
    IceLite(IceLite),
    IceOptions(IceOptions),
    IcePwd(IcePwd),
    IceUfrag(IceUfrag),
    Inactive(Inactive),
    MaxPacketTime(MaxPacketTime),
    MediaStreamId(MediaStreamId),
    MediaStreamIdSemantic(MediaStreamIdSemantic),
    Mid(Mid),
    PacketTime(PacketTime),
    ReceiveOnly(ReceiveOnly),
    Rid(Rid),
    Rtcp(Rtcp),
    RtcpFeedback(RtcpFeedback),
    RtcpMux(RtcpMux),
    RtcpMuxOnly(RtcpMuxOnly),
    RtcpReducedSize(RtcpReducedSize),
    RtpMap(RtpMap),
    SendOnly(SendOnly),
    SendReceive(SendReceive),
    Setup(Setup),
    SsrcAttribute(SsrcAttribute),
    SsrcGroup(SsrcGroup),
    Unknown(Option<String>),
}

/// What an [`Attribute`] is in contracts.
pub enum AttributeView {
    BundleOnly(BundleOnly),
    Candidate(CandidateView),
    EndOfCandidates(EndOfCandidates),
    ExtensionMap(ExtensionMapView),
    ExtensionMapAllowMixed(ExtensionMapAllowMixed),
    Fingerprint(FingerprintView),
    FormatParameters(FormatParametersView),
    Group(GroupView),
    IceLite(IceLite),
    IceOptions(Seq<IceOptionView>),
    IcePwd(Seq<char>),
    IceUfrag(Seq<char>),
    Inactive(Inactive),
    MaxPacketTime(MaxPacketTime),
    MediaStreamId(MediaStreamIdView),
    MediaStreamIdSemantic(MediaStreamIdSemanticView),
    Mid(Seq<char>),
    PacketTime(PacketTime),
    ReceiveOnly(ReceiveOnly),
    Rid(RidView),
    Rtcp(RtcpView),
    RtcpFeedback(RtcpFeedbackView),
    RtcpMux(RtcpMux),
    RtcpMuxOnly(RtcpMuxOnly),
    RtcpReducedSize(RtcpReducedSize),
    RtpMap(RtpMapView),
    SendOnly(SendOnly),
    SendReceive(SendReceive),
    Setup(Setup),
    SsrcAttribute(SsrcAttributeView),
    SsrcGroup(SsrcGroupView),
    Unknown(Option<Seq<char>>),
}

impl DeepView for Attribute {
    type V = AttributeView;

    open spec fn deep_view(&self) -> AttributeView {
        match self {
            Attribute::BundleOnly(v) => AttributeView::BundleOnly(v.deep_view()),
            Attribute::Candidate(v) => AttributeView::Candidate(v.deep_view()),
            Attribute::EndOfCandidates(v) => AttributeView::EndOfCandidates(v.deep_view()),
            Attribute::ExtensionMap(v) => AttributeView::ExtensionMap(v.deep_view()),
            Attribute::ExtensionMapAllowMixed(v) => AttributeView::ExtensionMapAllowMixed(v.deep_view()),
            Attribute::Fingerprint(v) => AttributeView::Fingerprint(v.deep_view()),
            Attribute::FormatParameters(v) => AttributeView::FormatParameters(v.deep_view()),
            Attribute::Group(v) => AttributeView::Group(v.deep_view()),
            Attribute::IceLite(v) => AttributeView::IceLite(v.deep_view()),
            Attribute::IceOptions(v) => AttributeView::IceOptions(v.deep_view()),
            Attribute::IcePwd(v) => AttributeView::IcePwd(v.deep_view()),
            Attribute::IceUfrag(v) => AttributeView::IceUfrag(v.deep_view()),
            Attribute::Inactive(v) => AttributeView::Inactive(v.deep_view()),
            Attribute::MaxPacketTime(v) => AttributeView::MaxPacketTime(v.deep_view()),
            Attribute::MediaStreamId(v) => AttributeView::MediaStreamId(v.deep_view()),
            Attribute::MediaStreamIdSemantic(v) => AttributeView::MediaStreamIdSemantic(v.deep_view()),
            Attribute::Mid(v) => AttributeView::Mid(v.deep_view()),
            Attribute::PacketTime(v) => AttributeView::PacketTime(v.deep_view()),
            Attribute::ReceiveOnly(v) => AttributeView::ReceiveOnly(v.deep_view()),
            Attribute::Rid(v) => AttributeView::Rid(v.deep_view()),
            Attribute::Rtcp(v) => AttributeView::Rtcp(v.deep_view()),
            Attribute::RtcpFeedback(v) => AttributeView::RtcpFeedback(v.deep_view()),
            Attribute::RtcpMux(v) => AttributeView::RtcpMux(v.deep_view()),
            Attribute::RtcpMuxOnly(v) => AttributeView::RtcpMuxOnly(v.deep_view()),
            Attribute::RtcpReducedSize(v) => AttributeView::RtcpReducedSize(v.deep_view()),
            Attribute::RtpMap(v) => AttributeView::RtpMap(v.deep_view()),
            Attribute::SendOnly(v) => AttributeView::SendOnly(v.deep_view()),
            Attribute::SendReceive(v) => AttributeView::SendReceive(v.deep_view()),
            Attribute::Setup(v) => AttributeView::Setup(v.deep_view()),
            Attribute::SsrcAttribute(v) => AttributeView::SsrcAttribute(v.deep_view()),
            Attribute::SsrcGroup(v) => AttributeView::SsrcGroup(v.deep_view()),
            Attribute::Unknown(v) => AttributeView::Unknown(v.deep_view()),
        }
    }
}

impl AttributeView {
    /// What is written after the name and a colon; `None` where the
    /// attribute is written as its name alone.
    pub open spec fn value(self) -> Option<Seq<char>> {
        match self {
            AttributeView::BundleOnly(_) => None,
            AttributeView::Candidate(v) => Some(v.value()),
            AttributeView::EndOfCandidates(_) => None,
            AttributeView::ExtensionMap(v) => Some(v.value()),
            AttributeView::ExtensionMapAllowMixed(_) => None,
            AttributeView::Fingerprint(v) => Some(v.value()),
            AttributeView::FormatParameters(v) => Some(v.value()),
            AttributeView::Group(v) => Some(v.value()),
            AttributeView::IceLite(_) => None,
            AttributeView::IceOptions(v) => Some(IceOptions::value(v)),
            AttributeView::IcePwd(v) => Some(v),
            AttributeView::IceUfrag(v) => Some(v),
            AttributeView::Inactive(_) => None,
            AttributeView::MaxPacketTime(v) => Some(decimal(v.0 as nat)),
            AttributeView::MediaStreamId(v) => Some(v.value()),
            AttributeView::MediaStreamIdSemantic(v) => Some(v.value()),
            AttributeView::Mid(v) => Some(v),
            AttributeView::PacketTime(v) => Some(decimal(v.0 as nat)),
            AttributeView::ReceiveOnly(_) => None,
            AttributeView::Rid(v) => Some(v.value()),
            AttributeView::Rtcp(v) => Some(v.value()),
            AttributeView::RtcpFeedback(v) => Some(v.value()),
            AttributeView::RtcpMux(_) => None,
            AttributeView::RtcpMuxOnly(_) => None,
            AttributeView::RtcpReducedSize(_) => None,
            AttributeView::RtpMap(v) => Some(v.value()),
            AttributeView::SendOnly(_) => None,
            AttributeView::SendReceive(_) => None,
            AttributeView::Setup(v) => Some(v.0.text()),
            AttributeView::SsrcAttribute(v) => Some(v.value()),
            AttributeView::SsrcGroup(v) => Some(v.value()),
            AttributeView::Unknown(v) => v,
        }
    }

    /// The attribute has no type of its own.
    pub open spec fn is_raw(self) -> bool {
        self is Unknown
    }

    /// The maps inside the attribute hold every key once: the extension
    /// pairs of a candidate, and the options of `ice-options`.
    pub open spec fn wf(self) -> bool {
        match self {
            AttributeView::Candidate(c) => c.wf(),
            AttributeView::IceOptions(o) => no_option_twice(o),
            _ => true,
        }
    }
}

/// Every attribute among the entries is well formed.
pub open spec fn entries_wf(entries: Seq<(Seq<char>, AttributeView)>) -> bool {
    forall|j: int| 0 <= j < entries.len() ==> (#[trigger] entries[j]).1.wf()
}

/// An attribute that is read is well formed.
pub proof fn lemma_attribute_grammar_is_well_formed(name: Seq<char>, s: Seq<char>, i: int)
    requires
        attribute_grammar(name, s, i) is Some,
    ensures
        crate::lexer::value_of(attribute_grammar(name, s, i)).wf(),
{
    reveal(attribute_grammar);
    if CandidateView::grammar(s, i) is Some {
        CandidateView::lemma_grammar_is_well_formed(s, i);
    }
    if IceOptions::grammar(s, i) is Some {
        IceOptions::lemma_grammar_is_well_formed(s, i);
    }
}

impl Attribute {
    /// The value of the attribute as text.
    pub fn to_string(&self) -> (r: Option<String>)
        ensures
            r.deep_view() == self.deep_view().value(),
    {
        match self {
            Attribute::BundleOnly(v) => v.to_string(),
            Attribute::Candidate(v) => v.to_string(),
            Attribute::EndOfCandidates(v) => v.to_string(),
            Attribute::ExtensionMap(v) => v.to_string(),
            Attribute::ExtensionMapAllowMixed(v) => v.to_string(),
            Attribute::Fingerprint(v) => v.to_string(),
            Attribute::FormatParameters(v) => v.to_string(),
            Attribute::Group(v) => v.to_string(),
            Attribute::IceLite(v) => v.to_string(),
            Attribute::IceOptions(v) => v.to_string(),
            Attribute::IcePwd(v) => v.to_string(),
            Attribute::IceUfrag(v) => v.to_string(),
            Attribute::Inactive(v) => v.to_string(),
            Attribute::MaxPacketTime(v) => v.to_string(),
            Attribute::MediaStreamId(v) => v.to_string(),
            Attribute::MediaStreamIdSemantic(v) => v.to_string(),
            Attribute::Mid(v) => v.to_string(),
            Attribute::PacketTime(v) => v.to_string(),
            Attribute::ReceiveOnly(v) => v.to_string(),
            Attribute::Rid(v) => v.to_string(),
            Attribute::Rtcp(v) => v.to_string(),
            Attribute::RtcpFeedback(v) => v.to_string(),
            Attribute::RtcpMux(v) => v.to_string(),
            Attribute::RtcpMuxOnly(v) => v.to_string(),
            Attribute::RtcpReducedSize(v) => v.to_string(),
            Attribute::RtpMap(v) => v.to_string(),
            Attribute::SendOnly(v) => v.to_string(),
            Attribute::SendReceive(v) => v.to_string(),
            Attribute::Setup(v) => v.to_string(),
            Attribute::SsrcAttribute(v) => v.to_string(),
            Attribute::SsrcGroup(v) => v.to_string(),
            Attribute::Unknown(v) => match v {
                Some(text) => Some(text.clone()),
                None => None,
            },
        }
    }

    /// The attribute has no type of its own.
    pub fn is_raw(&self) -> (r: bool)
        ensures
            r == self.deep_view().is_raw(),
    {
        match self {
            Attribute::Unknown(_) => true,
            _ => false,
        }
    }
}

/// The name has a type of its own.
pub open spec fn is_registered(name: Seq<char>) -> bool {
    name == BundleOnly::name()
    || name == Candidate::name()
    || name == EndOfCandidates::name()
    || name == ExtensionMap::name()
    || name == ExtensionMapAllowMixed::name()
    || name == Fingerprint::name()
    || name == FormatParameters::name()
    || name == Group::name()
    || name == IceLite::name()
    || name == IceOptions::name()
    || name == IcePwd::name()
    || name == IceUfrag::name()
    || name == Inactive::name()
    || name == MaxPacketTime::name()
    || name == MediaStreamId::name()
    || name == MediaStreamIdSemantic::name()
    || name == Mid::name()
    || name == PacketTime::name()
    || name == ReceiveOnly::name()
    || name == Rid::name()
    || name == Rtcp::name()
    || name == RtcpFeedback::name()
    || name == RtcpMux::name()
    || name == RtcpMuxOnly::name()
    || name == RtcpReducedSize::name()
    || name == RtpMap::name()
    || name == SendOnly::name()
    || name == SendReceive::name()
    || name == Setup::name()
    || name == SsrcAttribute::name()
    || name == SsrcGroup::name()
}

/// The grammar of what follows an attribute name on its line: that of the
/// type registered under the name, or free text where there is none.
#[verifier::opaque]
pub open spec fn attribute_grammar(name: Seq<char>, s: Seq<char>, i: int) -> Option<
    (AttributeView, int),
> {
    if name == BundleOnly::name() {
        match BundleOnly::grammar(s, i) {
            Some((v, n)) => Some((AttributeView::BundleOnly(v), n)),
            None => None,
        }
    } else if name == Candidate::name() {
        match CandidateView::grammar(s, i) {
            Some((v, n)) => Some((AttributeView::Candidate(v), n)),
            None => None,
        }
    } else if name == EndOfCandidates::name() {
        match EndOfCandidates::grammar(s, i) {
            Some((v, n)) => Some((AttributeView::EndOfCandidates(v), n)),
            None => None,
        }
    } else if name == ExtensionMap::name() {
        match ExtensionMapView::grammar(s, i) {
            Some((v, n)) => Some((AttributeView::ExtensionMap(v), n)),
            None => None,
        }
    } else if name == ExtensionMapAllowMixed::name() {
        match ExtensionMapAllowMixed::grammar(s, i) {
            Some((v, n)) => Some((AttributeView::ExtensionMapAllowMixed(v), n)),
            None => None,
        }
    } else if name == Fingerprint::name() {
        match FingerprintView::grammar(s, i) {
            Some((v, n)) => Some((AttributeView::Fingerprint(v), n)),
            None => None,
        }
    } else if name == FormatParameters::name() {
        match FormatParametersView::grammar(s, i) {
            Some((v, n)) => Some((AttributeView::FormatParameters(v), n)),
            None => None,
        }
    } else if name == Group::name() {
        match GroupView::grammar(s, i) {
            Some((v, n)) => Some((AttributeView::Group(v), n)),
            None => None,
        }
    } else if name == IceLite::name() {
        match IceLite::grammar(s, i) {
            Some((v, n)) => Some((AttributeView::IceLite(v), n)),
            None => None,
        }
    } else if name == IceOptions::name() {
        match IceOptions::grammar(s, i) {
            Some((v, n)) => Some((AttributeView::IceOptions(v), n)),
            None => None,
        }
    } else if name == IcePwd::name() {
        match IcePwd::grammar(s, i) {
            Some((v, n)) => Some((AttributeView::IcePwd(v), n)),
            None => None,
        }
    } else if name == IceUfrag::name() {
        match IceUfrag::grammar(s, i) {
            Some((v, n)) => Some((AttributeView::IceUfrag(v), n)),
            None => None,
        }
    } else if name == Inactive::name() {
        match Inactive::grammar(s, i) {
            Some((v, n)) => Some((AttributeView::Inactive(v), n)),
            None => None,
        }
    } else if name == MaxPacketTime::name() {
        match MaxPacketTime::grammar(s, i) {
            Some((v, n)) => Some((AttributeView::MaxPacketTime(v), n)),
            None => None,
        }
    } else if name == MediaStreamId::name() {
        match MediaStreamIdView::grammar(s, i) {
            Some((v, n)) => Some((AttributeView::MediaStreamId(v), n)),
            None => None,
        }
    } else if name == MediaStreamIdSemantic::name() {
        match MediaStreamIdSemanticView::grammar(s, i) {
            Some((v, n)) => Some((AttributeView::MediaStreamIdSemantic(v), n)),
            None => None,
        }
    } else if name == Mid::name() {
        match Mid::grammar(s, i) {
            Some((v, n)) => Some((AttributeView::Mid(v), n)),
            None => None,
        }
    } else if name == PacketTime::name() {
        match PacketTime::grammar(s, i) {
            Some((v, n)) => Some((AttributeView::PacketTime(v), n)),
            None => None,
        }
    } else if name == ReceiveOnly::name() {
        match ReceiveOnly::grammar(s, i) {
            Some((v, n)) => Some((AttributeView::ReceiveOnly(v), n)),
            None => None,
        }
    } else if name == Rid::name() {
        match RidView::grammar(s, i) {
            Some((v, n)) => Some((AttributeView::Rid(v), n)),
            None => None,
        }
    } else if name == Rtcp::name() {
        match RtcpView::grammar(s, i) {
            Some((v, n)) => Some((AttributeView::Rtcp(v), n)),
            None => None,
        }
    } else if name == RtcpFeedback::name() {
        match RtcpFeedbackView::grammar(s, i) {
            Some((v, n)) => Some((AttributeView::RtcpFeedback(v), n)),
            None => None,
        }
    } else if name == RtcpMux::name() {
        match RtcpMux::grammar(s, i) {
            Some((v, n)) => Some((AttributeView::RtcpMux(v), n)),
            None => None,
        }
    } else if name == RtcpMuxOnly::name() {
        match RtcpMuxOnly::grammar(s, i) {
            Some((v, n)) => Some((AttributeView::RtcpMuxOnly(v), n)),
            None => None,
        }
    } else if name == RtcpReducedSize::name() {
        match RtcpReducedSize::grammar(s, i) {
            Some((v, n)) => Some((AttributeView::RtcpReducedSize(v), n)),
            None => None,
        }
    } else if name == RtpMap::name() {
        match RtpMapView::grammar(s, i) {
            Some((v, n)) => Some((AttributeView::RtpMap(v), n)),
            None => None,
        }
    } else if name == SendOnly::name() {
        match SendOnly::grammar(s, i) {
            Some((v, n)) => Some((AttributeView::SendOnly(v), n)),
            None => None,
        }
    } else if name == SendReceive::name() {
        match SendReceive::grammar(s, i) {
            Some((v, n)) => Some((AttributeView::SendReceive(v), n)),
            None => None,
        }
    } else if name == Setup::name() {
        match Setup::grammar(s, i) {
            Some((v, n)) => Some((AttributeView::Setup(v), n)),
            None => None,
        }
    } else if name == SsrcAttribute::name() {
        match SsrcAttributeView::grammar(s, i) {
            Some((v, n)) => Some((AttributeView::SsrcAttribute(v), n)),
            None => None,
        }
    } else if name == SsrcGroup::name() {
        match SsrcGroupView::grammar(s, i) {
            Some((v, n)) => Some((AttributeView::SsrcGroup(v), n)),
            None => None,
        }
    } else {
        match opaque_value(s, i) {
            Some((v, n)) => Some((AttributeView::Unknown(v), n)),
            None => None,
        }
    }
}

/// Reads what follows an attribute name, by the grammar of that name.
pub fn parse_attribute(name: &str, input: &Vec<char>, pos: usize) -> (r: Option<(Attribute, usize)>)
    requires
        pos <= input.len(),
    ensures
        parsed_as(r, attribute_grammar(name@, input@, pos as int)),
        within(r, pos, input@.len()),
{
    proof {
        reveal(attribute_grammar);
    }
    if str_eq(name, BundleOnly::name_str()) {
        let (v, n) = BundleOnly::parse(input, pos)?;
        Some((Attribute::BundleOnly(v), n))
    } else if str_eq(name, Candidate::name_str()) {
        let (v, n) = Candidate::parse(input, pos)?;
        Some((Attribute::Candidate(v), n))
    } else if str_eq(name, EndOfCandidates::name_str()) {
        let (v, n) = EndOfCandidates::parse(input, pos)?;
        Some((Attribute::EndOfCandidates(v), n))
    } else if str_eq(name, ExtensionMap::name_str()) {
        let (v, n) = ExtensionMap::parse(input, pos)?;
        Some((Attribute::ExtensionMap(v), n))
    } else if str_eq(name, ExtensionMapAllowMixed::name_str()) {
        let (v, n) = ExtensionMapAllowMixed::parse(input, pos)?;
        Some((Attribute::ExtensionMapAllowMixed(v), n))
    } else if str_eq(name, Fingerprint::name_str()) {
        let (v, n) = Fingerprint::parse(input, pos)?;
        Some((Attribute::Fingerprint(v), n))
    } else if str_eq(name, FormatParameters::name_str()) {
        let (v, n) = FormatParameters::parse(input, pos)?;
        Some((Attribute::FormatParameters(v), n))
    } else if str_eq(name, Group::name_str()) {
        let (v, n) = Group::parse(input, pos)?;
        Some((Attribute::Group(v), n))
    } else if str_eq(name, IceLite::name_str()) {
        let (v, n) = IceLite::parse(input, pos)?;
        Some((Attribute::IceLite(v), n))
    } else if str_eq(name, IceOptions::name_str()) {
        let (v, n) = IceOptions::parse(input, pos)?;
        Some((Attribute::IceOptions(v), n))
    } else if str_eq(name, IcePwd::name_str()) {
        let (v, n) = IcePwd::parse(input, pos)?;
        Some((Attribute::IcePwd(v), n))
    } else if str_eq(name, IceUfrag::name_str()) {
        let (v, n) = IceUfrag::parse(input, pos)?;
        Some((Attribute::IceUfrag(v), n))
    } else if str_eq(name, Inactive::name_str()) {
        let (v, n) = Inactive::parse(input, pos)?;
        Some((Attribute::Inactive(v), n))
    } else if str_eq(name, MaxPacketTime::name_str()) {
        let (v, n) = MaxPacketTime::parse(input, pos)?;
        Some((Attribute::MaxPacketTime(v), n))
    } else if str_eq(name, MediaStreamId::name_str()) {
        let (v, n) = MediaStreamId::parse(input, pos)?;
        Some((Attribute::MediaStreamId(v), n))
    } else if str_eq(name, MediaStreamIdSemantic::name_str()) {
        let (v, n) = MediaStreamIdSemantic::parse(input, pos)?;
        Some((Attribute::MediaStreamIdSemantic(v), n))
    } else if str_eq(name, Mid::name_str()) {
        let (v, n) = Mid::parse(input, pos)?;
        Some((Attribute::Mid(v), n))
    } else if str_eq(name, PacketTime::name_str()) {
        let (v, n) = PacketTime::parse(input, pos)?;
        Some((Attribute::PacketTime(v), n))
    } else if str_eq(name, ReceiveOnly::name_str()) {
        let (v, n) = ReceiveOnly::parse(input, pos)?;
        Some((Attribute::ReceiveOnly(v), n))
    } else if str_eq(name, Rid::name_str()) {
        let (v, n) = Rid::parse(input, pos)?;
        Some((Attribute::Rid(v), n))
    } else if str_eq(name, Rtcp::name_str()) {
        let (v, n) = Rtcp::parse(input, pos)?;
        Some((Attribute::Rtcp(v), n))
    } else if str_eq(name, RtcpFeedback::name_str()) {
        let (v, n) = RtcpFeedback::parse(input, pos)?;
        Some((Attribute::RtcpFeedback(v), n))
    } else if str_eq(name, RtcpMux::name_str()) {
        let (v, n) = RtcpMux::parse(input, pos)?;
        Some((Attribute::RtcpMux(v), n))
    } else if str_eq(name, RtcpMuxOnly::name_str()) {
        let (v, n) = RtcpMuxOnly::parse(input, pos)?;
        Some((Attribute::RtcpMuxOnly(v), n))
    } else if str_eq(name, RtcpReducedSize::name_str()) {
        let (v, n) = RtcpReducedSize::parse(input, pos)?;
        Some((Attribute::RtcpReducedSize(v), n))
    } else if str_eq(name, RtpMap::name_str()) {
        let (v, n) = RtpMap::parse(input, pos)?;
        Some((Attribute::RtpMap(v), n))
    } else if str_eq(name, SendOnly::name_str()) {
        let (v, n) = SendOnly::parse(input, pos)?;
        Some((Attribute::SendOnly(v), n))
    } else if str_eq(name, SendReceive::name_str()) {
        let (v, n) = SendReceive::parse(input, pos)?;
        Some((Attribute::SendReceive(v), n))
    } else if str_eq(name, Setup::name_str()) {
        let (v, n) = Setup::parse(input, pos)?;
        Some((Attribute::Setup(v), n))
    } else if str_eq(name, SsrcAttribute::name_str()) {
        let (v, n) = SsrcAttribute::parse(input, pos)?;
        Some((Attribute::SsrcAttribute(v), n))
    } else if str_eq(name, SsrcGroup::name_str()) {
        let (v, n) = SsrcGroup::parse(input, pos)?;
        Some((Attribute::SsrcGroup(v), n))
    } else {
        let (v, n) = parse_opaque(input, pos)?;
        Some((Attribute::Unknown(v), n))
    }
}

/// A type that an [`Attribute`] can hold and hand back.
pub trait BaseAttribute: Sized + DeepView {
    /// The tagged value that holds a value of this type.
    spec fn wrapped(v: Self::V) -> AttributeView;

    /// The value of this type that a tagged value holds, if it holds one.
    spec fn unwrapped(a: AttributeView) -> Option<Self::V>;

    fn into_attribute(self) -> (a: Attribute)
        ensures
            a.deep_view() == Self::wrapped(self.deep_view()),
    ;

    fn from_attribute(a: &Attribute) -> (r: Option<&Self>)
        ensures
            r.deep_view() == Self::unwrapped(a.deep_view()),
    ;
}

/// An attribute type with its grammar and its way of writing its value.
pub trait ParsableAttribute: BaseAttribute {
    /// The grammar of what follows the name of the attribute on its line.
    spec fn grammar_of(s: Seq<char>, i: int) -> Option<(Self::V, int)>;

    /// Reads what follows the name of the attribute.
    fn parse(input: &Vec<char>, pos: usize) -> (r: Option<(Self, usize)>)
        requires
            pos <= input.len(),
        ensures
            parsed_as(r, Self::grammar_of(input@, pos as int)),
            within(r, pos, input@.len()),
    ;

    /// The value of the attribute as text; `None` for an attribute that is
    /// written as its name alone.
    fn to_string(&self) -> (r: Option<String>)
        ensures
            r.deep_view() == Self::wrapped(self.deep_view()).value(),
    ;
}

/// An attribute type with the name under which it is read and stored.
pub trait NamedAttribute: ParsableAttribute {
    const NAME: &'static str;

    /// The name, as contracts speak of it.
    spec fn name() -> Seq<char>;

    /// The name.
    fn name_str() -> (r: &'static str)
        ensures
            r@ == Self::name(),
    ;
}

impl BaseAttribute for BundleOnly {
    open spec fn wrapped(v: BundleOnly) -> AttributeView {
        AttributeView::BundleOnly(v)
    }

    open spec fn unwrapped(a: AttributeView) -> Option<BundleOnly> {
        match a {
            AttributeView::BundleOnly(v) => Some(v),
            _ => None,
        }
    }

    fn into_attribute(self) -> (a: Attribute) {
        Attribute::BundleOnly(self)
    }

    fn from_attribute(a: &Attribute) -> (r: Option<&Self>) {
        match a {
            Attribute::BundleOnly(v) => Some(v),
            _ => None,
        }
    }
}

impl ParsableAttribute for BundleOnly {
    open spec fn grammar_of(s: Seq<char>, i: int) -> Option<(BundleOnly, int)> {
        BundleOnly::grammar(s, i)
    }

    fn parse(input: &Vec<char>, pos: usize) -> (r: Option<(Self, usize)>) {
        BundleOnly::parse(input, pos)
    }

    fn to_string(&self) -> (r: Option<String>) {
        BundleOnly::to_string(self)
    }
}

impl NamedAttribute for BundleOnly {
    const NAME: &'static str = "bundle-only";

    open spec fn name() -> Seq<char> {
        "bundle-only"@
    }

    fn name_str() -> (r: &'static str) {
        Self::NAME
    }
}

impl BaseAttribute for Candidate {
    open spec fn wrapped(v: CandidateView) -> AttributeView {
        AttributeView::Candidate(v)
    }

    open spec fn unwrapped(a: AttributeView) -> Option<CandidateView> {
        match a {
            AttributeView::Candidate(v) => Some(v),
            _ => None,
        }
    }

    fn into_attribute(self) -> (a: Attribute) {
        Attribute::Candidate(self)
    }

    fn from_attribute(a: &Attribute) -> (r: Option<&Self>) {
        match a {
            Attribute::Candidate(v) => Some(v),
            _ => None,
        }
    }
}

impl ParsableAttribute for Candidate {
    open spec fn grammar_of(s: Seq<char>, i: int) -> Option<(CandidateView, int)> {
        CandidateView::grammar(s, i)
    }

    fn parse(input: &Vec<char>, pos: usize) -> (r: Option<(Self, usize)>) {
        Candidate::parse(input, pos)
    }

    fn to_string(&self) -> (r: Option<String>) {
        Candidate::to_string(self)
    }
}

impl NamedAttribute for Candidate {
    const NAME: &'static str = "candidate";

    open spec fn name() -> Seq<char> {
        "candidate"@
    }

    fn name_str() -> (r: &'static str) {
        Self::NAME
    }
}

impl BaseAttribute for EndOfCandidates {
    open spec fn wrapped(v: EndOfCandidates) -> AttributeView {
        AttributeView::EndOfCandidates(v)
    }

    open spec fn unwrapped(a: AttributeView) -> Option<EndOfCandidates> {
        match a {
            AttributeView::EndOfCandidates(v) => Some(v),
            _ => None,
        }
    }

    fn into_attribute(self) -> (a: Attribute) {
        Attribute::EndOfCandidates(self)
    }

    fn from_attribute(a: &Attribute) -> (r: Option<&Self>) {
        match a {
            Attribute::EndOfCandidates(v) => Some(v),
            _ => None,
        }
    }
}

impl ParsableAttribute for EndOfCandidates {
    open spec fn grammar_of(s: Seq<char>, i: int) -> Option<(EndOfCandidates, int)> {
        EndOfCandidates::grammar(s, i)
    }

    fn parse(input: &Vec<char>, pos: usize) -> (r: Option<(Self, usize)>) {
        EndOfCandidates::parse(input, pos)
    }

    fn to_string(&self) -> (r: Option<String>) {
        EndOfCandidates::to_string(self)
    }
}

impl NamedAttribute for EndOfCandidates {
    const NAME: &'static str = "end-of-candidates";

    open spec fn name() -> Seq<char> {
        "end-of-candidates"@
    }

    fn name_str() -> (r: &'static str) {
        Self::NAME
    }
}

impl BaseAttribute for ExtensionMap {
    open spec fn wrapped(v: ExtensionMapView) -> AttributeView {
        AttributeView::ExtensionMap(v)
    }

    open spec fn unwrapped(a: AttributeView) -> Option<ExtensionMapView> {
        match a {
            AttributeView::ExtensionMap(v) => Some(v),
            _ => None,
        }
    }

    fn into_attribute(self) -> (a: Attribute) {
        Attribute::ExtensionMap(self)
    }

    fn from_attribute(a: &Attribute) -> (r: Option<&Self>) {
        match a {
            Attribute::ExtensionMap(v) => Some(v),
            _ => None,
        }
    }
}

impl ParsableAttribute for ExtensionMap {
    open spec fn grammar_of(s: Seq<char>, i: int) -> Option<(ExtensionMapView, int)> {
        ExtensionMapView::grammar(s, i)
    }

    fn parse(input: &Vec<char>, pos: usize) -> (r: Option<(Self, usize)>) {
        ExtensionMap::parse(input, pos)
    }

    fn to_string(&self) -> (r: Option<String>) {
        ExtensionMap::to_string(self)
    }
}

impl NamedAttribute for ExtensionMap {
    const NAME: &'static str = "extmap";

    open spec fn name() -> Seq<char> {
        "extmap"@
    }

    fn name_str() -> (r: &'static str) {
        Self::NAME
    }
}

impl BaseAttribute for ExtensionMapAllowMixed {
    open spec fn wrapped(v: ExtensionMapAllowMixed) -> AttributeView {
        AttributeView::ExtensionMapAllowMixed(v)
    }

    open spec fn unwrapped(a: AttributeView) -> Option<ExtensionMapAllowMixed> {
        match a {
            AttributeView::ExtensionMapAllowMixed(v) => Some(v),
            _ => None,
        }
    }

    fn into_attribute(self) -> (a: Attribute) {
        Attribute::ExtensionMapAllowMixed(self)
    }

    fn from_attribute(a: &Attribute) -> (r: Option<&Self>) {
        match a {
            Attribute::ExtensionMapAllowMixed(v) => Some(v),
            _ => None,
        }
    }
}

impl ParsableAttribute for ExtensionMapAllowMixed {
    open spec fn grammar_of(s: Seq<char>, i: int) -> Option<(ExtensionMapAllowMixed, int)> {
        ExtensionMapAllowMixed::grammar(s, i)
    }

    fn parse(input: &Vec<char>, pos: usize) -> (r: Option<(Self, usize)>) {
        ExtensionMapAllowMixed::parse(input, pos)
    }

    fn to_string(&self) -> (r: Option<String>) {
        ExtensionMapAllowMixed::to_string(self)
    }
}

impl NamedAttribute for ExtensionMapAllowMixed {
    const NAME: &'static str = "extmap-allow-mixed";

    open spec fn name() -> Seq<char> {
        "extmap-allow-mixed"@
    }

    fn name_str() -> (r: &'static str) {
        Self::NAME
    }
}

impl BaseAttribute for Fingerprint {
    open spec fn wrapped(v: FingerprintView) -> AttributeView {
        AttributeView::Fingerprint(v)
    }

    open spec fn unwrapped(a: AttributeView) -> Option<FingerprintView> {
        match a {
            AttributeView::Fingerprint(v) => Some(v),
            _ => None,
        }
    }

    fn into_attribute(self) -> (a: Attribute) {
        Attribute::Fingerprint(self)
    }

    fn from_attribute(a: &Attribute) -> (r: Option<&Self>) {
        match a {
            Attribute::Fingerprint(v) => Some(v),
            _ => None,
        }
    }
}

impl ParsableAttribute for Fingerprint {
    open spec fn grammar_of(s: Seq<char>, i: int) -> Option<(FingerprintView, int)> {
        FingerprintView::grammar(s, i)
    }

    fn parse(input: &Vec<char>, pos: usize) -> (r: Option<(Self, usize)>) {
        Fingerprint::parse(input, pos)
    }

    fn to_string(&self) -> (r: Option<String>) {
        Fingerprint::to_string(self)
    }
}

impl NamedAttribute for Fingerprint {
    const NAME: &'static str = "fingerprint";

    open spec fn name() -> Seq<char> {
        "fingerprint"@
    }

    fn name_str() -> (r: &'static str) {
        Self::NAME
    }
}

impl BaseAttribute for FormatParameters {
    open spec fn wrapped(v: FormatParametersView) -> AttributeView {
        AttributeView::FormatParameters(v)
    }

    open spec fn unwrapped(a: AttributeView) -> Option<FormatParametersView> {
        match a {
            AttributeView::FormatParameters(v) => Some(v),
            _ => None,
        }
    }

    fn into_attribute(self) -> (a: Attribute) {
        Attribute::FormatParameters(self)
    }

    fn from_attribute(a: &Attribute) -> (r: Option<&Self>) {
        match a {
            Attribute::FormatParameters(v) => Some(v),
            _ => None,
        }
    }
}

impl ParsableAttribute for FormatParameters {
    open spec fn grammar_of(s: Seq<char>, i: int) -> Option<(FormatParametersView, int)> {
        FormatParametersView::grammar(s, i)
    }

    fn parse(input: &Vec<char>, pos: usize) -> (r: Option<(Self, usize)>) {
        FormatParameters::parse(input, pos)
    }

    fn to_string(&self) -> (r: Option<String>) {
        FormatParameters::to_string(self)
    }
}

impl NamedAttribute for FormatParameters {
    const NAME: &'static str = "fmtp";

    open spec fn name() -> Seq<char> {
        "fmtp"@
    }

    fn name_str() -> (r: &'static str) {
        Self::NAME
    }
}

impl BaseAttribute for Group {
    open spec fn wrapped(v: GroupView) -> AttributeView {
        AttributeView::Group(v)
    }

    open spec fn unwrapped(a: AttributeView) -> Option<GroupView> {
        match a {
            AttributeView::Group(v) => Some(v),
            _ => None,
        }
    }

    fn into_attribute(self) -> (a: Attribute) {
        Attribute::Group(self)
    }

    fn from_attribute(a: &Attribute) -> (r: Option<&Self>) {
        match a {
            Attribute::Group(v) => Some(v),
            _ => None,
        }
    }
}

impl ParsableAttribute for Group {
    open spec fn grammar_of(s: Seq<char>, i: int) -> Option<(GroupView, int)> {
        GroupView::grammar(s, i)
    }

    fn parse(input: &Vec<char>, pos: usize) -> (r: Option<(Self, usize)>) {
        Group::parse(input, pos)
    }

    fn to_string(&self) -> (r: Option<String>) {
        Group::to_string(self)
    }
}

impl NamedAttribute for Group {
    const NAME: &'static str = "group";

    open spec fn name() -> Seq<char> {
        "group"@
    }

    fn name_str() -> (r: &'static str) {
        Self::NAME
    }
}

impl BaseAttribute for IceLite {
    open spec fn wrapped(v: IceLite) -> AttributeView {
        AttributeView::IceLite(v)
    }

    open spec fn unwrapped(a: AttributeView) -> Option<IceLite> {
        match a {
            AttributeView::IceLite(v) => Some(v),
            _ => None,
        }
    }

    fn into_attribute(self) -> (a: Attribute) {
        Attribute::IceLite(self)
    }

    fn from_attribute(a: &Attribute) -> (r: Option<&Self>) {
        match a {
            Attribute::IceLite(v) => Some(v),
            _ => None,
        }
    }
}

impl ParsableAttribute for IceLite {
    open spec fn grammar_of(s: Seq<char>, i: int) -> Option<(IceLite, int)> {
        IceLite::grammar(s, i)
    }

    fn parse(input: &Vec<char>, pos: usize) -> (r: Option<(Self, usize)>) {
        IceLite::parse(input, pos)
    }

    fn to_string(&self) -> (r: Option<String>) {
        IceLite::to_string(self)
    }
}

impl NamedAttribute for IceLite {
    const NAME: &'static str = "ice-lite";

    open spec fn name() -> Seq<char> {
        "ice-lite"@
    }

    fn name_str() -> (r: &'static str) {
        Self::NAME
    }
}

impl BaseAttribute for IceOptions {
    open spec fn wrapped(v: Seq<IceOptionView>) -> AttributeView {
        AttributeView::IceOptions(v)
    }

    open spec fn unwrapped(a: AttributeView) -> Option<Seq<IceOptionView>> {
        match a {
            AttributeView::IceOptions(v) => Some(v),
            _ => None,
        }
    }

    fn into_attribute(self) -> (a: Attribute) {
        Attribute::IceOptions(self)
    }

    fn from_attribute(a: &Attribute) -> (r: Option<&Self>) {
        match a {
            Attribute::IceOptions(v) => Some(v),
            _ => None,
        }
    }
}

impl ParsableAttribute for IceOptions {
    open spec fn grammar_of(s: Seq<char>, i: int) -> Option<(Seq<IceOptionView>, int)> {
        IceOptions::grammar(s, i)
    }

    fn parse(input: &Vec<char>, pos: usize) -> (r: Option<(Self, usize)>) {
        IceOptions::parse(input, pos)
    }

    fn to_string(&self) -> (r: Option<String>) {
        IceOptions::to_string(self)
    }
}

impl NamedAttribute for IceOptions {
    const NAME: &'static str = "ice-options";

    open spec fn name() -> Seq<char> {
        "ice-options"@
    }

    fn name_str() -> (r: &'static str) {
        Self::NAME
    }
}

impl BaseAttribute for IcePwd {
    open spec fn wrapped(v: Seq<char>) -> AttributeView {
        AttributeView::IcePwd(v)
    }

    open spec fn unwrapped(a: AttributeView) -> Option<Seq<char>> {
        match a {
            AttributeView::IcePwd(v) => Some(v),
            _ => None,
        }
    }

    fn into_attribute(self) -> (a: Attribute) {
        Attribute::IcePwd(self)
    }

    fn from_attribute(a: &Attribute) -> (r: Option<&Self>) {
        match a {
            Attribute::IcePwd(v) => Some(v),
            _ => None,
        }
    }
}

impl ParsableAttribute for IcePwd {
    open spec fn grammar_of(s: Seq<char>, i: int) -> Option<(Seq<char>, int)> {
        IcePwd::grammar(s, i)
    }

    fn parse(input: &Vec<char>, pos: usize) -> (r: Option<(Self, usize)>) {
        IcePwd::parse(input, pos)
    }

    fn to_string(&self) -> (r: Option<String>) {
        IcePwd::to_string(self)
    }
}

impl NamedAttribute for IcePwd {
    const NAME: &'static str = "ice-pwd";

    open spec fn name() -> Seq<char> {
        "ice-pwd"@
    }

    fn name_str() -> (r: &'static str) {
        Self::NAME
    }
}

impl BaseAttribute for IceUfrag {
    open spec fn wrapped(v: Seq<char>) -> AttributeView {
        AttributeView::IceUfrag(v)
    }

    open spec fn unwrapped(a: AttributeView) -> Option<Seq<char>> {
        match a {
            AttributeView::IceUfrag(v) => Some(v),
            _ => None,
        }
    }

    fn into_attribute(self) -> (a: Attribute) {
        Attribute::IceUfrag(self)
    }

    fn from_attribute(a: &Attribute) -> (r: Option<&Self>) {
        match a {
            Attribute::IceUfrag(v) => Some(v),
            _ => None,
        }
    }
}

impl ParsableAttribute for IceUfrag {
    open spec fn grammar_of(s: Seq<char>, i: int) -> Option<(Seq<char>, int)> {
        IceUfrag::grammar(s, i)
    }

    fn parse(input: &Vec<char>, pos: usize) -> (r: Option<(Self, usize)>) {
        IceUfrag::parse(input, pos)
    }

    fn to_string(&self) -> (r: Option<String>) {
        IceUfrag::to_string(self)
    }
}

impl NamedAttribute for IceUfrag {
    const NAME: &'static str = "ice-ufrag";

    open spec fn name() -> Seq<char> {
        "ice-ufrag"@
    }

    fn name_str() -> (r: &'static str) {
        Self::NAME
    }
}

impl BaseAttribute for Inactive {
    open spec fn wrapped(v: Inactive) -> AttributeView {
        AttributeView::Inactive(v)
    }

    open spec fn unwrapped(a: AttributeView) -> Option<Inactive> {
        match a {
            AttributeView::Inactive(v) => Some(v),
            _ => None,
        }
    }

    fn into_attribute(self) -> (a: Attribute) {
        Attribute::Inactive(self)
    }

    fn from_attribute(a: &Attribute) -> (r: Option<&Self>) {
        match a {
            Attribute::Inactive(v) => Some(v),
            _ => None,
        }
    }
}

impl ParsableAttribute for Inactive {
    open spec fn grammar_of(s: Seq<char>, i: int) -> Option<(Inactive, int)> {
        Inactive::grammar(s, i)
    }

    fn parse(input: &Vec<char>, pos: usize) -> (r: Option<(Self, usize)>) {
        Inactive::parse(input, pos)
    }

    fn to_string(&self) -> (r: Option<String>) {
        Inactive::to_string(self)
    }
}

impl NamedAttribute for Inactive {
    const NAME: &'static str = "inactive";

    open spec fn name() -> Seq<char> {
        "inactive"@
    }

    fn name_str() -> (r: &'static str) {
        Self::NAME
    }
}

impl BaseAttribute for MaxPacketTime {
    open spec fn wrapped(v: MaxPacketTime) -> AttributeView {
        AttributeView::MaxPacketTime(v)
    }

    open spec fn unwrapped(a: AttributeView) -> Option<MaxPacketTime> {
        match a {
            AttributeView::MaxPacketTime(v) => Some(v),
            _ => None,
        }
    }

    fn into_attribute(self) -> (a: Attribute) {
        Attribute::MaxPacketTime(self)
    }

    fn from_attribute(a: &Attribute) -> (r: Option<&Self>) {
        match a {
            Attribute::MaxPacketTime(v) => Some(v),
            _ => None,
        }
    }
}

impl ParsableAttribute for MaxPacketTime {
    open spec fn grammar_of(s: Seq<char>, i: int) -> Option<(MaxPacketTime, int)> {
        MaxPacketTime::grammar(s, i)
    }

    fn parse(input: &Vec<char>, pos: usize) -> (r: Option<(Self, usize)>) {
        MaxPacketTime::parse(input, pos)
    }

    fn to_string(&self) -> (r: Option<String>) {
        MaxPacketTime::to_string(self)
    }
}

impl NamedAttribute for MaxPacketTime {
    const NAME: &'static str = "maxptime";

    open spec fn name() -> Seq<char> {
        "maxptime"@
    }

    fn name_str() -> (r: &'static str) {
        Self::NAME
    }
}

impl BaseAttribute for MediaStreamId {
    open spec fn wrapped(v: MediaStreamIdView) -> AttributeView {
        AttributeView::MediaStreamId(v)
    }

    open spec fn unwrapped(a: AttributeView) -> Option<MediaStreamIdView> {
        match a {
            AttributeView::MediaStreamId(v) => Some(v),
            _ => None,
        }
    }

    fn into_attribute(self) -> (a: Attribute) {
        Attribute::MediaStreamId(self)
    }

    fn from_attribute(a: &Attribute) -> (r: Option<&Self>) {
        match a {
            Attribute::MediaStreamId(v) => Some(v),
            _ => None,
        }
    }
}

impl ParsableAttribute for MediaStreamId {
    open spec fn grammar_of(s: Seq<char>, i: int) -> Option<(MediaStreamIdView, int)> {
        MediaStreamIdView::grammar(s, i)
    }

    fn parse(input: &Vec<char>, pos: usize) -> (r: Option<(Self, usize)>) {
        MediaStreamId::parse(input, pos)
    }

    fn to_string(&self) -> (r: Option<String>) {
        MediaStreamId::to_string(self)
    }
}

impl NamedAttribute for MediaStreamId {
    const NAME: &'static str = "msid";

    open spec fn name() -> Seq<char> {
        "msid"@
    }

    fn name_str() -> (r: &'static str) {
        Self::NAME
    }
}

impl BaseAttribute for MediaStreamIdSemantic {
    open spec fn wrapped(v: MediaStreamIdSemanticView) -> AttributeView {
        AttributeView::MediaStreamIdSemantic(v)
    }

    open spec fn unwrapped(a: AttributeView) -> Option<MediaStreamIdSemanticView> {
        match a {
            AttributeView::MediaStreamIdSemantic(v) => Some(v),
            _ => None,
        }
    }

    fn into_attribute(self) -> (a: Attribute) {
        Attribute::MediaStreamIdSemantic(self)
    }

    fn from_attribute(a: &Attribute) -> (r: Option<&Self>) {
        match a {
            Attribute::MediaStreamIdSemantic(v) => Some(v),
            _ => None,
        }
    }
}

impl ParsableAttribute for MediaStreamIdSemantic {
    open spec fn grammar_of(s: Seq<char>, i: int) -> Option<(MediaStreamIdSemanticView, int)> {
        MediaStreamIdSemanticView::grammar(s, i)
    }

    fn parse(input: &Vec<char>, pos: usize) -> (r: Option<(Self, usize)>) {
        MediaStreamIdSemantic::parse(input, pos)
    }

    fn to_string(&self) -> (r: Option<String>) {
        MediaStreamIdSemantic::to_string(self)
    }
}

impl NamedAttribute for MediaStreamIdSemantic {
    const NAME: &'static str = "msid-semantic";

    open spec fn name() -> Seq<char> {
        "msid-semantic"@
    }

    fn name_str() -> (r: &'static str) {
        Self::NAME
    }
}

impl BaseAttribute for Mid {
    open spec fn wrapped(v: Seq<char>) -> AttributeView {
        AttributeView::Mid(v)
    }

    open spec fn unwrapped(a: AttributeView) -> Option<Seq<char>> {
        match a {
            AttributeView::Mid(v) => Some(v),
            _ => None,
        }
    }

    fn into_attribute(self) -> (a: Attribute) {
        Attribute::Mid(self)
    }

    fn from_attribute(a: &Attribute) -> (r: Option<&Self>) {
        match a {
            Attribute::Mid(v) => Some(v),
            _ => None,
        }
    }
}

impl ParsableAttribute for Mid {
    open spec fn grammar_of(s: Seq<char>, i: int) -> Option<(Seq<char>, int)> {
        Mid::grammar(s, i)
    }

    fn parse(input: &Vec<char>, pos: usize) -> (r: Option<(Self, usize)>) {
        Mid::parse(input, pos)
    }

    fn to_string(&self) -> (r: Option<String>) {
        Mid::to_string(self)
    }
}

impl NamedAttribute for Mid {
    const NAME: &'static str = "mid";

    open spec fn name() -> Seq<char> {
        "mid"@
    }

    fn name_str() -> (r: &'static str) {
        Self::NAME
    }
}

impl BaseAttribute for PacketTime {
    open spec fn wrapped(v: PacketTime) -> AttributeView {
        AttributeView::PacketTime(v)
    }

    open spec fn unwrapped(a: AttributeView) -> Option<PacketTime> {
        match a {
            AttributeView::PacketTime(v) => Some(v),
            _ => None,
        }
    }

    fn into_attribute(self) -> (a: Attribute) {
        Attribute::PacketTime(self)
    }

    fn from_attribute(a: &Attribute) -> (r: Option<&Self>) {
        match a {
            Attribute::PacketTime(v) => Some(v),
            _ => None,
        }
    }
}

impl ParsableAttribute for PacketTime {
    open spec fn grammar_of(s: Seq<char>, i: int) -> Option<(PacketTime, int)> {
        PacketTime::grammar(s, i)
    }

    fn parse(input: &Vec<char>, pos: usize) -> (r: Option<(Self, usize)>) {
        PacketTime::parse(input, pos)
    }

    fn to_string(&self) -> (r: Option<String>) {
        PacketTime::to_string(self)
    }
}

impl NamedAttribute for PacketTime {
    const NAME: &'static str = "ptime";

    open spec fn name() -> Seq<char> {
        "ptime"@
    }

    fn name_str() -> (r: &'static str) {
        Self::NAME
    }
}

impl BaseAttribute for ReceiveOnly {
    open spec fn wrapped(v: ReceiveOnly) -> AttributeView {
        AttributeView::ReceiveOnly(v)
    }

    open spec fn unwrapped(a: AttributeView) -> Option<ReceiveOnly> {
        match a {
            AttributeView::ReceiveOnly(v) => Some(v),
            _ => None,
        }
    }

    fn into_attribute(self) -> (a: Attribute) {
        Attribute::ReceiveOnly(self)
    }

    fn from_attribute(a: &Attribute) -> (r: Option<&Self>) {
        match a {
            Attribute::ReceiveOnly(v) => Some(v),
            _ => None,
        }
    }
}

impl ParsableAttribute for ReceiveOnly {
    open spec fn grammar_of(s: Seq<char>, i: int) -> Option<(ReceiveOnly, int)> {
        ReceiveOnly::grammar(s, i)
    }

    fn parse(input: &Vec<char>, pos: usize) -> (r: Option<(Self, usize)>) {
        ReceiveOnly::parse(input, pos)
    }

    fn to_string(&self) -> (r: Option<String>) {
        ReceiveOnly::to_string(self)
    }
}

impl NamedAttribute for ReceiveOnly {
    const NAME: &'static str = "recvonly";

    open spec fn name() -> Seq<char> {
        "recvonly"@
    }

    fn name_str() -> (r: &'static str) {
        Self::NAME
    }
}

impl BaseAttribute for Rid {
    open spec fn wrapped(v: RidView) -> AttributeView {
        AttributeView::Rid(v)
    }

    open spec fn unwrapped(a: AttributeView) -> Option<RidView> {
        match a {
            AttributeView::Rid(v) => Some(v),
            _ => None,
        }
    }

    fn into_attribute(self) -> (a: Attribute) {
        Attribute::Rid(self)
    }

    fn from_attribute(a: &Attribute) -> (r: Option<&Self>) {
        match a {
            Attribute::Rid(v) => Some(v),
            _ => None,
        }
    }
}

impl ParsableAttribute for Rid {
    open spec fn grammar_of(s: Seq<char>, i: int) -> Option<(RidView, int)> {
        RidView::grammar(s, i)
    }

    fn parse(input: &Vec<char>, pos: usize) -> (r: Option<(Self, usize)>) {
        Rid::parse(input, pos)
    }

    fn to_string(&self) -> (r: Option<String>) {
        Rid::to_string(self)
    }
}

impl NamedAttribute for Rid {
    const NAME: &'static str = "rid";

    open spec fn name() -> Seq<char> {
        "rid"@
    }

    fn name_str() -> (r: &'static str) {
        Self::NAME
    }
}

impl BaseAttribute for Rtcp {
    open spec fn wrapped(v: RtcpView) -> AttributeView {
        AttributeView::Rtcp(v)
    }

    open spec fn unwrapped(a: AttributeView) -> Option<RtcpView> {
        match a {
            AttributeView::Rtcp(v) => Some(v),
            _ => None,
        }
    }

    fn into_attribute(self) -> (a: Attribute) {
        Attribute::Rtcp(self)
    }

    fn from_attribute(a: &Attribute) -> (r: Option<&Self>) {
        match a {
            Attribute::Rtcp(v) => Some(v),
            _ => None,
        }
    }
}

impl ParsableAttribute for Rtcp {
    open spec fn grammar_of(s: Seq<char>, i: int) -> Option<(RtcpView, int)> {
        RtcpView::grammar(s, i)
    }

    fn parse(input: &Vec<char>, pos: usize) -> (r: Option<(Self, usize)>) {
        Rtcp::parse(input, pos)
    }

    fn to_string(&self) -> (r: Option<String>) {
        Rtcp::to_string(self)
    }
}

impl NamedAttribute for Rtcp {
    const NAME: &'static str = "rtcp";

    open spec fn name() -> Seq<char> {
        "rtcp"@
    }

    fn name_str() -> (r: &'static str) {
        Self::NAME
    }
}

impl BaseAttribute for RtcpFeedback {
    open spec fn wrapped(v: RtcpFeedbackView) -> AttributeView {
        AttributeView::RtcpFeedback(v)
    }

    open spec fn unwrapped(a: AttributeView) -> Option<RtcpFeedbackView> {
        match a {
            AttributeView::RtcpFeedback(v) => Some(v),
            _ => None,
        }
    }

    fn into_attribute(self) -> (a: Attribute) {
        Attribute::RtcpFeedback(self)
    }

    fn from_attribute(a: &Attribute) -> (r: Option<&Self>) {
        match a {
            Attribute::RtcpFeedback(v) => Some(v),
            _ => None,
        }
    }
}

impl ParsableAttribute for RtcpFeedback {
    open spec fn grammar_of(s: Seq<char>, i: int) -> Option<(RtcpFeedbackView, int)> {
        RtcpFeedbackView::grammar(s, i)
    }

    fn parse(input: &Vec<char>, pos: usize) -> (r: Option<(Self, usize)>) {
        RtcpFeedback::parse(input, pos)
    }

    fn to_string(&self) -> (r: Option<String>) {
        RtcpFeedback::to_string(self)
    }
}

impl NamedAttribute for RtcpFeedback {
    const NAME: &'static str = "rtcp-fb";

    open spec fn name() -> Seq<char> {
        "rtcp-fb"@
    }

    fn name_str() -> (r: &'static str) {
        Self::NAME
    }
}

impl BaseAttribute for RtcpMux {
    open spec fn wrapped(v: RtcpMux) -> AttributeView {
        AttributeView::RtcpMux(v)
    }

    open spec fn unwrapped(a: AttributeView) -> Option<RtcpMux> {
        match a {
            AttributeView::RtcpMux(v) => Some(v),
            _ => None,
        }
    }

    fn into_attribute(self) -> (a: Attribute) {
        Attribute::RtcpMux(self)
    }

    fn from_attribute(a: &Attribute) -> (r: Option<&Self>) {
        match a {
            Attribute::RtcpMux(v) => Some(v),
            _ => None,
        }
    }
}

impl ParsableAttribute for RtcpMux {
    open spec fn grammar_of(s: Seq<char>, i: int) -> Option<(RtcpMux, int)> {
        RtcpMux::grammar(s, i)
    }

    fn parse(input: &Vec<char>, pos: usize) -> (r: Option<(Self, usize)>) {
        RtcpMux::parse(input, pos)
    }

    fn to_string(&self) -> (r: Option<String>) {
        RtcpMux::to_string(self)
    }
}

impl NamedAttribute for RtcpMux {
    const NAME: &'static str = "rtcp-mux";

    open spec fn name() -> Seq<char> {
        "rtcp-mux"@
    }

    fn name_str() -> (r: &'static str) {
        Self::NAME
    }
}

impl BaseAttribute for RtcpMuxOnly {
    open spec fn wrapped(v: RtcpMuxOnly) -> AttributeView {
        AttributeView::RtcpMuxOnly(v)
    }

    open spec fn unwrapped(a: AttributeView) -> Option<RtcpMuxOnly> {
        match a {
            AttributeView::RtcpMuxOnly(v) => Some(v),
            _ => None,
        }
    }

    fn into_attribute(self) -> (a: Attribute) {
        Attribute::RtcpMuxOnly(self)
    }

    fn from_attribute(a: &Attribute) -> (r: Option<&Self>) {
        match a {
            Attribute::RtcpMuxOnly(v) => Some(v),
            _ => None,
        }
    }
}

impl ParsableAttribute for RtcpMuxOnly {
    open spec fn grammar_of(s: Seq<char>, i: int) -> Option<(RtcpMuxOnly, int)> {
        RtcpMuxOnly::grammar(s, i)
    }

    fn parse(input: &Vec<char>, pos: usize) -> (r: Option<(Self, usize)>) {
        RtcpMuxOnly::parse(input, pos)
    }

    fn to_string(&self) -> (r: Option<String>) {
        RtcpMuxOnly::to_string(self)
    }
}

impl NamedAttribute for RtcpMuxOnly {
    const NAME: &'static str = "rtcp-mux-only";

    open spec fn name() -> Seq<char> {
        "rtcp-mux-only"@
    }

    fn name_str() -> (r: &'static str) {
        Self::NAME
    }
}

impl BaseAttribute for RtcpReducedSize {
    open spec fn wrapped(v: RtcpReducedSize) -> AttributeView {
        AttributeView::RtcpReducedSize(v)
    }

    open spec fn unwrapped(a: AttributeView) -> Option<RtcpReducedSize> {
        match a {
            AttributeView::RtcpReducedSize(v) => Some(v),
            _ => None,
        }
    }

    fn into_attribute(self) -> (a: Attribute) {
        Attribute::RtcpReducedSize(self)
    }

    fn from_attribute(a: &Attribute) -> (r: Option<&Self>) {
        match a {
            Attribute::RtcpReducedSize(v) => Some(v),
            _ => None,
        }
    }
}

impl ParsableAttribute for RtcpReducedSize {
    open spec fn grammar_of(s: Seq<char>, i: int) -> Option<(RtcpReducedSize, int)> {
        RtcpReducedSize::grammar(s, i)
    }

    fn parse(input: &Vec<char>, pos: usize) -> (r: Option<(Self, usize)>) {
        RtcpReducedSize::parse(input, pos)
    }

    fn to_string(&self) -> (r: Option<String>) {
        RtcpReducedSize::to_string(self)
    }
}

impl NamedAttribute for RtcpReducedSize {
    const NAME: &'static str = "rtcp-rsize";

    open spec fn name() -> Seq<char> {
        "rtcp-rsize"@
    }

    fn name_str() -> (r: &'static str) {
        Self::NAME
    }
}

impl BaseAttribute for RtpMap {
    open spec fn wrapped(v: RtpMapView) -> AttributeView {
        AttributeView::RtpMap(v)
    }

    open spec fn unwrapped(a: AttributeView) -> Option<RtpMapView> {
        match a {
            AttributeView::RtpMap(v) => Some(v),
            _ => None,
        }
    }

    fn into_attribute(self) -> (a: Attribute) {
        Attribute::RtpMap(self)
    }

    fn from_attribute(a: &Attribute) -> (r: Option<&Self>) {
        match a {
            Attribute::RtpMap(v) => Some(v),
            _ => None,
        }
    }
}

impl ParsableAttribute for RtpMap {
    open spec fn grammar_of(s: Seq<char>, i: int) -> Option<(RtpMapView, int)> {
        RtpMapView::grammar(s, i)
    }

    fn parse(input: &Vec<char>, pos: usize) -> (r: Option<(Self, usize)>) {
        RtpMap::parse(input, pos)
    }

    fn to_string(&self) -> (r: Option<String>) {
        RtpMap::to_string(self)
    }
}

impl NamedAttribute for RtpMap {
    const NAME: &'static str = "rtpmap";

    open spec fn name() -> Seq<char> {
        "rtpmap"@
    }

    fn name_str() -> (r: &'static str) {
        Self::NAME
    }
}

impl BaseAttribute for SendOnly {
    open spec fn wrapped(v: SendOnly) -> AttributeView {
        AttributeView::SendOnly(v)
    }

    open spec fn unwrapped(a: AttributeView) -> Option<SendOnly> {
        match a {
            AttributeView::SendOnly(v) => Some(v),
            _ => None,
        }
    }

    fn into_attribute(self) -> (a: Attribute) {
        Attribute::SendOnly(self)
    }

    fn from_attribute(a: &Attribute) -> (r: Option<&Self>) {
        match a {
            Attribute::SendOnly(v) => Some(v),
            _ => None,
        }
    }
}

impl ParsableAttribute for SendOnly {
    open spec fn grammar_of(s: Seq<char>, i: int) -> Option<(SendOnly, int)> {
        SendOnly::grammar(s, i)
    }

    fn parse(input: &Vec<char>, pos: usize) -> (r: Option<(Self, usize)>) {
        SendOnly::parse(input, pos)
    }

    fn to_string(&self) -> (r: Option<String>) {
        SendOnly::to_string(self)
    }
}

impl NamedAttribute for SendOnly {
    const NAME: &'static str = "sendonly";

    open spec fn name() -> Seq<char> {
        "sendonly"@
    }

    fn name_str() -> (r: &'static str) {
        Self::NAME
    }
}

impl BaseAttribute for SendReceive {
    open spec fn wrapped(v: SendReceive) -> AttributeView {
        AttributeView::SendReceive(v)
    }

    open spec fn unwrapped(a: AttributeView) -> Option<SendReceive> {
        match a {
            AttributeView::SendReceive(v) => Some(v),
            _ => None,
        }
    }

    fn into_attribute(self) -> (a: Attribute) {
        Attribute::SendReceive(self)
    }

    fn from_attribute(a: &Attribute) -> (r: Option<&Self>) {
        match a {
            Attribute::SendReceive(v) => Some(v),
            _ => None,
        }
    }
}

impl ParsableAttribute for SendReceive {
    open spec fn grammar_of(s: Seq<char>, i: int) -> Option<(SendReceive, int)> {
        SendReceive::grammar(s, i)
    }

    fn parse(input: &Vec<char>, pos: usize) -> (r: Option<(Self, usize)>) {
        SendReceive::parse(input, pos)
    }

    fn to_string(&self) -> (r: Option<String>) {
        SendReceive::to_string(self)
    }
}

impl NamedAttribute for SendReceive {
    const NAME: &'static str = "sendrecv";

    open spec fn name() -> Seq<char> {
        "sendrecv"@
    }

    fn name_str() -> (r: &'static str) {
        Self::NAME
    }
}

impl BaseAttribute for Setup {
    open spec fn wrapped(v: Setup) -> AttributeView {
        AttributeView::Setup(v)
    }

    open spec fn unwrapped(a: AttributeView) -> Option<Setup> {
        match a {
            AttributeView::Setup(v) => Some(v),
            _ => None,
        }
    }

    fn into_attribute(self) -> (a: Attribute) {
        Attribute::Setup(self)
    }

    fn from_attribute(a: &Attribute) -> (r: Option<&Self>) {
        match a {
            Attribute::Setup(v) => Some(v),
            _ => None,
        }
    }
}

impl ParsableAttribute for Setup {
    open spec fn grammar_of(s: Seq<char>, i: int) -> Option<(Setup, int)> {
        Setup::grammar(s, i)
    }

    fn parse(input: &Vec<char>, pos: usize) -> (r: Option<(Self, usize)>) {
        Setup::parse(input, pos)
    }

    fn to_string(&self) -> (r: Option<String>) {
        Setup::to_string(self)
    }
}

impl NamedAttribute for Setup {
    const NAME: &'static str = "setup";

    open spec fn name() -> Seq<char> {
        "setup"@
    }

    fn name_str() -> (r: &'static str) {
        Self::NAME
    }
}

impl BaseAttribute for SsrcAttribute {
    open spec fn wrapped(v: SsrcAttributeView) -> AttributeView {
        AttributeView::SsrcAttribute(v)
    }

    open spec fn unwrapped(a: AttributeView) -> Option<SsrcAttributeView> {
        match a {
            AttributeView::SsrcAttribute(v) => Some(v),
            _ => None,
        }
    }

    fn into_attribute(self) -> (a: Attribute) {
        Attribute::SsrcAttribute(self)
    }

    fn from_attribute(a: &Attribute) -> (r: Option<&Self>) {
        match a {
            Attribute::SsrcAttribute(v) => Some(v),
            _ => None,
        }
    }
}

impl ParsableAttribute for SsrcAttribute {
    open spec fn grammar_of(s: Seq<char>, i: int) -> Option<(SsrcAttributeView, int)> {
        SsrcAttributeView::grammar(s, i)
    }

    fn parse(input: &Vec<char>, pos: usize) -> (r: Option<(Self, usize)>) {
        SsrcAttribute::parse(input, pos)
    }

    fn to_string(&self) -> (r: Option<String>) {
        SsrcAttribute::to_string(self)
    }
}

impl NamedAttribute for SsrcAttribute {
    const NAME: &'static str = "ssrc";

    open spec fn name() -> Seq<char> {
        "ssrc"@
    }

    fn name_str() -> (r: &'static str) {
        Self::NAME
    }
}

impl BaseAttribute for SsrcGroup {
    open spec fn wrapped(v: SsrcGroupView) -> AttributeView {
        AttributeView::SsrcGroup(v)
    }

    open spec fn unwrapped(a: AttributeView) -> Option<SsrcGroupView> {
        match a {
            AttributeView::SsrcGroup(v) => Some(v),
            _ => None,
        }
    }

    fn into_attribute(self) -> (a: Attribute) {
        Attribute::SsrcGroup(self)
    }

    fn from_attribute(a: &Attribute) -> (r: Option<&Self>) {
        match a {
            Attribute::SsrcGroup(v) => Some(v),
            _ => None,
        }
    }
}

impl ParsableAttribute for SsrcGroup {
    open spec fn grammar_of(s: Seq<char>, i: int) -> Option<(SsrcGroupView, int)> {
        SsrcGroupView::grammar(s, i)
    }

    fn parse(input: &Vec<char>, pos: usize) -> (r: Option<(Self, usize)>) {
        SsrcGroup::parse(input, pos)
    }

    fn to_string(&self) -> (r: Option<String>) {
        SsrcGroup::to_string(self)
    }
}

impl NamedAttribute for SsrcGroup {
    const NAME: &'static str = "ssrc-group";

    open spec fn name() -> Seq<char> {
        "ssrc-group"@
    }

    fn name_str() -> (r: &'static str) {
        Self::NAME
    }
}

} // verus!
