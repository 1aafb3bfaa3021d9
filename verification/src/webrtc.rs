//! The offer and answer model of a session with one bundled transport.
//!
//! A [`UnifiedBundleSession`] is what a session description means for
//! negotiation: the ICE and DTLS parameters of the one transport, and for
//! every media section its payloads, direction, encodings and header
//! extensions. It is built from a description, answered, and written back
//! as a description.

use vstd::prelude::*;
use ordered_multimap::ListOrderedMultimap;
use rand::distributions::Alphanumeric;
use rand::Rng;
use std::collections::hash_map::RandomState;
use crate::attribute_map::{values_named, values_of_type, AttributeMap};
use crate::attributes::{
    no_option_twice, Candidate, CandidateView, ExtensionMap, ExtensionMapAllowMixed, ExtensionMapView, Fingerprint,
    FingerprintView, FormatParameters, FormatParametersView, Group, GroupView, IceLite, IceOptions,
    IcePwd, IceUfrag, Inactive, Mid, ReceiveOnly, Rid, RidView, Rtcp, RtcpFeedback,
    RtcpFeedbackView, RtcpMux, RtcpMuxOnly, RtcpReducedSize, RtcpView, RtpMap, RtpMapView,
    SendOnly, SendReceive, Setup, SsrcAttribute, SsrcAttributeView, SsrcGroup, SsrcGroupView,
};
use crate::duplicate::Duplicate;
use crate::enums::{
    AddressType, BandwidthType, BandwidthTypeView, FingerprintHashFunction,
    FingerprintHashFunctionView, GroupSemantics, GroupSemanticsView, IceOption, IceOptionView,
    MediaType, MediaTypeView, NetworkType, RidDirection, RtpCodecName, RtpCodecNameView, SetupRole,
    SsrcGroupSemantics, SsrcGroupSemanticsView, TransportProtocol, TransportProtocolView,
};
use crate::lexer::{find_token_end, token_end, Until};
use crate::pairs::{
    collected, distinct_keys, lemma_collected_keys_are_distinct, lemma_put_keeps_distinct, lookup,
    put,
};
use crate::registry::{entries_wf, Attribute, AttributeView, NamedAttribute};
use crate::sdp::{
    distinct_kinds,
    Connection, ConnectionView, MediaDescription, MediaDescriptionView, Origin, OriginView,
    Session, SessionView, Time, TimeView,
};
use crate::text::{
    chars_of, decimal, join, lower, push_decimal, push_str, str_eq, string_of, to_lower, unsigned_of,
};
use crate::types::{CertificateFingerprint, PayloadType, Ssrc};

verus! {

/// The feedback entries of a payload, in the order in which they were
/// appended: an identifier and an optional parameter each.
pub uninterp spec fn feedback_entries(
    m: ListOrderedMultimap<String, Option<String>, RandomState>,
) -> Seq<(Seq<char>, Option<Seq<char>>)>;

/// `ListOrderedMultimap::new`: a multimap without entries.
#[verifier::external_body]
pub(crate) fn feedback_new() -> (m: ListOrderedMultimap<String, Option<String>, RandomState>)
    ensures
        feedback_entries(m) == Seq::<(Seq<char>, Option<Seq<char>>)>::empty(),
{
    ListOrderedMultimap::new()
}

/// `ListOrderedMultimap::append`: the new entry comes after all others.
#[verifier::external_body]
pub(crate) fn feedback_append(
    m: &mut ListOrderedMultimap<String, Option<String>, RandomState>,
    id: String,
    param: Option<String>,
)
    ensures
        feedback_entries(*final(m)) == feedback_entries(*old(m)).push((id@, param.deep_view())),
{
    m.append(id, param);
}

/// `ListOrderedMultimap::iter`: all entries, in the order in which they
/// were appended.
#[verifier::external_body]
pub(crate) fn feedback_pairs<'a>(m: &'a ListOrderedMultimap<String, Option<String>, RandomState>) -> (r: Vec<
    (&'a String, &'a Option<String>),
>)
    ensures
        r.deep_view() == feedback_entries(*m),
{
    m.iter().collect()
}

/// `ListOrderedMultimap::clone`: a multimap with the same entries.
#[verifier::external_body]
pub(crate) fn feedback_clone(m: &ListOrderedMultimap<String, Option<String>, RandomState>) -> (r:
    ListOrderedMultimap<String, Option<String>, RandomState>)
    ensures
        feedback_entries(r) == feedback_entries(*m),
{
    m.clone()
}

/// `ListOrderedMultimap::retain` with the feedback that the engine
/// supports for a kind of media as the predicate: the entries that the
/// predicate holds of stay, in their order.
#[verifier::external_body]
pub(crate) fn feedback_retain_supported(
    m: &mut ListOrderedMultimap<String, Option<String>, RandomState>,
    kind: &MediaType,
)
    ensures
        feedback_entries(*final(m)) == crate::negotiation::kept_feedback(
            kind.deep_view(),
            feedback_entries(*old(m)),
        ),
{
    m.retain(|id, param| crate::negotiation::is_supported_feedback(kind, id, param));
}

/// The fingerprints of a session, in the order in which they were
/// appended: a hash function and the bytes each.
pub uninterp spec fn fingerprint_entries(
    m: ListOrderedMultimap<FingerprintHashFunction, CertificateFingerprint, RandomState>,
) -> Seq<(FingerprintHashFunctionView, Seq<u8>)>;

/// The hash function under which a new fingerprint is filed: that of the
/// first entry with the same hash function, or the given one where there
/// is none.
pub open spec fn filed_under(
    entries: Seq<(FingerprintHashFunctionView, Seq<u8>)>,
    hash_function: FingerprintHashFunctionView,
) -> FingerprintHashFunctionView
    decreases entries.len(),
{
    if entries.len() == 0 {
        hash_function
    } else if entries[0].0.same(hash_function) {
        entries[0].0
    } else {
        filed_under(entries.skip(1), hash_function)
    }
}

/// `ListOrderedMultimap::new`: a multimap without entries.
#[verifier::external_body]
pub(crate) fn fingerprints_new() -> (m: ListOrderedMultimap<
    FingerprintHashFunction,
    CertificateFingerprint,
    RandomState,
>)
    ensures
        fingerprint_entries(m) == Seq::<(FingerprintHashFunctionView, Seq<u8>)>::empty(),
{
    ListOrderedMultimap::new()
}

/// `ListOrderedMultimap::append`: the new entry comes after all others. The
/// multimap keeps one key for equal keys, the one that came first.
#[verifier::external_body]
pub(crate) fn fingerprints_append(
    m: &mut ListOrderedMultimap<FingerprintHashFunction, CertificateFingerprint, RandomState>,
    hash_function: FingerprintHashFunction,
    fingerprint: CertificateFingerprint,
)
    ensures
        fingerprint_entries(*final(m)) == fingerprint_entries(*old(m)).push(
            (
                filed_under(fingerprint_entries(*old(m)), hash_function.deep_view()),
                fingerprint.deep_view(),
            ),
        ),
{
    m.append(hash_function, fingerprint);
}

/// `ListOrderedMultimap::iter`: all entries, in the order in which they
/// were appended.
#[verifier::external_body]
pub(crate) fn fingerprints_pairs<'a>(
    m: &'a ListOrderedMultimap<FingerprintHashFunction, CertificateFingerprint, RandomState>,
) -> (r: Vec<(&'a FingerprintHashFunction, &'a CertificateFingerprint)>)
    ensures
        r.deep_view() == fingerprint_entries(*m),
{
    m.iter().collect()
}

/// `ListOrderedMultimap::clone`: a multimap with the same entries.
#[verifier::external_body]
pub(crate) fn fingerprints_clone(
    m: &ListOrderedMultimap<FingerprintHashFunction, CertificateFingerprint, RandomState>,
) -> (r: ListOrderedMultimap<FingerprintHashFunction, CertificateFingerprint, RandomState>)
    ensures
        fingerprint_entries(r) == fingerprint_entries(*m),
{
    m.clone()
}

/// A letter or digit of ASCII.
pub open spec fn is_alphanumeric(c: char) -> bool {
    ('a' <= c <= 'z') || ('A' <= c <= 'Z') || ('0' <= c <= '9')
}

/// `Rng::gen_range` on the thread's generator: some number below `bound`.
#[verifier::external_body]
fn random_below(bound: u64) -> (r: u64)
    requires
        bound > 0,
    ensures
        r < bound,
{
    rand::thread_rng().gen_range(0, bound)
}

/// `Rng::sample_iter` with `Alphanumeric` on the thread's generator: some
/// text of the given length, made of ASCII letters and digits.
#[verifier::external_body]
fn random_alphanumeric(length: usize) -> (r: String)
    ensures
        r@.len() == length,
        forall|i: int| 0 <= i < r@.len() ==> is_alphanumeric(#[trigger] r@[i]),
{
    rand::thread_rng().sample_iter(Alphanumeric).take(length).collect()
}

/// The direction of a media section, as seen by the one who describes it.
#[derive(Debug, Clone, Copy, PartialEq, Eq, Structural)]
pub enum MediaDirection {
    SendOnly,
    ReceiveOnly,
    SendReceive,
    Inactive,
}

impl DeepView for MediaDirection {
    type V = MediaDirection;

    open spec fn deep_view(&self) -> MediaDirection {
        *self
    }
}

impl MediaDirection {
    /// The direction as the other side sees it: sending and receiving
    /// change places.
    pub open spec fn reversed(self) -> MediaDirection {
        match self {
            MediaDirection::SendOnly => MediaDirection::ReceiveOnly,
            MediaDirection::ReceiveOnly => MediaDirection::SendOnly,
            MediaDirection::SendReceive => MediaDirection::SendReceive,
            MediaDirection::Inactive => MediaDirection::Inactive,
        }
    }

    pub fn reverse(&self) -> (r: MediaDirection)
        ensures
            r == self.reversed(),
    {
        match self {
            MediaDirection::SendOnly => MediaDirection::ReceiveOnly,
            MediaDirection::ReceiveOnly => MediaDirection::SendOnly,
            MediaDirection::SendReceive => MediaDirection::SendReceive,
            MediaDirection::Inactive => MediaDirection::Inactive,
        }
    }
}

/// One payload type of a media section with all that was said of it.
#[derive(Debug)]
pub struct RtpPayload {
    pub payload_type: PayloadType,
    pub name: RtpCodecName,
    pub clock: u32,
    pub channels: Option<u8>,
    /// The format parameters, one entry per key.
    pub parameters: Vec<(String, String)>,
    pub supported_feedback: ListOrderedMultimap<String, Option<String>, RandomState>,
    /// The payload type that carries retransmissions of this one.
    pub rtx_payload_type: Option<PayloadType>,
}

pub struct RtpPayloadView {
    pub payload_type: PayloadType,
    pub name: RtpCodecNameView,
    pub clock: u32,
    pub channels: Option<u8>,
    pub parameters: Seq<(Seq<char>, Seq<char>)>,
    pub supported_feedback: Seq<(Seq<char>, Option<Seq<char>>)>,
    pub rtx_payload_type: Option<PayloadType>,
}

impl DeepView for RtpPayload {
    type V = RtpPayloadView;

    open spec fn deep_view(&self) -> RtpPayloadView {
        RtpPayloadView {
            payload_type: self.payload_type,
            name: self.name.deep_view(),
            clock: self.clock,
            channels: self.channels,
            parameters: self.parameters.deep_view(),
            supported_feedback: feedback_entries(self.supported_feedback),
            rtx_payload_type: self.rtx_payload_type,
        }
    }
}

impl Duplicate for RtpPayload {
    fn duplicate(&self) -> (r: Self) {
        RtpPayload {
            payload_type: self.payload_type,
            name: self.name.clone(),
            clock: self.clock,
            channels: self.channels,
            parameters: self.parameters.duplicate(),
            supported_feedback: feedback_clone(&self.supported_feedback),
            rtx_payload_type: self.rtx_payload_type,
        }
    }
}

impl Clone for RtpPayload {
    fn clone(&self) -> (r: Self)
        ensures
            r.deep_view() == self.deep_view(),
    {
        self.duplicate()
    }
}

/// One encoding of a media source: named by a RID, or by the SSRC that
/// sends it.
#[derive(Debug)]
pub enum RtpEncoding {
    Rid { rid: crate::types::Rid, direction: RidDirection },
    SendingSsrc { cname: String, ssrc: Ssrc, rtx_ssrc: Option<Ssrc> },
}

pub enum RtpEncodingView {
    Rid { rid: Seq<char>, direction: RidDirection },
    SendingSsrc { cname: Seq<char>, ssrc: Ssrc, rtx_ssrc: Option<Ssrc> },
}

impl DeepView for RtpEncoding {
    type V = RtpEncodingView;

    open spec fn deep_view(&self) -> RtpEncodingView {
        match self {
            RtpEncoding::Rid { rid, direction } => RtpEncodingView::Rid {
                rid: rid.deep_view(),
                direction: *direction,
            },
            RtpEncoding::SendingSsrc { cname, ssrc, rtx_ssrc } => RtpEncodingView::SendingSsrc {
                cname: cname@,
                ssrc: *ssrc,
                rtx_ssrc: *rtx_ssrc,
            },
        }
    }
}

impl Duplicate for RtpEncoding {
    fn duplicate(&self) -> (r: Self) {
        match self {
            RtpEncoding::Rid { rid, direction } => RtpEncoding::Rid {
                rid: rid.clone(),
                direction: *direction,
            },
            RtpEncoding::SendingSsrc { cname, ssrc, rtx_ssrc } => RtpEncoding::SendingSsrc {
                cname: cname.clone(),
                ssrc: *ssrc,
                rtx_ssrc: *rtx_ssrc,
            },
        }
    }
}

impl Clone for RtpEncoding {
    fn clone(&self) -> (r: Self)
        ensures
            r.deep_view() == self.deep_view(),
    {
        self.duplicate()
    }
}

impl Duplicate for BandwidthType {
    fn duplicate(&self) -> (r: Self) {
        self.clone()
    }
}

impl Duplicate for IceOption {
    fn duplicate(&self) -> (r: Self) {
        self.clone()
    }
}

impl Duplicate for Candidate {
    fn duplicate(&self) -> (r: Self) {
        self.clone()
    }
}

/// The encodings named by a RID, in order.
pub open spec fn rid_encodings(encodings: Seq<RtpEncodingView>) -> Seq<RtpEncodingView>
    decreases encodings.len(),
{
    if encodings.len() == 0 {
        Seq::empty()
    } else if encodings.last() is Rid {
        rid_encodings(encodings.drop_last()).push(encodings.last())
    } else {
        rid_encodings(encodings.drop_last())
    }
}

/// An encoding named by a RID, as the other side sees it.
pub open spec fn reversed_encoding(encoding: RtpEncodingView) -> RtpEncodingView {
    match encoding {
        RtpEncodingView::Rid { rid, direction } => RtpEncodingView::Rid {
            rid,
            direction: direction.reversed(),
        },
        other => other,
    }
}

/// The encodings of an answer: those named by a RID, each with its
/// direction reversed. What is named by an SSRC is left out.
pub open spec fn answer_encodings(encodings: Seq<RtpEncodingView>) -> Seq<RtpEncodingView> {
    rid_encodings(encodings).map_values(|e: RtpEncodingView| reversed_encoding(e))
}

/// A media section as negotiation sees it.
#[derive(Debug)]
pub struct RtpMediaDescription {
    pub kind: MediaType,
    pub port: u16,
    pub protocol: TransportProtocol,
    /// The bandwidths, one entry per kind.
    pub bandwidths: Vec<(BandwidthType, u64)>,
    pub mid: crate::types::Mid,
    pub payloads: Vec<RtpPayload>,
    pub direction: MediaDirection,
    pub encodings: Vec<RtpEncoding>,
    /// The header extensions by URI, one entry per URI.
    pub extensions: Vec<(String, u16)>,
    pub rtcp_mux: bool,
    pub rtcp_mux_only: bool,
    pub rtcp_reduced_size: bool,
}

pub struct RtpMediaDescriptionView {
    pub kind: MediaTypeView,
    pub port: u16,
    pub protocol: TransportProtocolView,
    pub bandwidths: Seq<(BandwidthTypeView, u64)>,
    pub mid: Seq<char>,
    pub payloads: Seq<RtpPayloadView>,
    pub direction: MediaDirection,
    pub encodings: Seq<RtpEncodingView>,
    pub extensions: Seq<(Seq<char>, u16)>,
    pub rtcp_mux: bool,
    pub rtcp_mux_only: bool,
    pub rtcp_reduced_size: bool,
}

impl DeepView for RtpMediaDescription {
    type V = RtpMediaDescriptionView;

    open spec fn deep_view(&self) -> RtpMediaDescriptionView {
        RtpMediaDescriptionView {
            kind: self.kind.deep_view(),
            port: self.port,
            protocol: self.protocol.deep_view(),
            bandwidths: self.bandwidths.deep_view(),
            mid: self.mid.deep_view(),
            payloads: self.payloads.deep_view(),
            direction: self.direction,
            encodings: self.encodings.deep_view(),
            extensions: self.extensions.deep_view(),
            rtcp_mux: self.rtcp_mux,
            rtcp_mux_only: self.rtcp_mux_only,
            rtcp_reduced_size: self.rtcp_reduced_size,
        }
    }
}

impl RtpPayloadView {
    /// No parameter is bound twice.
    pub open spec fn wf(self) -> bool {
        distinct_keys(self.parameters)
    }
}

impl RtpMediaDescriptionView {
    /// There is one bandwidth for a kind and one identifier for a header
    /// extension, and every payload is well formed.
    pub open spec fn wf(self) -> bool {
        &&& distinct_kinds(self.bandwidths)
        &&& distinct_keys(self.extensions)
        &&& forall|k: int| 0 <= k < self.payloads.len() ==> (#[trigger] self.payloads[k]).wf()
    }

    /// The section of the answer to an offer with this section: the
    /// direction reversed, the encodings as an answer has them, no
    /// bandwidths, and all else as offered.
    pub open spec fn answer(self) -> RtpMediaDescriptionView {
        RtpMediaDescriptionView {
            kind: self.kind,
            port: self.port,
            protocol: self.protocol,
            bandwidths: Seq::empty(),
            mid: self.mid,
            payloads: self.payloads,
            direction: self.direction.reversed(),
            encodings: answer_encodings(self.encodings),
            extensions: self.extensions,
            rtcp_mux: self.rtcp_mux,
            rtcp_mux_only: self.rtcp_mux_only,
            rtcp_reduced_size: self.rtcp_reduced_size,
        }
    }
}

impl Duplicate for RtpMediaDescription {
    fn duplicate(&self) -> (r: Self) {
        RtpMediaDescription {
            kind: self.kind.clone(),
            port: self.port,
            protocol: self.protocol.clone(),
            bandwidths: self.bandwidths.duplicate(),
            mid: self.mid.clone(),
            payloads: self.payloads.duplicate(),
            direction: self.direction,
            encodings: self.encodings.duplicate(),
            extensions: self.extensions.duplicate(),
            rtcp_mux: self.rtcp_mux,
            rtcp_mux_only: self.rtcp_mux_only,
            rtcp_reduced_size: self.rtcp_reduced_size,
        }
    }
}

impl Clone for RtpMediaDescription {
    fn clone(&self) -> (r: Self)
        ensures
            r.deep_view() == self.deep_view(),
    {
        self.duplicate()
    }
}

/// The encodings of the answer to an offer with the given encodings.
pub fn answer_to_encodings(encodings: &Vec<RtpEncoding>) -> (r: Vec<RtpEncoding>)
    ensures
        r.deep_view() == answer_encodings(encodings.deep_view()),
{
    let ghost views = encodings.deep_view();
    let mut out: Vec<RtpEncoding> = Vec::new();
    let mut i: usize = 0;
    assert(views.take(0) =~= Seq::<RtpEncodingView>::empty());
    assert(out.deep_view() =~= answer_encodings(views.take(0)));
    while i < encodings.len()
        invariant
            i <= encodings.len(),
            views == encodings.deep_view(),
            out.deep_view() == answer_encodings(views.take(i as int)),
        decreases encodings.len() - i,
    {
        assert(views.take(i + 1).drop_last() =~= views.take(i as int));
        assert(views.take(i + 1).last() == encodings@[i as int].deep_view());
        let ghost before = out.deep_view();
        match &encodings[i] {
            RtpEncoding::Rid { rid, direction } => {
                let reversed = RtpEncoding::Rid { rid: rid.clone(), direction: direction.reverse() };
                let ghost v = reversed.deep_view();
                out.push(reversed);
                assert(out.deep_view() =~= before.push(v));
                assert(answer_encodings(views.take(i + 1)) =~= answer_encodings(
                    views.take(i as int),
                ).push(v));
            },
            RtpEncoding::SendingSsrc { .. } => {},
        }
        i += 1;
    }
    assert(views.take(encodings.len() as int) =~= views);
    out
}

impl RtpMediaDescription {
    /// The section of the answer to an offer with this section.
    pub fn answer(&self) -> (r: RtpMediaDescription)
        ensures
            r.deep_view() == self.deep_view().answer(),
    {
        let bandwidths: Vec<(BandwidthType, u64)> = Vec::new();
        assert(bandwidths.deep_view() =~= Seq::<(BandwidthTypeView, u64)>::empty());
        RtpMediaDescription {
            kind: self.kind.clone(),
            port: self.port,
            protocol: self.protocol.clone(),
            bandwidths,
            mid: self.mid.clone(),
            payloads: self.payloads.duplicate(),
            direction: self.direction.reverse(),
            encodings: answer_to_encodings(&self.encodings),
            extensions: self.extensions.duplicate(),
            rtcp_mux: self.rtcp_mux,
            rtcp_mux_only: self.rtcp_mux_only,
            rtcp_reduced_size: self.rtcp_reduced_size,
        }
    }
}

/// A session with one bundled transport for all its media sections.
#[derive(Debug)]
pub struct UnifiedBundleSession {
    pub id: u64,
    pub version: u64,
    pub ice_lite: bool,
    pub ice_ufrag: String,
    pub ice_pwd: String,
    /// The ICE options, each once.
    pub ice_options: Vec<IceOption>,
    pub candidates: Vec<Candidate>,
    pub fingerprints: ListOrderedMultimap<
        FingerprintHashFunction,
        CertificateFingerprint,
        RandomState,
    >,
    pub setup_role: SetupRole,
    pub allow_mixed_extension_maps: bool,
    pub media_descriptions: Vec<RtpMediaDescription>,
}

pub struct UnifiedBundleSessionView {
    pub id: u64,
    pub version: u64,
    pub ice_lite: bool,
    pub ice_ufrag: Seq<char>,
    pub ice_pwd: Seq<char>,
    pub ice_options: Seq<IceOptionView>,
    pub candidates: Seq<CandidateView>,
    pub fingerprints: Seq<(FingerprintHashFunctionView, Seq<u8>)>,
    pub setup_role: SetupRole,
    pub allow_mixed_extension_maps: bool,
    pub media_descriptions: Seq<RtpMediaDescriptionView>,
}

impl DeepView for UnifiedBundleSession {
    type V = UnifiedBundleSessionView;

    open spec fn deep_view(&self) -> UnifiedBundleSessionView {
        UnifiedBundleSessionView {
            id: self.id,
            version: self.version,
            ice_lite: self.ice_lite,
            ice_ufrag: self.ice_ufrag@,
            ice_pwd: self.ice_pwd@,
            ice_options: self.ice_options.deep_view(),
            candidates: self.candidates.deep_view(),
            fingerprints: fingerprint_entries(self.fingerprints),
            setup_role: self.setup_role,
            allow_mixed_extension_maps: self.allow_mixed_extension_maps,
            media_descriptions: self.media_descriptions.deep_view(),
        }
    }
}

/// The greatest session identifier that is drawn, and one more.
pub const SESSION_ID_BOUND: u64 = 9_223_372_036_854_775_807;

impl UnifiedBundleSessionView {
    /// No ICE option is there twice, and every candidate and every media
    /// section is well formed.
    pub open spec fn wf(self) -> bool {
        &&& no_option_twice(self.ice_options)
        &&& forall|k: int| 0 <= k < self.candidates.len() ==> (#[trigger] self.candidates[k]).wf()
        &&& forall|k: int|
            0 <= k < self.media_descriptions.len() ==> (
            #[trigger] self.media_descriptions[k]).wf()
    }

    /// A session without media, as `new` makes it, for the given
    /// identifier and credentials.
    pub open spec fn fresh(id: u64, ice_ufrag: Seq<char>, ice_pwd: Seq<char>) -> Self {
        UnifiedBundleSessionView {
            id,
            version: 1,
            ice_lite: true,
            ice_ufrag,
            ice_pwd,
            ice_options: Seq::empty(),
            candidates: Seq::empty(),
            fingerprints: Seq::empty(),
            setup_role: SetupRole::ActivePassive,
            allow_mixed_extension_maps: true,
            media_descriptions: Seq::empty(),
        }
    }

    /// The answer to this offer, for the given identifier and credentials
    /// of the answerer: not ICE lite, without options, candidates and
    /// fingerprints, the setup role reversed, and every media section
    /// answered.
    pub open spec fn answer(self, id: u64, ice_ufrag: Seq<char>, ice_pwd: Seq<char>) -> Self {
        UnifiedBundleSessionView {
            id,
            version: 1,
            ice_lite: false,
            ice_ufrag,
            ice_pwd,
            ice_options: Seq::empty(),
            candidates: Seq::empty(),
            fingerprints: Seq::empty(),
            setup_role: self.setup_role.reversed(),
            allow_mixed_extension_maps: self.allow_mixed_extension_maps,
            media_descriptions: self.media_descriptions.map_values(
                |m: RtpMediaDescriptionView| m.answer(),
            ),
        }
    }

    /// The credentials are as a new session or an answer draws them: eight
    /// and twenty-four ASCII letters and digits, and an identifier below
    /// the bound.
    pub open spec fn has_drawn_credentials(self) -> bool {
        &&& self.id < SESSION_ID_BOUND
        &&& self.ice_ufrag.len() == 8
        &&& self.ice_pwd.len() == 24
        &&& forall|i: int| 0 <= i < self.ice_ufrag.len() ==> is_alphanumeric(#[trigger] self.ice_ufrag[i])
        &&& forall|i: int| 0 <= i < self.ice_pwd.len() ==> is_alphanumeric(#[trigger] self.ice_pwd[i])
    }
}

impl Clone for UnifiedBundleSession {
    fn clone(&self) -> (r: Self)
        ensures
            r.deep_view() == self.deep_view(),
    {
        UnifiedBundleSession {
            id: self.id,
            version: self.version,
            ice_lite: self.ice_lite,
            ice_ufrag: self.ice_ufrag.clone(),
            ice_pwd: self.ice_pwd.clone(),
            ice_options: self.ice_options.duplicate(),
            candidates: self.candidates.duplicate(),
            fingerprints: fingerprints_clone(&self.fingerprints),
            setup_role: self.setup_role,
            allow_mixed_extension_maps: self.allow_mixed_extension_maps,
            media_descriptions: self.media_descriptions.duplicate(),
        }
    }
}

impl UnifiedBundleSession {
    /// A session without media, with the given identifier and credentials.
    pub fn new_with(id: u64, ice_ufrag: String, ice_pwd: String) -> (r: UnifiedBundleSession)
        ensures
            r.deep_view() == UnifiedBundleSessionView::fresh(id, ice_ufrag@, ice_pwd@),
    {
        let ice_options: Vec<IceOption> = Vec::new();
        let candidates: Vec<Candidate> = Vec::new();
        let media_descriptions: Vec<RtpMediaDescription> = Vec::new();
        assert(ice_options.deep_view() =~= Seq::<IceOptionView>::empty());
        assert(candidates.deep_view() =~= Seq::<CandidateView>::empty());
        assert(media_descriptions.deep_view() =~= Seq::<RtpMediaDescriptionView>::empty());
        UnifiedBundleSession {
            id,
            version: 1,
            ice_lite: true,
            ice_ufrag,
            ice_pwd,
            ice_options,
            candidates,
            fingerprints: fingerprints_new(),
            setup_role: SetupRole::ActivePassive,
            allow_mixed_extension_maps: true,
            media_descriptions,
        }
    }

    /// A session without media, with an identifier and credentials drawn
    /// at random.
    pub fn new() -> (r: UnifiedBundleSession)
        ensures
            r.deep_view() == UnifiedBundleSessionView::fresh(r.id, r.ice_ufrag@, r.ice_pwd@),
            r.deep_view().has_drawn_credentials(),
    {
        let id = random_below(SESSION_ID_BOUND);
        let ice_ufrag = random_alphanumeric(8);
        let ice_pwd = random_alphanumeric(24);
        UnifiedBundleSession::new_with(id, ice_ufrag, ice_pwd)
    }

    /// The answer to this offer, with the given identifier and credentials
    /// of the answerer. The offer is left as it is.
    pub fn answer_with(&self, id: u64, ice_ufrag: String, ice_pwd: String) -> (r:
        UnifiedBundleSession)
        ensures
            r.deep_view() == self.deep_view().answer(id, ice_ufrag@, ice_pwd@),
    {
        let ghost offered = self.deep_view().media_descriptions;
        let mut media_descriptions: Vec<RtpMediaDescription> = Vec::new();
        let mut i: usize = 0;
        while i < self.media_descriptions.len()
            invariant
                i <= self.media_descriptions.len(),
                offered == self.media_descriptions.deep_view(),
                media_descriptions@.len() == i,
                forall|j: int|
                    0 <= j < i ==> (#[trigger] media_descriptions@[j]).deep_view()
                        == offered[j].answer(),
            decreases self.media_descriptions.len() - i,
        {
            assert(offered[i as int] == self.media_descriptions@[i as int].deep_view());
            media_descriptions.push(self.media_descriptions[i].answer());
            i += 1;
        }
        assert(media_descriptions.deep_view() =~= offered.map_values(
            |m: RtpMediaDescriptionView| m.answer(),
        ));
        let ice_options: Vec<IceOption> = Vec::new();
        let candidates: Vec<Candidate> = Vec::new();
        assert(ice_options.deep_view() =~= Seq::<IceOptionView>::empty());
        assert(candidates.deep_view() =~= Seq::<CandidateView>::empty());
        UnifiedBundleSession {
            id,
            version: 1,
            ice_lite: false,
            ice_ufrag,
            ice_pwd,
            ice_options,
            candidates,
            fingerprints: fingerprints_new(),
            setup_role: self.setup_role.reverse(),
            allow_mixed_extension_maps: self.allow_mixed_extension_maps,
            media_descriptions,
        }
    }

    /// The answer to this offer, with an identifier and credentials drawn
    /// at random.
    pub fn answer(&self) -> (r: UnifiedBundleSession)
        ensures
            r.deep_view() == self.deep_view().answer(r.id, r.ice_ufrag@, r.ice_pwd@),
            r.deep_view().has_drawn_credentials(),
    {
        let id = random_below(SESSION_ID_BOUND);
        let ice_ufrag = random_alphanumeric(8);
        let ice_pwd = random_alphanumeric(24);
        self.answer_with(id, ice_ufrag, ice_pwd)
    }
}

/// The direction of every media section of an answer is the reverse of the
/// offered one, every encoding of an answer is named by a RID and has the
/// reverse of its offered direction, and no encoding of an answer is named
/// by an SSRC.
pub proof fn lemma_answer_reverses_directions(
    offer: UnifiedBundleSessionView,
    id: u64,
    ice_ufrag: Seq<char>,
    ice_pwd: Seq<char>,
    i: int,
)
    requires
        0 <= i < offer.media_descriptions.len(),
    ensures
        offer.answer(id, ice_ufrag, ice_pwd).media_descriptions.len()
            == offer.media_descriptions.len(),
        offer.answer(id, ice_ufrag, ice_pwd).media_descriptions[i].direction
            == offer.media_descriptions[i].direction.reversed(),
        offer.answer(id, ice_ufrag, ice_pwd).media_descriptions[i].encodings
            == rid_encodings(offer.media_descriptions[i].encodings).map_values(
            |e: RtpEncodingView| reversed_encoding(e),
        ),
        forall|k: int|
            0 <= k < offer.answer(id, ice_ufrag, ice_pwd).media_descriptions[i].encodings.len()
                ==> !((#[trigger] offer.answer(
                id,
                ice_ufrag,
                ice_pwd,
            ).media_descriptions[i].encodings[k]) is SendingSsrc),
{
    let offered = offer.media_descriptions[i].encodings;
    lemma_rid_encodings_are_rids(offered);
}

/// Every encoding among the RID encodings is named by a RID, and reversing
/// it reverses its direction and nothing else.
pub proof fn lemma_rid_encodings_are_rids(encodings: Seq<RtpEncodingView>)
    ensures
        forall|k: int|
            0 <= k < rid_encodings(encodings).len() ==> (#[trigger] rid_encodings(encodings)[k])
                is Rid,
        forall|k: int|
            0 <= k < answer_encodings(encodings).len() ==> (#[trigger] answer_encodings(
                encodings,
            )[k]) is Rid,
    decreases encodings.len(),
{
    if encodings.len() > 0 {
        lemma_rid_encodings_are_rids(encodings.drop_last());
    }
}

/// A new session is well formed, and the answer to a well-formed offer is
/// well formed.
pub proof fn lemma_answer_is_well_formed(
    offer: UnifiedBundleSessionView,
    id: u64,
    ice_ufrag: Seq<char>,
    ice_pwd: Seq<char>,
)
    ensures
        UnifiedBundleSessionView::fresh(id, ice_ufrag, ice_pwd).wf(),
        offer.wf() ==> offer.answer(id, ice_ufrag, ice_pwd).wf(),
{
    if offer.wf() {
        let answer = offer.answer(id, ice_ufrag, ice_pwd);
        assert forall|k: int| 0 <= k < answer.media_descriptions.len() implies (
        #[trigger] answer.media_descriptions[k]).wf() by {
            assert(offer.media_descriptions[k].wf());
        }
    }
}

/// The setup role of an answer is the reverse of the offered one: an
/// active offer is answered passive and a passive offer active.
pub proof fn lemma_answer_reverses_setup(
    offer: UnifiedBundleSessionView,
    id: u64,
    ice_ufrag: Seq<char>,
    ice_pwd: Seq<char>,
)
    ensures
        offer.answer(id, ice_ufrag, ice_pwd).setup_role == offer.setup_role.reversed(),
        offer.setup_role == SetupRole::Active ==> offer.answer(id, ice_ufrag, ice_pwd).setup_role
            == SetupRole::Passive,
        offer.setup_role == SetupRole::Passive ==> offer.answer(id, ice_ufrag, ice_pwd).setup_role
            == SetupRole::Active,
{
}

/// The first attribute stored under the name of `T`, if it is a `T`.
pub open spec fn first_of<T: NamedAttribute>(entries: Seq<(Seq<char>, AttributeView)>) -> Option<
    T::V,
> {
    match lookup(entries, T::name()) {
        Some(a) => T::unwrapped(a),
        None => None,
    }
}

/// All attributes stored under the name of `T` that are a `T`, in order.
pub open spec fn all_of<T: NamedAttribute>(entries: Seq<(Seq<char>, AttributeView)>) -> Seq<T::V> {
    values_of_type::<T>(values_named(entries, T::name()))
}

/// An attribute of the transport: taken from the first media section, and
/// from the session where that section has none.
pub open spec fn transport_attribute<T: NamedAttribute>(
    first: Seq<(Seq<char>, AttributeView)>,
    session: Seq<(Seq<char>, AttributeView)>,
) -> Option<T::V> {
    match first_of::<T>(first) {
        Some(v) => Some(v),
        None => first_of::<T>(session),
    }
}

pub fn find_transport_attribute<'a, T: NamedAttribute>(
    first: &'a AttributeMap,
    session: &'a AttributeMap,
) -> (r: Option<&'a T>)
    ensures
        r.deep_view() == transport_attribute::<T>(first.deep_view(), session.deep_view()),
{
    match first.get::<T>() {
        Some(v) => Some(v),
        None => session.get::<T>(),
    }
}

/// All attributes of one type that describe the transport: those of the
/// first media section, and those of the session where that section has
/// none.
pub open spec fn transport_attributes<T: NamedAttribute>(
    first: Seq<(Seq<char>, AttributeView)>,
    session: Seq<(Seq<char>, AttributeView)>,
) -> Seq<T::V> {
    if all_of::<T>(first).len() > 0 {
        all_of::<T>(first)
    } else {
        all_of::<T>(session)
    }
}

pub fn find_transport_attributes<'a, T: NamedAttribute>(
    first: &'a AttributeMap,
    session: &'a AttributeMap,
) -> (r: Vec<&'a T>)
    ensures
        r.deep_view() == transport_attributes::<T>(first.deep_view(), session.deep_view()),
{
    let found = first.get_vec::<T>();
    if found.len() > 0 {
        found
    } else {
        session.get_vec::<T>()
    }
}

/// The fingerprints as a multimap files them, each under the hash function
/// of the first fingerprint with the same hash function.
pub open spec fn filed(fingerprints: Seq<FingerprintView>) -> Seq<
    (FingerprintHashFunctionView, Seq<u8>),
>
    decreases fingerprints.len(),
{
    if fingerprints.len() == 0 {
        Seq::empty()
    } else {
        let head = filed(fingerprints.drop_last());
        head.push(
            (filed_under(head, fingerprints.last().hash_function), fingerprints.last().fingerprint),
        )
    }
}

/// The last `rtpmap` for a payload type.
pub open spec fn codec_of(maps: Seq<RtpMapView>, payload: u8) -> Option<RtpMapView>
    decreases maps.len(),
{
    if maps.len() == 0 {
        None
    } else if maps.last().payload == payload {
        Some(maps.last())
    } else {
        codec_of(maps.drop_last(), payload)
    }
}

/// The last `fmtp` for a payload type.
pub open spec fn format_of(formats: Seq<FormatParametersView>, payload: u8) -> Option<
    FormatParametersView,
>
    decreases formats.len(),
{
    if formats.len() == 0 {
        None
    } else if formats.last().payload == payload {
        Some(formats.last())
    } else {
        format_of(formats.drop_last(), payload)
    }
}

/// The `key=value` parts of a parameter text from `i` on. The parts are
/// separated by semicolons; the key ends at the first equals sign, and a
/// part without one is left out.
pub open spec fn parameter_pairs(s: Seq<char>, i: int) -> Seq<(Seq<char>, Seq<char>)>
    decreases s.len() - i,
{
    let e = token_end(s, i, Until::Semicolon);
    let q = token_end(s, i, Until::Equals);
    let here = if q < e {
        seq![(s.subrange(i, q), s.subrange(q + 1, e))]
    } else {
        Seq::empty()
    };
    if 0 <= i <= e < s.len() {
        here + parameter_pairs(s, e + 1)
    } else {
        here
    }
}

/// The parameters of a payload: one entry per key, a later part with the
/// same key overwriting an earlier one.
pub open spec fn parameters_of(text: Seq<char>) -> Seq<(Seq<char>, Seq<char>)> {
    collected(parameter_pairs(text, 0))
}

/// The parameters that the last `fmtp` for a payload type gives.
pub open spec fn payload_parameters(formats: Seq<FormatParametersView>, payload: u8) -> Seq<
    (Seq<char>, Seq<char>),
> {
    match format_of(formats, payload) {
        Some(f) => parameters_of(f.parameters),
        None => Seq::empty(),
    }
}

/// The payload type that a retransmission payload repairs: its `apt`
/// parameter, where that is a payload type.
pub open spec fn apt_of(formats: Seq<FormatParametersView>, payload: u8) -> Option<u8> {
    match lookup(payload_parameters(formats, payload), "apt"@) {
        Some(v) => match unsigned_of(v, 10, 255) {
            Some(n) => Some(n as u8),
            None => None,
        },
        None => None,
    }
}

/// The payload type `rtx` is a retransmission payload that repairs
/// `payload`.
pub open spec fn repairs(
    maps: Seq<RtpMapView>,
    formats: Seq<FormatParametersView>,
    rtx: u8,
    payload: u8,
) -> bool {
    match codec_of(maps, rtx) {
        Some(m) => RtpCodecNameView::of(m.name) is Rtx && apt_of(formats, rtx) == Some(payload),
        None => false,
    }
}

/// The retransmission payload type of a payload type: that of the first
/// `rtpmap` from `j` on whose payload type repairs it.
pub open spec fn rtx_of(
    maps: Seq<RtpMapView>,
    formats: Seq<FormatParametersView>,
    j: int,
    payload: u8,
) -> Option<PayloadType>
    decreases maps.len() - j,
{
    if j < 0 || j >= maps.len() {
        None
    } else if repairs(maps, formats, maps[j].payload, payload) {
        Some(PayloadType(maps[j].payload))
    } else {
        rtx_of(maps, formats, j + 1, payload)
    }
}

/// The feedback that is said of exactly this payload type, in order.
/// Feedback for all payload types (`*`) is not among it.
pub open spec fn feedback_of(feedback: Seq<RtcpFeedbackView>, payload: u8) -> Seq<
    (Seq<char>, Option<Seq<char>>),
>
    decreases feedback.len(),
{
    if feedback.len() == 0 {
        Seq::empty()
    } else if feedback.last().payload == Some(payload) {
        feedback_of(feedback.drop_last(), payload).push((feedback.last().id, feedback.last().param))
    } else {
        feedback_of(feedback.drop_last(), payload)
    }
}

/// The codec carries repair or redundancy data and no media of its own.
pub open spec fn is_repair_codec(name: RtpCodecNameView) -> bool {
    name is Rtx || name is Red || name is UlpFec || name is FlexFec
}

/// The payload that a format of the `m=` line stands for: the format must
/// be a payload type with an `rtpmap`, and its codec must carry media.
pub open spec fn payload_of(
    format: Seq<char>,
    maps: Seq<RtpMapView>,
    formats: Seq<FormatParametersView>,
    feedback: Seq<RtcpFeedbackView>,
) -> Option<RtpPayloadView> {
    match unsigned_of(format, 10, 255) {
        Some(n) => match codec_of(maps, n as u8) {
            Some(m) => if is_repair_codec(RtpCodecNameView::of(m.name)) {
                None
            } else {
                Some(
                    RtpPayloadView {
                        payload_type: PayloadType(n as u8),
                        name: RtpCodecNameView::of(m.name),
                        clock: m.clock,
                        channels: m.channels,
                        parameters: payload_parameters(formats, n as u8),
                        supported_feedback: feedback_of(feedback, n as u8),
                        rtx_payload_type: rtx_of(maps, formats, 0, n as u8),
                    },
                )
            },
            None => None,
        },
        None => None,
    }
}

/// The payloads of a media section, in the order of the formats of its
/// `m=` line.
pub open spec fn payloads_of(
    section_formats: Seq<Seq<char>>,
    maps: Seq<RtpMapView>,
    formats: Seq<FormatParametersView>,
    feedback: Seq<RtcpFeedbackView>,
) -> Seq<RtpPayloadView>
    decreases section_formats.len(),
{
    if section_formats.len() == 0 {
        Seq::empty()
    } else {
        let head = payloads_of(section_formats.drop_last(), maps, formats, feedback);
        match payload_of(section_formats.last(), maps, formats, feedback) {
            Some(p) => head.push(p),
            None => head,
        }
    }
}

/// The direction that the direction attributes of a section give: the one
/// that is there, send and receive where none is, and nothing where they
/// contradict each other.
pub open spec fn direction_of(attributes: Seq<(Seq<char>, AttributeView)>) -> Option<
    MediaDirection,
> {
    let sendonly = first_of::<SendOnly>(attributes) is Some;
    let recvonly = first_of::<ReceiveOnly>(attributes) is Some;
    let sendrecv = first_of::<SendReceive>(attributes) is Some;
    let inactive = first_of::<Inactive>(attributes) is Some;
    if sendonly && !recvonly && !sendrecv && !inactive {
        Some(MediaDirection::SendOnly)
    } else if !sendonly && recvonly && !sendrecv && !inactive {
        Some(MediaDirection::ReceiveOnly)
    } else if !sendonly && !recvonly && !inactive {
        Some(MediaDirection::SendReceive)
    } else if !sendonly && !recvonly && !sendrecv && inactive {
        Some(MediaDirection::Inactive)
    } else {
        None
    }
}

/// The encodings that the `rid` attributes give: one for each attribute
/// without restrictions.
pub open spec fn encodings_of_rids(rids: Seq<RidView>) -> Seq<RtpEncodingView>
    decreases rids.len(),
{
    if rids.len() == 0 {
        Seq::empty()
    } else if rids.last().restrictions is None {
        encodings_of_rids(rids.drop_last()).push(
            RtpEncodingView::Rid { rid: rids.last().rid, direction: rids.last().direction },
        )
    } else {
        encodings_of_rids(rids.drop_last())
    }
}

/// The last `ssrc-group` that pairs a stream with its retransmissions.
pub open spec fn flow_group(groups: Seq<SsrcGroupView>) -> Option<SsrcGroupView>
    decreases groups.len(),
{
    if groups.len() == 0 {
        None
    } else if groups.last().semantics.same(SsrcGroupSemanticsView::FlowIdentification) {
        Some(groups.last())
    } else {
        flow_group(groups.drop_last())
    }
}

/// The canonical name that the `ssrc` attributes give a source: the value
/// of the last `cname` attribute of that source.
pub open spec fn cname_of(attributes: Seq<SsrcAttributeView>, ssrc: u32) -> Option<Seq<char>>
    decreases attributes.len(),
{
    if attributes.len() == 0 {
        None
    } else if attributes.last().ssrc == ssrc && lower(attributes.last().name) == "cname"@ {
        attributes.last().value
    } else {
        cname_of(attributes.drop_last(), ssrc)
    }
}

/// The source that sends the media: the first of the flow group where
/// there is one, else the source of the first `ssrc` attribute.
pub open spec fn primary_ssrc(groups: Seq<SsrcGroupView>, attributes: Seq<SsrcAttributeView>)
    -> Option<u32> {
    match flow_group(groups) {
        Some(g) => if g.ssrcs.len() > 0 {
            Some(g.ssrcs[0])
        } else {
            None
        },
        None => if attributes.len() > 0 {
            Some(attributes[0].ssrc)
        } else {
            None
        },
    }
}

/// The source that sends the retransmissions: the second of the flow
/// group.
pub open spec fn repair_ssrc(groups: Seq<SsrcGroupView>) -> Option<Ssrc> {
    match flow_group(groups) {
        Some(g) => if g.ssrcs.len() > 1 {
            Some(Ssrc(g.ssrcs[1]))
        } else {
            None
        },
        None => None,
    }
}

/// The one encoding that the `ssrc` attributes give, where the sending
/// source has a canonical name.
pub open spec fn encoding_of_ssrcs(groups: Seq<SsrcGroupView>, attributes: Seq<SsrcAttributeView>)
    -> Option<RtpEncodingView> {
    match primary_ssrc(groups, attributes) {
        Some(ssrc) => match cname_of(attributes, ssrc) {
            Some(cname) => Some(
                RtpEncodingView::SendingSsrc {
                    cname,
                    ssrc: Ssrc(ssrc),
                    rtx_ssrc: repair_ssrc(groups),
                },
            ),
            None => None,
        },
        None => None,
    }
}

/// The encodings of a section: those named by a RID, and where there is
/// none, the one named by its sending source.
pub open spec fn encodings_of(
    rids: Seq<RidView>,
    groups: Seq<SsrcGroupView>,
    attributes: Seq<SsrcAttributeView>,
) -> Seq<RtpEncodingView> {
    if encodings_of_rids(rids).len() > 0 {
        encodings_of_rids(rids)
    } else {
        match encoding_of_ssrcs(groups, attributes) {
            Some(e) => seq![e],
            None => Seq::empty(),
        }
    }
}

/// The header extensions of a section by URI: those without direction and
/// without attributes, a later one overwriting an earlier one of the same
/// URI.
pub open spec fn extensions_of(maps: Seq<ExtensionMapView>) -> Seq<(Seq<char>, u16)>
    decreases maps.len(),
{
    if maps.len() == 0 {
        Seq::empty()
    } else if maps.last().direction is None && maps.last().attributes.len() == 0 {
        put(extensions_of(maps.drop_last()), maps.last().extension, maps.last().id)
    } else {
        extensions_of(maps.drop_last())
    }
}

impl RtpMediaDescriptionView {
    /// What a media section of a description means for negotiation, or the
    /// message that says why it means nothing.
    pub open spec fn from_sdp(section: MediaDescriptionView) -> Result<
        RtpMediaDescriptionView,
        Seq<char>,
    > {
        let attributes = section.attributes;
        if first_of::<Mid>(attributes) is None {
            Err("mid is required"@)
        } else if direction_of(attributes) is None {
            Err("Multiple direction attributes found in m-line"@)
        } else {
            Ok(
                RtpMediaDescriptionView {
                    kind: section.kind,
                    port: section.port,
                    protocol: section.protocol,
                    bandwidths: section.bandwidths,
                    mid: first_of::<Mid>(attributes)->0,
                    payloads: payloads_of(
                        section.formats,
                        all_of::<RtpMap>(attributes),
                        all_of::<FormatParameters>(attributes),
                        all_of::<RtcpFeedback>(attributes),
                    ),
                    direction: direction_of(attributes)->0,
                    encodings: encodings_of(
                        all_of::<Rid>(attributes),
                        all_of::<SsrcGroup>(attributes),
                        all_of::<SsrcAttribute>(attributes),
                    ),
                    extensions: extensions_of(all_of::<ExtensionMap>(attributes)),
                    rtcp_mux: first_of::<RtcpMux>(attributes) is Some,
                    rtcp_mux_only: first_of::<RtcpMuxOnly>(attributes) is Some,
                    rtcp_reduced_size: first_of::<RtcpReducedSize>(attributes) is Some,
                },
            )
        }
    }
}

pub fn find_codec<'a>(maps: &Vec<&'a RtpMap>, payload: u8) -> (r: Option<&'a RtpMap>)
    ensures
        r.deep_view() == codec_of(maps.deep_view(), payload),
{
    let ghost views = maps.deep_view();
    let mut found: Option<&'a RtpMap> = None;
    let mut i: usize = 0;
    assert(views.take(0) =~= Seq::<RtpMapView>::empty());
    while i < maps.len()
        invariant
            i <= maps.len(),
            views == maps.deep_view(),
            found.deep_view() == codec_of(views.take(i as int), payload),
        decreases maps.len() - i,
    {
        assert(views.take(i + 1).drop_last() =~= views.take(i as int));
        assert(views.take(i + 1).last() == maps@[i as int].deep_view());
        if maps[i].payload == payload {
            found = Some(maps[i]);
        }
        i += 1;
    }
    assert(views.take(maps.len() as int) =~= views);
    found
}

pub fn find_format<'a>(formats: &Vec<&'a FormatParameters>, payload: u8) -> (r: Option<
    &'a FormatParameters,
>)
    ensures
        r.deep_view() == format_of(formats.deep_view(), payload),
{
    let ghost views = formats.deep_view();
    let mut found: Option<&'a FormatParameters> = None;
    let mut i: usize = 0;
    assert(views.take(0) =~= Seq::<FormatParametersView>::empty());
    while i < formats.len()
        invariant
            i <= formats.len(),
            views == formats.deep_view(),
            found.deep_view() == format_of(views.take(i as int), payload),
        decreases formats.len() - i,
    {
        assert(views.take(i + 1).drop_last() =~= views.take(i as int));
        assert(views.take(i + 1).last() == formats@[i as int].deep_view());
        if formats[i].payload == payload {
            found = Some(formats[i]);
        }
        i += 1;
    }
    assert(views.take(formats.len() as int) =~= views);
    found
}

/// Reads the `key=value` parts of a parameter text.
pub fn parse_parameters(text: &str) -> (r: Vec<(String, String)>)
    ensures
        r.deep_view() == parameters_of(text@),
{
    let input = chars_of(text);
    let mut pairs: Vec<(String, String)> = Vec::new();
    let mut i: usize = 0;
    loop
        invariant_except_break
            i <= input.len(),
            input@ == text@,
            parameter_pairs(input@, 0) == pairs.deep_view() + parameter_pairs(input@, i as int),
        ensures
            parameter_pairs(input@, 0) == pairs.deep_view(),
            input@ == text@,
        decreases input.len() - i,
    {
        let e = find_token_end(&input, i, Until::Semicolon);
        let q = find_token_end(&input, i, Until::Equals);
        let ghost before = pairs.deep_view();
        let ghost here: Seq<(Seq<char>, Seq<char>)> = if q < e {
            seq![(input@.subrange(i as int, q as int), input@.subrange(q + 1, e as int))]
        } else {
            Seq::empty()
        };
        if q < e {
            pairs.push((string_of(&input, i, q), string_of(&input, q + 1, e)));
        }
        assert(pairs.deep_view() =~= before + here);
        if e < input.len() {
            assert(before + (here + parameter_pairs(input@, e + 1)) =~= pairs.deep_view()
                + parameter_pairs(input@, e + 1));
            i = e + 1;
        } else {
            break;
        }
    }
    crate::attributes::collect_pairs(&pairs)
}

pub fn find_payload_parameters(formats: &Vec<&FormatParameters>, payload: u8) -> (r: Vec<
    (String, String),
>)
    ensures
        r.deep_view() == payload_parameters(formats.deep_view(), payload),
{
    match find_format(formats, payload) {
        Some(f) => parse_parameters(f.parameters.as_str()),
        None => {
            let empty: Vec<(String, String)> = Vec::new();
            assert(empty.deep_view() =~= Seq::<(Seq<char>, Seq<char>)>::empty());
            empty
        },
    }
}

pub fn find_apt(formats: &Vec<&FormatParameters>, payload: u8) -> (r: Option<u8>)
    ensures
        r == apt_of(formats.deep_view(), payload),
{
    let parameters = find_payload_parameters(formats, payload);
    match crate::pairs::get(&parameters, "apt") {
        Some(v) => match crate::text::parse_unsigned_str(v.as_str(), 10, 255) {
            Some(n) => Some(n as u8),
            None => None,
        },
        None => None,
    }
}

pub fn is_repair_for(
    maps: &Vec<&RtpMap>,
    formats: &Vec<&FormatParameters>,
    rtx: u8,
    payload: u8,
) -> (r: bool)
    ensures
        r == repairs(maps.deep_view(), formats.deep_view(), rtx, payload),
{
    match find_codec(maps, rtx) {
        Some(m) => {
            let name = match RtpCodecName::from_str(m.name.as_str()) {
                Ok(n) => n,
                Err(_) => {
                    return false;
                },
            };
            match name {
                RtpCodecName::Rtx => match find_apt(formats, rtx) {
                    Some(apt) => apt == payload,
                    None => false,
                },
                _ => false,
            }
        },
        None => false,
    }
}

pub fn find_rtx(maps: &Vec<&RtpMap>, formats: &Vec<&FormatParameters>, payload: u8) -> (r: Option<
    PayloadType,
>)
    ensures
        r == rtx_of(maps.deep_view(), formats.deep_view(), 0, payload),
{
    let ghost views = maps.deep_view();
    let mut i: usize = 0;
    while i < maps.len()
        invariant
            i <= maps.len(),
            views == maps.deep_view(),
            rtx_of(views, formats.deep_view(), 0, payload) == rtx_of(
                views,
                formats.deep_view(),
                i as int,
                payload,
            ),
        decreases maps.len() - i,
    {
        assert(views[i as int] == maps@[i as int].deep_view());
        if is_repair_for(maps, formats, maps[i].payload, payload) {
            return Some(PayloadType(maps[i].payload));
        }
        i += 1;
    }
    None
}

pub fn collect_feedback(feedback: &Vec<&RtcpFeedback>, payload: u8) -> (r: ListOrderedMultimap<
    String,
    Option<String>,
    RandomState,
>)
    ensures
        feedback_entries(r) == feedback_of(feedback.deep_view(), payload),
{
    let ghost views = feedback.deep_view();
    let mut out = feedback_new();
    let mut i: usize = 0;
    assert(views.take(0) =~= Seq::<RtcpFeedbackView>::empty());
    while i < feedback.len()
        invariant
            i <= feedback.len(),
            views == feedback.deep_view(),
            feedback_entries(out) == feedback_of(views.take(i as int), payload),
        decreases feedback.len() - i,
    {
        assert(views.take(i + 1).drop_last() =~= views.take(i as int));
        assert(views.take(i + 1).last() == feedback@[i as int].deep_view());
        match feedback[i].payload {
            Some(p) => {
                if p == payload {
                    feedback_append(&mut out, feedback[i].id.clone(), feedback[i].param.duplicate());
                }
            },
            None => {},
        }
        i += 1;
    }
    assert(views.take(feedback.len() as int) =~= views);
    out
}

pub fn make_payload(
    format: &str,
    maps: &Vec<&RtpMap>,
    formats: &Vec<&FormatParameters>,
    feedback: &Vec<&RtcpFeedback>,
) -> (r: Option<RtpPayload>)
    ensures
        r.deep_view() == payload_of(
            format@,
            maps.deep_view(),
            formats.deep_view(),
            feedback.deep_view(),
        ),
{
    let n = crate::text::parse_unsigned_str(format, 10, 255)? as u8;
    let m = find_codec(maps, n)?;
    let name = match RtpCodecName::from_str(m.name.as_str()) {
        Ok(v) => v,
        Err(_) => {
            return None;
        },
    };
    match name {
        RtpCodecName::Rtx => {
            return None;
        },
        RtpCodecName::Red => {
            return None;
        },
        RtpCodecName::UlpFec => {
            return None;
        },
        RtpCodecName::FlexFec => {
            return None;
        },
        _ => {},
    }
    Some(
        RtpPayload {
            payload_type: PayloadType(n),
            name,
            clock: m.clock,
            channels: m.channels,
            parameters: find_payload_parameters(formats, n),
            supported_feedback: collect_feedback(feedback, n),
            rtx_payload_type: find_rtx(maps, formats, n),
        },
    )
}

pub fn make_payloads(
    section_formats: &Vec<String>,
    maps: &Vec<&RtpMap>,
    formats: &Vec<&FormatParameters>,
    feedback: &Vec<&RtcpFeedback>,
) -> (r: Vec<RtpPayload>)
    ensures
        r.deep_view() == payloads_of(
            section_formats.deep_view(),
            maps.deep_view(),
            formats.deep_view(),
            feedback.deep_view(),
        ),
{
    let ghost views = section_formats.deep_view();
    let mut out: Vec<RtpPayload> = Vec::new();
    let mut i: usize = 0;
    assert(views.take(0) =~= Seq::<Seq<char>>::empty());
    assert(out.deep_view() =~= Seq::<RtpPayloadView>::empty());
    while i < section_formats.len()
        invariant
            i <= section_formats.len(),
            views == section_formats.deep_view(),
            out.deep_view() == payloads_of(
                views.take(i as int),
                maps.deep_view(),
                formats.deep_view(),
                feedback.deep_view(),
            ),
        decreases section_formats.len() - i,
    {
        assert(views.take(i + 1).drop_last() =~= views.take(i as int));
        assert(views.take(i + 1).last() == section_formats@[i as int]@);
        if let Some(p) = make_payload(section_formats[i].as_str(), maps, formats, feedback) {
            let ghost before = out.deep_view();
            let ghost v = p.deep_view();
            out.push(p);
            assert(out.deep_view() =~= before.push(v));
        }
        i += 1;
    }
    assert(views.take(section_formats.len() as int) =~= views);
    out
}

pub fn find_direction(attributes: &AttributeMap) -> (r: Option<MediaDirection>)
    ensures
        r == direction_of(attributes.deep_view()),
{
    let sendonly = attributes.get::<SendOnly>().is_some();
    let recvonly = attributes.get::<ReceiveOnly>().is_some();
    let sendrecv = attributes.get::<SendReceive>().is_some();
    let inactive = attributes.get::<Inactive>().is_some();
    if sendonly && !recvonly && !sendrecv && !inactive {
        Some(MediaDirection::SendOnly)
    } else if !sendonly && recvonly && !sendrecv && !inactive {
        Some(MediaDirection::ReceiveOnly)
    } else if !sendonly && !recvonly && !inactive {
        Some(MediaDirection::SendReceive)
    } else if !sendonly && !recvonly && !sendrecv && inactive {
        Some(MediaDirection::Inactive)
    } else {
        None
    }
}

pub fn make_rid_encodings(rids: &Vec<&Rid>) -> (r: Vec<RtpEncoding>)
    ensures
        r.deep_view() == encodings_of_rids(rids.deep_view()),
{
    let ghost views = rids.deep_view();
    let mut out: Vec<RtpEncoding> = Vec::new();
    let mut i: usize = 0;
    assert(views.take(0) =~= Seq::<RidView>::empty());
    assert(out.deep_view() =~= Seq::<RtpEncodingView>::empty());
    while i < rids.len()
        invariant
            i <= rids.len(),
            views == rids.deep_view(),
            out.deep_view() == encodings_of_rids(views.take(i as int)),
        decreases rids.len() - i,
    {
        assert(views.take(i + 1).drop_last() =~= views.take(i as int));
        assert(views.take(i + 1).last() == rids@[i as int].deep_view());
        if rids[i].restrictions.is_none() {
            let ghost before = out.deep_view();
            let e = RtpEncoding::Rid {
                rid: crate::types::Rid(rids[i].rid.clone()),
                direction: rids[i].direction,
            };
            let ghost v = e.deep_view();
            out.push(e);
            assert(out.deep_view() =~= before.push(v));
        }
        i += 1;
    }
    assert(views.take(rids.len() as int) =~= views);
    out
}

pub fn find_flow_group<'a>(groups: &Vec<&'a SsrcGroup>) -> (r: Option<&'a SsrcGroup>)
    ensures
        r.deep_view() == flow_group(groups.deep_view()),
{
    let ghost views = groups.deep_view();
    let wanted = SsrcGroupSemantics::FlowIdentification;
    let mut found: Option<&'a SsrcGroup> = None;
    let mut i: usize = 0;
    assert(views.take(0) =~= Seq::<SsrcGroupView>::empty());
    while i < groups.len()
        invariant
            i <= groups.len(),
            views == groups.deep_view(),
            wanted.deep_view() == SsrcGroupSemanticsView::FlowIdentification,
            found.deep_view() == flow_group(views.take(i as int)),
        decreases groups.len() - i,
    {
        assert(views.take(i + 1).drop_last() =~= views.take(i as int));
        assert(views.take(i + 1).last() == groups@[i as int].deep_view());
        if groups[i].semantics == wanted {
            found = Some(groups[i]);
        }
        i += 1;
    }
    assert(views.take(groups.len() as int) =~= views);
    found
}

pub fn find_cname(attributes: &Vec<&SsrcAttribute>, ssrc: u32) -> (r: Option<String>)
    ensures
        r.deep_view() == cname_of(attributes.deep_view(), ssrc),
{
    let ghost views = attributes.deep_view();
    let mut found: Option<String> = None;
    let mut i: usize = 0;
    assert(views.take(0) =~= Seq::<SsrcAttributeView>::empty());
    while i < attributes.len()
        invariant
            i <= attributes.len(),
            views == attributes.deep_view(),
            found.deep_view() == cname_of(views.take(i as int), ssrc),
        decreases attributes.len() - i,
    {
        assert(views.take(i + 1).drop_last() =~= views.take(i as int));
        assert(views.take(i + 1).last() == attributes@[i as int].deep_view());
        if attributes[i].ssrc == ssrc && str_eq(
            to_lower(attributes[i].name.as_str()).as_str(),
            "cname",
        ) {
            found = attributes[i].value.duplicate();
        }
        i += 1;
    }
    assert(views.take(attributes.len() as int) =~= views);
    found
}

pub fn make_ssrc_encoding(groups: &Vec<&SsrcGroup>, attributes: &Vec<&SsrcAttribute>) -> (r: Option<
    RtpEncoding,
>)
    ensures
        r.deep_view() == encoding_of_ssrcs(groups.deep_view(), attributes.deep_view()),
{
    let ghost views = attributes.deep_view();
    let (ssrc, rtx_ssrc) = match find_flow_group(groups) {
        Some(g) => (
            if g.ssrcs.len() > 0 {
                Some(g.ssrcs[0])
            } else {
                None
            },
            if g.ssrcs.len() > 1 {
                Some(Ssrc(g.ssrcs[1]))
            } else {
                None
            },
        ),
        None => (
            if attributes.len() > 0 {
                assert(views[0] == attributes@[0].deep_view());
                Some(attributes[0].ssrc)
            } else {
                None
            },
            None,
        ),
    };
    let ssrc = ssrc?;
    let cname = find_cname(attributes, ssrc)?;
    Some(RtpEncoding::SendingSsrc { cname, ssrc: Ssrc(ssrc), rtx_ssrc })
}

pub fn make_encodings(
    rids: &Vec<&Rid>,
    groups: &Vec<&SsrcGroup>,
    attributes: &Vec<&SsrcAttribute>,
) -> (r: Vec<RtpEncoding>)
    ensures
        r.deep_view() == encodings_of(
            rids.deep_view(),
            groups.deep_view(),
            attributes.deep_view(),
        ),
{
    let mut encodings = make_rid_encodings(rids);
    if encodings.len() == 0 {
        match make_ssrc_encoding(groups, attributes) {
            Some(e) => {
                let ghost v = e.deep_view();
                encodings.push(e);
                assert(encodings.deep_view() =~= seq![v]);
            },
            None => {
                assert(encodings.deep_view() =~= Seq::<RtpEncodingView>::empty());
            },
        }
    }
    encodings
}

pub fn make_extensions(maps: &Vec<&ExtensionMap>) -> (r: Vec<(String, u16)>)
    ensures
        r.deep_view() == extensions_of(maps.deep_view()),
{
    let ghost views = maps.deep_view();
    let mut out: Vec<(String, u16)> = Vec::new();
    let mut i: usize = 0;
    assert(views.take(0) =~= Seq::<ExtensionMapView>::empty());
    assert(out.deep_view() =~= Seq::<(Seq<char>, u16)>::empty());
    while i < maps.len()
        invariant
            i <= maps.len(),
            views == maps.deep_view(),
            out.deep_view() == extensions_of(views.take(i as int)),
        decreases maps.len() - i,
    {
        assert(views.take(i + 1).drop_last() =~= views.take(i as int));
        assert(views.take(i + 1).last() == maps@[i as int].deep_view());
        if maps[i].direction.is_none() && maps[i].attributes.len() == 0 {
            crate::pairs::insert(&mut out, maps[i].extension.clone(), maps[i].id);
        }
        i += 1;
    }
    assert(views.take(maps.len() as int) =~= views);
    out
}

impl RtpMediaDescription {
    /// What a media section of a description means for negotiation.
    pub fn from_sdp(sdp: &MediaDescription) -> (r: Result<RtpMediaDescription, String>)
        ensures
            match RtpMediaDescriptionView::from_sdp(sdp.deep_view()) {
                Ok(v) => r is Ok && r->Ok_0.deep_view() == v,
                Err(message) => r is Err && r->Err_0@ == message,
            },
    {
        let mid = match sdp.attributes.get::<Mid>() {
            Some(m) => crate::types::Mid(m.0.clone()),
            None => {
                return Err("mid is required".to_owned());
            },
        };
        let direction = match find_direction(&sdp.attributes) {
            Some(d) => d,
            None => {
                return Err("Multiple direction attributes found in m-line".to_owned());
            },
        };
        let maps = sdp.attributes.get_vec::<RtpMap>();
        let formats = sdp.attributes.get_vec::<FormatParameters>();
        let feedback = sdp.attributes.get_vec::<RtcpFeedback>();
        let payloads = make_payloads(&sdp.formats, &maps, &formats, &feedback);
        let rids = sdp.attributes.get_vec::<Rid>();
        let groups = sdp.attributes.get_vec::<SsrcGroup>();
        let ssrcs = sdp.attributes.get_vec::<SsrcAttribute>();
        let encodings = make_encodings(&rids, &groups, &ssrcs);
        let extension_maps = sdp.attributes.get_vec::<ExtensionMap>();
        let extensions = make_extensions(&extension_maps);
        Ok(
            RtpMediaDescription {
                kind: sdp.kind.clone(),
                port: sdp.port,
                protocol: sdp.protocol.clone(),
                bandwidths: sdp.bandwidths.duplicate(),
                mid,
                payloads,
                direction,
                encodings,
                extensions,
                rtcp_mux: sdp.attributes.get::<RtcpMux>().is_some(),
                rtcp_mux_only: sdp.attributes.get::<RtcpMuxOnly>().is_some(),
                rtcp_reduced_size: sdp.attributes.get::<RtcpReducedSize>().is_some(),
            },
        )
    }
}

/// The attribute that is found first among well-formed entries is well
/// formed.
pub proof fn lemma_lookup_is_well_formed(entries: Seq<(Seq<char>, AttributeView)>, name: Seq<char>)
    requires
        entries_wf(entries),
    ensures
        lookup(entries, name) is Some ==> lookup(entries, name)->0.wf(),
    decreases entries.len(),
{
    if entries.len() > 0 && entries[0].0 != name {
        let rest = entries.skip(1);
        assert forall|j: int| 0 <= j < rest.len() implies (#[trigger] rest[j]).1.wf() by {
            assert(rest[j] == entries[j + 1]);
        }
        lemma_lookup_is_well_formed(rest, name);
    }
}

/// The candidates among well-formed entries are well formed.
pub proof fn lemma_candidates_are_well_formed(entries: Seq<(Seq<char>, AttributeView)>)
    requires
        entries_wf(entries),
    ensures
        forall|k: int|
            0 <= k < all_of::<Candidate>(entries).len() ==> (#[trigger] all_of::<Candidate>(
                entries,
            )[k]).wf(),
{
    lemma_named_values_are_well_formed(entries, Candidate::name());
    lemma_typed_candidates_are_well_formed(values_named(entries, Candidate::name()));
}

proof fn lemma_named_values_are_well_formed(
    entries: Seq<(Seq<char>, AttributeView)>,
    name: Seq<char>,
)
    requires
        entries_wf(entries),
    ensures
        forall|k: int|
            0 <= k < values_named(entries, name).len() ==> (#[trigger] values_named(
                entries,
                name,
            )[k]).wf(),
    decreases entries.len(),
{
    if entries.len() > 0 {
        let head = entries.drop_last();
        assert forall|j: int| 0 <= j < head.len() implies (#[trigger] head[j]).1.wf() by {
            assert(head[j] == entries[j]);
        }
        lemma_named_values_are_well_formed(head, name);
        assert(entries.last() == entries[entries.len() - 1]);
        let before = values_named(head, name);
        let all = values_named(entries, name);
        assert forall|k: int| 0 <= k < all.len() implies (#[trigger] all[k]).wf() by {
            if k < before.len() {
                assert(all[k] == before[k]);
            } else {
                assert(all[k] == entries.last().1);
            }
        }
    }
}

proof fn lemma_typed_candidates_are_well_formed(values: Seq<AttributeView>)
    requires
        forall|k: int| 0 <= k < values.len() ==> (#[trigger] values[k]).wf(),
    ensures
        forall|k: int|
            0 <= k < values_of_type::<Candidate>(values).len() ==> (#[trigger] values_of_type::<
                Candidate,
            >(values)[k]).wf(),
    decreases values.len(),
{
    if values.len() > 0 {
        let head = values.drop_last();
        assert forall|k: int| 0 <= k < head.len() implies (#[trigger] head[k]).wf() by {
            assert(head[k] == values[k]);
        }
        lemma_typed_candidates_are_well_formed(head);
        assert(values.last() == values[values.len() - 1]);
        let before = values_of_type::<Candidate>(head);
        let all = values_of_type::<Candidate>(values);
        assert forall|k: int| 0 <= k < all.len() implies (#[trigger] all[k]).wf() by {
            if k < before.len() {
                assert(all[k] == before[k]);
            } else {
                assert(values.last() == AttributeView::Candidate(all[k]));
            }
        }
    }
}

/// The payloads of a section are well formed.
pub proof fn lemma_payloads_are_well_formed(
    section_formats: Seq<Seq<char>>,
    maps: Seq<RtpMapView>,
    formats: Seq<FormatParametersView>,
    feedback: Seq<RtcpFeedbackView>,
)
    ensures
        forall|k: int|
            0 <= k < payloads_of(section_formats, maps, formats, feedback).len() ==> (
            #[trigger] payloads_of(section_formats, maps, formats, feedback)[k]).wf(),
    decreases section_formats.len(),
{
    if section_formats.len() > 0 {
        lemma_payloads_are_well_formed(section_formats.drop_last(), maps, formats, feedback);
        assert forall|text: Seq<char>| distinct_keys(#[trigger] parameters_of(text)) by {
            lemma_collected_keys_are_distinct(parameter_pairs(text, 0));
        }
        let before = payloads_of(section_formats.drop_last(), maps, formats, feedback);
        let all = payloads_of(section_formats, maps, formats, feedback);
        assert forall|k: int| 0 <= k < all.len() implies (#[trigger] all[k]).wf() by {
            if k < before.len() {
                assert(all[k] == before[k]);
            } else {
                let made = payload_of(section_formats.last(), maps, formats, feedback);
                assert(made == Some(all[k]));
                assert(all[k].parameters == payload_parameters(formats, all[k].payload_type.0));
            }
        }
    }
}

/// The header extensions of a section hold every URI once.
pub proof fn lemma_extensions_are_distinct(maps: Seq<ExtensionMapView>)
    ensures
        distinct_keys(extensions_of(maps)),
    decreases maps.len(),
{
    if maps.len() > 0 {
        lemma_extensions_are_distinct(maps.drop_last());
        lemma_put_keeps_distinct(
            extensions_of(maps.drop_last()),
            maps.last().extension,
            maps.last().id,
        );
    }
}

/// What a well-formed media section means is well formed.
pub proof fn lemma_section_from_sdp_is_well_formed(section: MediaDescriptionView)
    requires
        section.wf(),
        RtpMediaDescriptionView::from_sdp(section) is Ok,
    ensures
        RtpMediaDescriptionView::from_sdp(section)->Ok_0.wf(),
{
    let attributes = section.attributes;
    lemma_payloads_are_well_formed(
        section.formats,
        all_of::<RtpMap>(attributes),
        all_of::<FormatParameters>(attributes),
        all_of::<RtcpFeedback>(attributes),
    );
    lemma_extensions_are_distinct(all_of::<ExtensionMap>(attributes));
}

/// What well-formed media sections mean is well formed.
pub proof fn lemma_sections_from_sdp_are_well_formed(sections: Seq<MediaDescriptionView>)
    requires
        forall|k: int| 0 <= k < sections.len() ==> (#[trigger] sections[k]).wf(),
        sections_from_sdp(sections) is Ok,
    ensures
        forall|k: int|
            0 <= k < sections_from_sdp(sections)->Ok_0.len() ==> (#[trigger] sections_from_sdp(
                sections,
            )->Ok_0[k]).wf(),
    decreases sections.len(),
{
    if sections.len() > 0 {
        let head = sections.drop_last();
        assert forall|k: int| 0 <= k < head.len() implies (#[trigger] head[k]).wf() by {
            assert(head[k] == sections[k]);
        }
        lemma_sections_from_sdp_are_well_formed(head);
        assert(sections.last() == sections[sections.len() - 1]);
        lemma_section_from_sdp_is_well_formed(sections.last());
    }
}

/// What a well-formed description means is well formed.
pub proof fn lemma_from_sdp_is_well_formed(sdp: SessionView)
    requires
        sdp.wf(),
        UnifiedBundleSessionView::from_sdp(sdp) is Ok,
    ensures
        UnifiedBundleSessionView::from_sdp(sdp)->Ok_0.wf(),
{
    let first = sdp.media_descriptions[0].attributes;
    assert(sdp.media_descriptions[0].wf());
    lemma_lookup_is_well_formed(first, IceOptions::name());
    lemma_lookup_is_well_formed(sdp.attributes, IceOptions::name());
    lemma_candidates_are_well_formed(first);
    lemma_candidates_are_well_formed(sdp.attributes);
    lemma_sections_from_sdp_are_well_formed(sdp.media_descriptions);
    let options = UnifiedBundleSessionView::from_sdp(sdp)->Ok_0.ice_options;
    assert(no_option_twice(options));
}

/// What the media sections of a description mean for negotiation, or the
/// message of the first section that means nothing.
pub open spec fn sections_from_sdp(sections: Seq<MediaDescriptionView>) -> Result<
    Seq<RtpMediaDescriptionView>,
    Seq<char>,
>
    decreases sections.len(),
{
    if sections.len() == 0 {
        Ok(Seq::empty())
    } else {
        match sections_from_sdp(sections.drop_last()) {
            Ok(head) => match RtpMediaDescriptionView::from_sdp(sections.last()) {
                Ok(v) => Ok(head.push(v)),
                Err(message) => Err(message),
            },
            Err(message) => Err(message),
        }
    }
}

impl UnifiedBundleSessionView {
    /// What a description means for negotiation, or the message that says
    /// why it means nothing. The parameters of the transport are those of
    /// the first media section, and those of the session where that
    /// section has none.
    pub open spec fn from_sdp(sdp: SessionView) -> Result<UnifiedBundleSessionView, Seq<char>> {
        if sdp.media_descriptions.len() == 0 {
            Err("at least one m-line is required"@)
        } else {
            let first = sdp.media_descriptions[0].attributes;
            let ufrag = transport_attribute::<IceUfrag>(first, sdp.attributes);
            let pwd = transport_attribute::<IcePwd>(first, sdp.attributes);
            if ufrag is None {
                Err("ice-ufrag is required"@)
            } else if pwd is None {
                Err("ice-pwd is required"@)
            } else {
                match sections_from_sdp(sdp.media_descriptions) {
                    Err(message) => Err(message),
                    Ok(media_descriptions) => Ok(
                        UnifiedBundleSessionView {
                            id: sdp.origin.session_id,
                            version: sdp.origin.session_version,
                            ice_lite: first_of::<IceLite>(sdp.attributes) is Some,
                            ice_ufrag: ufrag->0,
                            ice_pwd: pwd->0,
                            ice_options: match transport_attribute::<IceOptions>(
                                first,
                                sdp.attributes,
                            ) {
                                Some(options) => options,
                                None => Seq::empty(),
                            },
                            candidates: transport_attributes::<Candidate>(
                                first,
                                sdp.attributes,
                            ),
                            fingerprints: filed(
                                transport_attributes::<Fingerprint>(first, sdp.attributes),
                            ),
                            setup_role: match transport_attribute::<Setup>(first, sdp.attributes) {
                                Some(setup) => setup.0,
                                None => SetupRole::ActivePassive,
                            },
                            allow_mixed_extension_maps: transport_attribute::<
                                ExtensionMapAllowMixed,
                            >(first, sdp.attributes) is Some,
                            media_descriptions,
                        },
                    ),
                }
            }
        }
    }

    /// What a text means for negotiation: the description that the text
    /// writes, and what that description means. A text that the grammar
    /// refuses gives the message of the refusal.
    pub open spec fn from_text(text: Seq<char>) -> Result<UnifiedBundleSessionView, Seq<char>> {
        match crate::sdp::session_grammar(text) {
            Ok(sdp) => Self::from_sdp(sdp),
            Err(e) => Err(e.message()),
        }
    }
}

pub fn copy_candidates(candidates: &Vec<&Candidate>) -> (r: Vec<Candidate>)
    ensures
        r.deep_view() == candidates.deep_view(),
{
    let mut out: Vec<Candidate> = Vec::new();
    let mut i: usize = 0;
    while i < candidates.len()
        invariant
            i <= candidates.len(),
            out@.len() == i,
            forall|j: int|
                0 <= j < i ==> (#[trigger] out@[j]).deep_view() == candidates@[j].deep_view(),
        decreases candidates.len() - i,
    {
        out.push(candidates[i].clone());
        i += 1;
    }
    assert(out.deep_view() =~= candidates.deep_view());
    out
}

/// Files the fingerprints, in their order.
pub fn file_fingerprints(fingerprints: &Vec<&Fingerprint>) -> (r: ListOrderedMultimap<
    FingerprintHashFunction,
    CertificateFingerprint,
    RandomState,
>)
    ensures
        fingerprint_entries(r) == filed(fingerprints.deep_view()),
{
    let ghost all = fingerprints.deep_view();
    let mut out = fingerprints_new();
    let mut i: usize = 0;
    assert(all.take(0) =~= Seq::<FingerprintView>::empty());
    while i < fingerprints.len()
        invariant
            i <= fingerprints.len(),
            all == fingerprints.deep_view(),
            fingerprint_entries(out) == filed(all.take(i as int)),
        decreases fingerprints.len() - i,
    {
        assert(all.take(i + 1).drop_last() =~= all.take(i as int));
        assert(all.take(i + 1).last() == fingerprints@[i as int].deep_view());
        fingerprints_append(
            &mut out,
            fingerprints[i].hash_function.clone(),
            CertificateFingerprint(crate::types::clone_bytes(&fingerprints[i].fingerprint)),
        );
        i += 1;
    }
    assert(all.take(fingerprints.len() as int) =~= all);
    out
}

pub fn make_sections(sections: &Vec<MediaDescription>) -> (r: Result<
    Vec<RtpMediaDescription>,
    String,
>)
    ensures
        match sections_from_sdp(sections.deep_view()) {
            Ok(v) => r is Ok && r->Ok_0.deep_view() == v,
            Err(message) => r is Err && r->Err_0@ == message,
        },
{
    let ghost views = sections.deep_view();
    let mut out: Vec<RtpMediaDescription> = Vec::new();
    let mut i: usize = 0;
    assert(views.take(0) =~= Seq::<MediaDescriptionView>::empty());
    assert(out.deep_view() =~= Seq::<RtpMediaDescriptionView>::empty());
    while i < sections.len()
        invariant
            i <= sections.len(),
            views == sections.deep_view(),
            sections_from_sdp(views.take(i as int)) == Ok::<
                Seq<RtpMediaDescriptionView>,
                Seq<char>,
            >(out.deep_view()),
        decreases sections.len() - i,
    {
        assert(views.take(i + 1).drop_last() =~= views.take(i as int));
        assert(views.take(i + 1).last() == sections@[i as int].deep_view());
        match RtpMediaDescription::from_sdp(&sections[i]) {
            Ok(section) => {
                let ghost before = out.deep_view();
                let ghost v = section.deep_view();
                out.push(section);
                assert(out.deep_view() =~= before.push(v));
            },
            Err(message) => {
                proof {
                    lemma_first_refusal(views, i as int);
                }
                return Err(message);
            },
        }
        i += 1;
    }
    assert(views.take(sections.len() as int) =~= views);
    Ok(out)
}

/// Where the sections before `i` mean something and section `i` does not,
/// the message for the whole is that of section `i`.
pub proof fn lemma_first_refusal(sections: Seq<MediaDescriptionView>, i: int)
    requires
        0 <= i < sections.len(),
        sections_from_sdp(sections.take(i)) is Ok,
        RtpMediaDescriptionView::from_sdp(sections[i]) is Err,
    ensures
        sections_from_sdp(sections) == Err::<Seq<RtpMediaDescriptionView>, Seq<char>>(
            RtpMediaDescriptionView::from_sdp(sections[i])->Err_0,
        ),
    decreases sections.len() - i,
{
    assert(sections.take(i + 1).drop_last() =~= sections.take(i));
    assert(sections.take(i + 1).last() == sections[i]);
    lemma_refusal_stays(sections, i + 1);
}

/// A refusal of the sections before `k` is the refusal of the whole.
pub proof fn lemma_refusal_stays(sections: Seq<MediaDescriptionView>, k: int)
    requires
        0 <= k <= sections.len(),
        sections_from_sdp(sections.take(k)) is Err,
    ensures
        sections_from_sdp(sections) == sections_from_sdp(sections.take(k)),
    decreases sections.len() - k,
{
    if k == sections.len() {
        assert(sections.take(k) =~= sections);
    } else {
        assert(sections.take(k + 1).drop_last() =~= sections.take(k));
        lemma_refusal_stays(sections, k + 1);
    }
}

impl UnifiedBundleSession {
    /// What a description means for negotiation.
    pub fn from_sdp(sdp: &Session) -> (r: Result<UnifiedBundleSession, String>)
        ensures
            match UnifiedBundleSessionView::from_sdp(sdp.deep_view()) {
                Ok(v) => r is Ok && r->Ok_0.deep_view() == v,
                Err(message) => r is Err && r->Err_0@ == message,
            },
    {
        if sdp.media_descriptions.len() == 0 {
            return Err("at least one m-line is required".to_owned());
        }
        let first = &sdp.media_descriptions[0].attributes;
        assert(sdp.deep_view().media_descriptions[0].attributes == first.deep_view());
        let ice_ufrag = match find_transport_attribute::<IceUfrag>(first, &sdp.attributes) {
            Some(a) => a.0.clone(),
            None => {
                return Err("ice-ufrag is required".to_owned());
            },
        };
        let ice_pwd = match find_transport_attribute::<IcePwd>(first, &sdp.attributes) {
            Some(a) => a.0.clone(),
            None => {
                return Err("ice-pwd is required".to_owned());
            },
        };
        let media_descriptions = match make_sections(&sdp.media_descriptions) {
            Ok(m) => m,
            Err(message) => {
                return Err(message);
            },
        };
        let ice_options = match find_transport_attribute::<IceOptions>(first, &sdp.attributes) {
            Some(a) => a.0.duplicate(),
            None => {
                let empty: Vec<IceOption> = Vec::new();
                assert(empty.deep_view() =~= Seq::<IceOptionView>::empty());
                empty
            },
        };
        let candidates = copy_candidates(
            &find_transport_attributes::<Candidate>(first, &sdp.attributes),
        );
        let fingerprints = file_fingerprints(
            &find_transport_attributes::<Fingerprint>(first, &sdp.attributes),
        );
        let setup_role = match find_transport_attribute::<Setup>(first, &sdp.attributes) {
            Some(a) => a.0,
            None => SetupRole::ActivePassive,
        };
        let allow_mixed_extension_maps = find_transport_attribute::<ExtensionMapAllowMixed>(
            first,
            &sdp.attributes,
        ).is_some();
        Ok(
            UnifiedBundleSession {
                id: sdp.origin.session_id,
                version: sdp.origin.session_version,
                ice_lite: sdp.attributes.get::<IceLite>().is_some(),
                ice_ufrag,
                ice_pwd,
                ice_options,
                candidates,
                fingerprints,
                setup_role,
                allow_mixed_extension_maps,
                media_descriptions,
            },
        )
    }

    /// What a text means for negotiation.
    pub fn from_str(text: &str) -> (r: Result<UnifiedBundleSession, String>)
        ensures
            match UnifiedBundleSessionView::from_text(text@) {
                Ok(v) => r is Ok && r->Ok_0.deep_view() == v,
                Err(message) => r is Err && r->Err_0@ == message,
            },
    {
        match Session::from_str(text) {
            Ok(sdp) => UnifiedBundleSession::from_sdp(&sdp),
            Err(message) => Err(message),
        }
    }
}

/// An entry of an attribute map.
pub type Entry = (Seq<char>, AttributeView);

/// The entry under which a value of type `T` is stored.
pub open spec fn entry<T: NamedAttribute>(v: T::V) -> Entry {
    (T::name(), T::wrapped(v))
}

proof fn lemma_entries_assoc(a: Seq<Entry>, b: Seq<Entry>, c: Seq<Entry>)
    ensures
        (a + b) + c == a + (b + c),
{
    assert((a + b) + c =~= a + (b + c));
}

proof fn lemma_entries_empty(a: Seq<Entry>)
    ensures
        a + Seq::<Entry>::empty() == a,
{
    assert(a + Seq::<Entry>::empty() =~= a);
}

proof fn lemma_entries_push(a: Seq<Entry>, b: Seq<Entry>, e: Entry)
    ensures
        (a + b).push(e) == a + b.push(e),
        a.push(e) == a + seq![e],
{
    assert((a + b).push(e) =~= a + b.push(e));
    assert(a.push(e) =~= a + seq![e]);
}

/// One `candidate` entry for each candidate.
pub open spec fn candidate_entries(candidates: Seq<CandidateView>) -> Seq<Entry>
    decreases candidates.len(),
{
    if candidates.len() == 0 {
        Seq::empty()
    } else {
        candidate_entries(candidates.drop_last()).push(entry::<Candidate>(candidates.last()))
    }
}

/// One `fingerprint` entry for each fingerprint.
pub open spec fn fingerprint_attribute_entries(
    fingerprints: Seq<(FingerprintHashFunctionView, Seq<u8>)>,
) -> Seq<Entry>
    decreases fingerprints.len(),
{
    if fingerprints.len() == 0 {
        Seq::empty()
    } else {
        fingerprint_attribute_entries(fingerprints.drop_last()).push(
            entry::<Fingerprint>(
                FingerprintView {
                    hash_function: fingerprints.last().0,
                    fingerprint: fingerprints.last().1,
                },
            ),
        )
    }
}

/// The entries that describe the transport, which every media section
/// repeats: the RTCP address, the ICE credentials, options and candidates,
/// the fingerprints and the setup role.
pub open spec fn transport_entries(session: UnifiedBundleSessionView) -> Seq<Entry> {
    seq![
        entry::<Rtcp>(
            RtcpView {
                port: 9,
                network_type: Some(NetworkType::Internet),
                address_type: Some(AddressType::Ip4),
                connection_address: Some("0.0.0.0"@),
            },
        ),
        entry::<IceUfrag>(session.ice_ufrag),
        entry::<IcePwd>(session.ice_pwd),
    ] + (if session.ice_options.len() > 0 {
        seq![entry::<IceOptions>(session.ice_options)]
    } else {
        Seq::empty()
    }) + candidate_entries(session.candidates) + fingerprint_attribute_entries(
        session.fingerprints,
    ) + seq![entry::<Setup>(Setup(session.setup_role))]
}

/// One `extmap` entry for each header extension.
pub open spec fn extension_entries(extensions: Seq<(Seq<char>, u16)>) -> Seq<Entry>
    decreases extensions.len(),
{
    if extensions.len() == 0 {
        Seq::empty()
    } else {
        extension_entries(extensions.drop_last()).push(
            entry::<ExtensionMap>(
                ExtensionMapView {
                    id: extensions.last().1,
                    direction: None,
                    extension: extensions.last().0,
                    attributes: Seq::empty(),
                },
            ),
        )
    }
}

/// The entry that says the direction.
pub open spec fn direction_entry(direction: MediaDirection) -> Entry {
    match direction {
        MediaDirection::SendOnly => entry::<SendOnly>(SendOnly),
        MediaDirection::ReceiveOnly => entry::<ReceiveOnly>(ReceiveOnly),
        MediaDirection::SendReceive => entry::<SendReceive>(SendReceive),
        MediaDirection::Inactive => entry::<Inactive>(Inactive),
    }
}

/// The entries for the RTCP flags that are set.
pub open spec fn flag_entries(section: RtpMediaDescriptionView) -> Seq<Entry> {
    (if section.rtcp_mux {
        seq![entry::<RtcpMux>(RtcpMux)]
    } else {
        Seq::empty()
    }) + (if section.rtcp_mux_only {
        seq![entry::<RtcpMuxOnly>(RtcpMuxOnly)]
    } else {
        Seq::empty()
    }) + (if section.rtcp_reduced_size {
        seq![entry::<RtcpReducedSize>(RtcpReducedSize)]
    } else {
        Seq::empty()
    })
}

/// One `rtcp-fb` entry for each feedback of a payload.
pub open spec fn feedback_attribute_entries(
    payload: u8,
    feedback: Seq<(Seq<char>, Option<Seq<char>>)>,
) -> Seq<Entry>
    decreases feedback.len(),
{
    if feedback.len() == 0 {
        Seq::empty()
    } else {
        feedback_attribute_entries(payload, feedback.drop_last()).push(
            entry::<RtcpFeedback>(
                RtcpFeedbackView {
                    payload: Some(payload),
                    id: feedback.last().0,
                    param: feedback.last().1,
                },
            ),
        )
    }
}

/// The parameters as `key=value` with semicolons between them.
pub open spec fn parameters_text(parameters: Seq<(Seq<char>, Seq<char>)>) -> Seq<char>
    decreases parameters.len(),
{
    if parameters.len() == 0 {
        Seq::empty()
    } else if parameters.len() == 1 {
        parameters[0].0 + seq!['='] + parameters[0].1
    } else {
        parameters_text(parameters.drop_last()) + seq![';'] + parameters.last().0 + seq!['=']
            + parameters.last().1
    }
}

/// The entries of one payload: its `rtpmap`, its feedback, its `fmtp`
/// where it has parameters, and the `rtpmap` and `fmtp` of its
/// retransmission payload where it has one.
pub open spec fn payload_entries(payload: RtpPayloadView) -> Seq<Entry> {
    seq![
        entry::<RtpMap>(
            RtpMapView {
                payload: payload.payload_type.0,
                name: payload.name.text(),
                clock: payload.clock,
                channels: payload.channels,
            },
        ),
    ] + feedback_attribute_entries(payload.payload_type.0, payload.supported_feedback) + (
    if payload.parameters.len() > 0 {
        seq![
            entry::<FormatParameters>(
                FormatParametersView {
                    payload: payload.payload_type.0,
                    parameters: parameters_text(payload.parameters),
                },
            ),
        ]
    } else {
        Seq::empty()
    }) + (match payload.rtx_payload_type {
        Some(rtx) => seq![
            entry::<RtpMap>(
                RtpMapView {
                    payload: rtx.0,
                    name: "rtx"@,
                    clock: payload.clock,
                    channels: payload.channels,
                },
            ),
            entry::<FormatParameters>(
                FormatParametersView {
                    payload: rtx.0,
                    parameters: "apt="@ + decimal(payload.payload_type.0 as nat),
                },
            ),
        ],
        None => Seq::empty(),
    })
}

/// The entries of all payloads, in order.
pub open spec fn payloads_entries(payloads: Seq<RtpPayloadView>) -> Seq<Entry>
    decreases payloads.len(),
{
    if payloads.len() == 0 {
        Seq::empty()
    } else {
        payloads_entries(payloads.drop_last()) + payload_entries(payloads.last())
    }
}

/// The formats of the `m=` line: every payload type, each followed by its
/// retransmission payload type where it has one.
pub open spec fn payload_formats(payloads: Seq<RtpPayloadView>) -> Seq<Seq<char>>
    decreases payloads.len(),
{
    if payloads.len() == 0 {
        Seq::empty()
    } else {
        payload_formats(payloads.drop_last()).push(decimal(payloads.last().payload_type.0 as nat))
            + match payloads.last().rtx_payload_type {
            Some(rtx) => seq![decimal(rtx.0 as nat)],
            None => Seq::empty(),
        }
    }
}

/// The `ssrc` entry that gives a source its canonical name.
pub open spec fn cname_entry(ssrc: Ssrc, cname: Seq<char>) -> Entry {
    entry::<SsrcAttribute>(
        SsrcAttributeView { ssrc: ssrc.0, name: "cname"@, value: Some(cname) },
    )
}

/// The entries of one encoding: a `rid`, or the canonical name of the
/// sending source and, where there is a retransmission source, its name
/// and the group that pairs the two.
pub open spec fn encoding_entries(encoding: RtpEncodingView) -> Seq<Entry> {
    match encoding {
        RtpEncodingView::Rid { rid, direction } => seq![
            entry::<Rid>(RidView { rid, direction, restrictions: None }),
        ],
        RtpEncodingView::SendingSsrc { cname, ssrc, rtx_ssrc } => seq![cname_entry(ssrc, cname)]
            + match rtx_ssrc {
            Some(rtx) => seq![
                cname_entry(rtx, cname),
                entry::<SsrcGroup>(
                    SsrcGroupView {
                        semantics: SsrcGroupSemanticsView::FlowIdentification,
                        ssrcs: seq![ssrc.0, rtx.0],
                    },
                ),
            ],
            None => Seq::empty(),
        },
    }
}

/// The entries of all encodings, in order.
pub open spec fn encodings_entries(encodings: Seq<RtpEncodingView>) -> Seq<Entry>
    decreases encodings.len(),
{
    if encodings.len() == 0 {
        Seq::empty()
    } else {
        encodings_entries(encodings.drop_last()) + encoding_entries(encodings.last())
    }
}

/// The RIDs of the encodings with the given direction, in order.
pub open spec fn rids_with(encodings: Seq<RtpEncodingView>, wanted: RidDirection) -> Seq<Seq<char>>
    decreases encodings.len(),
{
    if encodings.len() == 0 {
        Seq::empty()
    } else {
        match encodings.last() {
            RtpEncodingView::Rid { rid, direction } => if direction == wanted {
                rids_with(encodings.drop_last(), wanted).push(rid)
            } else {
                rids_with(encodings.drop_last(), wanted)
            },
            _ => rids_with(encodings.drop_last(), wanted),
        }
    }
}

/// The value of the `simulcast` attribute: the RIDs that are sent and the
/// RIDs that are received, each list led by its direction.
pub open spec fn simulcast_value(encodings: Seq<RtpEncodingView>) -> Seq<char> {
    let send = rids_with(encodings, RidDirection::Send);
    let recv = rids_with(encodings, RidDirection::Receive);
    (if send.len() > 0 {
        "send "@ + join(send, seq![';'])
    } else {
        Seq::empty()
    }) + (if send.len() > 0 && recv.len() > 0 {
        seq![' ']
    } else {
        Seq::empty()
    }) + (if recv.len() > 0 {
        "recv "@ + join(recv, seq![';'])
    } else {
        Seq::empty()
    })
}

/// The `simulcast` entry, where an encoding is named by a RID.
pub open spec fn simulcast_entries(encodings: Seq<RtpEncodingView>) -> Seq<Entry> {
    if rids_with(encodings, RidDirection::Send).len() > 0 || rids_with(
        encodings,
        RidDirection::Receive,
    ).len() > 0 {
        seq![("simulcast"@, AttributeView::Unknown(Some(simulcast_value(encodings))))]
    } else {
        Seq::empty()
    }
}

/// The formats of a section with a payload are not empty.
pub proof fn lemma_payload_formats_are_there(payloads: Seq<RtpPayloadView>)
    requires
        payloads.len() > 0,
    ensures
        payload_formats(payloads).len() > 0,
{
}

impl RtpMediaDescriptionView {
    /// The attributes of the media section that describes this one, in
    /// their fixed order.
    pub open spec fn attributes(self, session: UnifiedBundleSessionView) -> Seq<Entry> {
        transport_entries(session) + seq![entry::<Mid>(self.mid)] + extension_entries(
            self.extensions,
        ) + seq![direction_entry(self.direction)] + flag_entries(self) + payloads_entries(
            self.payloads,
        ) + encodings_entries(self.encodings) + simulcast_entries(self.encodings)
    }

    /// The media section that describes this one in a session with the
    /// given transport.
    pub open spec fn to_sdp(self, session: UnifiedBundleSessionView) -> MediaDescriptionView {
        MediaDescriptionView {
            kind: self.kind,
            port: 9,
            num_ports: None,
            protocol: self.protocol,
            formats: payload_formats(self.payloads),
            title: None,
            connection: Some(
                ConnectionView {
                    network_type: NetworkType::Internet,
                    address_type: AddressType::Ip4,
                    connection_address: "0.0.0.0"@,
                },
            ),
            bandwidths: self.bandwidths,
            encryption_key: None,
            attributes: self.attributes(session),
        }
    }
}

/// The identifiers of the media sections, in order.
pub open spec fn section_mids(sections: Seq<RtpMediaDescriptionView>) -> Seq<Seq<char>> {
    Seq::new(sections.len(), |i: int| sections[i].mid)
}

impl UnifiedBundleSessionView {
    /// The attributes of the session: `ice-lite` where it is set, the
    /// bundle of all media sections where there is one, and
    /// `extmap-allow-mixed` where it is set.
    pub open spec fn attributes(self) -> Seq<Entry> {
        (if self.ice_lite {
            seq![entry::<IceLite>(IceLite)]
        } else {
            Seq::empty()
        }) + (if self.media_descriptions.len() > 0 {
            seq![
                entry::<Group>(
                    GroupView {
                        semantics: GroupSemanticsView::Bundle,
                        mids: section_mids(self.media_descriptions),
                    },
                ),
            ]
        } else {
            Seq::empty()
        }) + (if self.allow_mixed_extension_maps {
            seq![entry::<ExtensionMapAllowMixed>(ExtensionMapAllowMixed)]
        } else {
            Seq::empty()
        })
    }

    /// The description of this session.
    pub open spec fn to_sdp(self) -> SessionView {
        SessionView {
            origin: OriginView {
                username: None,
                session_id: self.id,
                session_version: self.version,
                network_type: NetworkType::Internet,
                address_type: AddressType::Ip4,
                unicast_address: "127.0.0.1"@,
            },
            name: None,
            information: None,
            uri: None,
            email_address: None,
            phone_number: None,
            connection: None,
            bandwidths: Seq::empty(),
            times: seq![
                TimeView {
                    start: 0,
                    stop: 0,
                    repeat_times: Seq::empty(),
                    time_zone_adjustments: Seq::empty(),
                },
            ],
            encryption_key: None,
            attributes: self.attributes(),
            media_descriptions: self.media_descriptions.map_values(
                |m: RtpMediaDescriptionView| m.to_sdp(self),
            ),
        }
    }
}

proof fn lemma_entries_wf_concat(a: Seq<Entry>, b: Seq<Entry>)
    requires
        entries_wf(a),
        entries_wf(b),
    ensures
        entries_wf(a + b),
{
    assert forall|j: int| 0 <= j < (a + b).len() implies (#[trigger] (a + b)[j]).1.wf() by {
        if j < a.len() {
            assert((a + b)[j] == a[j]);
        } else {
            assert((a + b)[j] == b[j - a.len()]);
        }
    }
}

proof fn lemma_candidate_entries_wf(candidates: Seq<CandidateView>)
    requires
        forall|k: int| 0 <= k < candidates.len() ==> (#[trigger] candidates[k]).wf(),
    ensures
        entries_wf(candidate_entries(candidates)),
    decreases candidates.len(),
{
    if candidates.len() > 0 {
        let head = candidates.drop_last();
        assert forall|k: int| 0 <= k < head.len() implies (#[trigger] head[k]).wf() by {
            assert(head[k] == candidates[k]);
        }
        lemma_candidate_entries_wf(head);
        assert(candidates.last() == candidates[candidates.len() - 1]);
        lemma_entries_wf_concat(
            candidate_entries(head),
            seq![entry::<Candidate>(candidates.last())],
        );
        assert(candidate_entries(candidates) =~= candidate_entries(head) + seq![
            entry::<Candidate>(candidates.last()),
        ]);
    }
}

proof fn lemma_fingerprint_entries_wf(fingerprints: Seq<(FingerprintHashFunctionView, Seq<u8>)>)
    ensures
        entries_wf(fingerprint_attribute_entries(fingerprints)),
    decreases fingerprints.len(),
{
    if fingerprints.len() > 0 {
        lemma_fingerprint_entries_wf(fingerprints.drop_last());
        let all = fingerprint_attribute_entries(fingerprints);
        let head = fingerprint_attribute_entries(fingerprints.drop_last());
        assert forall|j: int| 0 <= j < all.len() implies (#[trigger] all[j]).1.wf() by {
            if j < head.len() {
                assert(all[j] == head[j]);
            }
        }
    }
}

proof fn lemma_extension_entries_wf(extensions: Seq<(Seq<char>, u16)>)
    ensures
        entries_wf(extension_entries(extensions)),
    decreases extensions.len(),
{
    if extensions.len() > 0 {
        lemma_extension_entries_wf(extensions.drop_last());
        let all = extension_entries(extensions);
        let head = extension_entries(extensions.drop_last());
        assert forall|j: int| 0 <= j < all.len() implies (#[trigger] all[j]).1.wf() by {
            if j < head.len() {
                assert(all[j] == head[j]);
            }
        }
    }
}

proof fn lemma_feedback_entries_wf(payload: u8, feedback: Seq<(Seq<char>, Option<Seq<char>>)>)
    ensures
        entries_wf(feedback_attribute_entries(payload, feedback)),
    decreases feedback.len(),
{
    if feedback.len() > 0 {
        lemma_feedback_entries_wf(payload, feedback.drop_last());
        let all = feedback_attribute_entries(payload, feedback);
        let head = feedback_attribute_entries(payload, feedback.drop_last());
        assert forall|j: int| 0 <= j < all.len() implies (#[trigger] all[j]).1.wf() by {
            if j < head.len() {
                assert(all[j] == head[j]);
            }
        }
    }
}

proof fn lemma_payloads_entries_wf(payloads: Seq<RtpPayloadView>)
    ensures
        entries_wf(payloads_entries(payloads)),
    decreases payloads.len(),
{
    if payloads.len() > 0 {
        lemma_payloads_entries_wf(payloads.drop_last());
        let payload = payloads.last();
        lemma_feedback_entries_wf(payload.payload_type.0, payload.supported_feedback);
        let map = seq![
            entry::<RtpMap>(
                RtpMapView {
                    payload: payload.payload_type.0,
                    name: payload.name.text(),
                    clock: payload.clock,
                    channels: payload.channels,
                },
            ),
        ];
        let feedback = feedback_attribute_entries(
            payload.payload_type.0,
            payload.supported_feedback,
        );
        let format: Seq<Entry> = if payload.parameters.len() > 0 {
            seq![
                entry::<FormatParameters>(
                    FormatParametersView {
                        payload: payload.payload_type.0,
                        parameters: parameters_text(payload.parameters),
                    },
                ),
            ]
        } else {
            Seq::empty()
        };
        let repair: Seq<Entry> = match payload.rtx_payload_type {
            Some(rtx) => seq![
                entry::<RtpMap>(
                    RtpMapView {
                        payload: rtx.0,
                        name: "rtx"@,
                        clock: payload.clock,
                        channels: payload.channels,
                    },
                ),
                entry::<FormatParameters>(
                    FormatParametersView {
                        payload: rtx.0,
                        parameters: "apt="@ + decimal(payload.payload_type.0 as nat),
                    },
                ),
            ],
            None => Seq::empty(),
        };
        lemma_entries_wf_concat(map, feedback);
        lemma_entries_wf_concat(map + feedback, format);
        lemma_entries_wf_concat(map + feedback + format, repair);
        lemma_entries_wf_concat(payloads_entries(payloads.drop_last()), payload_entries(payload));
    }
}

proof fn lemma_encodings_entries_wf(encodings: Seq<RtpEncodingView>)
    ensures
        entries_wf(encodings_entries(encodings)),
    decreases encodings.len(),
{
    if encodings.len() > 0 {
        lemma_encodings_entries_wf(encodings.drop_last());
        let one = encoding_entries(encodings.last());
        assert forall|j: int| 0 <= j < one.len() implies (#[trigger] one[j]).1.wf() by {}
        lemma_entries_wf_concat(encodings_entries(encodings.drop_last()), one);
    }
}

/// The description of a well-formed session is well formed, where every
/// media section has a payload.
pub proof fn lemma_to_sdp_is_well_formed(session: UnifiedBundleSessionView)
    requires
        session.wf(),
        forall|k: int|
            0 <= k < session.media_descriptions.len() ==> (
            #[trigger] session.media_descriptions[k]).payloads.len() > 0,
    ensures
        session.to_sdp().wf(),
{
    let sdp = session.to_sdp();
    assert(sdp.bandwidths.len() == 0);
    assert forall|j: int| 0 <= j < sdp.attributes.len() implies (#[trigger] sdp.attributes[j]).1.wf() by {}
    lemma_candidate_entries_wf(session.candidates);
    lemma_fingerprint_entries_wf(session.fingerprints);
    let head: Seq<Entry> = seq![
        entry::<Rtcp>(
            RtcpView {
                port: 9,
                network_type: Some(NetworkType::Internet),
                address_type: Some(AddressType::Ip4),
                connection_address: Some("0.0.0.0"@),
            },
        ),
        entry::<IceUfrag>(session.ice_ufrag),
        entry::<IcePwd>(session.ice_pwd),
    ];
    let options: Seq<Entry> = if session.ice_options.len() > 0 {
        seq![entry::<IceOptions>(session.ice_options)]
    } else {
        Seq::empty()
    };
    let setup: Seq<Entry> = seq![entry::<Setup>(Setup(session.setup_role))];
    lemma_entries_wf_concat(head, options);
    lemma_entries_wf_concat(head + options, candidate_entries(session.candidates));
    lemma_entries_wf_concat(
        head + options + candidate_entries(session.candidates),
        fingerprint_attribute_entries(session.fingerprints),
    );
    lemma_entries_wf_concat(
        head + options + candidate_entries(session.candidates) + fingerprint_attribute_entries(
            session.fingerprints,
        ),
        setup,
    );
    let transport = transport_entries(session);
    assert(entries_wf(transport));
    assert forall|k: int| 0 <= k < sdp.media_descriptions.len() implies (
    #[trigger] sdp.media_descriptions[k]).wf() by {
        let section = session.media_descriptions[k];
        assert(section.wf());
        assert(sdp.media_descriptions[k] == section.to_sdp(session));
        lemma_payload_formats_are_there(section.payloads);
        lemma_extension_entries_wf(section.extensions);
        lemma_payloads_entries_wf(section.payloads);
        lemma_encodings_entries_wf(section.encodings);
        let mid: Seq<Entry> = seq![entry::<Mid>(section.mid)];
        let direction: Seq<Entry> = seq![direction_entry(section.direction)];
        let flags = flag_entries(section);
        assert forall|j: int| 0 <= j < flags.len() implies (#[trigger] flags[j]).1.wf() by {}
        let simulcast = simulcast_entries(section.encodings);
        assert forall|j: int| 0 <= j < simulcast.len() implies (#[trigger] simulcast[j]).1.wf() by {}
        let t1 = transport + mid;
        lemma_entries_wf_concat(transport, mid);
        let t2 = t1 + extension_entries(section.extensions);
        lemma_entries_wf_concat(t1, extension_entries(section.extensions));
        let t3 = t2 + direction;
        lemma_entries_wf_concat(t2, direction);
        let t4 = t3 + flags;
        lemma_entries_wf_concat(t3, flags);
        let t5 = t4 + payloads_entries(section.payloads);
        lemma_entries_wf_concat(t4, payloads_entries(section.payloads));
        let t6 = t5 + encodings_entries(section.encodings);
        lemma_entries_wf_concat(t5, encodings_entries(section.encodings));
        lemma_entries_wf_concat(t6, simulcast);
    }
}

fn append_transport(attributes: &mut AttributeMap, session: &UnifiedBundleSession)
    ensures
        final(attributes).deep_view() == old(attributes).deep_view() + transport_entries(
            session.deep_view(),
        ),
{
    let ghost v = session.deep_view();
    let ghost start = attributes.deep_view();
    attributes.append(
        Rtcp {
            port: 9,
            network_type: Some(NetworkType::Internet),
            address_type: Some(AddressType::Ip4),
            connection_address: Some("0.0.0.0".to_owned()),
        },
    );
    attributes.append(IceUfrag(session.ice_ufrag.clone()));
    attributes.append(IcePwd(session.ice_pwd.clone()));
    let ghost t1 = seq![
        entry::<Rtcp>(
            RtcpView {
                port: 9,
                network_type: Some(NetworkType::Internet),
                address_type: Some(AddressType::Ip4),
                connection_address: Some("0.0.0.0"@),
            },
        ),
        entry::<IceUfrag>(v.ice_ufrag),
        entry::<IcePwd>(v.ice_pwd),
    ];
    assert(attributes.deep_view() =~= start + t1);
    let ghost options: Seq<Entry> = if v.ice_options.len() > 0 {
        seq![entry::<IceOptions>(v.ice_options)]
    } else {
        Seq::empty()
    };
    if session.ice_options.len() > 0 {
        attributes.append(IceOptions(session.ice_options.duplicate()));
    }
    let ghost t2 = t1 + options;
    assert(attributes.deep_view() =~= start + t2);
    let mut i: usize = 0;
    assert(v.candidates.take(0) =~= Seq::<CandidateView>::empty());
    proof {
        lemma_entries_empty(start + t2);
    }
    while i < session.candidates.len()
        invariant
            i <= session.candidates.len(),
            v == session.deep_view(),
            attributes.deep_view() == (start + t2) + candidate_entries(v.candidates.take(i as int)),
        decreases session.candidates.len() - i,
    {
        assert(v.candidates.take(i + 1).drop_last() =~= v.candidates.take(i as int));
        assert(v.candidates.take(i + 1).last() == session.candidates@[i as int].deep_view());
        attributes.append(session.candidates[i].clone());
        proof {
            lemma_entries_push(
                start + t2,
                candidate_entries(v.candidates.take(i as int)),
                entry::<Candidate>(v.candidates[i as int]),
            );
        }
        i += 1;
    }
    assert(v.candidates.take(i as int) =~= v.candidates);
    let ghost t3 = t2 + candidate_entries(v.candidates);
    proof {
        lemma_entries_assoc(start, t2, candidate_entries(v.candidates));
        lemma_entries_empty(start + t3);
    }
    let pairs = fingerprints_pairs(&session.fingerprints);
    let ghost prints = pairs.deep_view();
    let mut j: usize = 0;
    assert(prints.take(0) =~= Seq::<(FingerprintHashFunctionView, Seq<u8>)>::empty());
    while j < pairs.len()
        invariant
            j <= pairs.len(),
            prints == pairs.deep_view(),
            attributes.deep_view() == (start + t3) + fingerprint_attribute_entries(
                prints.take(j as int),
            ),
        decreases pairs.len() - j,
    {
        assert(prints.take(j + 1).drop_last() =~= prints.take(j as int));
        assert(prints.take(j + 1).last() == pairs@[j as int].deep_view());
        attributes.append(
            Fingerprint {
                hash_function: pairs[j].0.clone(),
                fingerprint: crate::types::clone_bytes(&pairs[j].1.0),
            },
        );
        proof {
            lemma_entries_push(
                start + t3,
                fingerprint_attribute_entries(prints.take(j as int)),
                entry::<Fingerprint>(
                    FingerprintView {
                        hash_function: prints[j as int].0,
                        fingerprint: prints[j as int].1,
                    },
                ),
            );
        }
        j += 1;
    }
    assert(prints.take(j as int) =~= prints);
    let ghost t4 = t3 + fingerprint_attribute_entries(v.fingerprints);
    proof {
        lemma_entries_assoc(start, t3, fingerprint_attribute_entries(v.fingerprints));
    }
    attributes.append(Setup(session.setup_role));
    proof {
        lemma_entries_push(start, t4, entry::<Setup>(Setup(v.setup_role)));
        lemma_entries_push(t4, Seq::empty(), entry::<Setup>(Setup(v.setup_role)));
    }
    assert(t4.push(entry::<Setup>(Setup(v.setup_role))) =~= transport_entries(v));
}

fn append_extensions(attributes: &mut AttributeMap, extensions: &Vec<(String, u16)>)
    ensures
        final(attributes).deep_view() == old(attributes).deep_view() + extension_entries(
            extensions.deep_view(),
        ),
{
    let ghost start = attributes.deep_view();
    let ghost views = extensions.deep_view();
    let mut i: usize = 0;
    assert(views.take(0) =~= Seq::<(Seq<char>, u16)>::empty());
    proof {
        lemma_entries_empty(start);
    }
    while i < extensions.len()
        invariant
            i <= extensions.len(),
            views == extensions.deep_view(),
            attributes.deep_view() == start + extension_entries(views.take(i as int)),
        decreases extensions.len() - i,
    {
        assert(views.take(i + 1).drop_last() =~= views.take(i as int));
        assert(views.take(i + 1).last() == extensions@[i as int].deep_view());
        let no_attributes: Vec<String> = Vec::new();
        assert(no_attributes.deep_view() =~= Seq::<Seq<char>>::empty());
        attributes.append(
            ExtensionMap {
                id: extensions[i].1,
                direction: None,
                extension: extensions[i].0.clone(),
                attributes: no_attributes,
            },
        );
        proof {
            lemma_entries_push(
                start,
                extension_entries(views.take(i as int)),
                entry::<ExtensionMap>(
                    ExtensionMapView {
                        id: views[i as int].1,
                        direction: None,
                        extension: views[i as int].0,
                        attributes: Seq::empty(),
                    },
                ),
            );
        }
        i += 1;
    }
    assert(views.take(i as int) =~= views);
}

fn append_direction(attributes: &mut AttributeMap, direction: MediaDirection)
    ensures
        final(attributes).deep_view() == old(attributes).deep_view().push(
            direction_entry(direction),
        ),
{
    match direction {
        MediaDirection::SendOnly => attributes.append(SendOnly),
        MediaDirection::ReceiveOnly => attributes.append(ReceiveOnly),
        MediaDirection::SendReceive => attributes.append(SendReceive),
        MediaDirection::Inactive => attributes.append(Inactive),
    }
}

fn append_flags(attributes: &mut AttributeMap, section: &RtpMediaDescription)
    ensures
        final(attributes).deep_view() == old(attributes).deep_view() + flag_entries(
            section.deep_view(),
        ),
{
    if section.rtcp_mux {
        attributes.append(RtcpMux);
    }
    if section.rtcp_mux_only {
        attributes.append(RtcpMuxOnly);
    }
    if section.rtcp_reduced_size {
        attributes.append(RtcpReducedSize);
    }
    assert(attributes.deep_view() =~= old(attributes).deep_view() + flag_entries(
        section.deep_view(),
    ));
}

pub fn write_parameters(parameters: &Vec<(String, String)>) -> (r: String)
    ensures
        r@ == parameters_text(parameters.deep_view()),
{
    let ghost views = parameters.deep_view();
    let mut out = String::new();
    let mut i: usize = 0;
    assert(views.take(0) =~= Seq::<(Seq<char>, Seq<char>)>::empty());
    while i < parameters.len()
        invariant
            i <= parameters.len(),
            views == parameters.deep_view(),
            out@ == parameters_text(views.take(i as int)),
        decreases parameters.len() - i,
    {
        assert(views.take(i + 1).drop_last() =~= views.take(i as int));
        assert(views.take(i + 1).last() == parameters@[i as int].deep_view());
        if i > 0 {
            out.push(';');
        }
        push_str(&mut out, parameters[i].0.as_str());
        out.push('=');
        push_str(&mut out, parameters[i].1.as_str());
        assert(out@ =~= parameters_text(views.take(i + 1)));
        i += 1;
    }
    assert(views.take(i as int) =~= views);
    out
}

fn append_feedback(attributes: &mut AttributeMap, payload: &RtpPayload)
    ensures
        final(attributes).deep_view() == old(attributes).deep_view() + feedback_attribute_entries(
            payload.payload_type.0,
            payload.deep_view().supported_feedback,
        ),
{
    let ghost start = attributes.deep_view();
    let pairs = feedback_pairs(&payload.supported_feedback);
    let ghost views = pairs.deep_view();
    let ghost pt = payload.payload_type.0;
    let mut i: usize = 0;
    assert(views.take(0) =~= Seq::<(Seq<char>, Option<Seq<char>>)>::empty());
    proof {
        lemma_entries_empty(start);
    }
    while i < pairs.len()
        invariant
            i <= pairs.len(),
            views == pairs.deep_view(),
            pt == payload.payload_type.0,
            attributes.deep_view() == start + feedback_attribute_entries(pt, views.take(i as int)),
        decreases pairs.len() - i,
    {
        assert(views.take(i + 1).drop_last() =~= views.take(i as int));
        assert(views.take(i + 1).last() == pairs@[i as int].deep_view());
        attributes.append(
            RtcpFeedback {
                payload: Some(payload.payload_type.0),
                id: pairs[i].0.clone(),
                param: pairs[i].1.duplicate(),
            },
        );
        proof {
            lemma_entries_push(
                start,
                feedback_attribute_entries(pt, views.take(i as int)),
                entry::<RtcpFeedback>(
                    RtcpFeedbackView {
                        payload: Some(pt),
                        id: views[i as int].0,
                        param: views[i as int].1,
                    },
                ),
            );
        }
        i += 1;
    }
    assert(views.take(i as int) =~= views);
}

fn append_payload(attributes: &mut AttributeMap, payload: &RtpPayload)
    ensures
        final(attributes).deep_view() == old(attributes).deep_view() + payload_entries(
            payload.deep_view(),
        ),
{
    let ghost start = attributes.deep_view();
    let ghost v = payload.deep_view();
    attributes.append(
        RtpMap {
            payload: payload.payload_type.0,
            name: payload.name.to_string(),
            clock: payload.clock,
            channels: payload.channels,
        },
    );
    let ghost t1 = seq![
        entry::<RtpMap>(
            RtpMapView {
                payload: v.payload_type.0,
                name: v.name.text(),
                clock: v.clock,
                channels: v.channels,
            },
        ),
    ];
    assert(attributes.deep_view() =~= start + t1);
    append_feedback(attributes, payload);
    let ghost t2 = t1 + feedback_attribute_entries(v.payload_type.0, v.supported_feedback);
    proof {
        lemma_entries_assoc(
            start,
            t1,
            feedback_attribute_entries(v.payload_type.0, v.supported_feedback),
        );
    }
    let ghost format: Seq<Entry> = if v.parameters.len() > 0 {
        seq![
            entry::<FormatParameters>(
                FormatParametersView {
                    payload: v.payload_type.0,
                    parameters: parameters_text(v.parameters),
                },
            ),
        ]
    } else {
        Seq::empty()
    };
    if payload.parameters.len() > 0 {
        attributes.append(
            FormatParameters {
                payload: payload.payload_type.0,
                parameters: write_parameters(&payload.parameters),
            },
        );
    }
    let ghost t3 = t2 + format;
    assert(attributes.deep_view() =~= start + t3);
    match payload.rtx_payload_type {
        Some(rtx) => {
            attributes.append(
                RtpMap {
                    payload: rtx.0,
                    name: "rtx".to_owned(),
                    clock: payload.clock,
                    channels: payload.channels,
                },
            );
            let mut apt = String::new();
            push_str(&mut apt, "apt=");
            push_decimal(&mut apt, payload.payload_type.0 as u64);
            assert(apt@ =~= "apt="@ + decimal(v.payload_type.0 as nat));
            attributes.append(FormatParameters { payload: rtx.0, parameters: apt });
            assert(attributes.deep_view() =~= start + payload_entries(v));
        },
        None => {
            assert(attributes.deep_view() =~= start + payload_entries(v));
        },
    }
}

fn append_payloads(attributes: &mut AttributeMap, payloads: &Vec<RtpPayload>)
    ensures
        final(attributes).deep_view() == old(attributes).deep_view() + payloads_entries(
            payloads.deep_view(),
        ),
{
    let ghost start = attributes.deep_view();
    let ghost views = payloads.deep_view();
    let mut i: usize = 0;
    assert(views.take(0) =~= Seq::<RtpPayloadView>::empty());
    proof {
        lemma_entries_empty(start);
    }
    while i < payloads.len()
        invariant
            i <= payloads.len(),
            views == payloads.deep_view(),
            attributes.deep_view() == start + payloads_entries(views.take(i as int)),
        decreases payloads.len() - i,
    {
        assert(views.take(i + 1).drop_last() =~= views.take(i as int));
        assert(views.take(i + 1).last() == payloads@[i as int].deep_view());
        append_payload(attributes, &payloads[i]);
        proof {
            lemma_entries_assoc(
                start,
                payloads_entries(views.take(i as int)),
                payload_entries(views[i as int]),
            );
        }
        i += 1;
    }
    assert(views.take(i as int) =~= views);
}

pub fn write_formats(payloads: &Vec<RtpPayload>) -> (r: Vec<String>)
    ensures
        r.deep_view() == payload_formats(payloads.deep_view()),
{
    let ghost views = payloads.deep_view();
    let mut out: Vec<String> = Vec::new();
    let mut i: usize = 0;
    assert(views.take(0) =~= Seq::<RtpPayloadView>::empty());
    assert(out.deep_view() =~= Seq::<Seq<char>>::empty());
    while i < payloads.len()
        invariant
            i <= payloads.len(),
            views == payloads.deep_view(),
            out.deep_view() == payload_formats(views.take(i as int)),
        decreases payloads.len() - i,
    {
        assert(views.take(i + 1).drop_last() =~= views.take(i as int));
        assert(views.take(i + 1).last() == payloads@[i as int].deep_view());
        let ghost before = out.deep_view();
        let format = payloads[i].payload_type.to_string();
        let ghost f = format@;
        out.push(format);
        assert(out.deep_view() =~= before.push(f));
        if let Some(rtx) = payloads[i].rtx_payload_type {
            let ghost middle = out.deep_view();
            let repair = rtx.to_string();
            let ghost g = repair@;
            out.push(repair);
            assert(out.deep_view() =~= middle + seq![g]);
        } else {
            assert(out.deep_view() =~= out.deep_view() + Seq::<Seq<char>>::empty());
        }
        i += 1;
    }
    assert(views.take(i as int) =~= views);
    out
}

fn append_encoding(attributes: &mut AttributeMap, encoding: &RtpEncoding)
    ensures
        final(attributes).deep_view() == old(attributes).deep_view() + encoding_entries(
            encoding.deep_view(),
        ),
{
    let ghost start = attributes.deep_view();
    match encoding {
        RtpEncoding::Rid { rid, direction } => {
            attributes.append(Rid { rid: rid.0.clone(), direction: *direction, restrictions: None });
            assert(attributes.deep_view() =~= start + encoding_entries(encoding.deep_view()));
        },
        RtpEncoding::SendingSsrc { cname, ssrc, rtx_ssrc } => {
            attributes.append(
                SsrcAttribute { ssrc: ssrc.0, name: "cname".to_owned(), value: Some(cname.clone()) },
            );
            match rtx_ssrc {
                Some(rtx) => {
                    attributes.append(
                        SsrcAttribute {
                            ssrc: rtx.0,
                            name: "cname".to_owned(),
                            value: Some(cname.clone()),
                        },
                    );
                    let mut ssrcs: Vec<u32> = Vec::new();
                    ssrcs.push(ssrc.0);
                    ssrcs.push(rtx.0);
                    assert(ssrcs@ =~= seq![ssrc.0, rtx.0]);
                    attributes.append(
                        SsrcGroup { semantics: SsrcGroupSemantics::FlowIdentification, ssrcs },
                    );
                    assert(attributes.deep_view() =~= start + encoding_entries(
                        encoding.deep_view(),
                    ));
                },
                None => {
                    assert(attributes.deep_view() =~= start + encoding_entries(
                        encoding.deep_view(),
                    ));
                },
            }
        },
    }
}

fn append_encodings(attributes: &mut AttributeMap, encodings: &Vec<RtpEncoding>)
    ensures
        final(attributes).deep_view() == old(attributes).deep_view() + encodings_entries(
            encodings.deep_view(),
        ),
{
    let ghost start = attributes.deep_view();
    let ghost views = encodings.deep_view();
    let mut i: usize = 0;
    assert(views.take(0) =~= Seq::<RtpEncodingView>::empty());
    proof {
        lemma_entries_empty(start);
    }
    while i < encodings.len()
        invariant
            i <= encodings.len(),
            views == encodings.deep_view(),
            attributes.deep_view() == start + encodings_entries(views.take(i as int)),
        decreases encodings.len() - i,
    {
        assert(views.take(i + 1).drop_last() =~= views.take(i as int));
        assert(views.take(i + 1).last() == encodings@[i as int].deep_view());
        append_encoding(attributes, &encodings[i]);
        proof {
            lemma_entries_assoc(
                start,
                encodings_entries(views.take(i as int)),
                encoding_entries(views[i as int]),
            );
        }
        i += 1;
    }
    assert(views.take(i as int) =~= views);
}

pub fn collect_rids(encodings: &Vec<RtpEncoding>, wanted: RidDirection) -> (r: Vec<String>)
    ensures
        r.deep_view() == rids_with(encodings.deep_view(), wanted),
{
    let ghost views = encodings.deep_view();
    let mut out: Vec<String> = Vec::new();
    let mut i: usize = 0;
    assert(views.take(0) =~= Seq::<RtpEncodingView>::empty());
    assert(out.deep_view() =~= Seq::<Seq<char>>::empty());
    while i < encodings.len()
        invariant
            i <= encodings.len(),
            views == encodings.deep_view(),
            out.deep_view() == rids_with(views.take(i as int), wanted),
        decreases encodings.len() - i,
    {
        assert(views.take(i + 1).drop_last() =~= views.take(i as int));
        assert(views.take(i + 1).last() == encodings@[i as int].deep_view());
        match &encodings[i] {
            RtpEncoding::Rid { rid, direction } => {
                if *direction == wanted {
                    let ghost before = out.deep_view();
                    out.push(rid.0.clone());
                    assert(out.deep_view() =~= before.push(rid.0@));
                }
            },
            _ => {},
        }
        i += 1;
    }
    assert(views.take(i as int) =~= views);
    out
}

fn append_simulcast(attributes: &mut AttributeMap, encodings: &Vec<RtpEncoding>)
    ensures
        final(attributes).deep_view() == old(attributes).deep_view() + simulcast_entries(
            encodings.deep_view(),
        ),
{
    let ghost start = attributes.deep_view();
    let send = collect_rids(encodings, RidDirection::Send);
    let recv = collect_rids(encodings, RidDirection::Receive);
    let mut value = String::new();
    proof {
        reveal_strlit(";");
        assert(";"@ =~= seq![';']);
    }
    if send.len() > 0 {
        push_str(&mut value, "send ");
        crate::text::push_joined(&mut value, &send, ";");
    }
    if send.len() > 0 && recv.len() > 0 {
        value.push(' ');
    }
    if recv.len() > 0 {
        push_str(&mut value, "recv ");
        crate::text::push_joined(&mut value, &recv, ";");
    }
    assert(value@ =~= simulcast_value(encodings.deep_view()));
    if send.len() > 0 || recv.len() > 0 {
        attributes.append_parsed("simulcast".to_owned(), Attribute::Unknown(Some(value)));
        assert(attributes.deep_view() =~= start + simulcast_entries(encodings.deep_view()));
    } else {
        assert(attributes.deep_view() =~= start + simulcast_entries(encodings.deep_view()));
    }
}

impl RtpMediaDescription {
    fn write_attributes(&self, session: &UnifiedBundleSession) -> (r: AttributeMap)
        ensures
            r.deep_view() == self.deep_view().attributes(session.deep_view()),
    {
        let ghost v = self.deep_view();
        let ghost transport = transport_entries(session.deep_view());
        let mut attributes = AttributeMap::new();
        append_transport(&mut attributes, session);
        assert(attributes.deep_view() =~= transport);
        attributes.append(Mid(self.mid.0.clone()));
        let ghost named = transport + seq![entry::<Mid>(v.mid)];
        proof {
            lemma_entries_push(transport, Seq::empty(), entry::<Mid>(v.mid));
        }
        append_extensions(&mut attributes, &self.extensions);
        append_direction(&mut attributes, self.direction);
        proof {
            lemma_entries_push(
                named + extension_entries(v.extensions),
                Seq::empty(),
                direction_entry(v.direction),
            );
        }
        append_flags(&mut attributes, self);
        append_payloads(&mut attributes, &self.payloads);
        append_encodings(&mut attributes, &self.encodings);
        append_simulcast(&mut attributes, &self.encodings);
        attributes
    }

    /// The media section that describes this one in a session with the
    /// given transport.
    pub fn to_sdp(&self, session: &UnifiedBundleSession) -> (r: MediaDescription)
        ensures
            r.deep_view() == self.deep_view().to_sdp(session.deep_view()),
    {
        MediaDescription {
            kind: self.kind.clone(),
            port: 9,
            num_ports: None,
            protocol: self.protocol.clone(),
            formats: write_formats(&self.payloads),
            title: None,
            connection: Some(
                Connection {
                    network_type: NetworkType::Internet,
                    address_type: AddressType::Ip4,
                    connection_address: "0.0.0.0".to_owned(),
                },
            ),
            bandwidths: self.bandwidths.duplicate(),
            encryption_key: None,
            attributes: self.write_attributes(session),
        }
    }
}

impl UnifiedBundleSession {
    fn write_attributes(&self) -> (r: AttributeMap)
        ensures
            r.deep_view() == self.deep_view().attributes(),
    {
        let ghost v = self.deep_view();
        let mut attributes = AttributeMap::new();
        if self.ice_lite {
            attributes.append(IceLite);
        }
        if self.media_descriptions.len() > 0 {
            let mut mids: Vec<String> = Vec::new();
            let mut i: usize = 0;
            while i < self.media_descriptions.len()
                invariant
                    i <= self.media_descriptions.len(),
                    v == self.deep_view(),
                    mids@.len() == i,
                    forall|j: int|
                        0 <= j < i ==> (#[trigger] mids@[j])@ == v.media_descriptions[j].mid,
                decreases self.media_descriptions.len() - i,
            {
                assert(v.media_descriptions[i as int]
                    == self.media_descriptions@[i as int].deep_view());
                mids.push(self.media_descriptions[i].mid.0.clone());
                i += 1;
            }
            assert(mids.deep_view() =~= section_mids(v.media_descriptions));
            attributes.append(Group { semantics: GroupSemantics::Bundle, mids });
        }
        if self.allow_mixed_extension_maps {
            attributes.append(ExtensionMapAllowMixed);
        }
        assert(attributes.deep_view() =~= v.attributes());
        attributes
    }

    /// The description of this session.
    pub fn to_sdp(&self) -> (r: Session)
        ensures
            r.deep_view() == self.deep_view().to_sdp(),
    {
        let ghost v = self.deep_view();
        let mut media_descriptions: Vec<MediaDescription> = Vec::new();
        let mut i: usize = 0;
        while i < self.media_descriptions.len()
            invariant
                i <= self.media_descriptions.len(),
                v == self.deep_view(),
                media_descriptions@.len() == i,
                forall|j: int|
                    0 <= j < i ==> (#[trigger] media_descriptions@[j]).deep_view()
                        == v.media_descriptions[j].to_sdp(v),
            decreases self.media_descriptions.len() - i,
        {
            assert(v.media_descriptions[i as int]
                == self.media_descriptions@[i as int].deep_view());
            media_descriptions.push(self.media_descriptions[i].to_sdp(self));
            i += 1;
        }
        assert(media_descriptions.deep_view() =~= v.media_descriptions.map_values(
            |m: RtpMediaDescriptionView| m.to_sdp(v),
        ));
        let bandwidths: Vec<(BandwidthType, u64)> = Vec::new();
        assert(bandwidths.deep_view() =~= Seq::<(BandwidthTypeView, u64)>::empty());
        let mut times: Vec<Time> = Vec::new();
        let repeat_times: Vec<crate::sdp::RepeatTime> = Vec::new();
        assert(repeat_times.deep_view() =~= Seq::<crate::sdp::RepeatTimeView>::empty());
        times.push(
            Time { start: 0, stop: 0, repeat_times, time_zone_adjustments: Vec::new() },
        );
        assert(times.deep_view() =~= seq![
            TimeView {
                start: 0,
                stop: 0,
                repeat_times: Seq::empty(),
                time_zone_adjustments: Seq::empty(),
            },
        ]);
        Session {
            origin: Origin {
                username: None,
                session_id: self.id,
                session_version: self.version,
                network_type: NetworkType::Internet,
                address_type: AddressType::Ip4,
                unicast_address: "127.0.0.1".to_owned(),
            },
            name: None,
            information: None,
            uri: None,
            email_address: None,
            phone_number: None,
            connection: None,
            bandwidths,
            times,
            encryption_key: None,
            attributes: self.write_attributes(),
            media_descriptions,
        }
    }

    /// The text of the description of this session.
    pub fn to_string(&self) -> (r: String)
        ensures
            r@ == self.deep_view().to_sdp().text(),
    {
        self.to_sdp().to_string()
    }
}

} // verus!
