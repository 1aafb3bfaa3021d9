//! From an offer to what is asked of the media engine.
//!
//! The answer to an offer is cut down to what the engine supports, given
//! the candidate and the fingerprint of the engine's transport, and turned
//! into the properties, the source groups and the user name of the
//! connection that the engine is asked for.

use vstd::prelude::*;
use crate::attributes::{Candidate, CandidateView};
use crate::duplicate::Duplicate;
use crate::enums::{
    FingerprintHashFunction, FingerprintHashFunctionView, IceCandidateType, IceCandidateTypeView,
    IceTransportType, IceTransportTypeView, MediaType, MediaTypeView, RtpCodecName,
};
use crate::native::{
    MediaFrameType, Properties, PropertyValueView, RtpBundleTransport,
    RtpBundleTransportConnection, RtpBundleTransportConnectionView, RtpIncomingSourceGroupView,
};
use crate::pairs::{distinct_keys, lookup, put};
use crate::text::{decimal, push_decimal, push_str, str_eq};
use crate::types::{hex_bytes, hex_text, CertificateFingerprint};
use crate::webrtc::{
    feedback_retain_supported, filed_under, fingerprints_append, fingerprints_pairs, RtpEncoding, RtpEncodingView, RtpMediaDescription,
    RtpMediaDescriptionView, RtpPayload, RtpPayloadView, UnifiedBundleSession,
    UnifiedBundleSessionView,
};

verus! {

/// The engine carries this payload for this kind of media: Opus, PCMU and
/// PCMA for audio; VP8, VP9, and H264 in packetization mode 1, for video.
pub open spec fn supported_payload(kind: MediaTypeView, payload: RtpPayloadView) -> bool {
    match kind {
        MediaTypeView::Audio => payload.name is Opus || payload.name is Pcmu
            || payload.name is Pcma,
        MediaTypeView::Video => payload.name is Vp8 || payload.name is Vp9 || (payload.name
            is H264 && lookup(payload.parameters, "packetization-mode"@) == Some("1"@)),
        _ => false,
    }
}

/// The engine gives this feedback for this kind of media.
pub open spec fn supported_feedback(kind: MediaTypeView, id: Seq<char>, param: Option<Seq<char>>)
    -> bool {
    kind is Video && ((id == "goog-remb"@ && param is None) || (id == "transport-cc"@ && param
        is None) || (id == "ccm"@ && param == Some("fir"@)) || (id == "nack"@ && param is None)
        || (id == "nack"@ && param == Some("pli"@)))
}

/// The engine understands this header extension for this kind of media.
pub open spec fn supported_extension(kind: MediaTypeView, uri: Seq<char>) -> bool {
    match kind {
        MediaTypeView::Audio => uri == "urn:ietf:params:rtp-hdrext:ssrc-audio-level"@ || uri
            == "urn:ietf:params:rtp-hdrext:sdes:mid"@ || uri
            == "urn:ietf:params:rtp-hdrext:sdes:rtp-stream-id"@ || uri
            == "http://www.webrtc.org/experiments/rtp-hdrext/abs-send-time"@,
        MediaTypeView::Video => uri == "urn:3gpp:video-orientation"@ || uri
            == "http://www.ietf.org/id/draft-holmer-rmcat-transport-wide-cc-extensions-01"@ || uri
            == "urn:ietf:params:rtp-hdrext:sdes:mid"@ || uri
            == "urn:ietf:params:rtp-hdrext:sdes:rtp-stream-id"@ || uri
            == "urn:ietf:params:rtp-hdrext:sdes:repaired-rtp-stream-id"@ || uri
            == "http://www.webrtc.org/experiments/rtp-hdrext/abs-send-time"@,
        _ => false,
    }
}

/// The feedback that stays, in order.
pub open spec fn kept_feedback(kind: MediaTypeView, feedback: Seq<(Seq<char>, Option<Seq<char>>)>)
    -> Seq<(Seq<char>, Option<Seq<char>>)>
    decreases feedback.len(),
{
    if feedback.len() == 0 {
        Seq::empty()
    } else if supported_feedback(kind, feedback.last().0, feedback.last().1) {
        kept_feedback(kind, feedback.drop_last()).push(feedback.last())
    } else {
        kept_feedback(kind, feedback.drop_last())
    }
}

/// The payloads that stay, in order, each with the feedback that stays.
pub open spec fn kept_payloads(kind: MediaTypeView, payloads: Seq<RtpPayloadView>) -> Seq<
    RtpPayloadView,
>
    decreases payloads.len(),
{
    if payloads.len() == 0 {
        Seq::empty()
    } else if supported_payload(kind, payloads.last()) {
        kept_payloads(kind, payloads.drop_last()).push(
            RtpPayloadView {
                supported_feedback: kept_feedback(kind, payloads.last().supported_feedback),
                ..payloads.last()
            },
        )
    } else {
        kept_payloads(kind, payloads.drop_last())
    }
}

/// The header extensions that stay, in order.
pub open spec fn kept_extensions(kind: MediaTypeView, extensions: Seq<(Seq<char>, u16)>) -> Seq<
    (Seq<char>, u16),
>
    decreases extensions.len(),
{
    if extensions.len() == 0 {
        Seq::empty()
    } else if supported_extension(kind, extensions.last().0) {
        kept_extensions(kind, extensions.drop_last()).push(extensions.last())
    } else {
        kept_extensions(kind, extensions.drop_last())
    }
}

/// A media section cut down to what the engine supports. What is not
/// supported is taken out; nothing else changes.
pub open spec fn supported_section(section: RtpMediaDescriptionView) -> RtpMediaDescriptionView {
    RtpMediaDescriptionView {
        payloads: kept_payloads(section.kind, section.payloads),
        extensions: kept_extensions(section.kind, section.extensions),
        ..section
    }
}

/// A session cut down to what the engine supports.
pub open spec fn supported_session(session: UnifiedBundleSessionView) -> UnifiedBundleSessionView {
    UnifiedBundleSessionView {
        media_descriptions: session.media_descriptions.map_values(
            |m: RtpMediaDescriptionView| supported_section(m),
        ),
        ..session
    }
}

/// The payloads that stay are well formed where all were.
pub proof fn lemma_kept_payloads_are_well_formed(kind: MediaTypeView, payloads: Seq<RtpPayloadView>)
    requires
        forall|k: int| 0 <= k < payloads.len() ==> (#[trigger] payloads[k]).wf(),
    ensures
        forall|k: int|
            0 <= k < kept_payloads(kind, payloads).len() ==> (#[trigger] kept_payloads(
                kind,
                payloads,
            )[k]).wf(),
    decreases payloads.len(),
{
    if payloads.len() > 0 {
        let head = payloads.drop_last();
        assert forall|k: int| 0 <= k < head.len() implies (#[trigger] head[k]).wf() by {
            assert(head[k] == payloads[k]);
        }
        lemma_kept_payloads_are_well_formed(kind, head);
        assert(payloads.last() == payloads[payloads.len() - 1]);
        let before = kept_payloads(kind, head);
        let all = kept_payloads(kind, payloads);
        assert forall|k: int| 0 <= k < all.len() implies (#[trigger] all[k]).wf() by {
            if k < before.len() {
                assert(all[k] == before[k]);
            } else {
                assert(all[k].parameters == payloads.last().parameters);
            }
        }
    }
}

/// The header extensions that stay are among those that were there, and
/// hold every URI once where those did.
pub proof fn lemma_kept_extensions_are_distinct(
    kind: MediaTypeView,
    extensions: Seq<(Seq<char>, u16)>,
)
    requires
        distinct_keys(extensions),
    ensures
        distinct_keys(kept_extensions(kind, extensions)),
        forall|k: int|
            0 <= k < kept_extensions(kind, extensions).len() ==> exists|j: int|
                0 <= j < extensions.len() && (#[trigger] extensions[j]).0 == (
                #[trigger] kept_extensions(kind, extensions)[k]).0,
    decreases extensions.len(),
{
    if extensions.len() > 0 {
        let head = extensions.drop_last();
        let last = extensions.last();
        assert forall|a: int, b: int| 0 <= a < b < head.len() implies (#[trigger] head[a]).0 != (
        #[trigger] head[b]).0 by {
            assert(head[a] == extensions[a]);
            assert(head[b] == extensions[b]);
        }
        lemma_kept_extensions_are_distinct(kind, head);
        let before = kept_extensions(kind, head);
        let all = kept_extensions(kind, extensions);
        assert forall|k: int| 0 <= k < all.len() implies exists|j: int|
            0 <= j < extensions.len() && (#[trigger] extensions[j]).0 == (#[trigger] all[k]).0 by {
            if k < before.len() {
                assert(all[k] == before[k]);
                let j = choose|j: int|
                    0 <= j < head.len() && (#[trigger] head[j]).0 == (#[trigger] before[k]).0;
                assert(extensions[j] == head[j]);
            } else {
                assert(all[k] == extensions[extensions.len() - 1]);
            }
        }
        assert forall|a: int, b: int| 0 <= a < b < all.len() implies (#[trigger] all[a]).0 != (
        #[trigger] all[b]).0 by {
            assert(all[a] == before[a]);
            if b < before.len() {
                assert(all[b] == before[b]);
            } else {
                let j = choose|j: int|
                    0 <= j < head.len() && (#[trigger] head[j]).0 == (#[trigger] before[a]).0;
                assert(head[j] == extensions[j]);
                assert(all[b] == extensions[extensions.len() - 1]);
            }
        }
    }
}

/// A well-formed session that is cut down to what the engine supports is
/// well formed.
pub proof fn lemma_supported_session_is_well_formed(session: UnifiedBundleSessionView)
    requires
        session.wf(),
    ensures
        supported_session(session).wf(),
{
    let cut = supported_session(session);
    assert forall|k: int| 0 <= k < cut.media_descriptions.len() implies (
    #[trigger] cut.media_descriptions[k]).wf() by {
        let section = session.media_descriptions[k];
        assert(section.wf());
        lemma_kept_payloads_are_well_formed(section.kind, section.payloads);
        lemma_kept_extensions_are_distinct(section.kind, section.extensions);
    }
}

/// A well-formed answer that is completed is well formed.
pub proof fn lemma_completed_answer_is_well_formed(
    answer: UnifiedBundleSessionView,
    public_ip: Seq<char>,
    port: u16,
    fingerprint: Seq<u8>,
)
    requires
        answer.wf(),
    ensures
        completed_answer(answer, public_ip, port, fingerprint).wf(),
{
    lemma_supported_session_is_well_formed(answer);
    let done = completed_answer(answer, public_ip, port, fingerprint);
    assert forall|k: int| 0 <= k < done.candidates.len() implies (#[trigger] done.candidates[k]).wf() by {
        if k < answer.candidates.len() {
            assert(done.candidates[k] == answer.candidates[k]);
        }
    }
    assert forall|k: int| 0 <= k < done.media_descriptions.len() implies (
    #[trigger] done.media_descriptions[k]).wf() by {
        assert(done.media_descriptions[k] == supported_session(answer).media_descriptions[k]);
    }
}

pub fn is_supported_payload(kind: &MediaType, payload: &RtpPayload) -> (r: bool)
    ensures
        r == supported_payload(kind.deep_view(), payload.deep_view()),
{
    match kind {
        MediaType::Audio => match payload.name {
            RtpCodecName::Opus => true,
            RtpCodecName::Pcmu => true,
            RtpCodecName::Pcma => true,
            _ => false,
        },
        MediaType::Video => match payload.name {
            RtpCodecName::Vp8 => true,
            RtpCodecName::Vp9 => true,
            RtpCodecName::H264 => match crate::pairs::get(
                &payload.parameters,
                "packetization-mode",
            ) {
                Some(mode) => str_eq(mode.as_str(), "1"),
                None => false,
            },
            _ => false,
        },
        _ => false,
    }
}

pub fn is_supported_feedback(kind: &MediaType, id: &str, param: &Option<String>) -> (r: bool)
    ensures
        r == supported_feedback(kind.deep_view(), id@, param.deep_view()),
{
    match kind {
        MediaType::Video => match param {
            None => str_eq(id, "goog-remb") || str_eq(id, "transport-cc") || str_eq(id, "nack"),
            Some(p) => (str_eq(id, "ccm") && str_eq(p.as_str(), "fir")) || (str_eq(id, "nack")
                && str_eq(p.as_str(), "pli")),
        },
        _ => false,
    }
}

pub fn is_supported_extension(kind: &MediaType, uri: &str) -> (r: bool)
    ensures
        r == supported_extension(kind.deep_view(), uri@),
{
    match kind {
        MediaType::Audio => str_eq(uri, "urn:ietf:params:rtp-hdrext:ssrc-audio-level") || str_eq(
            uri,
            "urn:ietf:params:rtp-hdrext:sdes:mid",
        ) || str_eq(uri, "urn:ietf:params:rtp-hdrext:sdes:rtp-stream-id") || str_eq(
            uri,
            "http://www.webrtc.org/experiments/rtp-hdrext/abs-send-time",
        ),
        MediaType::Video => str_eq(uri, "urn:3gpp:video-orientation") || str_eq(
            uri,
            "http://www.ietf.org/id/draft-holmer-rmcat-transport-wide-cc-extensions-01",
        ) || str_eq(uri, "urn:ietf:params:rtp-hdrext:sdes:mid") || str_eq(
            uri,
            "urn:ietf:params:rtp-hdrext:sdes:rtp-stream-id",
        ) || str_eq(uri, "urn:ietf:params:rtp-hdrext:sdes:repaired-rtp-stream-id") || str_eq(
            uri,
            "http://www.webrtc.org/experiments/rtp-hdrext/abs-send-time",
        ),
        _ => false,
    }
}

pub fn keep_supported_payloads(kind: &MediaType, payloads: &Vec<RtpPayload>) -> (r: Vec<RtpPayload>)
    ensures
        r.deep_view() == kept_payloads(kind.deep_view(), payloads.deep_view()),
{
    let ghost views = payloads.deep_view();
    let mut out: Vec<RtpPayload> = Vec::new();
    let mut i: usize = 0;
    assert(views.take(0) =~= Seq::<RtpPayloadView>::empty());
    assert(out.deep_view() =~= Seq::<RtpPayloadView>::empty());
    while i < payloads.len()
        invariant
            i <= payloads.len(),
            views == payloads.deep_view(),
            out.deep_view() == kept_payloads(kind.deep_view(), views.take(i as int)),
        decreases payloads.len() - i,
    {
        assert(views.take(i + 1).drop_last() =~= views.take(i as int));
        assert(views.take(i + 1).last() == payloads@[i as int].deep_view());
        if is_supported_payload(kind, &payloads[i]) {
            let mut payload = payloads[i].duplicate();
            feedback_retain_supported(&mut payload.supported_feedback, kind);
            let ghost before = out.deep_view();
            let ghost v = payload.deep_view();
            out.push(payload);
            assert(out.deep_view() =~= before.push(v));
        }
        i += 1;
    }
    assert(views.take(i as int) =~= views);
    out
}

pub fn keep_supported_extensions(kind: &MediaType, extensions: &Vec<(String, u16)>) -> (r: Vec<
    (String, u16),
>)
    ensures
        r.deep_view() == kept_extensions(kind.deep_view(), extensions.deep_view()),
{
    let ghost views = extensions.deep_view();
    let mut out: Vec<(String, u16)> = Vec::new();
    let mut i: usize = 0;
    assert(views.take(0) =~= Seq::<(Seq<char>, u16)>::empty());
    assert(out.deep_view() =~= Seq::<(Seq<char>, u16)>::empty());
    while i < extensions.len()
        invariant
            i <= extensions.len(),
            views == extensions.deep_view(),
            out.deep_view() == kept_extensions(kind.deep_view(), views.take(i as int)),
        decreases extensions.len() - i,
    {
        assert(views.take(i + 1).drop_last() =~= views.take(i as int));
        assert(views.take(i + 1).last() == extensions@[i as int].deep_view());
        if is_supported_extension(kind, extensions[i].0.as_str()) {
            let ghost before = out.deep_view();
            out.push((extensions[i].0.clone(), extensions[i].1));
            assert(out.deep_view() =~= before.push(views[i as int]));
        }
        i += 1;
    }
    assert(views.take(i as int) =~= views);
    out
}

/// Cuts the codecs, the feedback and the header extensions of a session
/// down to what the engine supports.
pub fn filter_answer_to_capabilities(sdp: &mut UnifiedBundleSession)
    ensures
        final(sdp).deep_view() == supported_session(old(sdp).deep_view()),
{
    let ghost before = sdp.deep_view();
    let mut sections: Vec<RtpMediaDescription> = Vec::new();
    let mut i: usize = 0;
    while i < sdp.media_descriptions.len()
        invariant
            i <= sdp.media_descriptions.len(),
            *sdp == *old(sdp),
            before == sdp.deep_view(),
            sections@.len() == i,
            forall|j: int|
                0 <= j < i ==> (#[trigger] sections@[j]).deep_view() == supported_section(
                    before.media_descriptions[j],
                ),
        decreases sdp.media_descriptions.len() - i,
    {
        let section = &sdp.media_descriptions[i];
        assert(before.media_descriptions[i as int] == section.deep_view());
        let kept = RtpMediaDescription {
            kind: section.kind.clone(),
            port: section.port,
            protocol: section.protocol.clone(),
            bandwidths: section.bandwidths.duplicate(),
            mid: section.mid.clone(),
            payloads: keep_supported_payloads(&section.kind, &section.payloads),
            direction: section.direction,
            encodings: section.encodings.duplicate(),
            extensions: keep_supported_extensions(&section.kind, &section.extensions),
            rtcp_mux: section.rtcp_mux,
            rtcp_mux_only: section.rtcp_mux_only,
            rtcp_reduced_size: section.rtcp_reduced_size,
        };
        sections.push(kept);
        i += 1;
    }
    assert(sections.deep_view() =~= before.media_descriptions.map_values(
        |m: RtpMediaDescriptionView| supported_section(m),
    ));
    sdp.media_descriptions = sections;
}

/// A count as a property holds it: the number, or the greatest value of a
/// property where the number is greater.
pub open spec fn count_value(n: nat) -> i32 {
    if n <= 0x7fff_ffff {
        n as i32
    } else {
        0x7fff_ffffi32
    }
}

pub fn count_of(n: usize) -> (r: i32)
    ensures
        r == count_value(n as nat),
{
    if n <= 0x7fff_ffff {
        n as i32
    } else {
        0x7fff_ffff
    }
}

/// The key `<kind><group><i><field>`.
pub open spec fn indexed_key(kind: Seq<char>, group: Seq<char>, i: nat, field: Seq<char>) -> Seq<
    char,
> {
    kind + group + decimal(i) + field
}

pub fn make_indexed_key(kind: &str, group: &str, i: usize, field: &str) -> (r: String)
    ensures
        r@ == indexed_key(kind@, group@, i as nat, field@),
{
    let mut key = String::new();
    push_str(&mut key, kind);
    push_str(&mut key, group);
    push_decimal(&mut key, i as u64);
    push_str(&mut key, field);
    assert(key@ =~= indexed_key(kind@, group@, i as nat, field@));
    key
}

/// The key `<kind><name>`.
pub fn make_key(kind: &str, name: &str) -> (r: String)
    ensures
        r@ == kind@ + name@,
{
    let mut key = String::new();
    push_str(&mut key, kind);
    push_str(&mut key, name);
    assert(key@ =~= kind@ + name@);
    key
}

pub type PropertyEntries = Seq<(Seq<char>, PropertyValueView)>;

/// The properties with those of payload `i` of a kind of media: its codec,
/// its payload type and its retransmission payload type where it has one.
pub open spec fn with_codec(
    properties: PropertyEntries,
    kind: Seq<char>,
    i: nat,
    payload: RtpPayloadView,
) -> PropertyEntries {
    let named = put(
        properties,
        indexed_key(kind, ".codecs."@, i, ".codec"@),
        PropertyValueView::Text(payload.name.text()),
    );
    let typed = put(
        named,
        indexed_key(kind, ".codecs."@, i, ".pt"@),
        PropertyValueView::Int(payload.payload_type.0 as i32),
    );
    match payload.rtx_payload_type {
        Some(rtx) => put(
            typed,
            indexed_key(kind, ".codecs."@, i, ".rtx"@),
            PropertyValueView::Int(rtx.0 as i32),
        ),
        None => typed,
    }
}

/// The properties with those of the first `n` payloads.
pub open spec fn with_codecs(
    properties: PropertyEntries,
    kind: Seq<char>,
    payloads: Seq<RtpPayloadView>,
    n: nat,
) -> PropertyEntries
    decreases n,
{
    if n == 0 {
        properties
    } else {
        with_codec(
            with_codecs(properties, kind, payloads, (n - 1) as nat),
            kind,
            (n - 1) as nat,
            payloads[n - 1],
        )
    }
}

/// The properties with those of header extension `i`: its identifier and
/// its URI.
pub open spec fn with_extension(
    properties: PropertyEntries,
    kind: Seq<char>,
    i: nat,
    extension: (Seq<char>, u16),
) -> PropertyEntries {
    put(
        put(
            properties,
            indexed_key(kind, ".ext."@, i, ".id"@),
            PropertyValueView::Int(extension.1 as i32),
        ),
        indexed_key(kind, ".ext."@, i, ".uri"@),
        PropertyValueView::Text(extension.0),
    )
}

/// The properties with those of the first `n` header extensions.
pub open spec fn with_extensions(
    properties: PropertyEntries,
    kind: Seq<char>,
    extensions: Seq<(Seq<char>, u16)>,
    n: nat,
) -> PropertyEntries
    decreases n,
{
    if n == 0 {
        properties
    } else {
        with_extension(
            with_extensions(properties, kind, extensions, (n - 1) as nat),
            kind,
            (n - 1) as nat,
            extensions[n - 1],
        )
    }
}

/// The properties with those of a media section: its codecs and their
/// number, its header extensions and their number, all under the kind of
/// the section.
pub open spec fn with_media(properties: PropertyEntries, section: RtpMediaDescriptionView)
    -> PropertyEntries {
    let kind = section.kind.text();
    let codecs = with_codecs(properties, kind, section.payloads, section.payloads.len());
    let counted = put(
        codecs,
        kind + ".codecs.length"@,
        PropertyValueView::Int(count_value(section.payloads.len())),
    );
    let extensions = with_extensions(
        counted,
        kind,
        section.extensions,
        section.extensions.len(),
    );
    put(
        extensions,
        kind + ".ext.length"@,
        PropertyValueView::Int(count_value(section.extensions.len())),
    )
}

/// Adds the properties of a media section.
pub fn add_rtp_properties_from_media_description(
    properties: &mut Properties,
    media_description: &RtpMediaDescription,
)
    ensures
        final(properties).deep_view() == with_media(
            old(properties).deep_view(),
            media_description.deep_view(),
        ),
        old(properties).wf() ==> final(properties).wf(),
{
    let ghost v = media_description.deep_view();
    let ghost start = properties.deep_view();
    let kind = media_description.kind.as_str();
    let mut i: usize = 0;
    while i < media_description.payloads.len()
        invariant
            i <= media_description.payloads.len(),
            v == media_description.deep_view(),
            kind@ == v.kind.text(),
            properties.deep_view() == with_codecs(start, kind@, v.payloads, i as nat),
            old(properties).wf() ==> properties.wf(),
        decreases media_description.payloads.len() - i,
    {
        let payload = &media_description.payloads[i];
        assert(v.payloads[i as int] == payload.deep_view());
        properties.set_string(
            make_indexed_key(kind, ".codecs.", i, ".codec").as_str(),
            payload.name.as_str(),
        );
        properties.set_int(
            make_indexed_key(kind, ".codecs.", i, ".pt").as_str(),
            payload.payload_type.0 as i32,
        );
        if let Some(rtx) = payload.rtx_payload_type {
            properties.set_int(make_indexed_key(kind, ".codecs.", i, ".rtx").as_str(), rtx.0 as i32);
        }
        i += 1;
    }
    properties.set_int(
        make_key(kind, ".codecs.length").as_str(),
        count_of(media_description.payloads.len()),
    );
    let ghost counted = properties.deep_view();
    let mut j: usize = 0;
    while j < media_description.extensions.len()
        invariant
            j <= media_description.extensions.len(),
            v == media_description.deep_view(),
            kind@ == v.kind.text(),
            properties.deep_view() == with_extensions(counted, kind@, v.extensions, j as nat),
            old(properties).wf() ==> properties.wf(),
        decreases media_description.extensions.len() - j,
    {
        let extension = &media_description.extensions[j];
        assert(v.extensions[j as int] == extension.deep_view());
        properties.set_int(
            make_indexed_key(kind, ".ext.", j, ".id").as_str(),
            extension.1 as i32,
        );
        properties.set_string(
            make_indexed_key(kind, ".ext.", j, ".uri").as_str(),
            extension.0.as_str(),
        );
        j += 1;
    }
    properties.set_int(
        make_key(kind, ".ext.length").as_str(),
        count_of(media_description.extensions.len()),
    );
}

/// The first media section from `i` on whose kind is the same as `kind`.
pub open spec fn first_of_kind(
    sections: Seq<RtpMediaDescriptionView>,
    i: int,
    kind: MediaTypeView,
) -> Option<RtpMediaDescriptionView>
    decreases sections.len() - i,
{
    if i < 0 || i >= sections.len() {
        None
    } else if sections[i].kind.same(kind) {
        Some(sections[i])
    } else {
        first_of_kind(sections, i + 1, kind)
    }
}

pub fn find_first_of_kind<'a>(sections: &'a Vec<RtpMediaDescription>, kind: &MediaType) -> (r:
    Option<&'a RtpMediaDescription>)
    ensures
        r.deep_view() == first_of_kind(sections.deep_view(), 0, kind.deep_view()),
{
    let ghost views = sections.deep_view();
    let mut i: usize = 0;
    while i < sections.len()
        invariant
            i <= sections.len(),
            views == sections.deep_view(),
            first_of_kind(views, 0, kind.deep_view()) == first_of_kind(
                views,
                i as int,
                kind.deep_view(),
            ),
        decreases sections.len() - i,
    {
        assert(views[i as int] == sections@[i as int].deep_view());
        if sections[i].kind == *kind {
            return Some(&sections[i]);
        }
        i += 1;
    }
    None
}

/// The properties of the media of a session: those of its first audio
/// section, then those of its first video section.
pub open spec fn rtp_properties(session: UnifiedBundleSessionView) -> PropertyEntries {
    let audio = match first_of_kind(session.media_descriptions, 0, MediaTypeView::Audio) {
        Some(section) => with_media(Seq::empty(), section),
        None => Seq::empty(),
    };
    match first_of_kind(session.media_descriptions, 0, MediaTypeView::Video) {
        Some(section) => with_media(audio, section),
        None => audio,
    }
}

pub fn get_rtp_properties_from_sdp(sdp: &UnifiedBundleSession) -> (r: Properties)
    ensures
        r.deep_view() == rtp_properties(sdp.deep_view()),
        r.wf(),
{
    let mut properties = Properties::new();
    if let Some(section) = find_first_of_kind(&sdp.media_descriptions, &MediaType::Audio) {
        add_rtp_properties_from_media_description(&mut properties, section);
    }
    if let Some(section) = find_first_of_kind(&sdp.media_descriptions, &MediaType::Video) {
        add_rtp_properties_from_media_description(&mut properties, section);
    }
    properties
}

/// The priority of the one host candidate of the engine.
pub const HOST_CANDIDATE_PRIORITY: u32 = 2130706175;

/// The host candidate of the engine's transport: UDP on the public address
/// and the port that the transport listens on.
pub open spec fn host_candidate(public_ip: Seq<char>, port: u16) -> CandidateView {
    CandidateView {
        foundation: "1"@,
        component: 1,
        transport: IceTransportTypeView::Udp,
        priority: HOST_CANDIDATE_PRIORITY,
        address: public_ip,
        port,
        kind: IceCandidateTypeView::Host,
        rel_addr: None,
        rel_port: None,
        unknown: Seq::empty(),
        tcp_type: None,
    }
}

pub fn make_host_candidate(public_ip: &str, port: u16) -> (r: Candidate)
    ensures
        r.deep_view() == host_candidate(public_ip@, port),
{
    let unknown: Vec<(String, String)> = Vec::new();
    assert(unknown.deep_view() =~= Seq::<(Seq<char>, Seq<char>)>::empty());
    Candidate {
        foundation: "1".to_owned(),
        component: 1,
        transport: IceTransportType::Udp,
        priority: HOST_CANDIDATE_PRIORITY,
        address: public_ip.to_owned(),
        port,
        kind: IceCandidateType::Host,
        rel_addr: None,
        rel_port: None,
        unknown,
        tcp_type: None,
    }
}

/// The answer as it is sent: cut down to what the engine supports, ICE
/// lite, with the host candidate of the engine after its candidates and
/// the SHA-256 fingerprint of the engine after its fingerprints.
pub open spec fn completed_answer(
    answer: UnifiedBundleSessionView,
    public_ip: Seq<char>,
    port: u16,
    fingerprint: Seq<u8>,
) -> UnifiedBundleSessionView {
    UnifiedBundleSessionView {
        ice_lite: true,
        candidates: answer.candidates.push(host_candidate(public_ip, port)),
        fingerprints: answer.fingerprints.push(
            (filed_under(answer.fingerprints, FingerprintHashFunctionView::Sha256), fingerprint),
        ),
        ..supported_session(answer)
    }
}

/// Completes an answer with what the engine's transport gives: the port it
/// listens on and its fingerprint, written in hexadecimal with colons. A
/// fingerprint that is not so written is refused.
pub fn complete_answer(
    answer: UnifiedBundleSession,
    public_ip: &str,
    port: u16,
    fingerprint: &str,
) -> (r: Result<UnifiedBundleSession, String>)
    ensures
        match hex_bytes(fingerprint@, 0, true) {
            Some(bytes) => r is Ok && r->Ok_0.deep_view() == completed_answer(
                answer.deep_view(),
                public_ip@,
                port,
                bytes,
            ),
            None => r is Err && r->Err_0@ == "malformed certificate fingerprint"@,
        },
{
    let ours = match CertificateFingerprint::from_str(fingerprint) {
        Ok(f) => f,
        Err(_) => {
            return Err("malformed certificate fingerprint".to_owned());
        },
    };
    let mut answer = answer;
    filter_answer_to_capabilities(&mut answer);
    answer.ice_lite = true;
    let ghost before = answer.candidates.deep_view();
    answer.candidates.push(make_host_candidate(public_ip, port));
    assert(answer.candidates.deep_view() =~= before.push(host_candidate(public_ip@, port)));
    fingerprints_append(&mut answer.fingerprints, FingerprintHashFunction::Sha256, ours);
    Ok(answer)
}

/// The bytes of the first fingerprint with the same hash function.
pub open spec fn fingerprint_of(
    fingerprints: Seq<(FingerprintHashFunctionView, Seq<u8>)>,
    i: int,
    hash_function: FingerprintHashFunctionView,
) -> Option<Seq<u8>>
    decreases fingerprints.len() - i,
{
    if i < 0 || i >= fingerprints.len() {
        None
    } else if fingerprints[i].0.same(hash_function) {
        Some(fingerprints[i].1)
    } else {
        fingerprint_of(fingerprints, i + 1, hash_function)
    }
}

/// The first fingerprint of a session with the same hash function.
pub fn find_fingerprint(session: &UnifiedBundleSession, hash_function: &FingerprintHashFunction)
    -> (r: Option<CertificateFingerprint>)
    ensures
        r.deep_view() == fingerprint_of(
            session.deep_view().fingerprints,
            0,
            hash_function.deep_view(),
        ),
{
    let pairs = fingerprints_pairs(&session.fingerprints);
    let ghost views = pairs.deep_view();
    let mut i: usize = 0;
    while i < pairs.len()
        invariant
            i <= pairs.len(),
            views == pairs.deep_view(),
            views == session.deep_view().fingerprints,
            fingerprint_of(views, 0, hash_function.deep_view()) == fingerprint_of(
                views,
                i as int,
                hash_function.deep_view(),
            ),
        decreases pairs.len() - i,
    {
        assert(views[i as int] == pairs@[i as int].deep_view());
        if pairs[i].0.eq(hash_function) {
            let found = CertificateFingerprint(crate::types::clone_bytes(&pairs[i].1.0));
            assert(views[i as int].0.same(hash_function.deep_view()));
            return Some(found);
        }
        i += 1;
    }
    None
}

/// The properties of the connection: the ICE credentials of both sides,
/// and the DTLS role and SHA-256 fingerprint of the offerer.
pub open spec fn connection_properties(
    offer: UnifiedBundleSessionView,
    answer: UnifiedBundleSessionView,
    fingerprint: Seq<u8>,
) -> PropertyEntries {
    let set1 = put(Seq::empty(), "ice.localUsername"@, PropertyValueView::Text(answer.ice_ufrag));
    let set2 = put(set1, "ice.localPassword"@, PropertyValueView::Text(answer.ice_pwd));
    let set3 = put(set2, "ice.remoteUsername"@, PropertyValueView::Text(offer.ice_ufrag));
    let set4 = put(set3, "ice.remotePassword"@, PropertyValueView::Text(offer.ice_pwd));
    let set5 = put(set4, "dtls.setup"@, PropertyValueView::Text(offer.setup_role.text()));
    let set6 = put(set5, "dtls.hash"@, PropertyValueView::Text("SHA-256"@));
    let set7 = put(set6, "dtls.fingerprint"@, PropertyValueView::Text(hex_text(fingerprint)));
    let set8 = put(set7, "disableSTUNKeepAlive"@, PropertyValueView::Bool(false));
    put(set8, "srtpProtectionProfiles"@, PropertyValueView::Text(Seq::empty()))
}

pub fn make_connection_properties(
    offer: &UnifiedBundleSession,
    answer: &UnifiedBundleSession,
    fingerprint: &CertificateFingerprint,
) -> (r: Properties)
    ensures
        r.deep_view() == connection_properties(
            offer.deep_view(),
            answer.deep_view(),
            fingerprint.deep_view(),
        ),
        r.wf(),
{
    let mut properties = Properties::new();
    properties.set_string("ice.localUsername", answer.ice_ufrag.as_str());
    properties.set_string("ice.localPassword", answer.ice_pwd.as_str());
    properties.set_string("ice.remoteUsername", offer.ice_ufrag.as_str());
    properties.set_string("ice.remotePassword", offer.ice_pwd.as_str());
    properties.set_string("dtls.setup", offer.setup_role.as_str());
    properties.set_string("dtls.hash", "SHA-256");
    properties.set_string("dtls.fingerprint", fingerprint.to_string().as_str());
    properties.set_bool("disableSTUNKeepAlive", false);
    let none = String::new();
    properties.set_string("srtpProtectionProfiles", none.as_str());
    properties
}

/// The user name of the connection: the fragment of the answerer, a colon
/// and the fragment of the offerer.
pub open spec fn connection_username(
    offer: UnifiedBundleSessionView,
    answer: UnifiedBundleSessionView,
) -> Seq<char> {
    answer.ice_ufrag + seq![':'] + offer.ice_ufrag
}

/// The kind of frames that a kind of media carries, for audio and video.
pub open spec fn frame_type_of(kind: MediaTypeView) -> Option<MediaFrameType> {
    match kind {
        MediaTypeView::Audio => Some(MediaFrameType::Audio),
        MediaTypeView::Video => Some(MediaFrameType::Video),
        _ => None,
    }
}

/// The source group that is asked for an encoding of a media section.
pub open spec fn source_group_of(kind: MediaFrameType, mid: Seq<char>, encoding: RtpEncodingView)
    -> RtpIncomingSourceGroupView {
    match encoding {
        RtpEncodingView::Rid { rid, direction } => RtpIncomingSourceGroupView {
            kind,
            mid,
            rid,
            media_ssrc: 0,
            rtx_ssrc: 0,
        },
        RtpEncodingView::SendingSsrc { cname, ssrc, rtx_ssrc } => RtpIncomingSourceGroupView {
            kind,
            mid,
            rid: Seq::empty(),
            media_ssrc: ssrc.0,
            rtx_ssrc: match rtx_ssrc {
                Some(rtx) => rtx.0,
                None => 0,
            },
        },
    }
}

/// The source groups of the first `n` encodings of a section.
pub open spec fn section_source_groups(
    kind: MediaFrameType,
    mid: Seq<char>,
    encodings: Seq<RtpEncodingView>,
    n: nat,
) -> Seq<RtpIncomingSourceGroupView>
    decreases n,
{
    if n == 0 {
        Seq::empty()
    } else {
        section_source_groups(kind, mid, encodings, (n - 1) as nat).push(
            source_group_of(kind, mid, encodings[n - 1]),
        )
    }
}

/// The source groups of the first `n` media sections: one for every
/// encoding of every audio and video section, in order.
pub open spec fn source_groups(sections: Seq<RtpMediaDescriptionView>, n: nat) -> Seq<
    RtpIncomingSourceGroupView,
>
    decreases n,
{
    if n == 0 {
        Seq::empty()
    } else {
        let section = sections[n - 1];
        source_groups(sections, (n - 1) as nat) + match frame_type_of(section.kind) {
            Some(kind) => section_source_groups(
                kind,
                section.mid,
                section.encodings,
                section.encodings.len(),
            ),
            None => Seq::empty(),
        }
    }
}

/// The connection that the engine is asked for, with all that is asked of
/// it: its properties, the properties of the media of both sides, and
/// the incoming source groups of the offer.
pub open spec fn planned_connection(
    offer: UnifiedBundleSessionView,
    answer: UnifiedBundleSessionView,
    fingerprint: Seq<u8>,
) -> RtpBundleTransportConnectionView {
    RtpBundleTransportConnectionView {
        username: connection_username(offer, answer),
        properties: connection_properties(offer, answer, fingerprint),
        remote_properties: Some(rtp_properties(offer)),
        local_properties: Some(rtp_properties(answer)),
        incoming_source_groups: source_groups(
            offer.media_descriptions,
            offer.media_descriptions.len(),
        ),
        outgoing_source_groups: Seq::empty(),
        remote_candidates: Seq::empty(),
    }
}

fn add_source_groups(connection: &mut RtpBundleTransportConnection, offer: &UnifiedBundleSession)
    requires
        old(connection).deep_view().incoming_source_groups.len() == 0,
    ensures
        final(connection).deep_view() == (RtpBundleTransportConnectionView {
            incoming_source_groups: source_groups(
                offer.deep_view().media_descriptions,
                offer.deep_view().media_descriptions.len(),
            ),
            ..old(connection).deep_view()
        }),
{
    let ghost start = connection.deep_view();
    let ghost sections = offer.deep_view().media_descriptions;
    assert(start.incoming_source_groups =~= source_groups(sections, 0));
    let mut i: usize = 0;
    while i < offer.media_descriptions.len()
        invariant
            i <= offer.media_descriptions.len(),
            sections == offer.deep_view().media_descriptions,
            connection.deep_view() == (RtpBundleTransportConnectionView {
                incoming_source_groups: source_groups(sections, i as nat),
                ..start
            }),
        decreases offer.media_descriptions.len() - i,
    {
        let section = &offer.media_descriptions[i];
        assert(sections[i as int] == section.deep_view());
        let ghost before = source_groups(sections, i as nat);
        let frame_type = match section.kind {
            MediaType::Audio => Some(MediaFrameType::Audio),
            MediaType::Video => Some(MediaFrameType::Video),
            _ => None,
        };
        match frame_type {
            Some(kind) => {
                let ghost encodings = section.deep_view().encodings;
                let ghost mid = section.deep_view().mid;
                let mut j: usize = 0;
                assert(before + section_source_groups(kind, mid, encodings, 0) =~= before);
                while j < section.encodings.len()
                    invariant
                        j <= section.encodings.len(),
                        encodings == section.deep_view().encodings,
                        mid == section.deep_view().mid,
                        connection.deep_view() == (RtpBundleTransportConnectionView {
                            incoming_source_groups: before + section_source_groups(
                                kind,
                                mid,
                                encodings,
                                j as nat,
                            ),
                            ..start
                        }),
                    decreases section.encodings.len() - j,
                {
                    assert(encodings[j as int] == section.encodings@[j as int].deep_view());
                    match &section.encodings[j] {
                        RtpEncoding::Rid { rid, direction } => {
                            connection.add_incoming_source_group(
                                kind,
                                Some(section.mid.0.as_str()),
                                Some(rid.0.as_str()),
                                None,
                                None,
                            );
                        },
                        RtpEncoding::SendingSsrc { cname, ssrc, rtx_ssrc } => {
                            connection.add_incoming_source_group(
                                kind,
                                Some(section.mid.0.as_str()),
                                None,
                                Some(ssrc.0),
                                match rtx_ssrc {
                                    Some(rtx) => Some(rtx.0),
                                    None => None,
                                },
                            );
                        },
                    }
                    assert((before + section_source_groups(kind, mid, encodings, j as nat)).push(
                        source_group_of(kind, mid, encodings[j as int]),
                    ) =~= before + section_source_groups(kind, mid, encodings, (j + 1) as nat));
                    j += 1;
                }
            },
            None => {
                assert(before + Seq::<RtpIncomingSourceGroupView>::empty() =~= before);
            },
        }
        i += 1;
    }
}

/// What comes of an offer: the answer to send, and the connection to ask
/// the engine for.
#[derive(Debug)]
pub struct Negotiated {
    pub answer: UnifiedBundleSession,
    pub connection: RtpBundleTransportConnection,
}

/// What an offer and the base of its answer come to, or the message that
/// says why they come to nothing: the fingerprint of the engine must be
/// well written, and the offer must have a SHA-256 fingerprint.
pub open spec fn negotiated(
    offer: UnifiedBundleSessionView,
    answer: UnifiedBundleSessionView,
    public_ip: Seq<char>,
    port: u16,
    fingerprint: Seq<char>,
) -> Result<(UnifiedBundleSessionView, RtpBundleTransportConnectionView), Seq<char>> {
    match hex_bytes(fingerprint, 0, true) {
        None => Err("malformed certificate fingerprint"@),
        Some(ours) => {
            let completed = completed_answer(answer, public_ip, port, ours);
            match fingerprint_of(offer.fingerprints, 0, FingerprintHashFunctionView::Sha256) {
                None => Err("sha-256 dtls fingerprint missing from offer"@),
                Some(theirs) => Ok((completed, planned_connection(offer, completed, theirs))),
            }
        },
    }
}

/// Handles an offer: completes the base of its answer for the given
/// transport, and plans the connection over that transport.
pub fn handle_offer(
    transport: &RtpBundleTransport,
    offer: &UnifiedBundleSession,
    answer: UnifiedBundleSession,
    public_ip: &str,
    fingerprint: &str,
) -> (r: Result<Negotiated, String>)
    ensures
        match negotiated(
            offer.deep_view(),
            answer.deep_view(),
            public_ip@,
            transport.port,
            fingerprint@,
        ) {
            Ok((completed, connection)) => r is Ok && r->Ok_0.answer.deep_view() == completed
                && r->Ok_0.connection.deep_view() == connection,
            Err(message) => r is Err && r->Err_0@ == message,
        },
{
    let answer = match complete_answer(answer, public_ip, transport.get_local_port(), fingerprint) {
        Ok(a) => a,
        Err(message) => {
            return Err(message);
        },
    };
    let theirs = match find_fingerprint(offer, &FingerprintHashFunction::Sha256) {
        Some(f) => f,
        None => {
            return Err("sha-256 dtls fingerprint missing from offer".to_owned());
        },
    };
    let properties = make_connection_properties(offer, &answer, &theirs);
    let mut username = String::new();
    push_str(&mut username, answer.ice_ufrag.as_str());
    username.push(':');
    push_str(&mut username, offer.ice_ufrag.as_str());
    assert(username@ =~= connection_username(offer.deep_view(), answer.deep_view()));
    let mut connection = transport.add_ice_transport(username.as_str(), &properties);
    connection.set_remote_properties(&get_rtp_properties_from_sdp(offer));
    connection.set_local_properties(&get_rtp_properties_from_sdp(&answer));
    add_source_groups(&mut connection, offer);
    Ok(Negotiated { answer, connection })
}

} // verus!
