//! What is read back from the description that a session writes.
//!
//! A session writes the parameters of its transport into every media
//! section and reads them from the first one; a media section writes its
//! identifier, its direction, its flags, its header extensions and its
//! encodings behind them. This module proves that these come back as they
//! were written: every part of the attributes of a section is written under
//! names of its own, so nothing that one part writes is taken for what
//! another wrote. Of the encodings, those named by a RID come back, and one
//! that is named by its sending source where it stands alone. The payloads
//! of a section are not among what this module speaks of.

use vstd::prelude::*;
use crate::attribute_map::{values_named, values_of_type};
use crate::attributes::{
    Candidate, CandidateView, ExtensionMap, ExtensionMapAllowMixed, ExtensionMapView, Fingerprint,
    FingerprintView, FormatParameters, Group, IceLite, IceOptions, IcePwd, IceUfrag, Inactive, Mid,
    ReceiveOnly, Rid, RidView, Rtcp, RtcpFeedback, RtcpMux, RtcpMuxOnly, RtcpReducedSize, RtcpView,
    RtpMap, SendOnly, SendReceive, Setup, SsrcAttribute, SsrcAttributeView, SsrcGroup,
    SsrcGroupView,
};
use crate::enums::{
    AddressType, FingerprintHashFunctionView, NetworkType, SsrcGroupSemanticsView,
};
use crate::pairs::{distinct_keys, lemma_lookup_at, lemma_lookup_none, lookup};
use crate::registry::{AttributeView, NamedAttribute};
use crate::sdp::{MediaDescriptionView, SessionView};
use crate::text::lower;
use crate::webrtc::{
    all_of, candidate_entries, cname_entry, cname_of, direction_entry, encoding_entries,
    encoding_of_ssrcs, encodings_entries, encodings_of, encodings_of_rids, entry,
    extension_entries, extensions_of, feedback_attribute_entries, filed, filed_under,
    fingerprint_attribute_entries, flag_entries, flow_group, payload_entries, payloads_entries,
    rid_encodings, sections_from_sdp, simulcast_entries, transport_attributes,
    transport_entries, Entry, MediaDirection, RtpEncodingView, RtpMediaDescriptionView,
    RtpPayloadView, UnifiedBundleSessionView,
};

verus! {

/// No entry stands under the name.
pub open spec fn none_named(entries: Seq<Entry>, name: Seq<char>) -> bool {
    forall|j: int| 0 <= j < entries.len() ==> (#[trigger] entries[j]).0 != name
}

/// Whether a name is one under which a session writes what all its media
/// sections share and what may stand more than once or not at all: the ICE
/// options, a candidate, a fingerprint, or the leave to mix extension maps.
pub open spec fn is_shared_name(name: Seq<char>) -> bool {
    ||| name == IceOptions::name()
    ||| name == Candidate::name()
    ||| name == Fingerprint::name()
    ||| name == ExtensionMapAllowMixed::name()
}

/// Whether a name is one under which a media section writes its
/// identifier, its direction or one of its flags.
pub open spec fn is_frame_name(name: Seq<char>) -> bool {
    ||| name == Mid::name()
    ||| name == SendOnly::name()
    ||| name == ReceiveOnly::name()
    ||| name == SendReceive::name()
    ||| name == Inactive::name()
    ||| name == RtcpMux::name()
    ||| name == RtcpMuxOnly::name()
    ||| name == RtcpReducedSize::name()
}

/// The first of two values that is there.
pub open spec fn found_first(a: Option<AttributeView>, b: Option<AttributeView>) -> Option<
    AttributeView,
> {
    if a is Some {
        a
    } else {
        b
    }
}

/// The fingerprints as attributes, in order.
pub open spec fn fingerprints_written(
    fingerprints: Seq<(FingerprintHashFunctionView, Seq<u8>)>,
) -> Seq<FingerprintView> {
    Seq::new(
        fingerprints.len(),
        |i: int|
            FingerprintView { hash_function: fingerprints[i].0, fingerprint: fingerprints[i].1 },
    )
}

/// The header extensions as attributes, in order.
pub open spec fn extensions_written(extensions: Seq<(Seq<char>, u16)>) -> Seq<ExtensionMapView> {
    Seq::new(
        extensions.len(),
        |i: int|
            ExtensionMapView {
                id: extensions[i].1,
                direction: None,
                extension: extensions[i].0,
                attributes: Seq::empty(),
            },
    )
}

/// The encodings named by a RID as attributes, in order.
pub open spec fn rids_written(encodings: Seq<RtpEncodingView>) -> Seq<RidView>
    decreases encodings.len(),
{
    if encodings.len() == 0 {
        Seq::empty()
    } else {
        match encodings.last() {
            RtpEncodingView::Rid { rid, direction } => rids_written(encodings.drop_last()).push(
                RidView { rid, direction, restrictions: None },
            ),
            _ => rids_written(encodings.drop_last()),
        }
    }
}

/// Whether a media section has the kind, the protocol, the bandwidths, the
/// identifier, the direction and the flags of another.
pub open spec fn same_frame(a: RtpMediaDescriptionView, b: RtpMediaDescriptionView) -> bool {
    &&& a.kind == b.kind
    &&& a.protocol == b.protocol
    &&& a.bandwidths == b.bandwidths
    &&& a.mid == b.mid
    &&& a.direction == b.direction
    &&& a.rtcp_mux == b.rtcp_mux
    &&& a.rtcp_mux_only == b.rtcp_mux_only
    &&& a.rtcp_reduced_size == b.rtcp_reduced_size
}

/// The length and the first character of each name, and one more
/// character where two names agree in both: no two names are one.
proof fn lemma_names_are_apart()
    ensures
        Mid::name().len() == 3,
        Mid::name()[0] == 'm',
        ExtensionMap::name().len() == 6,
        ExtensionMap::name()[0] == 'e',
        SendOnly::name().len() == 8,
        SendOnly::name()[0] == 's',
        SendOnly::name()[4] == 'o',
        ReceiveOnly::name().len() == 8,
        ReceiveOnly::name()[0] == 'r',
        ReceiveOnly::name()[1] == 'e',
        SendReceive::name().len() == 8,
        SendReceive::name()[0] == 's',
        SendReceive::name()[4] == 'r',
        Inactive::name().len() == 8,
        Inactive::name()[0] == 'i',
        Inactive::name()[1] == 'n',
        RtcpMux::name().len() == 8,
        RtcpMux::name()[0] == 'r',
        RtcpMux::name()[1] == 't',
        RtcpMuxOnly::name().len() == 13,
        RtcpMuxOnly::name()[0] == 'r',
        RtcpReducedSize::name().len() == 10,
        RtcpReducedSize::name()[0] == 'r',
        RtpMap::name().len() == 6,
        RtpMap::name()[0] == 'r',
        FormatParameters::name().len() == 4,
        FormatParameters::name()[0] == 'f',
        RtcpFeedback::name().len() == 7,
        RtcpFeedback::name()[0] == 'r',
        SsrcAttribute::name().len() == 4,
        SsrcAttribute::name()[0] == 's',
        SsrcGroup::name().len() == 10,
        SsrcGroup::name()[0] == 's',
        Rid::name().len() == 3,
        Rid::name()[0] == 'r',
        Rtcp::name().len() == 4,
        Rtcp::name()[0] == 'r',
        IceUfrag::name().len() == 9,
        IceUfrag::name()[0] == 'i',
        IcePwd::name().len() == 7,
        IcePwd::name()[0] == 'i',
        Setup::name().len() == 5,
        Setup::name()[0] == 's',
        IceLite::name().len() == 8,
        IceLite::name()[0] == 'i',
        IceLite::name()[1] == 'c',
        Group::name().len() == 5,
        Group::name()[0] == 'g',
        IceOptions::name().len() == 11,
        IceOptions::name()[0] == 'i',
        Candidate::name().len() == 9,
        Candidate::name()[0] == 'c',
        Fingerprint::name().len() == 11,
        Fingerprint::name()[0] == 'f',
        ExtensionMapAllowMixed::name().len() == 18,
        ExtensionMapAllowMixed::name()[0] == 'e',
        "simulcast"@.len() == 9,
        "simulcast"@[0] == 's',
{
    reveal_strlit("mid");
    reveal_strlit("extmap");
    reveal_strlit("sendonly");
    reveal_strlit("recvonly");
    reveal_strlit("sendrecv");
    reveal_strlit("inactive");
    reveal_strlit("rtcp-mux");
    reveal_strlit("rtcp-mux-only");
    reveal_strlit("rtcp-rsize");
    reveal_strlit("rtpmap");
    reveal_strlit("fmtp");
    reveal_strlit("rtcp-fb");
    reveal_strlit("ssrc");
    reveal_strlit("ssrc-group");
    reveal_strlit("rid");
    reveal_strlit("rtcp");
    reveal_strlit("ice-ufrag");
    reveal_strlit("ice-pwd");
    reveal_strlit("setup");
    reveal_strlit("ice-lite");
    reveal_strlit("group");
    reveal_strlit("ice-options");
    reveal_strlit("candidate");
    reveal_strlit("fingerprint");
    reveal_strlit("extmap-allow-mixed");
    reveal_strlit("simulcast");
}

proof fn lemma_none_named_concat(a: Seq<Entry>, b: Seq<Entry>, name: Seq<char>)
    requires
        none_named(a, name),
        none_named(b, name),
    ensures
        none_named(a + b, name),
{
    assert forall|j: int| 0 <= j < (a + b).len() implies (#[trigger] (a + b)[j]).0 != name by {
        if j < a.len() {
            assert((a + b)[j] == a[j]);
        } else {
            assert((a + b)[j] == b[j - a.len()]);
        }
    }
}

proof fn lemma_values_named_concat(a: Seq<Entry>, b: Seq<Entry>, name: Seq<char>)
    ensures
        values_named(a + b, name) == values_named(a, name) + values_named(b, name),
    decreases b.len(),
{
    if b.len() == 0 {
        assert(a + b =~= a);
        assert(values_named(a, name) + values_named(b, name) =~= values_named(a, name));
    } else {
        lemma_values_named_concat(a, b.drop_last(), name);
        assert((a + b).drop_last() =~= a + b.drop_last());
        assert((a + b).last() == b.last());
        assert(values_named(a + b, name) =~= values_named(a, name) + values_named(b, name));
    }
}

proof fn lemma_values_named_none(b: Seq<Entry>, name: Seq<char>)
    requires
        none_named(b, name),
    ensures
        values_named(b, name) == Seq::<AttributeView>::empty(),
    decreases b.len(),
{
    if b.len() > 0 {
        let rest = b.drop_last();
        assert forall|j: int| 0 <= j < rest.len() implies (#[trigger] rest[j]).0 != name by {
            assert(rest[j] == b[j]);
        }
        lemma_values_named_none(rest, name);
        assert(b.last() == b[b.len() - 1]);
    }
}

/// The first entry under a name in two lists in a row is the first in the
/// first list, and the first in the second list where that has none.
proof fn lemma_lookup_concat(a: Seq<Entry>, b: Seq<Entry>, name: Seq<char>)
    ensures
        lookup(a + b, name) == found_first(lookup(a, name), lookup(b, name)),
    decreases a.len(),
{
    if a.len() == 0 {
        assert(a + b =~= b);
    } else {
        assert((a + b)[0] == a[0]);
        assert((a + b).skip(1) =~= a.skip(1) + b);
        lemma_lookup_concat(a.skip(1), b, name);
    }
}

/// Among the entries `a`, `c` and `b` in a row, those under a name that
/// none of `a` and `b` has are those of `c`.
proof fn lemma_values_named_between(a: Seq<Entry>, c: Seq<Entry>, b: Seq<Entry>, name: Seq<char>)
    requires
        none_named(a, name),
        none_named(b, name),
    ensures
        values_named(a + c + b, name) == values_named(c, name),
{
    lemma_values_named_concat(a + c, b, name);
    lemma_values_named_concat(a, c, name);
    lemma_values_named_none(a, name);
    lemma_values_named_none(b, name);
    assert(values_named(a + c + b, name) =~= values_named(c, name));
}

/// Entries behind a list add nothing under a name that none of them has.
proof fn lemma_nothing_added(a: Seq<Entry>, b: Seq<Entry>, name: Seq<char>)
    requires
        none_named(b, name),
    ensures
        values_named(a + b, name) == values_named(a, name),
        lookup(a + b, name) == lookup(a, name),
{
    lemma_values_named_concat(a, b, name);
    lemma_values_named_none(b, name);
    lemma_lookup_concat(a, b, name);
    lemma_lookup_none(b, name);
    assert(values_named(a, name) + values_named(b, name) =~= values_named(a, name));
}

proof fn lemma_candidate_entries_are_named(candidates: Seq<CandidateView>)
    ensures
        candidate_entries(candidates).len() == candidates.len(),
        forall|j: int|
            0 <= j < candidates.len() ==> (#[trigger] candidate_entries(candidates)[j]).0
                == Candidate::name(),
        all_of::<Candidate>(candidate_entries(candidates)) == candidates,
    decreases candidates.len(),
{
    if candidates.len() > 0 {
        let rest = candidates.drop_last();
        lemma_candidate_entries_are_named(rest);
        let head = candidate_entries(rest);
        let all = candidate_entries(candidates);
        assert forall|j: int| 0 <= j < candidates.len() implies (#[trigger] all[j]).0
            == Candidate::name() by {
            if j < head.len() {
                assert(all[j] == head[j]);
            }
        }
        let values = values_named(head, Candidate::name());
        assert(all.drop_last() =~= head);
        assert(values_named(all, Candidate::name()) == values.push(all.last().1));
        assert(values.push(all.last().1).drop_last() =~= values);
        assert(all_of::<Candidate>(all) =~= candidates);
    } else {
        assert(all_of::<Candidate>(candidate_entries(candidates)) =~= candidates);
    }
}

proof fn lemma_fingerprint_entries_are_named(
    fingerprints: Seq<(FingerprintHashFunctionView, Seq<u8>)>,
)
    ensures
        fingerprint_attribute_entries(fingerprints).len() == fingerprints.len(),
        forall|j: int|
            0 <= j < fingerprints.len() ==> (#[trigger] fingerprint_attribute_entries(
                fingerprints,
            )[j]).0 == Fingerprint::name(),
        all_of::<Fingerprint>(fingerprint_attribute_entries(fingerprints)) == fingerprints_written(
            fingerprints,
        ),
    decreases fingerprints.len(),
{
    if fingerprints.len() > 0 {
        let rest = fingerprints.drop_last();
        lemma_fingerprint_entries_are_named(rest);
        let head = fingerprint_attribute_entries(rest);
        let all = fingerprint_attribute_entries(fingerprints);
        assert forall|j: int| 0 <= j < fingerprints.len() implies (#[trigger] all[j]).0
            == Fingerprint::name() by {
            if j < head.len() {
                assert(all[j] == head[j]);
            }
        }
        let values = values_named(head, Fingerprint::name());
        assert(all.drop_last() =~= head);
        assert(values_named(all, Fingerprint::name()) == values.push(all.last().1));
        assert(values.push(all.last().1).drop_last() =~= values);
        assert(all_of::<Fingerprint>(all) =~= fingerprints_written(fingerprints));
    } else {
        assert(all_of::<Fingerprint>(fingerprint_attribute_entries(fingerprints))
            =~= fingerprints_written(fingerprints));
    }
}

proof fn lemma_extension_entries_are_named(extensions: Seq<(Seq<char>, u16)>)
    ensures
        forall|j: int|
            0 <= j < extension_entries(extensions).len() ==> (#[trigger] extension_entries(
                extensions,
            )[j]).0 == ExtensionMap::name(),
        all_of::<ExtensionMap>(extension_entries(extensions)) == extensions_written(extensions),
    decreases extensions.len(),
{
    if extensions.len() > 0 {
        lemma_extension_entries_are_named(extensions.drop_last());
        let head = extension_entries(extensions.drop_last());
        let all = extension_entries(extensions);
        assert forall|j: int| 0 <= j < all.len() implies (#[trigger] all[j]).0
            == ExtensionMap::name() by {
            if j < head.len() {
                assert(all[j] == head[j]);
            }
        }
        let values = values_named(head, ExtensionMap::name());
        assert(all.drop_last() =~= head);
        assert(values_named(all, ExtensionMap::name()) == values.push(all.last().1));
        assert(values.push(all.last().1).drop_last() =~= values);
        assert(all_of::<ExtensionMap>(all) =~= extensions_written(extensions));
    } else {
        assert(all_of::<ExtensionMap>(extension_entries(extensions)) =~= extensions_written(
            extensions,
        ));
    }
}

/// Header extensions with one identifier for each are read from their
/// attributes as they are.
proof fn lemma_written_extensions_are_collected(extensions: Seq<(Seq<char>, u16)>)
    requires
        distinct_keys(extensions),
    ensures
        extensions_of(extensions_written(extensions)) == extensions,
    decreases extensions.len(),
{
    if extensions.len() > 0 {
        let rest = extensions.drop_last();
        assert(distinct_keys(rest)) by {
            assert forall|i: int, j: int| 0 <= i < j < rest.len() implies (#[trigger] rest[i]).0 != (
            #[trigger] rest[j]).0 by {
                assert(rest[i] == extensions[i]);
                assert(rest[j] == extensions[j]);
            }
        }
        lemma_written_extensions_are_collected(rest);
        assert(extensions_written(extensions).drop_last() =~= extensions_written(rest));
        assert forall|j: int| 0 <= j < rest.len() implies (#[trigger] rest[j]).0
            != extensions.last().0 by {
            assert(rest[j] == extensions[j]);
            assert(extensions.last() == extensions[extensions.len() - 1]);
        }
        lemma_lookup_none(rest, extensions.last().0);
        assert(rest.push(extensions.last()) =~= extensions);
    } else {
        assert(extensions_written(extensions) =~= Seq::<ExtensionMapView>::empty());
        assert(extensions_of(extensions_written(extensions)) =~= extensions);
    }
}

proof fn lemma_feedback_entries_are_named(
    payload: u8,
    feedback: Seq<(Seq<char>, Option<Seq<char>>)>,
)
    ensures
        forall|j: int|
            0 <= j < feedback_attribute_entries(payload, feedback).len() ==> (
            #[trigger] feedback_attribute_entries(payload, feedback)[j]).0 == RtcpFeedback::name(),
    decreases feedback.len(),
{
    if feedback.len() > 0 {
        lemma_feedback_entries_are_named(payload, feedback.drop_last());
        let head = feedback_attribute_entries(payload, feedback.drop_last());
        let all = feedback_attribute_entries(payload, feedback);
        assert forall|j: int| 0 <= j < all.len() implies (#[trigger] all[j]).0
            == RtcpFeedback::name() by {
            if j < head.len() {
                assert(all[j] == head[j]);
            }
        }
    }
}

proof fn lemma_payload_entries_are_named(payload: RtpPayloadView, name: Seq<char>)
    requires
        name != RtpMap::name(),
        name != FormatParameters::name(),
        name != RtcpFeedback::name(),
    ensures
        none_named(payload_entries(payload), name),
{
    let all = payload_entries(payload);
    let map: Seq<Entry> = all.subrange(0, 1);
    let feedback = feedback_attribute_entries(payload.payload_type.0, payload.supported_feedback);
    let rest: Seq<Entry> = all.subrange(feedback.len() as int + 1, all.len() as int);
    lemma_feedback_entries_are_named(payload.payload_type.0, payload.supported_feedback);
    assert(map[0].0 == RtpMap::name());
    assert forall|j: int| 0 <= j < rest.len() implies (#[trigger] rest[j]).0 != name by {
        let e = rest[j];
        assert(e.0 == RtpMap::name() || e.0 == FormatParameters::name());
    }
    lemma_none_named_concat(map, feedback, name);
    lemma_none_named_concat(map + feedback, rest, name);
    assert(all =~= map + feedback + rest);
}

proof fn lemma_payloads_entries_are_named(payloads: Seq<RtpPayloadView>, name: Seq<char>)
    requires
        name != RtpMap::name(),
        name != FormatParameters::name(),
        name != RtcpFeedback::name(),
    ensures
        none_named(payloads_entries(payloads), name),
    decreases payloads.len(),
{
    if payloads.len() > 0 {
        lemma_payloads_entries_are_named(payloads.drop_last(), name);
        lemma_payload_entries_are_named(payloads.last(), name);
        lemma_none_named_concat(
            payloads_entries(payloads.drop_last()),
            payload_entries(payloads.last()),
            name,
        );
    }
}

proof fn lemma_encodings_entries_are_named(encodings: Seq<RtpEncodingView>, name: Seq<char>)
    requires
        name != Rid::name(),
        name != SsrcAttribute::name(),
        name != SsrcGroup::name(),
    ensures
        none_named(encodings_entries(encodings), name),
    decreases encodings.len(),
{
    if encodings.len() > 0 {
        lemma_encodings_entries_are_named(encodings.drop_last(), name);
        let last = encoding_entries(encodings.last());
        assert forall|j: int| 0 <= j < last.len() implies (#[trigger] last[j]).0 != name by {
            let e = last[j];
            assert(e.0 == Rid::name() || e.0 == SsrcAttribute::name() || e.0 == SsrcGroup::name());
        }
        lemma_none_named_concat(encodings_entries(encodings.drop_last()), last, name);
    }
}

/// What the flags of a media section are written as: each under its own
/// name where it is set, and nothing under any other name.
proof fn lemma_flag_entries_are_named(section: RtpMediaDescriptionView, name: Seq<char>)
    ensures
        name == RtcpMux::name() ==> lookup(flag_entries(section), name) == (if section.rtcp_mux {
            Some(AttributeView::RtcpMux(RtcpMux))
        } else {
            None
        }),
        name == RtcpMuxOnly::name() ==> lookup(flag_entries(section), name) == (
        if section.rtcp_mux_only {
            Some(AttributeView::RtcpMuxOnly(RtcpMuxOnly))
        } else {
            None
        }),
        name == RtcpReducedSize::name() ==> lookup(flag_entries(section), name) == (
        if section.rtcp_reduced_size {
            Some(AttributeView::RtcpReducedSize(RtcpReducedSize))
        } else {
            None
        }),
        name != RtcpMux::name() && name != RtcpMuxOnly::name() && name != RtcpReducedSize::name()
            ==> none_named(flag_entries(section), name),
{
    lemma_names_are_apart();
    let mux: Seq<Entry> = if section.rtcp_mux {
        seq![entry::<RtcpMux>(RtcpMux)]
    } else {
        Seq::empty()
    };
    let only: Seq<Entry> = if section.rtcp_mux_only {
        seq![entry::<RtcpMuxOnly>(RtcpMuxOnly)]
    } else {
        Seq::empty()
    };
    let reduced: Seq<Entry> = if section.rtcp_reduced_size {
        seq![entry::<RtcpReducedSize>(RtcpReducedSize)]
    } else {
        Seq::empty()
    };
    assert(flag_entries(section) == mux + only + reduced);
    lemma_lookup_concat(mux + only, reduced, name);
    lemma_lookup_concat(mux, only, name);
    if name == RtcpMux::name() && section.rtcp_mux {
        lemma_lookup_at(mux, name, 0);
    } else {
        lemma_lookup_none(mux, name);
    }
    if name == RtcpMuxOnly::name() && section.rtcp_mux_only {
        lemma_lookup_at(only, name, 0);
    } else {
        lemma_lookup_none(only, name);
    }
    if name == RtcpReducedSize::name() && section.rtcp_reduced_size {
        lemma_lookup_at(reduced, name, 0);
    } else {
        lemma_lookup_none(reduced, name);
    }
    if name != RtcpMux::name() && name != RtcpMuxOnly::name() && name != RtcpReducedSize::name() {
        lemma_none_named_concat(mux, only, name);
        lemma_none_named_concat(mux + only, reduced, name);
    }
}

/// No entry of the transport stands under a name that is none of those
/// of the transport.
proof fn lemma_transport_entries_are_named(session: UnifiedBundleSessionView, name: Seq<char>)
    requires
        name != Rtcp::name(),
        name != IceUfrag::name(),
        name != IcePwd::name(),
        name != IceOptions::name(),
        name != Candidate::name(),
        name != Fingerprint::name(),
        name != Setup::name(),
    ensures
        none_named(transport_entries(session), name),
{
    let head: Seq<Entry> = seq![
        entry::<Rtcp>(
            RtcpView {
                port: 9,
                network_type: Some(NetworkType::Internet),
                address_type: Some(AddressType::Ip4),
                connection_address: Some("0.0.0.0"@),
            },
        ),
        entry::<IceUfrag>(session.ice_ufrag),
        entry::<IcePwd>(session.ice_pwd),
    ];
    let options: Seq<Entry> = if session.ice_options.len() > 0 {
        seq![entry::<IceOptions>(session.ice_options)]
    } else {
        Seq::empty()
    };
    let candidates = candidate_entries(session.candidates);
    let prints = fingerprint_attribute_entries(session.fingerprints);
    let setup: Seq<Entry> = seq![entry::<Setup>(Setup(session.setup_role))];
    lemma_candidate_entries_are_named(session.candidates);
    lemma_fingerprint_entries_are_named(session.fingerprints);
    assert(transport_entries(session) == head + options + candidates + prints + setup);
    lemma_none_named_concat(head, options, name);
    lemma_none_named_concat(head + options, candidates, name);
    lemma_none_named_concat(head + options + candidates, prints, name);
    lemma_none_named_concat(head + options + candidates + prints, setup, name);
}

/// What a media section writes behind the transport adds nothing under a
/// shared name.
proof fn lemma_section_adds_nothing(
    section: RtpMediaDescriptionView,
    session: UnifiedBundleSessionView,
    name: Seq<char>,
)
    requires
        is_shared_name(name),
    ensures
        values_named(section.attributes(session), name) == values_named(
            transport_entries(session),
            name,
        ),
        lookup(section.attributes(session), name) == lookup(transport_entries(session), name),
{
    lemma_names_are_apart();
    let t = transport_entries(session);
    let mid: Seq<Entry> = seq![entry::<Mid>(section.mid)];
    let extensions = extension_entries(section.extensions);
    let direction: Seq<Entry> = seq![direction_entry(section.direction)];
    let flags = flag_entries(section);
    let payloads = payloads_entries(section.payloads);
    let encodings = encodings_entries(section.encodings);
    let simulcast = simulcast_entries(section.encodings);
    lemma_extension_entries_are_named(section.extensions);
    lemma_flag_entries_are_named(section, name);
    lemma_payloads_entries_are_named(section.payloads, name);
    lemma_encodings_entries_are_named(section.encodings, name);
    let t1 = t + mid;
    let t2 = t1 + extensions;
    let t3 = t2 + direction;
    let t4 = t3 + flags;
    let t5 = t4 + payloads;
    let t6 = t5 + encodings;
    lemma_nothing_added(t, mid, name);
    lemma_nothing_added(t1, extensions, name);
    lemma_nothing_added(t2, direction, name);
    lemma_nothing_added(t3, flags, name);
    lemma_nothing_added(t4, payloads, name);
    lemma_nothing_added(t5, encodings, name);
    lemma_nothing_added(t6, simulcast, name);
    assert(section.attributes(session) == t6 + simulcast);
}

/// Under the name of its identifier, of a direction or of a flag, a media
/// section has what its identifier, its direction and its flags are
/// written as, in this order.
proof fn lemma_frame_is_found(
    section: RtpMediaDescriptionView,
    session: UnifiedBundleSessionView,
    name: Seq<char>,
)
    requires
        is_frame_name(name),
    ensures
        lookup(section.attributes(session), name) == found_first(
            found_first(
                lookup(seq![entry::<Mid>(section.mid)], name),
                lookup(seq![direction_entry(section.direction)], name),
            ),
            lookup(flag_entries(section), name),
        ),
{
    lemma_names_are_apart();
    let t = transport_entries(session);
    let mid: Seq<Entry> = seq![entry::<Mid>(section.mid)];
    let extensions = extension_entries(section.extensions);
    let direction: Seq<Entry> = seq![direction_entry(section.direction)];
    let flags = flag_entries(section);
    let payloads = payloads_entries(section.payloads);
    let encodings = encodings_entries(section.encodings);
    let simulcast = simulcast_entries(section.encodings);
    lemma_transport_entries_are_named(session, name);
    lemma_extension_entries_are_named(section.extensions);
    lemma_payloads_entries_are_named(section.payloads, name);
    lemma_encodings_entries_are_named(section.encodings, name);
    let t1 = t + mid;
    let t2 = t1 + extensions;
    let t3 = t2 + direction;
    let t4 = t3 + flags;
    let t5 = t4 + payloads;
    let t6 = t5 + encodings;
    lemma_lookup_none(t, name);
    lemma_lookup_concat(t, mid, name);
    lemma_nothing_added(t1, extensions, name);
    lemma_lookup_concat(t2, direction, name);
    lemma_lookup_concat(t3, flags, name);
    lemma_nothing_added(t4, payloads, name);
    lemma_nothing_added(t5, encodings, name);
    lemma_nothing_added(t6, simulcast, name);
    assert(section.attributes(session) == t6 + simulcast);
}

/// What is read back from the media section that a section writes has
/// the frame of the section, and the port on which every section is
/// written.
pub proof fn lemma_written_section_is_read_back(
    section: RtpMediaDescriptionView,
    session: UnifiedBundleSessionView,
)
    ensures
        RtpMediaDescriptionView::from_sdp(section.to_sdp(session)) is Ok,
        same_frame(RtpMediaDescriptionView::from_sdp(section.to_sdp(session))->Ok_0, section),
        RtpMediaDescriptionView::from_sdp(section.to_sdp(session))->Ok_0.port == 9,
{
    lemma_names_are_apart();
    let attributes = section.attributes(session);
    let mid: Seq<Entry> = seq![entry::<Mid>(section.mid)];
    let direction: Seq<Entry> = seq![direction_entry(section.direction)];
    lemma_frame_is_found(section, session, Mid::name());
    lemma_lookup_at(mid, Mid::name(), 0);
    lemma_frame_is_found(section, session, SendOnly::name());
    lemma_frame_is_found(section, session, ReceiveOnly::name());
    lemma_frame_is_found(section, session, SendReceive::name());
    lemma_frame_is_found(section, session, Inactive::name());
    lemma_lookup_none(mid, SendOnly::name());
    lemma_lookup_none(mid, ReceiveOnly::name());
    lemma_lookup_none(mid, SendReceive::name());
    lemma_lookup_none(mid, Inactive::name());
    lemma_flag_entries_are_named(section, SendOnly::name());
    lemma_flag_entries_are_named(section, ReceiveOnly::name());
    lemma_flag_entries_are_named(section, SendReceive::name());
    lemma_flag_entries_are_named(section, Inactive::name());
    lemma_lookup_none(flag_entries(section), SendOnly::name());
    lemma_lookup_none(flag_entries(section), ReceiveOnly::name());
    lemma_lookup_none(flag_entries(section), SendReceive::name());
    lemma_lookup_none(flag_entries(section), Inactive::name());
    match section.direction {
        MediaDirection::SendOnly => {
            lemma_lookup_at(direction, SendOnly::name(), 0);
            lemma_lookup_none(direction, ReceiveOnly::name());
            lemma_lookup_none(direction, SendReceive::name());
            lemma_lookup_none(direction, Inactive::name());
        },
        MediaDirection::ReceiveOnly => {
            lemma_lookup_none(direction, SendOnly::name());
            lemma_lookup_at(direction, ReceiveOnly::name(), 0);
            lemma_lookup_none(direction, SendReceive::name());
            lemma_lookup_none(direction, Inactive::name());
        },
        MediaDirection::SendReceive => {
            lemma_lookup_none(direction, SendOnly::name());
            lemma_lookup_none(direction, ReceiveOnly::name());
            lemma_lookup_at(direction, SendReceive::name(), 0);
            lemma_lookup_none(direction, Inactive::name());
        },
        MediaDirection::Inactive => {
            lemma_lookup_none(direction, SendOnly::name());
            lemma_lookup_none(direction, ReceiveOnly::name());
            lemma_lookup_none(direction, SendReceive::name());
            lemma_lookup_at(direction, Inactive::name(), 0);
        },
    }
    lemma_frame_is_found(section, session, RtcpMux::name());
    lemma_frame_is_found(section, session, RtcpMuxOnly::name());
    lemma_frame_is_found(section, session, RtcpReducedSize::name());
    lemma_lookup_none(mid, RtcpMux::name());
    lemma_lookup_none(mid, RtcpMuxOnly::name());
    lemma_lookup_none(mid, RtcpReducedSize::name());
    lemma_lookup_none(direction, RtcpMux::name());
    lemma_lookup_none(direction, RtcpMuxOnly::name());
    lemma_lookup_none(direction, RtcpReducedSize::name());
    lemma_flag_entries_are_named(section, RtcpMux::name());
    lemma_flag_entries_are_named(section, RtcpMuxOnly::name());
    lemma_flag_entries_are_named(section, RtcpReducedSize::name());
}

/// What is read back from the media section that a section writes has
/// the header extensions of the section, where the section has one
/// identifier for each.
pub proof fn lemma_written_extensions_are_read_back(
    section: RtpMediaDescriptionView,
    session: UnifiedBundleSessionView,
)
    requires
        distinct_keys(section.extensions),
    ensures
        RtpMediaDescriptionView::from_sdp(section.to_sdp(session)) is Ok,
        RtpMediaDescriptionView::from_sdp(section.to_sdp(session))->Ok_0.extensions
            == section.extensions,
{
    lemma_written_section_is_read_back(section, session);
    lemma_names_are_apart();
    let name = ExtensionMap::name();
    let t = transport_entries(session);
    let mid: Seq<Entry> = seq![entry::<Mid>(section.mid)];
    let extensions = extension_entries(section.extensions);
    let direction: Seq<Entry> = seq![direction_entry(section.direction)];
    let flags = flag_entries(section);
    let payloads = payloads_entries(section.payloads);
    let encodings = encodings_entries(section.encodings);
    let simulcast = simulcast_entries(section.encodings);
    lemma_transport_entries_are_named(session, name);
    lemma_extension_entries_are_named(section.extensions);
    lemma_flag_entries_are_named(section, name);
    lemma_payloads_entries_are_named(section.payloads, name);
    lemma_encodings_entries_are_named(section.encodings, name);
    let t1 = t + mid;
    let t2 = t1 + extensions;
    let t3 = t2 + direction;
    let t4 = t3 + flags;
    let t5 = t4 + payloads;
    let t6 = t5 + encodings;
    lemma_none_named_concat(t, mid, name);
    lemma_values_named_concat(t1, extensions, name);
    lemma_values_named_none(t1, name);
    assert(values_named(t2, name) =~= values_named(extensions, name));
    lemma_nothing_added(t2, direction, name);
    lemma_nothing_added(t3, flags, name);
    lemma_nothing_added(t4, payloads, name);
    lemma_nothing_added(t5, encodings, name);
    lemma_nothing_added(t6, simulcast, name);
    assert(section.attributes(session) == t6 + simulcast);
    lemma_written_extensions_are_collected(section.extensions);
}

proof fn lemma_values_named_single(e: Entry, name: Seq<char>)
    ensures
        values_named(seq![e], name) == (if e.0 == name {
            seq![e.1]
        } else {
            Seq::<AttributeView>::empty()
        }),
{
    let one: Seq<Entry> = seq![e];
    assert(one.drop_last() =~= Seq::<Entry>::empty());
    assert(one.last() == e);
    assert(values_named(one.drop_last(), name) =~= Seq::<AttributeView>::empty());
    assert(Seq::<AttributeView>::empty().push(e.1) =~= seq![e.1]);
}

proof fn lemma_values_of_type_push<T: NamedAttribute>(values: Seq<AttributeView>, last: AttributeView)
    ensures
        values_of_type::<T>(values.push(last)) == (match T::unwrapped(last) {
            Some(v) => values_of_type::<T>(values).push(v),
            None => values_of_type::<T>(values),
        }),
{
    assert(values.push(last).drop_last() =~= values);
}

/// Under the name of a RID, of a source or of a group of sources, a media
/// section has what its encodings are written as.
proof fn lemma_encodings_are_found(
    section: RtpMediaDescriptionView,
    session: UnifiedBundleSessionView,
    name: Seq<char>,
)
    requires
        name == Rid::name() || name == SsrcAttribute::name() || name == SsrcGroup::name(),
    ensures
        values_named(section.attributes(session), name) == values_named(
            encodings_entries(section.encodings),
            name,
        ),
{
    lemma_names_are_apart();
    let t = transport_entries(session);
    let mid: Seq<Entry> = seq![entry::<Mid>(section.mid)];
    let extensions = extension_entries(section.extensions);
    let direction: Seq<Entry> = seq![direction_entry(section.direction)];
    let flags = flag_entries(section);
    let payloads = payloads_entries(section.payloads);
    let encodings = encodings_entries(section.encodings);
    let simulcast = simulcast_entries(section.encodings);
    lemma_transport_entries_are_named(session, name);
    lemma_extension_entries_are_named(section.extensions);
    lemma_flag_entries_are_named(section, name);
    lemma_payloads_entries_are_named(section.payloads, name);
    let t1 = t + mid;
    let t2 = t1 + extensions;
    let t3 = t2 + direction;
    let t4 = t3 + flags;
    let t5 = t4 + payloads;
    let t6 = t5 + encodings;
    lemma_none_named_concat(t, mid, name);
    lemma_none_named_concat(t1, extensions, name);
    lemma_none_named_concat(t2, direction, name);
    lemma_none_named_concat(t3, flags, name);
    lemma_none_named_concat(t4, payloads, name);
    lemma_values_named_concat(t5, encodings, name);
    lemma_values_named_none(t5, name);
    assert(values_named(t6, name) =~= values_named(encodings, name));
    lemma_nothing_added(t6, simulcast, name);
    assert(section.attributes(session) == t6 + simulcast);
}

/// The `rid` attributes that encodings are written as are those of the
/// encodings named by a RID, and they are read as these encodings.
proof fn lemma_rids_are_found(encodings: Seq<RtpEncodingView>)
    ensures
        all_of::<Rid>(encodings_entries(encodings)) == rids_written(encodings),
        encodings_of_rids(rids_written(encodings)) == rid_encodings(encodings),
    decreases encodings.len(),
{
    lemma_names_are_apart();
    let name = Rid::name();
    if encodings.len() > 0 {
        let rest = encodings.drop_last();
        lemma_rids_are_found(rest);
        let head = encodings_entries(rest);
        let last = encoding_entries(encodings.last());
        lemma_values_named_concat(head, last, name);
        match encodings.last() {
            RtpEncodingView::Rid { rid, direction } => {
                let view = RidView { rid, direction, restrictions: None };
                assert(last =~= seq![entry::<Rid>(view)]);
                lemma_values_named_single(entry::<Rid>(view), name);
                assert(values_named(head, name) + seq![AttributeView::Rid(view)]
                    =~= values_named(head, name).push(AttributeView::Rid(view)));
                lemma_values_of_type_push::<Rid>(values_named(head, name), AttributeView::Rid(view));
                assert(rids_written(rest).push(view).drop_last() =~= rids_written(rest));
            },
            RtpEncodingView::SendingSsrc { cname, ssrc, rtx_ssrc } => {
                assert forall|j: int| 0 <= j < last.len() implies (#[trigger] last[j]).0
                    != name by {
                    let e = last[j];
                    assert(e.0 == SsrcAttribute::name() || e.0 == SsrcGroup::name());
                }
                lemma_values_named_none(last, name);
                assert(values_named(head, name) + values_named(last, name) =~= values_named(
                    head,
                    name,
                ));
            },
        }
    }
}

/// One encoding named by its sending source is read from what it is
/// written as.
proof fn lemma_sending_source_is_read(encodings: Seq<RtpEncodingView>)
    requires
        encodings.len() == 1,
        encodings[0] is SendingSsrc,
    ensures
        encodings_of(
            all_of::<Rid>(encodings_entries(encodings)),
            all_of::<SsrcGroup>(encodings_entries(encodings)),
            all_of::<SsrcAttribute>(encodings_entries(encodings)),
        ) == encodings,
{
    lemma_names_are_apart();
    lemma_rids_are_found(encodings);
    reveal_strlit("cname");
    assert(lower("cname"@) =~= "cname"@);
    let cname = encodings[0]->cname;
    let ssrc = encodings[0]->ssrc;
    let rtx_ssrc = encodings[0]->rtx_ssrc;
    assert(encodings.last() == encodings[0]);
    assert(encodings.drop_last() =~= Seq::<RtpEncodingView>::empty());
    assert(rid_encodings(encodings.drop_last()) =~= Seq::<RtpEncodingView>::empty());
    assert(encodings_entries(encodings.drop_last()) =~= Seq::<Entry>::empty());
    let entries = encodings_entries(encodings);
    let first: Seq<Entry> = seq![cname_entry(ssrc, cname)];
    let first_view = SsrcAttributeView { ssrc: ssrc.0, name: "cname"@, value: Some(cname) };
    let none = Seq::<AttributeView>::empty();
    lemma_values_named_single(cname_entry(ssrc, cname), SsrcAttribute::name());
    lemma_values_named_single(cname_entry(ssrc, cname), SsrcGroup::name());
    lemma_values_of_type_push::<SsrcAttribute>(none, AttributeView::SsrcAttribute(first_view));
    assert(none.push(AttributeView::SsrcAttribute(first_view)) =~= seq![
        AttributeView::SsrcAttribute(first_view),
    ]);
    match rtx_ssrc {
        Some(rtx) => {
            let second: Seq<Entry> = seq![cname_entry(rtx, cname)];
            let second_view = SsrcAttributeView {
                ssrc: rtx.0,
                name: "cname"@,
                value: Some(cname),
            };
            let group_view = SsrcGroupView {
                semantics: SsrcGroupSemanticsView::FlowIdentification,
                ssrcs: seq![ssrc.0, rtx.0],
            };
            let group: Seq<Entry> = seq![entry::<SsrcGroup>(group_view)];
            assert(entries =~= first + second + group);
            lemma_values_named_concat(first + second, group, SsrcAttribute::name());
            lemma_values_named_concat(first, second, SsrcAttribute::name());
            lemma_values_named_concat(first + second, group, SsrcGroup::name());
            lemma_values_named_concat(first, second, SsrcGroup::name());
            lemma_values_named_single(cname_entry(rtx, cname), SsrcAttribute::name());
            lemma_values_named_single(cname_entry(rtx, cname), SsrcGroup::name());
            lemma_values_named_single(entry::<SsrcGroup>(group_view), SsrcAttribute::name());
            lemma_values_named_single(entry::<SsrcGroup>(group_view), SsrcGroup::name());
            let one = seq![AttributeView::SsrcAttribute(first_view)];
            assert(values_named(entries, SsrcAttribute::name()) =~= one.push(
                AttributeView::SsrcAttribute(second_view),
            ));
            lemma_values_of_type_push::<SsrcAttribute>(
                one,
                AttributeView::SsrcAttribute(second_view),
            );
            let attributes = all_of::<SsrcAttribute>(entries);
            assert(attributes =~= seq![first_view, second_view]);
            assert(attributes.drop_last() =~= seq![first_view]);
            assert(seq![first_view].drop_last() =~= Seq::<SsrcAttributeView>::empty());
            assert(cname_of(seq![first_view], ssrc.0) == Some(cname));
            assert(cname_of(attributes, ssrc.0) == Some(cname));
            assert(values_named(entries, SsrcGroup::name()) =~= none.push(
                AttributeView::SsrcGroup(group_view),
            ));
            lemma_values_of_type_push::<SsrcGroup>(none, AttributeView::SsrcGroup(group_view));
            let groups = all_of::<SsrcGroup>(entries);
            assert(groups =~= seq![group_view]);
            assert(groups.last() == group_view);
            assert(flow_group(groups) == Some(group_view));
            assert(encoding_of_ssrcs(groups, attributes) == Some(encodings[0]));
        },
        None => {
            assert(entries =~= first);
            let attributes = all_of::<SsrcAttribute>(entries);
            assert(attributes =~= seq![first_view]);
            assert(attributes.drop_last() =~= Seq::<SsrcAttributeView>::empty());
            assert(cname_of(attributes, ssrc.0) == Some(cname));
            let groups = all_of::<SsrcGroup>(entries);
            assert(groups =~= Seq::<SsrcGroupView>::empty());
            assert(flow_group(groups) is None);
            assert(encoding_of_ssrcs(groups, attributes) == Some(encodings[0]));
        },
    }
    assert(seq![encodings[0]] =~= encodings);
}

/// What is read back from the media section that a section writes has
/// the encodings of the section that are named by a RID, where there is
/// one; where there is none, it has the one encoding of the section, or
/// none as the section.
pub proof fn lemma_written_encodings_are_read_back(
    section: RtpMediaDescriptionView,
    session: UnifiedBundleSessionView,
)
    ensures
        RtpMediaDescriptionView::from_sdp(section.to_sdp(session)) is Ok,
        rid_encodings(section.encodings).len() > 0 ==> RtpMediaDescriptionView::from_sdp(
            section.to_sdp(session),
        )->Ok_0.encodings == rid_encodings(section.encodings),
        rid_encodings(section.encodings).len() == 0 && section.encodings.len() <= 1
            ==> RtpMediaDescriptionView::from_sdp(section.to_sdp(session))->Ok_0.encodings
            == section.encodings,
{
    lemma_written_section_is_read_back(section, session);
    lemma_encodings_are_found(section, session, Rid::name());
    lemma_encodings_are_found(section, session, SsrcAttribute::name());
    lemma_encodings_are_found(section, session, SsrcGroup::name());
    lemma_rids_are_found(section.encodings);
    let encodings = section.encodings;
    if rid_encodings(encodings).len() == 0 && encodings.len() <= 1 {
        if encodings.len() == 1 {
            assert(encodings.last() == encodings[0]);
            assert(encodings[0] is SendingSsrc);
            lemma_sending_source_is_read(encodings);
        } else {
            let entries = encodings_entries(encodings);
            assert(entries =~= Seq::<Entry>::empty());
            assert(all_of::<SsrcAttribute>(entries) =~= Seq::<SsrcAttributeView>::empty());
            assert(all_of::<SsrcGroup>(entries) =~= Seq::<SsrcGroupView>::empty());
            assert(flow_group(all_of::<SsrcGroup>(entries)) is None);
            assert(encodings_of(
                all_of::<Rid>(entries),
                all_of::<SsrcGroup>(entries),
                all_of::<SsrcAttribute>(entries),
            ) =~= encodings);
        }
    }
}

/// The media sections that sections write are read back one for one,
/// each as what is read from the one that its section writes.
pub proof fn lemma_written_sections_are_read_back(
    sections: Seq<RtpMediaDescriptionView>,
    session: UnifiedBundleSessionView,
    written: Seq<MediaDescriptionView>,
)
    requires
        written.len() == sections.len(),
        forall|k: int|
            0 <= k < sections.len() ==> #[trigger] written[k] == sections[k].to_sdp(session),
    ensures
        sections_from_sdp(written) is Ok,
        sections_from_sdp(written)->Ok_0.len() == sections.len(),
        forall|k: int|
            0 <= k < sections.len() ==> {
                &&& #[trigger] sections_from_sdp(written)->Ok_0[k]
                    == RtpMediaDescriptionView::from_sdp(sections[k].to_sdp(session))->Ok_0
                &&& same_frame(sections_from_sdp(written)->Ok_0[k], sections[k])
            },
    decreases sections.len(),
{
    if sections.len() > 0 {
        lemma_written_sections_are_read_back(
            sections.drop_last(),
            session,
            written.drop_last(),
        );
        lemma_written_section_is_read_back(sections.last(), session);
        assert(written.last() == sections.last().to_sdp(session));
        let head = sections_from_sdp(written.drop_last())->Ok_0;
        let all = sections_from_sdp(written)->Ok_0;
        assert forall|k: int| 0 <= k < sections.len() implies {
            &&& #[trigger] all[k] == RtpMediaDescriptionView::from_sdp(
                sections[k].to_sdp(session),
            )->Ok_0
            &&& same_frame(all[k], sections[k])
        } by {
            if k < head.len() {
                assert(all[k] == head[k]);
                assert(sections.drop_last()[k] == sections[k]);
            }
        }
    }
}

/// The entries of the transport with which the attributes of every media
/// section start: which entry stands where, and what stands under the
/// names of candidates and fingerprints.
proof fn lemma_transport_entries_shape(session: UnifiedBundleSessionView)
    ensures
        ({
            let t = transport_entries(session);
            let k = t.len() - 1;
            &&& k >= 3
            &&& t[0].0 == Rtcp::name()
            &&& t[1] == entry::<IceUfrag>(session.ice_ufrag)
            &&& t[2] == entry::<IcePwd>(session.ice_pwd)
            &&& t[k] == entry::<Setup>(Setup(session.setup_role))
            &&& forall|j: int| 0 <= j < k ==> (#[trigger] t[j]).0 != Setup::name()
            &&& session.ice_options.len() > 0 ==> t[3] == entry::<IceOptions>(
                session.ice_options,
            )
            &&& session.ice_options.len() == 0 ==> none_named(t, IceOptions::name())
            &&& all_of::<Candidate>(t) == session.candidates
            &&& all_of::<Fingerprint>(t) == fingerprints_written(session.fingerprints)
        }),
{
    let head: Seq<Entry> = seq![
        entry::<Rtcp>(
            RtcpView {
                port: 9,
                network_type: Some(NetworkType::Internet),
                address_type: Some(AddressType::Ip4),
                connection_address: Some("0.0.0.0"@),
            },
        ),
        entry::<IceUfrag>(session.ice_ufrag),
        entry::<IcePwd>(session.ice_pwd),
    ];
    let options: Seq<Entry> = if session.ice_options.len() > 0 {
        seq![entry::<IceOptions>(session.ice_options)]
    } else {
        Seq::empty()
    };
    let candidates = candidate_entries(session.candidates);
    let prints = fingerprint_attribute_entries(session.fingerprints);
    let setup: Seq<Entry> = seq![entry::<Setup>(Setup(session.setup_role))];
    lemma_candidate_entries_are_named(session.candidates);
    lemma_fingerprint_entries_are_named(session.fingerprints);
    lemma_names_are_apart();
    let t = transport_entries(session);
    assert(t == head + options + candidates + prints + setup);
    let k: int = t.len() - 1;
    assert(k == 3 + options.len() + candidates.len() + prints.len());
    assert(t[k] == setup[0]);
    let before = head + options;
    let ahead = before + candidates;
    let most = ahead + prints;
    lemma_none_named_concat(head, options, Candidate::name());
    lemma_none_named_concat(head, options, Fingerprint::name());
    lemma_none_named_concat(before, candidates, Fingerprint::name());
    lemma_none_named_concat(head, options, Setup::name());
    lemma_none_named_concat(before, candidates, Setup::name());
    lemma_none_named_concat(ahead, prints, Setup::name());
    assert forall|j: int| 0 <= j < k implies (#[trigger] t[j]).0 != Setup::name() by {
        assert(t[j] == most[j]);
    }
    if session.ice_options.len() == 0 {
        lemma_none_named_concat(head, options, IceOptions::name());
        lemma_none_named_concat(before, candidates, IceOptions::name());
        lemma_none_named_concat(ahead, prints, IceOptions::name());
        lemma_none_named_concat(most, setup, IceOptions::name());
    } else {
        assert(t[3] == options[0]);
    }
    let behind = prints + setup;
    lemma_none_named_concat(prints, setup, Candidate::name());
    lemma_values_named_between(before, candidates, behind, Candidate::name());
    assert(t =~= before + candidates + behind);
    lemma_values_named_between(ahead, prints, setup, Fingerprint::name());
}

/// What is read back from the description that a session with media
/// writes: a session with the identifier and the version of the first and
/// with its transport, which is the ICE lite flag, the ICE credentials,
/// options and candidates, the setup role and the leave to mix extension
/// maps. Its fingerprints are those of the session as a multimap files
/// them. It has as many media sections, each what is read from the media
/// section that was written for it, with the frame of the one that was
/// written.
#[verifier::rlimit(40)]
pub proof fn lemma_written_session_is_read_back(session: UnifiedBundleSessionView)
    requires
        session.media_descriptions.len() > 0,
    ensures
        UnifiedBundleSessionView::from_sdp(session.to_sdp()) is Ok,
        ({
            let read = UnifiedBundleSessionView::from_sdp(session.to_sdp())->Ok_0;
            &&& read.id == session.id
            &&& read.version == session.version
            &&& read.ice_lite == session.ice_lite
            &&& read.ice_ufrag == session.ice_ufrag
            &&& read.ice_pwd == session.ice_pwd
            &&& read.ice_options == session.ice_options
            &&& read.candidates == session.candidates
            &&& read.fingerprints == filed(fingerprints_written(session.fingerprints))
            &&& read.setup_role == session.setup_role
            &&& read.allow_mixed_extension_maps == session.allow_mixed_extension_maps
            &&& read.media_descriptions.len() == session.media_descriptions.len()
            &&& forall|k: int|
                0 <= k < session.media_descriptions.len() ==> {
                    &&& #[trigger] read.media_descriptions[k] == RtpMediaDescriptionView::from_sdp(
                        session.media_descriptions[k].to_sdp(session),
                    )->Ok_0
                    &&& same_frame(read.media_descriptions[k], session.media_descriptions[k])
                }
        }),
{
    let sdp = session.to_sdp();
    let read = UnifiedBundleSessionView::from_sdp(sdp)->Ok_0;
    lemma_written_sections_are_read_back(
        session.media_descriptions,
        session,
        sdp.media_descriptions,
    );
    lemma_names_are_apart();
    let section = session.media_descriptions[0];
    let first = sdp.media_descriptions[0].attributes;
    assert(sdp.media_descriptions[0] == section.to_sdp(session));
    let t = transport_entries(session);
    lemma_transport_entries_shape(session);
    let k = t.len() - 1;
    let t1 = t + seq![entry::<Mid>(section.mid)];
    let t2 = t1 + extension_entries(section.extensions);
    let t3 = t2 + seq![direction_entry(section.direction)];
    let t4 = t3 + flag_entries(section);
    let t5 = t4 + payloads_entries(section.payloads);
    let t6 = t5 + encodings_entries(section.encodings);
    assert(first == t6 + simulcast_entries(section.encodings));
    assert forall|j: int| 0 <= j < t.len() implies #[trigger] first[j] == t[j] by {
        assert(t1[j] == t[j]);
        assert(t2[j] == t1[j]);
        assert(t3[j] == t2[j]);
        assert(t4[j] == t3[j]);
        assert(t5[j] == t4[j]);
        assert(t6[j] == t5[j]);
    }
    assert(first[0] == t[0]);
    assert(first[1] == t[1]);
    assert(first[2] == t[2]);
    assert(first[k] == t[k]);
    assert forall|j: int| 0 <= j < 1 implies (#[trigger] first[j]).0 != IceUfrag::name() by {}
    lemma_lookup_at(first, IceUfrag::name(), 1);
    assert forall|j: int| 0 <= j < 2 implies (#[trigger] first[j]).0 != IcePwd::name() by {}
    lemma_lookup_at(first, IcePwd::name(), 2);
    assert forall|j: int| 0 <= j < k implies (#[trigger] first[j]).0 != Setup::name() by {
        assert(first[j] == t[j]);
    }
    lemma_lookup_at(first, Setup::name(), k);

    let attributes = sdp.attributes;
    assert forall|j: int| 0 <= j < attributes.len() implies {
        &&& (#[trigger] attributes[j]).0 != IceOptions::name()
        &&& attributes[j].0 != Candidate::name()
        &&& attributes[j].0 != Fingerprint::name()
    } by {
        let e = attributes[j];
        assert(e.0 == IceLite::name() || e.0 == Group::name() || e.0
            == ExtensionMapAllowMixed::name());
    }
    if session.ice_lite {
        assert(attributes[0] == entry::<IceLite>(IceLite));
        lemma_lookup_at(attributes, IceLite::name(), 0);
    } else {
        assert forall|j: int| 0 <= j < attributes.len() implies (#[trigger] attributes[j]).0
            != IceLite::name() by {}
        lemma_lookup_none(attributes, IceLite::name());
    }

    lemma_section_adds_nothing(section, session, IceOptions::name());
    lemma_lookup_none(attributes, IceOptions::name());
    if session.ice_options.len() > 0 {
        assert forall|j: int| 0 <= j < 3 implies (#[trigger] t[j]).0 != IceOptions::name() by {}
        lemma_lookup_at(t, IceOptions::name(), 3);
    } else {
        lemma_lookup_none(t, IceOptions::name());
        assert(read.ice_options =~= session.ice_options);
    }

    lemma_section_adds_nothing(section, session, Candidate::name());
    lemma_values_named_none(attributes, Candidate::name());
    assert(all_of::<Candidate>(first) == session.candidates);
    assert(all_of::<Candidate>(attributes) =~= Seq::<CandidateView>::empty());
    assert(read.candidates =~= session.candidates);

    lemma_section_adds_nothing(section, session, Fingerprint::name());
    lemma_values_named_none(attributes, Fingerprint::name());
    let written = fingerprints_written(session.fingerprints);
    assert(all_of::<Fingerprint>(first) == written);
    assert(all_of::<Fingerprint>(attributes) =~= Seq::<FingerprintView>::empty());
    assert(transport_attributes::<Fingerprint>(first, attributes) =~= written);

    lemma_section_adds_nothing(section, session, ExtensionMapAllowMixed::name());
    lemma_transport_entries_are_named(session, ExtensionMapAllowMixed::name());
    lemma_lookup_none(t, ExtensionMapAllowMixed::name());
    let at: int = if session.ice_lite {
        2
    } else {
        1
    };
    if session.allow_mixed_extension_maps {
        assert(attributes[at] == entry::<ExtensionMapAllowMixed>(ExtensionMapAllowMixed));
        assert forall|j: int| 0 <= j < at implies (#[trigger] attributes[j]).0
            != ExtensionMapAllowMixed::name() by {}
        lemma_lookup_at(attributes, ExtensionMapAllowMixed::name(), at);
    } else {
        assert forall|j: int| 0 <= j < attributes.len() implies (#[trigger] attributes[j]).0
            != ExtensionMapAllowMixed::name() by {}
        lemma_lookup_none(attributes, ExtensionMapAllowMixed::name());
    }
}

/// As many media sections mean something as there are, where all do.
pub proof fn lemma_sections_keep_their_number(sections: Seq<MediaDescriptionView>)
    requires
        sections_from_sdp(sections) is Ok,
    ensures
        sections_from_sdp(sections)->Ok_0.len() == sections.len(),
    decreases sections.len(),
{
    if sections.len() > 0 {
        lemma_sections_keep_their_number(sections.drop_last());
    }
}

/// The hash function under which a fingerprint is filed is the same as its
/// own, and a fingerprint with that hash function is filed under it too.
proof fn lemma_filed_under_settles(
    entries: Seq<(FingerprintHashFunctionView, Seq<u8>)>,
    hash_function: FingerprintHashFunctionView,
)
    ensures
        filed_under(entries, hash_function).same(hash_function),
        filed_under(entries, filed_under(entries, hash_function)) == filed_under(
            entries,
            hash_function,
        ),
    decreases entries.len(),
{
    if entries.len() > 0 && !entries[0].0.same(hash_function) {
        lemma_filed_under_settles(entries.skip(1), hash_function);
    }
}

/// Fingerprints that were filed stay as they are when they are filed
/// again.
pub proof fn lemma_filed_fingerprints_stay(fingerprints: Seq<FingerprintView>)
    ensures
        filed(fingerprints_written(filed(fingerprints))) == filed(fingerprints),
    decreases fingerprints.len(),
{
    let all = filed(fingerprints);
    if fingerprints.len() > 0 {
        let head = filed(fingerprints.drop_last());
        lemma_filed_fingerprints_stay(fingerprints.drop_last());
        lemma_filed_under_settles(head, fingerprints.last().hash_function);
        assert(fingerprints_written(all).drop_last() =~= fingerprints_written(head));
    } else {
        assert(fingerprints_written(all) =~= Seq::<FingerprintView>::empty());
    }
}

/// A session that was read from a description keeps its fingerprints when
/// it is written and read again.
pub proof fn lemma_read_fingerprints_are_kept(sdp: SessionView)
    requires
        UnifiedBundleSessionView::from_sdp(sdp) is Ok,
    ensures
        UnifiedBundleSessionView::from_sdp(
            UnifiedBundleSessionView::from_sdp(sdp)->Ok_0.to_sdp(),
        ) is Ok,
        UnifiedBundleSessionView::from_sdp(
            UnifiedBundleSessionView::from_sdp(sdp)->Ok_0.to_sdp(),
        )->Ok_0.fingerprints == UnifiedBundleSessionView::from_sdp(sdp)->Ok_0.fingerprints,
{
    let session = UnifiedBundleSessionView::from_sdp(sdp)->Ok_0;
    lemma_sections_keep_their_number(sdp.media_descriptions);
    lemma_written_session_is_read_back(session);
    lemma_filed_fingerprints_stay(
        transport_attributes::<Fingerprint>(sdp.media_descriptions[0].attributes, sdp.attributes),
    );
}

} // verus!
