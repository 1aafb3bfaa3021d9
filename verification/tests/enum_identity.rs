use semantic_sdp::enums::GroupSemantics;
use semantic_sdp::enums::{IceTcpType, MediaType, RtpCodecName, SetupRole, TransportProtocol};
use semantic_sdp::EnumParseError;
use std::collections::hash_map::DefaultHasher;
use std::hash::{Hash, Hasher};

#[test]
fn parse_unknown_preserve_case() {
    let gs = GroupSemantics::from_str("FOO").unwrap();
    if let GroupSemantics::Unknown(s) = gs {
        assert_eq!(s, "FOO");
    } else {
        panic!("FOO was not parsed as GroupSemantics::Unknown");
    }
}

#[test]
fn enum_unknown_eq() {
    assert_eq!(GroupSemantics::Bundle, GroupSemantics::Bundle);
    assert_eq!(GroupSemantics::Bundle, GroupSemantics::Unknown("BUNDLE".to_owned()));
    assert_eq!(GroupSemantics::Unknown("BUNDLE".to_owned()), GroupSemantics::Bundle);
    assert_eq!(GroupSemantics::Bundle, GroupSemantics::Unknown("bundle".to_owned()));
    assert_eq!(GroupSemantics::Unknown("bundle".to_owned()), GroupSemantics::Bundle);
    assert_eq!(
        GroupSemantics::Unknown("BUNDLE".to_owned()),
        GroupSemantics::Unknown("BUNDLE".to_owned())
    );
    assert_eq!(
        GroupSemantics::Unknown("bundle".to_owned()),
        GroupSemantics::Unknown("BUNDLE".to_owned())
    );
    assert_eq!(
        GroupSemantics::Unknown("BUNDLE".to_owned()),
        GroupSemantics::Unknown("bundle".to_owned())
    );
}

fn h(v: GroupSemantics) -> u64 {
    let mut hasher = DefaultHasher::new();
    v.hash(&mut hasher);
    hasher.finish()
}

#[test]
fn enum_hash_eq() {
    assert_eq!(h(GroupSemantics::Bundle), h(GroupSemantics::Bundle));
    assert_eq!(
        h(GroupSemantics::Bundle),
        h(GroupSemantics::Unknown("BUNDLE".to_owned()))
    );
    assert_eq!(
        h(GroupSemantics::Unknown("BUNDLE".to_owned())),
        h(GroupSemantics::Bundle)
    );
    assert_eq!(
        h(GroupSemantics::Bundle),
        h(GroupSemantics::Unknown("bundle".to_owned()))
    );
    assert_eq!(
        h(GroupSemantics::Unknown("bundle".to_owned())),
        h(GroupSemantics::Bundle)
    );
    assert_eq!(
        h(GroupSemantics::Unknown("BUNDLE".to_owned())),
        h(GroupSemantics::Unknown("BUNDLE".to_owned()))
    );
    assert_eq!(
        h(GroupSemantics::Unknown("bundle".to_owned())),
        h(GroupSemantics::Unknown("BUNDLE".to_owned()))
    );
    assert_eq!(
        h(GroupSemantics::Unknown("BUNDLE".to_owned())),
        h(GroupSemantics::Unknown("bundle".to_owned()))
    );
}

#[test]
fn enum_values_that_differ_are_not_equal() {
    assert_ne!(GroupSemantics::Bundle, GroupSemantics::FlowIdentification);
    assert_ne!(GroupSemantics::Bundle, GroupSemantics::Unknown("BUNDLES".to_owned()));
    assert_ne!(h(GroupSemantics::Bundle), h(GroupSemantics::LipSynchronization));
}

#[test]
fn enum_reads_known_tokens_in_any_case() {
    assert!(matches!(GroupSemantics::from_str("bundle"), Ok(GroupSemantics::Bundle)));
    assert!(matches!(GroupSemantics::from_str("Fid"), Ok(GroupSemantics::FlowIdentification)));
    assert!(matches!(MediaType::from_str("AUDIO"), Ok(MediaType::Audio)));
    assert!(matches!(RtpCodecName::from_str("h264"), Ok(RtpCodecName::H264)));
    assert!(matches!(
        TransportProtocol::from_str("udp/tls/rtp/savpf"),
        Ok(TransportProtocol::UdpTlsRtpSavpf)
    ));
}

#[test]
fn enum_writes_the_canonical_text() {
    assert_eq!(GroupSemantics::Bundle.to_string(), "BUNDLE");
    assert_eq!(GroupSemantics::Unknown("FoO".to_owned()).to_string(), "FoO");
    assert_eq!(RtpCodecName::TelephoneEvent.as_str(), "telephone-event");
    assert_eq!(SetupRole::ActivePassive.to_string(), "actpass");
}

#[test]
fn fixed_enum_refuses_unlisted_tokens() {
    assert_eq!(SetupRole::from_str("sideways"), Err(EnumParseError::VariantNotFound));
    assert_eq!(IceTcpType::from_str("SO"), Ok(IceTcpType::SimultaneousOpen));
    assert_eq!(SetupRole::from_str("ACTIVE"), Ok(SetupRole::Active));
}

#[test]
fn setup_role_reverses_active_and_passive_only() {
    assert_eq!(SetupRole::Active.reverse(), SetupRole::Passive);
    assert_eq!(SetupRole::Passive.reverse(), SetupRole::Active);
    assert_eq!(SetupRole::ActivePassive.reverse(), SetupRole::ActivePassive);
    assert_eq!(SetupRole::HoldConnection.reverse(), SetupRole::HoldConnection);
}

#[test]
fn equal_values_hand_the_same_text_to_a_hasher() {
    assert_eq!(GroupSemantics::Bundle.hash_key(), "bundle");
    assert_eq!(GroupSemantics::Unknown("BUNDLE".to_owned()).hash_key(), "bundle");
    assert_eq!(GroupSemantics::Unknown("BunDle".to_owned()).hash_key(), "bundle");
    assert_eq!(GroupSemantics::Unknown("Other".to_owned()).hash_key(), "other");
    assert_eq!(RtpCodecName::TelephoneEvent.hash_key(), "telephone-event");
    assert_eq!(
        h(GroupSemantics::Unknown("BunDle".to_owned())),
        h(GroupSemantics::Bundle)
    );
}

#[test]
fn unlisted_transport_protocol_is_kept_as_written() {
    let read = TransportProtocol::from_str("Udp/Quic/Rtp").unwrap();
    assert!(matches!(&read, TransportProtocol::Unknown(text) if text == "Udp/Quic/Rtp"));
    assert_eq!(read.to_string(), "Udp/Quic/Rtp");
    assert_eq!(read, TransportProtocol::Unknown("UDP/QUIC/RTP".to_owned()));
    assert_eq!(read.hash_key(), "udp/quic/rtp");
}
