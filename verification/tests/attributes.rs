use semantic_sdp::attributes::{
    parse_opaque, BundleOnly, Candidate, ExtensionMap, Fingerprint, FormatParameters, Group,
    IceOptions, IceUfrag, MaxPacketTime, MediaStreamId, MediaStreamIdSemantic, PacketTime, Rid,
    Rtcp, RtcpFeedback, RtpMap, Setup, SsrcAttribute, SsrcGroup,
};
use semantic_sdp::enums::{
    AddressType, ExtensionMapDirection, FingerprintHashFunction, GroupSemantics, IceCandidateType,
    IceOption, IceTcpType, IceTransportType, NetworkType, RidDirection, SetupRole,
    SsrcGroupSemantics,
};
use semantic_sdp::registry::{parse_attribute, Attribute, NamedAttribute, ParsableAttribute};
use semantic_sdp::text::chars_of;
use semantic_sdp::types::{CertificateFingerprint, InvalidNumber, Mid, PayloadType, Ssrc};

fn chars(text: &str) -> Vec<char> {
    text.chars().collect()
}

#[test]
fn chars_of_gives_the_characters_in_order() {
    assert_eq!(chars_of("a\u{e9}b"), vec!['a', '\u{e9}', 'b']);
    assert_eq!(chars_of(""), Vec::<char>::new());
}

#[test]
fn property_attribute_takes_nothing_but_the_line_end() {
    assert_eq!(BundleOnly::parse(&chars("\r\nrest"), 0), Some((BundleOnly, 2)));
    assert_eq!(BundleOnly::parse(&chars("\nrest"), 0), Some((BundleOnly, 1)));
    assert_eq!(BundleOnly::parse(&chars(""), 0), Some((BundleOnly, 0)));
    assert_eq!(BundleOnly::parse(&chars(":x\r\n"), 0), None);
    assert_eq!(BundleOnly::parse(&chars("\rx"), 0), None);
    assert_eq!(BundleOnly.to_string(), None);
}

#[test]
fn simple_values_take_the_rest_of_the_line() {
    assert_eq!(
        IceUfrag::parse(&chars("a=ice-ufrag:ab cd\r\nx"), 11),
        Some((IceUfrag("ab cd".to_owned()), 19))
    );
    assert_eq!(IceUfrag::parse(&chars("ab"), 0), None);
    assert_eq!(IceUfrag("f".to_owned()).to_string(), Some("f".to_owned()));
    assert_eq!(PacketTime::parse(&chars(":20\r\n"), 0), Some((PacketTime(20), 5)));
    assert_eq!(PacketTime::parse(&chars(":+20"), 0), Some((PacketTime(20), 4)));
    assert_eq!(PacketTime::parse(&chars(": 20\r\n"), 0), None);
    assert_eq!(PacketTime::parse(&chars(":4294967296\r\n"), 0), None);
    assert_eq!(MaxPacketTime::parse(&chars(":4294967295"), 0), Some((MaxPacketTime(4294967295), 11)));
    assert_eq!(MaxPacketTime(60).to_string(), Some("60".to_owned()));
    assert_eq!(Setup::parse(&chars(":ActPass\n"), 0), Some((Setup(SetupRole::ActivePassive), 9)));
    assert_eq!(Setup::parse(&chars(":both\n"), 0), None);
    assert_eq!(Setup(SetupRole::HoldConnection).to_string(), Some("holdconn".to_owned()));
}

#[test]
fn opaque_value_is_optional_free_text() {
    assert_eq!(parse_opaque(&chars(":a b:c\r\n"), 0), Some((Some("a b:c".to_owned()), 8)));
    assert_eq!(parse_opaque(&chars(":\r\n"), 0), Some((Some("".to_owned()), 3)));
    assert_eq!(parse_opaque(&chars("\r\n"), 0), Some((None, 2)));
    assert_eq!(parse_opaque(&chars(":a\rb"), 0), None);
    assert_eq!(parse_opaque(&chars("x"), 0), None);
}

#[test]
fn rtpmap_is_read_and_written() {
    let (map, next) = RtpMap::parse(&chars(":111 opus/48000/2\r\n"), 0).unwrap();
    assert_eq!(map, RtpMap { payload: 111, name: "opus".to_owned(), clock: 48000, channels: Some(2) });
    assert_eq!(next, 19);
    assert_eq!(map.to_string(), Some("111 opus/48000/2".to_owned()));
    let (map, _) = RtpMap::parse(&chars(":0 PCMU/8000"), 0).unwrap();
    assert_eq!(map.channels, None);
    assert_eq!(map.to_string(), Some("0 PCMU/8000".to_owned()));
    assert_eq!(RtpMap::parse(&chars(":256 x/1\r\n"), 0), None);
    assert_eq!(RtpMap::parse(&chars(":1 x\r\n"), 0), None);
    assert_eq!(RtpMap::parse(&chars(":1 x/y\r\n"), 0), None);
    assert_eq!(RtpMap::parse(&chars(":1 x/1/z\r\n"), 0), None);
    assert_eq!(RtpMap::parse(&chars(":1 /1\r\n"), 0), None);
}

#[test]
fn fmtp_keeps_its_parameters_as_text() {
    let (format, next) = FormatParameters::parse(&chars(":96 a=1; b\r\n"), 0).unwrap();
    assert_eq!(format, FormatParameters { payload: 96, parameters: "a=1; b".to_owned() });
    assert_eq!(next, 12);
    assert_eq!(format.to_string(), Some("96 a=1; b".to_owned()));
    assert_eq!(FormatParameters::parse(&chars(":96\r\n"), 0), None);
}

#[test]
fn candidate_is_read_and_written() {
    let line = ":1853887674 2 udp 1518280447 47.61.61.61 36768 typ srflx raddr 192.168.0.196 rport 36768 Generation 0 tcptype so Generation 1";
    let (candidate, next) = Candidate::parse(&chars(&format!("{}\r\n", line)), 0).unwrap();
    assert_eq!(next, line.chars().count() + 2);
    assert_eq!(
        candidate,
        Candidate {
            foundation: "1853887674".to_owned(),
            component: 2,
            transport: IceTransportType::Udp,
            priority: 1518280447,
            address: "47.61.61.61".to_owned(),
            port: 36768,
            kind: IceCandidateType::ServerReflexive,
            rel_addr: Some("192.168.0.196".to_owned()),
            rel_port: Some(36768),
            unknown: vec![("generation".to_owned(), "1".to_owned())],
            tcp_type: Some(IceTcpType::SimultaneousOpen),
        }
    );
    assert_eq!(
        candidate.to_string(),
        Some(
            "1853887674 2 UDP 1518280447 47.61.61.61 36768 typ srflx raddr 192.168.0.196 rport 36768 tcptype so generation 1"
                .to_owned()
        )
    );
    let (host, _) = Candidate::parse(&chars(":1 1 SCTP 9 h 5 TYP relay2"), 0).unwrap();
    assert_eq!(host.transport, IceTransportType::Unknown("SCTP".to_owned()));
    assert_eq!(host.kind, IceCandidateType::Unknown("relay2".to_owned()));
    assert_eq!(host.to_string(), Some("1 1 SCTP 9 h 5 typ relay2".to_owned()));
    assert_eq!(Candidate::parse(&chars(":1 1 UDP 9 h 5 host\r\n"), 0), None);
    assert_eq!(Candidate::parse(&chars(":1 1 UDP 9 h 65536 typ host\r\n"), 0), None);
    assert_eq!(Candidate::parse(&chars(":1 1 UDP 9 h 5 typ host tcptype up\r\n"), 0), None);
    assert_eq!(Candidate::parse(&chars(":1 1 UDP 9 h 5 typ host odd\r\n"), 0), None);
}

#[test]
fn ice_options_are_a_set_in_order_of_arrival() {
    let (options, next) = IceOptions::parse(&chars(":ice2 trickle ICE2\r\n"), 0).unwrap();
    assert_eq!(next, 20);
    assert_eq!(
        options,
        IceOptions(vec![IceOption::Unknown("ice2".to_owned()), IceOption::Trickle])
    );
    assert_eq!(options.to_string(), Some("ice2 trickle".to_owned()));
    assert_eq!(IceOptions::parse(&chars(":\r\n"), 0), None);
}

#[test]
fn fingerprint_is_read_and_written_in_upper_case() {
    let (print, next) = Fingerprint::parse(&chars(":SHA-256 0a:B:00ff\r\n"), 0).unwrap();
    assert_eq!(next, 20);
    assert_eq!(
        print,
        Fingerprint { hash_function: FingerprintHashFunction::Sha256, fingerprint: vec![10, 11, 255] }
    );
    assert_eq!(print.to_string(), Some("sha-256 0A:0B:FF".to_owned()));
    assert_eq!(Fingerprint::parse(&chars(":sha-1 100\r\n"), 0), None);
    assert_eq!(Fingerprint::parse(&chars(":sha-1 0A:\r\n"), 0), None);
    assert_eq!(Fingerprint::parse(&chars(":sha-1 +A\r\n"), 0), None);
    assert_eq!(Fingerprint::parse(&chars(":sha-1 0G\r\n"), 0), None);
}

#[test]
fn group_and_ssrc_group_need_at_least_one_member() {
    let (group, _) = Group::parse(&chars(":bundle 0 1\r\n"), 0).unwrap();
    assert_eq!(
        group,
        Group { semantics: GroupSemantics::Bundle, mids: vec!["0".to_owned(), "1".to_owned()] }
    );
    assert_eq!(group.to_string(), Some("BUNDLE 0 1".to_owned()));
    assert_eq!(Group::parse(&chars(":BUNDLE\r\n"), 0), None);
    let (ssrcs, _) = SsrcGroup::parse(&chars(":FID 1 4294967295\r\n"), 0).unwrap();
    assert_eq!(
        ssrcs,
        SsrcGroup { semantics: SsrcGroupSemantics::FlowIdentification, ssrcs: vec![1, 4294967295] }
    );
    assert_eq!(ssrcs.to_string(), Some("FID 1 4294967295".to_owned()));
    assert_eq!(SsrcGroup::parse(&chars(":SIM 1 x\r\n"), 0), None);
    assert_eq!(SsrcGroup::parse(&chars(":SIM\r\n"), 0), None);
    assert_eq!(SsrcGroup::parse(&chars(":SIM 4294967296\r\n"), 0), None);
}

#[test]
fn ssrc_attribute_value_is_optional() {
    let (with, _) = SsrcAttribute::parse(&chars(":7 cname:a b\r\n"), 0).unwrap();
    assert_eq!(
        with,
        SsrcAttribute { ssrc: 7, name: "cname".to_owned(), value: Some("a b".to_owned()) }
    );
    assert_eq!(with.to_string(), Some("7 cname:a b".to_owned()));
    let (without, next) = SsrcAttribute::parse(&chars(":7 flag"), 0).unwrap();
    assert_eq!(without, SsrcAttribute { ssrc: 7, name: "flag".to_owned(), value: None });
    assert_eq!(next, 7);
    assert_eq!(without.to_string(), Some("7 flag".to_owned()));
    assert_eq!(SsrcAttribute::parse(&chars(":x cname:a\r\n"), 0), None);
}

#[test]
fn rtcp_address_is_optional() {
    let (bare, _) = Rtcp::parse(&chars(":9\r\n"), 0).unwrap();
    assert_eq!(
        bare,
        Rtcp { port: 9, network_type: None, address_type: None, connection_address: None }
    );
    assert_eq!(bare.to_string(), Some("9".to_owned()));
    let (full, _) = Rtcp::parse(&chars(":53020 in ip6 ::1\r\n"), 0).unwrap();
    assert_eq!(
        full,
        Rtcp {
            port: 53020,
            network_type: Some(NetworkType::Internet),
            address_type: Some(AddressType::Ip6),
            connection_address: Some("::1".to_owned()),
        }
    );
    assert_eq!(full.to_string(), Some("53020 IN IP6 ::1".to_owned()));
    assert_eq!(Rtcp::parse(&chars(":9 IN IP5 h\r\n"), 0), None);
    assert_eq!(Rtcp::parse(&chars(":9 IN IP4\r\n"), 0), None);
    let partial =
        Rtcp { port: 1, network_type: None, address_type: None, connection_address: Some("h".to_owned()) };
    assert_eq!(partial.to_string(), Some("1".to_owned()));
}

#[test]
fn rtcp_feedback_payload_may_be_a_wildcard() {
    let (exact, _) = RtcpFeedback::parse(&chars(":96 nack pli\r\n"), 0).unwrap();
    assert_eq!(
        exact,
        RtcpFeedback { payload: Some(96), id: "nack".to_owned(), param: Some("pli".to_owned()) }
    );
    assert_eq!(exact.to_string(), Some("96 nack pli".to_owned()));
    let (all, _) = RtcpFeedback::parse(&chars(":* goog-remb\r\n"), 0).unwrap();
    assert_eq!(all, RtcpFeedback { payload: None, id: "goog-remb".to_owned(), param: None });
    assert_eq!(all.to_string(), Some("* goog-remb".to_owned()));
    let (bare, _) = RtcpFeedback::parse(&chars(":nack\r\n"), 0).unwrap();
    assert_eq!(bare, RtcpFeedback { payload: None, id: "nack".to_owned(), param: None });
    assert_eq!(RtcpFeedback::parse(&chars(":96 nack pli more\r\n"), 0), None);
    assert_eq!(RtcpFeedback::parse(&chars(":96\r\n"), 0), None);
}

#[test]
fn extension_map_direction_and_attributes_are_optional() {
    let (plain, _) = ExtensionMap::parse(&chars(":1 urn:x\r\n"), 0).unwrap();
    assert_eq!(
        plain,
        ExtensionMap { id: 1, direction: None, extension: "urn:x".to_owned(), attributes: vec![] }
    );
    assert_eq!(plain.to_string(), Some("1 urn:x".to_owned()));
    let (full, _) = ExtensionMap::parse(&chars(":65535/RecvOnly urn:y a b\r\n"), 0).unwrap();
    assert_eq!(
        full,
        ExtensionMap {
            id: 65535,
            direction: Some(ExtensionMapDirection::ReceiveOnly),
            extension: "urn:y".to_owned(),
            attributes: vec!["a".to_owned(), "b".to_owned()],
        }
    );
    assert_eq!(full.to_string(), Some("65535/recvonly urn:y a b".to_owned()));
    assert_eq!(ExtensionMap::parse(&chars(":1/up urn:x\r\n"), 0), None);
    assert_eq!(ExtensionMap::parse(&chars(":65536 urn:x\r\n"), 0), None);
    assert_eq!(ExtensionMap::parse(&chars(":1\r\n"), 0), None);
}

#[test]
fn msid_and_msid_semantic_are_read_and_written() {
    let (msid, _) = MediaStreamId::parse(&chars(":stream track\r\n"), 0).unwrap();
    assert_eq!(
        msid,
        MediaStreamId { id: "stream".to_owned(), appdata: Some("track".to_owned()) }
    );
    assert_eq!(msid.to_string(), Some("stream track".to_owned()));
    let (alone, _) = MediaStreamId::parse(&chars(":stream\r\n"), 0).unwrap();
    assert_eq!(alone.appdata, None);
    assert_eq!(alone.to_string(), Some("stream".to_owned()));
    let (semantic, _) = MediaStreamIdSemantic::parse(&chars(": WMS a b\r\n"), 0).unwrap();
    assert_eq!(
        semantic,
        MediaStreamIdSemantic { semantic: "WMS".to_owned(), msids: vec!["a".to_owned(), "b".to_owned()] }
    );
    assert_eq!(semantic.to_string(), Some(" WMS a b".to_owned()));
    let (tight, _) = MediaStreamIdSemantic::parse(&chars(":WMS\r\n"), 0).unwrap();
    assert_eq!(tight.to_string(), Some(" WMS".to_owned()));
    assert_eq!(MediaStreamIdSemantic::parse(&chars(":\r\n"), 0), None);
}

#[test]
fn rid_restrictions_are_optional() {
    let (plain, _) = Rid::parse(&chars(":h send\r\n"), 0).unwrap();
    assert_eq!(
        plain,
        Rid { rid: "h".to_owned(), direction: RidDirection::Send, restrictions: None }
    );
    assert_eq!(plain.to_string(), Some("h send".to_owned()));
    let (restricted, _) = Rid::parse(&chars(":l RECV pt=96;max-width=320\r\n"), 0).unwrap();
    assert_eq!(
        restricted,
        Rid {
            rid: "l".to_owned(),
            direction: RidDirection::Receive,
            restrictions: Some("pt=96;max-width=320".to_owned()),
        }
    );
    assert_eq!(restricted.to_string(), Some("l recv pt=96;max-width=320".to_owned()));
    assert_eq!(Rid::parse(&chars(":h both\r\n"), 0), None);
    assert_eq!(Rid::parse(&chars(":h\r\n"), 0), None);
}

#[test]
fn registry_reads_by_name_and_falls_back_to_free_text() {
    match parse_attribute("mid", &chars(":0\r\n"), 0) {
        Some((Attribute::Mid(mid), 4)) => assert_eq!(mid.0, "0"),
        other => panic!("{:?}", other),
    }
    match parse_attribute("x-mid", &chars(":0\r\n"), 0) {
        Some((Attribute::Unknown(value), 4)) => assert_eq!(value, Some("0".to_owned())),
        other => panic!("{:?}", other),
    }
    match parse_attribute("MID", &chars(":0\r\n"), 0) {
        Some((Attribute::Unknown(_), 4)) => {}
        other => panic!("{:?}", other),
    }
    assert!(parse_attribute("rtpmap", &chars(":0\r\n"), 0).is_none());
    assert!(parse_attribute("ice-lite", &chars(":0\r\n"), 0).is_none());
    let attribute = parse_attribute("rtcp-mux-only", &chars(""), 0).unwrap().0;
    assert!(!attribute.is_raw());
    assert_eq!(attribute.to_string(), None);
}

#[test]
fn small_value_types_are_read_and_written() {
    assert_eq!(
        CertificateFingerprint::from_str("0A:+b:ff").unwrap(),
        CertificateFingerprint(vec![10, 11, 255])
    );
    assert_eq!(CertificateFingerprint::from_str("0A::ff").map(|f| f.0), Err(InvalidNumber));
    assert_eq!(CertificateFingerprint::from_str("100").map(|f| f.0), Err(InvalidNumber));
    assert_eq!(CertificateFingerprint::from_str("").map(|f| f.0), Err(InvalidNumber));
    assert_eq!(CertificateFingerprint(vec![0, 171, 255]).to_string(), "00:AB:FF");
    assert_eq!(CertificateFingerprint(vec![]).to_string(), "");
    assert_eq!(Ssrc::from_str("4294967295"), Ok(Ssrc(4294967295)));
    assert_eq!(Ssrc::from_str("4294967296"), Err(InvalidNumber));
    assert_eq!(Ssrc::from_str("-1"), Err(InvalidNumber));
    assert_eq!(Ssrc(17).to_string(), "17");
    assert_eq!(Ssrc::from(5u32), Ssrc(5));
    assert_eq!(PayloadType::from_str("007"), Ok(PayloadType(7)));
    assert_eq!(PayloadType::from_str("256"), Err(InvalidNumber));
    assert_eq!(PayloadType(0).to_string(), "0");
    assert_eq!(Mid::from_str("a").unwrap(), Mid("a".to_owned()));
    assert_eq!(Mid("a".to_owned()).to_string(), "a");
    assert_eq!(Mid("a".to_owned()).borrow(), "a");
}

fn read_line<T: NamedAttribute>(line: &str) -> Option<T> {
    let prefix = format!("a={}", T::NAME);
    let rest = line.strip_prefix(prefix.as_str())?;
    <T as ParsableAttribute>::parse(&chars(rest), 0).map(|r| r.0)
}

fn write_line<T: NamedAttribute>(attribute: &T) -> String {
    match <T as ParsableAttribute>::to_string(attribute) {
        Some(value) => format!("a={}:{}", T::NAME, value),
        None => format!("a={}", T::NAME),
    }
}

#[test]
fn attribute_types_are_read_and_written_through_their_trait() {
    let map: RtpMap = read_line("a=rtpmap:8 PCMA/8000").unwrap();
    assert_eq!(map.payload, 8);
    assert_eq!(write_line(&map), "a=rtpmap:8 PCMA/8000");
    let only: BundleOnly = read_line("a=bundle-only").unwrap();
    assert_eq!(write_line(&only), "a=bundle-only");
    assert_eq!(read_line::<Setup>("a=setup:nobody"), None);
    assert_eq!(read_line::<Setup>("a=rtpmap:8 PCMA/8000"), None);
}
