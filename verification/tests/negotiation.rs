use semantic_sdp::native::{
    library_init, set_port_range, DtlsConnectionHash, LoggerSwitches, LoggingLevel,
    MediaFrameType, Properties, PropertyValue, RtpBundleTransport, RtpIncomingSourceGroup,
};
use semantic_sdp::negotiation::{
    add_rtp_properties_from_media_description, complete_answer, get_rtp_properties_from_sdp,
    handle_offer,
};
use semantic_sdp::webrtc::UnifiedBundleSession;

const OFFER: &str = "v=0\r\no=- 5 6 IN IP4 h\r\ns=-\r\nt=0 0\r\nm=audio 9 UDP/TLS/RTP/SAVPF 111 8\r\n\
a=ice-ufrag:remote\r\na=ice-pwd:secret\r\na=fingerprint:sha-1 01\r\na=fingerprint:SHA-256 0a:1B\r\n\
a=setup:actpass\r\na=mid:a\r\na=extmap:1 urn:ietf:params:rtp-hdrext:ssrc-audio-level\r\n\
a=extmap:9 urn:unsupported\r\na=rtpmap:111 opus/48000/2\r\na=rtpmap:8 PCMA/8000\r\na=ssrc:7 cname:c\r\n\
m=video 9 UDP/TLS/RTP/SAVPF 96 97 98\r\na=mid:v\r\na=rtpmap:96 VP8/90000\r\na=rtpmap:97 rtx/90000\r\n\
a=fmtp:97 apt=96\r\na=rtpmap:98 H264/90000\r\na=rid:h send\r\na=rid:l send\r\n\
m=text 9 RTP/AVP 100\r\na=mid:t\r\na=ssrc:9 cname:c\r\n";

fn text(value: &str) -> PropertyValue {
    PropertyValue::Text(value.to_owned())
}

#[test]
fn create_transport() {
    let transport = RtpBundleTransport::new(Some(0));

    let port = transport.get_local_port();
    println!("Port: {:?}", port);
}

#[test]
fn transport_keeps_the_port_it_was_made_with() {
    assert_eq!(RtpBundleTransport::new(None).get_local_port(), 0);
    assert_eq!(RtpBundleTransport::new(Some(40000)).get_local_port(), 40000);
}

#[test]
fn logger_switches_follow_the_level() {
    assert_eq!(
        library_init(LoggingLevel::Off),
        LoggerSwitches { log: false, debug: false, ultra_debug: false }
    );
    assert_eq!(
        library_init(LoggingLevel::Default),
        LoggerSwitches { log: true, debug: false, ultra_debug: false }
    );
    assert_eq!(
        library_init(LoggingLevel::Debug),
        LoggerSwitches { log: true, debug: true, ultra_debug: false }
    );
    assert_eq!(
        library_init(LoggingLevel::UltraDebug),
        LoggerSwitches { log: true, debug: true, ultra_debug: true }
    );
    assert_eq!(set_port_range(None), (0, 0));
    assert_eq!(set_port_range(Some((10000, 20000))), (10000, 20000));
    assert_eq!(DtlsConnectionHash::Sha256.as_str(), "SHA-256");
}

#[test]
fn properties_hold_one_value_per_key() {
    let mut properties = Properties::new();
    assert!(properties.0.is_empty());
    properties.set_int("a", 1);
    properties.set_bool("b", true);
    properties.set_string("c", "x");
    properties.set_string("a", "again");
    assert_eq!(
        properties.0,
        vec![
            ("a".to_owned(), text("again")),
            ("b".to_owned(), PropertyValue::Bool(true)),
            ("c".to_owned(), text("x")),
        ]
    );
    assert_eq!(Properties::default().0.len(), 0);
}

#[test]
fn connection_records_what_is_asked_of_it() {
    let transport = RtpBundleTransport::new(None);
    let mut properties = Properties::new();
    properties.set_string("ice.localUsername", "one");
    let mut connection = transport.add_ice_transport("one:two", &properties);
    assert_eq!(connection.username, "one:two");
    assert_eq!(connection.properties, properties);
    assert_eq!(connection.remote_properties, None);
    let group = connection.add_incoming_source_group(MediaFrameType::Video, Some("m"), None, Some(5), None);
    assert_eq!(
        group,
        RtpIncomingSourceGroup {
            kind: MediaFrameType::Video,
            mid: "m".to_owned(),
            rid: "".to_owned(),
            media_ssrc: 5,
            rtx_ssrc: 0
        }
    );
    let outgoing = connection.add_outgoing_source_group(MediaFrameType::Audio, None, 8, Some(9));
    assert_eq!(outgoing.mid, "");
    assert_eq!(outgoing.media_ssrc, 8);
    assert_eq!(outgoing.rtx_ssrc, 9);
    connection.add_remote_candidate("127.0.0.1", 4000);
    connection.set_local_properties(&properties);
    assert_eq!(connection.incoming_source_groups, vec![group]);
    assert_eq!(connection.outgoing_source_groups.len(), 1);
    assert_eq!(connection.remote_candidates, vec![("127.0.0.1".to_owned(), 4000)]);
    assert_eq!(connection.local_properties, Some(properties));
}

#[test]
fn rtp_properties_list_codecs_and_extensions_by_kind() {
    let offer = UnifiedBundleSession::from_str(OFFER).unwrap();
    let properties = get_rtp_properties_from_sdp(&offer);
    assert_eq!(
        properties.0,
        vec![
            ("audio.codecs.0.codec".to_owned(), text("opus")),
            ("audio.codecs.0.pt".to_owned(), PropertyValue::Int(111)),
            ("audio.codecs.1.codec".to_owned(), text("PCMA")),
            ("audio.codecs.1.pt".to_owned(), PropertyValue::Int(8)),
            ("audio.codecs.length".to_owned(), PropertyValue::Int(2)),
            ("audio.ext.0.id".to_owned(), PropertyValue::Int(1)),
            ("audio.ext.0.uri".to_owned(), text("urn:ietf:params:rtp-hdrext:ssrc-audio-level")),
            ("audio.ext.1.id".to_owned(), PropertyValue::Int(9)),
            ("audio.ext.1.uri".to_owned(), text("urn:unsupported")),
            ("audio.ext.length".to_owned(), PropertyValue::Int(2)),
            ("video.codecs.0.codec".to_owned(), text("VP8")),
            ("video.codecs.0.pt".to_owned(), PropertyValue::Int(96)),
            ("video.codecs.0.rtx".to_owned(), PropertyValue::Int(97)),
            ("video.codecs.1.codec".to_owned(), text("H264")),
            ("video.codecs.1.pt".to_owned(), PropertyValue::Int(98)),
            ("video.codecs.length".to_owned(), PropertyValue::Int(2)),
            ("video.ext.length".to_owned(), PropertyValue::Int(0)),
        ]
    );
    let mut again = Properties::new();
    add_rtp_properties_from_media_description(&mut again, &offer.media_descriptions[2]);
    assert_eq!(
        again.0,
        vec![
            ("text.codecs.length".to_owned(), PropertyValue::Int(0)),
            ("text.ext.length".to_owned(), PropertyValue::Int(0)),
        ]
    );
}

#[test]
fn offer_is_handled_into_an_answer_and_a_connection() {
    let offer = UnifiedBundleSession::from_str(OFFER).unwrap();
    let transport = RtpBundleTransport::new(Some(37001));
    let base = offer.answer_with(3, "localabc".to_owned(), "x".repeat(24));
    let done = handle_offer(&transport, &offer, base, "203.0.113.7", "AB:cd:01").unwrap();

    let answer = &done.answer;
    assert!(answer.ice_lite);
    assert_eq!(answer.candidates.len(), 1);
    assert_eq!(
        answer.candidates[0].to_string(),
        Some("1 1 UDP 2130706175 203.0.113.7 37001 typ host".to_owned())
    );
    let prints: Vec<(String, String)> =
        answer.fingerprints.iter().map(|(h, f)| (h.to_string(), f.to_string())).collect();
    assert_eq!(prints, vec![("sha-256".to_owned(), "AB:CD:01".to_owned())]);
    let audio: Vec<u8> =
        answer.media_descriptions[0].payloads.iter().map(|p| p.payload_type.0).collect();
    assert_eq!(audio, vec![111, 8]);
    let video: Vec<u8> =
        answer.media_descriptions[1].payloads.iter().map(|p| p.payload_type.0).collect();
    assert_eq!(video, vec![96]);
    assert_eq!(
        answer.media_descriptions[0].extensions,
        vec![("urn:ietf:params:rtp-hdrext:ssrc-audio-level".to_owned(), 1)]
    );

    let connection = &done.connection;
    assert_eq!(connection.username, "localabc:remote");
    assert_eq!(
        connection.properties.0,
        vec![
            ("ice.localUsername".to_owned(), text("localabc")),
            ("ice.localPassword".to_owned(), text(&"x".repeat(24))),
            ("ice.remoteUsername".to_owned(), text("remote")),
            ("ice.remotePassword".to_owned(), text("secret")),
            ("dtls.setup".to_owned(), text("actpass")),
            ("dtls.hash".to_owned(), text("SHA-256")),
            ("dtls.fingerprint".to_owned(), text("0A:1B")),
            ("disableSTUNKeepAlive".to_owned(), PropertyValue::Bool(false)),
            ("srtpProtectionProfiles".to_owned(), text("")),
        ]
    );
    assert_eq!(connection.remote_properties, Some(get_rtp_properties_from_sdp(&offer)));
    assert_eq!(connection.local_properties, Some(get_rtp_properties_from_sdp(answer)));
    let groups: Vec<(MediaFrameType, &str, &str, u32, u32)> = connection
        .incoming_source_groups
        .iter()
        .map(|g| (g.kind, g.mid.as_str(), g.rid.as_str(), g.media_ssrc, g.rtx_ssrc))
        .collect();
    assert_eq!(
        groups,
        vec![
            (MediaFrameType::Audio, "a", "", 7, 0),
            (MediaFrameType::Video, "v", "h", 0, 0),
            (MediaFrameType::Video, "v", "l", 0, 0),
        ]
    );
    assert!(connection.outgoing_source_groups.is_empty());
    assert!(connection.remote_candidates.is_empty());
}

#[test]
fn offer_without_sha_256_fingerprint_or_with_a_malformed_one_of_ours_is_refused() {
    let offer = UnifiedBundleSession::from_str(OFFER).unwrap();
    let transport = RtpBundleTransport::new(None);
    let refused = handle_offer(&transport, &offer, offer.answer(), "h", "AB:XY");
    assert_eq!(refused.unwrap_err(), "malformed certificate fingerprint");
    assert_eq!(
        complete_answer(offer.answer(), "h", 1, "").unwrap_err(),
        "malformed certificate fingerprint"
    );
    let bare = OFFER.replace("a=fingerprint:SHA-256 0a:1B\r\n", "");
    let offer = UnifiedBundleSession::from_str(&bare).unwrap();
    let refused = handle_offer(&transport, &offer, offer.answer(), "h", "AB");
    assert_eq!(refused.unwrap_err(), "sha-256 dtls fingerprint missing from offer");
}
