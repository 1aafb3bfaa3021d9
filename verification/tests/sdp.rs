use semantic_sdp::attribute_map::AttributeMap;
use semantic_sdp::attributes::{Group, IceLite};
use semantic_sdp::enums::{BandwidthType, GroupSemantics};
use semantic_sdp::sdp::{Expected, GrammarError, Session};
use std::collections::HashSet;

const SDP_OFFER: &str = "v=0\r\n\
o=- 6842575828159820380 2 IN IP4 127.0.0.1\r\n\
s=-\r\n\
t=0 0\r\n\
a=group:BUNDLE 0 1\r\n\
a=msid-semantic: WMS 3a0da67c-b5ae-4a7a-8b8e-2f4ab3dd9a35\r\n\
m=audio 9 UDP/TLS/RTP/SAVPF 111 103 9 0 8 105 13 110 113 126\r\n\
c=IN IP4 0.0.0.0\r\n\
a=rtcp:9 IN IP4 0.0.0.0\r\n\
a=ice-ufrag:l1fN\r\n\
a=ice-pwd:QnqVzcLxvG5nCWv7FnqTUxMK\r\n\
a=ice-options:trickle\r\n\
a=fingerprint:sha-256 5B:D3:8E:66:0E:7D:D3:F3:8E:E6:80:28:19:FC:55:AD:58:5D:B9:3D:A8:DE:45:4A:E7:87:02:F8:3C:0B:3B:B3\r\n\
a=setup:actpass\r\n\
a=mid:0\r\n\
a=extmap:1 urn:ietf:params:rtp-hdrext:ssrc-audio-level\r\n\
a=extmap:2 http://www.webrtc.org/experiments/rtp-hdrext/abs-send-time\r\n\
a=extmap:3 http://www.ietf.org/id/draft-holmer-rmcat-transport-wide-cc-extensions-01\r\n\
a=extmap:4 urn:ietf:params:rtp-hdrext:sdes:mid\r\n\
a=sendrecv\r\n\
a=msid:3a0da67c-b5ae-4a7a-8b8e-2f4ab3dd9a35 9a8b6c13-0c6b-4b5c-92f1-6a2c5b7d4e10\r\n\
a=rtcp-mux\r\n\
a=rtpmap:111 opus/48000/2\r\n\
a=rtcp-fb:111 transport-cc\r\n\
a=fmtp:111 minptime=10;useinbandfec=1\r\n\
a=rtpmap:103 ISAC/16000\r\n\
a=rtpmap:9 G722/8000\r\n\
a=rtpmap:0 PCMU/8000\r\n\
a=rtpmap:8 PCMA/8000\r\n\
a=rtpmap:105 CN/16000\r\n\
a=rtpmap:13 CN/8000\r\n\
a=rtpmap:110 telephone-event/48000\r\n\
a=rtpmap:113 telephone-event/16000\r\n\
a=rtpmap:126 telephone-event/8000\r\n\
a=ptime:20\r\n\
a=maxptime:60\r\n\
a=ssrc:1248984816 cname:Lr9YpKAjWvm5HQbB\r\n\
a=ssrc:1248984816 msid:3a0da67c-b5ae-4a7a-8b8e-2f4ab3dd9a35 9a8b6c13-0c6b-4b5c-92f1-6a2c5b7d4e10\r\n\
m=video 9 UDP/TLS/RTP/SAVPF 96 97 98 99 102 121 127 120\r\n\
c=IN IP4 0.0.0.0\r\n\
b=AS:2500\r\n\
a=rtcp:9 IN IP4 0.0.0.0\r\n\
a=candidate:1467250027 1 UDP 2122260223 192.168.0.196 46243 typ host generation 0\r\n\
a=candidate:1853887674 2 UDP 1518280447 47.61.61.61 36768 typ srflx raddr 192.168.0.196 rport 36768 generation 0\r\n\
a=candidate:750991856 1 TCP 1518214911 192.168.0.196 9 typ host tcptype active generation 0\r\n\
a=end-of-candidates\r\n\
a=ice-ufrag:l1fN\r\n\
a=ice-pwd:QnqVzcLxvG5nCWv7FnqTUxMK\r\n\
a=ice-options:trickle\r\n\
a=fingerprint:sha-256 5B:D3:8E:66:0E:7D:D3:F3:8E:E6:80:28:19:FC:55:AD:58:5D:B9:3D:A8:DE:45:4A:E7:87:02:F8:3C:0B:3B:B3\r\n\
a=setup:actpass\r\n\
a=mid:1\r\n\
a=extmap:14 urn:ietf:params:rtp-hdrext:toffset\r\n\
a=extmap:2 http://www.webrtc.org/experiments/rtp-hdrext/abs-send-time\r\n\
a=extmap:13 urn:3gpp:video-orientation\r\n\
a=extmap:3 http://www.ietf.org/id/draft-holmer-rmcat-transport-wide-cc-extensions-01\r\n\
a=extmap:4 urn:ietf:params:rtp-hdrext:sdes:mid\r\n\
a=extmap:5/sendonly urn:ietf:params:rtp-hdrext:sdes:rtp-stream-id\r\n\
a=sendrecv\r\n\
a=msid:3a0da67c-b5ae-4a7a-8b8e-2f4ab3dd9a35 1d7d8a0e-2b1f-4c39-8f0a-5e6f7a8b9c0d\r\n\
a=rtcp-mux\r\n\
a=rtcp-rsize\r\n\
a=rtpmap:96 VP8/90000\r\n\
a=rtcp-fb:96 goog-remb\r\n\
a=rtcp-fb:96 transport-cc\r\n\
a=rtcp-fb:96 ccm fir\r\n\
a=rtcp-fb:96 nack\r\n\
a=rtcp-fb:96 nack pli\r\n\
a=rtpmap:97 rtx/90000\r\n\
a=fmtp:97 apt=96\r\n\
a=rtpmap:98 VP9/90000\r\n\
a=rtcp-fb:98 goog-remb\r\n\
a=rtcp-fb:98 nack pli\r\n\
a=fmtp:98 profile-id=0\r\n\
a=rtpmap:99 rtx/90000\r\n\
a=fmtp:99 apt=98\r\n\
a=rtpmap:102 H264/90000\r\n\
a=rtcp-fb:102 nack\r\n\
a=fmtp:102 level-asymmetry-allowed=1;packetization-mode=1;profile-level-id=42001f\r\n\
a=rtpmap:121 rtx/90000\r\n\
a=fmtp:121 apt=102\r\n\
a=rtpmap:127 H264/90000\r\n\
a=fmtp:127 level-asymmetry-allowed=1;packetization-mode=0;profile-level-id=42001f\r\n\
a=rtpmap:120 red/90000\r\n\
a=ssrc-group:FID 3025507879 2340741602\r\n\
a=ssrc:3025507879 cname:Lr9YpKAjWvm5HQbB\r\n\
a=ssrc:2340741602 cname:Lr9YpKAjWvm5HQbB\r\n";

const SDP_ANSWER: &str = "v=0\r\n\
o=- 1606654361284 1 IN IP4 127.0.0.1\r\n\
s=semantic-sdp\r\n\
c=IN IP4 0.0.0.0\r\n\
t=0 0\r\n\
a=ice-lite\r\n\
a=group:BUNDLE 0 1\r\n\
a=extmap-allow-mixed\r\n\
m=audio 9 UDP/TLS/RTP/SAVPF 111 0 8\r\n\
c=IN IP4 0.0.0.0\r\n\
a=rtcp:9 IN IP4 0.0.0.0\r\n\
a=ice-ufrag:a7f5c3e1\r\n\
a=ice-pwd:0f1e2d3c4b5a69788796a5b4\r\n\
a=candidate:1 1 UDP 2130706175 203.0.113.7 37001 typ host\r\n\
a=fingerprint:sha-256 F7:54:B8:3A:CB:3C:E2:CC:B7:23:0B:81:A6:1C:88:2F:9A:7D:0E:14:C0:7A:5F:02:6B:ED:3D:19:77:A4:52:90\r\n\
a=setup:passive\r\n\
a=mid:0\r\n\
a=extmap:1 urn:ietf:params:rtp-hdrext:ssrc-audio-level\r\n\
a=extmap:4 urn:ietf:params:rtp-hdrext:sdes:mid\r\n\
a=recvonly\r\n\
a=rtcp-mux\r\n\
a=rtpmap:111 opus/48000/2\r\n\
a=fmtp:111 minptime=10;useinbandfec=1\r\n\
a=rtpmap:0 PCMU/8000\r\n\
a=rtpmap:8 PCMA/8000\r\n\
m=video 9 UDP/TLS/RTP/SAVPF 96 97\r\n\
c=IN IP4 0.0.0.0\r\n\
a=rtcp:9 IN IP4 0.0.0.0\r\n\
a=ice-ufrag:a7f5c3e1\r\n\
a=ice-pwd:0f1e2d3c4b5a69788796a5b4\r\n\
a=candidate:1 1 UDP 2130706175 203.0.113.7 37001 typ host\r\n\
a=fingerprint:sha-256 F7:54:B8:3A:CB:3C:E2:CC:B7:23:0B:81:A6:1C:88:2F:9A:7D:0E:14:C0:7A:5F:02:6B:ED:3D:19:77:A4:52:90\r\n\
a=setup:passive\r\n\
a=mid:1\r\n\
a=extmap:13 urn:3gpp:video-orientation\r\n\
a=extmap:4 urn:ietf:params:rtp-hdrext:sdes:mid\r\n\
a=recvonly\r\n\
a=rtcp-mux\r\n\
a=rtcp-rsize\r\n\
a=rtpmap:96 VP8/90000\r\n\
a=rtcp-fb:96 goog-remb\r\n\
a=rtcp-fb:96 nack pli\r\n\
a=rtpmap:97 rtx/90000\r\n\
a=fmtp:97 apt=96\r\n";

#[test]
fn tests_parse_offer() {
    let session = match Session::from_str(SDP_OFFER) {
        Ok(session) => session,
        Err(error) => panic!("{}", error),
    };

    println!("{:#?}", session);

    assert_eq!(session.origin.session_id, 6842575828159820380);
    assert_eq!(session.name, None);

    let group = session.attributes.get::<Group>().unwrap();
    println!("group: {:#?}", group);

    assert_eq!(group.semantics, GroupSemantics::Bundle);
}

#[test]
fn tests_parse_and_serialize_offer() {
    let parsed = Session::from_str(SDP_OFFER).unwrap();
    let serialized = parsed.to_string();
    assert_eq!(SDP_OFFER, serialized);
}

#[test]
fn tests_parse_answer() {
    let session = match Session::from_str(SDP_ANSWER) {
        Ok(session) => session,
        Err(error) => panic!("{}", error),
    };

    println!("{:#?}", session);

    assert_eq!(session.origin.session_id, 1606654361284);
    assert_eq!(session.name, Some("semantic-sdp".to_owned()));

    session.attributes.get::<IceLite>().unwrap();
}

#[test]
fn tests_parse_and_serialize_answer() {
    let parsed = Session::from_str(SDP_ANSWER).unwrap();
    let serialized = parsed.to_string();
    assert_eq!(SDP_ANSWER, serialized);
}

fn get_unknown(attributes: &AttributeMap) -> HashSet<String> {
    let mut unknown = HashSet::new();
    for (name, attribute) in attributes.entries() {
        if attribute.is_raw() {
            unknown.insert(name.to_owned());
        }
    }
    unknown
}

fn get_unknown_sdp(sdp: &str) -> HashSet<String> {
    let session = Session::from_str(sdp).unwrap();
    let mut unknown = get_unknown(&session.attributes);
    for media in &session.media_descriptions {
        unknown.extend(get_unknown(&media.attributes));
    }
    unknown
}

#[test]
fn unknown_attributes() {
    let mut unknown = HashSet::new();
    unknown.extend(get_unknown_sdp(SDP_OFFER));
    unknown.extend(get_unknown_sdp(SDP_ANSWER));

    println!("{:#?}", unknown);

    assert_eq!(unknown.len(), 0);
}

const MINIMAL: &str = "v=0\r\no=- 1 2 IN IP4 127.0.0.1\r\ns=-\r\nt=0 0\r\n";

#[test]
fn missing_version_line_is_refused_at_the_start() {
    let text = "o=- 1 2 IN IP4 127.0.0.1\r\ns=-\r\nt=0 0\r\n";
    assert_eq!(
        Session::parse(text).unwrap_err(),
        GrammarError { offset: 0, line: 1, expected: Expected::Version }
    );
    assert_eq!(
        Session::from_str(text).unwrap_err(),
        "line 1: expected the version line v=0"
    );
    assert_eq!(
        Session::parse("v=1\r\n").unwrap_err(),
        GrammarError { offset: 0, line: 1, expected: Expected::Version }
    );
    assert_eq!(
        Session::parse("").unwrap_err(),
        GrammarError { offset: 0, line: 1, expected: Expected::Version }
    );
}

#[test]
fn every_refusal_names_the_line_that_does_not_fit() {
    assert_eq!(
        Session::parse("v=0\r\no=- x 2 IN IP4 127.0.0.1\r\n").unwrap_err(),
        GrammarError { offset: 5, line: 2, expected: Expected::Origin }
    );
    assert_eq!(
        Session::parse("v=0\r\no=- 1 2 IN IP4 127.0.0.1\r\nt=0 0\r\n").unwrap_err(),
        GrammarError { offset: 31, line: 3, expected: Expected::Name }
    );
    assert_eq!(
        Session::parse("v=0\r\no=- 1 2 IN IP4 127.0.0.1\r\ns=-\r\na=ice-lite\r\n").unwrap_err(),
        GrammarError { offset: 36, line: 4, expected: Expected::Time }
    );
    let malformed = format!("{}a=rtpmap:96 VP8\r\n", MINIMAL);
    assert_eq!(
        Session::parse(&malformed).unwrap_err(),
        GrammarError { offset: 43, line: 5, expected: Expected::End }
    );
    assert_eq!(
        Session::from_str(&malformed).unwrap_err(),
        "line 5: expected the end of the description"
    );
    assert_eq!(
        Session::parse("v=0\r\no=- 18446744073709551616 2 IN IP4 h\r\n").unwrap_err(),
        GrammarError { offset: 5, line: 2, expected: Expected::Origin }
    );
}

#[test]
fn minimal_session_is_read_and_written_back() {
    let session = Session::from_str(MINIMAL).unwrap();
    assert_eq!(session.origin.username, None);
    assert_eq!(session.origin.session_id, 1);
    assert_eq!(session.origin.session_version, 2);
    assert_eq!(session.origin.unicast_address, "127.0.0.1");
    assert_eq!(session.times.len(), 1);
    assert_eq!(session.media_descriptions.len(), 0);
    assert_eq!(session.to_string(), MINIMAL);
}

#[test]
fn line_endings_without_carriage_return_and_a_last_line_without_end_are_read() {
    let session = Session::from_str("v=0\no=u 1 2 IN IP6 ::1\ns= \nt=1 2").unwrap();
    assert_eq!(session.origin.username, Some("u".to_owned()));
    assert_eq!(session.name, None);
    assert_eq!(session.times[0].start, 1);
    assert_eq!(session.times[0].stop, 2);
    assert_eq!(session.to_string(), "v=0\r\no=u 1 2 IN IP6 ::1\r\ns=-\r\nt=1 2\r\n");
}

#[test]
fn optional_lines_are_read_in_their_order() {
    let text = "v=0\r\no=- 1 2 IN IP4 h\r\ns=name\r\ni=info\r\nu=http://u\r\ne=a@b\r\np=+1 2\r\n\
c=IN IP4 1.2.3.4\r\nb=CT:10\r\nb=X-Y:20\r\nt=0 0\r\nk=prompt\r\na=ice-lite\r\n";
    let session = Session::from_str(text).unwrap();
    assert_eq!(session.name, Some("name".to_owned()));
    assert_eq!(session.information, Some("info".to_owned()));
    assert_eq!(session.uri, Some("http://u".to_owned()));
    assert_eq!(session.email_address, Some("a@b".to_owned()));
    assert_eq!(session.phone_number, Some("+1 2".to_owned()));
    assert_eq!(session.connection.as_ref().unwrap().connection_address, "1.2.3.4");
    assert_eq!(
        session.bandwidths,
        vec![
            (BandwidthType::ConferenceTotal, 10),
            (BandwidthType::Unknown("X-Y".to_owned()), 20)
        ]
    );
    assert_eq!(session.encryption_key, Some("prompt".to_owned()));
    assert_eq!(session.to_string(), text);
}

#[test]
fn later_bandwidth_line_of_the_same_kind_overwrites() {
    let text = format!("v=0\r\no=- 1 2 IN IP4 h\r\ns=-\r\nb=AS:1\r\nb=CT:2\r\nb=as:3\r\nt=0 0\r\n");
    let session = Session::from_str(&text).unwrap();
    assert_eq!(
        session.bandwidths,
        vec![(BandwidthType::ApplicationSpecific, 3), (BandwidthType::ConferenceTotal, 2)]
    );
}

#[test]
fn time_units_are_scaled_to_seconds() {
    let text = "v=0\r\no=- 1 2 IN IP4 h\r\ns=-\r\nt=3034423619 3042462419\r\n\
r=7d 1h 0 25h 90m 5s\r\nz=2882844526 -1h 2898848070 0\r\n";
    let session = Session::from_str(text).unwrap();
    let time = &session.times[0];
    assert_eq!(time.repeat_times.len(), 1);
    assert_eq!(time.repeat_times[0].repeat_interval, 604800);
    assert_eq!(time.repeat_times[0].active_duration, 3600);
    assert_eq!(time.repeat_times[0].offsets, vec![0, 90000, 5400, 5]);
    assert_eq!(time.time_zone_adjustments.len(), 2);
    assert_eq!(time.time_zone_adjustments[0].adjustment_time, 2882844526);
    assert_eq!(time.time_zone_adjustments[0].offset, -3600);
    assert_eq!(time.time_zone_adjustments[1].offset, 0);
    assert_eq!(
        session.to_string(),
        "v=0\r\no=- 1 2 IN IP4 h\r\ns=-\r\nt=3034423619 3042462419\r\n\
r=604800 3600 0 90000 5400 5\r\nz=2882844526 -3600 2898848070 0\r\n"
    );
}

#[test]
fn time_field_that_overflows_is_refused() {
    let text = "v=0\r\no=- 1 2 IN IP4 h\r\ns=-\r\nt=0 0\r\nr=18446744073709551615d 1 0\r\n";
    assert_eq!(
        Session::parse(text).unwrap_err(),
        GrammarError { offset: 35, line: 5, expected: Expected::End }
    );
}

#[test]
fn media_line_fields_are_read() {
    let text = format!("{}m=video 49170/2 RTP/AVP 31 foo\r\ni=title\r\nb=TIAS:5\r\na=MID:v\r\n", MINIMAL);
    let session = Session::from_str(&text).unwrap();
    let media = &session.media_descriptions[0];
    assert_eq!(media.port, 49170);
    assert_eq!(media.num_ports, Some(2));
    assert_eq!(media.formats, vec!["31".to_owned(), "foo".to_owned()]);
    assert_eq!(media.title, Some("title".to_owned()));
    assert_eq!(media.bandwidths, vec![(BandwidthType::TransportSpecific, 5)]);
    assert_eq!(media.attributes.get_unknown("mid"), Some(Some("v".to_owned())));
    assert_eq!(
        session.to_string(),
        format!("{}m=video 49170/2 RTP/AVP 31 foo\r\ni=title\r\nb=TIAS:5\r\na=mid:v\r\n", MINIMAL)
    );
}

#[test]
fn attribute_without_a_type_is_kept_as_written() {
    let text = format!("{}a=x-custom:Some Value: with colons \r\na=x-flag\r\n", MINIMAL);
    let session = Session::from_str(&text).unwrap();
    assert_eq!(
        session.attributes.get_unknown("x-custom"),
        Some(Some("Some Value: with colons ".to_owned()))
    );
    assert_eq!(session.attributes.get_unknown("x-flag"), Some(None));
    assert_eq!(session.to_string(), text);
}

#[test]
fn media_line_with_an_unlisted_transport_is_written_back() {
    let text = "v=0\r\no=- 1 2 IN IP4 127.0.0.1\r\ns=-\r\nt=0 0\r\nm=video 9 UDP/QUIC/RTP 96\r\n";
    let session = Session::from_str(text).unwrap();
    assert_eq!(session.media_descriptions.len(), 1);
    assert_eq!(session.media_descriptions[0].protocol.to_string(), "UDP/QUIC/RTP");
    assert_eq!(session.to_string(), text);
}
