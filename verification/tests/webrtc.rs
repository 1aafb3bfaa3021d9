use semantic_sdp::enums::{
    FingerprintHashFunction, IceOption, MediaType, RidDirection, RtpCodecName, SetupRole,
    TransportProtocol,
};
use semantic_sdp::negotiation::filter_answer_to_capabilities;
use semantic_sdp::sdp::Session;
use semantic_sdp::types::{PayloadType, Ssrc};
use semantic_sdp::webrtc::{MediaDirection, RtpEncoding, UnifiedBundleSession};

const SDP_OFFER: &str = "v=0\r\n\
o=- 6842575828159820380 2 IN IP4 127.0.0.1\r\n\
s=-\r\n\
t=0 0\r\n\
a=group:BUNDLE 0 1\r\n\
a=msid-semantic: WMS 3a0da67c-b5ae-4a7a-8b8e-2f4ab3dd9a35\r\n\
m=audio 9 UDP/TLS/RTP/SAVPF 111 103 9 0 8 105 13 110 113 126\r\n\
c=IN IP4 0.0.0.0\r\n\
a=rtcp:9 IN IP4 0.0.0.0\r\n\
a=ice-ufrag:l1fN\r\n\
a=ice-pwd:QnqVzcLxvG5nCWv7FnqTUxMK\r\n\
a=ice-options:trickle\r\n\
a=fingerprint:sha-256 5B:D3:8E:66:0E:7D:D3:F3:8E:E6:80:28:19:FC:55:AD:58:5D:B9:3D:A8:DE:45:4A:E7:87:02:F8:3C:0B:3B:B3\r\n\
a=setup:actpass\r\n\
a=mid:0\r\n\
a=extmap:1 urn:ietf:params:rtp-hdrext:ssrc-audio-level\r\n\
a=extmap:2 http://www.webrtc.org/experiments/rtp-hdrext/abs-send-time\r\n\
a=extmap:3 http://www.ietf.org/id/draft-holmer-rmcat-transport-wide-cc-extensions-01\r\n\
a=extmap:4 urn:ietf:params:rtp-hdrext:sdes:mid\r\n\
a=sendrecv\r\n\
a=msid:3a0da67c-b5ae-4a7a-8b8e-2f4ab3dd9a35 9a8b6c13-0c6b-4b5c-92f1-6a2c5b7d4e10\r\n\
a=rtcp-mux\r\n\
a=rtpmap:111 opus/48000/2\r\n\
a=rtcp-fb:111 transport-cc\r\n\
a=fmtp:111 minptime=10;useinbandfec=1\r\n\
a=rtpmap:103 ISAC/16000\r\n\
a=rtpmap:9 G722/8000\r\n\
a=rtpmap:0 PCMU/8000\r\n\
a=rtpmap:8 PCMA/8000\r\n\
a=rtpmap:105 CN/16000\r\n\
a=rtpmap:13 CN/8000\r\n\
a=rtpmap:110 telephone-event/48000\r\n\
a=rtpmap:113 telephone-event/16000\r\n\
a=rtpmap:126 telephone-event/8000\r\n\
a=ptime:20\r\n\
a=maxptime:60\r\n\
a=ssrc:1248984816 cname:Lr9YpKAjWvm5HQbB\r\n\
a=ssrc:1248984816 msid:3a0da67c-b5ae-4a7a-8b8e-2f4ab3dd9a35 9a8b6c13-0c6b-4b5c-92f1-6a2c5b7d4e10\r\n\
m=video 9 UDP/TLS/RTP/SAVPF 96 97 98 99 102 121 127 120\r\n\
c=IN IP4 0.0.0.0\r\n\
b=AS:2500\r\n\
a=rtcp:9 IN IP4 0.0.0.0\r\n\
a=candidate:1467250027 1 UDP 2122260223 192.168.0.196 46243 typ host generation 0\r\n\
a=candidate:1853887674 2 UDP 1518280447 47.61.61.61 36768 typ srflx raddr 192.168.0.196 rport 36768 generation 0\r\n\
a=candidate:750991856 1 TCP 1518214911 192.168.0.196 9 typ host tcptype active generation 0\r\n\
a=end-of-candidates\r\n\
a=ice-ufrag:l1fN\r\n\
a=ice-pwd:QnqVzcLxvG5nCWv7FnqTUxMK\r\n\
a=ice-options:trickle\r\n\
a=fingerprint:sha-256 5B:D3:8E:66:0E:7D:D3:F3:8E:E6:80:28:19:FC:55:AD:58:5D:B9:3D:A8:DE:45:4A:E7:87:02:F8:3C:0B:3B:B3\r\n\
a=setup:actpass\r\n\
a=mid:1\r\n\
a=extmap:14 urn:ietf:params:rtp-hdrext:toffset\r\n\
a=extmap:2 http://www.webrtc.org/experiments/rtp-hdrext/abs-send-time\r\n\
a=extmap:13 urn:3gpp:video-orientation\r\n\
a=extmap:3 http://www.ietf.org/id/draft-holmer-rmcat-transport-wide-cc-extensions-01\r\n\
a=extmap:4 urn:ietf:params:rtp-hdrext:sdes:mid\r\n\
a=extmap:5/sendonly urn:ietf:params:rtp-hdrext:sdes:rtp-stream-id\r\n\
a=sendrecv\r\n\
a=msid:3a0da67c-b5ae-4a7a-8b8e-2f4ab3dd9a35 1d7d8a0e-2b1f-4c39-8f0a-5e6f7a8b9c0d\r\n\
a=rtcp-mux\r\n\
a=rtcp-rsize\r\n\
a=rtpmap:96 VP8/90000\r\n\
a=rtcp-fb:96 goog-remb\r\n\
a=rtcp-fb:96 transport-cc\r\n\
a=rtcp-fb:96 ccm fir\r\n\
a=rtcp-fb:96 nack\r\n\
a=rtcp-fb:96 nack pli\r\n\
a=rtpmap:97 rtx/90000\r\n\
a=fmtp:97 apt=96\r\n\
a=rtpmap:98 VP9/90000\r\n\
a=rtcp-fb:98 goog-remb\r\n\
a=rtcp-fb:98 nack pli\r\n\
a=fmtp:98 profile-id=0\r\n\
a=rtpmap:99 rtx/90000\r\n\
a=fmtp:99 apt=98\r\n\
a=rtpmap:102 H264/90000\r\n\
a=rtcp-fb:102 nack\r\n\
a=fmtp:102 level-asymmetry-allowed=1;packetization-mode=1;profile-level-id=42001f\r\n\
a=rtpmap:121 rtx/90000\r\n\
a=fmtp:121 apt=102\r\n\
a=rtpmap:127 H264/90000\r\n\
a=fmtp:127 level-asymmetry-allowed=1;packetization-mode=0;profile-level-id=42001f\r\n\
a=rtpmap:120 red/90000\r\n\
a=ssrc-group:FID 3025507879 2340741602\r\n\
a=ssrc:3025507879 cname:Lr9YpKAjWvm5HQbB\r\n\
a=ssrc:2340741602 cname:Lr9YpKAjWvm5HQbB\r\n";

const SDP_ANSWER: &str = "v=0\r\n\
o=- 1606654361284 1 IN IP4 127.0.0.1\r\n\
s=semantic-sdp\r\n\
c=IN IP4 0.0.0.0\r\n\
t=0 0\r\n\
a=ice-lite\r\n\
a=group:BUNDLE 0 1\r\n\
a=extmap-allow-mixed\r\n\
m=audio 9 UDP/TLS/RTP/SAVPF 111 0 8\r\n\
c=IN IP4 0.0.0.0\r\n\
a=rtcp:9 IN IP4 0.0.0.0\r\n\
a=ice-ufrag:a7f5c3e1\r\n\
a=ice-pwd:0f1e2d3c4b5a69788796a5b4\r\n\
a=candidate:1 1 UDP 2130706175 203.0.113.7 37001 typ host\r\n\
a=fingerprint:sha-256 F7:54:B8:3A:CB:3C:E2:CC:B7:23:0B:81:A6:1C:88:2F:9A:7D:0E:14:C0:7A:5F:02:6B:ED:3D:19:77:A4:52:90\r\n\
a=setup:passive\r\n\
a=mid:0\r\n\
a=extmap:1 urn:ietf:params:rtp-hdrext:ssrc-audio-level\r\n\
a=extmap:4 urn:ietf:params:rtp-hdrext:sdes:mid\r\n\
a=recvonly\r\n\
a=rtcp-mux\r\n\
a=rtpmap:111 opus/48000/2\r\n\
a=fmtp:111 minptime=10;useinbandfec=1\r\n\
a=rtpmap:0 PCMU/8000\r\n\
a=rtpmap:8 PCMA/8000\r\n\
m=video 9 UDP/TLS/RTP/SAVPF 96 97\r\n\
c=IN IP4 0.0.0.0\r\n\
a=rtcp:9 IN IP4 0.0.0.0\r\n\
a=ice-ufrag:a7f5c3e1\r\n\
a=ice-pwd:0f1e2d3c4b5a69788796a5b4\r\n\
a=candidate:1 1 UDP 2130706175 203.0.113.7 37001 typ host\r\n\
a=fingerprint:sha-256 F7:54:B8:3A:CB:3C:E2:CC:B7:23:0B:81:A6:1C:88:2F:9A:7D:0E:14:C0:7A:5F:02:6B:ED:3D:19:77:A4:52:90\r\n\
a=setup:passive\r\n\
a=mid:1\r\n\
a=extmap:13 urn:3gpp:video-orientation\r\n\
a=extmap:4 urn:ietf:params:rtp-hdrext:sdes:mid\r\n\
a=recvonly\r\n\
a=rtcp-mux\r\n\
a=rtcp-rsize\r\n\
a=rtpmap:96 VP8/90000\r\n\
a=rtcp-fb:96 goog-remb\r\n\
a=rtcp-fb:96 nack pli\r\n\
a=rtpmap:97 rtx/90000\r\n\
a=fmtp:97 apt=96\r\n";

const SDP_OFFER_CHROME_SSRC: &str = "v=0\r\n\
o=- 4215775240449105457 2 IN IP4 127.0.0.1\r\n\
s=-\r\n\
t=0 0\r\n\
a=group:BUNDLE 0\r\n\
a=msid-semantic: WMS stream\r\n\
m=video 9 UDP/TLS/RTP/SAVPF 96 97 102 122\r\n\
c=IN IP4 0.0.0.0\r\n\
a=rtcp:9 IN IP4 0.0.0.0\r\n\
a=ice-ufrag:sXP5\r\n\
a=ice-pwd:yEclOTrLg1gEubBFefOqtmyV\r\n\
a=ice-options:trickle\r\n\
a=fingerprint:sha-256 7E:89:13:39:3C:2B:0C:6A:4F:7A:31:4D:9D:1E:63:B7:72:04:8A:D6:5C:F0:10:AB:43:22:98:CC:0D:5E:61:F4\r\n\
a=setup:actpass\r\n\
a=mid:0\r\n\
a=extmap:13 urn:3gpp:video-orientation\r\n\
a=extmap:4 urn:ietf:params:rtp-hdrext:sdes:mid\r\n\
a=sendonly\r\n\
a=msid:stream track\r\n\
a=rtcp-mux\r\n\
a=rtcp-rsize\r\n\
a=rtpmap:96 VP8/90000\r\n\
a=rtcp-fb:96 goog-remb\r\n\
a=rtcp-fb:96 transport-cc\r\n\
a=rtcp-fb:96 ccm fir\r\n\
a=rtcp-fb:96 nack\r\n\
a=rtcp-fb:96 nack pli\r\n\
a=rtpmap:97 rtx/90000\r\n\
a=fmtp:97 apt=96\r\n\
a=rtpmap:102 H264/90000\r\n\
a=rtcp-fb:102 nack pli\r\n\
a=fmtp:102 level-asymmetry-allowed=1;packetization-mode=1;profile-level-id=42001f\r\n\
a=rtpmap:122 rtx/90000\r\n\
a=fmtp:122 apt=102\r\n\
a=ssrc-group:FID 2231627014 632943048\r\n\
a=ssrc:2231627014 cname:4TOk42mSjXCkVIa6\r\n\
a=ssrc:2231627014 msid:stream track\r\n\
a=ssrc:632943048 cname:4TOk42mSjXCkVIa6\r\n\
a=ssrc:632943048 msid:stream track\r\n";

const SDP_OFFER_CHROME_RID: &str = "v=0\r\n\
o=- 8047576074255770051 2 IN IP4 127.0.0.1\r\n\
s=-\r\n\
t=0 0\r\n\
a=group:BUNDLE 0\r\n\
a=msid-semantic: WMS stream\r\n\
m=video 9 UDP/TLS/RTP/SAVPF 96 97\r\n\
c=IN IP4 0.0.0.0\r\n\
a=rtcp:9 IN IP4 0.0.0.0\r\n\
a=ice-ufrag:Qx7a\r\n\
a=ice-pwd:kz1l0qYkCMmVY7BVkWwWCg7T\r\n\
a=ice-options:trickle\r\n\
a=fingerprint:sha-256 1B:2C:3D:4E:5F:60:71:82:93:A4:B5:C6:D7:E8:F9:0A:1B:2C:3D:4E:5F:60:71:82:93:A4:B5:C6:D7:E8:F9:0A\r\n\
a=setup:actpass\r\n\
a=mid:0\r\n\
a=extmap:4 urn:ietf:params:rtp-hdrext:sdes:mid\r\n\
a=extmap:10 urn:ietf:params:rtp-hdrext:sdes:rtp-stream-id\r\n\
a=extmap:11 urn:ietf:params:rtp-hdrext:sdes:repaired-rtp-stream-id\r\n\
a=sendonly\r\n\
a=msid:stream track\r\n\
a=rtcp-mux\r\n\
a=rtcp-rsize\r\n\
a=rtpmap:96 VP8/90000\r\n\
a=rtcp-fb:96 goog-remb\r\n\
a=rtcp-fb:96 nack pli\r\n\
a=rtpmap:97 rtx/90000\r\n\
a=fmtp:97 apt=96\r\n\
a=rid:h send\r\n\
a=rid:m send\r\n\
a=rid:l send\r\n\
a=simulcast:send h;m;l\r\n";

#[test]
fn create_offer() {
    let session = UnifiedBundleSession::new();
    println!("{:#?}", session);
    println!("{}", session.to_string());
}

#[test]
fn webrtc_parse_offer() {
    let session = match UnifiedBundleSession::from_str(SDP_OFFER) {
        Ok(session) => session,
        Err(error) => panic!("{}", error),
    };

    println!("{:#?}", session);
}

#[test]
fn parse_offer_chrome_ssrc() {
    let session = match UnifiedBundleSession::from_str(SDP_OFFER_CHROME_SSRC) {
        Ok(session) => session,
        Err(error) => panic!("{}", error),
    };

    println!("{:#?}", session);
}

#[test]
fn parse_offer_chrome_rid() {
    let session = match UnifiedBundleSession::from_str(SDP_OFFER_CHROME_RID) {
        Ok(session) => session,
        Err(error) => panic!("{}", error),
    };

    println!("{:#?}", session);
}

#[test]
fn answer_offer() {
    let offer = UnifiedBundleSession::from_str(SDP_OFFER).unwrap();
    let answer = offer.answer();
    println!("{}", answer.to_string());
}

#[test]
fn answer_offer_chrome_ssrc() {
    let offer = UnifiedBundleSession::from_str(SDP_OFFER_CHROME_SSRC).unwrap();
    let answer = offer.answer();
    println!("{}", answer.to_string());
}

#[test]
fn answer_offer_chrome_rid() {
    let offer = UnifiedBundleSession::from_str(SDP_OFFER_CHROME_RID).unwrap();
    let answer = offer.answer();
    println!("{}", answer.to_string());
}

#[test]
fn webrtc_parse_answer() {
    let session = match UnifiedBundleSession::from_str(SDP_ANSWER) {
        Ok(session) => session,
        Err(error) => panic!("{}", error),
    };

    println!("{:#?}", session);
    assert!(session.ice_lite);
    assert_eq!(session.id, 1606654361284);
    assert_eq!(session.setup_role, SetupRole::Passive);
    assert!(session.allow_mixed_extension_maps);
}

#[test]
fn new_session_has_drawn_credentials_and_fixed_defaults() {
    let session = UnifiedBundleSession::new();
    assert!(session.id < 9_223_372_036_854_775_807);
    assert_eq!(session.version, 1);
    assert!(session.ice_lite);
    assert_eq!(session.ice_ufrag.chars().count(), 8);
    assert_eq!(session.ice_pwd.chars().count(), 24);
    assert!(session.ice_ufrag.chars().all(|c| c.is_ascii_alphanumeric()));
    assert!(session.ice_pwd.chars().all(|c| c.is_ascii_alphanumeric()));
    assert_eq!(session.setup_role, SetupRole::ActivePassive);
    assert!(session.allow_mixed_extension_maps);
    assert!(session.media_descriptions.is_empty());
    assert!(session.fingerprints.is_empty());
    let other = UnifiedBundleSession::new();
    assert_ne!(session.ice_pwd, other.ice_pwd);
}

#[test]
fn transport_parameters_come_from_the_first_media_section() {
    let offer = UnifiedBundleSession::from_str(SDP_OFFER).unwrap();
    assert_eq!(offer.id, 6842575828159820380);
    assert_eq!(offer.version, 2);
    assert!(!offer.ice_lite);
    assert_eq!(offer.ice_ufrag, "l1fN");
    assert_eq!(offer.ice_pwd, "QnqVzcLxvG5nCWv7FnqTUxMK");
    assert_eq!(offer.ice_options, vec![IceOption::Trickle]);
    assert_eq!(offer.candidates.len(), 0);
    assert_eq!(offer.setup_role, SetupRole::ActivePassive);
    assert!(!offer.allow_mixed_extension_maps);
    let prints: Vec<(String, String)> = offer
        .fingerprints
        .iter()
        .map(|(h, f)| (h.to_string(), f.to_string()))
        .collect();
    assert_eq!(
        prints,
        vec![(
            "sha-256".to_owned(),
            "5B:D3:8E:66:0E:7D:D3:F3:8E:E6:80:28:19:FC:55:AD:58:5D:B9:3D:A8:DE:45:4A:E7:87:02:F8:3C:0B:3B:B3"
                .to_owned()
        )]
    );
    assert_eq!(
        offer.fingerprints.get(&FingerprintHashFunction::Sha256).unwrap().0.len(),
        32
    );
}

#[test]
fn transport_parameters_fall_back_to_the_session() {
    let text = "v=0\r\no=- 5 6 IN IP4 h\r\ns=-\r\nt=0 0\r\na=ice-lite\r\na=ice-ufrag:U\r\n\
a=ice-pwd:P\r\na=ice-options:trickle renomination TRICKLE\r\na=fingerprint:sha-1 0A:0b\r\n\
a=setup:active\r\na=extmap-allow-mixed\r\nm=audio 9 RTP/AVP 0\r\na=fingerprint:SHA-1 ff\r\na=mid:a\r\n\
m=video 9 RTP/AVP 96\r\na=mid:v\r\na=ice-ufrag:other\r\na=candidate:1 1 UDP 1 h 1 typ host\r\n";
    let session = UnifiedBundleSession::from_str(text).unwrap();
    assert!(session.ice_lite);
    assert_eq!(session.ice_ufrag, "U");
    assert_eq!(session.ice_pwd, "P");
    assert_eq!(
        session.ice_options,
        vec![IceOption::Trickle, IceOption::Unknown("renomination".to_owned())]
    );
    assert_eq!(session.setup_role, SetupRole::Active);
    assert!(session.allow_mixed_extension_maps);
    assert_eq!(session.candidates.len(), 0);
    let prints: Vec<(String, Vec<u8>)> = session
        .fingerprints
        .iter()
        .map(|(h, f)| (h.to_string(), f.0.clone()))
        .collect();
    assert_eq!(prints, vec![("sha-1".to_owned(), vec![255])]);
    assert_eq!(session.media_descriptions.len(), 2);
}

fn prints_of(session: &UnifiedBundleSession) -> Vec<(String, Vec<u8>)> {
    session.fingerprints.iter().map(|(h, f)| (h.to_string(), f.0.clone())).collect()
}

fn addresses_of(session: &UnifiedBundleSession) -> Vec<String> {
    session.candidates.iter().map(|c| c.address.clone()).collect()
}

#[test]
fn candidates_and_fingerprints_fall_back_to_the_session() {
    let head = "v=0\r\no=- 5 6 IN IP4 h\r\ns=-\r\nt=0 0\r\na=ice-ufrag:U\r\na=ice-pwd:P\r\n\
a=candidate:1 1 UDP 1 session-a 1 typ host\r\na=candidate:2 1 UDP 1 session-b 1 typ host\r\n\
a=fingerprint:sha-256 0A\r\na=fingerprint:sha-1 0B\r\n";
    let second = "m=video 9 RTP/AVP 96\r\na=mid:v\r\na=candidate:3 1 UDP 1 second 1 typ host\r\n\
a=fingerprint:sha-512 0C\r\n";

    let neither = format!("{}m=audio 9 RTP/AVP 0\r\na=mid:a\r\n{}", head, second);
    let session = UnifiedBundleSession::from_str(&neither).unwrap();
    assert_eq!(addresses_of(&session), vec!["session-a", "session-b"]);
    assert_eq!(
        prints_of(&session),
        vec![("sha-256".to_owned(), vec![10]), ("sha-1".to_owned(), vec![11])]
    );

    let both = format!(
        "{}m=audio 9 RTP/AVP 0\r\na=mid:a\r\na=candidate:4 1 UDP 1 first 1 typ host\r\n\
a=fingerprint:md5 0D\r\n{}",
        head, second
    );
    let session = UnifiedBundleSession::from_str(&both).unwrap();
    assert_eq!(addresses_of(&session), vec!["first"]);
    assert_eq!(prints_of(&session), vec![("md5".to_owned(), vec![13])]);

    let candidate_only = format!(
        "{}m=audio 9 RTP/AVP 0\r\na=mid:a\r\na=candidate:4 1 UDP 1 first 1 typ host\r\n{}",
        head, second
    );
    let session = UnifiedBundleSession::from_str(&candidate_only).unwrap();
    assert_eq!(addresses_of(&session), vec!["first"]);
    assert_eq!(
        prints_of(&session),
        vec![("sha-256".to_owned(), vec![10]), ("sha-1".to_owned(), vec![11])]
    );

    let nowhere = "v=0\r\no=- 5 6 IN IP4 h\r\ns=-\r\nt=0 0\r\na=ice-ufrag:U\r\na=ice-pwd:P\r\n\
m=audio 9 RTP/AVP 0\r\na=mid:a\r\nm=video 9 RTP/AVP 96\r\na=mid:v\r\n\
a=candidate:3 1 UDP 1 second 1 typ host\r\na=fingerprint:sha-512 0C\r\n";
    let session = UnifiedBundleSession::from_str(nowhere).unwrap();
    assert!(session.candidates.is_empty());
    assert!(session.fingerprints.is_empty());
}

#[test]
fn payload_table_joins_rtpmap_fmtp_and_feedback() {
    let offer = UnifiedBundleSession::from_str(SDP_OFFER).unwrap();
    let audio = &offer.media_descriptions[0];
    assert_eq!(audio.kind, MediaType::Audio);
    assert_eq!(audio.protocol, TransportProtocol::UdpTlsRtpSavpf);
    assert_eq!(audio.mid.0, "0");
    let audio_types: Vec<u8> = audio.payloads.iter().map(|p| p.payload_type.0).collect();
    assert_eq!(audio_types, vec![111, 103, 9, 0, 8, 105, 13, 110, 113, 126]);
    let opus = &audio.payloads[0];
    assert_eq!(opus.name, RtpCodecName::Opus);
    assert_eq!(opus.clock, 48000);
    assert_eq!(opus.channels, Some(2));
    assert_eq!(
        opus.parameters,
        vec![
            ("minptime".to_owned(), "10".to_owned()),
            ("useinbandfec".to_owned(), "1".to_owned())
        ]
    );
    let opus_feedback: Vec<(String, Option<String>)> =
        opus.supported_feedback.iter().map(|(k, v)| (k.clone(), v.clone())).collect();
    assert_eq!(opus_feedback, vec![("transport-cc".to_owned(), None)]);
    assert_eq!(opus.rtx_payload_type, None);
    assert_eq!(audio.payloads[1].name, RtpCodecName::Unknown("ISAC".to_owned()));

    let video = &offer.media_descriptions[1];
    let video_types: Vec<u8> = video.payloads.iter().map(|p| p.payload_type.0).collect();
    assert_eq!(video_types, vec![96, 98, 102, 127]);
    let vp8 = &video.payloads[0];
    assert_eq!(vp8.name, RtpCodecName::Vp8);
    assert_eq!(vp8.rtx_payload_type, Some(PayloadType(97)));
    let vp8_feedback: Vec<(String, Option<String>)> =
        vp8.supported_feedback.iter().map(|(k, v)| (k.clone(), v.clone())).collect();
    assert_eq!(
        vp8_feedback,
        vec![
            ("goog-remb".to_owned(), None),
            ("transport-cc".to_owned(), None),
            ("ccm".to_owned(), Some("fir".to_owned())),
            ("nack".to_owned(), None),
            ("nack".to_owned(), Some("pli".to_owned())),
        ]
    );
    assert_eq!(video.payloads[1].rtx_payload_type, Some(PayloadType(99)));
    assert_eq!(video.payloads[2].rtx_payload_type, Some(PayloadType(121)));
    assert_eq!(video.payloads[3].rtx_payload_type, None);
    assert_eq!(
        video.payloads[3].parameters,
        vec![
            ("level-asymmetry-allowed".to_owned(), "1".to_owned()),
            ("packetization-mode".to_owned(), "0".to_owned()),
            ("profile-level-id".to_owned(), "42001f".to_owned()),
        ]
    );
    assert_eq!(video.bandwidths.len(), 1);
    assert_eq!(video.bandwidths[0].1, 2500);
}

#[test]
fn parameters_without_equals_are_left_out_and_wildcard_feedback_is_not_attached() {
    let text = "v=0\r\no=- 5 6 IN IP4 h\r\ns=-\r\nt=0 0\r\nm=audio 9 RTP/AVP 101 96 x 97\r\n\
a=ice-ufrag:U\r\na=ice-pwd:P\r\na=mid:a\r\na=rtpmap:101 telephone-event/8000\r\na=fmtp:101 0-15\r\n\
a=rtpmap:96 opus/48000/2\r\na=fmtp:96 a=1;flag;b=x=y;a=2\r\na=rtcp-fb:* nack\r\na=rtcp-fb:96 nack\r\n";
    let session = UnifiedBundleSession::from_str(text).unwrap();
    let payloads = &session.media_descriptions[0].payloads;
    assert_eq!(payloads.len(), 2);
    assert_eq!(payloads[0].payload_type, PayloadType(101));
    assert!(payloads[0].parameters.is_empty());
    assert!(payloads[0].supported_feedback.is_empty());
    assert_eq!(
        payloads[1].parameters,
        vec![("a".to_owned(), "2".to_owned()), ("b".to_owned(), "x=y".to_owned())]
    );
    let feedback: Vec<(String, Option<String>)> =
        payloads[1].supported_feedback.iter().map(|(k, v)| (k.clone(), v.clone())).collect();
    assert_eq!(feedback, vec![("nack".to_owned(), None)]);
}

#[test]
fn encodings_come_from_rids_or_from_the_sending_source() {
    let offer = UnifiedBundleSession::from_str(SDP_OFFER).unwrap();
    match &offer.media_descriptions[0].encodings[..] {
        [RtpEncoding::SendingSsrc { cname, ssrc, rtx_ssrc }] => {
            assert_eq!(cname, "Lr9YpKAjWvm5HQbB");
            assert_eq!(*ssrc, Ssrc(1248984816));
            assert_eq!(*rtx_ssrc, None);
        }
        other => panic!("{:?}", other),
    }
    match &offer.media_descriptions[1].encodings[..] {
        [RtpEncoding::SendingSsrc { cname, ssrc, rtx_ssrc }] => {
            assert_eq!(cname, "Lr9YpKAjWvm5HQbB");
            assert_eq!(*ssrc, Ssrc(3025507879));
            assert_eq!(*rtx_ssrc, Some(Ssrc(2340741602)));
        }
        other => panic!("{:?}", other),
    }
    let rid = UnifiedBundleSession::from_str(SDP_OFFER_CHROME_RID).unwrap();
    let names: Vec<(String, RidDirection)> = rid.media_descriptions[0]
        .encodings
        .iter()
        .map(|e| match e {
            RtpEncoding::Rid { rid, direction } => (rid.0.clone(), *direction),
            other => panic!("{:?}", other),
        })
        .collect();
    assert_eq!(
        names,
        vec![
            ("h".to_owned(), RidDirection::Send),
            ("m".to_owned(), RidDirection::Send),
            ("l".to_owned(), RidDirection::Send)
        ]
    );
}

#[test]
fn restricted_rids_are_dropped() {
    let text = "v=0\r\no=- 5 6 IN IP4 h\r\ns=-\r\nt=0 0\r\nm=video 9 RTP/AVP 96\r\n\
a=ice-ufrag:U\r\na=ice-pwd:P\r\na=mid:v\r\na=rid:a send max-width=640\r\na=rid:b recv\r\na=ssrc:7 cname:c\r\n";
    let session = UnifiedBundleSession::from_str(text).unwrap();
    match &session.media_descriptions[0].encodings[..] {
        [RtpEncoding::Rid { rid, direction }] => {
            assert_eq!(rid.0, "b");
            assert_eq!(*direction, RidDirection::Receive);
        }
        other => panic!("{:?}", other),
    }
}

#[test]
fn only_plain_header_extensions_are_kept() {
    let offer = UnifiedBundleSession::from_str(SDP_OFFER).unwrap();
    assert_eq!(
        offer.media_descriptions[1].extensions,
        vec![
            ("urn:ietf:params:rtp-hdrext:toffset".to_owned(), 14),
            ("http://www.webrtc.org/experiments/rtp-hdrext/abs-send-time".to_owned(), 2),
            ("urn:3gpp:video-orientation".to_owned(), 13),
            (
                "http://www.ietf.org/id/draft-holmer-rmcat-transport-wide-cc-extensions-01"
                    .to_owned(),
                3
            ),
            ("urn:ietf:params:rtp-hdrext:sdes:mid".to_owned(), 4),
        ]
    );
}

fn section(attributes: &str) -> Result<UnifiedBundleSession, String> {
    let text = format!(
        "v=0\r\no=- 5 6 IN IP4 h\r\ns=-\r\nt=0 0\r\nm=audio 9 RTP/AVP 0\r\n{}",
        attributes
    );
    UnifiedBundleSession::from_str(&text)
}

#[test]
fn direction_is_read_from_the_direction_attributes() {
    let base = "a=ice-ufrag:U\r\na=ice-pwd:P\r\na=mid:a\r\n";
    let direction = |extra: &str| {
        section(&format!("{}{}", base, extra)).map(|s| s.media_descriptions[0].direction)
    };
    assert_eq!(direction(""), Ok(MediaDirection::SendReceive));
    assert_eq!(direction("a=sendonly\r\n"), Ok(MediaDirection::SendOnly));
    assert_eq!(direction("a=recvonly\r\n"), Ok(MediaDirection::ReceiveOnly));
    assert_eq!(direction("a=sendrecv\r\n"), Ok(MediaDirection::SendReceive));
    assert_eq!(direction("a=inactive\r\n"), Ok(MediaDirection::Inactive));
    assert_eq!(
        direction("a=sendonly\r\na=recvonly\r\n"),
        Err("Multiple direction attributes found in m-line".to_owned())
    );
    assert_eq!(
        direction("a=inactive\r\na=sendrecv\r\n"),
        Err("Multiple direction attributes found in m-line".to_owned())
    );
}

#[test]
fn every_semantic_error_has_its_message() {
    let no_media = "v=0\r\no=- 5 6 IN IP4 h\r\ns=-\r\nt=0 0\r\na=ice-ufrag:U\r\na=ice-pwd:P\r\n";
    assert_eq!(
        UnifiedBundleSession::from_str(no_media).unwrap_err(),
        "at least one m-line is required"
    );
    assert_eq!(section("a=ice-pwd:P\r\na=mid:a\r\n").unwrap_err(), "ice-ufrag is required");
    assert_eq!(section("a=ice-ufrag:U\r\na=mid:a\r\n").unwrap_err(), "ice-pwd is required");
    assert_eq!(section("a=ice-ufrag:U\r\na=ice-pwd:P\r\n").unwrap_err(), "mid is required");
    assert_eq!(
        UnifiedBundleSession::from_str("s=-\r\n").unwrap_err(),
        "line 1: expected the version line v=0"
    );
    let session = Session::from_str(no_media).unwrap();
    assert!(UnifiedBundleSession::from_sdp(&session).is_err());
    assert_eq!(session.to_string(), no_media);
}

#[test]
fn answer_reverses_directions_and_drops_ssrc_encodings() {
    for (offered, answered) in [
        ("a=sendonly\r\n", MediaDirection::ReceiveOnly),
        ("a=recvonly\r\n", MediaDirection::SendOnly),
        ("a=sendrecv\r\n", MediaDirection::SendReceive),
        ("a=inactive\r\n", MediaDirection::Inactive),
    ] {
        let offer = section(&format!(
            "a=ice-ufrag:U\r\na=ice-pwd:P\r\na=mid:a\r\na=ssrc:7 cname:c\r\n{}",
            offered
        ))
        .unwrap();
        assert_eq!(offer.media_descriptions[0].encodings.len(), 1);
        let answer = offer.answer();
        assert_eq!(answer.media_descriptions[0].direction, answered);
        assert!(answer.media_descriptions[0].encodings.is_empty());
    }
    let offer = UnifiedBundleSession::from_str(SDP_OFFER_CHROME_RID).unwrap();
    let answer = offer.answer();
    assert_eq!(answer.media_descriptions[0].direction, MediaDirection::ReceiveOnly);
    let names: Vec<(String, RidDirection)> = answer.media_descriptions[0]
        .encodings
        .iter()
        .map(|e| match e {
            RtpEncoding::Rid { rid, direction } => (rid.0.clone(), *direction),
            other => panic!("{:?}", other),
        })
        .collect();
    assert_eq!(
        names,
        vec![
            ("h".to_owned(), RidDirection::Receive),
            ("m".to_owned(), RidDirection::Receive),
            ("l".to_owned(), RidDirection::Receive)
        ]
    );
    assert_eq!(offer.media_descriptions[0].direction, MediaDirection::SendOnly);
}

#[test]
fn answer_reverses_the_setup_role_and_clears_the_transport() {
    for (offered, answered) in [
        ("active", SetupRole::Passive),
        ("passive", SetupRole::Active),
        ("actpass", SetupRole::ActivePassive),
        ("holdconn", SetupRole::HoldConnection),
    ] {
        let offer = section(&format!(
            "a=ice-ufrag:U\r\na=ice-pwd:P\r\na=mid:a\r\na=setup:{}\r\nb=AS:5\r\n",
            offered
        ));
        assert!(offer.is_err());
        let offer = section(&format!(
            "b=AS:5\r\na=ice-ufrag:U\r\na=ice-pwd:P\r\na=mid:a\r\na=setup:{}\r\n\
a=fingerprint:sha-256 00\r\na=candidate:1 1 UDP 1 h 1 typ host\r\na=ice-options:trickle\r\n",
            offered
        ))
        .unwrap();
        assert_eq!(offer.candidates.len(), 1);
        assert_eq!(offer.media_descriptions[0].bandwidths.len(), 1);
        let answer = offer.answer_with(77, "abcdefgh".to_owned(), "p".repeat(24));
        assert_eq!(answer.setup_role, answered);
        assert_eq!(answer.id, 77);
        assert_eq!(answer.version, 1);
        assert!(!answer.ice_lite);
        assert_eq!(answer.ice_ufrag, "abcdefgh");
        assert_eq!(answer.ice_pwd, "p".repeat(24));
        assert!(answer.ice_options.is_empty());
        assert!(answer.candidates.is_empty());
        assert!(answer.fingerprints.is_empty());
        assert!(answer.media_descriptions[0].bandwidths.is_empty());
        assert_eq!(answer.media_descriptions[0].mid.0, "a");
        assert_eq!(answer.media_descriptions[0].payloads.len(), 0);
    }
    let offer = UnifiedBundleSession::from_str(SDP_OFFER).unwrap();
    let answer = offer.answer();
    assert_ne!(answer.ice_ufrag, offer.ice_ufrag);
    assert_eq!(answer.ice_ufrag.len(), 8);
    assert_eq!(answer.ice_pwd.len(), 24);
    assert!(answer.id < 9_223_372_036_854_775_807);
    assert_eq!(answer.media_descriptions.len(), 2);
    assert_eq!(answer.media_descriptions[1].payloads.len(), 4);
    assert_eq!(offer.candidates.len(), 0);
}

#[test]
fn capability_filter_keeps_what_the_engine_supports() {
    let offer = UnifiedBundleSession::from_str(SDP_OFFER).unwrap();
    let mut answer = offer.answer();
    filter_answer_to_capabilities(&mut answer);
    let audio: Vec<String> =
        answer.media_descriptions[0].payloads.iter().map(|p| p.name.to_string()).collect();
    assert_eq!(audio, vec!["opus", "PCMU", "PCMA"]);
    let video: Vec<u8> =
        answer.media_descriptions[1].payloads.iter().map(|p| p.payload_type.0).collect();
    assert_eq!(video, vec![96, 98, 102]);
    assert!(answer.media_descriptions[0].payloads[0].supported_feedback.is_empty());
    let vp9_feedback: Vec<(String, Option<String>)> = answer.media_descriptions[1].payloads[1]
        .supported_feedback
        .iter()
        .map(|(k, v)| (k.clone(), v.clone()))
        .collect();
    assert_eq!(
        vp9_feedback,
        vec![("goog-remb".to_owned(), None), ("nack".to_owned(), Some("pli".to_owned()))]
    );
    assert_eq!(
        answer.media_descriptions[0].extensions,
        vec![
            ("urn:ietf:params:rtp-hdrext:ssrc-audio-level".to_owned(), 1),
            ("http://www.webrtc.org/experiments/rtp-hdrext/abs-send-time".to_owned(), 2),
            ("urn:ietf:params:rtp-hdrext:sdes:mid".to_owned(), 4),
        ]
    );
    assert_eq!(
        answer.media_descriptions[1].extensions,
        vec![
            ("http://www.webrtc.org/experiments/rtp-hdrext/abs-send-time".to_owned(), 2),
            ("urn:3gpp:video-orientation".to_owned(), 13),
            (
                "http://www.ietf.org/id/draft-holmer-rmcat-transport-wide-cc-extensions-01"
                    .to_owned(),
                3
            ),
            ("urn:ietf:params:rtp-hdrext:sdes:mid".to_owned(), 4),
        ]
    );
    assert_eq!(answer.media_descriptions[1].payloads[0].rtx_payload_type, Some(PayloadType(97)));
}

#[test]
fn capability_filter_drops_h264_without_packetization_mode_one_and_keeps_pcmu() {
    let text = "v=0\r\no=- 5 6 IN IP4 h\r\ns=-\r\nt=0 0\r\nm=audio 9 RTP/AVP 0\r\n\
a=ice-ufrag:U\r\na=ice-pwd:P\r\na=mid:a\r\na=rtpmap:0 PCMU/8000\r\nm=video 9 RTP/AVP 100 101 102\r\n\
a=mid:v\r\na=rtpmap:100 H264/90000\r\na=rtpmap:101 H264/90000\r\na=fmtp:101 packetization-mode=0\r\n\
a=rtpmap:102 h264/90000\r\na=fmtp:102 packetization-mode=1\r\nm=application 9 UDP/DTLS/SCTP 0\r\na=mid:d\r\n\
a=rtpmap:0 PCMU/8000\r\n";
    let mut session = UnifiedBundleSession::from_str(text).unwrap();
    assert_eq!(session.media_descriptions[1].payloads.len(), 3);
    assert_eq!(session.media_descriptions[2].payloads.len(), 1);
    filter_answer_to_capabilities(&mut session);
    let audio: Vec<u8> =
        session.media_descriptions[0].payloads.iter().map(|p| p.payload_type.0).collect();
    assert_eq!(audio, vec![0]);
    assert_eq!(session.media_descriptions[0].payloads[0].name, RtpCodecName::Pcmu);
    let video: Vec<u8> =
        session.media_descriptions[1].payloads.iter().map(|p| p.payload_type.0).collect();
    assert_eq!(video, vec![102]);
    assert!(session.media_descriptions[2].payloads.is_empty());
}

#[test]
fn session_is_written_as_a_description_in_fixed_order() {
    let text = "v=0\r\no=- 5 6 IN IP4 h\r\ns=-\r\nt=0 0\r\na=ice-lite\r\na=extmap-allow-mixed\r\n\
m=video 5000 UDP/TLS/RTP/SAVPF 96 97\r\nb=AS:7\r\na=mid:v\r\na=ice-ufrag:U\r\na=ice-pwd:P\r\n\
a=ice-options:trickle\r\na=candidate:1 1 UDP 9 1.2.3.4 5 typ host\r\na=fingerprint:sha-256 0A:FF\r\n\
a=setup:active\r\na=extmap:3 urn:x\r\na=recvonly\r\na=rtcp-mux\r\na=rtcp-mux-only\r\na=rtcp-rsize\r\n\
a=rtpmap:96 VP8/90000\r\na=rtcp-fb:96 nack pli\r\na=fmtp:96 x=1;y=2\r\na=rtpmap:97 rtx/90000\r\n\
a=fmtp:97 apt=96\r\na=ssrc-group:FID 11 12\r\na=ssrc:11 cname:me\r\na=ssrc:12 cname:me\r\n";
    let session = UnifiedBundleSession::from_str(text).unwrap();
    assert_eq!(
        session.to_string(),
        "v=0\r\no=- 5 6 IN IP4 127.0.0.1\r\ns=-\r\nt=0 0\r\na=ice-lite\r\na=group:BUNDLE v\r\n\
a=extmap-allow-mixed\r\nm=video 9 UDP/TLS/RTP/SAVPF 96 97\r\nc=IN IP4 0.0.0.0\r\nb=AS:7\r\n\
a=rtcp:9 IN IP4 0.0.0.0\r\na=ice-ufrag:U\r\na=ice-pwd:P\r\na=ice-options:trickle\r\n\
a=candidate:1 1 UDP 9 1.2.3.4 5 typ host\r\na=fingerprint:sha-256 0A:FF\r\na=setup:active\r\n\
a=mid:v\r\na=extmap:3 urn:x\r\na=recvonly\r\na=rtcp-mux\r\na=rtcp-mux-only\r\na=rtcp-rsize\r\n\
a=rtpmap:96 VP8/90000\r\na=rtcp-fb:96 nack pli\r\na=fmtp:96 x=1;y=2\r\na=rtpmap:97 rtx/90000\r\n\
a=fmtp:97 apt=96\r\na=ssrc:11 cname:me\r\na=ssrc:12 cname:me\r\na=ssrc-group:FID 11 12\r\n"
    );
}

#[test]
fn rid_encodings_are_written_with_a_simulcast_attribute() {
    let offer = UnifiedBundleSession::from_str(SDP_OFFER_CHROME_RID).unwrap();
    let text = offer.to_string();
    assert!(text.ends_with(
        "a=rid:h send\r\na=rid:m send\r\na=rid:l send\r\na=simulcast:send h;m;l\r\n"
    ));
    let answer = offer.answer_with(1, "u".repeat(8), "p".repeat(24));
    assert!(answer.to_string().ends_with(
        "a=rid:h recv\r\na=rid:m recv\r\na=rid:l recv\r\na=simulcast:recv h;m;l\r\n"
    ));
    let both = section(
        "a=ice-ufrag:U\r\na=ice-pwd:P\r\na=mid:a\r\na=rid:a recv\r\na=rid:b send\r\na=rid:c recv\r\n",
    )
    .unwrap();
    assert!(both.to_string().ends_with("a=simulcast:send b recv a;c\r\n"));
}

#[test]
fn written_description_is_read_back_as_the_same_session() {
    let offer = UnifiedBundleSession::from_str(SDP_OFFER_CHROME_SSRC).unwrap();
    let written = offer.to_string();
    let again = UnifiedBundleSession::from_str(&written).unwrap();
    assert_eq!(again.to_string(), written);
    assert_eq!(again.ice_ufrag, offer.ice_ufrag);
    assert_eq!(again.media_descriptions[0].payloads.len(), offer.media_descriptions[0].payloads.len());
    let copy = offer.clone();
    assert_eq!(copy.to_string(), written);
}

#[test]
fn later_header_extension_of_the_same_uri_overwrites() {
    let session = section(
        "a=ice-ufrag:U\r\na=ice-pwd:P\r\na=mid:a\r\na=extmap:1 urn:a\r\na=extmap:2 urn:b\r\na=extmap:3 urn:a\r\n",
    )
    .unwrap();
    assert_eq!(
        session.media_descriptions[0].extensions,
        vec![("urn:a".to_owned(), 3), ("urn:b".to_owned(), 2)]
    );
}

#[test]
fn transport_of_a_written_session_is_read_back() {
    let text = "v=0\r\no=- 77 3 IN IP4 h\r\ns=-\r\nt=0 0\r\na=extmap-allow-mixed\r\n\
m=audio 9 RTP/AVP 0\r\na=ice-ufrag:U\r\na=ice-pwd:P\r\na=ice-options:trickle renomination\r\n\
a=candidate:1 1 UDP 1 first 1 typ host\r\na=candidate:2 1 UDP 1 second 2 typ host\r\n\
a=fingerprint:sha-1 0A\r\na=fingerprint:x-new 0B\r\na=fingerprint:SHA-1 0C\r\n\
a=fingerprint:X-New 0D\r\na=setup:passive\r\na=mid:a\r\na=extmap:3 urn:a\r\na=extmap:1 urn:b\r\n\
a=sendonly\r\na=rtcp-mux\r\na=rtcp-rsize\r\na=rtpmap:0 PCMU/8000\r\na=ssrc:11 cname:c\r\n\
a=ssrc:12 cname:c\r\na=ssrc-group:FID 11 12\r\n\
m=video 9 RTP/AVP 96\r\nb=AS:512\r\na=mid:v\r\na=inactive\r\na=rtcp-mux-only\r\na=rtpmap:96 VP8/90000\r\n\
a=rid:hi send\r\na=rid:lo recv\r\na=ssrc:13 cname:d\r\n";
    let session = UnifiedBundleSession::from_str(text).unwrap();
    assert_eq!(
        prints_of(&session),
        vec![
            ("sha-1".to_owned(), vec![10]),
            ("x-new".to_owned(), vec![11]),
            ("sha-1".to_owned(), vec![12]),
            ("x-new".to_owned(), vec![13]),
        ]
    );
    let again = UnifiedBundleSession::from_str(&session.to_string()).unwrap();
    assert_eq!(again.id, 77);
    assert_eq!(again.version, 3);
    assert_eq!(again.ice_lite, session.ice_lite);
    assert_eq!(again.ice_ufrag, "U");
    assert_eq!(again.ice_pwd, "P");
    assert_eq!(
        again.ice_options,
        vec![IceOption::Trickle, IceOption::Unknown("renomination".to_owned())]
    );
    assert_eq!(addresses_of(&again), vec!["first".to_owned(), "second".to_owned()]);
    assert_eq!(prints_of(&again), prints_of(&session));
    assert_eq!(again.setup_role, SetupRole::Passive);
    assert!(again.allow_mixed_extension_maps);
    assert_eq!(again.media_descriptions.len(), 2);
    let (audio, video) = (&again.media_descriptions[0], &again.media_descriptions[1]);
    assert_eq!(audio.kind, MediaType::Audio);
    assert_eq!(audio.port, 9);
    assert_eq!(audio.protocol, TransportProtocol::RtpAvp);
    assert_eq!(audio.mid.0, "a");
    assert_eq!(audio.direction, MediaDirection::SendOnly);
    assert_eq!(
        (audio.rtcp_mux, audio.rtcp_mux_only, audio.rtcp_reduced_size),
        (true, false, true)
    );
    assert_eq!(audio.extensions, vec![("urn:a".to_owned(), 3), ("urn:b".to_owned(), 1)]);
    assert_eq!(video.kind, MediaType::Video);
    assert_eq!(video.mid.0, "v");
    assert_eq!(video.direction, MediaDirection::Inactive);
    assert_eq!(
        (video.rtcp_mux, video.rtcp_mux_only, video.rtcp_reduced_size),
        (false, true, false)
    );
    assert_eq!(video.bandwidths, session.media_descriptions[1].bandwidths);
    assert_eq!(video.bandwidths.len(), 1);
    assert!(video.extensions.is_empty());
    match &audio.encodings[..] {
        [RtpEncoding::SendingSsrc { cname, ssrc, rtx_ssrc }] => {
            assert_eq!(cname, "c");
            assert_eq!(*ssrc, Ssrc(11));
            assert_eq!(*rtx_ssrc, Some(Ssrc(12)));
        }
        other => panic!("{:?}", other),
    }
    match &video.encodings[..] {
        [RtpEncoding::Rid { rid: first, direction: RidDirection::Send }, RtpEncoding::Rid { rid: second, direction: RidDirection::Receive }] =>
        {
            assert_eq!(first.0, "hi");
            assert_eq!(second.0, "lo");
        }
        other => panic!("{:?}", other),
    }

    let bare = UnifiedBundleSession::from_str(
        "v=0\r\no=- 1 1 IN IP4 h\r\ns=-\r\nt=0 0\r\nm=audio 9 RTP/AVP 0\r\na=ice-ufrag:U\r\n\
a=ice-pwd:P\r\na=mid:a\r\na=rtpmap:0 PCMU/8000\r\n",
    )
    .unwrap();
    let bare_again = UnifiedBundleSession::from_str(&bare.to_string()).unwrap();
    assert!(bare_again.ice_options.is_empty());
    assert!(bare_again.candidates.is_empty());
    assert!(bare_again.fingerprints.is_empty());
    assert!(!bare_again.allow_mixed_extension_maps);
    assert!(!bare_again.ice_lite);
    assert_eq!(bare_again.setup_role, bare.setup_role);
}
