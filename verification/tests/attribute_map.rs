use semantic_sdp::attribute_map::AttributeMap;
use semantic_sdp::attributes::{IceLite, Mid, RtpMap};
use semantic_sdp::registry::NamedAttribute;

#[test]
fn test_not_existing_known() {
    let map = AttributeMap::new();
    assert_eq!(map.get::<Mid>(), None);
}

#[test]
fn test_not_existing_unknown() {
    let map = AttributeMap::new();
    assert_eq!(map.get_unknown("invalid"), None);
}

#[test]
fn test_single_known() {
    let mut map = AttributeMap::new();
    map.append(Mid("test".into()));
    assert_eq!(map.get::<Mid>(), Some(&Mid("test".into())));
}

#[test]
fn test_single_unknown_property() {
    let mut map = AttributeMap::new();
    map.append_unknown("invalid", None).unwrap();
    assert_eq!(map.get_unknown("invalid"), Some(None));
}

#[test]
fn test_single_unknown_value() {
    let mut map = AttributeMap::new();
    map.append_unknown("invalid", Some("value".to_owned())).unwrap();
    assert_eq!(map.get_unknown("invalid"), Some(Some("value".to_owned())));
}

#[test]
fn test_multiple_known() {
    let mut map = AttributeMap::new();
    map.append(Mid("test".into()));
    map.append(Mid("test_two".into()));
    assert_eq!(map.get_vec::<Mid>(), vec![&Mid("test".into()), &Mid("test_two".into())]);
}

#[test]
fn test_multiple_unknown() {
    let mut map = AttributeMap::new();
    map.append_unknown("invalid", Some("value".to_owned())).unwrap();
    map.append_unknown("invalid", Some("value_two".to_owned())).unwrap();
    assert_eq!(
        map.get_unknown_vec("invalid"),
        vec![Some("value".to_owned()), Some("value_two".to_owned())]
    );
}

#[test]
fn test_known_to_unknown_property() {
    let mut map = AttributeMap::new();
    map.append(IceLite);
    assert_eq!(map.get_unknown(IceLite::NAME), Some(None));
}

#[test]
fn test_known_to_unknown_value() {
    let mut map = AttributeMap::new();
    map.append(Mid("test".into()));
    assert_eq!(map.get_unknown(Mid::NAME), Some(Some("test".to_owned())));
}

#[test]
fn test_unknown_to_known_property() {
    let mut map = AttributeMap::new();
    map.append_unknown(IceLite::NAME, None).unwrap();
    assert_eq!(map.get::<IceLite>(), Some(&IceLite));
}

#[test]
fn test_unknown_to_known_value() {
    let mut map = AttributeMap::new();
    map.append_unknown(Mid::NAME, Some("test".to_owned())).unwrap();
    assert_eq!(map.get::<Mid>(), Some(&Mid("test".into())));
}

#[test]
fn map_keeps_the_order_of_appending() {
    let mut map = AttributeMap::new();
    map.append(Mid("0".into()));
    map.append_unknown("x-first", Some("1".to_owned())).unwrap();
    map.append(IceLite);
    map.append_unknown("x-first", None).unwrap();
    assert_eq!(map.to_string(), "a=mid:0\r\na=x-first:1\r\na=ice-lite\r\na=x-first\r\n");
    let names: Vec<String> = map.entries().iter().map(|e| e.0.clone()).collect();
    assert_eq!(names, vec!["mid", "x-first", "ice-lite", "x-first"]);
}

#[test]
fn append_unknown_lowers_the_name_and_refuses_malformed_values() {
    let mut map = AttributeMap::new();
    map.append_unknown("RTPMAP", Some("96 VP8/90000".to_owned())).unwrap();
    assert_eq!(
        map.get::<RtpMap>(),
        Some(&RtpMap { payload: 96, name: "VP8".to_owned(), clock: 90000, channels: None })
    );
    assert_eq!(
        map.append_unknown("rtpmap", Some("x VP8/90000".to_owned())),
        Err("malformed attribute value".to_owned())
    );
    assert_eq!(map.entries().len(), 1);
}

#[test]
fn get_gives_nothing_for_a_value_of_another_type() {
    let mut map = AttributeMap::new();
    map.append_parsed(
        "mid".to_owned(),
        semantic_sdp::registry::Attribute::Unknown(Some("0".to_owned())),
    );
    assert_eq!(map.get::<Mid>(), None);
    assert_eq!(map.get_vec::<Mid>().len(), 0);
    assert_eq!(map.get_unknown("mid"), Some(Some("0".to_owned())));
}
