use ddns_engine::aliyun::{Aliyun, AliyunRecord};
use ddns_engine::config::ConfigError;
use ddns_engine::dynv6::{
    contains_invalid_chars, BodyShape, Dynv6, Dynv6Body, Dynv6Client, Dynv6Record, ZoneFields,
};
use ddns_engine::record::{RemoteOp, RemoteReply};
use ddns_engine::request::RequestMethod;
use ddns_engine::text::decimal_text;

fn d6(rr: &str, t: &str) -> Dynv6 {
    Dynv6::new("11451", "YOUR_TOKEN", rr, t)
}

fn drec(id: u64, name: &str, t: &str, data: &str) -> Dynv6Record {
    Dynv6Record { id, name: name.to_string(), record_type: t.to_string(), data: data.to_string() }
}

#[test]
fn invalid_token_chars() {
    assert!(!contains_invalid_chars("abcDEF-123_"));
    assert!(contains_invalid_chars("abc:def"));
    assert!(contains_invalid_chars("abc\ndef"));
    assert!(contains_invalid_chars("\u{7f}"));
    assert!(!contains_invalid_chars(""));
}

#[test]
fn settings_are_checked() {
    assert!(matches!(Dynv6::from_settings("1", "", "www", "A"), Err(ConfigError::InvalidToken)));
    assert!(matches!(Dynv6::from_settings("1", "a:b", "www", "A"), Err(ConfigError::InvalidToken)));
    assert!(matches!(Dynv6::from_settings("1", "tok", "www", "MX"), Err(ConfigError::InvalidRecordType)));
    let ok = Dynv6::from_settings("1", "tok", "www", "AAAA").unwrap();
    assert_eq!(ok.zone_id, "1");
    assert_eq!(ok.client.token, "tok");
}

#[test]
fn client_new_keeps_settings() {
    let c = Dynv6Client::new("tok", "zone");
    assert_eq!(c.token, "tok");
    assert_eq!(c.zone_id, "zone");
}

#[test]
fn record_requests() {
    let p = d6("www", "A");
    let list = p.request_for(&RemoteOp::List).unwrap();
    assert_eq!(list.mathod, RequestMethod::GET);
    assert_eq!(list.url, "https://dynv6.com/api/v2/zones/11451/records");
    assert_eq!(list.content, "");
    let headers = list.headers.unwrap();
    assert_eq!(headers[0], ("Authorization".to_string(), "Bearer YOUR_TOKEN".to_string()));
    assert_eq!(headers.len(), 3);

    let del = p.delete_subdomain_records("77").unwrap();
    assert_eq!(del.mathod, RequestMethod::DELETE);
    assert_eq!(del.url, "https://dynv6.com/api/v2/zones/11451/records/77");

    let m = p.request_for(&RemoteOp::Modify("77".to_string(), "1.2.3.4".to_string())).unwrap();
    assert_eq!(m.mathod, RequestMethod::PATCH);
    assert_eq!(m.url, "https://dynv6.com/api/v2/zones/11451/records/77");
    assert_eq!(m.content, "{\"name\":\"www\",\"type\":\"A\",\"data\":\"1.2.3.4\"}");

    let c = p.request_for(&RemoteOp::Create("1.2.3.4".to_string())).unwrap();
    assert_eq!(c.mathod, RequestMethod::POST);
    assert_eq!(c.url, "https://dynv6.com/api/v2/zones/11451/records");
}

#[test]
fn json_values_are_escaped() {
    let p = d6("w\"x", "A");
    let m = p.request_for(&RemoteOp::Create("a\\b".to_string())).unwrap();
    assert_eq!(m.content, "{\"name\":\"w\\\"x\",\"type\":\"A\",\"data\":\"a\\\\b\"}");
}

#[test]
fn apex_requests() {
    let p = d6("@", "AAAA");
    let list = p.request_for(&RemoteOp::List).unwrap();
    assert_eq!(list.url, "https://dynv6.com/api/v2/zones/11451");
    let m = p.request_for(&RemoteOp::Modify("0".to_string(), "2001:db8::".to_string())).unwrap();
    assert_eq!(m.mathod, RequestMethod::PATCH);
    assert_eq!(m.url, "https://dynv6.com/api/v2/zones/11451");
    assert_eq!(m.content, "{\"ipv6prefix\":\"2001:db8::\"}");
    assert!(p.request_for(&RemoteOp::Create("x".to_string())).is_none());
    assert!(p.request_for(&RemoteOp::Delete("0".to_string())).is_none());
    let q = d6("", "A");
    let m = q.request_for(&RemoteOp::Modify("0".to_string(), "1.2.3.4".to_string())).unwrap();
    assert_eq!(m.content, "{\"ipv4address\":\"1.2.3.4\"}");
}

#[test]
fn unknown_record_type_has_no_request() {
    let p = d6("www", "TXT");
    assert!(p.request_for(&RemoteOp::List).is_none());
}

#[test]
fn body_framing() {
    assert_eq!(Dynv6Client::frame_body(BodyShape::Records, "{\"id\":1}").unwrap(), "[{\"id\":1}]");
    assert_eq!(Dynv6Client::frame_body(BodyShape::Records, "[]").unwrap(), "[]");
    assert_eq!(Dynv6Client::frame_body(BodyShape::Zone, "{\"id\":1}").unwrap(), "{\"id\":1}");
    assert!(Dynv6Client::frame_body(BodyShape::Records, "").is_none());
    let p = d6("www", "A");
    assert_eq!(p.body_shape(&RemoteOp::List), BodyShape::Records);
    assert_eq!(p.body_shape(&RemoteOp::Delete("1".to_string())), BodyShape::Ignored);
    assert_eq!(d6("@", "A").body_shape(&RemoteOp::List), BodyShape::Zone);
}

#[test]
fn listing_keeps_matching_records() {
    let p = d6("www", "A");
    let body = Dynv6Body::Records(vec![
        drec(10, "www", "A", "1.1.1.1"),
        drec(11, "www", "AAAA", "::1"),
        drec(12, "mail", "A", "2.2.2.2"),
        drec(13, "www", "A", "3.3.3.3"),
    ]);
    match p.reply_for(&RemoteOp::List, 200, body) {
        RemoteReply::Listed(rs) => {
            assert_eq!(rs.len(), 2);
            assert_eq!((rs[0].id.as_str(), rs[0].value.as_str()), ("10", "1.1.1.1"));
            assert_eq!((rs[1].id.as_str(), rs[1].value.as_str()), ("13", "3.3.3.3"));
        }
        other => panic!("unexpected {:?}", other),
    }
    assert!(matches!(p.reply_for(&RemoteOp::List, 500, Dynv6Body::Records(Vec::new())), RemoteReply::Failed));
    assert!(matches!(p.reply_for(&RemoteOp::List, 200, Dynv6Body::Unreadable), RemoteReply::Failed));
}

#[test]
fn zone_listing() {
    let p = d6("@", "A");
    let z = ZoneFields { id: Some(5), ipv4address: Some("4.4.4.4".to_string()), ipv6prefix: None };
    match p.reply_for(&RemoteOp::List, 200, Dynv6Body::Zone(z)) {
        RemoteReply::Listed(rs) => {
            assert_eq!(rs.len(), 1);
            assert_eq!(rs[0].id, "0");
            assert_eq!(rs[0].value, "4.4.4.4");
        }
        other => panic!("unexpected {:?}", other),
    }
    let z = ZoneFields { id: Some(5), ipv4address: None, ipv6prefix: Some("2001::".to_string()) };
    assert!(matches!(p.reply_for(&RemoteOp::List, 200, Dynv6Body::Zone(z)), RemoteReply::Listed(ref v) if v.is_empty()));
    assert!(matches!(p.reply_for(&RemoteOp::List, 200, Dynv6Body::Empty), RemoteReply::Listed(ref v) if v.is_empty()));
}

#[test]
fn status_replies() {
    let p = d6("www", "A");
    assert!(matches!(p.reply_for(&RemoteOp::Delete("1".to_string()), 200, Dynv6Body::Empty), RemoteReply::Deleted));
    assert!(matches!(p.reply_for(&RemoteOp::Delete("1".to_string()), 404, Dynv6Body::Empty), RemoteReply::Failed));
    let m = RemoteOp::Modify("9".to_string(), "1.1.1.1".to_string());
    assert!(matches!(p.reply_for(&m, 200, Dynv6Body::Empty), RemoteReply::Modified(ref id) if id == "9"));
    let c = RemoteOp::Create("1.1.1.1".to_string());
    let created = p.reply_for(&c, 200, Dynv6Body::Records(vec![drec(99, "www", "A", "1.1.1.1")]));
    assert!(matches!(created, RemoteReply::Created(ref id) if id == "99"));
    assert!(matches!(p.reply_for(&c, 200, Dynv6Body::Records(Vec::new())), RemoteReply::Failed));
}

#[test]
fn decimal_rendering() {
    assert_eq!(decimal_text(0), "0");
    assert_eq!(decimal_text(7), "7");
    assert_eq!(decimal_text(11451), "11451");
    assert_eq!(decimal_text(u64::MAX), "18446744073709551615");
}

#[test]
fn aliyun_matching_records() {
    let a = Aliyun::new("id", "secret", "example.com", "www", Some(600), "A");
    assert_eq!(a.domain, "example.com");
    assert_eq!(a.ttl, Some(600));
    let r = |rr: &str, t: &str, v: &str, id: &str| AliyunRecord {
        rr: rr.to_string(),
        record_type: t.to_string(),
        value: v.to_string(),
        record_id: id.to_string(),
    };
    let listed = vec![
        r("www", "A", "1.1.1.1", "a1"),
        r("@", "A", "2.2.2.2", "a2"),
        r("www", "AAAA", "::1", "a3"),
        r("www", "A", "4.4.4.4", "a4"),
    ];
    let m = a.matching_records(&listed);
    assert_eq!(m.len(), 2);
    assert_eq!((m[0].id.as_str(), m[0].value.as_str()), ("a1", "1.1.1.1"));
    assert_eq!((m[1].id.as_str(), m[1].value.as_str()), ("a4", "4.4.4.4"));
}

#[test]
fn json_bodies_from_literals() {
    assert_eq!(
        Dynv6Client::record_json("\"www\"", "\"A\"", "\"1.2.3.4\""),
        "{\"name\":\"www\",\"type\":\"A\",\"data\":\"1.2.3.4\"}"
    );
    assert_eq!(Dynv6Client::apex_json(true, "\"1.2.3.4\""), "{\"ipv4address\":\"1.2.3.4\"}");
    assert_eq!(Dynv6Client::apex_json(false, "\"2001::\""), "{\"ipv6prefix\":\"2001::\"}");
}

#[test]
fn aliyun_incomplete_listing_is_no_answer() {
    let a = Aliyun::new("id", "secret", "example.com", "www", None, "A");
    let listed = vec![AliyunRecord {
        rr: "www".to_string(),
        record_type: "A".to_string(),
        value: "1.1.1.1".to_string(),
        record_id: "r1".to_string(),
    }];
    assert!(matches!(a.list_reply(&listed, 25), RemoteReply::Failed));
    match a.list_reply(&listed, 1) {
        RemoteReply::Listed(rs) => assert_eq!(rs[0].id, "r1"),
        other => panic!("unexpected {:?}", other),
    }
}
