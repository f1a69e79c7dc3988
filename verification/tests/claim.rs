use base64::Engine;
use purpose_binding::claim::{claim_from_authorization, payload_segment};

fn make_jwt(payload: &str) -> String {
    let b = base64::engine::general_purpose::URL_SAFE_NO_PAD.encode(payload.as_bytes());
    format!("hdr.{b}.sig")
}

#[test]
fn reads_claim() {
    let jwt = make_jwt(r#"{"sub":"u1","purpose":"support"}"#);
    assert_eq!(
        claim_from_authorization(&format!("Bearer {jwt}"), "purpose"),
        Some("support".to_string())
    );
}

#[test]
fn missing_claim_is_none() {
    let jwt = make_jwt(r#"{"sub":"u1"}"#);
    assert_eq!(claim_from_authorization(&format!("Bearer {jwt}"), "purpose"), None);
}

#[test]
fn garbage_is_none() {
    assert_eq!(claim_from_authorization("Bearer not-a-jwt", "purpose"), None);
}

#[test]
fn payload_segment_is_second_part() {
    assert_eq!(payload_segment("Bearer aa.bb.cc"), Some(b"bb".to_vec()));
    assert_eq!(payload_segment("aa.bb"), Some(b"bb".to_vec()));
    assert_eq!(payload_segment("aa.bb.cc.dd"), Some(b"bb".to_vec()));
    assert_eq!(payload_segment("no-dot"), None);
    assert_eq!(payload_segment(""), None);
}

#[test]
fn payload_segment_scheme_and_white_space() {
    assert_eq!(payload_segment("bearer aa.bb.cc"), Some(b"bb".to_vec()));
    assert_eq!(payload_segment("BEARER aa.bb.cc"), Some(b"bb".to_vec()));
    assert_eq!(payload_segment("  Bearer aa.bb.cc"), Some(b"bb".to_vec()));
    assert_eq!(payload_segment("Bearer   aa.bb  \t"), Some(b"bb".to_vec()));
    assert_eq!(payload_segment("Bearer aa.bb\u{3000}"), Some(b"bb".to_vec()));
    assert_eq!(payload_segment("Bearer aa. bb .cc"), Some(b" bb ".to_vec()));
}

#[test]
fn payload_segment_drops_padding() {
    assert_eq!(payload_segment("aa.bb==.cc"), Some(b"bb".to_vec()));
    assert_eq!(payload_segment("aa.==.cc"), Some(b"".to_vec()));
    assert_eq!(payload_segment("aa.=b=.cc"), Some(b"=b".to_vec()));
}

#[test]
fn payload_segment_keeps_utf8() {
    assert_eq!(payload_segment("é.ü€.x"), Some("ü€".as_bytes().to_vec()));
}

#[test]
fn claim_with_lowercase_scheme_and_no_scheme() {
    let jwt = make_jwt(r#"{"purpose":"billing"}"#);
    assert_eq!(claim_from_authorization(&format!("bearer {jwt}"), "purpose"), Some("billing".to_string()));
    assert_eq!(claim_from_authorization(&jwt, "purpose"), Some("billing".to_string()));
}

#[test]
fn claim_with_padded_payload() {
    let b = base64::engine::general_purpose::URL_SAFE.encode(r#"{"purpose":"ab"}"#.as_bytes());
    assert!(b.ends_with('='));
    assert_eq!(claim_from_authorization(&format!("Bearer h.{b}.s"), "purpose"), Some("ab".to_string()));
}

#[test]
fn claim_that_is_no_string_is_none() {
    let jwt = make_jwt(r#"{"purpose":42}"#);
    assert_eq!(claim_from_authorization(&format!("Bearer {jwt}"), "purpose"), None);
    let jwt = make_jwt(r#"{"purpose":["support"]}"#);
    assert_eq!(claim_from_authorization(&format!("Bearer {jwt}"), "purpose"), None);
}

#[test]
fn claim_from_payload_that_is_no_json_object() {
    let jwt = make_jwt("not json");
    assert_eq!(claim_from_authorization(&format!("Bearer {jwt}"), "purpose"), None);
    let jwt = make_jwt(r#"["purpose","support"]"#);
    assert_eq!(claim_from_authorization(&format!("Bearer {jwt}"), "purpose"), None);
}

#[test]
fn claim_from_payload_that_is_no_base64() {
    assert_eq!(claim_from_authorization("Bearer h.*&^.s", "purpose"), None);
}

#[test]
fn claim_reads_other_claim_names() {
    let jwt = make_jwt(r#"{"sub":"u1","purpose":"support"}"#);
    assert_eq!(claim_from_authorization(&format!("Bearer {jwt}"), "sub"), Some("u1".to_string()));
}

#[test]
fn claim_ignores_signature() {
    let b = base64::engine::general_purpose::URL_SAFE_NO_PAD.encode(r#"{"purpose":"care"}"#.as_bytes());
    let a = claim_from_authorization(&format!("Bearer h.{b}.sig-one"), "purpose");
    let c = claim_from_authorization(&format!("Bearer h.{b}.other.sig"), "purpose");
    assert_eq!(a, Some("care".to_string()));
    assert_eq!(a, c);
}
