use base64::Engine;
use purpose_binding::config::{Config, PurposeSource, ToolPurposes0Config};
use purpose_binding::filter::{
    decide, decide_body, declared_purpose, entity_key, inspects_request, purpose_header, Verdict,
    DENY_ERROR_CODE, DENY_STATUS,
};
use purpose_binding::json::RpcEnvelope;

fn s(v: &[&str]) -> Vec<String> {
    v.iter().map(|x| x.to_string()).collect()
}

fn empty_config() -> Config {
    Config {
        allowed_purposes: None,
        claim_name: None,
        enforce_methods: None,
        fail_mode: None,
        header_name: None,
        source: None,
        tool_purposes: None,
    }
}

fn demo_config() -> Config {
    let mut c = empty_config();
    c.source = Some("header".to_string());
    c.header_name = Some("x-processing-purpose".to_string());
    c.tool_purposes = Some(vec![
        ToolPurposes0Config { tool: "lookup_customer".to_string(), purposes: s(&["customer_support", "billing"]) },
        ToolPurposes0Config { tool: "export_dataset".to_string(), purposes: s(&["analytics_aggregate"]) },
    ]);
    c.fail_mode = Some("closed".to_string());
    c
}

const CALL: &[u8] =
    br#"{"jsonrpc":"2.0","id":2,"method":"tools/call","params":{"name":"lookup_customer","arguments":{"customerId":"C-1"}}}"#;

fn deny(msg: &str) -> Verdict {
    Verdict::Deny { message: msg.to_string() }
}

#[test]
fn deny_constants() {
    assert_eq!(DENY_STATUS, 403);
    assert_eq!(DENY_ERROR_CODE, -32002);
}

#[test]
fn inspects_only_json_posts() {
    assert!(inspects_request("POST", Some("application/json")));
    assert!(inspects_request("POST", Some("application/json; charset=utf-8")));
    assert!(!inspects_request("GET", Some("application/json")));
    assert!(!inspects_request("post", Some("application/json")));
    assert!(!inspects_request("POST", Some("text/event-stream")));
    assert!(!inspects_request("POST", Some("Application/JSON")));
    assert!(!inspects_request("POST", None));
}

#[test]
fn purpose_source_defaults() {
    let c = empty_config();
    assert_eq!(c.purpose_source(), PurposeSource::Header("x-processing-purpose".to_string()));
    let mut c = empty_config();
    c.source = Some("claim".to_string());
    assert_eq!(c.purpose_source(), PurposeSource::Claim("purpose".to_string()));
    c.claim_name = Some("pur".to_string());
    assert_eq!(c.purpose_source(), PurposeSource::Claim("pur".to_string()));
    let mut c = empty_config();
    c.source = Some("something-else".to_string());
    c.header_name = Some("x-p".to_string());
    assert_eq!(c.purpose_source(), PurposeSource::Header("x-p".to_string()));
}

#[test]
fn purpose_header_names() {
    assert_eq!(purpose_header(&PurposeSource::Header("x-p".to_string())), "x-p");
    assert_eq!(purpose_header(&PurposeSource::Claim("purpose".to_string())), "authorization");
}

#[test]
fn declared_purpose_from_header_and_claim() {
    let h = PurposeSource::Header("x-processing-purpose".to_string());
    assert_eq!(declared_purpose(&h, Some("billing")), Some("billing".to_string()));
    assert_eq!(declared_purpose(&h, None), None);
    let b = base64::engine::general_purpose::URL_SAFE_NO_PAD.encode(br#"{"purpose":"treatment"}"#);
    let auth = format!("Bearer h.{b}.s");
    let c = PurposeSource::Claim("purpose".to_string());
    assert_eq!(declared_purpose(&c, Some(&auth)), Some("treatment".to_string()));
    assert_eq!(declared_purpose(&c, None), None);
    assert_eq!(declared_purpose(&c, Some("Bearer garbage")), None);
}

#[test]
fn config_settings() {
    let c = empty_config();
    assert!(c.fail_closed());
    assert!(c.governs("tools/call"));
    assert!(!c.governs("initialize"));
    assert!(c.per_tool().is_empty());
    assert!(c.global_purposes().is_empty());
    let mut c = demo_config();
    assert!(c.fail_closed());
    c.fail_mode = Some("open".to_string());
    assert!(!c.fail_closed());
    c.fail_mode = Some("Open".to_string());
    assert!(c.fail_closed());
    c.enforce_methods = Some(vec![]);
    assert!(c.governs("tools/call"));
    c.enforce_methods = Some(s(&["resources/read"]));
    assert!(!c.governs("tools/call"));
    assert!(c.governs("resources/read"));
    assert_eq!(
        c.per_tool(),
        vec![
            ("lookup_customer".to_string(), s(&["customer_support", "billing"])),
            ("export_dataset".to_string(), s(&["analytics_aggregate"])),
        ]
    );
    c.allowed_purposes = Some(s(&["treatment"]));
    assert_eq!(c.global_purposes(), s(&["treatment"]));
}

#[test]
fn entity_key_prefers_name() {
    let e = RpcEnvelope { method: None, name: Some("t".to_string()), uri: Some("u".to_string()) };
    assert_eq!(entity_key(&e), Some("t".to_string()));
    let e = RpcEnvelope { method: None, name: None, uri: Some("u".to_string()) };
    assert_eq!(entity_key(&e), Some("u".to_string()));
    let e = RpcEnvelope { method: None, name: None, uri: None };
    assert_eq!(entity_key(&e), None);
}

#[test]
fn demo_permitted_purpose_allowed() {
    assert_eq!(decide_body(&demo_config(), CALL, Some("customer_support")), Verdict::Continue);
    assert_eq!(decide_body(&demo_config(), CALL, Some("billing")), Verdict::Continue);
}

#[test]
fn demo_disallowed_purpose_denied() {
    assert_eq!(
        decide_body(&demo_config(), CALL, Some("marketing")),
        deny("purpose 'marketing' is not permitted for tool 'lookup_customer'")
    );
}

#[test]
fn demo_missing_purpose_denied() {
    assert_eq!(
        decide_body(&demo_config(), CALL, None),
        deny("purpose required for tool 'lookup_customer' but none was declared")
    );
}

#[test]
fn demo_initialize_passes() {
    let body = br#"{"jsonrpc":"2.0","id":1,"method":"initialize","params":{"protocolVersion":"2025-03-26"}}"#;
    assert_eq!(decide_body(&demo_config(), body, None), Verdict::Continue);
    let body = br#"{"jsonrpc":"2.0","id":1,"method":"tools/list"}"#;
    assert_eq!(decide_body(&demo_config(), body, None), Verdict::Continue);
}

#[test]
fn body_that_is_no_json_passes() {
    assert_eq!(decide_body(&demo_config(), b"not json", None), Verdict::Continue);
    assert_eq!(decide_body(&demo_config(), b"", None), Verdict::Continue);
}

#[test]
fn call_without_tool_passes() {
    let body = br#"{"jsonrpc":"2.0","id":3,"method":"tools/call","params":{"arguments":{}}}"#;
    assert_eq!(decide_body(&demo_config(), body, None), Verdict::Continue);
    let body = br#"{"jsonrpc":"2.0","id":3,"method":"tools/call","params":{"name":7}}"#;
    assert_eq!(decide_body(&demo_config(), body, None), Verdict::Continue);
}

#[test]
fn ungoverned_tool_passes() {
    let body = br#"{"jsonrpc":"2.0","id":3,"method":"tools/call","params":{"name":"other_tool"}}"#;
    assert_eq!(decide_body(&demo_config(), body, None), Verdict::Continue);
}

#[test]
fn open_mode_passes_everything() {
    let mut c = demo_config();
    c.fail_mode = Some("open".to_string());
    assert_eq!(decide_body(&c, CALL, Some("marketing")), Verdict::Continue);
    assert_eq!(decide_body(&c, CALL, None), Verdict::Continue);
}

#[test]
fn claim_config_with_global_list_and_resources() {
    let mut c = empty_config();
    c.source = Some("claim".to_string());
    c.claim_name = Some("purpose".to_string());
    c.allowed_purposes = Some(s(&["treatment", "care_coordination"]));
    c.enforce_methods = Some(s(&["tools/call", "resources/read"]));
    let read = br#"{"jsonrpc":"2.0","id":"a","method":"resources/read","params":{"uri":"file:///chart"}}"#;
    assert_eq!(decide_body(&c, read, Some("treatment")), Verdict::Continue);
    assert_eq!(
        decide_body(&c, read, Some("research")),
        deny("purpose 'research' is not permitted for tool 'file:///chart'")
    );
    let prompt = br#"{"jsonrpc":"2.0","id":"a","method":"prompts/get","params":{"name":"p"}}"#;
    assert_eq!(decide_body(&c, prompt, None), Verdict::Continue);
}

#[test]
fn decide_on_envelope() {
    let e = RpcEnvelope {
        method: Some("tools/call".to_string()),
        name: Some("export_dataset".to_string()),
        uri: None,
    };
    assert_eq!(decide(&demo_config(), Some(&e), Some("analytics_aggregate")), Verdict::Continue);
    assert_eq!(
        decide(&demo_config(), Some(&e), Some("billing")),
        deny("purpose 'billing' is not permitted for tool 'export_dataset'")
    );
    assert_eq!(decide(&demo_config(), None, None), Verdict::Continue);
    let e = RpcEnvelope { method: None, name: Some("export_dataset".to_string()), uri: None };
    assert_eq!(decide(&demo_config(), Some(&e), None), Verdict::Continue);
}

#[test]
fn method_missing_is_governed_when_empty_name_listed() {
    let mut c = demo_config();
    c.enforce_methods = Some(s(&[""]));
    let body = br#"{"id":1,"params":{"name":"lookup_customer"}}"#;
    assert_eq!(
        decide_body(&c, body, None),
        deny("purpose required for tool 'lookup_customer' but none was declared")
    );
}

#[test]
fn json_keys_read_as_serde_json_does() {
    let body = br#"{"method":"tools/call","method":"initialize","params":{"name":"lookup_customer"}}"#;
    assert_eq!(decide_body(&demo_config(), body, None), Verdict::Continue);
    let body = br#"{"method":"tools/call","params":{"name":"lookup_customer"}} trailing"#;
    assert_eq!(decide_body(&demo_config(), body, None), Verdict::Continue);
}
