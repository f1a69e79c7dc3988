use purpose_binding::purpose::{evaluate, resolve_allowed, Outcome};

fn s(v: &[&str]) -> Vec<String> {
    v.iter().map(|x| x.to_string()).collect()
}

#[test]
fn resolve_per_tool_wins() {
    let per = vec![("lookup_customer".to_string(), s(&["support", "billing"]))];
    let global = s(&["analytics"]);
    assert_eq!(
        resolve_allowed("lookup_customer", &per, &global),
        Some(s(&["support", "billing"]).as_slice())
    );
}

#[test]
fn resolve_falls_back_to_global() {
    let per: Vec<(String, Vec<String>)> = vec![];
    let global = s(&["analytics"]);
    assert_eq!(resolve_allowed("other", &per, &global), Some(s(&["analytics"]).as_slice()));
}

#[test]
fn resolve_not_governed_when_empty() {
    let per: Vec<(String, Vec<String>)> = vec![];
    let global: Vec<String> = vec![];
    assert_eq!(resolve_allowed("other", &per, &global), None);
}

#[test]
fn evaluate_allow_when_permitted() {
    let allowed = s(&["support", "billing"]);
    assert_eq!(evaluate(Some(&allowed), Some("support"), true), Outcome::Allow);
}

#[test]
fn evaluate_deny_not_permitted_closed() {
    let allowed = s(&["support"]);
    assert_eq!(evaluate(Some(&allowed), Some("marketing"), true), Outcome::DenyNotPermitted);
}

#[test]
fn evaluate_deny_missing_closed() {
    let allowed = s(&["support"]);
    assert_eq!(evaluate(Some(&allowed), None, true), Outcome::DenyMissing);
}

#[test]
fn evaluate_open_mode_allows_disallowed_and_missing() {
    let allowed = s(&["support"]);
    assert_eq!(evaluate(Some(&allowed), Some("marketing"), false), Outcome::Allow);
    assert_eq!(evaluate(Some(&allowed), None, false), Outcome::Allow);
}

#[test]
fn evaluate_not_governed_passes() {
    assert_eq!(evaluate(None, None, true), Outcome::NotGoverned);
}

#[test]
fn resolve_first_matching_entry_wins() {
    let per = vec![
        ("export_dataset".to_string(), s(&["analytics_aggregate"])),
        ("lookup_customer".to_string(), s(&["support"])),
        ("lookup_customer".to_string(), s(&["marketing"])),
    ];
    let global = s(&["analytics"]);
    assert_eq!(resolve_allowed("lookup_customer", &per, &global), Some(s(&["support"]).as_slice()));
}

#[test]
fn resolve_empty_per_tool_entry_still_governs() {
    let per = vec![("lookup_customer".to_string(), s(&[]))];
    let global = s(&["analytics"]);
    let got = resolve_allowed("lookup_customer", &per, &global);
    assert_eq!(got, Some(s(&[]).as_slice()));
    assert_eq!(evaluate(got, Some("analytics"), true), Outcome::DenyNotPermitted);
}

#[test]
fn resolve_tool_names_compare_exactly() {
    let per = vec![("Lookup_Customer".to_string(), s(&["support"]))];
    let global: Vec<String> = vec![];
    assert_eq!(resolve_allowed("lookup_customer", &per, &global), None);
}

#[test]
fn evaluate_permitted_in_open_mode() {
    let allowed = s(&["support"]);
    assert_eq!(evaluate(Some(&allowed), Some("support"), false), Outcome::Allow);
}

#[test]
fn evaluate_purpose_compares_exactly() {
    let allowed = s(&["support"]);
    assert_eq!(evaluate(Some(&allowed), Some("Support"), true), Outcome::DenyNotPermitted);
    assert_eq!(evaluate(Some(&allowed), Some("support "), true), Outcome::DenyNotPermitted);
}

#[test]
fn evaluate_not_governed_in_open_mode() {
    assert_eq!(evaluate(None, Some("anything"), false), Outcome::NotGoverned);
}
