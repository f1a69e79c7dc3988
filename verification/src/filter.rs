//! The decisions of the inbound request filter. The gateway reads the request in
//! two phases (headers, then body); each phase hands its plain values to one of
//! these functions, and a denial comes back as the message of the JSON-RPC error.
use vstd::prelude::*;

use crate::claim::{claim_from_authorization, claim_of};
use crate::config::{fail_closed_of, global_of, governs_of, per_tool_of, Config, PurposeSource};
use crate::json::{JsonValue, json_document, method_of, name_of, parse_rpc_envelope, uri_of, RpcEnvelope};
use crate::purpose::{
    evaluate, lemma_global_fallback, lemma_per_tool_entry_wins, outcome_of, resolve_allowed,
    resolved_list, Outcome,
};
use crate::text::{starts_with, str_eq, str_starts_with};

verus! {

/// The HTTP status of a denial.
pub const DENY_STATUS: u32 = 403;

/// The JSON-RPC error code of a denial.
pub const DENY_ERROR_CODE: i64 = -32002;

/// What the filter does with a request.
#[derive(Clone, Debug, PartialEq, Eq)]
pub enum Verdict {
    /// Let the request through to the upstream server.
    Continue,
    /// Reject it with HTTP 403 and a JSON-RPC error carrying `message`.
    Deny { message: String },
}

/// The message of `v`, none when it lets the request through.
pub open spec fn denial_of(v: Verdict) -> Option<Seq<char>> {
    match v {
        Verdict::Continue => None,
        Verdict::Deny { message } => Some(message@),
    }
}

/// Whether the filter looks at a request with this HTTP method and content type:
/// a `POST` whose content type starts with `application/json`.
pub open spec fn inspected(method: Seq<char>, content_type: Option<Seq<char>>) -> bool {
    &&& method == "POST"@
    &&& content_type matches Some(ct) && starts_with(ct, "application/json"@)
}

/// The key a call is governed by: `params.name` (the tool, or prompt), else
/// `params.uri` (the resource).
pub open spec fn entity_of(name: Option<Seq<char>>, uri: Option<Seq<char>>) -> Option<Seq<char>> {
    match name {
        Some(n) => Some(n),
        None => uri,
    }
}

/// The denial message when no purpose was declared for `tool`.
pub open spec fn missing_message(tool: Seq<char>) -> Seq<char> {
    "purpose required for tool '"@ + tool + "' but none was declared"@
}

/// The denial message when `purpose` is not permitted for `tool`.
pub open spec fn not_permitted_message(purpose: Seq<char>, tool: Seq<char>) -> Seq<char> {
    "purpose '"@ + purpose + "' is not permitted for tool '"@ + tool + "'"@
}

/// The denial, if any, for a JSON-RPC request with `method` and the entity fields
/// `name` and `uri`, whose caller declared `declared`, under the configuration `c`.
pub open spec fn call_denial(
    c: Config,
    method: Option<Seq<char>>,
    name: Option<Seq<char>>,
    uri: Option<Seq<char>>,
    declared: Option<Seq<char>>,
) -> Option<Seq<char>> {
    let m = match method {
        Some(m) => m,
        None => Seq::empty(),
    };
    if !governs_of(c, m) {
        None
    } else {
        match entity_of(name, uri) {
            None => None,
            Some(tool) => match outcome_of(
                resolved_list(tool, per_tool_of(c), global_of(c)),
                declared,
                fail_closed_of(c),
            ) {
                Outcome::DenyMissing => Some(missing_message(tool)),
                Outcome::DenyNotPermitted => Some(
                    not_permitted_message(
                        match declared {
                            Some(p) => p,
                            None => Seq::empty(),
                        },
                        tool,
                    ),
                ),
                _ => None,
            },
        }
    }
}

/// The denial, if any, for the request body `body`: a body that is no JSON is
/// let through, otherwise as [`call_denial`] says.
pub open spec fn body_denial(c: Config, body: Seq<u8>, declared: Option<Seq<char>>) -> Option<
    Seq<char>,
> {
    match json_document(body) {
        None => None,
        Some(doc) => call_denial(c, method_of(doc), name_of(doc), uri_of(doc), declared),
    }
}

/// Headers phase: whether the request is inspected at all; any other request
/// passes through untouched.
pub fn inspects_request(method: &str, content_type: Option<&str>) -> (r: bool)
    ensures
        r == inspected(method@, content_type.deep_view()),
{
    if !str_eq(method, "POST") {
        return false;
    }
    match content_type {
        Some(ct) => str_starts_with(ct, "application/json"),
        None => false,
    }
}

/// Headers phase: the request header whose value carries the declared purpose,
/// `authorization` when the purpose is a JWT claim.
pub fn purpose_header(source: &PurposeSource) -> (r: String)
    ensures
        match source {
            PurposeSource::Header(name) => r@ == name@,
            PurposeSource::Claim(_) => r@ == "authorization"@,
        },
{
    match source {
        PurposeSource::Header(name) => name.clone(),
        PurposeSource::Claim(_) => "authorization".to_owned(),
    }
}

/// Headers phase: the declared purpose, given the value of the header that
/// [`purpose_header`] names (none when the request lacks it).
pub fn declared_purpose(source: &PurposeSource, header_value: Option<&str>) -> (r: Option<String>)
    ensures
        match source {
            PurposeSource::Header(_) => r.deep_view() == header_value.deep_view(),
            PurposeSource::Claim(claim) => r.deep_view() == match header_value {
                Some(a) => claim_of(a@, claim@),
                None => None,
            },
        },
{
    match source {
        PurposeSource::Header(_) => match header_value {
            Some(v) => Some(v.to_owned()),
            None => None,
        },
        PurposeSource::Claim(claim) => match header_value {
            Some(a) => claim_from_authorization(a, claim.as_str()),
            None => None,
        },
    }
}

/// The key a JSON-RPC request is governed by (tool name for `tools/call` and
/// `prompts/get`, uri for `resources/read`).
pub fn entity_key(envelope: &RpcEnvelope) -> (r: Option<String>)
    ensures
        r.deep_view() == entity_of(envelope.name.deep_view(), envelope.uri.deep_view()),
{
    match &envelope.name {
        Some(n) => Some(n.clone()),
        None => match &envelope.uri {
            Some(u) => Some(u.clone()),
            None => None,
        },
    }
}

/// The message for a denied call.
fn deny_message(outcome: Outcome, tool: &str, declared: Option<&str>) -> (r: String)
    requires
        outcome == Outcome::DenyMissing || outcome == Outcome::DenyNotPermitted,
    ensures
        outcome == Outcome::DenyMissing ==> r@ == missing_message(tool@),
        outcome == Outcome::DenyNotPermitted ==> r@ == not_permitted_message(
            match declared {
                Some(p) => p@,
                None => Seq::empty(),
            },
            tool@,
        ),
{
    if outcome == Outcome::DenyMissing {
        let mut m = "purpose required for tool '".to_owned();
        m.append(tool);
        m.append("' but none was declared");
        m
    } else {
        let p: &str = match declared {
            Some(p) => p,
            None => "",
        };
        proof {
            reveal_strlit("");
        }
        let mut m = "purpose '".to_owned();
        m.append(p);
        m.append("' is not permitted for tool '");
        m.append(tool);
        m.append("'");
        m
    }
}

/// Body phase: the verdict for a JSON-RPC request whose string fields are
/// `envelope`; `None` stands for a body that is not JSON and passes through.
pub fn decide(config: &Config, envelope: Option<&RpcEnvelope>, declared: Option<&str>) -> (r:
    Verdict)
    ensures
        denial_of(r) == match envelope {
            None => None,
            Some(e) => call_denial(
                *config,
                e.method.deep_view(),
                e.name.deep_view(),
                e.uri.deep_view(),
                declared.deep_view(),
            ),
        },
{
    let env = match envelope {
        Some(e) => e,
        None => return Verdict::Continue,
    };
    let method: &str = match &env.method {
        Some(m) => m.as_str(),
        None => "",
    };
    proof {
        reveal_strlit("");
        assert(method@ == match env.method.deep_view() {
            Some(m) => m,
            None => Seq::<char>::empty(),
        });
    }
    if !config.governs(method) {
        return Verdict::Continue;
    }
    let tool = match entity_key(env) {
        Some(t) => t,
        None => return Verdict::Continue,
    };
    let per_tool = config.per_tool();
    let global = config.global_purposes();
    let per_tool_slice = per_tool.as_slice();
    let global_slice = global.as_slice();
    assert(per_tool_slice.deep_view() =~= per_tool.deep_view());
    assert(global_slice.deep_view() =~= global.deep_view());
    let allowed = resolve_allowed(tool.as_str(), per_tool_slice, global_slice);
    let outcome = evaluate(allowed, declared, config.fail_closed());
    match outcome {
        Outcome::Allow | Outcome::NotGoverned => Verdict::Continue,
        _ => Verdict::Deny { message: deny_message(outcome, tool.as_str(), declared) },
    }
}

/// Body phase: the verdict for the request body `body`.
pub fn decide_body(config: &Config, body: &[u8], declared: Option<&str>) -> (r: Verdict)
    ensures
        denial_of(r) == body_denial(*config, body@, declared.deep_view()),
{
    let envelope = parse_rpc_envelope(body);
    match &envelope {
        Some(e) => {
            decide(config, Some(e), declared)
        },
        None => decide(config, None, declared),
    }
}

/// A method the policy does not enforce on (`initialize`, `tools/list`, ... by
/// default) passes through untouched.
pub proof fn lemma_ungoverned_method_passes(
    c: Config,
    method: Seq<char>,
    name: Option<Seq<char>>,
    uri: Option<Seq<char>>,
    declared: Option<Seq<char>>,
)
    requires
        !governs_of(c, method),
    ensures
        call_denial(c, Some(method), name, uri, declared) is None,
{
}

/// Without configured methods the policy enforces on `tools/call` alone.
pub proof fn lemma_default_enforces_tools_call(c: Config, method: Seq<char>)
    requires
        c.enforce_methods.deep_view() matches Some(list) ==> list.len() == 0,
    ensures
        governs_of(c, method) <==> method == "tools/call"@,
{
}

/// A call that names neither a tool nor a resource passes through.
pub proof fn lemma_keyless_call_passes(
    c: Config,
    method: Option<Seq<char>>,
    declared: Option<Seq<char>>,
)
    ensures
        call_denial(c, method, None, None, declared) is None,
{
}

/// In the open fail mode no call is denied.
pub proof fn lemma_fail_open_never_denies(
    c: Config,
    method: Option<Seq<char>>,
    name: Option<Seq<char>>,
    uri: Option<Seq<char>>,
    declared: Option<Seq<char>>,
)
    requires
        !fail_closed_of(c),
    ensures
        call_denial(c, method, name, uri, declared) is None,
{
}

/// The decision table of a governed call in the closed fail mode, for a call keyed
/// by its tool name or, lacking one, by its resource uri: an entity without an
/// allow-list passes; a purpose in its list passes; a missing purpose and a purpose
/// outside the list are denied with the message that says which.
pub proof fn lemma_closed_mode_table(
    c: Config,
    method: Seq<char>,
    tool: Seq<char>,
    name: Option<Seq<char>>,
    uri: Option<Seq<char>>,
    declared: Option<Seq<char>>,
)
    requires
        governs_of(c, method),
        fail_closed_of(c),
        name == Some(tool) || (name is None && uri == Some(tool)),
    ensures
        call_denial(c, Some(method), name, uri, declared) == match resolved_list(
            tool,
            per_tool_of(c),
            global_of(c),
        ) {
            None => None,
            Some(list) => match declared {
                None => Some("purpose required for tool '"@ + tool + "' but none was declared"@),
                Some(p) => if list.contains(p) {
                    None
                } else {
                    Some("purpose '"@ + p + "' is not permitted for tool '"@ + tool + "'"@)
                },
            },
        },
{
}

/// A governed call to a tool that has no per-tool entry is judged, in the closed
/// fail mode, against the whole configured `allowedPurposes` list: a purpose listed
/// at any position passes, any other purpose is denied.
pub proof fn lemma_global_list_judges_unlisted_tools(
    c: Config,
    method: Seq<char>,
    tool: Seq<char>,
    name: Option<Seq<char>>,
    uri: Option<Seq<char>>,
    list: Seq<Seq<char>>,
    purpose: Seq<char>,
)
    requires
        governs_of(c, method),
        fail_closed_of(c),
        name == Some(tool) || (name is None && uri == Some(tool)),
        c.tool_purposes.deep_view() matches Some(entries) ==> forall|j: int|
            0 <= j < entries.len() ==> entries[j].0 != tool,
        c.allowed_purposes.deep_view() == Some(list),
        list.len() > 0,
    ensures
        call_denial(c, Some(method), name, uri, Some(purpose)) == if list.contains(purpose) {
            None
        } else {
            Some("purpose '"@ + purpose + "' is not permitted for tool '"@ + tool + "'"@)
        },
{
    lemma_global_fallback(tool, per_tool_of(c), global_of(c));
}

/// A governed call to a tool with per-tool entries is judged, in the closed fail
/// mode, against the purposes of the first entry named after it, whatever the
/// global list holds.
pub proof fn lemma_per_tool_list_judges_tool(
    c: Config,
    method: Seq<char>,
    tool: Seq<char>,
    name: Option<Seq<char>>,
    uri: Option<Seq<char>>,
    entries: Seq<(Seq<char>, Seq<Seq<char>>)>,
    i: int,
    purpose: Seq<char>,
)
    requires
        governs_of(c, method),
        fail_closed_of(c),
        name == Some(tool) || (name is None && uri == Some(tool)),
        c.tool_purposes.deep_view() == Some(entries),
        0 <= i < entries.len(),
        entries[i].0 == tool,
        forall|j: int| 0 <= j < i ==> entries[j].0 != tool,
    ensures
        call_denial(c, Some(method), name, uri, Some(purpose)) == if entries[i].1.contains(
            purpose,
        ) {
            None
        } else {
            Some("purpose '"@ + purpose + "' is not permitted for tool '"@ + tool + "'"@)
        },
{
    lemma_per_tool_entry_wins(tool, per_tool_of(c), global_of(c), i);
}

/// A JSON-RPC body is judged by its string `method` and the string `name` member
/// of its `params` object, whatever `params.uri` holds.
pub proof fn lemma_body_keyed_by_name(
    c: Config,
    body: Seq<u8>,
    m: Map<Seq<char>, JsonValue>,
    pm: Map<Seq<char>, JsonValue>,
    method: Seq<char>,
    tool: Seq<char>,
    declared: Option<Seq<char>>,
)
    requires
        json_document(body) == Some(JsonValue::Object(m)),
        m.dom().contains("method"@),
        m["method"@] == JsonValue::Str(method),
        m.dom().contains("params"@),
        m["params"@] == JsonValue::Object(pm),
        pm.dom().contains("name"@),
        pm["name"@] == JsonValue::Str(tool),
    ensures
        body_denial(c, body, declared) == call_denial(c, Some(method), Some(tool), None, declared),
{
}

/// A JSON-RPC body whose `params` object has no `name` member is judged by the
/// string `uri` member of `params`.
pub proof fn lemma_body_keyed_by_uri(
    c: Config,
    body: Seq<u8>,
    m: Map<Seq<char>, JsonValue>,
    pm: Map<Seq<char>, JsonValue>,
    method: Seq<char>,
    uri: Seq<char>,
    declared: Option<Seq<char>>,
)
    requires
        json_document(body) == Some(JsonValue::Object(m)),
        m.dom().contains("method"@),
        m["method"@] == JsonValue::Str(method),
        m.dom().contains("params"@),
        m["params"@] == JsonValue::Object(pm),
        !pm.dom().contains("name"@),
        pm.dom().contains("uri"@),
        pm["uri"@] == JsonValue::Str(uri),
    ensures
        body_denial(c, body, declared) == call_denial(c, Some(method), None, Some(uri), declared),
{
}

/// Headers phase: a request is inspected exactly when its method is `POST` and its
/// content type is `application/json` followed by anything.
pub proof fn lemma_inspected_requests(method: Seq<char>, content_type: Option<Seq<char>>)
    ensures
        inspected(method, content_type) <==> method == "POST"@ && exists|rest: Seq<char>|
            content_type == Some("application/json"@ + rest),
{
    if let Some(ct) = content_type {
        let p = "application/json"@;
        if starts_with(ct, p) {
            assert(ct =~= p + ct.skip(p.len() as int));
        }
        assert forall|rest: Seq<char>| content_type == Some(p + rest) implies starts_with(ct, p) by {
            assert((p + rest).take(p.len() as int) =~= p);
        }
    }
}

/// A request without a string `method` is judged as one whose method is empty.
pub proof fn lemma_missing_method_is_empty(
    c: Config,
    name: Option<Seq<char>>,
    uri: Option<Seq<char>>,
    declared: Option<Seq<char>>,
)
    ensures
        call_denial(c, None, name, uri, declared) == call_denial(
            c,
            Some(Seq::empty()),
            name,
            uri,
            declared,
        ),
{
}

/// A body that is not JSON passes through: the policy leaves it to the server.
pub proof fn lemma_non_json_body_passes(c: Config, body: Seq<u8>, declared: Option<Seq<char>>)
    requires
        json_document(body) is None,
    ensures
        body_denial(c, body, declared) is None,
{
}

} // verus!
