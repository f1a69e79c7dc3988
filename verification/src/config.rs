//! The policy's configuration, as the gateway hands it over, and the settings
//! that the request filter reads from it.
use vstd::prelude::*;

use crate::text::{clone_strings, str_eq};

verus! {

/// One per-tool allow-list: the purposes permitted for the tool named `tool`.
#[derive(Clone, Debug)]
pub struct ToolPurposes0Config {
    pub purposes: Vec<String>,
    pub tool: String,
}

impl DeepView for ToolPurposes0Config {
    type V = (Seq<char>, Seq<Seq<char>>);

    open spec fn deep_view(&self) -> (Seq<char>, Seq<Seq<char>>) {
        (self.tool@, self.purposes.deep_view())
    }
}

/// The policy configuration; every property is optional.
#[derive(Clone, Debug)]
pub struct Config {
    pub allowed_purposes: Option<Vec<String>>,
    pub claim_name: Option<String>,
    pub enforce_methods: Option<Vec<String>>,
    pub fail_mode: Option<String>,
    pub header_name: Option<String>,
    pub source: Option<String>,
    pub tool_purposes: Option<Vec<ToolPurposes0Config>>,
}

/// Where the declared purpose is read from.
#[derive(Clone, Debug, PartialEq, Eq)]
pub enum PurposeSource {
    /// The request header of this name.
    Header(String),
    /// The claim of this name in the bearer token of the `Authorization` header.
    Claim(String),
}

/// The per-tool allow-lists of `c`, in order; none when unset.
pub open spec fn per_tool_of(c: Config) -> Seq<(Seq<char>, Seq<Seq<char>>)> {
    match c.tool_purposes.deep_view() {
        Some(v) => v,
        None => Seq::empty(),
    }
}

/// The global allow-list of `c`; empty when unset.
pub open spec fn global_of(c: Config) -> Seq<Seq<char>> {
    match c.allowed_purposes.deep_view() {
        Some(v) => v,
        None => Seq::empty(),
    }
}

/// Whether `c` rejects governed calls with a missing or disallowed purpose: every
/// fail mode but `open` (and the default) is closed.
pub open spec fn fail_closed_of(c: Config) -> bool {
    c.fail_mode.deep_view() != Some("open"@)
}

/// Whether `c` enforces the policy on the MCP method `method`: the configured
/// methods when there are any, otherwise `tools/call` alone.
pub open spec fn governs_of(c: Config, method: Seq<char>) -> bool {
    match c.enforce_methods.deep_view() {
        Some(list) => if list.len() > 0 {
            list.contains(method)
        } else {
            method == "tools/call"@
        },
        None => method == "tools/call"@,
    }
}

/// Whether `c` reads the purpose from a JWT claim: only for the source `claim`.
pub open spec fn claim_source_of(c: Config) -> bool {
    c.source.deep_view() == Some("claim"@)
}

/// `value` when it is set, `default` otherwise.
pub open spec fn or_default(value: Option<Seq<char>>, default: Seq<char>) -> Seq<char> {
    match value {
        Some(v) => v,
        None => default,
    }
}

/// The name of the header or claim that carries the purpose under `c`.
pub open spec fn purpose_name_of(c: Config) -> Seq<char> {
    if claim_source_of(c) {
        or_default(c.claim_name.deep_view(), "purpose"@)
    } else {
        or_default(c.header_name.deep_view(), "x-processing-purpose"@)
    }
}

/// A copy of `s`, or of `default` when `s` is unset.
fn string_or(s: &Option<String>, default: &str) -> (r: String)
    ensures
        r@ == or_default(s.deep_view(), default@),
{
    match s {
        Some(v) => v.clone(),
        None => default.to_owned(),
    }
}

/// Whether `s` is set to `value`.
fn is_set_to(s: &Option<String>, value: &str) -> (r: bool)
    ensures
        r == (s.deep_view() == Some(value@)),
{
    match s {
        Some(v) => str_eq(v.as_str(), value),
        None => false,
    }
}

/// Whether `list` holds `s`.
fn strings_contain(list: &Vec<String>, s: &str) -> (r: bool)
    ensures
        r == list.deep_view().contains(s@),
{
    let mut i: usize = 0;
    while i < list.len()
        invariant
            i <= list@.len(),
            forall|j: int| 0 <= j < i ==> list.deep_view()[j] != s@,
        decreases list@.len() - i,
    {
        if str_eq(list[i].as_str(), s) {
            assert(list.deep_view()[i as int] == s@);
            return true;
        }
        i = i + 1;
    }
    false
}

/// With a non-empty list of enforced methods, a method is enforced exactly when
/// the list holds it, at any position.
pub proof fn lemma_listed_methods_enforced(c: Config, list: Seq<Seq<char>>, method: Seq<char>)
    requires
        c.enforce_methods.deep_view() == Some(list),
        list.len() > 0,
    ensures
        governs_of(c, method) <==> exists|i: int| 0 <= i < list.len() && list[i] == method,
{
}

/// Only the fail mode `open` lets governed calls with a bad purpose through; an
/// unset or any other fail mode rejects them.
pub proof fn lemma_only_open_mode_fails_open(c: Config)
    ensures
        !fail_closed_of(c) <==> c.fail_mode.deep_view() == Some("open"@),
{
}

/// Where the purpose is read: under the source `claim`, the configured claim name
/// or else `purpose`, whatever header name is configured; under any other or no
/// source, the configured header name or else `x-processing-purpose`, whatever
/// claim name is configured.
pub proof fn lemma_purpose_source_names(c: Config)
    ensures
        c.source.deep_view() == Some("claim"@) ==> claim_source_of(c) && purpose_name_of(c)
            == match c.claim_name.deep_view() {
            Some(n) => n,
            None => "purpose"@,
        },
        c.source.deep_view() != Some("claim"@) ==> !claim_source_of(c) && purpose_name_of(c)
            == match c.header_name.deep_view() {
            Some(n) => n,
            None => "x-processing-purpose"@,
        },
{
}

/// The global allow-list is the configured `allowedPurposes` in full, and the
/// per-tool lists are the configured `toolPurposes` entries in order; both are
/// empty when unset.
pub proof fn lemma_lists_are_configured_lists(c: Config)
    ensures
        c.allowed_purposes.deep_view() matches Some(v) ==> global_of(c) == v,
        c.allowed_purposes.deep_view() is None ==> global_of(c).len() == 0,
        c.tool_purposes.deep_view() matches Some(v) ==> per_tool_of(c) == v,
        c.tool_purposes.deep_view() is None ==> per_tool_of(c).len() == 0,
{
}

impl Config {
    /// The per-tool allow-lists, as `(tool, purposes)` pairs in configuration order.
    pub fn per_tool(&self) -> (r: Vec<(String, Vec<String>)>)
        ensures
            r.deep_view() == per_tool_of(*self),
    {
        let mut r: Vec<(String, Vec<String>)> = Vec::new();
        match &self.tool_purposes {
            None => {
                assert(r.deep_view() =~= per_tool_of(*self));
            },
            Some(entries) => {
                let mut i: usize = 0;
                while i < entries.len()
                    invariant
                        self.tool_purposes == Some(*entries),
                        i <= entries@.len(),
                        r@.len() == i,
                        forall|j: int| 0 <= j < i ==> #[trigger] r@[j].deep_view() == entries@[j].deep_view(),
                    decreases entries@.len() - i,
                {
                    let tool = entries[i].tool.clone();
                    let purposes = clone_strings(&entries[i].purposes);
                    let ghost entry = (tool@, purposes.deep_view());
                    assert(entry == entries@[i as int].deep_view());
                    r.push((tool, purposes));
                    i = i + 1;
                }
                assert(r.deep_view() =~= per_tool_of(*self));
            },
        }
        r
    }

    /// The global allow-list; empty when unset.
    pub fn global_purposes(&self) -> (r: Vec<String>)
        ensures
            r.deep_view() == global_of(*self),
    {
        match &self.allowed_purposes {
            Some(v) => clone_strings(v),
            None => {
                let r: Vec<String> = Vec::new();
                assert(r.deep_view() =~= Seq::<Seq<char>>::empty());
                r
            },
        }
    }

    /// Whether a governed call with a missing or disallowed purpose is rejected.
    pub fn fail_closed(&self) -> (r: bool)
        ensures
            r == fail_closed_of(*self),
    {
        !is_set_to(&self.fail_mode, "open")
    }

    /// Whether the policy is enforced on the MCP method `method`.
    pub fn governs(&self, method: &str) -> (r: bool)
        ensures
            r == governs_of(*self, method@),
    {
        match &self.enforce_methods {
            Some(list) => {
                if list.len() > 0 {
                    strings_contain(list, method)
                } else {
                    str_eq(method, "tools/call")
                }
            },
            None => str_eq(method, "tools/call"),
        }
    }

    /// Where the declared purpose is read from, with the configured or default name.
    pub fn purpose_source(&self) -> (r: PurposeSource)
        ensures
            match r {
                PurposeSource::Claim(name) => claim_source_of(*self) && name@ == purpose_name_of(
                    *self,
                ),
                PurposeSource::Header(name) => !claim_source_of(*self) && name@
                    == purpose_name_of(*self),
            },
    {
        if is_set_to(&self.source, "claim") {
            PurposeSource::Claim(string_or(&self.claim_name, "purpose"))
        } else {
            PurposeSource::Header(string_or(&self.header_name, "x-processing-purpose"))
        }
    }
}

} // verus!
