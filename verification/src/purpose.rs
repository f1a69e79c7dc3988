//! The purpose-binding decision: which purposes a tool admits, and what a
//! declared purpose earns under that list.
use vstd::prelude::*;

use crate::text::str_eq;

verus! {

/// What the policy decides for one governed call.
#[derive(Debug, PartialEq, Eq, Structural, Clone, Copy)]
pub enum Outcome {
    /// Purpose permitted (or open-mode pass): the call goes through.
    Allow,
    /// The tool has no configured allow-list: the policy does not govern it.
    NotGoverned,
    /// Governed tool, but no purpose was declared.
    DenyMissing,
    /// Governed tool, but the declared purpose is not in the allow-list.
    DenyNotPermitted,
}

/// The allow-list that governs `tool`: the purposes of the first per-tool entry
/// named `tool`; failing that the global list, unless it is empty; failing that none.
pub open spec fn resolved_list(
    tool: Seq<char>,
    per_tool: Seq<(Seq<char>, Seq<Seq<char>>)>,
    global: Seq<Seq<char>>,
) -> Option<Seq<Seq<char>>>
    decreases per_tool.len(),
{
    if per_tool.len() == 0 {
        if global.len() == 0 {
            None
        } else {
            Some(global)
        }
    } else if per_tool[0].0 == tool {
        Some(per_tool[0].1)
    } else {
        resolved_list(tool, per_tool.drop_first(), global)
    }
}

/// The outcome for a call whose tool has the allow-list `allowed` (none when
/// the tool is not governed) and whose caller declared `declared`.
pub open spec fn outcome_of(
    allowed: Option<Seq<Seq<char>>>,
    declared: Option<Seq<char>>,
    fail_closed: bool,
) -> Outcome {
    match allowed {
        None => Outcome::NotGoverned,
        Some(list) => match declared {
            None => if fail_closed {
                Outcome::DenyMissing
            } else {
                Outcome::Allow
            },
            Some(p) => if list.contains(p) {
                Outcome::Allow
            } else if fail_closed {
                Outcome::DenyNotPermitted
            } else {
                Outcome::Allow
            },
        },
    }
}

/// Resolve the allow-list for a tool: a per-tool entry wins; otherwise the global
/// list. Returns `None` when neither is configured (the tool is not governed).
pub fn resolve_allowed<'a>(
    tool: &str,
    per_tool: &'a [(String, Vec<String>)],
    global: &'a [String],
) -> (r: Option<&'a [String]>)
    ensures
        r.deep_view() == resolved_list(tool@, per_tool.deep_view(), global.deep_view()),
{
    let ghost entries = per_tool.deep_view();
    let mut i: usize = 0;
    assert(entries.skip(0) =~= entries);
    while i < per_tool.len()
        invariant
            i <= per_tool@.len(),
            entries == per_tool.deep_view(),
            resolved_list(tool@, entries, global.deep_view()) == resolved_list(
                tool@,
                entries.skip(i as int),
                global.deep_view(),
            ),
        decreases per_tool@.len() - i,
    {
        let (t, purposes) = &per_tool[i];
        assert(entries.skip(i as int)[0] == entries[i as int]);
        if str_eq(t.as_str(), tool) {
            let s = purposes.as_slice();
            assert(s.deep_view() =~= purposes.deep_view());
            return Some(s);
        }
        assert(entries.skip(i as int).drop_first() =~= entries.skip(i + 1));
        i = i + 1;
    }
    if global.len() == 0 {
        None
    } else {
        Some(global)
    }
}

/// Decide the outcome for a governed call.
pub fn evaluate(allowed: Option<&[String]>, declared: Option<&str>, fail_closed: bool) -> (r:
    Outcome)
    ensures
        r == outcome_of(allowed.deep_view(), declared.deep_view(), fail_closed),
{
    let allowed = match allowed {
        Some(a) => a,
        None => return Outcome::NotGoverned,
    };
    match declared {
        None => {
            if fail_closed {
                Outcome::DenyMissing
            } else {
                Outcome::Allow
            }
        },
        Some(p) => {
            if list_contains(allowed, p) {
                Outcome::Allow
            } else if fail_closed {
                Outcome::DenyNotPermitted
            } else {
                Outcome::Allow
            }
        },
    }
}

/// Whether `list` holds the purpose `p`.
fn list_contains(list: &[String], p: &str) -> (r: bool)
    ensures
        r == list.deep_view().contains(p@),
{
    let mut i: usize = 0;
    while i < list.len()
        invariant
            i <= list@.len(),
            forall|j: int| 0 <= j < i ==> list.deep_view()[j] != p@,
        decreases list@.len() - i,
    {
        if str_eq(list[i].as_str(), p) {
            assert(list.deep_view()[i as int] == p@);
            return true;
        }
        i = i + 1;
    }
    false
}

/// A per-tool entry wins: when the first entry named `tool` is at index `i`, its
/// purposes are the allow-list, whatever the global list holds.
pub proof fn lemma_per_tool_entry_wins(
    tool: Seq<char>,
    per_tool: Seq<(Seq<char>, Seq<Seq<char>>)>,
    global: Seq<Seq<char>>,
    i: int,
)
    requires
        0 <= i < per_tool.len(),
        per_tool[i].0 == tool,
        forall|j: int| 0 <= j < i ==> per_tool[j].0 != tool,
    ensures
        resolved_list(tool, per_tool, global) == Some(per_tool[i].1),
    decreases i,
{
    if i > 0 {
        lemma_per_tool_entry_wins(tool, per_tool.drop_first(), global, i - 1);
    }
}

/// Without a per-tool entry for `tool`, the global list governs it, unless that
/// list is empty: then the tool is not governed.
pub proof fn lemma_global_fallback(
    tool: Seq<char>,
    per_tool: Seq<(Seq<char>, Seq<Seq<char>>)>,
    global: Seq<Seq<char>>,
)
    requires
        forall|j: int| 0 <= j < per_tool.len() ==> per_tool[j].0 != tool,
    ensures
        resolved_list(tool, per_tool, global) == if global.len() == 0 {
            None
        } else {
            Some(global)
        },
    decreases per_tool.len(),
{
    if per_tool.len() > 0 {
        assert(per_tool[0].0 != tool);
        assert forall|j: int| 0 <= j < per_tool.drop_first().len() implies per_tool.drop_first()[j].0
            != tool by {
            assert(per_tool.drop_first()[j] == per_tool[j + 1]);
        }
        lemma_global_fallback(tool, per_tool.drop_first(), global);
    }
}

/// A tool without an allow-list is not governed: every call to it passes.
pub proof fn lemma_ungoverned_passes(declared: Option<Seq<char>>, fail_closed: bool)
    ensures
        outcome_of(None, declared, fail_closed) == Outcome::NotGoverned,
{
}

/// A declared purpose in the allow-list is allowed in either fail mode.
pub proof fn lemma_permitted_purpose_allowed(
    list: Seq<Seq<char>>,
    purpose: Seq<char>,
    fail_closed: bool,
)
    requires
        list.contains(purpose),
    ensures
        outcome_of(Some(list), Some(purpose), fail_closed) == Outcome::Allow,
{
}

/// The open fail mode never denies: a governed call is allowed whatever it
/// declares, and only a tool without an allow-list is reported as not governed.
pub proof fn lemma_open_mode_never_denies(
    allowed: Option<Seq<Seq<char>>>,
    declared: Option<Seq<char>>,
)
    ensures
        outcome_of(allowed, declared, false) == if allowed is None {
            Outcome::NotGoverned
        } else {
            Outcome::Allow
        },
{
}

/// In the closed fail mode a governed call is denied exactly when its purpose is
/// missing or not in the allow-list, and the denial names which of the two it is.
pub proof fn lemma_closed_mode_denies_unlisted(list: Seq<Seq<char>>, declared: Option<Seq<char>>)
    ensures
        outcome_of(Some(list), declared, true) == match declared {
            None => Outcome::DenyMissing,
            Some(p) => if list.contains(p) {
                Outcome::Allow
            } else {
                Outcome::DenyNotPermitted
            },
        },
{
}

} // verus!
