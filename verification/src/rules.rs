//! The rule evaluator: decides whether a library entry applies to the
//! current operating system given its ordered allow/deny rule list.
//!
//! The verdict is last-match-wins, not first-match: each rule whose OS
//! constraint matches overwrites the running verdict with its action, and
//! the verdict after the whole list is returned. An absent rule list allows
//! the entry unconditionally.

use vstd::prelude::*;
use crate::models::{Library, Rule};

verus! {

/// Whether the rule's OS constraint matches `os`; a rule without a
/// constraint, or with a constraint that names no OS, matches every OS.
pub open spec fn rule_matches(r: Rule, os: Seq<char>) -> bool {
    match r.os {
        None => true,
        Some(o) => match o.name {
            None => true,
            Some(n) => n@ == os,
        },
    }
}

/// The verdict of an ordered rule list on `os`: the action of the last
/// matching rule, or denied when no rule matches.
pub open spec fn rules_verdict(rules: Seq<Rule>, os: Seq<char>) -> bool
    decreases rules.len(),
{
    if rules.len() == 0 {
        false
    } else if rule_matches(rules.last(), os) {
        rules.last().action@ == "allow"@
    } else {
        rules_verdict(rules.drop_last(), os)
    }
}

/// Whether the library applies on `os`: allowed when it carries no rule
/// list, else the list's verdict.
pub open spec fn library_allowed(lib: Library, os: Seq<char>) -> bool {
    match lib.rules {
        None => true,
        Some(rs) => rules_verdict(rs@, os),
    }
}

fn rule_matches_exec(r: &Rule, os_name: &str) -> (b: bool)
    ensures
        b == rule_matches(*r, os_name@),
{
    match &r.os {
        None => true,
        Some(o) => match &o.name {
            None => true,
            Some(n) => crate::strutil::str_eq(n.as_str(), os_name),
        },
    }
}

/// Whether `lib` applies to the operating system `os_name`.
pub fn is_library_allowed(lib: &Library, os_name: &str) -> (r: bool)
    ensures
        r == library_allowed(*lib, os_name@),
{
    let rules = match &lib.rules {
        Some(r) => r,
        None => {
            return true;
        },
    };
    let mut allowed = false;
    let mut i: usize = 0;
    while i < rules.len()
        invariant
            0 <= i <= rules@.len(),
            allowed == rules_verdict(rules@.take(i as int), os_name@),
        decreases rules@.len() - i,
    {
        proof {
            assert(rules@.take(i + 1).drop_last() =~= rules@.take(i as int));
            assert(rules@.take(i + 1).last() == rules@[i as int]);
        }
        if rule_matches_exec(&rules[i], os_name) {
            allowed = crate::strutil::str_eq(rules[i].action.as_str(), "allow");
        }
        i += 1;
    }
    proof {
        assert(rules@.take(rules@.len() as int) =~= rules@);
    }
    allowed
}

/// Last-match-wins: a rule list of a blanket deny followed by an allow
/// scoped to `os` allows `os`, although its first matching rule denies.
/// Under first-match semantics the same list would deny, so the override is
/// observable.
pub proof fn lemma_rule_override(deny_all: Rule, allow_os: Rule, os: Seq<char>)
    requires
        deny_all.action@ == "deny"@,
        deny_all.os is None,
        allow_os.action@ == "allow"@,
        allow_os.os matches Some(o) && o.name matches Some(n) && n@ == os,
    ensures
        rules_verdict(seq![deny_all, allow_os], os),
        rules_verdict(seq![deny_all], os) == false,
{
    reveal_strlit("allow");
    reveal_strlit("deny");
    assert(("allow"@).len() == 5);
    assert(("deny"@).len() == 4);
    let l = seq![deny_all, allow_os];
    assert(l.last() == allow_os);
    assert(rule_matches(allow_os, os));
    let d = seq![deny_all];
    assert(d.last() == deny_all);
    assert(rule_matches(deny_all, os));
    assert(deny_all.action@ != "allow"@);
}

} // verus!
