//! Dictionary order on spellings. A list of rules in ascending order has no
//! spelling twice, and a spelling that falls between two neighbours of such a
//! list is not in it.

use vstd::prelude::*;
use crate::rules::RuleView;
use crate::table::{conflict, conflicting, distinct_spellings, has_spelling};

verus! {

/// `a` and `b` agree on their first `k` characters, and there `a` ends while
/// `b` goes on, or `a` has the smaller character.
pub open spec fn parts_before(a: Seq<char>, b: Seq<char>, k: int) -> bool {
    &&& 0 <= k <= a.len()
    &&& k < b.len()
    &&& forall|i: int| 0 <= i < k ==> a[i] == b[i]
    &&& (k == a.len() || (a[k] as u32) < (b[k] as u32))
}

/// `a` comes before `b` in dictionary order.
pub open spec fn precedes(a: Seq<char>, b: Seq<char>) -> bool {
    exists|k: int| parts_before(a, b, k)
}

/// The spelling of the rule at `i` comes before that of the rule after it.
pub open spec fn rises_at(rules: Seq<RuleView>, i: int) -> bool {
    precedes(rules[i].spelling, rules[i + 1].spelling)
}

/// Each rule's spelling comes before the next rule's.
pub open spec fn ascending(rules: Seq<RuleView>) -> bool {
    forall|i: int| 0 <= i && i + 1 < rules.len() ==> #[trigger] rises_at(rules, i)
}

/// The rule at `i` comes before the next, since their spellings part at `k`.
pub proof fn lemma_rises(rules: Seq<RuleView>, i: int, k: int)
    requires
        0 <= i && i + 1 < rules.len(),
        parts_before(rules[i].spelling, rules[i + 1].spelling, k),
    ensures
        rises_at(rules, i),
{
}

/// What comes before another differs from it.
pub proof fn lemma_precedes_differs(a: Seq<char>, b: Seq<char>)
    requires
        precedes(a, b),
    ensures
        a != b,
{
}

/// Dictionary order is transitive.
pub proof fn lemma_precedes_chains(a: Seq<char>, b: Seq<char>, c: Seq<char>)
    requires
        precedes(a, b),
        precedes(b, c),
    ensures
        precedes(a, c),
{
    let k1 = choose|k: int| parts_before(a, b, k);
    let k2 = choose|k: int| parts_before(b, c, k);
    let k = if k1 <= k2 {
        k1
    } else {
        k2
    };
    assert(parts_before(a, c, k));
}

/// In an ascending list every rule's spelling comes before those of the rules
/// after it.
pub proof fn lemma_ascending_orders(rules: Seq<RuleView>, i: int, j: int)
    requires
        ascending(rules),
        0 <= i < j < rules.len(),
    ensures
        precedes(rules[i].spelling, rules[j].spelling),
    decreases j - i,
{
    if i + 1 == j {
        assert(rises_at(rules, i));
    } else {
        lemma_ascending_orders(rules, i, j - 1);
        assert(rises_at(rules, j - 1));
        lemma_precedes_chains(rules[i].spelling, rules[j - 1].spelling, rules[j].spelling);
    }
}

/// An ascending list has no spelling twice.
pub proof fn lemma_ascending_is_distinct(rules: Seq<RuleView>)
    requires
        ascending(rules),
    ensures
        distinct_spellings(rules),
{
    assert forall|i: int, j: int| 0 <= i < j < rules.len() implies (#[trigger] rules[i]).spelling != (
    #[trigger] rules[j]).spelling by {
        lemma_ascending_orders(rules, i, j);
        lemma_precedes_differs(rules[i].spelling, rules[j].spelling);
    }
}

/// A spelling that comes after the rule before position `at` of an ascending
/// list and before the rule at `at` is not in the list.
pub proof fn lemma_between_is_absent(rules: Seq<RuleView>, s: Seq<char>, at: int)
    requires
        ascending(rules),
        0 <= at <= rules.len(),
        at > 0 ==> precedes(rules[at - 1].spelling, s),
        at < rules.len() ==> precedes(s, rules[at].spelling),
    ensures
        !has_spelling(rules, s),
{
    assert forall|j: int| 0 <= j < rules.len() implies (#[trigger] rules[j]).spelling != s by {
        if j < at {
            if j < at - 1 {
                lemma_ascending_orders(rules, j, at - 1);
                lemma_precedes_chains(rules[j].spelling, rules[at - 1].spelling, s);
            }
        } else {
            if at < j {
                lemma_ascending_orders(rules, at, j);
                lemma_precedes_chains(s, rules[at].spelling, rules[j].spelling);
            }
        }
    }
}

/// A rule whose spelling falls between the rules of an ascending list
/// before and at position `at`, parting from them at `before` and `after`,
/// agrees with the list: its spelling is not in it.
pub proof fn lemma_falls_between(
    base: Seq<RuleView>,
    rule: RuleView,
    at: int,
    before: int,
    after: int,
)
    requires
        ascending(base),
        0 <= at <= base.len(),
        at > 0 ==> parts_before(base[at - 1].spelling, rule.spelling, before),
        at < base.len() ==> parts_before(rule.spelling, base[at].spelling, after),
    ensures
        agrees(rule, base),
{
    lemma_between_is_absent(base, rule.spelling, at);
}

/// Every rule of `base` with the spelling of `rule` has the shape of `rule`.
pub open spec fn agrees(rule: RuleView, base: Seq<RuleView>) -> bool {
    forall|j: int|
        0 <= j < base.len() && (#[trigger] base[j]).spelling == rule.spelling ==> base[j].shape
            == rule.shape
}

/// Two ascending lists of which each rule of the first agrees with the
/// second give no spelling two shapes when they are laid together.
pub proof fn lemma_layers_agree(overlay: Seq<RuleView>, base: Seq<RuleView>)
    requires
        ascending(overlay),
        ascending(base),
        forall|i: int| 0 <= i < overlay.len() ==> agrees(#[trigger] overlay[i], base),
    ensures
        !conflicting(overlay + base),
{
    let all = overlay + base;
    lemma_ascending_is_distinct(overlay);
    lemma_ascending_is_distinct(base);
    assert forall|i: int, j: int| !conflict(all, i, j) by {
        if conflict(all, i, j) {
            if j < overlay.len() {
                assert(overlay[i].spelling != overlay[j].spelling);
            } else if i >= overlay.len() {
                assert(base[i - overlay.len()].spelling != base[j - overlay.len()].spelling);
            } else {
                assert(agrees(overlay[i], base));
                assert(base[j - overlay.len()].spelling == overlay[i].spelling);
            }
        }
    }
}

/// A rule agrees with a list without repeated spellings that has its
/// spelling with its shape.
pub proof fn lemma_present_agrees(rule: RuleView, base: Seq<RuleView>, at: int)
    requires
        distinct_spellings(base),
        0 <= at < base.len(),
        base[at].spelling == rule.spelling,
        base[at].shape == rule.shape,
    ensures
        agrees(rule, base),
{
    assert forall|j: int|
        0 <= j < base.len() && (#[trigger] base[j]).spelling == rule.spelling implies base[j].shape
        == rule.shape by {
        if j < at {
            assert(base[j].spelling != base[at].spelling);
        } else if at < j {
            assert(base[at].spelling != base[j].spelling);
        }
    }
}

} // verus!
