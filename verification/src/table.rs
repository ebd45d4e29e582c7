//! The effective rule table of a dialect: the dialect's own rules laid over
//! the rules it shares with its family.

use vstd::prelude::*;
use crate::rules::{
    best_match,
    lemma_best_match,
    lookup,
    rule_matches,
    ArgumentRule,
    RuleView,
    ValueShape,
};
use crate::text::same_text;

verus! {

/// Whether some rule of `rules` has the spelling `s`.
pub open spec fn has_spelling(rules: Seq<RuleView>, s: Seq<char>) -> bool {
    exists|i: int| 0 <= i < rules.len() && (#[trigger] rules[i]).spelling == s
}

/// `rules` without the rules whose spelling an earlier rule has: of each
/// spelling the first rule stays, in the order of `rules`.
pub open spec fn first_of_each(rules: Seq<RuleView>) -> Seq<RuleView>
    decreases rules.len(),
{
    if rules.len() == 0 {
        Seq::empty()
    } else if has_spelling(rules.drop_last(), rules.last().spelling) {
        first_of_each(rules.drop_last())
    } else {
        first_of_each(rules.drop_last()).push(rules.last())
    }
}

/// Two rules of `rules`, at `i` and `j`, give one spelling two shapes.
pub open spec fn conflict(rules: Seq<RuleView>, i: int, j: int) -> bool {
    &&& 0 <= i < j < rules.len()
    &&& rules[i].spelling == rules[j].spelling
    &&& rules[i].shape != rules[j].shape
}

/// Some spelling has two shapes in `rules`.
pub open spec fn conflicting(rules: Seq<RuleView>) -> bool {
    exists|i: int, j: int| conflict(rules, i, j)
}

/// No two rules of `rules` have the same spelling.
pub open spec fn distinct_spellings(rules: Seq<RuleView>) -> bool {
    forall|i: int, j: int|
        0 <= i < j < rules.len() ==> (#[trigger] rules[i]).spelling != (#[trigger] rules[j]).spelling
}

/// `first_of_each` keeps rules of its argument only, keeps one of every
/// spelling, and keeps none twice.
pub proof fn lemma_first_of_each(rules: Seq<RuleView>)
    ensures
        forall|p: int|
            0 <= p < first_of_each(rules).len() ==> exists|i: int|
                0 <= i < rules.len() && (#[trigger] first_of_each(rules)[p]) == rules[i],
        forall|s: Seq<char>| has_spelling(first_of_each(rules), s) <==> has_spelling(rules, s),
        distinct_spellings(first_of_each(rules)),
    decreases rules.len(),
{
    let kept = first_of_each(rules);
    if rules.len() > 0 {
        let front = rules.drop_last();
        let last = rules.last();
        let before = first_of_each(front);
        lemma_first_of_each(front);
        assert forall|p: int| 0 <= p < kept.len() implies exists|i: int|
            0 <= i < rules.len() && (#[trigger] kept[p]) == rules[i] by {
            if p < before.len() {
                let i = choose|i: int| 0 <= i < front.len() && before[p] == front[i];
                assert(kept[p] == rules[i]);
            } else {
                assert(kept[p] == rules[rules.len() - 1]);
            }
        }
        assert forall|s: Seq<char>| has_spelling(kept, s) <==> has_spelling(rules, s) by {
            if has_spelling(kept, s) {
                let p = choose|p: int| 0 <= p < kept.len() && (#[trigger] kept[p]).spelling == s;
                let i = choose|i: int| 0 <= i < rules.len() && kept[p] == rules[i];
                assert(rules[i].spelling == s);
            }
            if has_spelling(rules, s) {
                let i = choose|i: int| 0 <= i < rules.len() && (#[trigger] rules[i]).spelling == s;
                if i < front.len() {
                    assert(front[i].spelling == s);
                    assert(has_spelling(front, s));
                    assert(has_spelling(before, s));
                    let p = choose|p: int|
                        0 <= p < before.len() && (#[trigger] before[p]).spelling == s;
                    assert(kept[p].spelling == s);
                } else if has_spelling(front, last.spelling) {
                    assert(rules[i] == last);
                    assert(has_spelling(before, s));
                } else {
                    assert(kept[kept.len() - 1].spelling == s);
                }
            }
        }
        assert forall|i: int, j: int| 0 <= i < j < kept.len() implies (#[trigger] kept[i]).spelling != (
        #[trigger] kept[j]).spelling by {
            if j == before.len() {
                assert(before[i].spelling == kept[i].spelling);
                if kept[i].spelling == kept[j].spelling {
                    assert(has_spelling(before, last.spelling));
                }
            } else {
                assert(before[i] == kept[i] && before[j] == kept[j]);
            }
        }
    }
}

/// No rule of `rules` before the one at `i` has its spelling.
pub open spec fn is_first(rules: Seq<RuleView>, i: int) -> bool {
    &&& 0 <= i < rules.len()
    &&& forall|h: int| 0 <= h < i ==> (#[trigger] rules[h]).spelling != rules[i].spelling
}

/// Each rule that `first_of_each` keeps is the first of its spelling.
pub proof fn lemma_first_of_each_keeps_first(rules: Seq<RuleView>)
    ensures
        forall|p: int|
            0 <= p < first_of_each(rules).len() ==> exists|i: int|
                is_first(rules, i) && (#[trigger] first_of_each(rules)[p]) == rules[i],
    decreases rules.len(),
{
    let kept = first_of_each(rules);
    if rules.len() > 0 {
        let front = rules.drop_last();
        let before = first_of_each(front);
        lemma_first_of_each_keeps_first(front);
        assert forall|p: int| 0 <= p < kept.len() implies exists|i: int|
            is_first(rules, i) && (#[trigger] kept[p]) == rules[i] by {
            if p < before.len() {
                let i = choose|i: int| is_first(front, i) && before[p] == front[i];
                assert forall|h: int| 0 <= h < i implies (#[trigger] rules[h]).spelling
                    != rules[i].spelling by {
                    assert(front[h] == rules[h]);
                }
                assert(is_first(rules, i) && kept[p] == rules[i]);
            } else {
                let i = rules.len() - 1;
                assert forall|h: int| 0 <= h < i implies (#[trigger] rules[h]).spelling
                    != rules[i].spelling by {
                    assert(front[h] == rules[h]);
                }
                assert(is_first(rules, i) && kept[p] == rules[i]);
            }
        }
    }
}

/// A rule of the overlay takes precedence: where `overlay` has no spelling
/// twice, the effective table of `overlay` over `base` has each spelling of
/// `overlay`, and has it with the rule of `overlay`.
pub proof fn lemma_overlay_takes_precedence(base: Seq<RuleView>, overlay: Seq<RuleView>, i: int)
    requires
        distinct_spellings(overlay),
        0 <= i < overlay.len(),
    ensures
        has_spelling(first_of_each(overlay + base), overlay[i].spelling),
        forall|p: int|
            0 <= p < first_of_each(overlay + base).len() && (#[trigger] first_of_each(
                overlay + base,
            )[p]).spelling == overlay[i].spelling ==> first_of_each(overlay + base)[p] == overlay[i],
{
    let all = overlay + base;
    let kept = first_of_each(all);
    lemma_first_of_each(all);
    lemma_first_of_each_keeps_first(all);
    assert(all[i] == overlay[i]);
    assert(has_spelling(all, overlay[i].spelling));
    assert forall|p: int|
        0 <= p < kept.len() && (#[trigger] kept[p]).spelling == overlay[i].spelling implies kept[p]
        == overlay[i] by {
        let f = choose|f: int| is_first(all, f) && kept[p] == all[f];
        if f > i {
            assert(all[i].spelling != all[f].spelling);
        } else if f < i {
            assert(all[f] == overlay[f]);
        }
    }
}

/// A token begins with the spelling of a rule that matches it.
pub proof fn lemma_match_is_prefix(rule: RuleView, token: Seq<char>)
    requires
        rule_matches(rule, token),
    ensures
        rule.spelling.is_prefix_of(token),
{
    let s = rule.spelling;
    match rule.shape {
        ValueShape::JoinedWith(c) | ValueShape::JoinedWithOrNext(c) => {
            if token != s {
                assert(s.push(c).is_prefix_of(token));
                assert(token.subrange(0, s.len() as int) =~= token.subrange(
                    0,
                    s.len() as int + 1,
                ).take(s.len() as int));
                assert(s.push(c).take(s.len() as int) =~= s);
            } else {
                assert(token.subrange(0, s.len() as int) =~= s);
            }
        },
        _ => {
            if token == s {
                assert(token.subrange(0, s.len() as int) =~= s);
            }
        },
    }
}

/// In a table without repeated spellings the order of the rules does not
/// matter: the rule for a token is the one matching rule than which none has
/// a longer spelling.
pub proof fn lemma_best_match_is_unique(rules: Seq<RuleView>, token: Seq<char>, i: int)
    requires
        distinct_spellings(rules),
        0 <= i < rules.len(),
        rule_matches(rules[i], token),
        forall|j: int|
            0 <= j < rules.len() && rule_matches(#[trigger] rules[j], token)
                ==> rules[j].spelling.len() <= rules[i].spelling.len(),
    ensures
        best_match(rules, token) == Some(i),
{
    lemma_best_match(rules, token);
    let b = best_match(rules, token)->Some_0;
    lemma_match_is_prefix(rules[i], token);
    lemma_match_is_prefix(rules[b], token);
    assert(rules[b].spelling.len() == rules[i].spelling.len());
    assert(rules[b].spelling =~= rules[i].spelling);
}

/// A rule table that cannot be built: two rules give `spelling` two shapes.
#[derive(Clone, Debug, PartialEq, Eq)]
pub struct ConfigurationError {
    pub spelling: String,
}

/// An effective rule table: an ordered list of rules with distinct spellings.
#[derive(Debug, PartialEq, Eq)]
pub struct RuleTable {
    rules: Vec<ArgumentRule>,
}

impl View for RuleTable {
    type V = Seq<RuleView>;

    closed spec fn view(&self) -> Seq<RuleView> {
        self.rules.deep_view()
    }
}

impl Clone for RuleTable {
    fn clone(&self) -> (r: RuleTable)
        ensures
            r@ == self@,
    {
        let mut rules: Vec<ArgumentRule> = Vec::new();
        let mut i: usize = 0;
        while i < self.rules.len()
            invariant
                i <= self.rules.len(),
                rules.deep_view() =~= self.rules.deep_view().take(i as int),
            decreases self.rules.len() - i,
        {
            let rule = &self.rules[i];
            let ghost before = rules.deep_view();
            rules.push(
                ArgumentRule { spelling: rule.spelling.clone(), shape: rule.shape, tag: rule.tag },
            );
            proof {
                assert(self.rules.deep_view()[i as int] == rule@);
                assert(rules.deep_view() =~= before.push(rule@));
            }
            i += 1;
        }
        proof {
            assert(self.rules.deep_view().take(i as int) =~= self.rules.deep_view());
        }
        RuleTable { rules }
    }
}

/// The position in `rules` of the rule spelled `s`, if there is one.
fn find_spelling(rules: &Vec<ArgumentRule>, s: &str) -> (r: Option<usize>)
    ensures
        match r {
            Some(p) => p < rules.len() && rules[p as int]@.spelling == s@,
            None => !has_spelling(rules.deep_view(), s@),
        },
{
    let mut p: usize = 0;
    while p < rules.len()
        invariant
            p <= rules.len(),
            forall|q: int| 0 <= q < p ==> rules[q]@.spelling != s@,
        decreases rules.len() - p,
    {
        if same_text(rules[p].spelling.as_str(), s) {
            return Some(p);
        }
        p += 1;
    }
    proof {
        assert forall|q: int| 0 <= q < rules.deep_view().len() implies (
        #[trigger] rules.deep_view()[q]).spelling != s@ by {
            assert(rules.deep_view()[q] == rules[q]@);
        }
    }
    None
}

/// Adds the rules of `layer` to `out`, which holds the first rule of each
/// spelling among `seen`, the rules added so far.
fn add_layer(out: &mut Vec<ArgumentRule>, layer: &Vec<ArgumentRule>, Ghost(seen): Ghost<
    Seq<RuleView>,
>) -> (r: Result<(), ConfigurationError>)
    requires
        old(out).deep_view() == first_of_each(seen),
        !conflicting(seen),
    ensures
        match r {
            Ok(_) => {
                &&& final(out).deep_view() == first_of_each(seen + layer.deep_view())
                &&& !conflicting(seen + layer.deep_view())
            },
            Err(e) => exists|i: int, j: int|
                conflict(seen + layer.deep_view(), i, j) && e.spelling@ == (seen
                    + layer.deep_view())[i].spelling,
        },
{
    let ghost all = seen + layer.deep_view();
    let ghost base = seen.len() as int;
    let mut k: usize = 0;
    proof {
        assert(all.take(base) =~= seen);
        assert forall|i: int, j: int| 0 <= i < j < base implies !conflict(all, i, j) by {
            assert(all[i] == seen[i] && all[j] == seen[j]);
            assert(!conflict(seen, i, j));
        }
    }
    while k < layer.len()
        invariant
            all == seen + layer.deep_view(),
            base == seen.len(),
            k <= layer.len(),
            out.deep_view() == first_of_each(all.take(base + k)),
            forall|i: int, j: int| 0 <= i < j < base + k ==> !conflict(all, i, j),
        decreases layer.len() - k,
    {
        let rule: &ArgumentRule = &layer[k];
        let ghost at = base + k;
        proof {
            assert(layer.deep_view()[k as int] == layer[k as int]@);
            assert(rule@ == all[at]);
            assert(all.take(at + 1).drop_last() =~= all.take(at));
            assert(all.take(at + 1).last() == all[at]);
            lemma_first_of_each(all.take(at));
        }
        match find_spelling(out, rule.spelling.as_str()) {
            Some(p) => {
                proof {
                    assert(out.deep_view()[p as int] == out[p as int]@);
                    let f = choose|f: int|
                        0 <= f < all.take(at).len() && out.deep_view()[p as int] == all.take(at)[f];
                    assert(all[f] == all.take(at)[f]);
                    assert(has_spelling(out.deep_view(), rule@.spelling));
                    if out[p as int]@.shape != rule@.shape {
                        assert(conflict(all, f, at));
                    } else {
                        assert forall|i: int| 0 <= i < at implies !conflict(all, i, at) by {
                            if all[i].spelling == all[at].spelling && i != f {
                                if i < f {
                                    assert(!conflict(all, i, f));
                                } else {
                                    assert(!conflict(all, f, i));
                                }
                            }
                        }
                    }
                }
                if out[p].shape != rule.shape {
                    return Err(ConfigurationError { spelling: rule.spelling.clone() });
                }
            },
            None => {
                proof {
                    assert(!has_spelling(all.take(at), rule@.spelling));
                    assert forall|i: int| 0 <= i < at implies !conflict(all, i, at) by {
                        assert(all.take(at)[i] == all[i]);
                    }
                }
                let copy = ArgumentRule {
                    spelling: rule.spelling.clone(),
                    shape: rule.shape,
                    tag: rule.tag,
                };
                let ghost before = out.deep_view();
                out.push(copy);
                proof {
                    assert(out.deep_view() =~= before.push(rule@));
                }
            },
        }
        k += 1;
    }
    proof {
        assert(all.take(base + k) =~= all);
    }
    Ok(())
}

impl RuleTable {
    /// The table's invariant: no spelling occurs twice.
    pub open spec fn wf(&self) -> bool {
        distinct_spellings(self@)
    }

    /// The effective table of `overlay` laid over `base`.
    ///
    /// The rules are taken in the order `overlay`, then `base`, and of each
    /// spelling the first rule is kept, so a rule of `overlay` replaces the rule
    /// of `base` with the same spelling. It is an error for one spelling to have
    /// two shapes anywhere in the two lists.
    pub fn layered(base: &Vec<ArgumentRule>, overlay: &Vec<ArgumentRule>) -> (r: Result<
        RuleTable,
        ConfigurationError,
    >)
        ensures
            match r {
                Ok(t) => {
                    &&& !conflicting(overlay.deep_view() + base.deep_view())
                    &&& t@ == first_of_each(overlay.deep_view() + base.deep_view())
                    &&& t.wf()
                },
                Err(e) => exists|i: int, j: int|
                    conflict(overlay.deep_view() + base.deep_view(), i, j) && e.spelling@ == (
                    overlay.deep_view() + base.deep_view())[i].spelling,
            },
    {
        let ghost upper = overlay.deep_view();
        let ghost all = overlay.deep_view() + base.deep_view();
        let mut out: Vec<ArgumentRule> = Vec::new();
        proof {
            assert(out.deep_view() =~= first_of_each(Seq::empty()));
            assert(Seq::<RuleView>::empty() + upper =~= upper);
        }
        match add_layer(&mut out, overlay, Ghost(Seq::empty())) {
            Err(e) => {
                proof {
                    let (i, j) = choose|i: int, j: int|
                        conflict(upper, i, j) && e.spelling@ == upper[i].spelling;
                    assert(conflict(all, i, j));
                }
                return Err(e);
            },
            Ok(_) => {},
        }
        match add_layer(&mut out, base, Ghost(upper)) {
            Err(e) => Err(e),
            Ok(_) => {
                proof {
                    lemma_first_of_each(all);
                }
                Ok(RuleTable { rules: out })
            },
        }
    }

    /// The rules, in order.
    pub fn rules(&self) -> (r: &Vec<ArgumentRule>)
        ensures
            r.deep_view() == self@,
    {
        &self.rules
    }

    /// The number of rules.
    pub fn len(&self) -> (r: usize)
        ensures
            r == self@.len(),
    {
        self.rules.len()
    }

    /// The index of the rule for `token`: of the rules that match it the one
    /// with the longest spelling.
    pub fn find(&self, token: &str) -> (r: Option<usize>)
        ensures
            match r {
                Some(i) => best_match(self@, token@) == Some(i as int) && i < self@.len(),
                None => best_match(self@, token@) is None,
            },
    {
        lookup(&self.rules, token)
    }
}

} // verus!
