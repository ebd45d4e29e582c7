//! Argument rules, and how a rule is matched against a token.
//!
//! A rule names one flag spelling, says where the flag's value is written (its
//! shape) and what the flag means to a compilation cache (its tag). A table is
//! an ordered list of rules; a token is resolved to the matching rule with the
//! longest spelling.

use vstd::prelude::*;
use crate::text::{same_text, starts_with, starts_with_then, tail_from};

verus! {

/// Where the value of a flag is written.
#[derive(Clone, Copy, Debug, PartialEq, Eq, Structural)]
pub enum ValueShape {
    /// The flag takes no value: `-c`.
    NoValue,
    /// The value is the next token: `-arch x86_64`.
    NextToken,
    /// The value follows the spelling in the same token: `@file`. It may be empty.
    Joined,
    /// The value follows the spelling and a separator in the same token:
    /// `-stdlib=libc++`.
    JoinedWith(char),
    /// The value follows the spelling in the same token, or is the next token
    /// when the token is the spelling alone: `-Idir`, `-I dir`.
    JoinedOrNext,
    /// The value follows the spelling and a separator in the same token, or is
    /// the next token when the token is the spelling alone: `-fplugin=p.so`,
    /// `-fplugin p.so`.
    JoinedWithOrNext(char),
}

/// What a flag means to the cache.
#[derive(Clone, Copy, Debug, PartialEq, Eq, Structural)]
pub enum Tag {
    /// Handed to the compiler unchanged; part of the common arguments.
    PassThrough,
    /// Affects preprocessing only; part of the preprocessor arguments.
    Preprocessor,
    /// The value names a file whose content the cache key must cover.
    ExtraHashFile,
    /// The value is itself an argument for an inner tool.
    WrapperForward,
    /// The invocation cannot be cached when this flag is present.
    ForceUncacheable,
    /// Turns coloured diagnostics on.
    ColorOn,
    /// Turns coloured diagnostics off.
    ColorOff,
    /// The value chooses coloured diagnostics: `always`, `never`, anything else
    /// for automatic.
    ColorChoice,
    /// Asks for compilation without linking.
    Compile,
    /// The value is the path of the object file.
    Output,
    /// The value names the source language.
    Language,
    /// Asks for debug information in a separate file beside the object file.
    SplitDwarf,
    /// Asks for coverage notes in a file beside the object file.
    Coverage,
}

/// One recognised flag.
#[derive(Clone, Debug, PartialEq, Eq)]
pub struct ArgumentRule {
    pub spelling: String,
    pub shape: ValueShape,
    pub tag: Tag,
}

/// The mathematical content of an [`ArgumentRule`].
pub struct RuleView {
    pub spelling: Seq<char>,
    pub shape: ValueShape,
    pub tag: Tag,
}

impl View for ArgumentRule {
    type V = RuleView;

    open spec fn view(&self) -> RuleView {
        RuleView { spelling: self.spelling@, shape: self.shape, tag: self.tag }
    }
}

impl DeepView for ArgumentRule {
    type V = RuleView;

    open spec fn deep_view(&self) -> RuleView {
        self@
    }
}

/// How a token carries the value of the flag it was matched to.
pub enum Form {
    /// The flag has no value.
    Plain,
    /// The value is the next token.
    Next,
    /// The value is this part of the token itself.
    Inline(Seq<char>),
}

/// How `token` fits `rule`, if it does: exactly for the shapes without a
/// value in the token, by prefix for the others.
pub open spec fn rule_form(rule: RuleView, token: Seq<char>) -> Option<Form> {
    let s = rule.spelling;
    match rule.shape {
        ValueShape::NoValue => if token == s {
            Some(Form::Plain)
        } else {
            None
        },
        ValueShape::NextToken => if token == s {
            Some(Form::Next)
        } else {
            None
        },
        ValueShape::Joined => if s.is_prefix_of(token) {
            Some(Form::Inline(token.skip(s.len() as int)))
        } else {
            None
        },
        ValueShape::JoinedWith(c) => if s.push(c).is_prefix_of(token) {
            Some(Form::Inline(token.skip(s.len() as int + 1)))
        } else {
            None
        },
        ValueShape::JoinedOrNext => if token == s {
            Some(Form::Next)
        } else if s.is_prefix_of(token) {
            Some(Form::Inline(token.skip(s.len() as int)))
        } else {
            None
        },
        ValueShape::JoinedWithOrNext(c) => if token == s {
            Some(Form::Next)
        } else if s.push(c).is_prefix_of(token) {
            Some(Form::Inline(token.skip(s.len() as int + 1)))
        } else {
            None
        },
    }
}

/// Whether `token` fits `rule`.
pub open spec fn rule_matches(rule: RuleView, token: Seq<char>) -> bool {
    rule_form(rule, token) is Some
}

/// The rule of `rules` for `token`: among those that match, the one with the
/// longest spelling, and of several such the first.
pub open spec fn best_match(rules: Seq<RuleView>, token: Seq<char>) -> Option<int>
    decreases rules.len(),
{
    if rules.len() == 0 {
        None
    } else {
        let last = rules.len() - 1;
        let before = best_match(rules.drop_last(), token);
        if rule_matches(rules[last], token) && (before is None || rules[before.unwrap()].spelling.len()
            < rules[last].spelling.len()) {
            Some(last)
        } else {
            before
        }
    }
}

/// What `best_match` picks: a matching rule than which no matching rule has a
/// longer spelling, and none before it one as long; and nothing only where no
/// rule matches.
pub proof fn lemma_best_match(rules: Seq<RuleView>, token: Seq<char>)
    ensures
        match best_match(rules, token) {
            Some(i) => {
                &&& 0 <= i < rules.len()
                &&& rule_matches(rules[i], token)
                &&& forall|j: int|
                    0 <= j < rules.len() && rule_matches(#[trigger] rules[j], token)
                        ==> rules[j].spelling.len() <= rules[i].spelling.len()
                &&& forall|j: int|
                    0 <= j < i && rule_matches(#[trigger] rules[j], token) ==> rules[j].spelling.len()
                        < rules[i].spelling.len()
            },
            None => forall|j: int| 0 <= j < rules.len() ==> !rule_matches(#[trigger] rules[j], token),
        },
    decreases rules.len(),
{
    if rules.len() > 0 {
        let front = rules.drop_last();
        lemma_best_match(front, token);
        assert forall|j: int| 0 <= j < front.len() implies front[j] == rules[j] by {}
        match best_match(rules, token) {
            Some(i) => {
                assert forall|j: int|
                    0 <= j < rules.len() && rule_matches(
                        #[trigger] rules[j],
                        token,
                    ) implies rules[j].spelling.len() <= rules[i].spelling.len() by {
                    if j < front.len() {
                        assert(front[j] == rules[j]);
                    }
                }
                assert forall|j: int|
                    0 <= j < i && rule_matches(
                        #[trigger] rules[j],
                        token,
                    ) implies rules[j].spelling.len() < rules[i].spelling.len() by {
                    assert(front[j] == rules[j]);
                }
            },
            None => {
                assert forall|j: int| 0 <= j < rules.len() implies !rule_matches(
                    #[trigger] rules[j],
                    token,
                ) by {
                    if j < front.len() {
                        assert(front[j] == rules[j]);
                    }
                }
            },
        }
    }
}

/// A token that a rule matches with the value inside is the rule's spelling,
/// the separator if the shape has one, and the value.
pub proof fn lemma_inline_parts(rule: RuleView, token: Seq<char>)
    requires
        rule_form(rule, token) matches Some(Form::Inline(_)),
    ensures
        ({
            let v = rule_form(rule, token)->Some_0->Inline_0;
            match rule.shape {
                ValueShape::JoinedWith(c) | ValueShape::JoinedWithOrNext(c) => token
                    == rule.spelling.push(c) + v,
                _ => token == rule.spelling + v,
            }
        }),
{
    let s = rule.spelling;
    match rule.shape {
        ValueShape::JoinedWith(c) | ValueShape::JoinedWithOrNext(c) => {
            assert(s.push(c).is_prefix_of(token));
            assert(token =~= token.subrange(0, s.len() as int + 1) + token.skip(s.len() as int + 1));
        },
        _ => {
            assert(s.is_prefix_of(token));
            assert(token =~= token.subrange(0, s.len() as int) + token.skip(s.len() as int));
        },
    }
}

/// A token's value as the matcher hands it on.
pub enum TokenForm {
    Plain,
    Next,
    Inline(String),
}

impl View for TokenForm {
    type V = Form;

    open spec fn view(&self) -> Form {
        match self {
            TokenForm::Plain => Form::Plain,
            TokenForm::Next => Form::Next,
            TokenForm::Inline(v) => Form::Inline(v@),
        }
    }
}

impl ArgumentRule {
    /// A rule for the flag spelled `spelling`.
    pub fn new(spelling: &str, shape: ValueShape, tag: Tag) -> (r: ArgumentRule)
        ensures
            r@ == (RuleView { spelling: spelling@, shape, tag }),
    {
        ArgumentRule { spelling: String::from_str(spelling), shape, tag }
    }

    /// Whether `token` fits this rule.
    pub fn matches(&self, token: &str) -> (r: bool)
        ensures
            r == rule_matches(self@, token@),
    {
        let s = self.spelling.as_str();
        match self.shape {
            ValueShape::NoValue | ValueShape::NextToken => same_text(token, s),
            ValueShape::Joined | ValueShape::JoinedOrNext => {
                proof {
                    if token@ == s@ {
                        assert(token@.subrange(0, s@.len() as int) =~= s@);
                    }
                }
                starts_with(token, s)
            },
            ValueShape::JoinedWith(c) => starts_with_then(token, s, c),
            ValueShape::JoinedWithOrNext(c) => same_text(token, s) || starts_with_then(token, s, c),
        }
    }

    /// How `token` fits this rule, if it does.
    pub fn form(&self, token: &str) -> (r: Option<TokenForm>)
        ensures
            match r {
                Some(f) => rule_form(self@, token@) == Some(f@),
                None => rule_form(self@, token@) is None,
            },
    {
        let s = self.spelling.as_str();
        let n = s.unicode_len();
        let m = token.unicode_len();
        match self.shape {
            ValueShape::NoValue => if same_text(token, s) {
                Some(TokenForm::Plain)
            } else {
                None
            },
            ValueShape::NextToken => if same_text(token, s) {
                Some(TokenForm::Next)
            } else {
                None
            },
            ValueShape::Joined => if starts_with(token, s) {
                Some(TokenForm::Inline(tail_from(token, n)))
            } else {
                None
            },
            ValueShape::JoinedWith(c) => if n < m && starts_with_then(token, s, c) {
                Some(TokenForm::Inline(tail_from(token, n + 1)))
            } else {
                None
            },
            ValueShape::JoinedOrNext => if same_text(token, s) {
                Some(TokenForm::Next)
            } else if starts_with(token, s) {
                Some(TokenForm::Inline(tail_from(token, n)))
            } else {
                None
            },
            ValueShape::JoinedWithOrNext(c) => if same_text(token, s) {
                Some(TokenForm::Next)
            } else if n < m && starts_with_then(token, s, c) {
                Some(TokenForm::Inline(tail_from(token, n + 1)))
            } else {
                None
            },
        }
    }
}

/// The index of the rule of `rules` for `token`, if any rule matches.
pub fn lookup(rules: &Vec<ArgumentRule>, token: &str) -> (r: Option<usize>)
    ensures
        match r {
            Some(i) => best_match(rules.deep_view(), token@) == Some(i as int) && i < rules.len(),
            None => best_match(rules.deep_view(), token@) is None,
        },
{
    let ghost all = rules.deep_view();
    let mut best: Option<usize> = None;
    let mut best_len: usize = 0;
    let mut i: usize = 0;
    while i < rules.len()
        invariant
            i <= rules.len(),
            all == rules.deep_view(),
            match best {
                Some(b) => best_match(all.take(i as int), token@) == Some(b as int) && b < i
                    && best_len == all[b as int].spelling.len(),
                None => best_match(all.take(i as int), token@) is None,
            },
        decreases rules.len() - i,
    {
        proof {
            assert(all.take(i + 1).drop_last() =~= all.take(i as int));
            assert(all.take(i + 1)[i as int] == rules[i as int]@);
        }
        if rules[i].matches(token) {
            let n = rules[i].spelling.as_str().unicode_len();
            if best.is_none() || best_len < n {
                best = Some(i);
                best_len = n;
            }
        }
        i += 1;
    }
    proof {
        assert(all.take(rules.len() as int) =~= all);
    }
    best
}

} // verus!
