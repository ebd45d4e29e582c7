//! Unknown flags are let through: a flag that no rule matches is kept among
//! the common arguments and changes nothing else.

use vstd::prelude::*;
use crate::classify::{
    apply,
    classify,
    finish,
    lemma_scan_within,
    run,
    scan,
    start,
    unmatched,
    ProgressView,
    ScanView,
};
use crate::outcome::{OutcomeView, ParsedView};
use crate::rules::{best_match, RuleView};
use crate::text::looks_like_flag;

verus! {

/// `parsed` with `flag` added at the end of the common arguments.
pub open spec fn with_flag(parsed: ParsedView, flag: Seq<char>) -> ParsedView {
    ParsedView { common_args: parsed.common_args.push(flag), ..parsed }
}

/// A unit that is accepted is the same unit when a token is added at the end.
proof fn lemma_scan_is_local(
    rules: Seq<RuleView>,
    tokens: Seq<Seq<char>>,
    cwd: Seq<char>,
    pos: int,
    added: Seq<char>,
)
    requires
        0 <= pos < tokens.len(),
        scan(rules, tokens, cwd, pos) is Unit,
    ensures
        scan(rules, tokens.push(added), cwd, pos) == scan(rules, tokens, cwd, pos),
{
    reveal(scan);
    let longer = tokens.push(added);
    assert(longer[pos] == tokens[pos]);
    assert forall|a: int, b: int| 0 <= a <= b <= tokens.len() implies #[trigger] longer.subrange(a, b)
        == tokens.subrange(a, b) by {
        assert(longer.subrange(a, b) =~= tokens.subrange(a, b));
    }
    if pos + 1 < tokens.len() {
        assert(longer[pos + 1] == tokens[pos + 1]);
    }
    if pos + 2 < tokens.len() {
        assert(longer[pos + 2] == tokens[pos + 2]);
    }
    if pos + 3 < tokens.len() {
        assert(longer[pos + 3] == tokens[pos + 3]);
    }
}

/// An accepted reading goes the same way when an unknown flag is added at
/// the end, and then keeps the flag.
proof fn lemma_run_keeps_flag(
    rules: Seq<RuleView>,
    tokens: Seq<Seq<char>>,
    cwd: Seq<char>,
    pos: int,
    state: ProgressView,
    flag: Seq<char>,
)
    requires
        0 <= pos <= tokens.len(),
        run(rules, tokens, cwd, pos, state) is Parsed,
        looks_like_flag(flag),
        best_match(rules, flag) is None,
    ensures
        run(rules, tokens.push(flag), cwd, pos, state) == OutcomeView::Parsed(
            with_flag(run(rules, tokens, cwd, pos, state)->Parsed_0, flag),
        ),
    decreases tokens.len() - pos,
{
    let longer = tokens.push(flag);
    if pos == tokens.len() {
        assert(scan(rules, longer, cwd, pos) == unmatched(flag)) by {
            reveal(scan);
        }
        let u = scan(rules, longer, cwd, pos)->Unit_0;
        let next = apply(state, u);
        assert(next.common_args =~= state.common_args.push(flag));
        assert(run(rules, longer, cwd, pos + 1, next) == finish(next));
    } else {
        let u = scan(rules, tokens, cwd, pos)->Unit_0;
        lemma_scan_within(rules, tokens, cwd, pos);
        lemma_scan_is_local(rules, tokens, cwd, pos, flag);
        lemma_run_keeps_flag(rules, tokens, cwd, pos + 1 + u.extra, apply(state, u), flag);
    }
}

/// The policy on unknown flags: if an invocation is accepted, it is accepted
/// with a flag that no rule matches added at its end, and the result differs
/// only in that the flag is the last of the common arguments.
pub proof fn lemma_unknown_flag_is_kept(
    rules: Seq<RuleView>,
    tokens: Seq<Seq<char>>,
    cwd: Seq<char>,
    flag: Seq<char>,
)
    requires
        classify(rules, tokens, cwd) is Parsed,
        looks_like_flag(flag),
        best_match(rules, flag) is None,
    ensures
        classify(rules, tokens.push(flag), cwd) == OutcomeView::Parsed(
            with_flag(classify(rules, tokens, cwd)->Parsed_0, flag),
        ),
{
    lemma_run_keeps_flag(rules, tokens, cwd, 0, start(), flag);
}

} // verus!
