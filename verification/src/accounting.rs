//! Nothing is dropped: how the tokens of an accepted invocation are
//! accounted for in the result.

use vstd::prelude::*;
use crate::classify::{
    apply,
    canonical,
    classify,
    default_object,
    direct_unit,
    finish,
    flag_unit,
    forwarded_unit,
    kept_unit,
    run,
    scan,
    start,
    value_or_empty,
    wrapped_unit,
    Bucket,
    Effect,
    ProgressView,
    ScanView,
    UnitView,
};
use crate::outcome::ParsedView;
use crate::rules::{
    best_match,
    lemma_best_match,
    lemma_inline_parts,
    rule_form,
    Form,
    RuleView,
    Tag,
    ValueShape,
};
use crate::text::looks_like_flag;

verus! {

/// A unit and the index of its first token.
pub struct Segment {
    pub start: int,
    pub unit: UnitView,
}

/// The units of `tokens` from `pos` on, up to the first that is refused.
pub open spec fn segments(
    rules: Seq<RuleView>,
    tokens: Seq<Seq<char>>,
    cwd: Seq<char>,
    pos: int,
) -> Seq<Segment>
    decreases
            if pos < tokens.len() {
                tokens.len() - pos
            } else {
                0
            },
{
    if pos < 0 || pos >= tokens.len() {
        Seq::empty()
    } else {
        match scan(rules, tokens, cwd, pos) {
            ScanView::Refused(_) => Seq::empty(),
            ScanView::Unit(u) => seq![Segment { start: pos, unit: u }] + segments(
                rules,
                tokens,
                cwd,
                pos + 1 + u.extra,
            ),
        }
    }
}

/// The token at index `i` is one of the tokens of `segment`.
pub open spec fn covers(segment: Segment, i: int) -> bool {
    segment.start <= i <= segment.start + segment.unit.extra
}

/// The token at index `i` is a token of some unit of `units`.
pub open spec fn owned(units: Seq<Segment>, i: int) -> bool {
    exists|k: int| 0 <= k < units.len() && #[trigger] covers(units[k], i)
}

/// The strings of the units of `units` that go to `bucket`, in order.
pub open spec fn gathered(units: Seq<Segment>, bucket: Bucket) -> Seq<Seq<char>>
    decreases units.len(),
{
    if units.len() == 0 {
        Seq::empty()
    } else if units[0].unit.bucket == bucket {
        units[0].unit.rendered + gathered(units.drop_first(), bucket)
    } else {
        gathered(units.drop_first(), bucket)
    }
}

/// `rendered` holds the text of the tokens `own` of a flag and its value:
/// as they were written, joined into one string, or parted in two, without
/// the separator if one stood between them.
pub open spec fn respells(rendered: Seq<Seq<char>>, own: Seq<Seq<char>>) -> bool {
    ||| rendered == own
    ||| own.len() == 2 && rendered == seq![own[0] + own[1]]
    ||| own.len() == 1 && rendered.len() == 2 && rendered[0] + rendered[1] == own[0]
    ||| own.len() == 1 && rendered.len() == 2 && exists|c: char|
        rendered[0].push(c) + rendered[1] == own[0]
}

/// `segment` lies within `tokens`, and what its bucket holds of it is the text
/// of its tokens: the source file is its token; an output path is the value
/// of its flag, the next token or the rest of the flag's token; an argument
/// respells its tokens; and a unit of which nothing is kept is one that asks
/// for compilation or names the language, and so is held by that field of
/// the result.
pub open spec fn faithful(segment: Segment, tokens: Seq<Seq<char>>) -> bool {
    let first = segment.start;
    let own = tokens.subrange(first, first + 1 + segment.unit.extra);
    let rendered = segment.unit.rendered;
    &&& 0 <= first
    &&& first + segment.unit.extra < tokens.len()
    &&& match segment.unit.bucket {
        Bucket::Input => segment.unit.extra == 0 && rendered == own,
        Bucket::Output => rendered.len() == 1 && (if segment.unit.extra == 0 {
            rendered[0].is_suffix_of(own[0])
        } else {
            segment.unit.extra == 1 && rendered[0] == own[1]
        }),
        Bucket::Preprocessor | Bucket::Common => respells(rendered, own),
        Bucket::Absorbed => rendered.len() == 0 && (segment.unit.effect is Compile
            || segment.unit.effect is Language),
    }
}

/// The effect `e` sets none of the fields that have a bucket of their own
/// or that absorb a unit: not the source file, the output, the request to
/// compile or the language.
pub open spec fn sets_no_such_field(e: Effect) -> bool {
    !(e is Input) && !(e is Output) && !(e is Compile) && !(e is Language)
}

/// The bucket of `u` goes with its effect: the source file and the output
/// path are the units of their buckets, a unit of which nothing is kept asks
/// for compilation or names the language, and no other unit sets these.
pub open spec fn coherent(u: UnitView) -> bool {
    match u.bucket {
        Bucket::Input => u.effect is Input && u.rendered == seq![u.effect->Input_0],
        Bucket::Output => u.effect is Output && u.rendered == seq![u.effect->Output_0],
        Bucket::Absorbed => u.rendered.len() == 0 && (u.effect is Compile || u.effect is Language),
        Bucket::Preprocessor | Bucket::Common => sets_no_such_field(u.effect),
    }
}

/// The units `units` follow one another without a gap from token `from` up
/// to token `to`.
pub open spec fn tiles(units: Seq<Segment>, from: int, to: int) -> bool
    decreases units.len(),
{
    if units.len() == 0 {
        from == to
    } else {
        &&& units[0].start == from
        &&& from + 1 + units[0].unit.extra <= to
        &&& tiles(units.drop_first(), from + 1 + units[0].unit.extra, to)
    }
}

/// The canonical spelling of a flag respells the tokens it was written in.
proof fn lemma_canonical_respells(rule: RuleView, tokens: Seq<Seq<char>>, pos: int)
    requires
        0 <= pos < tokens.len(),
        rule_form(rule, tokens[pos]) is Some,
        rule_form(rule, tokens[pos]) == Some(Form::Next) ==> pos + 1 < tokens.len(),
    ensures
        match rule_form(rule, tokens[pos])->Some_0 {
            Form::Plain => respells(canonical(rule, None), tokens.subrange(pos, pos + 1)),
            Form::Inline(v) => respells(canonical(rule, Some(v)), tokens.subrange(pos, pos + 1)),
            Form::Next => respells(
                canonical(rule, Some(tokens[pos + 1])),
                tokens.subrange(pos, pos + 2),
            ),
        },
{
    let token = tokens[pos];
    let s = rule.spelling;
    match rule_form(rule, token)->Some_0 {
        Form::Plain => {
            assert(tokens.subrange(pos, pos + 1) =~= seq![s]);
        },
        Form::Inline(v) => {
            lemma_inline_parts(rule, token);
            let own = tokens.subrange(pos, pos + 1);
            let rendered = canonical(rule, Some(v));
            assert(own =~= seq![token]);
            match rule.shape {
                ValueShape::JoinedWithOrNext(c) => {
                    assert(rendered[0].push(c) + rendered[1] == own[0]);
                },
                _ => {},
            }
        },
        Form::Next => {
            let w = tokens[pos + 1];
            let own = tokens.subrange(pos, pos + 2);
            assert(own =~= seq![s, w]);
        },
    }
}

/// A flag that stays is kept as the text handed in, among the arguments.
proof fn lemma_kept_unit(tag: Tag, value: Seq<char>, extra: nat, text: Seq<Seq<char>>, cwd: Seq<char>)
    ensures
        match kept_unit(tag, value, extra, text, cwd) {
            Some(u) => {
                &&& u.extra == extra
                &&& u.rendered == text
                &&& u.bucket == Bucket::Common || u.bucket == Bucket::Preprocessor
                &&& sets_no_such_field(u.effect)
            },
            None => true,
        },
{
}

/// What a flag written for the compiler itself gives: the unit is coherent,
/// an argument is the flag's canonical spelling, and an output path is the
/// flag's value.
proof fn lemma_direct_unit(rule: RuleView, value: Option<Seq<char>>, extra: nat, cwd: Seq<char>)
    ensures
        match direct_unit(rule, value, extra, cwd) {
            ScanView::Unit(u) => {
                &&& u.extra == extra
                &&& coherent(u)
                &&& u.bucket != Bucket::Input
                &&& u.bucket == Bucket::Common || u.bucket == Bucket::Preprocessor ==> u.rendered
                    == canonical(rule, value)
                &&& u.bucket == Bucket::Output ==> u.rendered == seq![value_or_empty(value)]
            },
            ScanView::Refused(_) => true,
        },
{
    lemma_kept_unit(rule.tag, value_or_empty(value), extra, canonical(rule, value), cwd);
}

/// What a forwarded flag gives is kept as the text handed in, among the
/// common arguments.
proof fn lemma_forwarded_unit(
    inner: RuleView,
    value: Option<Seq<char>>,
    extra: nat,
    text: Seq<Seq<char>>,
    cwd: Seq<char>,
)
    ensures
        match forwarded_unit(inner, value, extra, text, cwd) {
            ScanView::Unit(u) => {
                &&& u.extra == extra
                &&& u.rendered == text
                &&& u.bucket == Bucket::Common
                &&& sets_no_such_field(u.effect)
            },
            ScanView::Refused(_) => true,
        },
{
    lemma_kept_unit(inner.tag, value_or_empty(value), extra, text, cwd);
}

/// What a wrapper flag and the argument it forwards give is kept as written,
/// among the common arguments.
proof fn lemma_wrapped_unit(
    rules: Seq<RuleView>,
    tokens: Seq<Seq<char>>,
    cwd: Seq<char>,
    pos: int,
    wrapper: RuleView,
    inner: Seq<char>,
    extra: nat,
)
    requires
        0 <= pos,
        pos + 1 + extra <= tokens.len(),
    ensures
        match wrapped_unit(rules, tokens, cwd, pos, wrapper, inner, extra) {
            ScanView::Unit(u) => {
                &&& pos + 1 + u.extra <= tokens.len()
                &&& u.rendered == tokens.subrange(pos, pos + 1 + u.extra)
                &&& u.bucket == Bucket::Common
                &&& sets_no_such_field(u.effect)
            },
            ScanView::Refused(_) => true,
        },
{
    let next = pos + 1 + extra;
    if looks_like_flag(inner) {
        match best_match(rules, inner) {
            None => {},
            Some(j) => match rule_form(rules[j], inner) {
                None => {},
                Some(Form::Plain) => {
                    lemma_forwarded_unit(rules[j], None, extra, tokens.subrange(pos, next), cwd);
                },
                Some(Form::Inline(v)) => {
                    lemma_forwarded_unit(rules[j], Some(v), extra, tokens.subrange(pos, next), cwd);
                },
                Some(Form::Next) => {
                    if next + 1 < tokens.len() {
                        lemma_forwarded_unit(
                            rules[j],
                            Some(tokens[next + 1]),
                            extra + 2,
                            tokens.subrange(pos, next + 2),
                            cwd,
                        );
                    }
                },
            },
        }
    }
}

/// What the flag of `rule` at `pos` gives, with its value in the `extra`
/// tokens after it: the unit is coherent and faithful to its tokens.
proof fn lemma_flag_unit(
    rules: Seq<RuleView>,
    tokens: Seq<Seq<char>>,
    cwd: Seq<char>,
    pos: int,
    rule: RuleView,
    value: Option<Seq<char>>,
    extra: nat,
)
    requires
        0 <= pos,
        pos + 1 + extra <= tokens.len(),
        extra <= 1,
        respells(canonical(rule, value), tokens.subrange(pos, pos + 1 + extra)),
        if extra == 0 {
            value_or_empty(value).is_suffix_of(tokens[pos])
        } else {
            value_or_empty(value) == tokens[pos + 1]
        },
    ensures
        match flag_unit(rules, tokens, cwd, pos, rule, value, extra) {
            ScanView::Unit(u) => coherent(u) && faithful(Segment { start: pos, unit: u }, tokens),
            ScanView::Refused(_) => true,
        },
{
    if rule.tag == Tag::WrapperForward {
        lemma_wrapped_unit(rules, tokens, cwd, pos, rule, value_or_empty(value), extra);
    } else {
        lemma_direct_unit(rule, value, extra, cwd);
        match direct_unit(rule, value, extra, cwd) {
            ScanView::Unit(u) => {
                let own = tokens.subrange(pos, pos + 1 + extra);
                assert(own[0] == tokens[pos]);
                if extra == 1 {
                    assert(own[1] == tokens[pos + 1]);
                }
            },
            ScanView::Refused(_) => {},
        }
    }
}

/// A unit is coherent, and what its bucket holds of it is the text of its
/// tokens.
pub proof fn lemma_scan_faithful(
    rules: Seq<RuleView>,
    tokens: Seq<Seq<char>>,
    cwd: Seq<char>,
    pos: int,
)
    requires
        0 <= pos < tokens.len(),
    ensures
        match scan(rules, tokens, cwd, pos) {
            ScanView::Unit(u) => coherent(u) && faithful(Segment { start: pos, unit: u }, tokens),
            ScanView::Refused(_) => true,
        },
{
    let token = tokens[pos];
    reveal(scan);
    lemma_best_match(rules, token);
    match best_match(rules, token) {
        None => {
            assert(tokens.subrange(pos, pos + 1) =~= seq![token]);
        },
        Some(i) => {
            let rule = rules[i];
            match rule_form(rule, token)->Some_0 {
                Form::Plain => {
                    lemma_canonical_respells(rule, tokens, pos);
                    assert(Seq::<char>::empty().is_suffix_of(token)) by {
                        assert(token.subrange(token.len() as int, token.len() as int)
                            =~= Seq::<char>::empty());
                    }
                    lemma_flag_unit(rules, tokens, cwd, pos, rule, None, 0);
                },
                Form::Inline(v) => {
                    lemma_canonical_respells(rule, tokens, pos);
                    assert(v.is_suffix_of(token)) by {
                        lemma_inline_parts(rule, token);
                    }
                    lemma_flag_unit(rules, tokens, cwd, pos, rule, Some(v), 0);
                },
                Form::Next => {
                    if pos + 1 < tokens.len() {
                        lemma_canonical_respells(rule, tokens, pos);
                        lemma_flag_unit(rules, tokens, cwd, pos, rule, Some(tokens[pos + 1]), 1);
                    }
                },
            }
        },
    }
}

/// The object file among the outputs of an accepted invocation.
pub open spec fn object_of(parsed: ParsedView) -> Seq<char> {
    parsed.outputs["obj"@]
}

/// Once several source files are noted, the invocation is not accepted.
proof fn lemma_several_inputs_refused(
    rules: Seq<RuleView>,
    tokens: Seq<Seq<char>>,
    cwd: Seq<char>,
    pos: int,
    state: ProgressView,
)
    requires
        0 <= pos <= tokens.len(),
        state.multiple_inputs,
    ensures
        !(run(rules, tokens, cwd, pos, state) is Parsed),
    decreases tokens.len() - pos,
{
    if pos < tokens.len() {
        match scan(rules, tokens, cwd, pos) {
            ScanView::Refused(_) => {},
            ScanView::Unit(u) => {
                crate::classify::lemma_scan_within(rules, tokens, cwd, pos);
                lemma_several_inputs_refused(rules, tokens, cwd, pos + 1 + u.extra, apply(state, u));
            },
        }
    }
}

/// What one unit changes in what is gathered, where the invocation is
/// accepted in the end.
pub open spec fn taken_in(state: ProgressView, u: UnitView, next: ProgressView) -> bool {
    &&& next.common_args == state.common_args + (if u.bucket == Bucket::Common {
        u.rendered
    } else {
        Seq::empty()
    })
    &&& next.preprocessor_args == state.preprocessor_args + (if u.bucket == Bucket::Preprocessor {
        u.rendered
    } else {
        Seq::empty()
    })
    &&& !next.multiple_inputs
    &&& if u.bucket == Bucket::Input {
        state.input is None && u.rendered.len() == 1 && next.input == Some(u.rendered[0])
    } else {
        next.input == state.input
    }
    &&& if u.bucket == Bucket::Output {
        u.rendered.len() == 1 && next.output == Some(u.rendered[0])
    } else {
        next.output == state.output
    }
}

/// Reading on from `pos` is reading one unit, taking it in, and reading on
/// from the token after it.
proof fn lemma_run_step(
    rules: Seq<RuleView>,
    tokens: Seq<Seq<char>>,
    cwd: Seq<char>,
    pos: int,
    state: ProgressView,
) -> (r: (UnitView, ProgressView))
    requires
        0 <= pos < tokens.len(),
        run(rules, tokens, cwd, pos, state) is Parsed,
    ensures
        pos + 1 + r.0.extra <= tokens.len(),
        faithful(Segment { start: pos, unit: r.0 }, tokens),
        taken_in(state, r.0, r.1),
        run(rules, tokens, cwd, pos, state) == run(rules, tokens, cwd, pos + 1 + r.0.extra, r.1),
        segments(rules, tokens, cwd, pos) == seq![Segment { start: pos, unit: r.0 }] + segments(
            rules,
            tokens,
            cwd,
            pos + 1 + r.0.extra,
        ),
{
    let u = scan(rules, tokens, cwd, pos)->Unit_0;
    let next = apply(state, u);
    lemma_scan_faithful(rules, tokens, cwd, pos);
    if next.multiple_inputs {
        lemma_several_inputs_refused(rules, tokens, cwd, pos + 1 + u.extra, next);
    }
    assert(state.common_args + Seq::<Seq<char>>::empty() =~= state.common_args);
    assert(state.preprocessor_args + Seq::<Seq<char>>::empty() =~= state.preprocessor_args);
    (u, next)
}

/// What the result holds of what was gathered when the last token is read.
proof fn lemma_finish_keeps(state: ProgressView)
    requires
        finish(state) is Parsed,
    ensures
        ({
            let parsed = finish(state)->Parsed_0;
            &&& parsed.common_args == state.common_args
            &&& parsed.preprocessor_args == state.preprocessor_args
            &&& state.input == Some(parsed.input)
            &&& !state.multiple_inputs
            &&& object_of(parsed) == (match state.output {
                Some(path) => path,
                None => default_object(parsed.input),
            })
        }),
{
    crate::outcome::lemma_output_kinds_differ();
}

/// What is gathered from a unit and the units after it.
proof fn lemma_gathered_first(first: Segment, rest: Seq<Segment>, bucket: Bucket)
    ensures
        gathered(seq![first] + rest, bucket) == (if first.unit.bucket == bucket {
            first.unit.rendered
        } else {
            Seq::empty()
        }) + gathered(rest, bucket),
{
    let units = seq![first] + rest;
    assert(units[0] == first);
    assert(units.drop_first() =~= rest);
    assert(Seq::<Seq<char>>::empty() + gathered(rest, bucket) =~= gathered(rest, bucket));
}

/// What the result holds is what was gathered before `pos` and what the
/// units from `pos` on bring.
proof fn lemma_run_accounts(
    rules: Seq<RuleView>,
    tokens: Seq<Seq<char>>,
    cwd: Seq<char>,
    pos: int,
    state: ProgressView,
)
    requires
        0 <= pos <= tokens.len(),
        run(rules, tokens, cwd, pos, state) is Parsed,
    ensures
        ({
            let parsed = run(rules, tokens, cwd, pos, state)->Parsed_0;
            let units = segments(rules, tokens, cwd, pos);
            &&& tiles(units, pos, tokens.len() as int)
            &&& forall|k: int| 0 <= k < units.len() ==> faithful(#[trigger] units[k], tokens)
            &&& parsed.common_args == state.common_args + gathered(units, Bucket::Common)
            &&& parsed.preprocessor_args == state.preprocessor_args + gathered(
                units,
                Bucket::Preprocessor,
            )
            &&& match state.input {
                Some(input) => gathered(units, Bucket::Input).len() == 0 && parsed.input == input,
                None => gathered(units, Bucket::Input) == seq![parsed.input],
            }
            &&& gathered(units, Bucket::Output).len() > 0 ==> object_of(parsed) == gathered(
                units,
                Bucket::Output,
            ).last()
            &&& gathered(units, Bucket::Output).len() == 0 ==> object_of(parsed) == (
            match state.output {
                Some(path) => path,
                None => default_object(parsed.input),
            })
        }),
    decreases tokens.len() - pos,
{
    let parsed = run(rules, tokens, cwd, pos, state)->Parsed_0;
    let units = segments(rules, tokens, cwd, pos);
    if pos >= tokens.len() {
        lemma_finish_keeps(state);
        assert(state.common_args + Seq::<Seq<char>>::empty() =~= state.common_args);
        assert(state.preprocessor_args + Seq::<Seq<char>>::empty() =~= state.preprocessor_args);
    } else {
        let (u, next) = lemma_run_step(rules, tokens, cwd, pos, state);
        let after = pos + 1 + u.extra;

        let rest = segments(rules, tokens, cwd, after);
        let first = Segment { start: pos, unit: u };
        lemma_run_accounts(rules, tokens, cwd, after, next);
        lemma_gathered_first(first, rest, Bucket::Common);
        lemma_gathered_first(first, rest, Bucket::Preprocessor);
        lemma_gathered_first(first, rest, Bucket::Input);
        lemma_gathered_first(first, rest, Bucket::Output);
        assert(units[0] == first);
        assert(units.drop_first() =~= rest);
        assert forall|k: int| 0 <= k < units.len() implies faithful(#[trigger] units[k], tokens) by {
            if k > 0 {
                assert(units[k] == rest[k - 1]);
            }
        }
        let common = gathered(rest, Bucket::Common);
        let preprocessor = gathered(rest, Bucket::Preprocessor);
        let inputs = gathered(rest, Bucket::Input);
        let outputs = gathered(rest, Bucket::Output);
        if u.bucket == Bucket::Common {
            assert((state.common_args + u.rendered) + common =~= state.common_args + (u.rendered
                + common));
        }
        if u.bucket == Bucket::Preprocessor {
            assert((state.preprocessor_args + u.rendered) + preprocessor
                =~= state.preprocessor_args + (u.rendered + preprocessor));
        }
        if u.bucket == Bucket::Input {
            assert(u.rendered + inputs =~= seq![parsed.input]);
        }
        if u.bucket == Bucket::Output {
            if outputs.len() > 0 {
                assert((u.rendered + outputs).last() == outputs.last());
            } else {
                assert(u.rendered + outputs =~= u.rendered);
            }
        }
    }
}

/// Every token of an accepted invocation is accounted for.
///
/// If an invocation is accepted, its tokens fall into units such that each
/// token belongs to exactly one unit, each unit lies in exactly one bucket,
/// and what the result holds is the text of the units, in order: the common
/// and the preprocessor arguments are those of the units of these buckets,
/// each a respelling of the unit's tokens; exactly one unit is the source
/// file; and the object file is the value of the last unit that names an
/// output, or is named after the source file where there is none.
pub proof fn lemma_every_token_accounted(
    rules: Seq<RuleView>,
    tokens: Seq<Seq<char>>,
    cwd: Seq<char>,
)
    requires
        classify(rules, tokens, cwd) is Parsed,
    ensures
        ({
            let parsed = classify(rules, tokens, cwd)->Parsed_0;
            let units = segments(rules, tokens, cwd, 0);
            &&& forall|i: int| 0 <= i < tokens.len() ==> #[trigger] owned(units, i)
            &&& forall|i: int, j: int, k: int|
                0 <= j < units.len() && 0 <= k < units.len() && #[trigger] covers(units[j], i)
                    && #[trigger] covers(units[k], i) ==> j == k
            &&& forall|k: int| 0 <= k < units.len() ==> faithful(#[trigger] units[k], tokens)
            &&& parsed.common_args == gathered(units, Bucket::Common)
            &&& parsed.preprocessor_args == gathered(units, Bucket::Preprocessor)
            &&& gathered(units, Bucket::Input) == seq![parsed.input]
            &&& object_of(parsed) == (if gathered(units, Bucket::Output).len() > 0 {
                gathered(units, Bucket::Output).last()
            } else {
                default_object(parsed.input)
            })
        }),
{
    let units = segments(rules, tokens, cwd, 0);
    lemma_run_accounts(rules, tokens, cwd, 0, start());
    assert(Seq::<Seq<char>>::empty() + gathered(units, Bucket::Common) =~= gathered(
        units,
        Bucket::Common,
    ));
    assert(Seq::<Seq<char>>::empty() + gathered(units, Bucket::Preprocessor) =~= gathered(
        units,
        Bucket::Preprocessor,
    ));
    assert forall|i: int| 0 <= i < tokens.len() implies #[trigger] owned(units, i) by {
        lemma_tiles_cover(units, 0, tokens.len() as int, i);
    }
    assert forall|i: int, j: int, k: int|
        0 <= j < units.len() && 0 <= k < units.len() && #[trigger] covers(units[j], i)
            && #[trigger] covers(units[k], i) implies j == k by {
        if j < k {
            lemma_tiles_apart(units, 0, tokens.len() as int, j, k);
        } else if k < j {
            lemma_tiles_apart(units, 0, tokens.len() as int, k, j);
        }
    }
}

/// Units that tile a range cover each index of it.
proof fn lemma_tiles_cover(units: Seq<Segment>, from: int, to: int, i: int)
    requires
        tiles(units, from, to),
        from <= i < to,
    ensures
        owned(units, i),
    decreases units.len(),
{
    if i <= from + units[0].unit.extra {
        assert(covers(units[0], i));
    } else {
        let rest = units.drop_first();
        lemma_tiles_cover(rest, from + 1 + units[0].unit.extra, to, i);
        let k = choose|k: int| 0 <= k < rest.len() && #[trigger] covers(rest[k], i);
        assert(covers(units[k + 1], i));
    }
}

/// Of units that tile a range, a later one begins after an earlier one ends.
proof fn lemma_tiles_apart(units: Seq<Segment>, from: int, to: int, j: int, k: int)
    requires
        tiles(units, from, to),
        0 <= j < k < units.len(),
    ensures
        from <= units[j].start,
        units[j].start + units[j].unit.extra < units[k].start,
    decreases units.len(),
{
    let rest = units.drop_first();
    let after = from + 1 + units[0].unit.extra;
    if j == 0 {
        if k == 1 {
            assert(rest[0] == units[1]);
        } else {
            lemma_tiles_apart(rest, after, to, 0, k - 1);
            assert(rest[0] == units[1]);
            assert(rest[k - 1] == units[k]);
        }
    } else {
        lemma_tiles_apart(rest, after, to, j - 1, k - 1);
        assert(rest[j - 1] == units[j]);
        assert(rest[k - 1] == units[k]);
    }
}

} // verus!
