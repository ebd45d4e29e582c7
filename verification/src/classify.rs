//! The classification of an invocation, as a mathematical function.
//!
//! The tokens are read from left to right as units. A unit is one token,
//! a flag with its value in the next token, or a wrapper flag with the
//! argument that it forwards (two tokens, or four where the forwarded flag has
//! a value of its own). Each unit goes to one bucket and may change one field
//! of the result. The first unit that cannot be accepted ends the reading with
//! its refusal. What only the whole invocation decides is judged when every
//! token is read: whether it compiles at all, then whether it has one source
//! file, then whether the language of that file is known.

use vstd::prelude::*;
use crate::outcome::{
    color_named,
    language_named,
    language_of_file,
    output_map,
    ColorMode,
    Language,
    OutcomeView,
    ParsedView,
};
use crate::rules::{best_match, rule_form, Form, RuleView, Tag, ValueShape};
use crate::text::{file_name_of, looks_like_flag, with_extension};

verus! {

/// Where a unit is accounted for in the result.
#[derive(Clone, Copy, Debug, PartialEq, Eq, Structural)]
pub enum Bucket {
    /// The source file.
    Input,
    /// The output map.
    Output,
    /// The preprocessor arguments.
    Preprocessor,
    /// The common arguments.
    Common,
    /// A field of the result other than these: the unit itself is not kept.
    Absorbed,
}

/// What a unit changes in the result besides the bucket's list.
pub enum Effect {
    Nothing,
    Input(Seq<char>),
    Output(Seq<char>),
    Language(Language),
    Compile,
    Color(ColorMode),
    HashFile(Seq<char>),
    SplitDwarf,
    Coverage,
}

/// One unit of the token sequence.
pub struct UnitView {
    /// The number of tokens of the unit after its first.
    pub extra: nat,
    /// The bucket that accounts for the unit.
    pub bucket: Bucket,
    /// The strings by which the bucket holds the unit.
    pub rendered: Seq<Seq<char>>,
    /// What else the unit changes.
    pub effect: Effect,
}

/// Why an invocation cannot be cached.
pub struct RefusalView {
    pub reason: Seq<char>,
    pub detail: Option<Seq<char>>,
}

/// What reading one unit gives.
pub enum ScanView {
    Unit(UnitView),
    Refused(RefusalView),
}

/// What has been gathered from the units read so far.
pub struct ProgressView {
    pub input: Option<Seq<char>>,
    pub multiple_inputs: bool,
    pub language: Option<Language>,
    pub output: Option<Seq<char>>,
    pub compile: bool,
    pub split_dwarf: bool,
    pub coverage: bool,
    pub color_mode: ColorMode,
    pub preprocessor_args: Seq<Seq<char>>,
    pub common_args: Seq<Seq<char>>,
    pub extra_hash_files: Seq<Seq<char>>,
}

/// A value, or the empty string where there is none.
pub open spec fn value_or_empty(value: Option<Seq<char>>) -> Seq<char> {
    match value {
        Some(v) => v,
        None => Seq::empty(),
    }
}

/// `path` as seen from the directory `cwd`: `path` itself where it is
/// absolute or `cwd` is empty or `.`, else `cwd`, a `/` and `path`.
pub open spec fn resolved(cwd: Seq<char>, path: Seq<char>) -> Seq<char> {
    if cwd.len() == 0 || cwd == "."@ || (path.len() > 0 && path[0] == '/') {
        path
    } else if cwd.last() == '/' {
        cwd + path
    } else {
        cwd.push('/') + path
    }
}

/// The canonical spelling of a flag with its value. A flag whose value may
/// be joined or stand in the next token is joined to its value where its
/// spelling has two characters (`-Idir`) and parted from it otherwise
/// (`-include file`). One whose value is joined by a separator or stands in
/// the next token is parted from it (`-fplugin p.so`).
pub open spec fn canonical(rule: RuleView, value: Option<Seq<char>>) -> Seq<Seq<char>> {
    match value {
        None => seq![rule.spelling],
        Some(v) => match rule.shape {
            ValueShape::NoValue => seq![rule.spelling],
            ValueShape::NextToken => seq![rule.spelling, v],
            ValueShape::Joined => seq![rule.spelling + v],
            ValueShape::JoinedWith(c) => seq![rule.spelling.push(c) + v],
            ValueShape::JoinedOrNext => if rule.spelling.len() == 2 {
                seq![rule.spelling + v]
            } else {
                seq![rule.spelling, v]
            },
            ValueShape::JoinedWithOrNext(_) => seq![rule.spelling, v],
        },
    }
}

/// A refusal with a reason and no detail.
pub open spec fn refused(reason: Seq<char>) -> ScanView {
    ScanView::Refused(RefusalView { reason, detail: None })
}

/// The refusal of an invocation whose tokens end, or go on wrongly, inside a
/// unit.
pub open spec fn malformed(detail: Seq<char>) -> ScanView {
    ScanView::Refused(RefusalView { reason: "argument parse"@, detail: Some(detail) })
}

/// The unit of a token that no rule matches: a flag that is kept among the
/// common arguments, or the source file.
pub open spec fn unmatched(token: Seq<char>) -> ScanView {
    if looks_like_flag(token) {
        ScanView::Unit(
            UnitView { extra: 0, bucket: Bucket::Common, rendered: seq![token], effect: Effect::Nothing },
        )
    } else {
        ScanView::Unit(
            UnitView {
                extra: 0,
                bucket: Bucket::Input,
                rendered: seq![token],
                effect: Effect::Input(token),
            },
        )
    }
}

/// The unit of a flag that stays among the arguments, written as `text`: its
/// bucket and effect go by the tag. None for the tags that do not stay.
pub open spec fn kept_unit(
    tag: Tag,
    value: Seq<char>,
    extra: nat,
    text: Seq<Seq<char>>,
    cwd: Seq<char>,
) -> Option<UnitView> {
    match tag {
        Tag::PassThrough => Some(
            UnitView { extra, bucket: Bucket::Common, rendered: text, effect: Effect::Nothing },
        ),
        Tag::Preprocessor => Some(
            UnitView { extra, bucket: Bucket::Preprocessor, rendered: text, effect: Effect::Nothing },
        ),
        Tag::ExtraHashFile => Some(
            UnitView {
                extra,
                bucket: Bucket::Common,
                rendered: text,
                effect: Effect::HashFile(resolved(cwd, value)),
            },
        ),
        Tag::ColorOn => Some(
            UnitView {
                extra,
                bucket: Bucket::Common,
                rendered: text,
                effect: Effect::Color(ColorMode::On),
            },
        ),
        Tag::ColorOff => Some(
            UnitView {
                extra,
                bucket: Bucket::Common,
                rendered: text,
                effect: Effect::Color(ColorMode::Off),
            },
        ),
        Tag::ColorChoice => Some(
            UnitView {
                extra,
                bucket: Bucket::Common,
                rendered: text,
                effect: Effect::Color(color_named(value)),
            },
        ),
        Tag::SplitDwarf => Some(
            UnitView { extra, bucket: Bucket::Common, rendered: text, effect: Effect::SplitDwarf },
        ),
        Tag::Coverage => Some(
            UnitView { extra, bucket: Bucket::Common, rendered: text, effect: Effect::Coverage },
        ),
        _ => None,
    }
}

/// The unit of a flag written for the compiler itself, with its value if it
/// has one.
pub open spec fn direct_unit(
    rule: RuleView,
    value: Option<Seq<char>>,
    extra: nat,
    cwd: Seq<char>,
) -> ScanView {
    let v = value_or_empty(value);
    match rule.tag {
        Tag::ForceUncacheable | Tag::WrapperForward => refused(rule.spelling),
        Tag::Compile => ScanView::Unit(
            UnitView { extra, bucket: Bucket::Absorbed, rendered: seq![], effect: Effect::Compile },
        ),
        Tag::Output => ScanView::Unit(
            UnitView { extra, bucket: Bucket::Output, rendered: seq![v], effect: Effect::Output(v) },
        ),
        Tag::Language => match language_named(v) {
            Some(l) => ScanView::Unit(
                UnitView {
                    extra,
                    bucket: Bucket::Absorbed,
                    rendered: seq![],
                    effect: Effect::Language(l),
                },
            ),
            None => refused(rule.spelling),
        },
        _ => match kept_unit(rule.tag, v, extra, canonical(rule, value), cwd) {
            Some(u) => ScanView::Unit(u),
            None => refused(rule.spelling),
        },
    }
}

/// The unit of a flag that a wrapper forwards. The tokens `text` are kept as
/// they were written, among the common arguments whatever the tag of the
/// forwarded flag, and the flag has the effect that it has when written for
/// the compiler itself. Only flags that stay among the arguments can be
/// forwarded; the spelling of any other is the reason of the refusal.
pub open spec fn forwarded_unit(
    inner: RuleView,
    value: Option<Seq<char>>,
    extra: nat,
    text: Seq<Seq<char>>,
    cwd: Seq<char>,
) -> ScanView {
    match inner.tag {
        Tag::SplitDwarf | Tag::Coverage => refused(inner.spelling),
        _ => match kept_unit(inner.tag, value_or_empty(value), extra, text, cwd) {
            Some(u) => ScanView::Unit(UnitView { bucket: Bucket::Common, ..u }),
            None => refused(inner.spelling),
        },
    }
}

/// The unit of the wrapper flag `wrapper` that begins at `pos`, whose value
/// `inner`, the forwarded argument, ends `extra` tokens later.
///
/// The forwarded argument must be a flag that a rule matches. Where that
/// flag's value is the next token, the wrapper must stand once more before
/// the value.
pub open spec fn wrapped_unit(
    rules: Seq<RuleView>,
    tokens: Seq<Seq<char>>,
    cwd: Seq<char>,
    pos: int,
    wrapper: RuleView,
    inner: Seq<char>,
    extra: nat,
) -> ScanView {
    let next = pos + 1 + extra;
    if !looks_like_flag(inner) {
        refused("Can't handle Raw arguments with "@ + wrapper.spelling)
    } else {
        match best_match(rules, inner) {
            None => refused("Can't handle UnknownFlag arguments with "@ + wrapper.spelling),
            Some(j) => match rule_form(rules[j], inner) {
                None => refused("Can't handle UnknownFlag arguments with "@ + wrapper.spelling),
                Some(Form::Plain) => forwarded_unit(
                    rules[j],
                    None,
                    extra,
                    tokens.subrange(pos, next),
                    cwd,
                ),
                Some(Form::Inline(v)) => forwarded_unit(
                    rules[j],
                    Some(v),
                    extra,
                    tokens.subrange(pos, next),
                    cwd,
                ),
                Some(Form::Next) => if next >= tokens.len() {
                    malformed("Unexpected end of args"@)
                } else if tokens[next] != wrapper.spelling {
                    malformed("Expected "@ + wrapper.spelling)
                } else if next + 1 >= tokens.len() {
                    malformed("Unexpected end of args"@)
                } else {
                    forwarded_unit(
                        rules[j],
                        Some(tokens[next + 1]),
                        extra + 2,
                        tokens.subrange(pos, next + 2),
                        cwd,
                    )
                },
            },
        }
    }
}

/// The unit of the flag of `rule` at `pos`, with its value.
pub open spec fn flag_unit(
    rules: Seq<RuleView>,
    tokens: Seq<Seq<char>>,
    cwd: Seq<char>,
    pos: int,
    rule: RuleView,
    value: Option<Seq<char>>,
    extra: nat,
) -> ScanView {
    if rule.tag == Tag::WrapperForward {
        wrapped_unit(rules, tokens, cwd, pos, rule, value_or_empty(value), extra)
    } else {
        direct_unit(rule, value, extra, cwd)
    }
}

/// The unit that begins at `pos`.
#[verifier::opaque]
pub open spec fn scan(rules: Seq<RuleView>, tokens: Seq<Seq<char>>, cwd: Seq<char>, pos: int) -> ScanView
    recommends
        0 <= pos < tokens.len(),
{
    let token = tokens[pos];
    match best_match(rules, token) {
        None => unmatched(token),
        Some(i) => match rule_form(rules[i], token) {
            None => unmatched(token),
            Some(Form::Plain) => flag_unit(rules, tokens, cwd, pos, rules[i], None, 0),
            Some(Form::Inline(v)) => flag_unit(rules, tokens, cwd, pos, rules[i], Some(v), 0),
            Some(Form::Next) => if pos + 1 < tokens.len() {
                flag_unit(rules, tokens, cwd, pos, rules[i], Some(tokens[pos + 1]), 1)
            } else {
                malformed("Unexpected end of args"@)
            },
        },
    }
}

/// Nothing gathered yet.
pub open spec fn start() -> ProgressView {
    ProgressView {
        input: None,
        multiple_inputs: false,
        language: None,
        output: None,
        compile: false,
        split_dwarf: false,
        coverage: false,
        color_mode: ColorMode::Auto,
        preprocessor_args: Seq::empty(),
        common_args: Seq::empty(),
        extra_hash_files: Seq::empty(),
    }
}

/// `state` with the strings of `unit` added to the list of its bucket.
pub open spec fn placed(state: ProgressView, unit: UnitView) -> ProgressView {
    match unit.bucket {
        Bucket::Preprocessor => ProgressView {
            preprocessor_args: state.preprocessor_args + unit.rendered,
            ..state
        },
        Bucket::Common => ProgressView { common_args: state.common_args + unit.rendered, ..state },
        _ => state,
    }
}

/// `state` after `unit`. Of several source files the first is kept, and
/// that there were several is noted.
pub open spec fn apply(state: ProgressView, unit: UnitView) -> ProgressView {
    let next = placed(state, unit);
    match unit.effect {
        Effect::Nothing => next,
        Effect::Input(path) => if state.input is Some {
            ProgressView { multiple_inputs: true, ..next }
        } else {
            ProgressView { input: Some(path), ..next }
        },
        Effect::Output(path) => ProgressView { output: Some(path), ..next },
        Effect::Language(l) => ProgressView { language: Some(l), ..next },
        Effect::Compile => ProgressView { compile: true, ..next },
        Effect::Color(mode) => ProgressView { color_mode: mode, ..next },
        Effect::HashFile(path) => ProgressView {
            extra_hash_files: next.extra_hash_files.push(path),
            ..next
        },
        Effect::SplitDwarf => ProgressView { split_dwarf: true, ..next },
        Effect::Coverage => ProgressView { coverage: true, ..next },
    }
}

/// The object file of a compilation of `input` that names none: the file
/// name of `input` with the extension `o`.
pub open spec fn default_object(input: Seq<char>) -> Seq<char> {
    with_extension(file_name_of(input), "o"@)
}

/// The verdict once every token is read.
///
/// An invocation that does not ask for compilation alone is no compilation,
/// whatever else it holds. One with several source files or with none, or
/// whose language neither a flag nor the file's extension gives, cannot be
/// cached.
pub open spec fn finish(state: ProgressView) -> OutcomeView {
    if !state.compile {
        OutcomeView::NotCompilation
    } else if state.multiple_inputs {
        OutcomeView::CannotCache("multiple input files"@, None)
    } else {
        match state.input {
            None => OutcomeView::CannotCache("no input file"@, None),
            Some(input) => {
                let language = match state.language {
                    Some(l) => Some(l),
                    None => language_of_file(input),
                };
                match language {
                    None => OutcomeView::CannotCache("unsupported source language"@, None),
                    Some(l) => {
                        let object = match state.output {
                            Some(o) => o,
                            None => default_object(input),
                        };
                        OutcomeView::Parsed(
                            ParsedView {
                                input,
                                language: l,
                                outputs: output_map(object, state.split_dwarf, state.coverage),
                                preprocessor_args: state.preprocessor_args,
                                common_args: state.common_args,
                                extra_hash_files: state.extra_hash_files,
                                color_mode: state.color_mode,
                            },
                        )
                    },
                }
            },
        }
    }
}

/// The verdict on `tokens` from `pos` on, with `state` gathered before.
pub open spec fn run(
    rules: Seq<RuleView>,
    tokens: Seq<Seq<char>>,
    cwd: Seq<char>,
    pos: int,
    state: ProgressView,
) -> OutcomeView
    decreases
            if pos < tokens.len() {
                tokens.len() - pos
            } else {
                0
            },
{
    if pos < 0 || pos >= tokens.len() {
        finish(state)
    } else {
        match scan(rules, tokens, cwd, pos) {
            ScanView::Refused(e) => OutcomeView::CannotCache(e.reason, e.detail),
            ScanView::Unit(u) => run(rules, tokens, cwd, pos + 1 + u.extra, apply(state, u)),
        }
    }
}

/// The verdict on the invocation `tokens`, made in the directory `cwd`, under
/// the rules `rules`.
pub open spec fn classify(rules: Seq<RuleView>, tokens: Seq<Seq<char>>, cwd: Seq<char>) -> OutcomeView {
    run(rules, tokens, cwd, 0, start())
}

/// A unit ends within the tokens.
pub proof fn lemma_scan_within(
    rules: Seq<RuleView>,
    tokens: Seq<Seq<char>>,
    cwd: Seq<char>,
    pos: int,
)
    requires
        0 <= pos < tokens.len(),
    ensures
        match scan(rules, tokens, cwd, pos) {
            ScanView::Unit(u) => pos + 1 + u.extra <= tokens.len(),
            ScanView::Refused(_) => true,
        },
{
    reveal(scan);
}

} // verus!
