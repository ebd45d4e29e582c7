//! Reading an invocation: the executable counterpart of the classification.

use vstd::prelude::*;
use crate::classify::{
    apply,
    canonical,
    classify,
    direct_unit,
    finish,
    flag_unit,
    forwarded_unit,
    kept_unit,
    lemma_scan_within,
    resolved,
    run,
    scan,
    start,
    unmatched,
    value_or_empty,
    wrapped_unit,
    Bucket,
    Effect,
    ProgressView,
    RefusalView,
    ScanView,
    UnitView,
};
use crate::outcome::{text_of, ColorMode, Language, Outcome, OutputMap, ParsedArguments};
use crate::rules::{lemma_inline_parts, lookup, ArgumentRule, Tag, TokenForm, ValueShape};
use crate::table::RuleTable;
use crate::text::{
    copy_range,
    extend_texts,
    file_name,
    is_flag_like,
    joined,
    push_text,
    replace_extension,
    same_text,
};

verus! {

/// Why an invocation cannot be cached: a short reason, and a detail where
/// there is one.
#[derive(Clone, Debug, PartialEq, Eq)]
pub struct Refusal {
    pub reason: String,
    pub detail: Option<String>,
}

impl View for Refusal {
    type V = RefusalView;

    open spec fn view(&self) -> RefusalView {
        RefusalView { reason: self.reason@, detail: text_of(self.detail) }
    }
}

/// What a unit changes in the result besides the bucket's list.
#[derive(Clone, Debug, PartialEq, Eq)]
pub enum UnitEffect {
    Nothing,
    Input(String),
    Output(String),
    Language(Language),
    Compile,
    Color(ColorMode),
    HashFile(String),
    SplitDwarf,
    Coverage,
}

impl View for UnitEffect {
    type V = Effect;

    open spec fn view(&self) -> Effect {
        match self {
            UnitEffect::Nothing => Effect::Nothing,
            UnitEffect::Input(p) => Effect::Input(p@),
            UnitEffect::Output(p) => Effect::Output(p@),
            UnitEffect::Language(l) => Effect::Language(*l),
            UnitEffect::Compile => Effect::Compile,
            UnitEffect::Color(m) => Effect::Color(*m),
            UnitEffect::HashFile(p) => Effect::HashFile(p@),
            UnitEffect::SplitDwarf => Effect::SplitDwarf,
            UnitEffect::Coverage => Effect::Coverage,
        }
    }
}

/// One unit of the token sequence.
#[derive(Clone, Debug, PartialEq, Eq)]
pub struct Unit {
    /// The number of tokens of the unit after its first.
    pub extra: usize,
    /// The bucket that accounts for the unit.
    pub bucket: Bucket,
    /// The strings by which the bucket holds the unit.
    pub rendered: Vec<String>,
    /// What else the unit changes.
    pub effect: UnitEffect,
}

impl View for Unit {
    type V = UnitView;

    open spec fn view(&self) -> UnitView {
        UnitView {
            extra: self.extra as nat,
            bucket: self.bucket,
            rendered: self.rendered.deep_view(),
            effect: self.effect@,
        }
    }
}

/// What reading one unit gives.
#[derive(Clone, Debug, PartialEq, Eq)]
pub enum Scanned {
    Unit(Unit),
    Refused(Refusal),
}

impl View for Scanned {
    type V = ScanView;

    open spec fn view(&self) -> ScanView {
        match self {
            Scanned::Unit(u) => ScanView::Unit(u@),
            Scanned::Refused(e) => ScanView::Refused(e@),
        }
    }
}

/// A refusal with a reason and no detail.
fn refuse(reason: String) -> (r: Scanned)
    ensures
        r@ == crate::classify::refused(reason@),
{
    Scanned::Refused(Refusal { reason, detail: None })
}

/// The refusal of an invocation whose tokens end, or go on wrongly, inside a
/// unit.
fn refuse_malformed(detail: String) -> (r: Scanned)
    ensures
        r@ == crate::classify::malformed(detail@),
{
    Scanned::Refused(Refusal { reason: String::from_str("argument parse"), detail: Some(detail) })
}

/// A vector of one string.
fn one_text(a: String) -> (r: Vec<String>)
    ensures
        r.deep_view() == seq![a@],
{
    let mut out: Vec<String> = Vec::new();
    push_text(&mut out, a);
    assert(out.deep_view() =~= seq![a@]);
    out
}

/// A vector of two strings.
fn two_texts(a: String, b: String) -> (r: Vec<String>)
    ensures
        r.deep_view() == seq![a@, b@],
{
    let mut out: Vec<String> = Vec::new();
    push_text(&mut out, a);
    push_text(&mut out, b);
    assert(out.deep_view() =~= seq![a@, b@]);
    out
}

/// `path` as seen from the directory `cwd`.
pub fn resolve(cwd: &str, path: &str) -> (r: String)
    ensures
        r@ == resolved(cwd@, path@),
{
    let n = cwd.unicode_len();
    if n == 0 || same_text(cwd, ".") || is_rooted(path) {
        String::from_str(path)
    } else if cwd.get_char(n - 1) == '/' {
        joined(cwd, path)
    } else {
        proof {
            reveal_strlit("/");
            assert(cwd@ + "/"@ =~= cwd@.push('/'));
        }
        joined(joined(cwd, "/").as_str(), path)
    }
}

/// Whether `path` begins with `/`.
fn is_rooted(path: &str) -> (r: bool)
    ensures
        r == (path@.len() > 0 && path@[0] == '/'),
{
    path.unicode_len() > 0 && path.get_char(0) == '/'
}

/// The text of an optional value, empty where there is none.
fn value_text(value: &Option<String>) -> (r: String)
    ensures
        r@ == value_or_empty(text_of(*value)),
{
    match value {
        Some(v) => v.clone(),
        None => String::new(),
    }
}

/// The canonical spelling of the flag of `rule`, written as `token`, with
/// its value.
fn render(rule: &ArgumentRule, token: &str, value: &Option<String>) -> (r: Vec<String>)
    requires
        rule.shape is JoinedWith ==> canonical(rule@, text_of(*value)) == seq![token@],
    ensures
        r.deep_view() == canonical(rule@, text_of(*value)),
{
    let s = rule.spelling.as_str();
    match value {
        None => one_text(String::from_str(s)),
        Some(v) => {
            match rule.shape {
                ValueShape::NoValue => one_text(String::from_str(s)),
                ValueShape::NextToken | ValueShape::JoinedWithOrNext(_) => two_texts(
                    String::from_str(s),
                    v.clone(),
                ),
                ValueShape::Joined => one_text(joined(s, v.as_str())),
                ValueShape::JoinedWith(_) => one_text(String::from_str(token)),
                ValueShape::JoinedOrNext => if s.unicode_len() == 2 {
                    one_text(joined(s, v.as_str()))
                } else {
                    two_texts(String::from_str(s), v.clone())
                },
            }
        },
    }
}

/// The unit of a token that no rule matches.
fn unmatched_unit(token: &str) -> (r: Scanned)
    ensures
        r@ == unmatched(token@),
{
    if is_flag_like(token) {
        Scanned::Unit(
            Unit {
                extra: 0,
                bucket: Bucket::Common,
                rendered: one_text(String::from_str(token)),
                effect: UnitEffect::Nothing,
            },
        )
    } else {
        Scanned::Unit(
            Unit {
                extra: 0,
                bucket: Bucket::Input,
                rendered: one_text(String::from_str(token)),
                effect: UnitEffect::Input(String::from_str(token)),
            },
        )
    }
}

/// The unit of a flag that stays among the arguments, if its tag is one of
/// those.
fn keep(tag: Tag, value: &str, extra: usize, text: Vec<String>, cwd: &str) -> (r: Option<Unit>)
    ensures
        match r {
            Some(u) => kept_unit(tag, value@, extra as nat, text.deep_view(), cwd@) == Some(u@),
            None => kept_unit(tag, value@, extra as nat, text.deep_view(), cwd@) is None,
        },
{
    match tag {
        Tag::PassThrough => Some(
            Unit { extra, bucket: Bucket::Common, rendered: text, effect: UnitEffect::Nothing },
        ),
        Tag::Preprocessor => Some(
            Unit { extra, bucket: Bucket::Preprocessor, rendered: text, effect: UnitEffect::Nothing },
        ),
        Tag::ExtraHashFile => Some(
            Unit {
                extra,
                bucket: Bucket::Common,
                rendered: text,
                effect: UnitEffect::HashFile(resolve(cwd, value)),
            },
        ),
        Tag::ColorOn => Some(
            Unit {
                extra,
                bucket: Bucket::Common,
                rendered: text,
                effect: UnitEffect::Color(ColorMode::On),
            },
        ),
        Tag::ColorOff => Some(
            Unit {
                extra,
                bucket: Bucket::Common,
                rendered: text,
                effect: UnitEffect::Color(ColorMode::Off),
            },
        ),
        Tag::ColorChoice => Some(
            Unit {
                extra,
                bucket: Bucket::Common,
                rendered: text,
                effect: UnitEffect::Color(ColorMode::from_flag_value(value)),
            },
        ),
        Tag::SplitDwarf => Some(
            Unit { extra, bucket: Bucket::Common, rendered: text, effect: UnitEffect::SplitDwarf },
        ),
        Tag::Coverage => Some(
            Unit { extra, bucket: Bucket::Common, rendered: text, effect: UnitEffect::Coverage },
        ),
        _ => None,
    }
}

/// The unit of a flag written for the compiler itself, with its value if it
/// has one.
fn direct(
    rule: &ArgumentRule,
    token: &str,
    value: Option<String>,
    extra: usize,
    cwd: &str,
) -> (r: Scanned)
    requires
        rule.shape is JoinedWith ==> canonical(rule@, text_of(value)) == seq![token@],
    ensures
        r@ == direct_unit(rule@, text_of(value), extra as nat, cwd@),
{
    let v = value_text(&value);
    match rule.tag {
        Tag::ForceUncacheable | Tag::WrapperForward => refuse(rule.spelling.clone()),
        Tag::Compile => Scanned::Unit(
            Unit {
                extra,
                bucket: Bucket::Absorbed,
                rendered: no_texts(),
                effect: UnitEffect::Compile,
            },
        ),
        Tag::Output => Scanned::Unit(
            Unit {
                extra,
                bucket: Bucket::Output,
                rendered: one_text(v.clone()),
                effect: UnitEffect::Output(v),
            },
        ),
        Tag::Language => match Language::from_flag_value(v.as_str()) {
            Some(l) => Scanned::Unit(
                Unit {
                    extra,
                    bucket: Bucket::Absorbed,
                    rendered: no_texts(),
                    effect: UnitEffect::Language(l),
                },
            ),
            None => refuse(rule.spelling.clone()),
        },
        _ => match keep(rule.tag, v.as_str(), extra, render(rule, token, &value), cwd) {
            Some(u) => Scanned::Unit(u),
            None => refuse(rule.spelling.clone()),
        },
    }
}

/// No strings.
fn no_texts() -> (r: Vec<String>)
    ensures
        r.deep_view() == Seq::<Seq<char>>::empty(),
{
    let out: Vec<String> = Vec::new();
    assert(out.deep_view() =~= Seq::<Seq<char>>::empty());
    out
}

/// The unit of a flag that a wrapper forwards, kept as the tokens `text`
/// among the common arguments.
fn forwarded(
    inner: &ArgumentRule,
    value: Option<String>,
    extra: usize,
    text: Vec<String>,
    cwd: &str,
) -> (r: Scanned)
    ensures
        r@ == forwarded_unit(inner@, text_of(value), extra as nat, text.deep_view(), cwd@),
{
    match inner.tag {
        Tag::SplitDwarf | Tag::Coverage => refuse(inner.spelling.clone()),
        _ => {
            let v = value_text(&value);
            match keep(inner.tag, v.as_str(), extra, text, cwd) {
                Some(u) => Scanned::Unit(
                    Unit {
                        extra: u.extra,
                        bucket: Bucket::Common,
                        rendered: u.rendered,
                        effect: u.effect,
                    },
                ),
                None => refuse(inner.spelling.clone()),
            }
        },
    }
}

/// The unit of the wrapper flag `wrapper` that begins at `pos`, whose value
/// `inner` ends `extra` tokens later.
fn wrapped(
    rules: &Vec<ArgumentRule>,
    tokens: &[String],
    cwd: &str,
    pos: usize,
    wrapper: &ArgumentRule,
    inner: &str,
    extra: usize,
) -> (r: Scanned)
    requires
        pos + 1 + extra <= tokens.len(),
    ensures
        r@ == wrapped_unit(
            rules.deep_view(),
            tokens.deep_view(),
            cwd@,
            pos as int,
            wrapper@,
            inner@,
            extra as nat,
        ),
{
    let next = pos + 1 + extra;
    let w = wrapper.spelling.as_str();
    if !is_flag_like(inner) {
        return refuse(joined("Can't handle Raw arguments with ", w));
    }
    let j = match lookup(rules, inner) {
        Some(j) => j,
        None => {
            return refuse(joined("Can't handle UnknownFlag arguments with ", w));
        },
    };
    let rule = &rules[j];
    proof {
        assert(rules.deep_view()[j as int] == rule@);
    }
    match rule.form(inner) {
        None => refuse(joined("Can't handle UnknownFlag arguments with ", w)),
        Some(TokenForm::Plain) => forwarded(rule, None, extra, copy_range(tokens, pos, next), cwd),
        Some(TokenForm::Inline(v)) => forwarded(
            rule,
            Some(v),
            extra,
            copy_range(tokens, pos, next),
            cwd,
        ),
        Some(TokenForm::Next) => {
            if next >= tokens.len() {
                return refuse_malformed(String::from_str("Unexpected end of args"));
            }
            proof {
                assert(tokens.deep_view()[next as int] == tokens[next as int]@);
            }
            if !same_text(tokens[next].as_str(), w) {
                return refuse_malformed(joined("Expected ", w));
            }
            if next + 1 >= tokens.len() {
                return refuse_malformed(String::from_str("Unexpected end of args"));
            }
            proof {
                assert(tokens.deep_view()[next + 1] == tokens[next + 1]@);
            }
            forwarded(
                rule,
                Some(tokens[next + 1].clone()),
                extra + 2,
                copy_range(tokens, pos, next + 2),
                cwd,
            )
        },
    }
}

/// The unit of the flag of `rule` at `pos`, with its value.
fn flagged(
    rules: &Vec<ArgumentRule>,
    tokens: &[String],
    cwd: &str,
    pos: usize,
    rule: &ArgumentRule,
    value: Option<String>,
    extra: usize,
) -> (r: Scanned)
    requires
        pos + 1 + extra <= tokens.len(),
        rule.shape is JoinedWith ==> canonical(rule@, text_of(value)) == seq![
            tokens.deep_view()[pos as int],
        ],
    ensures
        r@ == flag_unit(
            rules.deep_view(),
            tokens.deep_view(),
            cwd@,
            pos as int,
            rule@,
            text_of(value),
            extra as nat,
        ),
{
    match rule.tag {
        Tag::WrapperForward => {
            let inner = value_text(&value);
            wrapped(rules, tokens, cwd, pos, rule, inner.as_str(), extra)
        },
        _ => {
            proof {
                assert(tokens.deep_view()[pos as int] == tokens[pos as int]@);
            }
            direct(rule, tokens[pos].as_str(), value, extra, cwd)
        },
    }
}

/// Reads the unit that begins at `pos`.
pub fn scan_unit(rules: &Vec<ArgumentRule>, tokens: &[String], cwd: &str, pos: usize) -> (r:
    Scanned)
    requires
        pos < tokens.len(),
    ensures
        r@ == scan(rules.deep_view(), tokens.deep_view(), cwd@, pos as int),
{
    let token = tokens[pos].as_str();
    proof {
        reveal(scan);
        assert(tokens.deep_view()[pos as int] == token@);
    }
    let i = match lookup(rules, token) {
        Some(i) => i,
        None => {
            return unmatched_unit(token);
        },
    };
    let rule = &rules[i];
    proof {
        assert(rules.deep_view()[i as int] == rule@);
    }
    match rule.form(token) {
        None => unmatched_unit(token),
        Some(TokenForm::Plain) => flagged(rules, tokens, cwd, pos, rule, None, 0),
        Some(TokenForm::Inline(v)) => {
            proof {
                lemma_inline_parts(rule@, token@);
            }
            flagged(rules, tokens, cwd, pos, rule, Some(v), 0)
        },
        Some(TokenForm::Next) => {
            if pos + 1 < tokens.len() {
                proof {
                    assert(tokens.deep_view()[pos + 1] == tokens[pos + 1]@);
                }
                flagged(rules, tokens, cwd, pos, rule, Some(tokens[pos + 1].clone()), 1)
            } else {
                refuse_malformed(String::from_str("Unexpected end of args"))
            }
        },
    }
}

/// What has been gathered from the units read so far.
#[derive(Clone, Debug, PartialEq, Eq)]
pub struct Progress {
    pub input: Option<String>,
    pub multiple_inputs: bool,
    pub language: Option<Language>,
    pub output: Option<String>,
    pub compile: bool,
    pub split_dwarf: bool,
    pub coverage: bool,
    pub color_mode: ColorMode,
    pub preprocessor_args: Vec<String>,
    pub common_args: Vec<String>,
    pub extra_hash_files: Vec<String>,
}

impl View for Progress {
    type V = ProgressView;

    open spec fn view(&self) -> ProgressView {
        ProgressView {
            input: text_of(self.input),
            multiple_inputs: self.multiple_inputs,
            language: self.language,
            output: text_of(self.output),
            compile: self.compile,
            split_dwarf: self.split_dwarf,
            coverage: self.coverage,
            color_mode: self.color_mode,
            preprocessor_args: self.preprocessor_args.deep_view(),
            common_args: self.common_args.deep_view(),
            extra_hash_files: self.extra_hash_files.deep_view(),
        }
    }
}

impl Progress {
    /// Nothing gathered yet.
    pub fn new() -> (r: Progress)
        ensures
            r@ == start(),
    {
        Progress {
            input: None,
            multiple_inputs: false,
            language: None,
            output: None,
            compile: false,
            split_dwarf: false,
            coverage: false,
            color_mode: ColorMode::Auto,
            preprocessor_args: no_texts(),
            common_args: no_texts(),
            extra_hash_files: no_texts(),
        }
    }

    /// Takes `unit` in.
    pub fn apply(&mut self, unit: Unit)
        ensures
            final(self)@ == apply(old(self)@, unit@),
    {
        let Unit { extra: _, bucket, rendered, effect } = unit;
        match bucket {
            Bucket::Preprocessor => extend_texts(&mut self.preprocessor_args, rendered),
            Bucket::Common => extend_texts(&mut self.common_args, rendered),
            _ => {},
        }
        match effect {
            UnitEffect::Nothing => {},
            UnitEffect::Input(path) => {
                if self.input.is_some() {
                    self.multiple_inputs = true;
                } else {
                    self.input = Some(path);
                }
            },
            UnitEffect::Output(path) => {
                self.output = Some(path);
            },
            UnitEffect::Language(l) => {
                self.language = Some(l);
            },
            UnitEffect::Compile => {
                self.compile = true;
            },
            UnitEffect::Color(mode) => {
                self.color_mode = mode;
            },
            UnitEffect::HashFile(path) => {
                push_text(&mut self.extra_hash_files, path);
            },
            UnitEffect::SplitDwarf => {
                self.split_dwarf = true;
            },
            UnitEffect::Coverage => {
                self.coverage = true;
            },
        }
    }

    /// The verdict once every token is read.
    pub fn finish(self) -> (r: Outcome)
        ensures
            r@ == finish(self@),
    {
        if !self.compile {
            return Outcome::NotCompilation;
        }
        if self.multiple_inputs {
            return Outcome::CannotCache(String::from_str("multiple input files"), None);
        }
        let input = match self.input {
            Some(input) => input,
            None => {
                return Outcome::CannotCache(String::from_str("no input file"), None);
            },
        };
        let language = match self.language {
            Some(l) => Some(l),
            None => Language::from_file_name(input.as_str()),
        };
        let language = match language {
            Some(l) => l,
            None => {
                return Outcome::CannotCache(String::from_str("unsupported source language"), None);
            },
        };
        let object = match self.output {
            Some(o) => o,
            None => replace_extension(file_name(input.as_str()).as_str(), "o"),
        };
        let split_dwarf = if self.split_dwarf {
            Some(replace_extension(object.as_str(), "dwo"))
        } else {
            None
        };
        let coverage_notes = if self.coverage {
            Some(replace_extension(object.as_str(), "gcno"))
        } else {
            None
        };
        Outcome::Parsed(
            ParsedArguments {
                input,
                language,
                outputs: OutputMap { object, split_dwarf, coverage_notes },
                preprocessor_args: self.preprocessor_args,
                common_args: self.common_args,
                extra_hash_files: self.extra_hash_files,
                color_mode: self.color_mode,
            },
        )
    }
}

/// Classifies the invocation `arguments`, made in the directory `cwd`, under
/// the rules of `table`.
pub fn parse_arguments(table: &RuleTable, arguments: &[String], cwd: &str) -> (r: Outcome)
    ensures
        r@ == classify(table@, arguments.deep_view(), cwd@),
{
    let rules = table.rules();
    let mut state = Progress::new();
    let mut pos: usize = 0;
    while pos < arguments.len()
        invariant
            pos <= arguments.len(),
            rules.deep_view() == table@,
            classify(table@, arguments.deep_view(), cwd@) == run(
                table@,
                arguments.deep_view(),
                cwd@,
                pos as int,
                state@,
            ),
        decreases arguments.len() - pos,
    {
        proof {
            lemma_scan_within(table@, arguments.deep_view(), cwd@, pos as int);
        }
        match scan_unit(rules, arguments, cwd, pos) {
            Scanned::Refused(e) => {
                return Outcome::CannotCache(e.reason, e.detail);
            },
            Scanned::Unit(unit) => {
                let step = 1 + unit.extra;
                state.apply(unit);
                pos += step;
            },
        }
    }
    state.finish()
}

} // verus!
