//! The argument lists with which the compiler is run for an accepted
//! invocation: once to preprocess the source, once to compile it.

use vstd::prelude::*;
use crate::outcome::{language_named, Language, ParsedArguments, ParsedView};
use crate::text::extend_texts;

verus! {

/// The name by which a language flag names `language`.
pub open spec fn language_name(language: Language) -> Seq<char> {
    match language {
        Language::C => "c"@,
        Language::Cxx => "c++"@,
        Language::ObjectiveC => "objective-c"@,
        Language::ObjectiveCxx => "objective-c++"@,
    }
}

/// A language flag with the name of a language names that language.
pub proof fn lemma_language_name_is_read_back(language: Language)
    ensures
        language_named(language_name(language)) == Some(language),
{
    reveal_strlit("c");
    reveal_strlit("c++");
    reveal_strlit("objective-c");
    reveal_strlit("objective-c++");
    assert("c"@.len() != "c++"@.len());
    assert("c"@.len() != "objective-c"@.len());
    assert("c"@.len() != "objective-c++"@.len());
    assert("c++"@.len() != "objective-c"@.len());
    assert("c++"@.len() != "objective-c++"@.len());
    assert("objective-c"@.len() != "objective-c++"@.len());
}

/// The arguments that preprocess the source of `parsed`: the language, the
/// request to preprocess only, the source file, then the preprocessor and the
/// common arguments.
pub open spec fn preprocessing_of(parsed: ParsedView) -> Seq<Seq<char>> {
    seq!["-x"@, language_name(parsed.language), "-E"@, parsed.input] + parsed.preprocessor_args
        + parsed.common_args
}

/// The arguments that compile the source of `parsed` to its object file:
/// the language, the request to compile only, the source file, the object
/// file, then the preprocessor and the common arguments.
pub open spec fn compiling_of(parsed: ParsedView) -> Seq<Seq<char>> {
    seq![
        "-x"@,
        language_name(parsed.language),
        "-c"@,
        parsed.input,
        "-o"@,
        parsed.outputs["obj"@],
    ] + parsed.preprocessor_args + parsed.common_args
}

impl Language {
    /// The name by which a language flag names this language.
    pub fn name(&self) -> (r: &'static str)
        ensures
            r@ == language_name(*self),
    {
        match self {
            Language::C => "c",
            Language::Cxx => "c++",
            Language::ObjectiveC => "objective-c",
            Language::ObjectiveCxx => "objective-c++",
        }
    }
}

/// A copy of `texts`.
fn copy_texts(texts: &Vec<String>) -> (r: Vec<String>)
    ensures
        r.deep_view() == texts.deep_view(),
{
    let all = texts.as_slice();
    let out = crate::text::copy_range(all, 0, all.len());
    assert(all.deep_view() =~= texts.deep_view());
    assert(texts.deep_view().subrange(0, texts.len() as int) =~= texts.deep_view());
    out
}

/// The arguments with which the compiler preprocesses the source of `parsed`.
pub fn preprocessor_arguments(parsed: &ParsedArguments) -> (r: Vec<String>)
    ensures
        r.deep_view() == preprocessing_of(parsed@),
{
    let mut out: Vec<String> = Vec::new();
    out.push(String::from_str("-x"));
    out.push(String::from_str(parsed.language.name()));
    out.push(String::from_str("-E"));
    out.push(parsed.input.clone());
    assert(out.deep_view() =~= seq!["-x"@, language_name(parsed.language), "-E"@, parsed.input@]);
    extend_texts(&mut out, copy_texts(&parsed.preprocessor_args));
    extend_texts(&mut out, copy_texts(&parsed.common_args));
    out
}

/// The arguments with which the compiler compiles the source of `parsed` to
/// its object file.
pub fn compile_arguments(parsed: &ParsedArguments) -> (r: Vec<String>)
    ensures
        r.deep_view() == compiling_of(parsed@),
{
    proof {
        crate::outcome::lemma_output_kinds_differ();
    }
    let mut out: Vec<String> = Vec::new();
    out.push(String::from_str("-x"));
    out.push(String::from_str(parsed.language.name()));
    out.push(String::from_str("-c"));
    out.push(parsed.input.clone());
    out.push(String::from_str("-o"));
    out.push(parsed.outputs.object.clone());
    assert(out.deep_view() =~= seq![
        "-x"@,
        language_name(parsed.language),
        "-c"@,
        parsed.input@,
        "-o"@,
        parsed@.outputs["obj"@],
    ]);
    extend_texts(&mut out, copy_texts(&parsed.preprocessor_args));
    extend_texts(&mut out, copy_texts(&parsed.common_args));
    out
}

} // verus!
