//! What classification produces: the structured form of a cacheable
//! compilation, or the verdict that there is none.

use vstd::prelude::*;
use crate::text::{extension_of, same_text, with_extension};

verus! {

/// A source language.
#[derive(Clone, Copy, Debug, PartialEq, Eq, Structural)]
pub enum Language {
    C,
    Cxx,
    ObjectiveC,
    ObjectiveCxx,
}

/// Whether diagnostics are coloured.
#[derive(Clone, Copy, Debug, PartialEq, Eq, Structural)]
pub enum ColorMode {
    Off,
    On,
    Auto,
}

/// The language that a file extension stands for.
pub open spec fn language_of_extension(ext: Seq<char>) -> Option<Language> {
    if ext == "c"@ {
        Some(Language::C)
    } else if ext == "cc"@ || ext == "cpp"@ || ext == "cxx"@ {
        Some(Language::Cxx)
    } else if ext == "m"@ {
        Some(Language::ObjectiveC)
    } else if ext == "mm"@ {
        Some(Language::ObjectiveCxx)
    } else {
        None
    }
}

/// The language of the file that `path` names, going by its extension.
pub open spec fn language_of_file(path: Seq<char>) -> Option<Language> {
    match extension_of(path) {
        Some(ext) => language_of_extension(ext),
        None => None,
    }
}

/// The language that the value of a language flag names.
pub open spec fn language_named(name: Seq<char>) -> Option<Language> {
    if name == "c"@ {
        Some(Language::C)
    } else if name == "c++"@ {
        Some(Language::Cxx)
    } else if name == "objective-c"@ {
        Some(Language::ObjectiveC)
    } else if name == "objective-c++"@ {
        Some(Language::ObjectiveCxx)
    } else {
        None
    }
}

/// What the value of a colour flag chooses.
pub open spec fn color_named(name: Seq<char>) -> ColorMode {
    if name == "always"@ {
        ColorMode::On
    } else if name == "never"@ {
        ColorMode::Off
    } else {
        ColorMode::Auto
    }
}

impl Language {
    /// The language that the file extension `ext` stands for, if it is known.
    pub fn from_extension(ext: &str) -> (r: Option<Language>)
        ensures
            r == language_of_extension(ext@),
    {
        if same_text(ext, "c") {
            Some(Language::C)
        } else if same_text(ext, "cc") || same_text(ext, "cpp") || same_text(ext, "cxx") {
            Some(Language::Cxx)
        } else if same_text(ext, "m") {
            Some(Language::ObjectiveC)
        } else if same_text(ext, "mm") {
            Some(Language::ObjectiveCxx)
        } else {
            None
        }
    }

    /// The language of the file that `path` names, if its extension is known.
    pub fn from_file_name(path: &str) -> (r: Option<Language>)
        ensures
            r == language_of_file(path@),
    {
        match crate::text::extension(path) {
            Some(ext) => Language::from_extension(ext.as_str()),
            None => None,
        }
    }

    /// The language that the value `name` of a language flag names, if it is
    /// one of `c`, `c++`, `objective-c`, `objective-c++`.
    pub fn from_flag_value(name: &str) -> (r: Option<Language>)
        ensures
            r == language_named(name@),
    {
        if same_text(name, "c") {
            Some(Language::C)
        } else if same_text(name, "c++") {
            Some(Language::Cxx)
        } else if same_text(name, "objective-c") {
            Some(Language::ObjectiveC)
        } else if same_text(name, "objective-c++") {
            Some(Language::ObjectiveCxx)
        } else {
            None
        }
    }
}

impl ColorMode {
    /// What the value `name` of a colour flag chooses: `always` is on, `never`
    /// is off, anything else leaves the choice to the compiler.
    pub fn from_flag_value(name: &str) -> (r: ColorMode)
        ensures
            r == color_named(name@),
    {
        if same_text(name, "always") {
            ColorMode::On
        } else if same_text(name, "never") {
            ColorMode::Off
        } else {
            ColorMode::Auto
        }
    }
}

/// The output files of a compilation, as a map from the kind of output to
/// its path: `obj` for the object file, `dwo` for split debug information,
/// `gcno` for coverage notes.
pub open spec fn output_map(object: Seq<char>, split_dwarf: bool, coverage: bool) -> Map<
    Seq<char>,
    Seq<char>,
> {
    let objects = Map::<Seq<char>, Seq<char>>::empty().insert("obj"@, object);
    let dwarf = if split_dwarf {
        objects.insert("dwo"@, with_extension(object, "dwo"@))
    } else {
        objects
    };
    if coverage {
        dwarf.insert("gcno"@, with_extension(object, "gcno"@))
    } else {
        dwarf
    }
}

/// The output files of a compilation, by kind. There is always an object
/// file, and at most one file of each kind.
#[derive(Clone, Debug, PartialEq, Eq)]
pub struct OutputMap {
    pub object: String,
    pub split_dwarf: Option<String>,
    pub coverage_notes: Option<String>,
}

impl View for OutputMap {
    type V = Map<Seq<char>, Seq<char>>;

    open spec fn view(&self) -> Map<Seq<char>, Seq<char>> {
        let objects = Map::<Seq<char>, Seq<char>>::empty().insert("obj"@, self.object@);
        let dwarf = match self.split_dwarf {
            Some(p) => objects.insert("dwo"@, p@),
            None => objects,
        };
        match self.coverage_notes {
            Some(p) => dwarf.insert("gcno"@, p@),
            None => dwarf,
        }
    }
}

/// The three kinds of output have three names.
pub proof fn lemma_output_kinds_differ()
    ensures
        "obj"@ != "dwo"@,
        "obj"@ != "gcno"@,
        "dwo"@ != "gcno"@,
{
    reveal_strlit("obj");
    reveal_strlit("dwo");
    reveal_strlit("gcno");
    assert("obj"@[0] != "dwo"@[0]);
    assert("obj"@.len() != "gcno"@.len());
    assert("dwo"@.len() != "gcno"@.len());
}

impl OutputMap {
    /// The path of the output of kind `kind`, if there is one.
    pub fn get(&self, kind: &str) -> (r: Option<&String>)
        ensures
            match r {
                Some(p) => self@.contains_key(kind@) && self@[kind@] == p@,
                None => !self@.contains_key(kind@),
            },
    {
        proof {
            lemma_output_kinds_differ();
        }
        if same_text(kind, "obj") {
            Some(&self.object)
        } else if same_text(kind, "dwo") {
            self.split_dwarf.as_ref()
        } else if same_text(kind, "gcno") {
            self.coverage_notes.as_ref()
        } else {
            None
        }
    }

    /// The number of outputs.
    pub fn len(&self) -> (r: usize)
        ensures
            r == self@.len(),
            self@.dom().finite(),
    {
        proof {
            lemma_output_kinds_differ();
        }
        let mut n: usize = 1;
        if self.split_dwarf.is_some() {
            n += 1;
        }
        if self.coverage_notes.is_some() {
            n += 1;
        }
        n
    }
}

/// The structured form of an invocation that compiles one source file.
#[derive(Clone, Debug, PartialEq, Eq)]
pub struct ParsedArguments {
    /// The source file, as it was written.
    pub input: String,
    /// The language of the source file.
    pub language: Language,
    /// The files that the compilation writes.
    pub outputs: OutputMap,
    /// The arguments that affect preprocessing only, in order.
    pub preprocessor_args: Vec<String>,
    /// The other arguments that the compiler is to get, in order.
    pub common_args: Vec<String>,
    /// Files besides the source whose content the cache key must cover.
    pub extra_hash_files: Vec<String>,
    /// Whether diagnostics are coloured.
    pub color_mode: ColorMode,
}

/// The mathematical content of [`ParsedArguments`].
pub struct ParsedView {
    pub input: Seq<char>,
    pub language: Language,
    pub outputs: Map<Seq<char>, Seq<char>>,
    pub preprocessor_args: Seq<Seq<char>>,
    pub common_args: Seq<Seq<char>>,
    pub extra_hash_files: Seq<Seq<char>>,
    pub color_mode: ColorMode,
}

impl View for ParsedArguments {
    type V = ParsedView;

    open spec fn view(&self) -> ParsedView {
        ParsedView {
            input: self.input@,
            language: self.language,
            outputs: self.outputs@,
            preprocessor_args: self.preprocessor_args.deep_view(),
            common_args: self.common_args.deep_view(),
            extra_hash_files: self.extra_hash_files.deep_view(),
            color_mode: self.color_mode,
        }
    }
}

/// The verdict on one invocation.
#[derive(Clone, Debug, PartialEq, Eq)]
pub enum Outcome {
    /// A compilation of one source file, in structured form.
    Parsed(ParsedArguments),
    /// A compilation that cannot be cached: a short reason, and a detail
    /// where there is one.
    CannotCache(String, Option<String>),
    /// Not a compilation of one source file: to be run as it is.
    NotCompilation,
}

/// The mathematical content of an [`Outcome`].
pub enum OutcomeView {
    Parsed(ParsedView),
    CannotCache(Seq<char>, Option<Seq<char>>),
    NotCompilation,
}

/// The view of an optional string.
pub open spec fn text_of(s: Option<String>) -> Option<Seq<char>> {
    match s {
        Some(t) => Some(t@),
        None => None,
    }
}

impl View for Outcome {
    type V = OutcomeView;

    open spec fn view(&self) -> OutcomeView {
        match self {
            Outcome::Parsed(p) => OutcomeView::Parsed(p@),
            Outcome::CannotCache(reason, detail) => OutcomeView::CannotCache(
                reason@,
                text_of(*detail),
            ),
            Outcome::NotCompilation => OutcomeView::NotCompilation,
        }
    }
}

} // verus!
