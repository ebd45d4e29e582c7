//! The dialects, and the front end for Clang.

use vstd::pervasive::unreached;
use vstd::prelude::*;
use crate::classify::classify;
use crate::commands::{compile_arguments, compiling_of, preprocessing_of, preprocessor_arguments};
use crate::dialects::{
    clang_rules,
    clang_rules_view,
    gcc_rules,
    gcc_rules_view,
    lemma_clang_rules_agree,
    lemma_gcc_rules_agree,
};
use crate::outcome::{Outcome, ParsedArguments};
use crate::parse::parse_arguments;
use crate::rules::RuleView;
use crate::table::{conflicting, first_of_each, lemma_first_of_each, RuleTable};

verus! {

/// A compiler family with a flag vocabulary of its own.
#[derive(Clone, Copy, Debug, PartialEq, Eq, Structural)]
pub enum Dialect {
    Gcc,
    Clang,
}

/// The rules of a dialect as they are written down: its own, then those of
/// its family.
pub open spec fn written_rules(dialect: Dialect) -> Seq<RuleView> {
    match dialect {
        Dialect::Gcc => gcc_rules_view(),
        Dialect::Clang => clang_rules_view() + gcc_rules_view(),
    }
}

/// The effective rules of a dialect: of each spelling the first rule written.
pub open spec fn effective_rules(dialect: Dialect) -> Seq<RuleView> {
    first_of_each(written_rules(dialect))
}

/// The written rules of a dialect give no spelling two shapes, so its
/// effective table can always be built.
pub proof fn lemma_written_rules_agree(dialect: Dialect)
    ensures
        !conflicting(written_rules(dialect)),
{
    match dialect {
        Dialect::Gcc => lemma_gcc_rules_agree(),
        Dialect::Clang => lemma_clang_rules_agree(),
    }
}

/// Builds the effective rule table of `dialect`.
pub fn effective_table(dialect: Dialect) -> (r: RuleTable)
    ensures
        r@ == effective_rules(dialect),
        r.wf(),
{
    let base = gcc_rules();
    let overlay = match dialect {
        Dialect::Gcc => Vec::new(),
        Dialect::Clang => clang_rules(),
    };
    proof {
        if dialect == Dialect::Gcc {
            assert(overlay.deep_view() + base.deep_view() =~= gcc_rules_view());
        }
        lemma_written_rules_agree(dialect);
    }
    match RuleTable::layered(&base, &overlay) {
        Ok(table) => table,
        Err(_) => unreached(),
    }
}

/// The Clang front end: its rule table, built once.
#[derive(Debug)]
pub struct Clang {
    table: RuleTable,
}

impl View for Clang {
    type V = Seq<RuleView>;

    closed spec fn view(&self) -> Seq<RuleView> {
        self.table@
    }
}

impl Clang {
    #[verifier::type_invariant]
    spec fn holds_clang_rules(&self) -> bool {
        self.table@ == effective_rules(Dialect::Clang)
    }

    /// The Clang front end. Its rule table is built here, once.
    pub fn new() -> (r: Clang)
        ensures
            r@ == effective_rules(Dialect::Clang),
    {
        Clang { table: effective_table(Dialect::Clang) }
    }

    /// The rule table.
    pub fn table(&self) -> (r: &RuleTable)
        ensures
            r@ == self@,
            r@ == effective_rules(Dialect::Clang),
            r.wf(),
    {
        proof {
            use_type_invariant(self);
            lemma_first_of_each(written_rules(Dialect::Clang));
        }
        &self.table
    }

    /// The dialect.
    pub fn kind(&self) -> (r: Dialect)
        ensures
            r == Dialect::Clang,
    {
        Dialect::Clang
    }

    /// Classifies the invocation `arguments` of Clang, made in the directory
    /// `cwd`.
    pub fn parse_arguments(&self, arguments: &[String], cwd: &str) -> (r: Outcome)
        ensures
            r@ == classify(effective_rules(Dialect::Clang), arguments.deep_view(), cwd@),
    {
        proof {
            use_type_invariant(self);
        }
        parse_arguments(&self.table, arguments, cwd)
    }

    /// The arguments with which Clang preprocesses the source of
    /// `parsed_args`.
    pub fn preprocess(&self, parsed_args: &ParsedArguments) -> (r: Vec<String>)
        ensures
            r.deep_view() == preprocessing_of(parsed_args@),
    {
        preprocessor_arguments(parsed_args)
    }

    /// The arguments with which Clang compiles the source of `parsed_args`
    /// to its object file.
    pub fn generate_compile_commands(&self, parsed_args: &ParsedArguments) -> (r: Vec<String>)
        ensures
            r.deep_view() == compiling_of(parsed_args@),
    {
        compile_arguments(parsed_args)
    }
}

/// Classification is repeatable: two calls of `Clang::parse_arguments` with
/// the same tokens in the same directory return the same verdict, whichever
/// instances are asked and whenever their tables were built.
pub proof fn lemma_same_tokens_same_outcome(
    one: &Clang,
    other: &Clang,
    arguments: &[String],
    again: &[String],
    cwd: &str,
    cwd_again: &str,
    first: Outcome,
    second: Outcome,
)
    requires
        arguments.deep_view() == again.deep_view(),
        cwd@ == cwd_again@,
        call_ensures(Clang::parse_arguments, (one, arguments, cwd), first),
        call_ensures(Clang::parse_arguments, (other, again, cwd_again), second),
    ensures
        first@ == second@,
{
}

impl Clone for Clang {
    fn clone(&self) -> (r: Clang)
        ensures
            r@ == self@,
    {
        proof {
            use_type_invariant(self);
        }
        Clang { table: self.table.clone() }
    }
}

} // verus!
