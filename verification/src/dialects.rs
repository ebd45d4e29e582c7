//! The rules of the supported dialects.

use vstd::prelude::*;
use crate::order::{
    ascending,
    lemma_ascending_is_distinct,
    lemma_falls_between,
    lemma_layers_agree,
    lemma_present_agrees,
    lemma_rises,
};
use crate::rules::{ArgumentRule, RuleView, Tag, ValueShape};
use crate::table::conflicting;

verus! {

/// A rule, by its parts.
pub open spec fn entry(spelling: Seq<char>, shape: ValueShape, tag: Tag) -> RuleView {
    RuleView { spelling, shape, tag }
}

/// The rules that the compilers of the GCC family share.
pub open spec fn gcc_rules_view() -> Seq<RuleView> {
    seq![
        entry("-"@, ValueShape::NoValue, Tag::ForceUncacheable),
        entry("--coverage"@, ValueShape::NoValue, Tag::Coverage),
        entry("--param"@, ValueShape::NextToken, Tag::PassThrough),
        entry("--save-temps"@, ValueShape::NoValue, Tag::ForceUncacheable),
        entry("--serialize-diagnostics"@, ValueShape::NextToken, Tag::PassThrough),
        entry("--sysroot"@, ValueShape::NextToken, Tag::PassThrough),
        entry("-A"@, ValueShape::NextToken, Tag::PassThrough),
        entry("-B"@, ValueShape::JoinedOrNext, Tag::PassThrough),
        entry("-D"@, ValueShape::JoinedOrNext, Tag::PassThrough),
        entry("-E"@, ValueShape::NoValue, Tag::ForceUncacheable),
        entry("-F"@, ValueShape::JoinedOrNext, Tag::Preprocessor),
        entry("-G"@, ValueShape::NextToken, Tag::PassThrough),
        entry("-I"@, ValueShape::JoinedOrNext, Tag::Preprocessor),
        entry("-L"@, ValueShape::NextToken, Tag::PassThrough),
        entry("-M"@, ValueShape::NoValue, Tag::ForceUncacheable),
        entry("-MD"@, ValueShape::NoValue, Tag::Preprocessor),
        entry("-MF"@, ValueShape::NextToken, Tag::Preprocessor),
        entry("-MM"@, ValueShape::NoValue, Tag::ForceUncacheable),
        entry("-MMD"@, ValueShape::NoValue, Tag::Preprocessor),
        entry("-MP"@, ValueShape::NoValue, Tag::Preprocessor),
        entry("-MQ"@, ValueShape::NextToken, Tag::Preprocessor),
        entry("-MT"@, ValueShape::NextToken, Tag::Preprocessor),
        entry("-P"@, ValueShape::NoValue, Tag::ForceUncacheable),
        entry("-U"@, ValueShape::JoinedOrNext, Tag::PassThrough),
        entry("-V"@, ValueShape::NextToken, Tag::PassThrough),
        entry("-Xassembler"@, ValueShape::NextToken, Tag::PassThrough),
        entry("-Xlinker"@, ValueShape::NextToken, Tag::PassThrough),
        entry("-Xpreprocessor"@, ValueShape::NextToken, Tag::Preprocessor),
        entry("-arch"@, ValueShape::NextToken, Tag::PassThrough),
        entry("-aux-info"@, ValueShape::NextToken, Tag::PassThrough),
        entry("-b"@, ValueShape::NextToken, Tag::PassThrough),
        entry("-c"@, ValueShape::NoValue, Tag::Compile),
        entry("-fdiagnostics-color"@, ValueShape::JoinedWith('='), Tag::ColorChoice),
        entry("-fno-diagnostics-color"@, ValueShape::NoValue, Tag::ColorOff),
        entry("-fno-working-directory"@, ValueShape::NoValue, Tag::Preprocessor),
        entry("-fplugin=libcc1plugin"@, ValueShape::NoValue, Tag::ForceUncacheable),
        entry("-fprofile-arcs"@, ValueShape::NoValue, Tag::PassThrough),
        entry("-fprofile-generate"@, ValueShape::NoValue, Tag::PassThrough),
        entry("-fprofile-use"@, ValueShape::Joined, Tag::ForceUncacheable),
        entry("-frepo"@, ValueShape::NoValue, Tag::ForceUncacheable),
        entry("-fsyntax-only"@, ValueShape::NoValue, Tag::ForceUncacheable),
        entry("-ftest-coverage"@, ValueShape::NoValue, Tag::Coverage),
        entry("-fworking-directory"@, ValueShape::NoValue, Tag::Preprocessor),
        entry("-gsplit-dwarf"@, ValueShape::NoValue, Tag::SplitDwarf),
        entry("-idirafter"@, ValueShape::JoinedOrNext, Tag::Preprocessor),
        entry("-iframework"@, ValueShape::JoinedOrNext, Tag::Preprocessor),
        entry("-imacros"@, ValueShape::JoinedOrNext, Tag::Preprocessor),
        entry("-imultilib"@, ValueShape::JoinedOrNext, Tag::Preprocessor),
        entry("-include"@, ValueShape::JoinedOrNext, Tag::Preprocessor),
        entry("-install_name"@, ValueShape::NextToken, Tag::PassThrough),
        entry("-iprefix"@, ValueShape::JoinedOrNext, Tag::Preprocessor),
        entry("-iquote"@, ValueShape::JoinedOrNext, Tag::Preprocessor),
        entry("-isysroot"@, ValueShape::JoinedOrNext, Tag::Preprocessor),
        entry("-isystem"@, ValueShape::JoinedOrNext, Tag::Preprocessor),
        entry("-iwithprefix"@, ValueShape::JoinedOrNext, Tag::Preprocessor),
        entry("-iwithprefixbefore"@, ValueShape::JoinedOrNext, Tag::Preprocessor),
        entry("-nostdinc"@, ValueShape::NoValue, Tag::Preprocessor),
        entry("-nostdinc++"@, ValueShape::NoValue, Tag::Preprocessor),
        entry("-o"@, ValueShape::JoinedOrNext, Tag::Output),
        entry("-remap"@, ValueShape::NoValue, Tag::Preprocessor),
        entry("-save-temps"@, ValueShape::NoValue, Tag::ForceUncacheable),
        entry("-stdlib"@, ValueShape::JoinedWith('='), Tag::Preprocessor),
        entry("-trigraphs"@, ValueShape::NoValue, Tag::Preprocessor),
        entry("-u"@, ValueShape::JoinedOrNext, Tag::PassThrough),
        entry("-x"@, ValueShape::JoinedOrNext, Tag::Language),
        entry("@"@, ValueShape::Joined, Tag::ForceUncacheable),
    ]
}

/// The rules that Clang adds to those of its family, or replaces in them.
pub open spec fn clang_rules_view() -> Seq<RuleView> {
    seq![
        entry("--serialize-diagnostics"@, ValueShape::NextToken, Tag::PassThrough),
        entry("--target"@, ValueShape::NextToken, Tag::PassThrough),
        entry("-Xclang"@, ValueShape::NextToken, Tag::WrapperForward),
        entry("-add-plugin"@, ValueShape::NextToken, Tag::PassThrough),
        entry("-fcolor-diagnostics"@, ValueShape::NoValue, Tag::ColorOn),
        entry("-fcxx-modules"@, ValueShape::NoValue, Tag::ForceUncacheable),
        entry("-fdebug-compilation-dir"@, ValueShape::NextToken, Tag::PassThrough),
        entry("-fmodules"@, ValueShape::NoValue, Tag::ForceUncacheable),
        entry("-fno-color-diagnostics"@, ValueShape::NoValue, Tag::ColorOff),
        entry("-fplugin"@, ValueShape::JoinedWithOrNext('='), Tag::ExtraHashFile),
        entry("-fprofile-instr-generate"@, ValueShape::NoValue, Tag::PassThrough),
        entry("-fprofile-instr-use"@, ValueShape::Joined, Tag::ForceUncacheable),
        entry("-gcc-toolchain"@, ValueShape::NextToken, Tag::PassThrough),
        entry("-include-pch"@, ValueShape::JoinedOrNext, Tag::Preprocessor),
        entry("-load"@, ValueShape::NextToken, Tag::ExtraHashFile),
        entry("-mllvm"@, ValueShape::NextToken, Tag::PassThrough),
        entry("-target"@, ValueShape::NextToken, Tag::PassThrough),
        entry("-verify"@, ValueShape::NoValue, Tag::Preprocessor),
    ]
}

/// The rules that the compilers of the GCC family share.
pub fn gcc_rules() -> (r: Vec<ArgumentRule>)
    ensures
        r.deep_view() == gcc_rules_view(),
{
    let rules = vec![
        ArgumentRule::new("-", ValueShape::NoValue, Tag::ForceUncacheable),
        ArgumentRule::new("--coverage", ValueShape::NoValue, Tag::Coverage),
        ArgumentRule::new("--param", ValueShape::NextToken, Tag::PassThrough),
        ArgumentRule::new("--save-temps", ValueShape::NoValue, Tag::ForceUncacheable),
        ArgumentRule::new("--serialize-diagnostics", ValueShape::NextToken, Tag::PassThrough),
        ArgumentRule::new("--sysroot", ValueShape::NextToken, Tag::PassThrough),
        ArgumentRule::new("-A", ValueShape::NextToken, Tag::PassThrough),
        ArgumentRule::new("-B", ValueShape::JoinedOrNext, Tag::PassThrough),
        ArgumentRule::new("-D", ValueShape::JoinedOrNext, Tag::PassThrough),
        ArgumentRule::new("-E", ValueShape::NoValue, Tag::ForceUncacheable),
        ArgumentRule::new("-F", ValueShape::JoinedOrNext, Tag::Preprocessor),
        ArgumentRule::new("-G", ValueShape::NextToken, Tag::PassThrough),
        ArgumentRule::new("-I", ValueShape::JoinedOrNext, Tag::Preprocessor),
        ArgumentRule::new("-L", ValueShape::NextToken, Tag::PassThrough),
        ArgumentRule::new("-M", ValueShape::NoValue, Tag::ForceUncacheable),
        ArgumentRule::new("-MD", ValueShape::NoValue, Tag::Preprocessor),
        ArgumentRule::new("-MF", ValueShape::NextToken, Tag::Preprocessor),
        ArgumentRule::new("-MM", ValueShape::NoValue, Tag::ForceUncacheable),
        ArgumentRule::new("-MMD", ValueShape::NoValue, Tag::Preprocessor),
        ArgumentRule::new("-MP", ValueShape::NoValue, Tag::Preprocessor),
        ArgumentRule::new("-MQ", ValueShape::NextToken, Tag::Preprocessor),
        ArgumentRule::new("-MT", ValueShape::NextToken, Tag::Preprocessor),
        ArgumentRule::new("-P", ValueShape::NoValue, Tag::ForceUncacheable),
        ArgumentRule::new("-U", ValueShape::JoinedOrNext, Tag::PassThrough),
        ArgumentRule::new("-V", ValueShape::NextToken, Tag::PassThrough),
        ArgumentRule::new("-Xassembler", ValueShape::NextToken, Tag::PassThrough),
        ArgumentRule::new("-Xlinker", ValueShape::NextToken, Tag::PassThrough),
        ArgumentRule::new("-Xpreprocessor", ValueShape::NextToken, Tag::Preprocessor),
        ArgumentRule::new("-arch", ValueShape::NextToken, Tag::PassThrough),
        ArgumentRule::new("-aux-info", ValueShape::NextToken, Tag::PassThrough),
        ArgumentRule::new("-b", ValueShape::NextToken, Tag::PassThrough),
        ArgumentRule::new("-c", ValueShape::NoValue, Tag::Compile),
        ArgumentRule::new("-fdiagnostics-color", ValueShape::JoinedWith('='), Tag::ColorChoice),
        ArgumentRule::new("-fno-diagnostics-color", ValueShape::NoValue, Tag::ColorOff),
        ArgumentRule::new("-fno-working-directory", ValueShape::NoValue, Tag::Preprocessor),
        ArgumentRule::new("-fplugin=libcc1plugin", ValueShape::NoValue, Tag::ForceUncacheable),
        ArgumentRule::new("-fprofile-arcs", ValueShape::NoValue, Tag::PassThrough),
        ArgumentRule::new("-fprofile-generate", ValueShape::NoValue, Tag::PassThrough),
        ArgumentRule::new("-fprofile-use", ValueShape::Joined, Tag::ForceUncacheable),
        ArgumentRule::new("-frepo", ValueShape::NoValue, Tag::ForceUncacheable),
        ArgumentRule::new("-fsyntax-only", ValueShape::NoValue, Tag::ForceUncacheable),
        ArgumentRule::new("-ftest-coverage", ValueShape::NoValue, Tag::Coverage),
        ArgumentRule::new("-fworking-directory", ValueShape::NoValue, Tag::Preprocessor),
        ArgumentRule::new("-gsplit-dwarf", ValueShape::NoValue, Tag::SplitDwarf),
        ArgumentRule::new("-idirafter", ValueShape::JoinedOrNext, Tag::Preprocessor),
        ArgumentRule::new("-iframework", ValueShape::JoinedOrNext, Tag::Preprocessor),
        ArgumentRule::new("-imacros", ValueShape::JoinedOrNext, Tag::Preprocessor),
        ArgumentRule::new("-imultilib", ValueShape::JoinedOrNext, Tag::Preprocessor),
        ArgumentRule::new("-include", ValueShape::JoinedOrNext, Tag::Preprocessor),
        ArgumentRule::new("-install_name", ValueShape::NextToken, Tag::PassThrough),
        ArgumentRule::new("-iprefix", ValueShape::JoinedOrNext, Tag::Preprocessor),
        ArgumentRule::new("-iquote", ValueShape::JoinedOrNext, Tag::Preprocessor),
        ArgumentRule::new("-isysroot", ValueShape::JoinedOrNext, Tag::Preprocessor),
        ArgumentRule::new("-isystem", ValueShape::JoinedOrNext, Tag::Preprocessor),
        ArgumentRule::new("-iwithprefix", ValueShape::JoinedOrNext, Tag::Preprocessor),
        ArgumentRule::new("-iwithprefixbefore", ValueShape::JoinedOrNext, Tag::Preprocessor),
        ArgumentRule::new("-nostdinc", ValueShape::NoValue, Tag::Preprocessor),
        ArgumentRule::new("-nostdinc++", ValueShape::NoValue, Tag::Preprocessor),
        ArgumentRule::new("-o", ValueShape::JoinedOrNext, Tag::Output),
        ArgumentRule::new("-remap", ValueShape::NoValue, Tag::Preprocessor),
        ArgumentRule::new("-save-temps", ValueShape::NoValue, Tag::ForceUncacheable),
        ArgumentRule::new("-stdlib", ValueShape::JoinedWith('='), Tag::Preprocessor),
        ArgumentRule::new("-trigraphs", ValueShape::NoValue, Tag::Preprocessor),
        ArgumentRule::new("-u", ValueShape::JoinedOrNext, Tag::PassThrough),
        ArgumentRule::new("-x", ValueShape::JoinedOrNext, Tag::Language),
        ArgumentRule::new("@", ValueShape::Joined, Tag::ForceUncacheable),
    ];
    assert(rules.deep_view() =~= gcc_rules_view());
    rules
}

/// The rules that Clang adds to those of its family, or replaces in them.
pub fn clang_rules() -> (r: Vec<ArgumentRule>)
    ensures
        r.deep_view() == clang_rules_view(),
{
    let rules = vec![
        ArgumentRule::new("--serialize-diagnostics", ValueShape::NextToken, Tag::PassThrough),
        ArgumentRule::new("--target", ValueShape::NextToken, Tag::PassThrough),
        ArgumentRule::new("-Xclang", ValueShape::NextToken, Tag::WrapperForward),
        ArgumentRule::new("-add-plugin", ValueShape::NextToken, Tag::PassThrough),
        ArgumentRule::new("-fcolor-diagnostics", ValueShape::NoValue, Tag::ColorOn),
        ArgumentRule::new("-fcxx-modules", ValueShape::NoValue, Tag::ForceUncacheable),
        ArgumentRule::new("-fdebug-compilation-dir", ValueShape::NextToken, Tag::PassThrough),
        ArgumentRule::new("-fmodules", ValueShape::NoValue, Tag::ForceUncacheable),
        ArgumentRule::new("-fno-color-diagnostics", ValueShape::NoValue, Tag::ColorOff),
        ArgumentRule::new("-fplugin", ValueShape::JoinedWithOrNext('='), Tag::ExtraHashFile),
        ArgumentRule::new("-fprofile-instr-generate", ValueShape::NoValue, Tag::PassThrough),
        ArgumentRule::new("-fprofile-instr-use", ValueShape::Joined, Tag::ForceUncacheable),
        ArgumentRule::new("-gcc-toolchain", ValueShape::NextToken, Tag::PassThrough),
        ArgumentRule::new("-include-pch", ValueShape::JoinedOrNext, Tag::Preprocessor),
        ArgumentRule::new("-load", ValueShape::NextToken, Tag::ExtraHashFile),
        ArgumentRule::new("-mllvm", ValueShape::NextToken, Tag::PassThrough),
        ArgumentRule::new("-target", ValueShape::NextToken, Tag::PassThrough),
        ArgumentRule::new("-verify", ValueShape::NoValue, Tag::Preprocessor),
    ];
    assert(rules.deep_view() =~= clang_rules_view());
    rules
}

/// The rules of the GCC family are written in dictionary order.
#[verifier::rlimit(30)]
pub proof fn lemma_gcc_rules_ascend()
    ensures
        ascending(gcc_rules_view()),
{
    let rules = gcc_rules_view();
    reveal_strlit("-");
    reveal_strlit("--coverage");
    reveal_strlit("--param");
    reveal_strlit("--save-temps");
    reveal_strlit("--serialize-diagnostics");
    reveal_strlit("--sysroot");
    reveal_strlit("-A");
    reveal_strlit("-B");
    reveal_strlit("-D");
    reveal_strlit("-E");
    reveal_strlit("-F");
    reveal_strlit("-G");
    reveal_strlit("-I");
    reveal_strlit("-L");
    reveal_strlit("-M");
    reveal_strlit("-MD");
    reveal_strlit("-MF");
    reveal_strlit("-MM");
    reveal_strlit("-MMD");
    reveal_strlit("-MP");
    reveal_strlit("-MQ");
    reveal_strlit("-MT");
    reveal_strlit("-P");
    reveal_strlit("-U");
    reveal_strlit("-V");
    reveal_strlit("-Xassembler");
    reveal_strlit("-Xlinker");
    reveal_strlit("-Xpreprocessor");
    reveal_strlit("-arch");
    reveal_strlit("-aux-info");
    reveal_strlit("-b");
    reveal_strlit("-c");
    reveal_strlit("-fdiagnostics-color");
    reveal_strlit("-fno-diagnostics-color");
    reveal_strlit("-fno-working-directory");
    reveal_strlit("-fplugin=libcc1plugin");
    reveal_strlit("-fprofile-arcs");
    reveal_strlit("-fprofile-generate");
    reveal_strlit("-fprofile-use");
    reveal_strlit("-frepo");
    reveal_strlit("-fsyntax-only");
    reveal_strlit("-ftest-coverage");
    reveal_strlit("-fworking-directory");
    reveal_strlit("-gsplit-dwarf");
    reveal_strlit("-idirafter");
    reveal_strlit("-iframework");
    reveal_strlit("-imacros");
    reveal_strlit("-imultilib");
    reveal_strlit("-include");
    reveal_strlit("-install_name");
    reveal_strlit("-iprefix");
    reveal_strlit("-iquote");
    reveal_strlit("-isysroot");
    reveal_strlit("-isystem");
    reveal_strlit("-iwithprefix");
    reveal_strlit("-iwithprefixbefore");
    reveal_strlit("-nostdinc");
    reveal_strlit("-nostdinc++");
    reveal_strlit("-o");
    reveal_strlit("-remap");
    reveal_strlit("-save-temps");
    reveal_strlit("-stdlib");
    reveal_strlit("-trigraphs");
    reveal_strlit("-u");
    reveal_strlit("-x");
    reveal_strlit("@");
    lemma_rises(rules, 0, 1);
    lemma_rises(rules, 1, 2);
    lemma_rises(rules, 2, 2);
    lemma_rises(rules, 3, 3);
    lemma_rises(rules, 4, 3);
    lemma_rises(rules, 5, 1);
    lemma_rises(rules, 6, 1);
    lemma_rises(rules, 7, 1);
    lemma_rises(rules, 8, 1);
    lemma_rises(rules, 9, 1);
    lemma_rises(rules, 10, 1);
    lemma_rises(rules, 11, 1);
    lemma_rises(rules, 12, 1);
    lemma_rises(rules, 13, 1);
    lemma_rises(rules, 14, 2);
    lemma_rises(rules, 15, 2);
    lemma_rises(rules, 16, 2);
    lemma_rises(rules, 17, 3);
    lemma_rises(rules, 18, 2);
    lemma_rises(rules, 19, 2);
    lemma_rises(rules, 20, 2);
    lemma_rises(rules, 21, 1);
    lemma_rises(rules, 22, 1);
    lemma_rises(rules, 23, 1);
    lemma_rises(rules, 24, 1);
    lemma_rises(rules, 25, 2);
    lemma_rises(rules, 26, 2);
    lemma_rises(rules, 27, 1);
    lemma_rises(rules, 28, 2);
    lemma_rises(rules, 29, 1);
    lemma_rises(rules, 30, 1);
    lemma_rises(rules, 31, 1);
    lemma_rises(rules, 32, 2);
    lemma_rises(rules, 33, 5);
    lemma_rises(rules, 34, 2);
    lemma_rises(rules, 35, 3);
    lemma_rises(rules, 36, 10);
    lemma_rises(rules, 37, 10);
    lemma_rises(rules, 38, 2);
    lemma_rises(rules, 39, 2);
    lemma_rises(rules, 40, 2);
    lemma_rises(rules, 41, 2);
    lemma_rises(rules, 42, 1);
    lemma_rises(rules, 43, 1);
    lemma_rises(rules, 44, 2);
    lemma_rises(rules, 45, 2);
    lemma_rises(rules, 46, 3);
    lemma_rises(rules, 47, 2);
    lemma_rises(rules, 48, 3);
    lemma_rises(rules, 49, 2);
    lemma_rises(rules, 50, 2);
    lemma_rises(rules, 51, 2);
    lemma_rises(rules, 52, 5);
    lemma_rises(rules, 53, 2);
    lemma_rises(rules, 54, 12);
    lemma_rises(rules, 55, 1);
    lemma_rises(rules, 56, 9);
    lemma_rises(rules, 57, 1);
    lemma_rises(rules, 58, 1);
    lemma_rises(rules, 59, 1);
    lemma_rises(rules, 60, 2);
    lemma_rises(rules, 61, 1);
    lemma_rises(rules, 62, 1);
    lemma_rises(rules, 63, 1);
    lemma_rises(rules, 64, 0);
}

/// Clang's own rules are written in dictionary order.
pub proof fn lemma_clang_rules_ascend()
    ensures
        ascending(clang_rules_view()),
{
    let rules = clang_rules_view();
    reveal_strlit("--serialize-diagnostics");
    reveal_strlit("--target");
    reveal_strlit("-Xclang");
    reveal_strlit("-add-plugin");
    reveal_strlit("-fcolor-diagnostics");
    reveal_strlit("-fcxx-modules");
    reveal_strlit("-fdebug-compilation-dir");
    reveal_strlit("-fmodules");
    reveal_strlit("-fno-color-diagnostics");
    reveal_strlit("-fplugin");
    reveal_strlit("-fprofile-instr-generate");
    reveal_strlit("-fprofile-instr-use");
    reveal_strlit("-gcc-toolchain");
    reveal_strlit("-include-pch");
    reveal_strlit("-load");
    reveal_strlit("-mllvm");
    reveal_strlit("-target");
    reveal_strlit("-verify");
    lemma_rises(rules, 0, 2);
    lemma_rises(rules, 1, 1);
    lemma_rises(rules, 2, 1);
    lemma_rises(rules, 3, 1);
    lemma_rises(rules, 4, 3);
    lemma_rises(rules, 5, 2);
    lemma_rises(rules, 6, 2);
    lemma_rises(rules, 7, 2);
    lemma_rises(rules, 8, 2);
    lemma_rises(rules, 9, 3);
    lemma_rises(rules, 10, 16);
    lemma_rises(rules, 11, 1);
    lemma_rises(rules, 12, 1);
    lemma_rises(rules, 13, 1);
    lemma_rises(rules, 14, 1);
    lemma_rises(rules, 15, 1);
    lemma_rises(rules, 16, 1);
}

/// Clang's own rules and the rules of its family give no spelling two
/// shapes: each of Clang's rules falls between two neighbours in the family's
/// list, or has there the shape that the family gives its spelling.
pub proof fn lemma_clang_rules_agree()
    ensures
        !conflicting(clang_rules_view() + gcc_rules_view()),
{
    let overlay = clang_rules_view();
    let base = gcc_rules_view();
    lemma_gcc_rules_ascend();
    lemma_clang_rules_ascend();
    lemma_ascending_is_distinct(base);
    reveal_strlit("--sysroot");
    reveal_strlit("--target");
    reveal_strlit("-A");
    reveal_strlit("-Xassembler");
    reveal_strlit("-Xclang");
    reveal_strlit("-Xlinker");
    reveal_strlit("-Xpreprocessor");
    reveal_strlit("-add-plugin");
    reveal_strlit("-arch");
    reveal_strlit("-c");
    reveal_strlit("-fcolor-diagnostics");
    reveal_strlit("-fcxx-modules");
    reveal_strlit("-fdebug-compilation-dir");
    reveal_strlit("-fdiagnostics-color");
    reveal_strlit("-fmodules");
    reveal_strlit("-fno-color-diagnostics");
    reveal_strlit("-fno-diagnostics-color");
    reveal_strlit("-fno-working-directory");
    reveal_strlit("-fplugin");
    reveal_strlit("-fplugin=libcc1plugin");
    reveal_strlit("-fprofile-generate");
    reveal_strlit("-fprofile-instr-generate");
    reveal_strlit("-fprofile-instr-use");
    reveal_strlit("-fprofile-use");
    reveal_strlit("-fworking-directory");
    reveal_strlit("-gcc-toolchain");
    reveal_strlit("-gsplit-dwarf");
    reveal_strlit("-include");
    reveal_strlit("-include-pch");
    reveal_strlit("-install_name");
    reveal_strlit("-iwithprefixbefore");
    reveal_strlit("-load");
    reveal_strlit("-mllvm");
    reveal_strlit("-nostdinc");
    reveal_strlit("-stdlib");
    reveal_strlit("-target");
    reveal_strlit("-trigraphs");
    reveal_strlit("-u");
    reveal_strlit("-verify");
    reveal_strlit("-x");
    lemma_present_agrees(overlay[0], base, 4);
    lemma_falls_between(base, overlay[1], 6, 2, 1);
    lemma_falls_between(base, overlay[2], 26, 2, 2);
    lemma_falls_between(base, overlay[3], 28, 1, 2);
    lemma_falls_between(base, overlay[4], 32, 1, 2);
    lemma_falls_between(base, overlay[5], 32, 1, 2);
    lemma_falls_between(base, overlay[6], 32, 1, 3);
    lemma_falls_between(base, overlay[7], 33, 2, 2);
    lemma_falls_between(base, overlay[8], 33, 2, 5);
    lemma_falls_between(base, overlay[9], 35, 2, 8);
    lemma_falls_between(base, overlay[10], 38, 10, 10);
    lemma_falls_between(base, overlay[11], 38, 10, 10);
    lemma_falls_between(base, overlay[12], 43, 1, 2);
    lemma_falls_between(base, overlay[13], 49, 8, 3);
    lemma_falls_between(base, overlay[14], 56, 1, 1);
    lemma_falls_between(base, overlay[15], 56, 1, 1);
    lemma_falls_between(base, overlay[16], 62, 1, 2);
    lemma_falls_between(base, overlay[17], 64, 1, 1);
    lemma_layers_agree(overlay, base);
}

/// The rules of the GCC family give no spelling two shapes.
pub proof fn lemma_gcc_rules_agree()
    ensures
        !conflicting(gcc_rules_view()),
{
    lemma_gcc_rules_ascend();
    lemma_ascending_is_distinct(gcc_rules_view());
}

} // verus!
