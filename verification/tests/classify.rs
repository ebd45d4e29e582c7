use compiler_args::clang::{effective_table, Clang, Dialect};
use compiler_args::classify::Bucket;
use compiler_args::outcome::{ColorMode, Language, Outcome, ParsedArguments};
use compiler_args::parse::{parse_arguments, resolve, scan_unit, Progress, Scanned, Unit, UnitEffect};
use compiler_args::rules::{ArgumentRule, Tag, ValueShape};
use compiler_args::table::RuleTable;

fn strings(items: &[&str]) -> Vec<String> {
    items.iter().map(|s| s.to_string()).collect()
}

fn classify_in(arguments: &[&str], cwd: &str) -> Outcome {
    Clang::new().parse_arguments(&strings(arguments), cwd)
}

fn classify(arguments: &[&str]) -> Outcome {
    classify_in(arguments, ".")
}

fn accepted(arguments: &[&str]) -> ParsedArguments {
    match classify(arguments) {
        Outcome::Parsed(a) => a,
        o => panic!("not accepted: {:?}", o),
    }
}

fn cannot_cache(reason: &str, detail: Option<&str>) -> Outcome {
    Outcome::CannotCache(reason.to_string(), detail.map(|d| d.to_string()))
}

#[test]
fn no_compile_flag_is_no_compilation() {
    assert_eq!(Outcome::NotCompilation, classify(&["foo.c", "-o", "foo"]));
    assert_eq!(Outcome::NotCompilation, classify(&["--version"]));
    assert_eq!(Outcome::NotCompilation, classify(&[]));
}

#[test]
fn a_second_source_file_is_refused() {
    assert_eq!(
        cannot_cache("multiple input files", None),
        classify(&["-c", "foo.c", "bar.c", "-o", "foo.o"])
    );
    assert_eq!(
        cannot_cache("multiple input files", None),
        classify(&["a.c", "b.c", "c.c", "-c"])
    );
}

#[test]
fn what_does_not_compile_is_no_compilation_whatever_it_holds() {
    assert_eq!(Outcome::NotCompilation, classify(&["foo.o", "bar.o", "-o", "prog"]));
    assert_eq!(Outcome::NotCompilation, classify(&["foo.c", "bar.c"]));
    assert_eq!(Outcome::NotCompilation, classify(&["foo.rs"]));
    assert_eq!(Outcome::NotCompilation, classify(&["-o", "prog"]));
}

#[test]
fn the_number_of_source_files_is_judged_before_the_language() {
    assert_eq!(cannot_cache("multiple input files", None), classify(&["-c", "a.rs", "b.rs"]));
    assert_eq!(cannot_cache("unsupported source language", None), classify(&["-c", "a.rs"]));
    assert_eq!(cannot_cache("-E", None), classify(&["-c", "a.rs", "b.rs", "-E"]));
    assert_eq!(
        cannot_cache("argument parse", Some("Unexpected end of args")),
        classify(&["a.rs", "b.rs", "-o"])
    );
}

#[test]
fn a_missing_source_file_is_refused() {
    assert_eq!(cannot_cache("no input file", None), classify(&["-c", "-o", "foo.o"]));
    assert_eq!(cannot_cache("no input file", None), classify(&["-c"]));
}

#[test]
fn an_unknown_extension_is_refused() {
    assert_eq!(
        cannot_cache("unsupported source language", None),
        classify(&["-c", "foo.rs", "-o", "foo.o"])
    );
    assert_eq!(cannot_cache("unsupported source language", None), classify(&["-c", "foo"]));
}

#[test]
fn a_language_flag_overrides_the_extension() {
    let a = accepted(&["-c", "foo.c", "-x", "c++"]);
    assert_eq!(Language::Cxx, a.language);
    let a = accepted(&["-xobjective-c", "-c", "foo.h"]);
    assert_eq!(Language::ObjectiveC, a.language);
    assert_eq!("foo.h", a.input);
    assert!(a.common_args.is_empty());
    assert!(a.preprocessor_args.is_empty());
}

#[test]
fn an_unknown_language_name_is_refused() {
    assert_eq!(cannot_cache("-x", None), classify(&["-c", "foo.c", "-x", "fortran"]));
    assert_eq!(cannot_cache("-x", None), classify(&["-xfortran", "-c", "foo.c"]));
}

#[test]
fn a_flag_without_its_value_is_refused() {
    let end = cannot_cache("argument parse", Some("Unexpected end of args"));
    assert_eq!(end, classify(&["-c", "foo.c", "-o"]));
    assert_eq!(end, classify(&["-c", "foo.c", "-arch"]));
    assert_eq!(end, classify(&["-c", "foo.c", "-I"]));
    assert_eq!(end, classify(&["-c", "foo.c", "-Xclang"]));
    assert_eq!(end, classify(&["-c", "foo.c", "-Xclang", "-load", "-Xclang"]));
}

#[test]
fn the_wrapper_must_stand_before_a_forwarded_value() {
    assert_eq!(
        cannot_cache("argument parse", Some("Expected -Xclang")),
        classify(&["-c", "foo.c", "-Xclang", "-load", "plugin.so"])
    );
    assert_eq!(
        cannot_cache("argument parse", Some("Expected -Xclang")),
        classify(&["-c", "foo.c", "-Xclang", "-load", "-Xclangs", "plugin.so"])
    );
}

#[test]
fn only_arguments_that_stay_can_be_forwarded() {
    assert_eq!(cannot_cache("-fmodules", None), classify(&["-c", "foo.c", "-Xclang", "-fmodules"]));
    assert_eq!(cannot_cache("-c", None), classify(&["foo.c", "-Xclang", "-c"]));
    assert_eq!(
        cannot_cache("-o", None),
        classify(&["-c", "foo.c", "-Xclang", "-o", "-Xclang", "foo.o"])
    );
    assert_eq!(cannot_cache("-x", None), classify(&["-c", "foo.c", "-Xclang", "-xc"]));
    assert_eq!(
        cannot_cache("-Xclang", None),
        classify(&["-c", "foo.c", "-Xclang", "-Xclang", "-Xclang", "-verify"])
    );
    assert_eq!(
        cannot_cache("-gsplit-dwarf", None),
        classify(&["-c", "foo.c", "-Xclang", "-gsplit-dwarf"])
    );
    assert_eq!(
        cannot_cache("--coverage", None),
        classify(&["-c", "foo.c", "-Xclang", "--coverage"])
    );
    assert_eq!(
        cannot_cache("Can't handle Raw arguments with -Xclang", None),
        classify(&["-c", "foo.c", "-Xclang", "@file"])
    );
    assert_eq!(
        cannot_cache("Can't handle Raw arguments with -Xclang", None),
        classify(&["-c", "foo.c", "-Xclang", ""])
    );
}

#[test]
fn a_forwarded_argument_is_kept_as_written() {
    let a = accepted(&["-c", "foo.c", "-Xclang", "-Iinc", "-Xclang", "-I", "-Xclang", "dir"]);
    assert_eq!(strings(&["-Xclang", "-Iinc", "-Xclang", "-I", "-Xclang", "dir"]), a.common_args);
    assert!(a.preprocessor_args.is_empty());

    let a = accepted(&["-c", "foo.c", "-Iinc", "-Xclang", "-verify", "-I", "dir"]);
    assert_eq!(strings(&["-Xclang", "-verify"]), a.common_args);
    assert_eq!(strings(&["-Iinc", "-Idir"]), a.preprocessor_args);

    let a = accepted(&["-Xclang", "-fplugin=p.so", "-c", "foo.c", "-Xclang", "-fcolor-diagnostics"]);
    assert_eq!(strings(&["-Xclang", "-fplugin=p.so", "-Xclang", "-fcolor-diagnostics"]), a.common_args);
    assert_eq!(strings(&["p.so"]), a.extra_hash_files);
    assert_eq!(ColorMode::On, a.color_mode);
}

#[test]
fn the_first_flag_that_forbids_caching_is_the_reason() {
    assert_eq!(cannot_cache("-E", None), classify(&["-E", "foo.c", "-fmodules"]));
    assert_eq!(cannot_cache("-fmodules", None), classify(&["-fmodules", "-E", "foo.c"]));
    assert_eq!(cannot_cache("@", None), classify(&["-c", "foo.c", "@args.txt", "-E"]));
    assert_eq!(
        cannot_cache("-fprofile-instr-use", None),
        classify(&["-c", "foo.c", "-fprofile-instr-use=prof.data"])
    );
    assert_eq!(cannot_cache("-fprofile-use", None), classify(&["-c", "foo.c", "-fprofile-use"]));
    assert_eq!(cannot_cache("-", None), classify(&["-c", "-"]));
    assert_eq!(
        cannot_cache("-fplugin=libcc1plugin", None),
        classify(&["-c", "foo.c", "-fplugin=libcc1plugin"])
    );
    assert_eq!(cannot_cache("-E", None), classify(&["-c", "foo.c", "bar.c", "-E"]));
    assert_eq!(cannot_cache("-E", None), classify(&["foo.c", "-E"]));
}

#[test]
fn an_unknown_flag_does_not_take_a_value() {
    let a = accepted(&["-c", "foo.c", "-fabc", "-Wall"]);
    assert_eq!(strings(&["-fabc", "-Wall"]), a.common_args);
    assert_eq!(
        cannot_cache("multiple input files", None),
        classify(&["-c", "foo.c", "-fabc", "value"])
    );
    let a = accepted(&["-c", "-fabc", "value.c"]);
    assert_eq!("value.c", a.input);
    assert_eq!(strings(&["-fabc"]), a.common_args);
}

#[test]
fn the_last_output_wins() {
    let a = accepted(&["-c", "foo.c", "-o", "a.o", "-ob.o"]);
    assert_eq!(Some(&"b.o".to_string()), a.outputs.get("obj"));
    assert_eq!(1, a.outputs.len());
    let a = accepted(&["-c", "foo.c", "-ob.o", "-o", "a.o"]);
    assert_eq!(Some(&"a.o".to_string()), a.outputs.get("obj"));
}

#[test]
fn the_object_file_is_named_after_the_source() {
    let a = accepted(&["-c", "src/foo.c"]);
    assert_eq!(Some(&"foo.o".to_string()), a.outputs.get("obj"));
    assert_eq!("src/foo.c", a.input);
    let a = accepted(&["-c", "foo", "-x", "c"]);
    assert_eq!(Some(&"foo.o".to_string()), a.outputs.get("obj"));
}

#[test]
fn debug_and_coverage_files_stand_beside_the_object_file() {
    let a = accepted(&["-c", "foo.c", "-gsplit-dwarf", "-o", "out/foo.o"]);
    assert_eq!(2, a.outputs.len());
    assert_eq!(Some(&"out/foo.dwo".to_string()), a.outputs.get("dwo"));
    assert_eq!(None, a.outputs.get("gcno"));
    assert_eq!(strings(&["-gsplit-dwarf"]), a.common_args);

    let a = accepted(&["-c", "foo.c", "--coverage", "-ftest-coverage", "-gsplit-dwarf"]);
    assert_eq!(3, a.outputs.len());
    assert_eq!(Some(&"foo.o".to_string()), a.outputs.get("obj"));
    assert_eq!(Some(&"foo.dwo".to_string()), a.outputs.get("dwo"));
    assert_eq!(Some(&"foo.gcno".to_string()), a.outputs.get("gcno"));
    assert_eq!(strings(&["--coverage", "-ftest-coverage", "-gsplit-dwarf"]), a.common_args);
}

#[test]
fn arguments_are_respelled_canonically() {
    let a = accepted(&[
        "-c", "foo.c", "-Iinc", "-I", "dir", "-includepre.h", "-include", "post.h", "-DA=1", "-D",
        "B", "-stdlib=libc++", "-fplugin=p.so", "-include-pch", "x.pch", "-include-pchy.pch",
    ]);
    assert_eq!(
        strings(&[
            "-Iinc", "-Idir", "-include", "pre.h", "-include", "post.h", "-stdlib=libc++",
            "-include-pch", "x.pch", "-include-pch", "y.pch",
        ]),
        a.preprocessor_args
    );
    assert_eq!(strings(&["-DA=1", "-DB", "-fplugin", "p.so"]), a.common_args);
    assert_eq!(strings(&["p.so"]), a.extra_hash_files);
}

#[test]
fn the_last_colour_flag_wins() {
    let a = accepted(&["-c", "foo.c", "-fcolor-diagnostics", "-fno-color-diagnostics"]);
    assert_eq!(ColorMode::Off, a.color_mode);
    assert_eq!(strings(&["-fcolor-diagnostics", "-fno-color-diagnostics"]), a.common_args);
    let a = accepted(&["-c", "foo.c", "-fno-diagnostics-color", "-fdiagnostics-color=always"]);
    assert_eq!(ColorMode::On, a.color_mode);
    let a = accepted(&["-c", "foo.c", "-fdiagnostics-color=always", "-fdiagnostics-color=never"]);
    assert_eq!(ColorMode::Off, a.color_mode);
    let a = accepted(&["-c", "foo.c", "-fcolor-diagnostics", "-fdiagnostics-color=auto"]);
    assert_eq!(ColorMode::Auto, a.color_mode);
    assert_eq!(strings(&["-fcolor-diagnostics", "-fdiagnostics-color=auto"]), a.common_args);
    let a = accepted(&["-c", "foo.c", "-fdiagnostics-color"]);
    assert_eq!(ColorMode::Auto, a.color_mode);
    assert_eq!(strings(&["-fdiagnostics-color"]), a.common_args);
}

#[test]
fn files_to_hash_are_seen_from_the_working_directory() {
    let in_dir = |cwd: &str, path: &str| match classify_in(&["-c", "foo.c", "-fplugin", path], cwd) {
        Outcome::Parsed(a) => a.extra_hash_files,
        o => panic!("not accepted: {:?}", o),
    };
    assert_eq!(strings(&["plugin.so"]), in_dir(".", "plugin.so"));
    assert_eq!(strings(&["plugin.so"]), in_dir("", "plugin.so"));
    assert_eq!(strings(&["/work/plugin.so"]), in_dir("/work", "plugin.so"));
    assert_eq!(strings(&["/work/plugin.so"]), in_dir("/work/", "plugin.so"));
    assert_eq!(strings(&["/opt/plugin.so"]), in_dir("/work", "/opt/plugin.so"));
    assert_eq!(strings(&["build/lib/plugin.so"]), in_dir("build", "lib/plugin.so"));
    assert_eq!("/work/", resolve("/work", ""));
    assert_eq!("a/b", resolve("a", "b"));
}

#[test]
fn every_token_is_accounted_for() {
    let tokens = [
        "-c", "-I", "inc", "foo.c", "-Wall", "-Xclang", "-load", "-Xclang", "p.so", "-o", "foo.o",
        "-Xclang", "-verify", "-xc",
    ];
    let arguments = strings(&tokens);
    let table = effective_table(Dialect::Clang);
    let mut pos = 0;
    let mut state = Progress::new();
    let mut common = Vec::new();
    let mut preprocessor = Vec::new();
    let mut widths = Vec::new();
    let mut buckets = Vec::new();
    while pos < arguments.len() {
        let unit = match scan_unit(table.rules(), &arguments, ".", pos) {
            Scanned::Unit(u) => u,
            Scanned::Refused(e) => panic!("refused: {:?}", e),
        };
        widths.push(1 + unit.extra);
        buckets.push(unit.bucket);
        match unit.bucket {
            Bucket::Common => common.extend(unit.rendered.clone()),
            Bucket::Preprocessor => preprocessor.extend(unit.rendered.clone()),
            _ => {}
        }
        pos += 1 + unit.extra;
        state.apply(unit);
    }
    assert_eq!(arguments.len(), pos);
    assert_eq!(vec![1, 2, 1, 1, 4, 2, 2, 1], widths);
    assert_eq!(
        vec![
            Bucket::Absorbed,
            Bucket::Preprocessor,
            Bucket::Input,
            Bucket::Common,
            Bucket::Common,
            Bucket::Output,
            Bucket::Common,
            Bucket::Absorbed,
        ],
        buckets
    );
    let parsed = match state.finish() {
        Outcome::Parsed(p) => p,
        o => panic!("not accepted: {:?}", o),
    };
    assert_eq!(common, parsed.common_args);
    assert_eq!(preprocessor, parsed.preprocessor_args);
    assert_eq!(
        strings(&["-Wall", "-Xclang", "-load", "-Xclang", "p.so", "-Xclang", "-verify"]),
        parsed.common_args
    );
    assert_eq!(strings(&["-Iinc"]), parsed.preprocessor_args);
    assert_eq!("foo.c", parsed.input);
    assert_eq!(Some(&"foo.o".to_string()), parsed.outputs.get("obj"));
    assert_eq!(Outcome::Parsed(parsed), Clang::new().parse_arguments(&arguments, "."));
}

#[test]
fn classifying_twice_gives_the_same_outcome() {
    let cases: [&[&str]; 5] = [
        &["-c", "foo.c", "-o", "foo.o", "-Xclang", "-load", "-Xclang", "plugin.so"],
        &["-c", "foo.c", "-fcxx-modules", "-o", "foo.o"],
        &["-c", "foo.c", "-o", "foo.o", "-Xclang", "-load"],
        &["foo.c"],
        &["-c", "foo.cxx", "-arch", "xyz", "-fabc", "-I", "include", "-o", "foo.o"],
    ];
    let clang = Clang::new();
    for case in cases {
        let first = clang.parse_arguments(&strings(case), ".");
        let second = clang.parse_arguments(&strings(case), ".");
        assert_eq!(first, second);
        assert_eq!(first, Clang::new().parse_arguments(&strings(case), "."));
        assert_eq!(first, clang.clone().parse_arguments(&strings(case), "."));
        assert_eq!(first, parse_arguments(clang.table(), &strings(case), "."));
    }
}

#[test]
fn the_dialects_differ_in_their_own_flags() {
    let gcc = effective_table(Dialect::Gcc);
    let clang = effective_table(Dialect::Clang);
    assert_eq!(66, gcc.len());
    assert_eq!(83, clang.len());
    let arguments = strings(&["-c", "foo.c", "-fmodules"]);
    assert_eq!(cannot_cache("-fmodules", None), parse_arguments(&clang, &arguments, "."));
    match parse_arguments(&gcc, &arguments, ".") {
        Outcome::Parsed(a) => assert_eq!(strings(&["-fmodules"]), a.common_args),
        o => panic!("not accepted: {:?}", o),
    }
    assert_eq!(Dialect::Clang, Clang::new().kind());
    assert_eq!(None, gcc.find("-Xclang"));
    assert_eq!(Some(2), clang.find("-Xclang"));
    assert_eq!(Some(0), clang.find("--serialize-diagnostics"));
}

#[test]
fn canonical_spellings() {
    let rules = vec![
        ArgumentRule::new("-c", ValueShape::NoValue, Tag::Compile),
        ArgumentRule::new("-n", ValueShape::NextToken, Tag::PassThrough),
        ArgumentRule::new("-j", ValueShape::Joined, Tag::PassThrough),
        ArgumentRule::new("-w", ValueShape::JoinedWith(','), Tag::PassThrough),
        ArgumentRule::new("-e", ValueShape::JoinedOrNext, Tag::PassThrough),
        ArgumentRule::new("-either", ValueShape::JoinedOrNext, Tag::PassThrough),
        ArgumentRule::new("-s", ValueShape::JoinedWithOrNext('='), Tag::PassThrough),
        ArgumentRule::new("-f", ValueShape::NoValue, Tag::PassThrough),
    ];
    let table = RuleTable::layered(&rules, &Vec::new()).unwrap();
    let common = |arguments: &[&str]| {
        let mut all = strings(&["-c", "a.c"]);
        all.extend(strings(arguments));
        match parse_arguments(&table, &all, ".") {
            Outcome::Parsed(a) => a.common_args,
            o => panic!("not accepted: {:?}", o),
        }
    };
    assert_eq!(strings(&["-f"]), common(&["-f"]));
    assert_eq!(strings(&["-n", "v"]), common(&["-n", "v"]));
    assert_eq!(strings(&["-jv"]), common(&["-jv"]));
    assert_eq!(strings(&["-j"]), common(&["-j"]));
    assert_eq!(strings(&["-w,v"]), common(&["-w,v"]));
    assert_eq!(strings(&["-w,"]), common(&["-w,"]));
    assert_eq!(strings(&["-ev"]), common(&["-ev"]));
    assert_eq!(strings(&["-ev"]), common(&["-e", "v"]));
    assert_eq!(strings(&["-either", "v"]), common(&["-eitherv"]));
    assert_eq!(strings(&["-either", "v"]), common(&["-either", "v"]));
    assert_eq!(strings(&["-s", "v"]), common(&["-s=v"]));
    assert_eq!(strings(&["-s", "v"]), common(&["-s", "v"]));
    assert_eq!(strings(&["-sv"]), common(&["-sv"]));
    assert_eq!(strings(&["-w"]), common(&["-w"]));
}

#[test]
fn of_several_source_files_the_first_is_kept() {
    let mut state = Progress::new();
    let file = |name: &str| Unit {
        extra: 0,
        bucket: Bucket::Input,
        rendered: strings(&[name]),
        effect: UnitEffect::Input(name.to_string()),
    };
    state.apply(file("a.c"));
    assert_eq!(Some("a.c".to_string()), state.input);
    assert!(!state.multiple_inputs);
    state.apply(file("b.c"));
    assert_eq!(Some("a.c".to_string()), state.input);
    assert!(state.multiple_inputs);
    state.compile = true;
    assert_eq!(cannot_cache("multiple input files", None), state.finish());
}

#[test]
fn an_unknown_flag_at_the_end_is_kept_and_changes_nothing_else() {
    let cases: [&[&str]; 3] = [
        &["-c", "foo.c", "-o", "foo.o"],
        &["-c", "foo.cxx", "-I", "include", "-Xclang", "-load", "-Xclang", "p.so", "-Wall"],
        &["-gsplit-dwarf", "-xc", "-c", "foo", "-fcolor-diagnostics"],
    ];
    for case in cases {
        let before = accepted(case);
        let mut longer = case.to_vec();
        longer.push("-funknown-flag");
        let after = accepted(&longer);
        let mut expected = before.clone();
        expected.common_args.push("-funknown-flag".to_string());
        assert_eq!(expected, after);
    }
}
