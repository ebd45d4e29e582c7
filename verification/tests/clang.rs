use compiler_args::clang::Clang;
use compiler_args::outcome::{ColorMode, Language, Outcome, ParsedArguments};

fn strings(items: &[&str]) -> Vec<String> {
    items.iter().map(|s| s.to_string()).collect()
}

fn parse(arguments: &[&str]) -> Outcome {
    let arguments = strings(arguments);
    Clang::new().parse_arguments(&arguments, ".")
}

fn parses(arguments: &[&str]) -> ParsedArguments {
    match parse(arguments) {
        Outcome::Parsed(a) => a,
        o => panic!("Got unexpected parse result: {:?}", o),
    }
}

fn cannot_cache(reason: &str, detail: Option<&str>) -> Outcome {
    Outcome::CannotCache(reason.to_string(), detail.map(|d| d.to_string()))
}

#[test]
fn test_parse_arguments_simple() {
    let a = parses(&["-c", "foo.c", "-o", "foo.o"]);
    assert_eq!("foo.c", a.input);
    assert_eq!(Language::C, a.language);
    assert_eq!(Some(&"foo.o".to_string()), a.outputs.get("obj"));
    assert_eq!(1, a.outputs.len());
    assert!(a.preprocessor_args.is_empty());
    assert!(a.common_args.is_empty());
}

#[test]
fn test_parse_arguments_values() {
    let a = parses(&[
        "-c", "foo.cxx", "-arch", "xyz", "-fabc", "-I", "include", "-o", "foo.o", "-include",
        "file",
    ]);
    assert_eq!("foo.cxx", a.input);
    assert_eq!(Language::Cxx, a.language);
    assert_eq!(Some(&"foo.o".to_string()), a.outputs.get("obj"));
    assert_eq!(1, a.outputs.len());
    assert_eq!(strings(&["-Iinclude", "-include", "file"]), a.preprocessor_args);
    assert_eq!(strings(&["-arch", "xyz", "-fabc"]), a.common_args);
}

#[test]
fn test_parse_arguments_others() {
    parses(&["-c", "foo.c", "-B", "somewhere", "-o", "foo.o"]);
    parses(&["-c", "foo.c", "-target", "x86_64-apple-darwin11", "-o", "foo.o"]);
    parses(&["-c", "foo.c", "-gcc-toolchain", "somewhere", "-o", "foo.o"]);
}

#[test]
fn test_parse_arguments_clangmodules() {
    assert_eq!(
        cannot_cache("-fcxx-modules", None),
        parse(&["-c", "foo.c", "-fcxx-modules", "-o", "foo.o"])
    );
    assert_eq!(
        cannot_cache("-fmodules", None),
        parse(&["-c", "foo.c", "-fmodules", "-o", "foo.o"])
    );
}

#[test]
fn test_parse_xclang_invalid() {
    assert_eq!(
        cannot_cache("Can't handle Raw arguments with -Xclang", None),
        parse(&["-c", "foo.c", "-o", "foo.o", "-Xclang", "broken"])
    );
    assert_eq!(
        cannot_cache("Can't handle UnknownFlag arguments with -Xclang", None),
        parse(&["-c", "foo.c", "-o", "foo.o", "-Xclang", "-broken"])
    );
    assert_eq!(
        cannot_cache("argument parse", Some("Unexpected end of args")),
        parse(&["-c", "foo.c", "-o", "foo.o", "-Xclang", "-load"])
    );
}

#[test]
fn test_parse_xclang_load() {
    let a = parses(&[
        "-c", "foo.c", "-o", "foo.o", "-Xclang", "-load", "-Xclang", "plugin.so",
    ]);
    println!("A {:#?}", a);
    assert_eq!(strings(&["-Xclang", "-load", "-Xclang", "plugin.so"]), a.common_args);
    assert_eq!(strings(&["plugin.so"]), a.extra_hash_files);
}

#[test]
fn test_parse_xclang_add_plugin() {
    let a = parses(&[
        "-c", "foo.c", "-o", "foo.o", "-Xclang", "-add-plugin", "-Xclang", "foo",
    ]);
    assert_eq!(strings(&["-Xclang", "-add-plugin", "-Xclang", "foo"]), a.common_args);
}

#[test]
fn test_parse_xclang_verify() {
    let a = parses(&["-c", "foo.c", "-o", "foo.o", "-Xclang", "-verify"]);
    assert_eq!(strings(&["-Xclang", "-verify"]), a.common_args);
    assert!(a.preprocessor_args.is_empty());
}

#[test]
fn test_parse_fplugin() {
    let a = parses(&["-c", "foo.c", "-o", "foo.o", "-fplugin", "plugin.so"]);
    println!("A {:#?}", a);
    assert_eq!(strings(&["-fplugin", "plugin.so"]), a.common_args);
    assert_eq!(strings(&["plugin.so"]), a.extra_hash_files);
}

#[test]
fn test_parse_color_diags() {
    let a = parses(&["-c", "foo.c", "-o", "foo.o", "-fcolor-diagnostics"]);
    assert_eq!(a.color_mode, ColorMode::On);

    let a = parses(&["-c", "foo.c", "-o", "foo.o", "-fno-color-diagnostics"]);
    assert_eq!(a.color_mode, ColorMode::Off);

    let a = parses(&["-c", "foo.c", "-o", "foo.o"]);
    assert_eq!(a.color_mode, ColorMode::Auto);
}
