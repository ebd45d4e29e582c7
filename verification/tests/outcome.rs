use compiler_args::clang::Clang;
use compiler_args::commands::{compile_arguments, preprocessor_arguments};
use compiler_args::outcome::{ColorMode, Language, OutputMap, ParsedArguments};

fn strings(items: &[&str]) -> Vec<String> {
    items.iter().map(|s| s.to_string()).collect()
}

#[test]
fn languages_by_extension() {
    assert_eq!(Some(Language::C), Language::from_extension("c"));
    assert_eq!(Some(Language::Cxx), Language::from_extension("cc"));
    assert_eq!(Some(Language::Cxx), Language::from_extension("cpp"));
    assert_eq!(Some(Language::Cxx), Language::from_extension("cxx"));
    assert_eq!(Some(Language::ObjectiveC), Language::from_extension("m"));
    assert_eq!(Some(Language::ObjectiveCxx), Language::from_extension("mm"));
    assert_eq!(None, Language::from_extension("rs"));
    assert_eq!(None, Language::from_extension(""));
    assert_eq!(None, Language::from_extension("C"));
}

#[test]
fn languages_by_file_name() {
    assert_eq!(Some(Language::C), Language::from_file_name("foo.c"));
    assert_eq!(Some(Language::Cxx), Language::from_file_name("src/a.b/foo.cxx"));
    assert_eq!(Some(Language::ObjectiveCxx), Language::from_file_name("foo.c.mm"));
    assert_eq!(None, Language::from_file_name("foo"));
    assert_eq!(None, Language::from_file_name("src.c/foo"));
    assert_eq!(None, Language::from_file_name(".c"));
    assert_eq!(None, Language::from_file_name("foo.o"));
}

#[test]
fn languages_by_flag_value() {
    assert_eq!(Some(Language::C), Language::from_flag_value("c"));
    assert_eq!(Some(Language::Cxx), Language::from_flag_value("c++"));
    assert_eq!(Some(Language::ObjectiveC), Language::from_flag_value("objective-c"));
    assert_eq!(Some(Language::ObjectiveCxx), Language::from_flag_value("objective-c++"));
    assert_eq!(None, Language::from_flag_value("cxx"));
    assert_eq!(None, Language::from_flag_value("assembler"));
    assert_eq!(None, Language::from_flag_value(""));
}

#[test]
fn a_language_name_is_read_back() {
    for language in [Language::C, Language::Cxx, Language::ObjectiveC, Language::ObjectiveCxx] {
        assert_eq!(Some(language), Language::from_flag_value(language.name()));
    }
    assert_eq!("c++", Language::Cxx.name());
}

#[test]
fn colour_by_flag_value() {
    assert_eq!(ColorMode::On, ColorMode::from_flag_value("always"));
    assert_eq!(ColorMode::Off, ColorMode::from_flag_value("never"));
    assert_eq!(ColorMode::Auto, ColorMode::from_flag_value("auto"));
    assert_eq!(ColorMode::Auto, ColorMode::from_flag_value(""));
}

#[test]
fn outputs_are_found_by_kind() {
    let only = OutputMap { object: "foo.o".to_string(), split_dwarf: None, coverage_notes: None };
    assert_eq!(1, only.len());
    assert_eq!(Some(&"foo.o".to_string()), only.get("obj"));
    assert_eq!(None, only.get("dwo"));
    assert_eq!(None, only.get("gcno"));
    assert_eq!(None, only.get("exe"));

    let all = OutputMap {
        object: "foo.o".to_string(),
        split_dwarf: Some("foo.dwo".to_string()),
        coverage_notes: Some("foo.gcno".to_string()),
    };
    assert_eq!(3, all.len());
    assert_eq!(Some(&"foo.dwo".to_string()), all.get("dwo"));
    assert_eq!(Some(&"foo.gcno".to_string()), all.get("gcno"));
}

fn parsed() -> ParsedArguments {
    ParsedArguments {
        input: "foo.cc".to_string(),
        language: Language::Cxx,
        outputs: OutputMap { object: "out/foo.o".to_string(), split_dwarf: None, coverage_notes: None },
        preprocessor_args: strings(&["-Iinclude", "-include", "file"]),
        common_args: strings(&["-arch", "xyz"]),
        extra_hash_files: Vec::new(),
        color_mode: ColorMode::Auto,
    }
}

#[test]
fn arguments_for_preprocessing() {
    assert_eq!(
        strings(&["-x", "c++", "-E", "foo.cc", "-Iinclude", "-include", "file", "-arch", "xyz"]),
        preprocessor_arguments(&parsed())
    );
    assert_eq!(preprocessor_arguments(&parsed()), Clang::new().preprocess(&parsed()));
}

#[test]
fn arguments_for_compiling() {
    assert_eq!(
        strings(&[
            "-x", "c++", "-c", "foo.cc", "-o", "out/foo.o", "-Iinclude", "-include", "file",
            "-arch", "xyz",
        ]),
        compile_arguments(&parsed())
    );
    assert_eq!(compile_arguments(&parsed()), Clang::new().generate_compile_commands(&parsed()));
}
