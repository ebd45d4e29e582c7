use compiler_args::text::{
    chars_of, copy_range, extension, file_name, head_to, is_flag_like, joined, replace_extension,
    same_text, starts_with, starts_with_then, tail_from,
};

#[test]
fn chars_are_listed_in_order() {
    assert_eq!(vec!['-', 'I', 'é'], chars_of("-Ié"));
    assert!(chars_of("").is_empty());
}

#[test]
fn same_text_compares_characters() {
    assert!(same_text("-c", "-c"));
    assert!(!same_text("-c", "-C"));
    assert!(!same_text("-c", "-cc"));
    assert!(same_text("", ""));
}

#[test]
fn prefixes() {
    assert!(starts_with("-Iinclude", "-I"));
    assert!(starts_with("-I", "-I"));
    assert!(starts_with("-I", ""));
    assert!(!starts_with("-I", "-Iinclude"));
    assert!(!starts_with("-iquote", "-I"));
}

#[test]
fn prefixes_with_separator() {
    assert!(starts_with_then("-stdlib=libc++", "-stdlib", '='));
    assert!(starts_with_then("-stdlib=", "-stdlib", '='));
    assert!(!starts_with_then("-stdlib", "-stdlib", '='));
    assert!(!starts_with_then("-stdlibxlibc++", "-stdlib", '='));
    assert!(!starts_with_then("-std=c11", "-stdlib", '='));
}

#[test]
fn slices_count_characters() {
    assert_eq!("include", tail_from("-Iinclude", 2));
    assert_eq!("", tail_from("-I", 2));
    assert_eq!("é.c", tail_from("dé.c", 1));
    assert_eq!("-I", head_to("-Iinclude", 2));
    assert_eq!("dé", head_to("dé.c", 2));
    assert_eq!("-Iinclude", joined("-I", "include"));
}

#[test]
fn flags_begin_with_a_dash() {
    assert!(is_flag_like("-c"));
    assert!(is_flag_like("-"));
    assert!(!is_flag_like("foo.c"));
    assert!(!is_flag_like(""));
    assert!(!is_flag_like("@file"));
}

#[test]
fn extension_is_what_follows_the_last_dot_of_the_file_name() {
    assert_eq!(Some("c".to_string()), extension("foo.c"));
    assert_eq!(Some("gz".to_string()), extension("dir/foo.tar.gz"));
    assert_eq!(Some("".to_string()), extension("foo."));
    assert_eq!(None, extension("foo"));
    assert_eq!(None, extension("dir.d/foo"));
    assert_eq!(None, extension(".profile"));
    assert_eq!(None, extension("dir/.profile"));
    assert_eq!(None, extension(""));
}

#[test]
fn file_name_is_what_follows_the_last_slash() {
    assert_eq!("foo.c", file_name("foo.c"));
    assert_eq!("foo.c", file_name("src/lib/foo.c"));
    assert_eq!("", file_name("src/"));
    assert_eq!("foo.c", file_name("/foo.c"));
}

#[test]
fn replacing_the_extension() {
    assert_eq!("foo.o", replace_extension("foo.c", "o"));
    assert_eq!("out/foo.dwo", replace_extension("out/foo.o", "dwo"));
    assert_eq!("foo.o", replace_extension("foo", "o"));
    assert_eq!("out.d/foo.gcno", replace_extension("out.d/foo", "gcno"));
    assert_eq!(".profile.o", replace_extension(".profile", "o"));
    assert_eq!("foo.tar.o", replace_extension("foo.tar.gz", "o"));
}

#[test]
fn copying_a_range() {
    let texts: Vec<String> = ["a", "b", "c", "d"].iter().map(|s| s.to_string()).collect();
    assert_eq!(vec!["b".to_string(), "c".to_string()], copy_range(&texts, 1, 3));
    assert!(copy_range(&texts, 2, 2).is_empty());
    assert_eq!(texts, copy_range(&texts, 0, 4));
}
