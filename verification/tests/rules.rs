use compiler_args::rules::{lookup, ArgumentRule, Tag, TokenForm, ValueShape};
use compiler_args::table::{ConfigurationError, RuleTable};

fn rule(spelling: &str, shape: ValueShape, tag: Tag) -> ArgumentRule {
    ArgumentRule::new(spelling, shape, tag)
}

fn inline(form: Option<TokenForm>) -> Option<String> {
    match form {
        Some(TokenForm::Inline(v)) => Some(v),
        _ => None,
    }
}

#[test]
fn a_flag_matches_exactly() {
    let r = rule("-c", ValueShape::NoValue, Tag::Compile);
    assert!(r.matches("-c"));
    assert!(!r.matches("-cfoo"));
    assert!(!r.matches("-"));
    assert!(matches!(r.form("-c"), Some(TokenForm::Plain)));
    assert!(r.form("-cfoo").is_none());
}

#[test]
fn a_separated_value_is_the_next_token() {
    let r = rule("-arch", ValueShape::NextToken, Tag::PassThrough);
    assert!(r.matches("-arch"));
    assert!(!r.matches("-archx86"));
    assert!(matches!(r.form("-arch"), Some(TokenForm::Next)));
    assert!(r.form("-archx86").is_none());
}

#[test]
fn a_joined_value_follows_the_spelling() {
    let r = rule("@", ValueShape::Joined, Tag::ForceUncacheable);
    assert!(r.matches("@file"));
    assert!(r.matches("@"));
    assert!(!r.matches("file@"));
    assert_eq!(Some("file".to_string()), inline(r.form("@file")));
    assert_eq!(Some("".to_string()), inline(r.form("@")));
}

#[test]
fn a_joined_value_may_need_its_separator() {
    let r = rule("-stdlib", ValueShape::JoinedWith('='), Tag::Preprocessor);
    assert!(r.matches("-stdlib=libc++"));
    assert!(r.matches("-stdlib="));
    assert!(!r.matches("-stdlib"));
    assert!(!r.matches("-stdliblibc++"));
    assert_eq!(Some("libc++".to_string()), inline(r.form("-stdlib=libc++")));
    assert_eq!(Some("".to_string()), inline(r.form("-stdlib=")));
    assert!(r.form("-stdlib").is_none());
}

#[test]
fn a_value_may_be_joined_or_next() {
    let r = rule("-I", ValueShape::JoinedOrNext, Tag::Preprocessor);
    assert!(matches!(r.form("-I"), Some(TokenForm::Next)));
    assert_eq!(Some("include".to_string()), inline(r.form("-Iinclude")));
    assert!(r.form("-i").is_none());

    let r = rule("-fplugin", ValueShape::JoinedWithOrNext('='), Tag::ExtraHashFile);
    assert!(matches!(r.form("-fplugin"), Some(TokenForm::Next)));
    assert_eq!(Some("p.so".to_string()), inline(r.form("-fplugin=p.so")));
    assert!(r.form("-fpluginp.so").is_none());
    assert!(r.matches("-fplugin"));
    assert!(r.matches("-fplugin=p.so"));
    assert!(!r.matches("-fpluginp.so"));
}

#[test]
fn the_longest_spelling_wins() {
    let rules = vec![
        rule("-include", ValueShape::JoinedOrNext, Tag::Preprocessor),
        rule("-i", ValueShape::Joined, Tag::PassThrough),
        rule("-include-pch", ValueShape::JoinedOrNext, Tag::Preprocessor),
    ];
    assert_eq!(Some(2), lookup(&rules, "-include-pch"));
    assert_eq!(Some(2), lookup(&rules, "-include-pchfile"));
    assert_eq!(Some(0), lookup(&rules, "-includefile"));
    assert_eq!(Some(0), lookup(&rules, "-include"));
    assert_eq!(Some(1), lookup(&rules, "-iquote"));
    assert_eq!(None, lookup(&rules, "-I"));
    assert_eq!(None, lookup(&rules, "include"));
    assert_eq!(None, lookup(&Vec::new(), "-c"));
}

#[test]
fn of_equal_spellings_the_first_wins() {
    let rules = vec![
        rule("-a", ValueShape::NoValue, Tag::PassThrough),
        rule("-a", ValueShape::NoValue, Tag::Preprocessor),
    ];
    assert_eq!(Some(0), lookup(&rules, "-a"));
}

#[test]
fn an_overlay_replaces_rules_of_the_base() {
    let base = vec![
        rule("-a", ValueShape::NextToken, Tag::PassThrough),
        rule("-b", ValueShape::NoValue, Tag::PassThrough),
    ];
    let overlay = vec![
        rule("-c", ValueShape::NoValue, Tag::Compile),
        rule("-a", ValueShape::NextToken, Tag::Preprocessor),
    ];
    let table = RuleTable::layered(&base, &overlay).unwrap();
    assert_eq!(3, table.len());
    assert_eq!(
        &vec![
            rule("-c", ValueShape::NoValue, Tag::Compile),
            rule("-a", ValueShape::NextToken, Tag::Preprocessor),
            rule("-b", ValueShape::NoValue, Tag::PassThrough),
        ],
        table.rules()
    );
    assert_eq!(Some(1), table.find("-a"));
    assert_eq!(None, table.find("-d"));
    assert_eq!(table, table.clone());
}

#[test]
fn one_spelling_with_two_shapes_is_an_error() {
    let base = vec![rule("-a", ValueShape::NextToken, Tag::PassThrough)];
    let overlay = vec![rule("-a", ValueShape::NoValue, Tag::PassThrough)];
    assert_eq!(
        Err(ConfigurationError { spelling: "-a".to_string() }),
        RuleTable::layered(&base, &overlay)
    );
    let twice = vec![
        rule("-b", ValueShape::NoValue, Tag::PassThrough),
        rule("-a", ValueShape::Joined, Tag::PassThrough),
        rule("-a", ValueShape::JoinedOrNext, Tag::PassThrough),
    ];
    assert_eq!(
        Err(ConfigurationError { spelling: "-a".to_string() }),
        RuleTable::layered(&twice, &Vec::new())
    );
    assert_eq!(
        Err(ConfigurationError { spelling: "-a".to_string() }),
        RuleTable::layered(&Vec::new(), &twice)
    );
}

#[test]
fn separators_of_one_spelling_must_agree() {
    let base = vec![rule("-a", ValueShape::JoinedWith('='), Tag::PassThrough)];
    let overlay = vec![rule("-a", ValueShape::JoinedWith(','), Tag::PassThrough)];
    assert!(RuleTable::layered(&base, &overlay).is_err());
    let overlay = vec![rule("-a", ValueShape::JoinedWith('='), Tag::Preprocessor)];
    assert_eq!(1, RuleTable::layered(&base, &overlay).unwrap().len());
}

#[test]
fn an_empty_table_is_allowed() {
    let table = RuleTable::layered(&Vec::new(), &Vec::new()).unwrap();
    assert_eq!(0, table.len());
    assert_eq!(None, table.find("-c"));
}
