use aux_svc::args::{ArgValue, Args};
use aux_svc::formatter::get_message;
use aux_svc::store::{BuildError, BundleStore, IoError, LoadedFile};

fn file(locale: &str, text: &str) -> LoadedFile {
    LoadedFile { locale: locale.to_string(), content: Some(text.to_string()) }
}

fn store_of(locale: &str, text: &str) -> BundleStore {
    BundleStore::build(&vec![file(locale, text)]).expect("the resource compiles")
}

fn arg(name: &str, value: ArgValue) -> Args {
    let mut args = Args::new();
    args.set(name, value);
    args
}

const ITEMS: &str = "items = {$count ->\n    [0] no items\n   *[other] {$count} items\n}\n";

#[test]
fn literal_only() {
    let store = store_of("en", "greeting = Hello!");
    assert_eq!(get_message(&store, "en", "greeting", None), Some("Hello!".to_string()));
}

#[test]
fn placeholder_with_argument() {
    let store = store_of("en", "greeting = Hello, {$name}!\n");
    let args = arg("name", ArgValue::Str("Ada".to_string()));
    assert_eq!(
        get_message(&store, "en", "greeting", Some(&args)),
        Some("Hello, Ada!".to_string())
    );
}

#[test]
fn placeholder_without_argument_stays_visible() {
    let store = store_of("en", "greeting = Hello, {$name}!\n");
    assert_eq!(
        get_message(&store, "en", "greeting", None),
        Some("Hello, {$name}!".to_string())
    );
    let other = arg("title", ArgValue::Str("Dr".to_string()));
    assert_eq!(
        get_message(&store, "en", "greeting", Some(&other)),
        Some("Hello, {$name}!".to_string())
    );
}

#[test]
fn selector_takes_matching_branch() {
    let store = store_of("en", ITEMS);
    let args = arg("count", ArgValue::Int(0));
    assert_eq!(get_message(&store, "en", "items", Some(&args)), Some("no items".to_string()));
}

#[test]
fn selector_falls_back_to_default() {
    let store = store_of("en", ITEMS);
    let args = arg("count", ArgValue::Int(5));
    assert_eq!(get_message(&store, "en", "items", Some(&args)), Some("5 items".to_string()));
}

#[test]
fn selector_without_argument_takes_default() {
    let store = store_of("en", ITEMS);
    assert_eq!(get_message(&store, "en", "items", None), Some("{$count} items".to_string()));
}

#[test]
fn missing_locale_gives_none() {
    let store = store_of("en", "greeting = Hello!");
    assert_eq!(get_message(&store, "fr", "greeting", None), None);
}

#[test]
fn locale_tags_are_compared_exactly() {
    let store = store_of("en", "greeting = Hello!");
    assert_eq!(get_message(&store, "EN", "greeting", None), None);
    assert_eq!(get_message(&store, "en-US", "greeting", None), None);
}

#[test]
fn missing_key_gives_none() {
    let store = store_of("en", "greeting = Hello!");
    assert_eq!(get_message(&store, "en", "farewell", None), None);
}

#[test]
fn empty_pattern_gives_none() {
    let store = store_of("en", "empty =\nblank =   \ngreeting = Hello!\n");
    assert_eq!(get_message(&store, "en", "empty", None), None);
    assert_eq!(get_message(&store, "en", "blank", None), None);
    assert_eq!(get_message(&store, "en", "greeting", None), Some("Hello!".to_string()));
}

#[test]
fn duplicate_key_last_definition_wins() {
    let store = store_of("en", "greeting = first\nother = x\ngreeting = second\n");
    assert_eq!(get_message(&store, "en", "greeting", None), Some("second".to_string()));
    assert_eq!(get_message(&store, "en", "other", None), Some("x".to_string()));
}

#[test]
fn keys_are_independent_across_locales() {
    let files = vec![file("en", "greeting = Hello!\nbye = Bye!\n"), file("de", "greeting = Hallo!\n")];
    let store = BundleStore::build(&files).unwrap();
    assert_eq!(get_message(&store, "en", "greeting", None), Some("Hello!".to_string()));
    assert_eq!(get_message(&store, "de", "greeting", None), Some("Hallo!".to_string()));
    assert_eq!(get_message(&store, "de", "bye", None), None);
}

#[test]
fn no_files_build_an_empty_store() {
    let store = BundleStore::build(&Vec::new()).expect("nothing can fail");
    assert_eq!(get_message(&store, "en", "greeting", None), None);
    assert_eq!(get_message(&store, "", "", None), None);
    let args = arg("name", ArgValue::Int(1));
    assert_eq!(get_message(&store, "fr", "items", Some(&args)), None);
}

#[test]
fn building_twice_formats_alike() {
    let files = vec![file("en", ITEMS), file("de", "greeting = Hallo, {$name}!\n")];
    let first = BundleStore::build(&files).unwrap();
    let second = BundleStore::build(&files).unwrap();
    let counts = [0i64, 1, 5, -3];
    for n in counts {
        let args = arg("count", ArgValue::Int(n));
        for (lang, key) in [("en", "items"), ("de", "greeting"), ("de", "items"), ("fr", "x")] {
            assert_eq!(
                get_message(&first, lang, key, Some(&args)),
                get_message(&second, lang, key, Some(&args))
            );
        }
    }
}

#[test]
fn unreadable_file_fails_the_build() {
    let files = vec![
        file("en", "greeting = Hello!"),
        LoadedFile { locale: "de".to_string(), content: None },
        file("fr", "greeting = {"),
    ];
    assert_eq!(
        BundleStore::build(&files).err(),
        Some(BuildError::Io(IoError::File("de".to_string())))
    );
}

#[test]
fn malformed_file_fails_the_build() {
    let files = vec![file("en", "greeting = Hello!"), file("fr", "a = b\ngreeting = {$name")];
    match BundleStore::build(&files).err() {
        Some(BuildError::Parse(locale, e)) => {
            assert_eq!(locale, "fr");
            assert_eq!(e.line, 2);
            assert_eq!(e.reason, aux_svc::grammar::ParseReason::Unterminated);
        }
        other => panic!("unexpected outcome: {:?}", other),
    }
}

#[test]
fn later_file_of_a_locale_replaces_the_earlier() {
    let files = vec![file("en", "greeting = old\nonly = here\n"), file("en", "greeting = new\n")];
    let store = BundleStore::build(&files).unwrap();
    assert_eq!(get_message(&store, "en", "greeting", None), Some("new".to_string()));
    assert_eq!(get_message(&store, "en", "only", None), None);
}

#[test]
fn integer_arguments_are_written_in_base_ten() {
    let store = store_of("en", "n = <{$n}>");
    for (n, text) in [
        (0i64, "<0>"),
        (7, "<7>"),
        (10, "<10>"),
        (-1, "<-1>"),
        (1234567890, "<1234567890>"),
        (i64::MAX, "<9223372036854775807>"),
        (i64::MIN, "<-9223372036854775808>"),
    ] {
        let args = arg("n", ArgValue::Int(n));
        assert_eq!(get_message(&store, "en", "n", Some(&args)), Some(text.to_string()));
    }
}

#[test]
fn preformatted_arguments_are_written_as_they_are() {
    let store = store_of("en", "price = Total: {$amount}");
    let args = arg("amount", ArgValue::Preformatted("1,234.50".to_string()));
    assert_eq!(
        get_message(&store, "en", "price", Some(&args)),
        Some("Total: 1,234.50".to_string())
    );
}

#[test]
fn setting_an_argument_again_replaces_it() {
    let store = store_of("en", "greeting = Hello, {$name}!");
    let mut args = Args::new();
    args.set("name", ArgValue::Str("Ada".to_string()));
    args.set("name", ArgValue::Str("Grace".to_string()));
    assert_eq!(
        get_message(&store, "en", "greeting", Some(&args)),
        Some("Hello, Grace!".to_string())
    );
    assert_eq!(args.get(&"name".to_string()), Some(&ArgValue::Str("Grace".to_string())));
    assert_eq!(args.get(&"title".to_string()), None);
}

const KIND: &str = "kind = {$kind ->\n  [file] a file\n  [7] seven\n  [-1] minus one\n  [007] bond\n *[dir] a directory\n  [dir] never\n}";

#[test]
fn text_arguments_match_guards_by_their_characters() {
    let store = store_of("en", KIND);
    for (value, text) in [
        ("file", "a file"),
        ("dir", "a directory"),
        ("7", "seven"),
        ("007", "bond"),
        ("File", "a directory"),
        ("", "a directory"),
    ] {
        let args = arg("kind", ArgValue::Str(value.to_string()));
        assert_eq!(get_message(&store, "en", "kind", Some(&args)), Some(text.to_string()));
    }
}

#[test]
fn integer_arguments_match_guards_by_their_number() {
    let store = store_of("en", KIND);
    for (value, text) in [(7i64, "seven"), (-1, "minus one"), (1, "a directory"), (0, "a directory")] {
        let args = arg("kind", ArgValue::Int(value));
        assert_eq!(get_message(&store, "en", "kind", Some(&args)), Some(text.to_string()));
    }
    let zeros = store_of("en", "z = {$n ->\n [-0] zero\n [0042] answer\n [99999999999999999999] big\n *[x] other\n}");
    for (value, text) in [(0i64, "zero"), (42, "answer"), (i64::MAX, "other"), (i64::MIN, "other")] {
        let args = arg("n", ArgValue::Int(value));
        assert_eq!(get_message(&zeros, "en", "z", Some(&args)), Some(text.to_string()));
    }
}

#[test]
fn extreme_integers_match_their_guards() {
    let store = store_of(
        "en",
        "z = {$n ->\n [9223372036854775807] max\n [-9223372036854775808] min\n [9223372036854775808] over\n *[x] other\n}",
    );
    for (value, text) in [(i64::MAX, "max"), (i64::MIN, "min"), (0, "other")] {
        let args = arg("n", ArgValue::Int(value));
        assert_eq!(get_message(&store, "en", "z", Some(&args)), Some(text.to_string()));
    }
}

#[test]
fn preformatted_arguments_match_no_guard() {
    let store = store_of("en", KIND);
    let args = arg("kind", ArgValue::Preformatted("file".to_string()));
    assert_eq!(get_message(&store, "en", "kind", Some(&args)), Some("a directory".to_string()));
}

#[test]
fn selectors_nest() {
    let text = "inbox = {$user ->\n  [admin] {$count ->\n    [0] nothing for the admin\n   *[n] {$count} for the admin\n  }\n *[any] {$count} for {$user}\n} today\n";
    let store = store_of("en", text);
    let mut args = Args::new();
    args.set("user", ArgValue::Str("admin".to_string()));
    args.set("count", ArgValue::Int(0));
    assert_eq!(
        get_message(&store, "en", "inbox", Some(&args)),
        Some("nothing for the admin today".to_string())
    );
    args.set("count", ArgValue::Int(3));
    assert_eq!(
        get_message(&store, "en", "inbox", Some(&args)),
        Some("3 for the admin today".to_string())
    );
    args.set("user", ArgValue::Str("ada".to_string()));
    assert_eq!(
        get_message(&store, "en", "inbox", Some(&args)),
        Some("3 for ada today".to_string())
    );
}

#[test]
fn reading_comes_before_compiling() {
    let files = vec![
        file("fr", "greeting = {"),
        LoadedFile { locale: "de".to_string(), content: None },
        LoadedFile { locale: "it".to_string(), content: None },
    ];
    assert_eq!(
        BundleStore::build(&files).err(),
        Some(BuildError::Io(IoError::File("de".to_string())))
    );
}

#[test]
fn the_first_malformed_file_is_reported() {
    let files = vec![file("en", "ok = fine"), file("fr", "a = }"), file("de", "= x")];
    assert_eq!(
        BundleStore::build(&files).err(),
        Some(BuildError::Parse(
            "fr".to_string(),
            aux_svc::compiler::ParseError {
                line: 1,
                reason: aux_svc::grammar::ParseReason::UnbalancedBrace
            }
        ))
    );
}

#[test]
fn format_serves_a_built_store() {
    let outcome = BundleStore::build(&vec![file("en", "greeting = Hello, {$name}!")]);
    let args = arg("name", ArgValue::Str("Ada".to_string()));
    assert_eq!(
        aux_svc::formatter::format(&outcome, "en", "greeting", Some(&args)),
        Ok(Some("Hello, Ada!".to_string()))
    );
    assert_eq!(aux_svc::formatter::format(&outcome, "fr", "greeting", None), Ok(None));
    assert_eq!(aux_svc::formatter::format(&outcome, "en", "bye", None), Ok(None));
}

#[test]
fn format_reports_a_failed_build_at_every_call() {
    let outcome = BundleStore::build(&vec![file("en", "greeting = {$name")]);
    let expected = BuildError::Parse(
        "en".to_string(),
        aux_svc::compiler::ParseError { line: 1, reason: aux_svc::grammar::ParseReason::Unterminated },
    );
    for _ in 0..3 {
        assert_eq!(
            aux_svc::formatter::format(&outcome, "en", "greeting", None),
            Err(expected.clone())
        );
    }
    let unread: Result<BundleStore, BuildError> = Err(BuildError::Io(IoError::Directory));
    assert_eq!(
        aux_svc::formatter::format(&unread, "en", "greeting", None),
        Err(BuildError::Io(IoError::Directory))
    );
    assert_eq!(BuildError::Io(IoError::File("x".to_string())).duplicate(), BuildError::Io(IoError::File("x".to_string())));
}
