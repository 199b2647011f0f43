use aux_svc::bundle::Bundle;
use aux_svc::compiler::{compile, ParseError};
use aux_svc::grammar::ParseReason;
use aux_svc::pattern::{Branch, Segment};

fn lit(text: &str) -> Segment {
    Segment::Literal(text.to_string())
}

fn var(name: &str) -> Segment {
    Segment::Placeholder(name.to_string())
}

fn pattern_of(bundle: &Bundle, key: &str) -> Option<Vec<Segment>> {
    bundle.get(&key.to_string()).map(|p| {
        p.iter().map(copy_segment).collect()
    })
}

fn copy_segment(segment: &Segment) -> Segment {
    match segment {
        Segment::Literal(t) => Segment::Literal(t.clone()),
        Segment::Placeholder(n) => Segment::Placeholder(n.clone()),
        Segment::Selector(n, branches) => Segment::Selector(
            n.clone(),
            branches
                .iter()
                .map(|b| Branch {
                    guard: b.guard.clone(),
                    default: b.default,
                    pattern: b.pattern.iter().map(copy_segment).collect(),
                })
                .collect(),
        ),
    }
}

fn refusal(text: &str) -> Option<ParseError> {
    compile(text).err()
}

#[test]
fn compiles_literals_and_placeholders() {
    let bundle = compile("greeting = Hello, {$name}!\nplain = Hello!\n").unwrap();
    assert_eq!(pattern_of(&bundle, "greeting"), Some(vec![lit("Hello, "), var("name"), lit("!")]));
    assert_eq!(pattern_of(&bundle, "plain"), Some(vec![lit("Hello!")]));
    assert_eq!(pattern_of(&bundle, "absent"), None);
}

#[test]
fn compiles_a_selector_to_its_branches() {
    let bundle = compile("items = {$count ->\n    [0] no items\n   *[other] {$count} items\n}\n").unwrap();
    let expected = vec![Segment::Selector(
        "count".to_string(),
        vec![
            Branch { guard: "0".to_string(), default: false, pattern: vec![lit("no items")] },
            Branch {
                guard: "other".to_string(),
                default: true,
                pattern: vec![var("count"), lit(" items")],
            },
        ],
    )];
    assert_eq!(pattern_of(&bundle, "items"), Some(expected));
}

#[test]
fn empty_text_compiles_to_an_empty_bundle() {
    let bundle = compile("").unwrap();
    assert_eq!(pattern_of(&bundle, "greeting"), None);
    let bundle = compile("\n\n   \n# nothing here\n\t\n").unwrap();
    assert_eq!(pattern_of(&bundle, "nothing"), None);
}

#[test]
fn comments_and_blank_lines_are_skipped() {
    let text = "# the greetings\n\ngreeting = Hello!\n   \n# = not an entry\nbye = Bye!\n#last";
    let bundle = compile(text).unwrap();
    assert_eq!(pattern_of(&bundle, "greeting"), Some(vec![lit("Hello!")]));
    assert_eq!(pattern_of(&bundle, "bye"), Some(vec![lit("Bye!")]));
}

#[test]
fn a_hash_inside_a_pattern_is_text() {
    let bundle = compile("issue = see #42\n").unwrap();
    assert_eq!(pattern_of(&bundle, "issue"), Some(vec![lit("see #42")]));
}

#[test]
fn indented_lines_continue_the_pattern() {
    let text = "long = first line   \n    second {$part}\n\tthird\nnext = x\n";
    let bundle = compile(text).unwrap();
    assert_eq!(
        pattern_of(&bundle, "long"),
        Some(vec![lit("first line\nsecond "), var("part"), lit("\nthird")])
    );
    assert_eq!(pattern_of(&bundle, "next"), Some(vec![lit("x")]));
}

#[test]
fn a_pattern_can_start_on_the_line_after_the_key() {
    let bundle = compile("late =\n    text\n").unwrap();
    assert_eq!(pattern_of(&bundle, "late"), Some(vec![lit("\ntext")]));
}

#[test]
fn blanks_around_a_pattern_are_dropped() {
    let bundle = compile("a   =    padded text \t \r\nb={$x}  \nc = {$x}  y\n").unwrap();
    assert_eq!(pattern_of(&bundle, "a"), Some(vec![lit("padded text")]));
    assert_eq!(pattern_of(&bundle, "b"), Some(vec![var("x")]));
    assert_eq!(pattern_of(&bundle, "c"), Some(vec![var("x"), lit("  y")]));
}

#[test]
fn an_empty_pattern_has_no_segments() {
    let bundle = compile("empty =\nblank =   \n").unwrap();
    assert_eq!(pattern_of(&bundle, "empty"), Some(vec![]));
    assert_eq!(pattern_of(&bundle, "blank"), Some(vec![]));
}

#[test]
fn escapes_write_braces_and_backslashes() {
    let bundle = compile("braces = \\{$name\\} costs \\\\5\n").unwrap();
    assert_eq!(pattern_of(&bundle, "braces"), Some(vec![lit("{$name} costs \\5")]));
}

#[test]
fn blanks_inside_braces_are_free() {
    let bundle = compile("a = {  $name\t}\nb = {\n  $name\n}\nc = {$x -> *[y] z}\n").unwrap();
    assert_eq!(pattern_of(&bundle, "a"), Some(vec![var("name")]));
    assert_eq!(pattern_of(&bundle, "b"), Some(vec![var("name")]));
    assert_eq!(
        pattern_of(&bundle, "c"),
        Some(vec![Segment::Selector(
            "x".to_string(),
            vec![Branch { guard: "y".to_string(), default: true, pattern: vec![lit("z")] }],
        )])
    );
}

#[test]
fn keys_may_hold_digits_dashes_and_underscores() {
    let bundle = compile("miss_body = a\ninvalid-params = b\n404 = c\n").unwrap();
    assert_eq!(pattern_of(&bundle, "miss_body"), Some(vec![lit("a")]));
    assert_eq!(pattern_of(&bundle, "invalid-params"), Some(vec![lit("b")]));
    assert_eq!(pattern_of(&bundle, "404"), Some(vec![lit("c")]));
}

#[test]
fn text_beyond_ascii_is_kept() {
    let bundle = compile("greeting = 你好，{$name}！\n").unwrap();
    assert_eq!(pattern_of(&bundle, "greeting"), Some(vec![lit("你好，"), var("name"), lit("！")]));
}

#[test]
fn a_later_definition_replaces_an_earlier_one() {
    let bundle = compile("k = one\nk = two\nother = x\nk = three\n").unwrap();
    assert_eq!(pattern_of(&bundle, "k"), Some(vec![lit("three")]));
}

#[test]
fn selector_without_default_is_refused() {
    assert_eq!(
        refusal("a = ok\nitems = {$count ->\n  [0] none\n  [1] one\n}\n"),
        Some(ParseError { line: 5, reason: ParseReason::MissingDefault })
    );
    assert_eq!(
        refusal("items = {$count -> }"),
        Some(ParseError { line: 1, reason: ParseReason::MissingDefault })
    );
}

#[test]
fn selector_with_two_defaults_is_refused() {
    assert_eq!(
        refusal("items = {$count ->\n *[0] none\n *[1] one\n}\n"),
        Some(ParseError { line: 4, reason: ParseReason::MultipleDefaults })
    );
    assert_eq!(
        refusal("items = {$count ->\n *[0] none\n [1] one\n *[2] two\n *[3] three\n   }\n"),
        Some(ParseError { line: 6, reason: ParseReason::MultipleDefaults })
    );
}

#[test]
fn nested_selector_without_default_is_refused() {
    assert_eq!(
        refusal("a = {$x ->\n *[y] {$z ->\n   [1] one\n  }\n}\n"),
        Some(ParseError { line: 4, reason: ParseReason::MissingDefault })
    );
}

#[test]
fn unterminated_braces_are_refused_at_their_start() {
    assert_eq!(
        refusal("a = ok\nb = text {$name"),
        Some(ParseError { line: 2, reason: ParseReason::Unterminated })
    );
    assert_eq!(refusal("b = {"), Some(ParseError { line: 1, reason: ParseReason::Unterminated }));
    assert_eq!(
        refusal("\n\nitems = {$count ->\n [0] none\n *[x] some\n"),
        Some(ParseError { line: 3, reason: ParseReason::Unterminated })
    );
    assert_eq!(
        refusal("items = {$count ->\n [0] none\n *"),
        Some(ParseError { line: 1, reason: ParseReason::Unterminated })
    );
}

#[test]
fn unknown_escape_is_refused() {
    assert_eq!(
        refusal("a = ok\n\npath = C:\\dir\n"),
        Some(ParseError { line: 3, reason: ParseReason::UnknownEscape })
    );
    assert_eq!(
        refusal("tail = ends with \\"),
        Some(ParseError { line: 1, reason: ParseReason::UnknownEscape })
    );
}

#[test]
fn stray_closing_brace_is_refused() {
    assert_eq!(
        refusal("a = one } two\n"),
        Some(ParseError { line: 1, reason: ParseReason::UnbalancedBrace })
    );
    assert_eq!(
        refusal("a = {$x}\n  }\n"),
        Some(ParseError { line: 2, reason: ParseReason::UnbalancedBrace })
    );
}

#[test]
fn malformed_placeables_are_refused() {
    assert_eq!(
        refusal("a = {name}\n"),
        Some(ParseError { line: 1, reason: ParseReason::MalformedPlaceable })
    );
    assert_eq!(
        refusal("a = {$}\n"),
        Some(ParseError { line: 1, reason: ParseReason::MalformedPlaceable })
    );
    assert_eq!(
        refusal("a = {$name\n  !}\n"),
        Some(ParseError { line: 2, reason: ParseReason::MalformedPlaceable })
    );
    assert_eq!(
        refusal("a = {$count-> *[x] y}\n"),
        Some(ParseError { line: 1, reason: ParseReason::MalformedPlaceable })
    );
}

#[test]
fn malformed_branches_are_refused() {
    assert_eq!(
        refusal("a = {$x ->\n  one\n *[y] z\n}\n"),
        Some(ParseError { line: 2, reason: ParseReason::ExpectedBranch })
    );
    assert_eq!(
        refusal("a = {$x ->\n *[y] z\n  [] empty\n}\n"),
        Some(ParseError { line: 3, reason: ParseReason::ExpectedGuard })
    );
    assert_eq!(
        refusal("a = {$x ->\n *[two words] z\n}\n"),
        Some(ParseError { line: 2, reason: ParseReason::ExpectedGuard })
    );
    assert_eq!(
        refusal("a = {$x ->\n *[y z\n}\n"),
        Some(ParseError { line: 2, reason: ParseReason::ExpectedGuard })
    );
}

#[test]
fn lines_without_key_or_equals_are_refused() {
    assert_eq!(
        refusal("a = ok\n= value\n"),
        Some(ParseError { line: 2, reason: ParseReason::MissingKey })
    );
    assert_eq!(
        refusal("a = ok\n\n# c\nkey value\n"),
        Some(ParseError { line: 4, reason: ParseReason::MissingEquals })
    );
    assert_eq!(refusal("key"), Some(ParseError { line: 1, reason: ParseReason::MissingEquals }));
    assert_eq!(
        refusal("clé = valeur\n"),
        Some(ParseError { line: 1, reason: ParseReason::MissingEquals })
    );
}

#[test]
fn continuation_without_entry_is_refused() {
    assert_eq!(
        refusal("  indented = x\n"),
        Some(ParseError { line: 1, reason: ParseReason::StrayContinuation })
    );
    assert_eq!(
        refusal("\n# only a comment so far\n\t \n  more\na = x\n"),
        Some(ParseError { line: 4, reason: ParseReason::StrayContinuation })
    );
}

#[test]
fn blank_lines_do_not_end_a_pattern() {
    let bundle = compile("a = x\n\n  more\n").unwrap();
    assert_eq!(pattern_of(&bundle, "a"), Some(vec![lit("x\nmore")]));
    let text = "a = x  \n   \n\t\n  more {$n}\n\n\n  end\n\nb = y\n";
    let bundle = compile(text).unwrap();
    assert_eq!(pattern_of(&bundle, "a"), Some(vec![lit("x\nmore "), var("n"), lit("\nend")]));
    assert_eq!(pattern_of(&bundle, "b"), Some(vec![lit("y")]));
}

#[test]
fn comments_do_not_end_a_pattern() {
    let bundle = compile("a = x\n# note\n  more\n#last\nb = y").unwrap();
    assert_eq!(pattern_of(&bundle, "a"), Some(vec![lit("x\nmore")]));
    assert_eq!(pattern_of(&bundle, "b"), Some(vec![lit("y")]));
    let bundle = compile("a = x\n  # indented, so text\n").unwrap();
    assert_eq!(pattern_of(&bundle, "a"), Some(vec![lit("x\n# indented, so text")]));
}

#[test]
fn a_flaw_after_skipped_lines_has_its_own_line() {
    assert_eq!(
        refusal("a = x\n\n# note\n  more \\q\n"),
        Some(ParseError { line: 4, reason: ParseReason::UnknownEscape })
    );
    assert_eq!(
        refusal("a = x\n\n\n  {$n\n"),
        Some(ParseError { line: 4, reason: ParseReason::Unterminated })
    );
}

#[test]
fn the_first_flaw_is_reported() {
    assert_eq!(
        refusal("a = {$x ->\n [1] one\n}\nb = }\n"),
        Some(ParseError { line: 3, reason: ParseReason::MissingDefault })
    );
}

#[test]
fn bundle_insert_replaces() {
    let mut bundle = Bundle::new();
    bundle.insert("k".to_string(), vec![lit("one")]);
    bundle.insert("j".to_string(), vec![lit("other")]);
    bundle.insert("k".to_string(), vec![lit("two")]);
    assert_eq!(pattern_of(&bundle, "k"), Some(vec![lit("two")]));
    assert_eq!(pattern_of(&bundle, "j"), Some(vec![lit("other")]));
    assert_eq!(pattern_of(&bundle, "i"), None);
}
