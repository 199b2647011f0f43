//! The resource language, as functions on text.
//!
//! A resource is a sequence of lines. Empty lines, lines of blanks and lines
//! that start with `#` are passed over, wherever they stand. Of the other
//! lines, one that starts with a blank continues the pattern of the entry
//! before it, and any other starts an entry, `key = pattern`. A pattern is
//! made of literal text, placeholders `{$name}` and selectors
//! `{$name -> [guard] pattern *[guard] pattern }`; inside the braces, blanks
//! and line feeds separate the parts, and the pattern of a branch ends with
//! its line. In literal text a backslash stands before `{`, `}` or `\` to
//! write that character itself.
//!
//! Each function takes the text and a position and gives back what it read
//! and the position after it, or the place and reason of what is wrong.

use crate::pattern::{default_count, BranchView, SegmentView};
use crate::table::table_map;
use crate::text::{is_blank, lemma_scan, lemma_scan_forward, scan, trim_end, CharClass};
use vstd::prelude::*;

verus! {

/// Why a resource was refused.
#[derive(Clone, Copy, Debug, PartialEq, Eq)]
pub enum ParseReason {
    /// A line starts with a character that no key can start with.
    MissingKey,
    /// A key is not followed by `=`.
    MissingEquals,
    /// An indented line has text on it, and no entry stands before it.
    StrayContinuation,
    /// A backslash stands before something other than `{`, `}` or `\`.
    UnknownEscape,
    /// A `}` closes nothing.
    UnbalancedBrace,
    /// A `{` is not followed by `$name` and then `}` or `->`.
    MalformedPlaceable,
    /// The text ends inside braces.
    Unterminated,
    /// Inside a selector stands something other than a branch or `}`.
    ExpectedBranch,
    /// A branch does not start with `[guard]`.
    ExpectedGuard,
    /// A selector has no default branch.
    MissingDefault,
    /// A selector has more than one default branch.
    MultipleDefaults,
}

/// What was read, and the position after it.
pub ghost struct Parsed<T> {
    pub value: T,
    pub next: int,
}

/// Where a resource is wrong, and why.
pub ghost struct Flaw {
    pub at: int,
    pub reason: ParseReason,
}

/// One entry of a resource: its key and its pattern.
pub type EntryView = (Seq<char>, Seq<SegmentView>);

/// `next`, which lies after `i` and inside the text. Every part that is read
/// is at least one character long; written this way, the recursion below
/// ends on the face of it.
pub open spec fn after(s: Seq<char>, i: int, next: int) -> int {
    if i < next <= s.len() {
        next
    } else {
        i + 1
    }
}

/// The characters that a backslash can stand before.
pub open spec fn is_escapable(c: char) -> bool {
    c == '{' || c == '}' || c == '\\'
}

/// The start of the first line, from the line that starts at `i` on, that
/// is neither blank nor a comment (the end of the text if there is none).
pub open spec fn skip_ignored(s: Seq<char>, i: int) -> int
    decreases s.len() - i,
{
    if !(0 <= i < s.len()) {
        i
    } else if s[i] == '#' {
        let e = scan(s, i + 1, CharClass::Line);
        proof {
            lemma_scan(s, i + 1, CharClass::Line);
        }
        if e < s.len() {
            skip_ignored(s, e + 1)
        } else {
            e
        }
    } else {
        let j = scan(s, i, CharClass::Blank);
        proof {
            lemma_scan(s, i, CharClass::Blank);
        }
        if j >= s.len() {
            j
        } else if s[j] == '\n' {
            skip_ignored(s, j + 1)
        } else {
            i
        }
    }
}

/// [`skip_ignored`] moves forward inside the text, and where it stops a line
/// starts that has something on it and is no comment.
pub proof fn lemma_skip_ignored(s: Seq<char>, i: int)
    requires
        0 <= i <= s.len(),
    ensures
        i <= skip_ignored(s, i) <= s.len(),
        skip_ignored(s, i) < s.len() ==> {
            let l = skip_ignored(s, i);
            let j = scan(s, l, CharClass::Blank);
            s[l] != '#' && l <= j < s.len() && s[j] != '\n'
        },
    decreases s.len() - i,
{
    if i < s.len() {
        if s[i] == '#' {
            let e = scan(s, i + 1, CharClass::Line);
            lemma_scan(s, i + 1, CharClass::Line);
            if e < s.len() {
                lemma_skip_ignored(s, e + 1);
            }
        } else {
            let j = scan(s, i, CharClass::Blank);
            lemma_scan(s, i, CharClass::Blank);
            if j < s.len() && s[j] == '\n' {
                lemma_skip_ignored(s, j + 1);
            }
        }
    }
}

/// Whether the pattern goes on after the line feed at `i`: the next line
/// that is neither blank nor a comment starts with a blank.
pub open spec fn continues(s: Seq<char>, i: int) -> bool {
    let l = skip_ignored(s, i + 1);
    0 <= i < s.len() && l < s.len() && is_blank(s[l])
}

/// Where the pattern goes on after the line feed at `i`: after the
/// indentation of the line that continues it.
pub open spec fn resume(s: Seq<char>, i: int) -> int {
    scan(s, skip_ignored(s, i + 1), CharClass::Blank)
}

/// Literal text from `i` on, added to `acc`. It ends before a brace and at
/// the end of the line or, at the top level (`top`), of the last line that
/// continues it. Blanks at the end of a line are dropped; the lines of a
/// pattern are joined by a line feed, without their indentation and without
/// the blank lines and comments between them.
pub open spec fn literal_run(s: Seq<char>, i: int, top: bool, acc: Seq<char>) -> Result<
    Parsed<Seq<char>>,
    Flaw,
>
    decreases s.len() - i,
{
    if !(0 <= i < s.len()) {
        Ok(Parsed { value: trim_end(acc), next: i })
    } else if s[i] == '{' {
        Ok(Parsed { value: acc, next: i })
    } else if s[i] == '}' {
        Ok(Parsed { value: trim_end(acc), next: i })
    } else if s[i] == '\n' {
        if top && continues(s, i) {
            proof {
                lemma_skip_ignored(s, i + 1);
                lemma_scan(s, skip_ignored(s, i + 1), CharClass::Blank);
            }
            literal_run(s, resume(s, i), top, trim_end(acc).push('\n'))
        } else {
            Ok(Parsed { value: trim_end(acc), next: i })
        }
    } else if s[i] == '\\' {
        if i + 1 < s.len() && is_escapable(s[i + 1]) {
            literal_run(s, i + 2, top, acc.push(s[i + 1]))
        } else {
            Err(Flaw { at: i, reason: ParseReason::UnknownEscape })
        }
    } else {
        literal_run(s, i + 1, top, acc.push(s[i]))
    }
}

/// The segments of a pattern from `i` on, added to `acc`. At the top level
/// the pattern ends with its last line; in a branch it ends with the line or
/// before the `}` that closes the selector.
pub open spec fn segments(s: Seq<char>, i: int, top: bool, acc: Seq<SegmentView>) -> Result<
    Parsed<Seq<SegmentView>>,
    Flaw,
>
    decreases s.len() - i, 1nat,
{
    if !(0 <= i < s.len()) {
        Ok(Parsed { value: acc, next: i })
    } else if s[i] == '{' {
        match placeable(s, i) {
            Err(flaw) => Err(flaw),
            Ok(p) => segments(s, after(s, i, p.next), top, acc.push(p.value)),
        }
    } else if s[i] == '}' {
        if top {
            Err(Flaw { at: i, reason: ParseReason::UnbalancedBrace })
        } else {
            Ok(Parsed { value: acc, next: i })
        }
    } else if s[i] == '\n' && !(top && continues(s, i)) {
        Ok(Parsed { value: acc, next: i })
    } else {
        match literal_run(s, i, top, Seq::empty()) {
            Err(flaw) => Err(flaw),
            Ok(l) => segments(
                s,
                after(s, i, l.next),
                top,
                if l.value.len() > 0 {
                    acc.push(SegmentView::Literal(l.value))
                } else {
                    acc
                },
            ),
        }
    }
}

/// The placeholder or selector whose `{` is at `i`.
pub open spec fn placeable(s: Seq<char>, i: int) -> Result<Parsed<SegmentView>, Flaw>
    decreases s.len() - i, 0nat,
{
    let j = scan(s, i + 1, CharClass::Space);
    let k = scan(s, j + 1, CharClass::Name);
    let m = scan(s, k, CharClass::Space);
    if j >= s.len() {
        Err(Flaw { at: i, reason: ParseReason::Unterminated })
    } else if s[j] != '$' || k == j + 1 {
        Err(Flaw { at: j, reason: ParseReason::MalformedPlaceable })
    } else if m >= s.len() {
        Err(Flaw { at: i, reason: ParseReason::Unterminated })
    } else if s[m] == '}' {
        Ok(Parsed { value: SegmentView::Placeholder(s.subrange(j + 1, k)), next: m + 1 })
    } else if s[m] == '-' && m + 1 < s.len() && s[m + 1] == '>' {
        proof {
            lemma_scan_forward(s, i + 1, CharClass::Space);
            lemma_scan_forward(s, j + 1, CharClass::Name);
            lemma_scan_forward(s, k, CharClass::Space);
        }
        branches(s, m + 2, i, s.subrange(j + 1, k), Seq::empty())
    } else {
        Err(Flaw { at: m, reason: ParseReason::MalformedPlaceable })
    }
}

/// The branches of the selector on `name` from `i` on, added to `acc`, up to
/// the `}` that closes it. The selector's `{` is at `open`.
pub open spec fn branches(
    s: Seq<char>,
    i: int,
    open: int,
    name: Seq<char>,
    acc: Seq<BranchView>,
) -> Result<Parsed<SegmentView>, Flaw>
    decreases s.len() - i, 2nat,
{
    let j = scan(s, i, CharClass::Space);
    let b = if j < s.len() && s[j] == '*' {
        j + 1
    } else {
        j
    };
    let g = scan(s, b + 1, CharClass::Name);
    let p = scan(s, g + 1, CharClass::Blank);
    if i < 0 || j >= s.len() {
        Err(Flaw { at: open, reason: ParseReason::Unterminated })
    } else if s[j] == '}' {
        close_selector(name, acc, j)
    } else if b >= s.len() {
        Err(Flaw { at: open, reason: ParseReason::Unterminated })
    } else if s[b] != '[' {
        Err(Flaw { at: j, reason: ParseReason::ExpectedBranch })
    } else if g == b + 1 || g >= s.len() || s[g] != ']' {
        Err(Flaw { at: b, reason: ParseReason::ExpectedGuard })
    } else {
        proof {
            lemma_scan_forward(s, i, CharClass::Space);
            lemma_scan_forward(s, b + 1, CharClass::Name);
            lemma_scan(s, g + 1, CharClass::Blank);
        }
        match segments(s, p, false, Seq::empty()) {
            Err(flaw) => Err(flaw),
            Ok(r) => branches(
                s,
                after(s, i, r.next),
                open,
                name,
                acc.push(BranchView { guard: s.subrange(b + 1, g), default: b > j, pattern: r.value }),
            ),
        }
    }
}

/// The selector that the `}` at `at` closes, if exactly one of its branches
/// is the default.
pub open spec fn close_selector(name: Seq<char>, acc: Seq<BranchView>, at: int) -> Result<
    Parsed<SegmentView>,
    Flaw,
> {
    if default_count(acc) == 1 {
        Ok(Parsed { value: SegmentView::Selector(name, acc), next: at + 1 })
    } else if default_count(acc) == 0 {
        Err(Flaw { at, reason: ParseReason::MissingDefault })
    } else {
        Err(Flaw { at, reason: ParseReason::MultipleDefaults })
    }
}

/// The entry that starts at `i`: a key, `=`, and a pattern.
pub open spec fn entry(s: Seq<char>, i: int) -> Result<Parsed<EntryView>, Flaw> {
    let k = scan(s, i, CharClass::Name);
    let j = scan(s, k, CharClass::Blank);
    let p = scan(s, j + 1, CharClass::Blank);
    if k == i {
        Err(Flaw { at: i, reason: ParseReason::MissingKey })
    } else if j >= s.len() || s[j] != '=' {
        Err(Flaw { at: i, reason: ParseReason::MissingEquals })
    } else {
        match segments(s, p, true, Seq::empty()) {
            Err(flaw) => Err(flaw),
            Ok(r) => Ok(Parsed { value: (s.subrange(i, k), r.value), next: r.next }),
        }
    }
}

/// The entries of a resource from the line that starts at `i` on, added to
/// `acc`, in the order in which they stand.
pub open spec fn entries(s: Seq<char>, i: int, acc: Seq<EntryView>) -> Result<Seq<EntryView>, Flaw>
    decreases s.len() - i,
{
    let l = skip_ignored(s, i);
    if !(0 <= i < s.len()) || l >= s.len() {
        Ok(acc)
    } else if is_blank(s[l]) {
        Err(Flaw { at: l, reason: ParseReason::StrayContinuation })
    } else {
        proof {
            lemma_skip_ignored(s, i);
        }
        match entry(s, l) {
            Err(flaw) => Err(flaw),
            Ok(e) => entries(s, after(s, l, e.next), acc.push(e.value)),
        }
    }
}

/// The number of the line that position `at` is on, counted from 1.
pub open spec fn line_number(s: Seq<char>, at: int) -> nat
    decreases at,
{
    if at <= 0 || at > s.len() {
        1
    } else if s[at - 1] == '\n' {
        line_number(s, at - 1) + 1
    } else {
        line_number(s, at - 1)
    }
}

/// What a resource compiles to: the map from each key to the pattern of its
/// last entry, or the line and the reason of the first thing wrong.
pub open spec fn compiled(s: Seq<char>) -> Result<Map<Seq<char>, Seq<SegmentView>>, (
    nat,
    ParseReason,
)> {
    match entries(s, 0, Seq::empty()) {
        Ok(list) => Ok(table_map(list)),
        Err(flaw) => Err((line_number(s, flaw.at), flaw.reason)),
    }
}

} // verus!
