//! The compiler: from the text of a resource to a bundle of patterns.
//!
//! Each function here reads what the function of the same part in
//! [`crate::grammar`] describes, and is proved to give the same result.

use crate::bundle::Bundle;
use crate::grammar::{
    branches, compiled, continues, entries, entry, line_number, resume, skip_ignored,
    literal_run, placeable, segments, EntryView, Flaw, ParseReason, Parsed,
};
use crate::pattern::{branches_view, default_count, pattern_view, Branch, Segment, SegmentView};
use crate::text::{
    char_in_class, chars_of, skip_class, text_between, trim_blanks, CharClass,
};
use vstd::prelude::*;

verus! {

/// Where the text is wrong, and why.
#[derive(Clone, Copy, Debug, PartialEq, Eq)]
pub struct Fault {
    /// The position of the character at fault.
    pub at: usize,
    pub reason: ParseReason,
}

impl Fault {
    pub open spec fn view(&self) -> Flaw {
        Flaw { at: self.at as int, reason: self.reason }
    }
}

/// Why a resource does not compile.
#[derive(Clone, Copy, Debug, PartialEq, Eq)]
pub struct ParseError {
    /// The line of the resource, counted from 1.
    pub line: usize,
    pub reason: ParseReason,
}

/// Whether literal text can start at `i`.
pub open spec fn starts_literal(s: Seq<char>, i: int, top: bool) -> bool {
    &&& 0 <= i < s.len()
    &&& s[i] != '{'
    &&& s[i] != '}'
    &&& (s[i] != '\n' || (top && continues(s, i)))
}

/// Passes over blank lines and comments from the line that starts at `i` on.
fn skip_lines(s: &Vec<char>, i: usize) -> (r: usize)
    requires
        i <= s.len(),
    ensures
        r == skip_ignored(s@, i as int),
        i <= r <= s.len(),
{
    let mut at: usize = i;
    loop
        invariant
            i <= at <= s.len(),
            skip_ignored(s@, i as int) == skip_ignored(s@, at as int),
        decreases s.len() - at,
    {
        if at >= s.len() {
            return at;
        }
        if s[at] == '#' {
            let e = skip_class(s, at + 1, CharClass::Line);
            if e < s.len() {
                at = e + 1;
            } else {
                return e;
            }
        } else {
            let j = skip_class(s, at, CharClass::Blank);
            if j >= s.len() {
                return j;
            } else if s[j] == '\n' {
                at = j + 1;
            } else {
                return at;
            }
        }
    }
}

/// Where the pattern goes on after the line feed at `i`, if it does.
fn continuation_at(s: &Vec<char>, i: usize) -> (r: Option<usize>)
    requires
        i < s.len(),
    ensures
        match r {
            Some(p) => continues(s@, i as int) && p == resume(s@, i as int) && i < p <= s.len(),
            None => !continues(s@, i as int),
        },
{
    let l = skip_lines(s, i + 1);
    if l < s.len() && char_in_class(CharClass::Blank, s[l]) {
        Some(skip_class(s, l, CharClass::Blank))
    } else {
        None
    }
}

/// Reads literal text from `i` on.
fn parse_literal(s: &Vec<char>, i: usize, top: bool) -> (r: Result<(String, usize), Fault>)
    requires
        starts_literal(s@, i as int, top),
    ensures
        match r {
            Ok((t, n)) => i < n <= s.len() && literal_run(s@, i as int, top, Seq::empty()) == Ok::<
                Parsed<Seq<char>>,
                Flaw,
            >(Parsed { value: t@, next: n as int }),
            Err(f) => f.at < s.len() && literal_run(s@, i as int, top, Seq::empty()) == Err::<
                Parsed<Seq<char>>,
                Flaw,
            >(f@),
        },
{
    let mut buf: Vec<char> = Vec::new();
    let mut j: usize = i;
    loop
        invariant
            i <= j <= s.len(),
            starts_literal(s@, i as int, top),
            literal_run(s@, i as int, top, Seq::empty()) == literal_run(s@, j as int, top, buf@),
        decreases s.len() - j,
    {
        if j >= s.len() {
            trim_blanks(&mut buf);
            let t = text_between(&buf, 0, buf.len());
            assert(buf@.subrange(0, buf@.len() as int) =~= buf@);
            return Ok((t, j));
        }
        let c = s[j];
        if c == '{' {
            let t = text_between(&buf, 0, buf.len());
            assert(buf@.subrange(0, buf@.len() as int) =~= buf@);
            return Ok((t, j));
        } else if c == '}' {
            trim_blanks(&mut buf);
            let t = text_between(&buf, 0, buf.len());
            assert(buf@.subrange(0, buf@.len() as int) =~= buf@);
            return Ok((t, j));
        } else if c == '\n' {
            let next = if top {
                continuation_at(s, j)
            } else {
                None
            };
            match next {
                Some(p) => {
                    trim_blanks(&mut buf);
                    buf.push('\n');
                    j = p;
                },
                None => {
                    trim_blanks(&mut buf);
                    let t = text_between(&buf, 0, buf.len());
                    assert(buf@.subrange(0, buf@.len() as int) =~= buf@);
                    return Ok((t, j));
                },
            }
        } else if c == '\\' {
            if j + 1 < s.len() && (s[j + 1] == '{' || s[j + 1] == '}' || s[j + 1] == '\\') {
                buf.push(s[j + 1]);
                j += 2;
            } else {
                return Err(Fault { at: j, reason: ParseReason::UnknownEscape });
            }
        } else {
            buf.push(c);
            j += 1;
        }
    }
}

/// Reads the segments of a pattern from `i` on.
fn parse_segments(s: &Vec<char>, i: usize, top: bool) -> (r: Result<
    (Vec<Segment>, usize),
    Fault,
>)
    requires
        i <= s.len(),
    ensures
        match r {
            Ok((p, n)) => i <= n <= s.len() && segments(s@, i as int, top, Seq::empty()) == Ok::<
                Parsed<Seq<SegmentView>>,
                Flaw,
            >(Parsed { value: pattern_view(p@), next: n as int }),
            Err(f) => f.at < s.len() && segments(s@, i as int, top, Seq::empty()) == Err::<
                Parsed<Seq<SegmentView>>,
                Flaw,
            >(f@),
        },
    decreases s.len() - i, 1nat,
{
    let mut out: Vec<Segment> = Vec::new();
    let mut j: usize = i;
    assert(pattern_view(out@) =~= Seq::empty());
    loop
        invariant
            i <= j <= s.len(),
            segments(s@, i as int, top, Seq::empty()) == segments(
                s@,
                j as int,
                top,
                pattern_view(out@),
            ),
        decreases s.len() - j,
    {
        if j >= s.len() {
            return Ok((out, j));
        }
        let c = s[j];
        if c == '{' {
            match parse_placeable(s, j) {
                Err(f) => {
                    return Err(f);
                },
                Ok((segment, n)) => {
                    proof {
                        assert(pattern_view(out@.push(segment)) =~= pattern_view(out@).push(
                            segment@,
                        ));
                    }
                    out.push(segment);
                    j = n;
                },
            }
        } else if c == '}' {
            if top {
                return Err(Fault { at: j, reason: ParseReason::UnbalancedBrace });
            } else {
                return Ok((out, j));
            }
        } else if c == '\n' && !(top && continuation_at(s, j).is_some()) {
            return Ok((out, j));
        } else {
            match parse_literal(s, j, top) {
                Err(f) => {
                    return Err(f);
                },
                Ok((t, n)) => {
                    if !t.as_str().is_empty() {
                        let segment = Segment::Literal(t);
                        proof {
                            assert(pattern_view(out@.push(segment)) =~= pattern_view(out@).push(
                                segment@,
                            ));
                        }
                        out.push(segment);
                    }
                    j = n;
                },
            }
        }
    }
}

/// Reads the placeholder or selector whose `{` is at `i`.
fn parse_placeable(s: &Vec<char>, i: usize) -> (r: Result<(Segment, usize), Fault>)
    requires
        i < s.len(),
    ensures
        match r {
            Ok((seg, n)) => i < n <= s.len() && placeable(s@, i as int) == Ok::<
                Parsed<SegmentView>,
                Flaw,
            >(Parsed { value: seg@, next: n as int }),
            Err(f) => f.at < s.len() && placeable(s@, i as int) == Err::<
                Parsed<SegmentView>,
                Flaw,
            >(f@),
        },
    decreases s.len() - i, 0nat,
{
    let j = skip_class(s, i + 1, CharClass::Space);
    if j >= s.len() {
        return Err(Fault { at: i, reason: ParseReason::Unterminated });
    }
    if s[j] != '$' {
        return Err(Fault { at: j, reason: ParseReason::MalformedPlaceable });
    }
    let k = skip_class(s, j + 1, CharClass::Name);
    if k == j + 1 {
        return Err(Fault { at: j, reason: ParseReason::MalformedPlaceable });
    }
    let m = skip_class(s, k, CharClass::Space);
    if m >= s.len() {
        return Err(Fault { at: i, reason: ParseReason::Unterminated });
    }
    let name = text_between(s, j + 1, k);
    if s[m] == '}' {
        Ok((Segment::Placeholder(name), m + 1))
    } else if s[m] == '-' && m + 1 < s.len() && s[m + 1] == '>' {
        parse_branches(s, m + 2, i, name)
    } else {
        Err(Fault { at: m, reason: ParseReason::MalformedPlaceable })
    }
}

/// Reads the branches of the selector on `name` from `i` on, up to the `}`
/// that closes it. The selector's `{` is at `open`.
fn parse_branches(s: &Vec<char>, i: usize, open: usize, name: String) -> (r: Result<
    (Segment, usize),
    Fault,
>)
    requires
        open < i <= s.len(),
    ensures
        match r {
            Ok((seg, n)) => i < n <= s.len() && branches(
                s@,
                i as int,
                open as int,
                name@,
                Seq::empty(),
            ) == Ok::<Parsed<SegmentView>, Flaw>(Parsed { value: seg@, next: n as int }),
            Err(f) => f.at < s.len() && branches(s@, i as int, open as int, name@, Seq::empty())
                == Err::<Parsed<SegmentView>, Flaw>(f@),
        },
    decreases s.len() - i, 2nat,
{
    let mut out: Vec<Branch> = Vec::new();
    let mut defaults: usize = 0;
    let mut at: usize = i;
    assert(branches_view(out@) =~= Seq::empty());
    loop
        invariant
            open < i <= at <= s.len(),
            defaults == default_count(branches_view(out@)),
            defaults <= out.len(),
            branches(s@, i as int, open as int, name@, Seq::empty()) == branches(
                s@,
                at as int,
                open as int,
                name@,
                branches_view(out@),
            ),
        decreases s.len() - at,
    {
        let j = skip_class(s, at, CharClass::Space);
        if j >= s.len() {
            return Err(Fault { at: open, reason: ParseReason::Unterminated });
        }
        if s[j] == '}' {
            if defaults == 1 {
                return Ok((Segment::Selector(name, out), j + 1));
            } else if defaults == 0 {
                return Err(Fault { at: j, reason: ParseReason::MissingDefault });
            } else {
                return Err(Fault { at: j, reason: ParseReason::MultipleDefaults });
            }
        }
        let starred = s[j] == '*';
        let b: usize = if starred {
            j + 1
        } else {
            j
        };
        if b >= s.len() {
            return Err(Fault { at: open, reason: ParseReason::Unterminated });
        }
        if s[b] != '[' {
            return Err(Fault { at: j, reason: ParseReason::ExpectedBranch });
        }
        let g = skip_class(s, b + 1, CharClass::Name);
        if g == b + 1 || g >= s.len() || s[g] != ']' {
            return Err(Fault { at: b, reason: ParseReason::ExpectedGuard });
        }
        let p = skip_class(s, g + 1, CharClass::Blank);
        match parse_segments(s, p, false) {
            Err(f) => {
                return Err(f);
            },
            Ok((pattern, n)) => {
                let branch = Branch { guard: text_between(s, b + 1, g), default: starred, pattern };
                proof {
                    let before = branches_view(out@);
                    let now = branches_view(out@.push(branch));
                    assert(now =~= before.push(branch@));
                    assert(now.drop_last() =~= before);
                }
                out.push(branch);
                if starred {
                    assert(defaults < out.len());
                    defaults += 1;
                }
                at = n;
            },
        }
    }
}

/// Reads the entry that starts at `i`.
fn parse_entry(s: &Vec<char>, i: usize) -> (r: Result<(String, Vec<Segment>, usize), Fault>)
    requires
        i < s.len(),
    ensures
        match r {
            Ok((key, p, n)) => i < n <= s.len() && entry(s@, i as int) == Ok::<
                Parsed<EntryView>,
                Flaw,
            >(Parsed { value: (key@, pattern_view(p@)), next: n as int }),
            Err(f) => f.at < s.len() && entry(s@, i as int) == Err::<Parsed<EntryView>, Flaw>(f@),
        },
{
    let k = skip_class(s, i, CharClass::Name);
    if k == i {
        return Err(Fault { at: i, reason: ParseReason::MissingKey });
    }
    let j = skip_class(s, k, CharClass::Blank);
    if j >= s.len() || s[j] != '=' {
        return Err(Fault { at: i, reason: ParseReason::MissingEquals });
    }
    let p = skip_class(s, j + 1, CharClass::Blank);
    match parse_segments(s, p, true) {
        Err(f) => Err(f),
        Ok((pattern, n)) => Ok((text_between(s, i, k), pattern, n)),
    }
}

/// The number of the line that position `at` is on.
fn line_of(s: &Vec<char>, at: usize) -> (line: usize)
    requires
        at < s.len(),
    ensures
        line == line_number(s@, at as int),
{
    let mut line: usize = 1;
    let mut k: usize = 0;
    while k < at
        invariant
            k <= at < s.len(),
            line == line_number(s@, k as int),
            line <= k + 1,
        decreases at - k,
    {
        if s[k] == '\n' {
            line += 1;
        }
        k += 1;
    }
    line
}

/// Compiles the text of a resource.
pub fn compile(text: &str) -> (r: Result<Bundle, ParseError>)
    ensures
        match r {
            Ok(bundle) => compiled(text@) == Ok::<Map<Seq<char>, Seq<SegmentView>>, (nat, ParseReason)>(bundle@),
            Err(e) => compiled(text@) == Err::<Map<Seq<char>, Seq<SegmentView>>, (nat, ParseReason)>((e.line as nat, e.reason)),
        },
{
    let s = chars_of(text);
    let mut bundle = Bundle::new();
    let ghost mut list: Seq<EntryView> = Seq::empty();
    let mut i: usize = 0;
    while i < s.len()
        invariant
            i <= s.len(),
            s@ == text@,
            entries(s@, 0, Seq::empty()) == entries(s@, i as int, list),
            bundle@ == crate::table::table_map(list),
        decreases s.len() - i,
    {
        let l = skip_lines(&s, i);
        if l >= s.len() {
            i = l;
        } else if char_in_class(CharClass::Blank, s[l]) {
            return Err(ParseError { line: line_of(&s, l), reason: ParseReason::StrayContinuation });
        } else {
            match parse_entry(&s, l) {
                Err(f) => {
                    return Err(ParseError { line: line_of(&s, f.at), reason: f.reason });
                },
                Ok((key, pattern, n)) => {
                    proof {
                        let e: EntryView = (key@, pattern_view(pattern@));
                        assert(list.push(e).drop_last() =~= list);
                        list = list.push(e);
                    }
                    bundle.insert(key, pattern);
                    i = n;
                },
            }
        }
    }
    Ok(bundle)
}

} // verus!
