//! Evaluation of a compiled pattern against named arguments.

use crate::args::{ArgValue, ArgValueView, Args};
use crate::pattern::{pattern_view, branches_view, Branch, BranchView, Segment, SegmentView};
use crate::store::{outcome_view, BuildError, BuildErrorView, BundleStore, StoreMap};
use crate::text::{chars_of, decimal, denotes, integer_value, push_integer};
use vstd::prelude::*;

verus! {

/// What a placeholder writes for an argument.
pub open spec fn display(v: ArgValueView) -> Seq<char> {
    match v {
        ArgValueView::Str(t) => t,
        ArgValueView::Int(n) => decimal(n),
        ArgValueView::Preformatted(t) => t,
    }
}

/// What a placeholder writes when its argument is missing: the reference
/// itself, `{$name}`.
pub open spec fn unresolved(name: Seq<char>) -> Seq<char> {
    seq!['{', '$'] + name + seq!['}']
}

/// The argument named `name`, if it was given.
pub open spec fn argument(args: Map<Seq<char>, ArgValueView>, name: Seq<char>) -> Option<
    ArgValueView,
> {
    if args.contains_key(name) {
        Some(args[name])
    } else {
        None
    }
}

/// Whether a guard matches an argument: text matches a guard of the same
/// characters, an integer matches a guard that denotes it, and nothing else
/// matches.
pub open spec fn guard_matches(guard: Seq<char>, arg: Option<ArgValueView>) -> bool {
    match arg {
        Some(ArgValueView::Str(t)) => guard == t,
        Some(ArgValueView::Int(n)) => integer_value(guard) == Some(n),
        _ => false,
    }
}

/// The first branch at or after `from` whose guard matches `arg`.
pub open spec fn first_match(branches: Seq<BranchView>, arg: Option<ArgValueView>, from: int)
    -> Option<int>
    decreases branches.len() - from,
{
    if 0 <= from < branches.len() {
        if guard_matches(branches[from].guard, arg) {
            Some(from)
        } else {
            first_match(branches, arg, from + 1)
        }
    } else {
        None
    }
}

/// The first default branch at or after `from`.
pub open spec fn first_default(branches: Seq<BranchView>, from: int) -> Option<int>
    decreases branches.len() - from,
{
    if 0 <= from < branches.len() {
        if branches[from].default {
            Some(from)
        } else {
            first_default(branches, from + 1)
        }
    } else {
        None
    }
}

/// The branch that a selector takes: the first whose guard matches the
/// argument, else the default branch.
pub open spec fn chosen(branches: Seq<BranchView>, arg: Option<ArgValueView>) -> Option<int> {
    match first_match(branches, arg, 0) {
        Some(k) => Some(k),
        None => first_default(branches, 0),
    }
}

/// The text that a pattern evaluates to.
pub open spec fn render(p: Seq<SegmentView>, args: Map<Seq<char>, ArgValueView>) -> Seq<char> {
    render_from(p, 0, args)
}

/// The text that the segments of `p` from position `i` on evaluate to.
pub open spec fn render_from(p: Seq<SegmentView>, i: int, args: Map<Seq<char>, ArgValueView>)
    -> Seq<char>
    decreases p, p.len() - i,
{
    if 0 <= i < p.len() {
        render_segment(p[i], args) + render_from(p, i + 1, args)
    } else {
        Seq::empty()
    }
}

/// The text that one segment evaluates to.
pub open spec fn render_segment(seg: SegmentView, args: Map<Seq<char>, ArgValueView>) -> Seq<char>
    decreases seg, 0nat,
{
    match seg {
        SegmentView::Literal(t) => t,
        SegmentView::Placeholder(name) => match argument(args, name) {
            Some(v) => display(v),
            None => unresolved(name),
        },
        SegmentView::Selector(name, branches) => match chosen(branches, argument(args, name)) {
            Some(k) => if 0 <= k < branches.len() {
                render_from(branches[k].pattern, 0, args)
            } else {
                Seq::empty()
            },
            None => Seq::empty(),
        },
    }
}

/// The model of an argument that may be missing.
pub open spec fn optional_view(arg: Option<&ArgValue>) -> Option<ArgValueView> {
    match arg {
        Some(v) => Some(v@),
        None => None,
    }
}

/// Appends what a placeholder writes for `value`.
pub fn push_value(value: &ArgValue, out: &mut String)
    ensures
        final(out)@ == old(out)@ + display(value@),
{
    match value {
        ArgValue::Str(t) => out.append(t.as_str()),
        ArgValue::Int(n) => push_integer(*n, out),
        ArgValue::Preformatted(t) => out.append(t.as_str()),
    }
}

/// Appends the reference `{$name}`.
pub fn push_unresolved(name: &String, out: &mut String)
    ensures
        final(out)@ == old(out)@ + unresolved(name@),
{
    out.push('{');
    out.push('$');
    out.append(name.as_str());
    out.push('}');
    assert(out@ =~= old(out)@ + unresolved(name@));
}

/// Whether `guard` matches `arg`.
pub fn matches_guard(guard: &String, arg: Option<&ArgValue>) -> (r: bool)
    ensures
        r == guard_matches(guard@, optional_view(arg)),
{
    match arg {
        Some(ArgValue::Str(t)) => *guard == *t,
        Some(ArgValue::Int(n)) => {
            let digits = chars_of(guard.as_str());
            denotes(&digits, *n)
        },
        _ => false,
    }
}

/// The branch that a selector takes on `arg`.
pub fn choose_branch(branches: &Vec<Branch>, arg: Option<&ArgValue>) -> (r: Option<usize>)
    ensures
        match r {
            Some(k) => k < branches.len() && chosen(branches_view(branches@), optional_view(arg))
                == Some(k as int),
            None => chosen(branches_view(branches@), optional_view(arg)) is None,
        },
{
    let ghost model = branches_view(branches@);
    let ghost value = optional_view(arg);
    let mut i: usize = 0;
    while i < branches.len()
        invariant
            i <= branches.len(),
            model == branches_view(branches@),
            value == optional_view(arg),
            first_match(model, value, 0) == first_match(model, value, i as int),
        decreases branches.len() - i,
    {
        if matches_guard(&branches[i].guard, arg) {
            return Some(i);
        }
        i += 1;
    }
    let mut j: usize = 0;
    while j < branches.len()
        invariant
            j <= branches.len(),
            model == branches_view(branches@),
            value == optional_view(arg),
            first_match(model, value, 0) is None,
            first_default(model, 0) == first_default(model, j as int),
        decreases branches.len() - j,
    {
        if branches[j].default {
            return Some(j);
        }
        j += 1;
    }
    None
}

/// Appends the text that `pattern` evaluates to.
pub fn render_into(pattern: &Vec<Segment>, args: &Args, out: &mut String)
    ensures
        final(out)@ == old(out)@ + render(pattern_view(pattern@), args@),
    decreases pattern,
{
    let ghost model = pattern_view(pattern@);
    let mut i: usize = 0;
    while i < pattern.len()
        invariant
            i <= pattern.len(),
            model == pattern_view(pattern@),
            out@ + render_from(model, i as int, args@) == old(out)@ + render_from(
                model,
                0,
                args@,
            ),
        decreases pattern.len() - i,
    {
        let ghost before = out@;
        render_segment_into(&pattern[i], args, out);
        proof {
            assert(out@ + render_from(model, i + 1, args@) =~= before + render_from(
                model,
                i as int,
                args@,
            ));
        }
        i += 1;
    }
    assert(out@ + render_from(model, i as int, args@) =~= out@);
}

/// Appends the text that `segment` evaluates to.
pub fn render_segment_into(segment: &Segment, args: &Args, out: &mut String)
    ensures
        final(out)@ == old(out)@ + render_segment(segment@, args@),
    decreases segment,
{
    match segment {
        Segment::Literal(t) => {
            out.append(t.as_str());
        },
        Segment::Placeholder(name) => {
            match args.get(name) {
                Some(v) => push_value(v, out),
                None => push_unresolved(name, out),
            }
        },
        Segment::Selector(name, branches) => {
            let arg = args.get(name);
            match choose_branch(branches, arg) {
                Some(k) => {
                    render_into(&branches[k].pattern, args, out);
                },
                None => {
                    assert(out@ =~= old(out)@ + Seq::<char>::empty());
                },
            }
        },
    }
}

/// The arguments of a call as a map; no arguments are the empty map.
pub open spec fn args_view(args: Option<&Args>) -> Map<Seq<char>, ArgValueView> {
    match args {
        Some(a) => a@,
        None => Map::empty(),
    }
}

/// The message that a store gives for a locale, a key and arguments: the
/// text that the key's pattern evaluates to. There is none if the store
/// lacks the locale, the locale's bundle lacks the key, or the pattern is
/// empty.
pub open spec fn message(
    store: StoreMap,
    lang: Seq<char>,
    key: Seq<char>,
    args: Map<Seq<char>, ArgValueView>,
) -> Option<Seq<char>> {
    if store.contains_key(lang) && store[lang].contains_key(key) && store[lang][key].len() > 0 {
        Some(render(store[lang][key], args))
    } else {
        None
    }
}

/// Formats the message `key` of the locale `lang` with `args`.
pub fn get_message(store: &BundleStore, lang: &str, key: &str, args: Option<&Args>) -> (r: Option<
    String,
>)
    ensures
        match r {
            Some(t) => message(store@, lang@, key@, args_view(args)) == Some(t@),
            None => message(store@, lang@, key@, args_view(args)) is None,
        },
{
    let bundle = match store.get(&lang.to_owned()) {
        Some(bundle) => bundle,
        None => {
            return None;
        },
    };
    let pattern = match bundle.get(&key.to_owned()) {
        Some(pattern) => pattern,
        None => {
            return None;
        },
    };
    if pattern.len() == 0 {
        return None;
    }
    let mut out = String::new();
    match args {
        Some(given) => render_into(pattern, given, &mut out),
        None => {
            let none = Args::new();
            render_into(pattern, &none, &mut out);
        },
    }
    assert(out@ =~= render(pattern_view(pattern@), args_view(args)));
    Some(out)
}

/// What a caller gets from what a build left behind: the message of the
/// store, or the error that failed the build, the same at every call.
pub open spec fn formatted(
    outcome: Result<StoreMap, BuildErrorView>,
    lang: Seq<char>,
    key: Seq<char>,
    args: Map<Seq<char>, ArgValueView>,
) -> Result<Option<Seq<char>>, BuildErrorView> {
    match outcome {
        Ok(store) => Ok(message(store, lang, key, args)),
        Err(e) => Err(e),
    }
}

/// Formats the message `key` of the locale `lang` with `args`, on what the
/// one build of the store left behind.
pub fn format(
    outcome: &Result<BundleStore, BuildError>,
    lang: &str,
    key: &str,
    args: Option<&Args>,
) -> (r: Result<Option<String>, BuildError>)
    ensures
        match r {
            Ok(Some(t)) => formatted(outcome_view(*outcome), lang@, key@, args_view(args)) == Ok::<
                Option<Seq<char>>,
                BuildErrorView,
            >(Some(t@)),
            Ok(None) => formatted(outcome_view(*outcome), lang@, key@, args_view(args)) == Ok::<
                Option<Seq<char>>,
                BuildErrorView,
            >(None),
            Err(e) => formatted(outcome_view(*outcome), lang@, key@, args_view(args)) == Err::<
                Option<Seq<char>>,
                BuildErrorView,
            >(e@),
        },
{
    match outcome {
        Ok(store) => Ok(get_message(store, lang, key, args)),
        Err(e) => Err(e.duplicate()),
    }
}

} // verus!
