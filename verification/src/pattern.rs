//! Compiled message patterns and their mathematical model.

use vstd::prelude::*;

verus! {

/// One piece of a compiled pattern.
#[derive(Debug, PartialEq, Eq)]
pub enum Segment {
    /// Text that is written out as it stands.
    Literal(String),
    /// A variable, replaced by the argument of that name.
    Placeholder(String),
    /// A choice among branches, made on the argument of that name.
    Selector(String, Vec<Branch>),
}

/// One branch of a selector.
#[derive(Debug, PartialEq, Eq)]
pub struct Branch {
    /// The value that the argument is compared with.
    pub guard: String,
    /// Whether this is the branch taken when no guard matches.
    pub default: bool,
    /// What the branch writes.
    pub pattern: Vec<Segment>,
}

/// The model of a [`Segment`].
pub ghost enum SegmentView {
    Literal(Seq<char>),
    Placeholder(Seq<char>),
    Selector(Seq<char>, Seq<BranchView>),
}

/// The model of a [`Branch`].
pub ghost struct BranchView {
    pub guard: Seq<char>,
    pub default: bool,
    pub pattern: Seq<SegmentView>,
}

impl Segment {
    pub open spec fn view(&self) -> SegmentView
        decreases self,
    {
        match self {
            Segment::Literal(t) => SegmentView::Literal(t@),
            Segment::Placeholder(n) => SegmentView::Placeholder(n@),
            Segment::Selector(n, branches) => SegmentView::Selector(n@, branches_view(branches@)),
        }
    }
}

impl Branch {
    pub open spec fn view(&self) -> BranchView
        decreases self,
    {
        BranchView {
            guard: self.guard@,
            default: self.default,
            pattern: pattern_view(self.pattern@),
        }
    }
}

/// The model of a pattern: the models of its segments, in order.
pub open spec fn pattern_view(p: Seq<Segment>) -> Seq<SegmentView>
    decreases p,
{
    Seq::new(
        p.len(),
        |i: int|
            if 0 <= i < p.len() {
                p[i].view()
            } else {
                arbitrary()
            },
    )
}

/// The models of a selector's branches, in order.
pub open spec fn branches_view(b: Seq<Branch>) -> Seq<BranchView>
    decreases b,
{
    Seq::new(
        b.len(),
        |i: int|
            if 0 <= i < b.len() {
                b[i].view()
            } else {
                arbitrary()
            },
    )
}

/// How many of the branches are marked as the default.
pub open spec fn default_count(b: Seq<BranchView>) -> nat
    decreases b.len(),
{
    if b.len() == 0 {
        0
    } else {
        default_count(b.drop_last()) + if b.last().default {
            1nat
        } else {
            0nat
        }
    }
}

/// Every selector of the pattern, at any depth, has exactly one default
/// branch.
pub open spec fn well_formed(p: Seq<SegmentView>) -> bool
    decreases p,
{
    forall|i: int| 0 <= i < p.len() ==> segment_well_formed(#[trigger] p[i])
}

pub open spec fn segment_well_formed(seg: SegmentView) -> bool
    decreases seg,
{
    match seg {
        SegmentView::Selector(_, branches) => {
            &&& default_count(branches) == 1
            &&& forall|k: int|
                0 <= k < branches.len() ==> well_formed((#[trigger] branches[k]).pattern)
        },
        _ => true,
    }
}

} // verus!
