//! Splitting the realized flow into page-geometry sections.

use vstd::prelude::*;

use crate::document::geometry::{SectGeom, same_section, sections_agree};
use crate::dom::{SectType, Tag};
use crate::length::{Rel, TWIP, abs_to_twip, twips};

verus! {

/// The parity a page break moves to.
#[derive(Debug, Copy, Clone, PartialEq, Eq, Structural)]
pub enum Parity {
    Even,
    Odd,
}

/// What the section planner reads of one child of the realized flow.
#[derive(Debug, Copy, Clone, PartialEq, Eq, Structural)]
pub enum FlowKind {
    /// A page break: whether it marks a page-style boundary, whether it is
    /// weak, and the parity it asks for.
    Pagebreak { boundary: bool, weak: bool, to: Option<Parity> },
    /// A column container: whether it is laid out as a table, its column count
    /// and its gutter, whose share is of the text width.
    Columns { uses_table: bool, count: u32, gutter: Rel },
    /// An introspection tag.
    Tag(Tag),
    /// Any other content.
    Content,
}

/// An alignment along a fixed axis.
#[derive(Debug, Copy, Clone, PartialEq, Eq, Structural)]
pub enum FixedAlign {
    Start,
    Center,
    End,
}

/// One child of the realized flow with what its style chain resolves to.
#[derive(Debug, Copy, Clone, PartialEq, Eq, Structural)]
pub struct FlowItem {
    pub kind: FlowKind,
    /// Index of the style chain in force at the child.
    pub styles: usize,
    /// The vertical alignment in force at the child.
    pub align_y: FixedAlign,
    /// The physical page, counted from one, that the child landed on in the
    /// paged layout, where that is known.
    pub page: Option<usize>,
}

impl FlowItem {
    pub open spec fn is_break(self) -> bool {
        self.kind is Pagebreak
    }

    pub open spec fn is_tag(self) -> bool {
        self.kind is Tag
    }

    /// Whether the item is a page break that opens a new page by itself.
    pub open spec fn is_hard_break(self) -> bool {
        self.kind matches FlowKind::Pagebreak { boundary, weak, .. } && !boundary && !weak
    }

    /// The section start a page break's parity asks for.
    pub open spec fn forced(self) -> Option<SectType> {
        match self.kind {
            FlowKind::Pagebreak { to: Some(Parity::Even), .. } => Some(SectType::EvenPage),
            FlowKind::Pagebreak { to: Some(Parity::Odd), .. } => Some(SectType::OddPage),
            _ => None,
        }
    }
}

/// A maximal run of page breaks followed by a maximal run of content.
#[derive(Debug, Copy, Clone, PartialEq, Eq, Structural)]
pub struct PageRun {
    /// Index of the first page break before the content.
    pub breaks: usize,
    /// Index of the first content item.
    pub start: usize,
    /// Index one past the last content item.
    pub end: usize,
    /// The style chain the run starts from.
    pub styles: usize,
}

/// The end of the run of page breaks that starts at `i`.
pub open spec fn breaks_end(items: Seq<FlowItem>, i: int) -> int
    decreases items.len() - i,
{
    if 0 <= i < items.len() && items[i].is_break() {
        breaks_end(items, i + 1)
    } else {
        i
    }
}

/// The end of the run of content that starts at `i`.
pub open spec fn content_end(items: Seq<FlowItem>, i: int) -> int
    decreases items.len() - i,
{
    if 0 <= i < items.len() && !items[i].is_break() {
        content_end(items, i + 1)
    } else {
        i
    }
}

/// The style chain in force after the page breaks `i..j`: that of the last one
/// which is no boundary marker. Boundary markers carry the styles from before
/// the page rule.
pub open spec fn chain_after(items: Seq<FlowItem>, i: int, j: int, initial: usize) -> usize
    decreases j - i,
{
    if i < j {
        let before = chain_after(items, i, j - 1, initial);
        match items[j - 1].kind {
            FlowKind::Pagebreak { boundary: true, .. } => before,
            _ => items[j - 1].styles,
        }
    } else {
        initial
    }
}

/// The runs of the flow from item `i` on.
pub open spec fn runs_from(items: Seq<FlowItem>, i: int, initial: usize) -> Seq<PageRun>
    decreases items.len() - i,
{
    if 0 <= i < items.len() {
        let j = breaks_end(items, i);
        let k = content_end(items, j);
        let styles = chain_after(items, i, j, initial);
        let run = PageRun { breaks: i as usize, start: j as usize, end: k as usize, styles };
        if i < k <= items.len() {
            seq![run] + runs_from(items, k, styles)
        } else {
            seq![run]
        }
    } else {
        Seq::empty()
    }
}

pub proof fn lemma_breaks_end(items: Seq<FlowItem>, i: int)
    requires
        0 <= i <= items.len(),
    ensures
        i <= breaks_end(items, i) <= items.len(),
        forall|x: int| i <= x < breaks_end(items, i) ==> (#[trigger] items[x]).is_break(),
        breaks_end(items, i) < items.len() ==> !items[breaks_end(items, i)].is_break(),
    decreases items.len() - i,
{
    if i < items.len() && items[i].is_break() {
        lemma_breaks_end(items, i + 1);
    }
}

pub proof fn lemma_content_end(items: Seq<FlowItem>, i: int)
    requires
        0 <= i <= items.len(),
    ensures
        i <= content_end(items, i) <= items.len(),
        forall|x: int| i <= x < content_end(items, i) ==> !(#[trigger] items[x]).is_break(),
        content_end(items, i) < items.len() ==> items[content_end(items, i)].is_break(),
    decreases items.len() - i,
{
    if i < items.len() && !items[i].is_break() {
        lemma_content_end(items, i + 1);
    }
}

/// A run that starts inside the flow is not empty.
proof fn lemma_run_progress(items: Seq<FlowItem>, i: int)
    requires
        0 <= i < items.len(),
    ensures
        content_end(items, breaks_end(items, i)) > i,
{
    lemma_breaks_end(items, i);
    let j = breaks_end(items, i);
    lemma_content_end(items, j);
    if j == i {
        assert(!items[i].is_break());
        lemma_content_end(items, i + 1);
    }
}

fn is_break(item: &FlowItem) -> (r: bool)
    ensures
        r == item.is_break(),
{
    match item.kind {
        FlowKind::Pagebreak { .. } => true,
        _ => false,
    }
}

/// Splits the flow into its page runs. Each run's geometry can be resolved from
/// its style chain and its content before sections are planned.
pub fn page_runs(items: &Vec<FlowItem>, initial: usize) -> (runs: Vec<PageRun>)
    ensures
        runs@ == runs_from(items@, 0, initial),
{
    let mut runs: Vec<PageRun> = Vec::new();
    let mut i: usize = 0;
    let mut styles: usize = initial;
    while i < items.len()
        invariant
            i <= items.len(),
            runs@ + runs_from(items@, i as int, styles) == runs_from(items@, 0, initial),
        decreases items.len() - i,
    {
        let breaks: usize = i;
        let ghost before = styles;
        proof {
            lemma_breaks_end(items@, i as int);
        }
        let mut j: usize = i;
        while j < items.len() && is_break(&items[j])
            invariant
                i <= j <= items.len(),
                breaks_end(items@, i as int) == breaks_end(items@, j as int),
                styles == chain_after(items@, i as int, j as int, before),
                forall|x: int| i <= x < j ==> (#[trigger] items@[x]).is_break(),
            decreases items.len() - j,
        {
            match items[j].kind {
                FlowKind::Pagebreak { boundary: true, .. } => {}
                _ => {
                    styles = items[j].styles;
                }
            }
            j = j + 1;
        }
        let mut k: usize = j;
        while k < items.len() && !is_break(&items[k])
            invariant
                j <= k <= items.len(),
                content_end(items@, j as int) == content_end(items@, k as int),
            decreases items.len() - k,
        {
            k = k + 1;
        }
        proof {
            lemma_run_progress(items@, i as int);
        }
        let ghost prior = runs@;
        let run: PageRun = PageRun { breaks, start: j, end: k, styles };
        runs.push(run);
        assert(runs@ + runs_from(items@, k as int, styles) =~= prior + (seq![run] + runs_from(
            items@,
            k as int,
            styles,
        )));
        i = k;
    }
    assert(runs@ =~= runs@ + runs_from(items@, i as int, styles));
    runs
}

/// One planned section: its geometry, the flow items whose content belongs to
/// it, the break to the next section, and the page breaks that must be rendered
/// at its start.
#[derive(Debug, Copy, Clone)]
pub struct SectionRun {
    pub geom: SectGeom,
    pub start: usize,
    pub end: usize,
    pub break_after: Option<SectType>,
    /// Page breaks beyond the one consumed by the preceding section boundary.
    pub leading_pagebreaks: usize,
}

/// The number of hard page breaks among the items `i..j`.
pub open spec fn hard_breaks(items: Seq<FlowItem>, i: int, j: int) -> nat
    decreases j - i,
{
    if i < j {
        hard_breaks(items, i, j - 1) + (if items[j - 1].is_hard_break() {
            1nat
        } else {
            0nat
        })
    } else {
        0
    }
}

/// The section start that the last of the page breaks `i..j` asks for.
pub open spec fn forced_break(items: Seq<FlowItem>, i: int, j: int) -> Option<SectType> {
    if i < j {
        items[j - 1].forced()
    } else {
        None
    }
}

/// The smaller of a break count reduced by `consumed` and the hard breaks.
pub open spec fn surplus_breaks(skipped: int, consumed: int, hard: nat) -> nat {
    let left = if skipped > consumed {
        (skipped - consumed) as nat
    } else {
        0nat
    };
    if left < hard {
        left
    } else {
        hard
    }
}

/// Whether the plan ends in an empty section that restores the base geometry
/// after a column section.
pub open spec fn restored_after_columns(s: Seq<SectionRun>) -> bool {
    s.len() >= 2 && s.last().start >= s.last().end && s[s.len() - 2].break_after == Some(
        SectType::Continuous,
    )
}

/// The plan after the page breaks `i..j`.
pub open spec fn after_breaks(
    s: Seq<SectionRun>,
    items: Seq<FlowItem>,
    i: int,
    j: int,
) -> Seq<SectionRun> {
    let forced = forced_break(items, i, j);
    if j > i && restored_after_columns(s) {
        let last = s.len() - 1;
        let closing = SectionRun {
            break_after: Some(
                match forced {
                    Some(t) => t,
                    None => SectType::NextPage,
                },
            ),
            ..s[last - 1]
        };
        let restored = SectionRun {
            leading_pagebreaks: surplus_breaks(j - i, 1, hard_breaks(items, i, j)) as usize,
            ..s[last]
        };
        s.update(last - 1, closing).update(last, restored)
    } else if forced is Some && s.len() > 0 {
        s.update(s.len() - 1, SectionRun { break_after: forced, ..s.last() })
    } else {
        s
    }
}

/// Whether a run with the given geometry continues the last section: that one
/// asks for no break, the run restarts no page number and no section-scoped
/// property changes.
pub open spec fn continues_last(s: Seq<SectionRun>, geom: SectGeom) -> bool {
    s.len() > 0 && s.last().break_after is None && geom.page_num_start is None && sections_agree(
        s.last().geom,
        geom,
    )
}

/// The plan after a run of content.
pub open spec fn pushed(
    s: Seq<SectionRun>,
    geom: SectGeom,
    start: usize,
    end: usize,
    break_after: Option<SectType>,
    allow_empty: bool,
) -> Seq<SectionRun> {
    if continues_last(s, geom) {
        s.update(s.len() - 1, SectionRun { end, break_after, ..s.last() })
    } else if start >= end && !allow_empty {
        s
    } else {
        s.push(SectionRun { geom, start, end, break_after, leading_pagebreaks: 0 })
    }
}

/// The plan after the last section was closed in front of a column section.
pub open spec fn closed_at(s: Seq<SectionRun>, geom: SectGeom, boundary: usize) -> Seq<SectionRun> {
    if continues_last(s, geom) {
        s.update(
            s.len() - 1,
            SectionRun { end: boundary, break_after: Some(SectType::Continuous), ..s.last() },
        )
    } else {
        s
    }
}

/// Whether an item is a column container that gets sections of its own.
pub open spec fn splits_columns(item: FlowItem) -> bool {
    item.kind matches FlowKind::Columns { uses_table, .. } && !uses_table
}

/// The width of the text area of a page setup.
pub open spec fn text_width(g: SectGeom) -> i64 {
    let width = g.page_w - g.margin_left - g.margin_right;
    (if width > 0 {
        width * TWIP
    } else {
        0
    }) as i64
}

/// The base geometry with the column count and gutter of a container.
pub open spec fn with_columns(base: SectGeom, item: FlowItem) -> SectGeom {
    match item.kind {
        FlowKind::Columns { count, gutter, .. } => SectGeom {
            columns: count,
            col_space: twips(gutter.at(text_width(base)) as int),
            ..base
        },
        _ => base,
    }
}

/// The state of planning a content run that holds column containers: the plan,
/// the start of the pending segment, and whether a container was met.
pub struct ColumnPlan {
    pub sections: Seq<SectionRun>,
    pub segment: usize,
    pub saw_columns: bool,
}

/// Planning of the items `start..i` of such a run.
pub open spec fn columns_upto(
    s: Seq<SectionRun>,
    items: Seq<FlowItem>,
    base: SectGeom,
    start: int,
    i: int,
) -> ColumnPlan
    decreases i - start,
{
    if i <= start {
        ColumnPlan { sections: s, segment: start as usize, saw_columns: false }
    } else {
        let prev = columns_upto(s, items, base, start, i - 1);
        let item = items[i - 1];
        if !splits_columns(item) {
            prev
        } else {
            let at = (i - 1) as usize;
            let closed = if prev.segment < at {
                pushed(prev.sections, base, prev.segment, at, Some(SectType::Continuous), false)
            } else {
                closed_at(prev.sections, base, at)
            };
            ColumnPlan {
                sections: pushed(
                    closed,
                    with_columns(base, item),
                    at,
                    i as usize,
                    Some(SectType::Continuous),
                    false,
                ),
                segment: i as usize,
                saw_columns: true,
            }
        }
    }
}

/// The plan after a content run that holds column containers.
pub open spec fn with_column_sections(
    s: Seq<SectionRun>,
    items: Seq<FlowItem>,
    base: SectGeom,
    start: usize,
    end: usize,
) -> Seq<SectionRun> {
    let plan = columns_upto(s, items, base, start as int, end as int);
    if plan.segment < end {
        pushed(plan.sections, base, plan.segment, end, None, false)
    } else if plan.saw_columns {
        pushed(plan.sections, base, end, end, None, true)
    } else {
        plan.sections
    }
}

/// Whether the items `i..j` hold a column container.
pub open spec fn has_columns(items: Seq<FlowItem>, i: int, j: int) -> bool {
    exists|x: int| i <= x < j && (#[trigger] items[x]).kind is Columns
}

/// The plan after one page run.
pub open spec fn after_run(
    s: Seq<SectionRun>,
    items: Seq<FlowItem>,
    run: PageRun,
    geom: SectGeom,
) -> Seq<SectionRun> {
    let s1 = after_breaks(s, items, run.breaks as int, run.start as int);
    if run.start >= items.len() {
        s1
    } else {
        let s2 = if has_columns(items, run.start as int, run.end as int) {
            with_column_sections(s1, items, geom, run.start, run.end)
        } else {
            pushed(s1, geom, run.start, run.end, None, false)
        };
        if 0 < s1.len() < s2.len() {
            let at = s1.len() as int;
            let lead = surplus_breaks(
                run.start - run.breaks,
                2,
                hard_breaks(items, run.breaks as int, run.start as int),
            );
            s2.update(at, SectionRun { leading_pagebreaks: lead as usize, ..s2[at] })
        } else {
            s2
        }
    }
}

/// The plan after the first `n` page runs.
pub open spec fn planned(
    items: Seq<FlowItem>,
    runs: Seq<PageRun>,
    geoms: Seq<SectGeom>,
    n: int,
) -> Seq<SectionRun>
    decreases n,
{
    if n <= 0 {
        Seq::empty()
    } else {
        after_run(planned(items, runs, geoms, n - 1), items, runs[n - 1], geoms[n - 1])
    }
}

/// Whether the items `i..j` are all tags, and there is at least one.
pub open spec fn content_empty(items: Seq<FlowItem>, i: int, j: int) -> bool {
    i < j && forall|x: int| i <= x < j ==> (#[trigger] items[x]).is_tag()
}

/// Whether a section holds nothing but tags and asks for no page transition.
pub open spec fn absorbable(items: Seq<FlowItem>, s: SectionRun) -> bool {
    s.break_after is None && s.leading_pagebreaks == 0 && content_empty(
        items,
        s.start as int,
        s.end as int,
    )
}

/// The plan with the content-empty sections from `idx` on absorbed: each by the
/// section after it, the last one by the section before it.
pub open spec fn absorbed(items: Seq<FlowItem>, s: Seq<SectionRun>, idx: int) -> Seq<SectionRun>
    decreases s.len() - idx,
{
    if idx < 0 || idx >= s.len() {
        s
    } else if !absorbable(items, s[idx]) {
        absorbed(items, s, idx + 1)
    } else if idx + 1 < s.len() {
        let next = SectionRun { start: s[idx].start, ..s[idx + 1] };
        absorbed(items, s.update(idx + 1, next).remove(idx), idx)
    } else if idx > 0 {
        let prev = SectionRun { end: s[idx].end, ..s[idx - 1] };
        absorbed(items, s.update(idx - 1, prev).remove(idx), idx)
    } else {
        absorbed(items, s, idx + 1)
    }
}

/// The sections of a flow whose page runs have the given geometries.
pub open spec fn sections_of(
    items: Seq<FlowItem>,
    initial: usize,
    geoms: Seq<SectGeom>,
) -> Seq<SectionRun> {
    let runs = runs_from(items, 0, initial);
    absorbed(items, planned(items, runs, geoms, runs.len() as int), 0)
}

fn forced_of(item: &FlowItem) -> (r: Option<SectType>)
    ensures
        r == item.forced(),
{
    match item.kind {
        FlowKind::Pagebreak { to: Some(Parity::Even), .. } => Some(SectType::EvenPage),
        FlowKind::Pagebreak { to: Some(Parity::Odd), .. } => Some(SectType::OddPage),
        _ => None,
    }
}

fn is_hard(item: &FlowItem) -> (r: bool)
    ensures
        r == item.is_hard_break(),
{
    match item.kind {
        FlowKind::Pagebreak { boundary, weak, .. } => !boundary && !weak,
        _ => false,
    }
}

fn count_hard(items: &Vec<FlowItem>, i: usize, j: usize) -> (r: usize)
    requires
        i <= j <= items.len(),
    ensures
        r == hard_breaks(items@, i as int, j as int),
        r <= j - i,
{
    let mut n: usize = 0;
    let mut k: usize = i;
    while k < j
        invariant
            i <= k <= j <= items.len(),
            n == hard_breaks(items@, i as int, k as int),
            n <= k - i,
        decreases j - k,
    {
        if is_hard(&items[k]) {
            n = n + 1;
        }
        k = k + 1;
    }
    n
}

fn surplus(skipped: usize, consumed: usize, hard: usize) -> (r: usize)
    ensures
        r == surplus_breaks(skipped as int, consumed as int, hard as nat),
{
    let left: usize = if skipped > consumed {
        skipped - consumed
    } else {
        0
    };
    if left < hard {
        left
    } else {
        hard
    }
}

fn apply_breaks(sections: &mut Vec<SectionRun>, items: &Vec<FlowItem>, i: usize, j: usize)
    requires
        i <= j <= items.len(),
    ensures
        final(sections)@ == after_breaks(old(sections)@, items@, i as int, j as int),
{
    let forced: Option<SectType> = if i < j {
        forced_of(&items[j - 1])
    } else {
        None
    };
    let n: usize = sections.len();
    let restored: bool = j > i && n >= 2 && sections[n - 1].start >= sections[n - 1].end
        && sections[n - 2].break_after == Some(SectType::Continuous);
    if restored {
        let mut closing: SectionRun = sections[n - 2];
        closing.break_after = Some(
            match forced {
                Some(t) => t,
                None => SectType::NextPage,
            },
        );
        let mut last: SectionRun = sections[n - 1];
        let hard: usize = count_hard(items, i, j);
        last.leading_pagebreaks = surplus(j - i, 1, hard);
        sections.set(n - 2, closing);
        sections.set(n - 1, last);
    } else if forced.is_some() && n > 0 {
        let mut last: SectionRun = sections[n - 1];
        last.break_after = forced;
        sections.set(n - 1, last);
    }
}

fn continues(sections: &Vec<SectionRun>, geom: &SectGeom) -> (r: bool)
    ensures
        r == continues_last(sections@, *geom),
{
    let n: usize = sections.len();
    n > 0 && sections[n - 1].break_after.is_none() && geom.page_num_start.is_none() && same_section(
        &sections[n - 1].geom,
        geom,
    )
}

/// Adds a run of content to the plan. A page-number restart always begins a new
/// section; a run without one may continue a predecessor that restarted.
pub fn push_section_run(
    sections: &mut Vec<SectionRun>,
    geom: SectGeom,
    start: usize,
    end: usize,
    break_after: Option<SectType>,
    allow_empty: bool,
)
    ensures
        final(sections)@ == pushed(old(sections)@, geom, start, end, break_after, allow_empty),
{
    if continues(sections, &geom) {
        let n: usize = sections.len();
        let mut last: SectionRun = sections[n - 1];
        last.end = end;
        last.break_after = break_after;
        sections.set(n - 1, last);
    } else if start >= end && !allow_empty {
    } else {
        sections.push(SectionRun { geom, start, end, break_after, leading_pagebreaks: 0 });
    }
}

/// Ends the last section in front of a column section when it is continued by
/// the base geometry.
pub fn close_previous_section_at(sections: &mut Vec<SectionRun>, geom: &SectGeom, boundary: usize)
    ensures
        final(sections)@ == closed_at(old(sections)@, *geom, boundary),
{
    if continues(sections, geom) {
        let n: usize = sections.len();
        let mut last: SectionRun = sections[n - 1];
        last.end = boundary;
        last.break_after = Some(SectType::Continuous);
        sections.set(n - 1, last);
    }
}

/// The geometry of a column container's own section.
pub fn columns_section_geometry(base: &SectGeom, item: &FlowItem) -> (r: SectGeom)
    ensures
        r == with_columns(*base, *item),
{
    let mut geom: SectGeom = *base;
    match item.kind {
        FlowKind::Columns { count, gutter, .. } => {
            let width: i64 = base.page_w as i64 - base.margin_left as i64
                - base.margin_right as i64;
            let reference: i64 = if width > 0 {
                width * TWIP
            } else {
                0
            };
            geom.columns = count;
            geom.col_space = abs_to_twip(gutter.relative_to(reference));
        }
        _ => {}
    }
    geom
}

/// Plans a content run that holds column containers: each container gets a
/// continuous section of its own between sections of the base geometry.
pub fn push_column_sections(
    sections: &mut Vec<SectionRun>,
    items: &Vec<FlowItem>,
    start: usize,
    end: usize,
    base_geom: &SectGeom,
)
    requires
        start <= end <= items.len(),
    ensures
        final(sections)@ == with_column_sections(old(sections)@, items@, *base_geom, start, end),
{
    let mut segment: usize = start;
    let mut saw_columns: bool = false;
    let mut i: usize = start;
    while i < end
        invariant
            start <= i <= end <= items.len(),
            segment <= i,
            ({
                let plan = columns_upto(old(sections)@, items@, *base_geom, start as int, i as int);
                sections@ == plan.sections && segment == plan.segment && saw_columns
                    == plan.saw_columns
            }),
        decreases end - i,
    {
        let splits: bool = match items[i].kind {
            FlowKind::Columns { uses_table, .. } => !uses_table,
            _ => false,
        };
        if splits {
            if segment < i {
                push_section_run(
                    sections,
                    *base_geom,
                    segment,
                    i,
                    Some(SectType::Continuous),
                    false,
                );
            } else {
                close_previous_section_at(sections, base_geom, i);
            }
            let geom: SectGeom = columns_section_geometry(base_geom, &items[i]);
            push_section_run(sections, geom, i, i + 1, Some(SectType::Continuous), false);
            saw_columns = true;
            segment = i + 1;
        }
        i = i + 1;
    }
    if segment < end {
        push_section_run(sections, *base_geom, segment, end, None, false);
    } else if saw_columns {
        push_section_run(sections, *base_geom, end, end, None, true);
    }
}

fn holds_columns(items: &Vec<FlowItem>, i: usize, j: usize) -> (r: bool)
    requires
        i <= j <= items.len(),
    ensures
        r == has_columns(items@, i as int, j as int),
{
    let mut k: usize = i;
    while k < j
        invariant
            i <= k <= j <= items.len(),
            forall|x: int| i <= x < k ==> !((#[trigger] items@[x]).kind is Columns),
        decreases j - k,
    {
        match items[k].kind {
            FlowKind::Columns { .. } => {
                return true;
            }
            _ => {}
        }
        k = k + 1;
    }
    false
}

fn is_content_empty(items: &Vec<FlowItem>, i: usize, j: usize) -> (r: bool)
    requires
        j <= items.len(),
    ensures
        r == content_empty(items@, i as int, j as int),
{
    if i >= j {
        return false;
    }
    let mut k: usize = i;
    while k < j
        invariant
            i <= k <= j <= items.len(),
            i < j,
            forall|x: int| i <= x < k ==> (#[trigger] items@[x]).is_tag(),
        decreases j - k,
    {
        match items[k].kind {
            FlowKind::Tag(_) => {}
            _ => {
                return false;
            }
        }
        k = k + 1;
    }
    true
}

/// Absorbs sections that wrap nothing but tags into a neighbor, so that they
/// cost no page transition.
pub fn merge_content_empty_sections(items: &Vec<FlowItem>, sections: &mut Vec<SectionRun>)
    requires
        forall|x: int| 0 <= x < old(sections)@.len() ==> (#[trigger] old(sections)@[x]).end
            <= items.len(),
    ensures
        final(sections)@ == absorbed(items@, old(sections)@, 0),
{
    let mut idx: usize = 0;
    while idx < sections.len()
        invariant
            idx <= sections.len(),
            absorbed(items@, sections@, idx as int) == absorbed(items@, old(sections)@, 0),
            forall|x: int| 0 <= x < sections@.len() ==> (#[trigger] sections@[x]).end
                <= items.len(),
        decreases sections.len() - idx,
    {
        let section: SectionRun = sections[idx];
        if section.break_after.is_some() || section.leading_pagebreaks != 0 || !is_content_empty(
            items,
            section.start,
            section.end,
        ) {
            idx = idx + 1;
        } else if idx + 1 < sections.len() {
            let mut next: SectionRun = sections[idx + 1];
            next.start = section.start;
            sections.set(idx + 1, next);
            let _ = sections.remove(idx);
        } else if idx > 0 {
            let mut prev: SectionRun = sections[idx - 1];
            prev.end = section.end;
            sections.set(idx - 1, prev);
            let _ = sections.remove(idx);
        } else {
            idx = idx + 1;
        }
    }
}

/// Whether some section's range holds item `x`.
pub open spec fn covered(s: Seq<SectionRun>, x: int) -> bool {
    exists|a: int| 0 <= a < s.len() && (#[trigger] s[a]).start <= x < s[a].end
}

/// Whether the sections partition the content among the first `p` items: their
/// ranges follow one another without overlap and every item before `p` that is
/// no page break lies in one of them.
pub open spec fn partitions(s: Seq<SectionRun>, items: Seq<FlowItem>, p: int) -> bool {
    &&& forall|a: int| 0 <= a < s.len() ==> (#[trigger] s[a]).start <= s[a].end <= p
    &&& forall|a: int, b: int|
        0 <= a < b < s.len() ==> (#[trigger] s[a]).end <= (#[trigger] s[b]).start
    &&& forall|x: int| 0 <= x < p && !(#[trigger] items[x]).is_break() ==> covered(s, x)
}

pub proof fn lemma_skip_breaks(s: Seq<SectionRun>, items: Seq<FlowItem>, p: int, q: int)
    requires
        partitions(s, items, p),
        p <= q <= items.len(),
        forall|x: int| p <= x < q ==> (#[trigger] items[x]).is_break(),
    ensures
        partitions(s, items, q),
{
}

pub proof fn lemma_same_ranges(s: Seq<SectionRun>, t: Seq<SectionRun>, items: Seq<FlowItem>, p: int)
    requires
        partitions(s, items, p),
        s.len() == t.len(),
        forall|a: int|
            0 <= a < s.len() ==> (#[trigger] t[a]).start == s[a].start && t[a].end == s[a].end,
    ensures
        partitions(t, items, p),
{
    assert forall|x: int| 0 <= x < p && !(#[trigger] items[x]).is_break() implies covered(t, x) by {
        let a = choose|a: int| 0 <= a < s.len() && (#[trigger] s[a]).start <= x < s[a].end;
        assert(t[a].start <= x < t[a].end);
    }
    assert forall|a: int, b: int| 0 <= a < b < t.len() implies (#[trigger] t[a]).end
        <= (#[trigger] t[b]).start by {
        assert(s[a].end <= s[b].start);
    }
}

proof fn lemma_extend_last(
    s: Seq<SectionRun>,
    t: Seq<SectionRun>,
    items: Seq<FlowItem>,
    p: int,
    q: usize,
)
    requires
        s.len() > 0,
        partitions(s, items, p),
        p <= q <= items.len(),
        s.len() == t.len(),
        forall|a: int|
            0 <= a < s.len() ==> (#[trigger] t[a]).start == s[a].start && t[a].end == (if a == s.len()
                - 1 {
                q
            } else {
                s[a].end
            }),
    ensures
        partitions(t, items, q as int),
{
    let last = s.len() - 1;
    assert forall|x: int| 0 <= x < q && !(#[trigger] items[x]).is_break() implies covered(t, x) by {
        if x < p {
            let a = choose|a: int| 0 <= a < s.len() && (#[trigger] s[a]).start <= x < s[a].end;
            assert(t[a].start <= x < t[a].end);
        } else {
            assert(s[last].end <= p);
            assert(t[last].start <= x < t[last].end);
        }
    }
    assert forall|a: int, b: int| 0 <= a < b < t.len() implies (#[trigger] t[a]).end
        <= (#[trigger] t[b]).start by {
        assert(s[a].end <= s[b].start);
    }
    assert forall|a: int| 0 <= a < t.len() implies (#[trigger] t[a]).start <= t[a].end <= q by {
        assert(s[a].start <= s[a].end <= p);
    }
}

pub proof fn lemma_pushed(
    s: Seq<SectionRun>,
    items: Seq<FlowItem>,
    p: int,
    geom: SectGeom,
    start: usize,
    end: usize,
    break_after: Option<SectType>,
    allow_empty: bool,
)
    requires
        partitions(s, items, p),
        p <= start <= end <= items.len(),
        forall|x: int| p <= x < start ==> (#[trigger] items[x]).is_break(),
    ensures
        partitions(pushed(s, geom, start, end, break_after, allow_empty), items, end as int),
{
    let t = pushed(s, geom, start, end, break_after, allow_empty);
    if continues_last(s, geom) {
        lemma_extend_last(s, t, items, p, end);
    } else if start >= end && !allow_empty {
        lemma_skip_breaks(s, items, p, end as int);
    } else {
        let n = s.len() as int;
        assert forall|x: int| 0 <= x < end && !(#[trigger] items[x]).is_break() implies covered(
            t,
            x,
        ) by {
            if x < p {
                let a = choose|a: int| 0 <= a < s.len() && (#[trigger] s[a]).start <= x < s[a].end;
                assert(t[a].start <= x < t[a].end);
            } else {
                assert(t[n].start <= x < t[n].end);
            }
        }
        assert forall|a: int, b: int| 0 <= a < b < t.len() implies (#[trigger] t[a]).end
            <= (#[trigger] t[b]).start by {
            assert(t[a] == s[a]);
            if b < n {
                assert(t[b] == s[b]);
                assert(s[a].end <= s[b].start);
            }
        }
        assert forall|a: int| 0 <= a < t.len() implies (#[trigger] t[a]).start <= t[a].end <= end by {
            if a < n {
                assert(t[a] == s[a]);
            }
        }
    }
}

pub proof fn lemma_closed_at(
    s: Seq<SectionRun>,
    items: Seq<FlowItem>,
    p: int,
    geom: SectGeom,
    boundary: usize,
)
    requires
        partitions(s, items, p),
        p <= boundary <= items.len(),
        forall|x: int| p <= x < boundary ==> (#[trigger] items[x]).is_break(),
    ensures
        partitions(closed_at(s, geom, boundary), items, boundary as int),
{
    if continues_last(s, geom) {
        lemma_extend_last(s, closed_at(s, geom, boundary), items, p, boundary);
    } else {
        lemma_skip_breaks(s, items, p, boundary as int);
    }
}

pub proof fn lemma_columns_upto(
    s: Seq<SectionRun>,
    items: Seq<FlowItem>,
    base: SectGeom,
    start: int,
    i: int,
)
    requires
        partitions(s, items, start),
        0 <= start <= i <= items.len() <= usize::MAX,
    ensures
        ({
            let plan = columns_upto(s, items, base, start, i);
            start <= plan.segment <= i && partitions(plan.sections, items, plan.segment as int)
        }),
    decreases i - start,
{
    if i > start {
        lemma_columns_upto(s, items, base, start, i - 1);
        let prev = columns_upto(s, items, base, start, i - 1);
        let item = items[i - 1];
        if splits_columns(item) {
            let at = (i - 1) as usize;
            let closed = if prev.segment < at {
                pushed(prev.sections, base, prev.segment, at, Some(SectType::Continuous), false)
            } else {
                closed_at(prev.sections, base, at)
            };
            if prev.segment < at {
                lemma_pushed(
                    prev.sections,
                    items,
                    prev.segment as int,
                    base,
                    prev.segment,
                    at,
                    Some(SectType::Continuous),
                    false,
                );
            } else {
                lemma_closed_at(prev.sections, items, prev.segment as int, base, at);
            }
            lemma_pushed(
                closed,
                items,
                at as int,
                with_columns(base, item),
                at,
                i as usize,
                Some(SectType::Continuous),
                false,
            );
        }
    }
}

/// A page run of the flow: breaks, then content.
pub open spec fn run_wf(items: Seq<FlowItem>, run: PageRun) -> bool {
    &&& run.breaks <= run.start <= run.end <= items.len()
    &&& forall|x: int| run.breaks <= x < run.start ==> (#[trigger] items[x]).is_break()
    &&& forall|x: int| run.start <= x < run.end ==> !(#[trigger] items[x]).is_break()
}

proof fn lemma_after_run(s: Seq<SectionRun>, items: Seq<FlowItem>, run: PageRun, geom: SectGeom)
    requires
        partitions(s, items, run.breaks as int),
        run_wf(items, run),
        items.len() <= usize::MAX,
    ensures
        partitions(after_run(s, items, run, geom), items, run.end as int),
{
    let s1 = after_breaks(s, items, run.breaks as int, run.start as int);
    lemma_same_ranges(s, s1, items, run.breaks as int);
    lemma_skip_breaks(s1, items, run.breaks as int, run.start as int);
    if run.start < items.len() {
        let s2 = if has_columns(items, run.start as int, run.end as int) {
            with_column_sections(s1, items, geom, run.start, run.end)
        } else {
            pushed(s1, geom, run.start, run.end, None, false)
        };
        if has_columns(items, run.start as int, run.end as int) {
            lemma_columns_upto(s1, items, geom, run.start as int, run.end as int);
            let plan = columns_upto(s1, items, geom, run.start as int, run.end as int);
            if plan.segment < run.end {
                lemma_pushed(
                    plan.sections,
                    items,
                    plan.segment as int,
                    geom,
                    plan.segment,
                    run.end,
                    None,
                    false,
                );
            } else if plan.saw_columns {
                lemma_pushed(
                    plan.sections,
                    items,
                    run.end as int,
                    geom,
                    run.end,
                    run.end,
                    None,
                    true,
                );
            }
        } else {
            lemma_pushed(s1, items, run.start as int, geom, run.start, run.end, None, false);
        }
        lemma_same_ranges(s2, after_run(s, items, run, geom), items, run.end as int);
    }
}

/// Where the content that the first `n` runs account for ends.
pub open spec fn runs_reach(runs: Seq<PageRun>, n: int, from: int) -> int {
    if n <= 0 {
        from
    } else {
        runs[n - 1].end as int
    }
}

pub proof fn lemma_runs(items: Seq<FlowItem>, i: int, initial: usize)
    requires
        0 <= i <= items.len() <= usize::MAX,
    ensures
        ({
            let runs = runs_from(items, i, initial);
            &&& forall|n: int|
                0 <= n < runs.len() ==> run_wf(items, #[trigger] runs[n]) && runs[n].breaks
                    == runs_reach(runs, n, i) && runs[n].breaks < runs[n].end
            &&& runs_reach(runs, runs.len() as int, i) == items.len()
        }),
    decreases items.len() - i,
{
    if i < items.len() {
        lemma_run_progress(items, i);
        lemma_breaks_end(items, i);
        let j = breaks_end(items, i);
        lemma_content_end(items, j);
        let k = content_end(items, j);
        let styles = chain_after(items, i, j, initial);
        lemma_runs(items, k, styles);
        let rest = runs_from(items, k, styles);
        let runs = runs_from(items, i, initial);
        assert forall|n: int| 0 <= n < runs.len() implies run_wf(items, #[trigger] runs[n])
            && runs[n].breaks == runs_reach(runs, n, i) && runs[n].breaks < runs[n].end by {
            if n > 0 {
                assert(runs[n] == rest[n - 1]);
                if n > 1 {
                    assert(runs[n - 1] == rest[n - 2]);
                }
            }
        }
        if rest.len() > 0 {
            assert(runs[runs.len() - 1] == rest[rest.len() - 1]);
        }
    }
}

pub proof fn lemma_planned(
    items: Seq<FlowItem>,
    initial: usize,
    geoms: Seq<SectGeom>,
    n: int,
)
    requires
        items.len() <= usize::MAX,
        0 <= n <= runs_from(items, 0, initial).len(),
    ensures
        ({
            let runs = runs_from(items, 0, initial);
            partitions(planned(items, runs, geoms, n), items, runs_reach(runs, n, 0))
        }),
    decreases n,
{
    let runs = runs_from(items, 0, initial);
    if n > 0 {
        lemma_runs(items, 0, initial);
        lemma_planned(items, initial, geoms, n - 1);
        lemma_after_run(planned(items, runs, geoms, n - 1), items, runs[n - 1], geoms[n - 1]);
    }
}

/// The plan with section `idx` merged into the one after it, or into the one
/// before it where it is the last.
pub open spec fn merged(s: Seq<SectionRun>, idx: int) -> Seq<SectionRun> {
    if idx + 1 < s.len() {
        s.update(idx + 1, SectionRun { start: s[idx].start, ..s[idx + 1] }).remove(idx)
    } else {
        s.update(idx - 1, SectionRun { end: s[idx].end, ..s[idx - 1] }).remove(idx)
    }
}

pub proof fn lemma_merged(items: Seq<FlowItem>, s: Seq<SectionRun>, idx: int, p: int)
    requires
        partitions(s, items, p),
        0 <= idx < s.len(),
        s.len() >= 2,
    ensures
        partitions(merged(s, idx), items, p),
{
    let t = merged(s, idx);
    let keep = if idx + 1 < s.len() {
        idx
    } else {
        idx - 1
    };
    assert forall|a: int| 0 <= a < t.len() implies (#[trigger] t[a]).start <= t[a].end <= p by {
        let b = if a < idx {
            a
        } else {
            a + 1
        };
        assert(s[b].start <= s[b].end <= p);
        assert(s[idx].start <= s[idx].end <= p);
        if b > idx {
            assert(s[idx].end <= s[b].start);
        }
        if b < idx {
            assert(s[b].end <= s[idx].start);
        }
    }
    assert forall|a: int, b: int| 0 <= a < b < t.len() implies (#[trigger] t[a]).end
        <= (#[trigger] t[b]).start by {
        let a2 = if a < idx {
            a
        } else {
            a + 1
        };
        let b2 = if b < idx {
            b
        } else {
            b + 1
        };
        assert(s[a2].end <= s[b2].start);
        if a2 < idx {
            assert(s[a2].end <= s[idx].start);
        }
        if idx < b2 {
            assert(s[idx].end <= s[b2].start);
        }
    }
    assert forall|x: int| 0 <= x < p && !(#[trigger] items[x]).is_break() implies covered(
        t,
        x,
    ) by {
        let a = choose|a: int| 0 <= a < s.len() && (#[trigger] s[a]).start <= x < s[a].end;
        if a == idx {
            if idx + 1 < s.len() {
                assert(s[idx].end <= s[idx + 1].start);
                assert(s[idx + 1].start <= s[idx + 1].end);
            } else {
                assert(s[idx - 1].end <= s[idx].start);
                assert(s[idx - 1].start <= s[idx - 1].end);
            }
            assert(t[keep].start <= x < t[keep].end);
        } else {
            let b = if a < idx {
                a
            } else {
                a - 1
            };
            if a == idx + 1 {
                assert(s[idx].end <= s[a].start);
                assert(s[idx].start <= s[idx].end);
            }
            if a == idx - 1 {
                assert(s[a].end <= s[idx].start);
                assert(s[idx].start <= s[idx].end);
            }
            assert(t[b].start <= x < t[b].end);
        }
    }
}

proof fn lemma_absorbed(items: Seq<FlowItem>, s: Seq<SectionRun>, idx: int, p: int)
    requires
        partitions(s, items, p),
        0 <= idx,
    ensures
        partitions(absorbed(items, s, idx), items, p),
    decreases s.len() - idx,
{
    if idx >= s.len() {
    } else if !absorbable(items, s[idx]) {
        lemma_absorbed(items, s, idx + 1, p);
    } else if idx + 1 < s.len() || idx > 0 {
        lemma_merged(items, s, idx, p);
        lemma_absorbed(items, merged(s, idx), idx, p);
    } else {
        lemma_absorbed(items, s, idx + 1, p);
    }
}

/// The sections of a flow partition its content: their ranges follow one
/// another without overlap, and every item that is no page break lies in
/// exactly one of them. No content is lost or converted twice.
pub proof fn sections_partition_content(
    items: Seq<FlowItem>,
    initial: usize,
    geoms: Seq<SectGeom>,
)
    requires
        items.len() <= usize::MAX,
    ensures
        partitions(sections_of(items, initial, geoms), items, items.len() as int),
{
    let runs = runs_from(items, 0, initial);
    lemma_runs(items, 0, initial);
    lemma_planned(items, initial, geoms, runs.len() as int);
    lemma_absorbed(items, planned(items, runs, geoms, runs.len() as int), 0, items.len() as int);
}

fn apply_run(sections: &mut Vec<SectionRun>, items: &Vec<FlowItem>, run: PageRun, geom: &SectGeom)
    requires
        run_wf(items@, run),
    ensures
        final(sections)@ == after_run(old(sections)@, items@, run, *geom),
{
    apply_breaks(sections, items, run.breaks, run.start);
    if run.start < items.len() {
        let previous: usize = sections.len();
        if holds_columns(items, run.start, run.end) {
            push_column_sections(sections, items, run.start, run.end, geom);
        } else {
            push_section_run(sections, *geom, run.start, run.end, None, false);
        }
        if previous > 0 && sections.len() > previous {
            let hard: usize = count_hard(items, run.breaks, run.start);
            let mut first: SectionRun = sections[previous];
            first.leading_pagebreaks = surplus(run.start - run.breaks, 2, hard);
            sections.set(previous, first);
        }
    }
}

fn plan_runs(items: &Vec<FlowItem>, runs: &Vec<PageRun>, geoms: &Vec<SectGeom>) -> (sections: Vec<
    SectionRun,
>)
    requires
        geoms@.len() == runs@.len(),
        forall|k: int| 0 <= k < runs@.len() ==> run_wf(items@, #[trigger] runs@[k]),
    ensures
        sections@ == planned(items@, runs@, geoms@, runs@.len() as int),
{
    let mut sections: Vec<SectionRun> = Vec::new();
    let mut n: usize = 0;
    while n < runs.len()
        invariant
            n <= runs.len(),
            geoms@.len() == runs@.len(),
            sections@ == planned(items@, runs@, geoms@, n as int),
            forall|k: int| 0 <= k < runs@.len() ==> run_wf(items@, #[trigger] runs@[k]),
        decreases runs.len() - n,
    {
        apply_run(&mut sections, items, runs[n], &geoms[n]);
        n = n + 1;
    }
    sections
}

/// Plans the sections of a flow. Consecutive page runs that agree on every
/// section-scoped property share a section, with their page breaks inside it; a
/// change starts a new section, which consumes the page breaks at its boundary.
/// `geoms` holds one geometry per page run.
pub fn resolve_sections(
    items: &Vec<FlowItem>,
    initial: usize,
    geoms: &Vec<SectGeom>,
) -> (sections: Vec<SectionRun>)
    requires
        geoms@.len() == runs_from(items@, 0, initial).len(),
    ensures
        sections@ == sections_of(items@, initial, geoms@),
        partitions(sections@, items@, items@.len() as int),
{
    let runs: Vec<PageRun> = page_runs(items, initial);
    let _total: usize = items.len();
    proof {
        lemma_runs(items@, 0, initial);
    }
    let mut sections: Vec<SectionRun> = plan_runs(items, &runs, geoms);
    proof {
        lemma_planned(items@, initial, geoms@, runs@.len() as int);
        sections_partition_content(items@, initial, geoms@);
    }
    merge_content_empty_sections(items, &mut sections);
    sections
}

} // verus!
