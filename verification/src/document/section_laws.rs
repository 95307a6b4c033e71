//! What the sections of a document show of the page runs they came from.

use vstd::prelude::*;

use crate::document::geometry::{SectGeom, line_numbers_view};
use crate::document::sections::{
    FlowItem, PageRun, Parity, SectionRun, absorbable, absorbed, after_breaks, after_run,
    breaks_end, chain_after, closed_at, columns_upto, content_empty, content_end, continues_last,
    covered, hard_breaks, has_columns, lemma_breaks_end, lemma_content_end, lemma_closed_at,
    lemma_columns_upto, lemma_merged, lemma_planned, lemma_pushed, lemma_runs, lemma_same_ranges,
    lemma_skip_breaks, merged, partitions, planned, pushed, run_wf, runs_from, runs_reach,
    sections_of, splits_columns, surplus_breaks, with_column_sections, with_columns,
};
use crate::dom::SectType;
use crate::length::twips;

verus! {

/// Whether an item is content: neither a page break nor a tag.
pub open spec fn is_content(item: FlowItem) -> bool {
    !(item.kind is Pagebreak) && !(item.kind is Tag)
}

/// Whether an item is a column container that flows in columns of the page.
pub open spec fn flows_in_columns(item: FlowItem) -> bool {
    item.kind is Columns && !item.kind->uses_table
}

/// Whether a page setup shows an item as the page setup of its page run does.
pub open spec fn shows(shown: SectGeom, own: SectGeom, item: FlowItem) -> bool {
    &&& shown.header == own.header
    &&& shown.header_suppressed == own.header_suppressed
    &&& shown.footer == own.footer
    &&& shown.footer_suppressed == own.footer_suppressed
    &&& shown.background == own.background
    &&& shown.foreground == own.foreground
    &&& shown.page_w == own.page_w
    &&& shown.page_h == own.page_h
    &&& shown.landscape == own.landscape
    &&& shown.margin_top == own.margin_top
    &&& shown.margin_bottom == own.margin_bottom
    &&& shown.margin_left == own.margin_left
    &&& shown.margin_right == own.margin_right
    &&& shown.header_band == own.header_band
    &&& shown.footer_band == own.footer_band
    &&& shown.gutter == own.gutter
    &&& shown.numbering == own.numbering
    &&& shown.number_in_header == own.number_in_header
    &&& shown.number_jc == own.number_jc
    &&& line_numbers_view(shown.line_numbers) == line_numbers_view(own.line_numbers)
    &&& own.page_num_start is Some ==> shown.page_num_start == own.page_num_start
    &&& !flows_in_columns(item) ==> shown.columns == own.columns && shown.col_space
        == own.col_space
    &&& flows_in_columns(item) ==> shown.columns == item.kind->count && shown.col_space == twips(
        item.kind->gutter.at(
            (if own.page_w - own.margin_left - own.margin_right > 0 {
                (own.page_w - own.margin_left - own.margin_right) * 50_000
            } else {
                0
            }) as i64,
        ) as int,
    )
}

/// Whether each content item of the runs lies in a section that shows it as its
/// run does.
pub open spec fn faithful(
    s: Seq<SectionRun>,
    items: Seq<FlowItem>,
    runs: Seq<PageRun>,
    geoms: Seq<SectGeom>,
) -> bool {
    forall|a: int, x: int, r: int|
        #![trigger s[a], items[x], runs[r]]
        0 <= a < s.len() && 0 <= r < runs.len() && s[a].start <= x < s[a].end && runs[r].start <= x
            < runs[r].end && is_content(items[x]) ==> shows(s[a].geom, geoms[r], items[x])
}

/// Whether a page setup shows each content item in a range as its run does.
spec fn suits(
    geom: SectGeom,
    items: Seq<FlowItem>,
    runs: Seq<PageRun>,
    geoms: Seq<SectGeom>,
    start: int,
    end: int,
) -> bool {
    forall|x: int, r: int|
        #![trigger items[x], runs[r]]
        0 <= r < runs.len() && start <= x < end && runs[r].start <= x < runs[r].end && is_content(
            items[x],
        ) ==> shows(geom, geoms[r], items[x])
}

proof fn lemma_continues(s: Seq<SectionRun>, geom: SectGeom, own: SectGeom, item: FlowItem)
    requires
        continues_last(s, geom),
        shows(geom, own, item),
    ensures
        shows(s.last().geom, own, item),
{
}

proof fn lemma_uncovered(s: Seq<SectionRun>, items: Seq<FlowItem>, p: int, x: int)
    requires
        partitions(s, items, p),
        s.len() > 0,
        s.last().end <= x < p,
        0 <= x,
    ensures
        items[x].is_break(),
{
    if !items[x].is_break() {
        assert(covered(s, x));
        let a = choose|a: int| 0 <= a < s.len() && (#[trigger] s[a]).start <= x < s[a].end;
        if a < s.len() - 1 {
            assert(s[a].end <= s[s.len() - 1].start);
            assert(s[s.len() - 1].start <= s[s.len() - 1].end);
        }
    }
}

proof fn lemma_faithful_extend(
    s: Seq<SectionRun>,
    t: Seq<SectionRun>,
    items: Seq<FlowItem>,
    runs: Seq<PageRun>,
    geoms: Seq<SectGeom>,
    p: int,
    geom: SectGeom,
    start: int,
    end: int,
)
    requires
        partitions(s, items, p),
        faithful(s, items, runs, geoms),
        p <= start <= end,
        forall|x: int| p <= x < start ==> (#[trigger] items[x]).is_break(),
        suits(geom, items, runs, geoms, start, end),
        continues_last(s, geom),
        t.len() == s.len(),
        t.last().geom == s.last().geom,
        t.last().start == s.last().start,
        t.last().end == end,
        forall|a: int| 0 <= a < s.len() - 1 ==> t[a] == s[a],
    ensures
        faithful(t, items, runs, geoms),
{
    assert forall|a: int, x: int, r: int|
        #![trigger t[a], items[x], runs[r]]
        0 <= a < t.len() && 0 <= r < runs.len() && t[a].start <= x < t[a].end && runs[r].start <= x
            < runs[r].end && is_content(items[x]) implies shows(
        t[a].geom,
        geoms[r],
        items[x],
    ) by {
        let last = s[a];
        if a < s.len() - 1 {
            assert(t[a] == s[a]);
        } else if x < s[a].end {
            assert(shows(s[a].geom, geoms[r], items[x]));
        } else {
            if x < p {
                lemma_uncovered(s, items, p, x);
            }
            assert(x >= start);
            assert(shows(geom, geoms[r], items[x]));
            lemma_continues(s, geom, geoms[r], items[x]);
        }
    }
}

proof fn lemma_faithful_pushed(
    s: Seq<SectionRun>,
    items: Seq<FlowItem>,
    runs: Seq<PageRun>,
    geoms: Seq<SectGeom>,
    p: int,
    geom: SectGeom,
    start: usize,
    end: usize,
    break_after: Option<SectType>,
    allow_empty: bool,
)
    requires
        partitions(s, items, p),
        faithful(s, items, runs, geoms),
        p <= start <= end <= items.len(),
        forall|x: int| p <= x < start ==> (#[trigger] items[x]).is_break(),
        suits(geom, items, runs, geoms, start as int, end as int),
    ensures
        faithful(
            pushed(s, geom, start, end, break_after, allow_empty),
            items,
            runs,
            geoms,
        ),
{
    let t = pushed(s, geom, start, end, break_after, allow_empty);
    if continues_last(s, geom) {
        lemma_faithful_extend(s, t, items, runs, geoms, p, geom, start as int, end as int);
    } else if start >= end && !allow_empty {
    } else {
        assert forall|a: int, x: int, r: int|
            #![trigger t[a], items[x], runs[r]]
            0 <= a < t.len() && 0 <= r < runs.len() && t[a].start <= x < t[a].end && runs[r].start
                <= x < runs[r].end && is_content(items[x]) implies shows(
            t[a].geom,
            geoms[r],
            items[x],
        ) by {
            if a < s.len() {
                assert(t[a] == s[a]);
            }
        }
    }
}

proof fn lemma_faithful_closed(
    s: Seq<SectionRun>,
    items: Seq<FlowItem>,
    runs: Seq<PageRun>,
    geoms: Seq<SectGeom>,
    p: int,
    geom: SectGeom,
    boundary: usize,
)
    requires
        partitions(s, items, p),
        faithful(s, items, runs, geoms),
        p <= boundary <= items.len(),
        forall|x: int| p <= x < boundary ==> (#[trigger] items[x]).is_break(),
    ensures
        faithful(closed_at(s, geom, boundary), items, runs, geoms),
{
    if continues_last(s, geom) {
        lemma_faithful_extend(
            s,
            closed_at(s, geom, boundary),
            items,
            runs,
            geoms,
            p,
            geom,
            boundary as int,
            boundary as int,
        );
    }
}

/// Whether all content in a range belongs to run `n`.
spec fn within(runs: Seq<PageRun>, n: int, start: int, end: int) -> bool {
    forall|x: int, r: int|
        #![trigger runs[r].holds(x)]
        0 <= r < runs.len() && start <= x < end && runs[r].holds(x) ==> r == n
}

impl PageRun {
    /// Whether the content of the run holds an item.
    pub open spec fn holds(self, x: int) -> bool {
        self.start <= x < self.end
    }
}

proof fn lemma_faithful_columns(
    s: Seq<SectionRun>,
    items: Seq<FlowItem>,
    runs: Seq<PageRun>,
    geoms: Seq<SectGeom>,
    n: int,
    start: int,
    i: int,
    end: int,
)
    requires
        partitions(s, items, start),
        faithful(s, items, runs, geoms),
        0 <= start <= i <= end <= items.len() <= usize::MAX,
        within(runs, n, start, end),
        0 <= n < runs.len(),
    ensures
        ({
            let plan = columns_upto(s, items, geoms[n], start, i);
            &&& faithful(plan.sections, items, runs, geoms)
            &&& forall|y: int| plan.segment <= y < i ==> !flows_in_columns(#[trigger] items[y])
        }),
    decreases i - start,
{
    let base = geoms[n];
    if i > start {
        lemma_faithful_columns(s, items, runs, geoms, n, start, i - 1, end);
        lemma_columns_upto(s, items, base, start, i - 1);
        let prev = columns_upto(s, items, base, start, i - 1);
        let item = items[i - 1];
        if splits_columns(item) {
            let at = (i - 1) as usize;
            if prev.segment < at {
                lemma_suits_base(items, runs, geoms, n, prev.segment as int, at as int);
                lemma_faithful_pushed(
                    prev.sections,
                    items,
                    runs,
                    geoms,
                    prev.segment as int,
                    base,
                    prev.segment,
                    at,
                    Some(SectType::Continuous),
                    false,
                );
                lemma_pushed(
                    prev.sections,
                    items,
                    prev.segment as int,
                    base,
                    prev.segment,
                    at,
                    Some(SectType::Continuous),
                    false,
                );
            } else {
                lemma_faithful_closed(
                    prev.sections,
                    items,
                    runs,
                    geoms,
                    prev.segment as int,
                    base,
                    at,
                );
                lemma_closed_at(prev.sections, items, prev.segment as int, base, at);
            }
            let closed = if prev.segment < at {
                pushed(prev.sections, base, prev.segment, at, Some(SectType::Continuous), false)
            } else {
                closed_at(prev.sections, base, at)
            };
            let own = with_columns(base, item);
            assert(shows(own, base, item));
            assert forall|x: int, r: int|
                #![trigger items[x], runs[r]]
                0 <= r < runs.len() && at <= x < i && runs[r].start <= x < runs[r].end
                    && is_content(items[x]) implies shows(own, geoms[r], items[x]) by {
                assert(runs[r].holds(x));
            }
            lemma_faithful_pushed(
                closed,
                items,
                runs,
                geoms,
                at as int,
                own,
                at,
                i as usize,
                Some(SectType::Continuous),
                false,
            );
        }
    }
}

proof fn lemma_suits_base(
    items: Seq<FlowItem>,
    runs: Seq<PageRun>,
    geoms: Seq<SectGeom>,
    n: int,
    start: int,
    end: int,
)
    requires
        within(runs, n, start, end),
        forall|y: int| start <= y < end ==> !flows_in_columns(#[trigger] items[y]),
    ensures
        suits(geoms[n], items, runs, geoms, start, end),
{
    assert forall|x: int, r: int|
        #![trigger items[x], runs[r]]
        0 <= r < runs.len() && start <= x < end && runs[r].start <= x < runs[r].end && is_content(
            items[x],
        ) implies shows(geoms[n], geoms[r], items[x]) by {
        assert(runs[r].holds(x));
    }
}

proof fn lemma_faithful_same(
    s: Seq<SectionRun>,
    t: Seq<SectionRun>,
    items: Seq<FlowItem>,
    runs: Seq<PageRun>,
    geoms: Seq<SectGeom>,
)
    requires
        faithful(s, items, runs, geoms),
        s.len() == t.len(),
        forall|a: int|
            0 <= a < s.len() ==> (#[trigger] t[a]).start == s[a].start && t[a].end == s[a].end
                && t[a].geom == s[a].geom,
    ensures
        faithful(t, items, runs, geoms),
{
    assert forall|a: int, x: int, r: int|
        #![trigger t[a], items[x], runs[r]]
        0 <= a < t.len() && 0 <= r < runs.len() && t[a].start <= x < t[a].end && runs[r].start <= x
            < runs[r].end && is_content(items[x]) implies shows(
        t[a].geom,
        geoms[r],
        items[x],
    ) by {
        assert(shows(s[a].geom, geoms[r], items[x]));
    }
}

proof fn lemma_faithful_run(
    s: Seq<SectionRun>,
    items: Seq<FlowItem>,
    runs: Seq<PageRun>,
    geoms: Seq<SectGeom>,
    n: int,
)
    requires
        0 <= n < runs.len(),
        partitions(s, items, runs[n].breaks as int),
        faithful(s, items, runs, geoms),
        run_wf(items, runs[n]),
        within(runs, n, runs[n].start as int, runs[n].end as int),
        items.len() <= usize::MAX,
    ensures
        faithful(after_run(s, items, runs[n], geoms[n]), items, runs, geoms),
{
    let run = runs[n];
    let geom = geoms[n];
    let s1 = after_breaks(s, items, run.breaks as int, run.start as int);
    lemma_same_ranges(s, s1, items, run.breaks as int);
    lemma_skip_breaks(s1, items, run.breaks as int, run.start as int);
    lemma_faithful_same(s, s1, items, runs, geoms);
    if run.start < items.len() {
        let s2 = if has_columns(items, run.start as int, run.end as int) {
            with_column_sections(s1, items, geom, run.start, run.end)
        } else {
            pushed(s1, geom, run.start, run.end, None, false)
        };
        if has_columns(items, run.start as int, run.end as int) {
            lemma_columns_upto(s1, items, geom, run.start as int, run.end as int);
            lemma_faithful_columns(
                s1,
                items,
                runs,
                geoms,
                n,
                run.start as int,
                run.end as int,
                run.end as int,
            );
            let plan = columns_upto(s1, items, geom, run.start as int, run.end as int);
            if plan.segment < run.end {
                lemma_suits_base(items, runs, geoms, n, plan.segment as int, run.end as int);
                lemma_faithful_pushed(
                    plan.sections,
                    items,
                    runs,
                    geoms,
                    plan.segment as int,
                    geom,
                    plan.segment,
                    run.end,
                    None,
                    false,
                );
            } else if plan.saw_columns {
                lemma_faithful_pushed(
                    plan.sections,
                    items,
                    runs,
                    geoms,
                    run.end as int,
                    geom,
                    run.end,
                    run.end,
                    None,
                    true,
                );
            }
        } else {
            assert forall|y: int| run.start <= y < run.end implies !flows_in_columns(
                #[trigger] items[y],
            ) by {}
            lemma_suits_base(items, runs, geoms, n, run.start as int, run.end as int);
            lemma_faithful_pushed(
                s1,
                items,
                runs,
                geoms,
                run.start as int,
                geom,
                run.start,
                run.end,
                None,
                false,
            );
        }
        lemma_faithful_same(s2, after_run(s, items, run, geom), items, runs, geoms);
    }
}

proof fn lemma_runs_apart(runs: Seq<PageRun>, a: int, b: int, items: Seq<FlowItem>, from: int)
    requires
        0 <= a < b < runs.len(),
        forall|n: int|
            0 <= n < runs.len() ==> run_wf(items, #[trigger] runs[n]) && runs[n].breaks
                == runs_reach(runs, n, from),
    ensures
        runs[a].end <= runs[b].breaks,
    decreases b - a,
{
    if a + 1 < b {
        lemma_runs_apart(runs, a, b - 1, items, from);
    }
    assert(run_wf(items, runs[b - 1]));
    assert(runs[b].breaks == runs_reach(runs, b, from));
}

proof fn lemma_within(items: Seq<FlowItem>, initial: usize, n: int)
    requires
        items.len() <= usize::MAX,
        0 <= n < runs_from(items, 0, initial).len(),
    ensures
        ({
            let runs = runs_from(items, 0, initial);
            within(runs, n, runs[n].start as int, runs[n].end as int)
        }),
{
    let runs = runs_from(items, 0, initial);
    lemma_runs(items, 0, initial);
    assert forall|x: int, r: int|
        #![trigger runs[r].holds(x)]
        0 <= r < runs.len() && runs[n].start <= x < runs[n].end && runs[r].holds(x) implies r
        == n by {
        assert(run_wf(items, runs[n]) && run_wf(items, runs[r]));
        if r < n {
            lemma_runs_apart(runs, r, n, items, 0);
        } else if n < r {
            lemma_runs_apart(runs, n, r, items, 0);
        }
    }
}

proof fn lemma_faithful_planned(
    items: Seq<FlowItem>,
    initial: usize,
    geoms: Seq<SectGeom>,
    n: int,
)
    requires
        items.len() <= usize::MAX,
        0 <= n <= runs_from(items, 0, initial).len(),
    ensures
        ({
            let runs = runs_from(items, 0, initial);
            faithful(planned(items, runs, geoms, n), items, runs, geoms)
        }),
    decreases n,
{
    let runs = runs_from(items, 0, initial);
    if n > 0 {
        lemma_runs(items, 0, initial);
        lemma_faithful_planned(items, initial, geoms, n - 1);
        lemma_planned(items, initial, geoms, n - 1);
        lemma_within(items, initial, n - 1);
        assert(run_wf(items, runs[n - 1]));
        lemma_faithful_run(planned(items, runs, geoms, n - 1), items, runs, geoms, n - 1);
    }
}

proof fn lemma_faithful_merged(
    items: Seq<FlowItem>,
    s: Seq<SectionRun>,
    runs: Seq<PageRun>,
    geoms: Seq<SectGeom>,
    idx: int,
    p: int,
)
    requires
        partitions(s, items, p),
        faithful(s, items, runs, geoms),
        0 <= idx < s.len(),
        s.len() >= 2,
        content_empty(items, s[idx].start as int, s[idx].end as int),
    ensures
        faithful(merged(s, idx), items, runs, geoms),
{
    let t = merged(s, idx);
    assert forall|a: int, x: int, r: int|
        #![trigger t[a], items[x], runs[r]]
        0 <= a < t.len() && 0 <= r < runs.len() && t[a].start <= x < t[a].end && runs[r].start <= x
            < runs[r].end && is_content(items[x]) implies shows(
        t[a].geom,
        geoms[r],
        items[x],
    ) by {
        let b = if a < idx {
            a
        } else {
            a + 1
        };
        assert(t[a].geom == s[b].geom);
        assert(s[idx].start <= s[idx].end <= p);
        assert(s[b].start <= s[b].end <= p);
        if b < idx {
            assert(s[b].end <= s[idx].start);
        } else {
            assert(s[idx].end <= s[b].start);
        }
        assert(x < p);
        assert(!items[x].is_break());
        assert(covered(s, x));
        let c = choose|c: int| 0 <= c < s.len() && (#[trigger] s[c]).start <= x < s[c].end;
        if c == idx {
            assert(items[x].is_tag());
        } else if c != b {
            if c < b {
                assert(s[c].end <= s[b].start);
            } else {
                assert(s[b].end <= s[c].start);
            }
            if c < idx {
                assert(s[c].end <= s[idx].start);
            } else {
                assert(s[idx].end <= s[c].start);
            }
        }
        assert(c == b);
        assert(shows(s[b].geom, geoms[r], items[x]));
    }
}

proof fn lemma_faithful_absorbed(
    items: Seq<FlowItem>,
    s: Seq<SectionRun>,
    runs: Seq<PageRun>,
    geoms: Seq<SectGeom>,
    idx: int,
    p: int,
)
    requires
        partitions(s, items, p),
        faithful(s, items, runs, geoms),
        0 <= idx,
    ensures
        faithful(absorbed(items, s, idx), items, runs, geoms),
    decreases s.len() - idx,
{
    if idx >= s.len() {
    } else if !absorbable(items, s[idx]) {
        lemma_faithful_absorbed(items, s, runs, geoms, idx + 1, p);
    } else if idx + 1 < s.len() || idx > 0 {
        lemma_merged(items, s, idx, p);
        lemma_faithful_merged(items, s, runs, geoms, idx, p);
        lemma_faithful_absorbed(items, merged(s, idx), runs, geoms, idx, p);
    } else {
        lemma_faithful_absorbed(items, s, runs, geoms, idx + 1, p);
    }
}

/// Every content item of the flow ends up in a section that shows the header, the
/// footer and every other section-scoped property of the page run that the item
/// came from; a column container that flows in columns of the page has its own
/// count and gutter there.
pub proof fn sections_show_their_page_runs(
    items: Seq<FlowItem>,
    initial: usize,
    geoms: Seq<SectGeom>,
    a: int,
    x: int,
    r: int,
)
    requires
        items.len() <= usize::MAX,
        0 <= a < sections_of(items, initial, geoms).len(),
        sections_of(items, initial, geoms)[a].start <= x < sections_of(items, initial, geoms)[a].end,
        0 <= r < runs_from(items, 0, initial).len(),
        runs_from(items, 0, initial)[r].start <= x < runs_from(items, 0, initial)[r].end,
        is_content(items[x]),
    ensures
        ({
            let shown = sections_of(items, initial, geoms)[a].geom;
            let own = geoms[r];
            &&& shown.header == own.header
            &&& shown.header_suppressed == own.header_suppressed
            &&& shown.footer == own.footer
            &&& shown.footer_suppressed == own.footer_suppressed
            &&& shown.background == own.background
            &&& shown.foreground == own.foreground
            &&& shown.page_w == own.page_w
            &&& shown.page_h == own.page_h
            &&& shown.landscape == own.landscape
            &&& shown.margin_top == own.margin_top
            &&& shown.margin_bottom == own.margin_bottom
            &&& shown.margin_left == own.margin_left
            &&& shown.margin_right == own.margin_right
            &&& shown.header_band == own.header_band
            &&& shown.footer_band == own.footer_band
            &&& shown.gutter == own.gutter
            &&& shown.numbering == own.numbering
            &&& shown.number_in_header == own.number_in_header
            &&& shown.number_jc == own.number_jc
            &&& shown.line_numbers is Some <==> own.line_numbers is Some
            &&& shown.line_numbers is Some ==> {
                &&& shown.line_numbers.unwrap().count_by == own.line_numbers.unwrap().count_by
                &&& shown.line_numbers.unwrap().start == own.line_numbers.unwrap().start
                &&& shown.line_numbers.unwrap().restart@ == own.line_numbers.unwrap().restart@
                &&& shown.line_numbers.unwrap().distance == own.line_numbers.unwrap().distance
            }
            &&& own.page_num_start is Some ==> shown.page_num_start == own.page_num_start
            &&& !flows_in_columns(items[x]) ==> shown.columns == own.columns && shown.col_space
                == own.col_space
            &&& flows_in_columns(items[x]) ==> shown.columns == items[x].kind->count
            &&& flows_in_columns(items[x]) && own.page_w - own.margin_left - own.margin_right > 0
                ==> shown.col_space == twips(
                items[x].kind->gutter.at(
                    ((own.page_w - own.margin_left - own.margin_right) * 50_000) as i64,
                ) as int,
            )
        }),
{
    let runs = runs_from(items, 0, initial);
    lemma_runs(items, 0, initial);
    lemma_planned(items, initial, geoms, runs.len() as int);
    lemma_faithful_planned(items, initial, geoms, runs.len() as int);
    let s = planned(items, runs, geoms, runs.len() as int);
    lemma_faithful_absorbed(items, s, runs, geoms, 0, items.len() as int);
    assert(faithful(sections_of(items, initial, geoms), items, runs, geoms));
    assert(shows(sections_of(items, initial, geoms)[a].geom, geoms[r], items[x]));
}

// -- Why sections are split --------------------------------------------------

/// Whether two page setups agree on everything that is scoped to a section.
pub open spec fn alike(a: SectGeom, b: SectGeom) -> bool {
    &&& a.header == b.header
    &&& a.header_suppressed == b.header_suppressed
    &&& a.footer == b.footer
    &&& a.footer_suppressed == b.footer_suppressed
    &&& a.background == b.background
    &&& a.foreground == b.foreground
    &&& a.page_w == b.page_w
    &&& a.page_h == b.page_h
    &&& a.landscape == b.landscape
    &&& a.margin_top == b.margin_top
    &&& a.margin_bottom == b.margin_bottom
    &&& a.margin_left == b.margin_left
    &&& a.margin_right == b.margin_right
    &&& a.header_band == b.header_band
    &&& a.footer_band == b.footer_band
    &&& a.gutter == b.gutter
    &&& a.columns == b.columns
    &&& a.col_space == b.col_space
    &&& a.numbering == b.numbering
    &&& a.number_in_header == b.number_in_header
    &&& a.number_jc == b.number_jc
    &&& line_numbers_view(a.line_numbers) == line_numbers_view(b.line_numbers)
}

/// Whether each section but the last ends for a reason: it asks for a break, the
/// next one restarts the page numbers, or their page setups differ.
pub open spec fn split_for_a_reason(s: Seq<SectionRun>) -> bool {
    forall|a: int|
        0 <= a && a + 1 < s.len() ==> (#[trigger] s[a]).break_after is Some || s[a
            + 1].geom.page_num_start is Some || !alike(s[a].geom, s[a + 1].geom)
}

proof fn lemma_reason_pushed(
    s: Seq<SectionRun>,
    geom: SectGeom,
    start: usize,
    end: usize,
    break_after: Option<SectType>,
    allow_empty: bool,
)
    requires
        split_for_a_reason(s),
    ensures
        split_for_a_reason(pushed(s, geom, start, end, break_after, allow_empty)),
{
    let t = pushed(s, geom, start, end, break_after, allow_empty);
    assert forall|a: int| 0 <= a && a + 1 < t.len() implies (#[trigger] t[a]).break_after is Some
        || t[a + 1].geom.page_num_start is Some || !alike(t[a].geom, t[a + 1].geom) by {
        assert(t[a] == s[a]);
        if a + 1 < s.len() {
            assert(t[a + 1].geom == s[a + 1].geom);
        } else {
            assert(s[a] == s.last());
        }
    }
}

proof fn lemma_reason_closed(s: Seq<SectionRun>, geom: SectGeom, boundary: usize)
    requires
        split_for_a_reason(s),
    ensures
        split_for_a_reason(closed_at(s, geom, boundary)),
{
    let t = closed_at(s, geom, boundary);
    assert forall|a: int| 0 <= a && a + 1 < t.len() implies (#[trigger] t[a]).break_after is Some
        || t[a + 1].geom.page_num_start is Some || !alike(t[a].geom, t[a + 1].geom) by {
        assert(t[a] == s[a]);
        assert(t[a + 1].geom == s[a + 1].geom);
    }
}

proof fn lemma_reason_columns(
    s: Seq<SectionRun>,
    items: Seq<FlowItem>,
    base: SectGeom,
    start: int,
    i: int,
)
    requires
        split_for_a_reason(s),
    ensures
        split_for_a_reason(columns_upto(s, items, base, start, i).sections),
    decreases i - start,
{
    if i > start {
        lemma_reason_columns(s, items, base, start, i - 1);
        let prev = columns_upto(s, items, base, start, i - 1);
        let item = items[i - 1];
        if splits_columns(item) {
            let at = (i - 1) as usize;
            let closed = if prev.segment < at {
                pushed(prev.sections, base, prev.segment, at, Some(SectType::Continuous), false)
            } else {
                closed_at(prev.sections, base, at)
            };
            lemma_reason_pushed(
                prev.sections,
                base,
                prev.segment,
                at,
                Some(SectType::Continuous),
                false,
            );
            lemma_reason_closed(prev.sections, base, at);
            lemma_reason_pushed(
                closed,
                with_columns(base, item),
                at,
                i as usize,
                Some(SectType::Continuous),
                false,
            );
        }
    }
}

proof fn lemma_reason_same(s: Seq<SectionRun>, t: Seq<SectionRun>)
    requires
        split_for_a_reason(s),
        s.len() == t.len(),
        forall|a: int|
            0 <= a < s.len() ==> (#[trigger] t[a]).geom == s[a].geom && (s[a].break_after is Some
                ==> t[a].break_after is Some),
    ensures
        split_for_a_reason(t),
{
    assert forall|a: int| 0 <= a && a + 1 < t.len() implies (#[trigger] t[a]).break_after is Some
        || t[a + 1].geom.page_num_start is Some || !alike(t[a].geom, t[a + 1].geom) by {
        assert(t[a].geom == s[a].geom && t[a + 1].geom == s[a + 1].geom);
    }
}

proof fn lemma_reason_run(s: Seq<SectionRun>, items: Seq<FlowItem>, run: PageRun, geom: SectGeom)
    requires
        split_for_a_reason(s),
    ensures
        split_for_a_reason(after_run(s, items, run, geom)),
{
    let s1 = after_breaks(s, items, run.breaks as int, run.start as int);
    lemma_reason_same(s, s1);
    if run.start < items.len() {
        let s2 = if has_columns(items, run.start as int, run.end as int) {
            with_column_sections(s1, items, geom, run.start, run.end)
        } else {
            pushed(s1, geom, run.start, run.end, None, false)
        };
        lemma_reason_columns(s1, items, geom, run.start as int, run.end as int);
        let plan = columns_upto(s1, items, geom, run.start as int, run.end as int);
        lemma_reason_pushed(plan.sections, geom, plan.segment, run.end, None, false);
        lemma_reason_pushed(plan.sections, geom, run.end, run.end, None, true);
        lemma_reason_pushed(s1, geom, run.start, run.end, None, false);
        assert(split_for_a_reason(s2));
        lemma_reason_same(s2, after_run(s, items, run, geom));
    }
}

/// A plan splits sections only for a reason: page runs whose page setups agree on
/// every section-scoped property share a section.
pub proof fn plans_split_sections_for_a_reason(
    items: Seq<FlowItem>,
    runs: Seq<PageRun>,
    geoms: Seq<SectGeom>,
    n: int,
)
    ensures
        split_for_a_reason(planned(items, runs, geoms, n)),
    decreases n,
{
    if n > 0 {
        plans_split_sections_for_a_reason(items, runs, geoms, n - 1);
        lemma_reason_run(planned(items, runs, geoms, n - 1), items, runs[n - 1], geoms[n - 1]);
    }
}

proof fn lemma_nothing_to_absorb(items: Seq<FlowItem>, s: Seq<SectionRun>, idx: int)
    requires
        forall|x: int| 0 <= x < items.len() ==> !((#[trigger] items[x]).kind is Tag),
        partitions(s, items, items.len() as int),
        0 <= idx,
    ensures
        absorbed(items, s, idx) == s,
    decreases s.len() - idx,
{
    if idx < s.len() {
        assert(s[idx].start <= s[idx].end <= items.len());
        if s[idx].start < s[idx].end {
            assert(!items[s[idx].start as int].is_tag());
        }
        assert(!absorbable(items, s[idx]));
        lemma_nothing_to_absorb(items, s, idx + 1);
    }
}

/// In a flow without tags, no two neighboring sections could have been one: the
/// first asks for a break, the second restarts the page numbers, or their page
/// setups differ.
pub proof fn sections_are_split_for_a_reason(
    items: Seq<FlowItem>,
    initial: usize,
    geoms: Seq<SectGeom>,
)
    requires
        items.len() <= usize::MAX,
        forall|x: int| 0 <= x < items.len() ==> !((#[trigger] items[x]).kind is Tag),
    ensures
        split_for_a_reason(sections_of(items, initial, geoms)),
{
    let runs = runs_from(items, 0, initial);
    plans_split_sections_for_a_reason(items, runs, geoms, runs.len() as int);
    lemma_runs(items, 0, initial);
    lemma_planned(items, initial, geoms, runs.len() as int);
    lemma_nothing_to_absorb(items, planned(items, runs, geoms, runs.len() as int), 0);
}

// -- Page parity -------------------------------------------------------------

/// The section start that a parity asks for.
pub open spec fn parity_start(to: Parity) -> SectType {
    match to {
        Parity::Even => SectType::EvenPage,
        Parity::Odd => SectType::OddPage,
    }
}

/// Whether the items `q0..=q` lie in a section whose predecessor asks for a break
/// of the given kind.
#[verifier::opaque]
pub open spec fn starts_behind(s: Seq<SectionRun>, q0: int, q: int, t: SectType) -> bool {
    exists|a: int|
        0 <= a && a + 1 < s.len() && (#[trigger] s[a]).break_after == Some(t) && s[a + 1].start
            <= q0 && q < s[a + 1].end
}

proof fn lemma_starts_new(
    s: Seq<SectionRun>,
    geom: SectGeom,
    start: usize,
    end: usize,
    break_after: Option<SectType>,
    q: int,
    t: SectType,
)
    requires
        s.len() > 0,
        s.last().break_after == Some(t),
        start <= q < end,
    ensures
        starts_behind(pushed(s, geom, start, end, break_after, false), start as int, q, t),
{
    reveal(starts_behind);
    let u = pushed(s, geom, start, end, break_after, false);
    assert(u[s.len() - 1] == s.last());
    assert(u[s.len() as int].start == start);
}

proof fn lemma_starts_pushed(
    s: Seq<SectionRun>,
    items: Seq<FlowItem>,
    p: int,
    geom: SectGeom,
    start: usize,
    end: usize,
    break_after: Option<SectType>,
    allow_empty: bool,
    q0: int,
    q: int,
    t: SectType,
)
    requires
        partitions(s, items, p),
        p <= start <= end,
        starts_behind(s, q0, q, t),
    ensures
        starts_behind(pushed(s, geom, start, end, break_after, allow_empty), q0, q, t),
{
    reveal(starts_behind);
    let u = pushed(s, geom, start, end, break_after, allow_empty);
    let a = choose|a: int|
        0 <= a && a + 1 < s.len() && (#[trigger] s[a]).break_after == Some(t) && s[a + 1].start
            <= q0 && q < s[a + 1].end;
    assert(u[a] == s[a]);
    assert(s[a + 1].end <= p);
    assert(u[a + 1].start == s[a + 1].start && s[a + 1].end <= u[a + 1].end);
}

proof fn lemma_starts_closed(
    s: Seq<SectionRun>,
    items: Seq<FlowItem>,
    p: int,
    geom: SectGeom,
    boundary: usize,
    q0: int,
    q: int,
    t: SectType,
)
    requires
        partitions(s, items, p),
        p <= boundary,
        starts_behind(s, q0, q, t),
    ensures
        starts_behind(closed_at(s, geom, boundary), q0, q, t),
{
    reveal(starts_behind);
    let u = closed_at(s, geom, boundary);
    let a = choose|a: int|
        0 <= a && a + 1 < s.len() && (#[trigger] s[a]).break_after == Some(t) && s[a + 1].start
            <= q0 && q < s[a + 1].end;
    assert(u[a] == s[a]);
    assert(s[a + 1].end <= p);
    assert(u[a + 1].start == s[a + 1].start && s[a + 1].end <= u[a + 1].end);
}

#[verifier::rlimit(40)]
proof fn lemma_starts_columns(
    s: Seq<SectionRun>,
    items: Seq<FlowItem>,
    base: SectGeom,
    start: int,
    i: int,
    q0: int,
    q: int,
    t: SectType,
)
    requires
        partitions(s, items, start),
        0 <= start <= i <= items.len() <= usize::MAX,
        ({
            ||| starts_behind(s, q0, q, t)
            ||| {
                &&& s.len() > 0
                &&& s.last().break_after == Some(t)
                &&& q0 == start
                &&& start <= q
                &&& forall|y: int| start <= y <= q ==> !flows_in_columns(#[trigger] items[y])
            }
        }),
    ensures
        ({
            let plan = columns_upto(s, items, base, start, i);
            ||| starts_behind(plan.sections, q0, q, t)
            ||| {
                &&& !starts_behind(s, q0, q, t)
                &&& plan.sections == s
                &&& plan.segment == start
                &&& !plan.saw_columns
            }
        }),
    decreases i - start,
{
    if i > start {
        lemma_starts_columns(s, items, base, start, i - 1, q0, q, t);
        lemma_columns_upto(s, items, base, start, i - 1);
        let prev = columns_upto(s, items, base, start, i - 1);
        let item = items[i - 1];
        if splits_columns(item) {
            let at = (i - 1) as usize;
            let closed = if prev.segment < at {
                pushed(prev.sections, base, prev.segment, at, Some(SectType::Continuous), false)
            } else {
                closed_at(prev.sections, base, at)
            };
            if prev.segment < at {
                lemma_pushed(
                    prev.sections,
                    items,
                    prev.segment as int,
                    base,
                    prev.segment,
                    at,
                    Some(SectType::Continuous),
                    false,
                );
            } else {
                lemma_closed_at(prev.sections, items, prev.segment as int, base, at);
            }
            if starts_behind(prev.sections, q0, q, t) {
                if prev.segment < at {
                    lemma_starts_pushed(
                        prev.sections,
                        items,
                        prev.segment as int,
                        base,
                        prev.segment,
                        at,
                        Some(SectType::Continuous),
                        false,
                        q0,
                        q,
                        t,
                    );
                } else {
                    lemma_starts_closed(
                        prev.sections,
                        items,
                        prev.segment as int,
                        base,
                        at,
                        q0,
                        q,
                        t,
                    );
                }
            } else {
                assert(flows_in_columns(items[i - 1]));
                assert(q < at);
                lemma_starts_new(
                    prev.sections,
                    base,
                    prev.segment,
                    at,
                    Some(SectType::Continuous),
                    q,
                    t,
                );
            }
            lemma_starts_pushed(
                closed,
                items,
                at as int,
                with_columns(base, item),
                at,
                i as usize,
                Some(SectType::Continuous),
                false,
                q0,
                q,
                t,
            );
        }
    }
}

proof fn lemma_starts_breaks(
    s: Seq<SectionRun>,
    items: Seq<FlowItem>,
    i: int,
    j: int,
    q0: int,
    q: int,
    t: SectType,
)
    requires
        starts_behind(s, q0, q, t),
        t != SectType::Continuous,
    ensures
        starts_behind(after_breaks(s, items, i, j), q0, q, t),
{
    reveal(starts_behind);
    let u = after_breaks(s, items, i, j);
    let a = choose|a: int|
        0 <= a && a + 1 < s.len() && (#[trigger] s[a]).break_after == Some(t) && s[a + 1].start
            <= q0 && q < s[a + 1].end;
    assert(u[a].break_after == Some(t));
    assert(u[a + 1].start == s[a + 1].start && u[a + 1].end == s[a + 1].end);
}

proof fn lemma_starts_same(
    s: Seq<SectionRun>,
    u: Seq<SectionRun>,
    q0: int,
    q: int,
    t: SectType,
)
    requires
        starts_behind(s, q0, q, t),
        s.len() == u.len(),
        forall|a: int|
            0 <= a < s.len() ==> (#[trigger] u[a]).start == s[a].start && u[a].end == s[a].end
                && u[a].break_after == s[a].break_after,
    ensures
        starts_behind(u, q0, q, t),
{
    reveal(starts_behind);
    let a = choose|a: int|
        0 <= a && a + 1 < s.len() && (#[trigger] s[a]).break_after == Some(t) && s[a + 1].start
            <= q0 && q < s[a + 1].end;
    assert(u[a].break_after == Some(t));
    assert(u[a + 1].start == s[a + 1].start);
}

#[verifier::rlimit(40)]
proof fn lemma_starts_run(
    s: Seq<SectionRun>,
    items: Seq<FlowItem>,
    run: PageRun,
    geom: SectGeom,
    q0: int,
    q: int,
    t: SectType,
)
    requires
        partitions(s, items, run.breaks as int),
        run_wf(items, run),
        items.len() <= usize::MAX,
        ({
            let s1 = after_breaks(s, items, run.breaks as int, run.start as int);
            ||| starts_behind(s1, q0, q, t)
            ||| {
                &&& s1.len() > 0
                &&& s1.last().break_after == Some(t)
                &&& q0 == run.start
                &&& run.start <= q < run.end
                &&& forall|y: int| run.start <= y <= q ==> !flows_in_columns(#[trigger] items[y])
            }
        }),
    ensures
        starts_behind(after_run(s, items, run, geom), q0, q, t),
{
    let s1 = after_breaks(s, items, run.breaks as int, run.start as int);
    lemma_same_ranges(s, s1, items, run.breaks as int);
    lemma_skip_breaks(s1, items, run.breaks as int, run.start as int);
    if run.start < items.len() {
        let s2 = if has_columns(items, run.start as int, run.end as int) {
            with_column_sections(s1, items, geom, run.start, run.end)
        } else {
            pushed(s1, geom, run.start, run.end, None, false)
        };
        if has_columns(items, run.start as int, run.end as int) {
            lemma_columns_upto(s1, items, geom, run.start as int, run.end as int);
            lemma_starts_columns(
                s1,
                items,
                geom,
                run.start as int,
                run.end as int,
                q0,
                q,
                t,
            );
            let plan = columns_upto(s1, items, geom, run.start as int, run.end as int);
            if starts_behind(plan.sections, q0, q, t) {
                if plan.segment < run.end {
                    lemma_starts_pushed(
                        plan.sections,
                        items,
                        plan.segment as int,
                        geom,
                        plan.segment,
                        run.end,
                        None,
                        false,
                        q0,
                        q,
                        t,
                    );
                } else if plan.saw_columns {
                    lemma_starts_pushed(
                        plan.sections,
                        items,
                        plan.segment as int,
                        geom,
                        run.end,
                        run.end,
                        None,
                        true,
                        q0,
                        q,
                        t,
                    );
                }
            } else {
                lemma_starts_new(plan.sections, geom, plan.segment, run.end, None, q, t);
            }
        } else if starts_behind(s1, q0, q, t) {
            lemma_starts_pushed(
                s1,
                items,
                run.start as int,
                geom,
                run.start,
                run.end,
                None,
                false,
                q0,
                q,
                t,
            );
        } else {
            lemma_starts_new(s1, geom, run.start, run.end, None, q, t);
        }
        lemma_starts_same(s2, after_run(s, items, run, geom), q0, q, t);
    }
}

proof fn lemma_last_not_empty(
    s: Seq<SectionRun>,
    items: Seq<FlowItem>,
    run: PageRun,
    geom: SectGeom,
)
    requires
        partitions(s, items, run.breaks as int),
        run_wf(items, run),
        items.len() <= usize::MAX,
        run.start < run.end,
        !flows_in_columns(items[run.end - 1]),
    ensures
        after_run(s, items, run, geom).len() > 0,
        after_run(s, items, run, geom).last().start < after_run(s, items, run, geom).last().end,
{
    let s1 = after_breaks(s, items, run.breaks as int, run.start as int);
    lemma_same_ranges(s, s1, items, run.breaks as int);
    lemma_skip_breaks(s1, items, run.breaks as int, run.start as int);
    let plan = columns_upto(s1, items, geom, run.start as int, run.end as int);
    lemma_columns_upto(s1, items, geom, run.start as int, run.end as int);
    lemma_columns_upto(s1, items, geom, run.start as int, run.end - 1);
    let base = if has_columns(items, run.start as int, run.end as int) {
        assert(plan.segment < run.end);
        plan.sections
    } else {
        s1
    };
    let from = if has_columns(items, run.start as int, run.end as int) {
        plan.segment
    } else {
        run.start
    };
    let s2 = pushed(base, geom, from, run.end, None, false);
    if continues_last(base, geom) {
        assert(base[base.len() - 1].start <= base[base.len() - 1].end <= from);
    }
    assert(s2.last().start < s2.last().end);
    let r = after_run(s, items, run, geom);
    assert(r.len() == s2.len());
    assert(r[r.len() - 1].start == s2[r.len() - 1].start && r[r.len() - 1].end == s2[r.len()
        - 1].end);
}

proof fn lemma_starts_merged(
    items: Seq<FlowItem>,
    s: Seq<SectionRun>,
    idx: int,
    p: int,
    q0: int,
    q: int,
    t: SectType,
)
    requires
        partitions(s, items, p),
        0 <= idx < s.len(),
        s.len() >= 2,
        absorbable(items, s[idx]),
        starts_behind(s, q0, q, t),
        q0 <= q,
        !items[q].is_tag(),
    ensures
        starts_behind(merged(s, idx), q0, q, t),
{
    reveal(starts_behind);
    let u = merged(s, idx);
    let a = choose|a: int|
        0 <= a && a + 1 < s.len() && (#[trigger] s[a]).break_after == Some(t) && s[a + 1].start
            <= q0 && q < s[a + 1].end;
    assert(idx != a);
    assert(idx != a + 1);
    assert(s[idx].start <= s[idx].end);
    if idx < a {
        assert(u[a - 1].break_after == s[a].break_after);
        assert(u[a] == s[a + 1]);
    } else {
        assert(idx > a + 1);
        assert(s[a + 1].end <= s[idx].start);
        assert(u[a].break_after == s[a].break_after);
        assert(u[a + 1].start == s[a + 1].start && u[a + 1].end >= s[a + 1].end);
    }
}

proof fn lemma_starts_absorbed(
    items: Seq<FlowItem>,
    s: Seq<SectionRun>,
    idx: int,
    p: int,
    q0: int,
    q: int,
    t: SectType,
)
    requires
        partitions(s, items, p),
        0 <= idx,
        starts_behind(s, q0, q, t),
        q0 <= q,
        !items[q].is_tag(),
    ensures
        starts_behind(absorbed(items, s, idx), q0, q, t),
    decreases s.len() - idx,
{
    if idx >= s.len() {
    } else if !absorbable(items, s[idx]) {
        lemma_starts_absorbed(items, s, idx + 1, p, q0, q, t);
    } else if idx + 1 < s.len() || idx > 0 {
        lemma_merged(items, s, idx, p);
        lemma_starts_merged(items, s, idx, p, q0, q, t);
        lemma_starts_absorbed(items, merged(s, idx), idx, p, q0, q, t);
    } else {
        lemma_starts_absorbed(items, s, idx + 1, p, q0, q, t);
    }
}

proof fn lemma_forced_last(
    s: Seq<SectionRun>,
    items: Seq<FlowItem>,
    i: int,
    j: int,
    to: Parity,
)
    requires
        s.len() > 0,
        s.last().start < s.last().end,
        i < j,
        items[j - 1].kind is Pagebreak,
        items[j - 1].kind->to == Some(to),
    ensures
        after_breaks(s, items, i, j).len() > 0,
        after_breaks(s, items, i, j).last().break_after == Some(parity_start(to)),
{
}

proof fn lemma_starts_here(
    items: Seq<FlowItem>,
    initial: usize,
    geoms: Seq<SectGeom>,
    r: int,
    q: int,
    to: Parity,
)
    requires
        items.len() <= usize::MAX,
        0 < r < runs_from(items, 0, initial).len(),
        asks(items, runs_from(items, 0, initial)[r], q, to),
    ensures
        ({
            let runs = runs_from(items, 0, initial);
            starts_behind(
                planned(items, runs, geoms, r + 1),
                runs[r].start as int,
                q,
                parity_start(to),
            )
        }),
{
    let runs = runs_from(items, 0, initial);
    lemma_runs(items, 0, initial);
    assert(run_wf(items, runs[r]) && runs[r].breaks == runs_reach(runs, r, 0));
    assert(run_wf(items, runs[r - 1]) && runs[r - 1].breaks == runs_reach(runs, r - 1, 0));
    lemma_planned(items, initial, geoms, r - 1);
    lemma_planned(items, initial, geoms, r);
    lemma_starts_step(
        planned(items, runs, geoms, r - 1),
        planned(items, runs, geoms, r),
        items,
        runs[r - 1],
        runs[r],
        geoms[r - 1],
        geoms[r],
        q,
        to,
    );
}

proof fn lemma_starts_step(
    s0: Seq<SectionRun>,
    s: Seq<SectionRun>,
    items: Seq<FlowItem>,
    before: PageRun,
    run: PageRun,
    geom_before: SectGeom,
    geom: SectGeom,
    q: int,
    to: Parity,
)
    requires
        items.len() <= usize::MAX,
        partitions(s0, items, before.breaks as int),
        partitions(s, items, run.breaks as int),
        s == after_run(s0, items, before, geom_before),
        run_wf(items, before),
        run_wf(items, run),
        before.breaks < before.end == run.breaks,
        asks(items, run, q, to),
    ensures
        starts_behind(
            after_run(s, items, run, geom),
            run.start as int,
            q,
            parity_start(to),
        ),
{
    assert(s.len() > 0 && s.last().start < s.last().end) by {
        if before.start == before.end {
            assert(items[before.end - 1].is_break());
        }
        lemma_last_not_empty(s0, items, before, geom_before);
    }
    lemma_forced_last(s, items, run.breaks as int, run.start as int, to);
    lemma_starts_run(s, items, run, geom, run.start as int, q, parity_start(to));
}

/// Whether page breaks to the given parity stand between content and a run that
/// holds `q`, and neither side flows in columns of the page.
spec fn asks(items: Seq<FlowItem>, run: PageRun, q: int, to: Parity) -> bool {
    &&& 0 < run.breaks < run.start <= q < run.end
    &&& items[run.start - 1].kind is Pagebreak
    &&& items[run.start - 1].kind->to == Some(to)
    &&& !items[run.breaks - 1].is_break()
    &&& !flows_in_columns(items[run.breaks - 1])
    &&& forall|y: int| run.start <= y <= q ==> !flows_in_columns(#[trigger] items[y])
}

proof fn lemma_starts_planned(
    items: Seq<FlowItem>,
    initial: usize,
    geoms: Seq<SectGeom>,
    r: int,
    n: int,
    q: int,
    to: Parity,
)
    requires
        items.len() <= usize::MAX,
        0 < r < n <= runs_from(items, 0, initial).len(),
        asks(items, runs_from(items, 0, initial)[r], q, to),
    ensures
        ({
            let runs = runs_from(items, 0, initial);
            starts_behind(
                planned(items, runs, geoms, n),
                runs[r].start as int,
                q,
                parity_start(to),
            )
        }),
    decreases n,
{
    let runs = runs_from(items, 0, initial);
    if n == r + 1 {
        lemma_starts_here(items, initial, geoms, r, q, to);
    } else {
        let run = runs[n - 1];
        let s = planned(items, runs, geoms, n - 1);
        let q0 = runs[r].start as int;
        lemma_starts_planned(items, initial, geoms, r, n - 1, q, to);
        lemma_runs(items, 0, initial);
        assert(run_wf(items, run) && run.breaks == runs_reach(runs, n - 1, 0));
        lemma_planned(items, initial, geoms, n - 1);
        lemma_starts_breaks(
            s,
            items,
            run.breaks as int,
            run.start as int,
            q0,
            q,
            parity_start(to),
        );
        lemma_starts_run(s, items, run, geoms[n - 1], q0, q, parity_start(to));
    }
}

/// A page break to an even page, or to an odd one, in front of a page run makes
/// the section before the run's content end in a break to such a page. This holds
/// of the first content of the run, `q`, where neither it nor what stands in front
/// of the page breaks flows in columns of the page.
pub proof fn parity_breaks_show(
    items: Seq<FlowItem>,
    initial: usize,
    geoms: Seq<SectGeom>,
    r: int,
    q: int,
    to: Parity,
)
    requires
        items.len() <= usize::MAX,
        0 < r < runs_from(items, 0, initial).len(),
        ({
            let run = runs_from(items, 0, initial)[r];
            &&& 0 < run.breaks < run.start <= q < run.end
            &&& items[run.start - 1].kind is Pagebreak
            &&& items[run.start - 1].kind->to == Some(to)
            &&& !items[run.breaks - 1].is_break()
            &&& !flows_in_columns(items[run.breaks - 1])
            &&& forall|y: int| run.start <= y < q ==> (#[trigger] items[y]).is_tag()
            &&& is_content(items[q])
            &&& !flows_in_columns(items[q])
        }),
    ensures
        ({
            let s = sections_of(items, initial, geoms);
            exists|a: int|
                0 <= a && a + 1 < s.len() && (#[trigger] s[a]).break_after == Some(
                    match to {
                        Parity::Even => SectType::EvenPage,
                        Parity::Odd => SectType::OddPage,
                    },
                ) && s[a + 1].start <= q < s[a + 1].end
        }),
{
    reveal(starts_behind);
    let runs = runs_from(items, 0, initial);
    let q0 = runs[r].start as int;
    assert forall|y: int| q0 <= y <= q implies !flows_in_columns(#[trigger] items[y]) by {
        if y < q {
            assert(items[y].is_tag());
        }
    }
    lemma_starts_planned(items, initial, geoms, r, runs.len() as int, q, to);
    lemma_planned(items, initial, geoms, runs.len() as int);
    lemma_starts_absorbed(
        items,
        planned(items, runs, geoms, runs.len() as int),
        0,
        runs_reach(runs, runs.len() as int, 0),
        q0,
        q,
        parity_start(to),
    );
    let s = sections_of(items, initial, geoms);
    let a = choose|a: int|
        0 <= a && a + 1 < s.len() && (#[trigger] s[a]).break_after == Some(parity_start(to)) && s[a
            + 1].start <= q0 && q < s[a + 1].end;
    assert(s[a].break_after == Some(parity_start(to)));
}

// -- Page runs ---------------------------------------------------------------

proof fn lemma_chain(items: Seq<FlowItem>, i: int, j: int, initial: usize, k: int)
    requires
        0 <= i <= j <= items.len(),
        forall|x: int| i <= x < j ==> (#[trigger] items[x]).is_break(),
        i <= k < j ==> !items[k].kind->boundary,
        forall|x: int| i <= x && k < x < j ==> (#[trigger] items[x]).kind->boundary,
        k < j,
    ensures
        chain_after(items, i, j, initial) == (if i <= k {
            items[k].styles
        } else {
            initial
        }),
    decreases j - i,
{
    if i < j {
        assert(items[j - 1].is_break());
        if k < j - 1 {
            assert(items[j - 1].kind->boundary);
            lemma_chain(items, i, j - 1, initial, k);
        }
    }
}

proof fn lemma_run_styles(items: Seq<FlowItem>, i: int, initial: usize, n: int)
    requires
        0 <= i <= items.len() <= usize::MAX,
        0 <= n < runs_from(items, i, initial).len(),
    ensures
        ({
            let runs = runs_from(items, i, initial);
            runs[n].styles == chain_after(
                items,
                runs[n].breaks as int,
                runs[n].start as int,
                if n == 0 {
                    initial
                } else {
                    runs[n - 1].styles
                },
            )
        }),
    decreases items.len() - i,
{
    lemma_runs(items, i, initial);
    let runs = runs_from(items, i, initial);
    if i < items.len() {
        lemma_breaks_end(items, i);
        let j = breaks_end(items, i);
        lemma_content_end(items, j);
        let k = content_end(items, j);
        let styles = chain_after(items, i, j, initial);
        assert(runs[0] == (PageRun {
            breaks: i as usize,
            start: j as usize,
            end: k as usize,
            styles,
        }));
        if n > 0 {
            assert(i < k <= items.len());
            let rest = runs_from(items, k, styles);
            assert(runs =~= seq![runs[0]] + rest);
            lemma_run_styles(items, k, styles, n - 1);
            assert(runs[n] == rest[n - 1]);
            if n > 1 {
                assert(runs[n - 1] == rest[n - 2]);
            }
        }
    }
}

/// The runs of a flow follow one another from its first item to its last: the
/// page breaks of each, then its content.
pub proof fn page_runs_cover_the_flow(items: Seq<FlowItem>, initial: usize)
    requires
        items.len() <= usize::MAX,
    ensures
        ({
            let runs = runs_from(items, 0, initial);
            &&& items.len() > 0 ==> runs.len() > 0 && runs[0].breaks == 0 && runs.last().end
                == items.len()
            &&& forall|n: int|
                0 <= n && n + 1 < runs.len() ==> (#[trigger] runs[n]).end == runs[n + 1].breaks
            &&& forall|n: int|
                0 <= n < runs.len() ==> (#[trigger] runs[n]).breaks <= runs[n].start
                    <= runs[n].end && runs[n].breaks < runs[n].end
            &&& forall|n: int, x: int|
                #![trigger runs[n], items[x]]
                0 <= n < runs.len() && runs[n].breaks <= x < runs[n].start
                    ==> items[x].kind is Pagebreak
            &&& forall|n: int, x: int|
                #![trigger runs[n], items[x]]
                0 <= n < runs.len() && runs[n].start <= x < runs[n].end ==> !(
                items[x].kind is Pagebreak)
        }),
{
    let runs = runs_from(items, 0, initial);
    lemma_runs(items, 0, initial);
    assert forall|n: int| 0 <= n && n + 1 < runs.len() implies (#[trigger] runs[n]).end == runs[n
        + 1].breaks by {
        assert(runs[n + 1].breaks == runs_reach(runs, n + 1, 0));
    }
    assert forall|n: int| 0 <= n < runs.len() implies (#[trigger] runs[n]).breaks <= runs[n].start
        <= runs[n].end && runs[n].breaks < runs[n].end by {
        assert(run_wf(items, runs[n]));
    }
    assert forall|n: int, x: int|
        #![trigger runs[n], items[x]]
        0 <= n < runs.len() && runs[n].breaks <= x < runs[n].start implies
        items[x].kind is Pagebreak by {
        assert(run_wf(items, runs[n]));
        assert(items[x].is_break());
    }
    assert forall|n: int, x: int|
        #![trigger runs[n], items[x]]
        0 <= n < runs.len() && runs[n].start <= x < runs[n].end implies !(
    items[x].kind is Pagebreak) by {
        assert(run_wf(items, runs[n]));
        assert(!items[x].is_break());
    }
    if items.len() > 0 {
        assert(runs.len() > 0);
        assert(run_wf(items, runs[0]));
    }
}

/// A run takes its styles from the last page break in front of it that marks no
/// page-style boundary, `k`, and without one from the run before it.
pub proof fn runs_take_their_styles_from_page_breaks(
    items: Seq<FlowItem>,
    initial: usize,
    n: int,
    k: int,
)
    requires
        items.len() <= usize::MAX,
        0 <= n < runs_from(items, 0, initial).len(),
        k < runs_from(items, 0, initial)[n].start,
        runs_from(items, 0, initial)[n].breaks <= k ==> !items[k].kind->boundary,
        forall|x: int|
            runs_from(items, 0, initial)[n].breaks <= x && k < x < runs_from(
                items,
                0,
                initial,
            )[n].start ==> (#[trigger] items[x]).kind->boundary,
    ensures
        runs_from(items, 0, initial)[n].breaks <= k ==> runs_from(items, 0, initial)[n].styles
            == items[k].styles,
        k < runs_from(items, 0, initial)[n].breaks ==> runs_from(items, 0, initial)[n].styles
            == (if n == 0 {
            initial
        } else {
            runs_from(items, 0, initial)[n - 1].styles
        }),
{
    let runs = runs_from(items, 0, initial);
    lemma_runs(items, 0, initial);
    assert(run_wf(items, runs[n]));
    lemma_run_styles(items, 0, initial, n);
    lemma_chain(
        items,
        runs[n].breaks as int,
        runs[n].start as int,
        if n == 0 {
            initial
        } else {
            runs[n - 1].styles
        },
        k,
    );
}

/// The page breaks rendered at the start of a section are the most that are
/// neither used up by its boundary nor anything but hard page breaks.
pub proof fn leading_breaks_are_what_is_left(skipped: int, consumed: int, hard: nat, n: nat)
    requires
        0 <= consumed,
    ensures
        n <= surplus_breaks(skipped, consumed, hard) <==> n <= hard && (n == 0 || n + consumed
            <= skipped),
{
}

/// Page breaks that open a page by themselves are those that neither mark a
/// boundary nor are weak; each counts once.
pub proof fn hard_breaks_are_counted(items: Seq<FlowItem>, i: int, j: int)
    requires
        0 <= i <= j <= items.len(),
    ensures
        hard_breaks(items, i, j) == items.subrange(i, j).filter(
            |item: FlowItem|
                item.kind is Pagebreak && !item.kind->boundary && !item.kind->weak,
        ).len(),
    decreases j - i,
{
    reveal(Seq::filter);
    if i < j {
        hard_breaks_are_counted(items, i, j - 1);
        assert(items.subrange(i, j).drop_last() =~= items.subrange(i, j - 1));
        assert(items.subrange(i, j).last() == items[j - 1]);
    }
}

// -- Columns -----------------------------------------------------------------

/// Whether a section that ends right behind item `x` goes on without a page break.
pub open spec fn goes_on_behind(s: Seq<SectionRun>, x: int) -> bool {
    exists|a: int|
        0 <= a < s.len() && (#[trigger] s[a]).end == x + 1 && s[a].break_after == Some(
            SectType::Continuous,
        )
}

proof fn lemma_goes_on_pushed(
    s: Seq<SectionRun>,
    geom: SectGeom,
    start: usize,
    end: usize,
    break_after: Option<SectType>,
    allow_empty: bool,
    x: int,
)
    requires
        goes_on_behind(s, x),
    ensures
        goes_on_behind(pushed(s, geom, start, end, break_after, allow_empty), x),
{
    let t = pushed(s, geom, start, end, break_after, allow_empty);
    let a = choose|a: int|
        0 <= a < s.len() && (#[trigger] s[a]).end == x + 1 && s[a].break_after == Some(
            SectType::Continuous,
        );
    assert(t[a] == s[a]);
}

proof fn lemma_goes_on_closed(s: Seq<SectionRun>, geom: SectGeom, boundary: usize, x: int)
    requires
        goes_on_behind(s, x),
    ensures
        goes_on_behind(closed_at(s, geom, boundary), x),
{
    let t = closed_at(s, geom, boundary);
    let a = choose|a: int|
        0 <= a < s.len() && (#[trigger] s[a]).end == x + 1 && s[a].break_after == Some(
            SectType::Continuous,
        );
    assert(t[a] == s[a]);
}

proof fn lemma_goes_on_new(
    s: Seq<SectionRun>,
    geom: SectGeom,
    start: usize,
    end: usize,
)
    requires
        start < end,
    ensures
        goes_on_behind(
            pushed(s, geom, start, end, Some(SectType::Continuous), false),
            end - 1,
        ),
{
    let t = pushed(s, geom, start, end, Some(SectType::Continuous), false);
    assert(t[t.len() - 1].end == end);
}

proof fn lemma_columns_go_on(
    s: Seq<SectionRun>,
    items: Seq<FlowItem>,
    base: SectGeom,
    start: int,
    i: int,
)
    requires
        0 <= start <= i <= items.len() <= usize::MAX,
    ensures
        ({
            let plan = columns_upto(s, items, base, start, i);
            &&& start <= plan.segment <= i
            &&& start < plan.segment ==> goes_on_behind(plan.sections, plan.segment - 1)
            &&& forall|x: int|
                start <= x < i && flows_in_columns(#[trigger] items[x]) ==> goes_on_behind(
                    plan.sections,
                    x,
                ) && (start < x ==> goes_on_behind(plan.sections, x - 1))
        }),
    decreases i - start,
{
    if i > start {
        lemma_columns_go_on(s, items, base, start, i - 1);
        let prev = columns_upto(s, items, base, start, i - 1);
        let item = items[i - 1];
        let plan = columns_upto(s, items, base, start, i);
        if splits_columns(item) {
            let at = (i - 1) as usize;
            let closed = if prev.segment < at {
                pushed(prev.sections, base, prev.segment, at, Some(SectType::Continuous), false)
            } else {
                closed_at(prev.sections, base, at)
            };
            let own = with_columns(base, item);
            lemma_goes_on_new(closed, own, at, i as usize);
            if start < at {
                if prev.segment < at {
                    lemma_goes_on_new(prev.sections, base, prev.segment, at);
                } else {
                    lemma_goes_on_closed(prev.sections, base, at, at - 1);
                }
                lemma_goes_on_pushed(
                    closed,
                    own,
                    at,
                    i as usize,
                    Some(SectType::Continuous),
                    false,
                    at - 1,
                );
            }
            assert forall|x: int| start <= x < i && flows_in_columns(#[trigger] items[x]) implies
                goes_on_behind(plan.sections, x) && (start < x ==> goes_on_behind(
                plan.sections,
                x - 1,
            )) by {
                if x < i - 1 {
                    lemma_goes_on_step(prev.sections, base, own, prev.segment, at, i as usize, x);
                    if start < x {
                        lemma_goes_on_step(
                            prev.sections,
                            base,
                            own,
                            prev.segment,
                            at,
                            i as usize,
                            x - 1,
                        );
                    }
                }
            }
        } else {
            assert(!flows_in_columns(items[i - 1]));
        }
    }
}

proof fn lemma_goes_on_step(
    s: Seq<SectionRun>,
    base: SectGeom,
    own: SectGeom,
    segment: usize,
    at: usize,
    end: usize,
    x: int,
)
    requires
        goes_on_behind(s, x),
    ensures
        ({
            let closed = if segment < at {
                pushed(s, base, segment, at, Some(SectType::Continuous), false)
            } else {
                closed_at(s, base, at)
            };
            goes_on_behind(
                pushed(closed, own, at, end, Some(SectType::Continuous), false),
                x,
            )
        }),
{
    let closed = if segment < at {
        pushed(s, base, segment, at, Some(SectType::Continuous), false)
    } else {
        closed_at(s, base, at)
    };
    lemma_goes_on_pushed(s, base, segment, at, Some(SectType::Continuous), false, x);
    lemma_goes_on_closed(s, base, at, x);
    lemma_goes_on_pushed(closed, own, at, end, Some(SectType::Continuous), false, x);
}

/// Columns start and end on the page: in front of a container that flows in columns
/// of the page, unless it opens its run, and behind it, a section ends without a
/// page break.
pub proof fn columns_cause_no_page_break(
    s: Seq<SectionRun>,
    items: Seq<FlowItem>,
    base: SectGeom,
    start: usize,
    end: usize,
    x: int,
)
    requires
        start <= x < end <= items.len() <= usize::MAX,
        flows_in_columns(items[x]),
    ensures
        goes_on_behind(with_column_sections(s, items, base, start, end), x),
        start < x ==> goes_on_behind(with_column_sections(s, items, base, start, end), x - 1),
{
    lemma_columns_go_on(s, items, base, start as int, end as int);
    let plan = columns_upto(s, items, base, start as int, end as int);
    if plan.segment < end {
        lemma_goes_on_pushed(plan.sections, base, plan.segment, end, None, false, x);
        if start < x {
            lemma_goes_on_pushed(plan.sections, base, plan.segment, end, None, false, x - 1);
        }
    } else if plan.saw_columns {
        lemma_goes_on_pushed(plan.sections, base, end, end, None, true, x);
        if start < x {
            lemma_goes_on_pushed(plan.sections, base, end, end, None, true, x - 1);
        }
    }
}

// -- Page breaks in front of a section ---------------------------------------

/// A new section behind others renders the hard page breaks in front of it but for
/// the two that its boundary stands for.
pub proof fn boundaries_stand_for_two_breaks(
    s: Seq<SectionRun>,
    items: Seq<FlowItem>,
    run: PageRun,
    geom: SectGeom,
    n: nat,
)
    requires
        run_wf(items, run),
        items.len() <= usize::MAX,
        0 < s.len() < after_run(s, items, run, geom).len(),
    ensures
        n <= after_run(s, items, run, geom)[s.len() as int].leading_pagebreaks <==> n
            <= hard_breaks(items, run.breaks as int, run.start as int) && (n == 0 || n + 2
            <= run.start - run.breaks),
{
    let hard = hard_breaks(items, run.breaks as int, run.start as int);
    leading_breaks_are_what_is_left(run.start - run.breaks, 2, hard, n);
    let s1 = after_breaks(s, items, run.breaks as int, run.start as int);
    assert(s1.len() == s.len());
}

// -- Sections of tags --------------------------------------------------------

/// Whether a section shows something, asks for a break, or has page breaks in
/// front of it: it holds at least one item, and not tags alone unless it has breaks.
spec fn stands(items: Seq<FlowItem>, s: SectionRun) -> bool {
    s.start < s.end && !absorbable(items, s)
}

spec fn none_empty(s: Seq<SectionRun>) -> bool {
    forall|a: int| 0 <= a < s.len() ==> (#[trigger] s[a]).start < s[a].end
}

proof fn lemma_none_empty(
    items: Seq<FlowItem>,
    initial: usize,
    geoms: Seq<SectGeom>,
    n: int,
)
    requires
        items.len() <= usize::MAX,
        0 <= n <= runs_from(items, 0, initial).len(),
        forall|x: int| 0 <= x < items.len() ==> !((#[trigger] items[x]).kind is Columns),
    ensures
        none_empty(planned(items, runs_from(items, 0, initial), geoms, n)),
    decreases n,
{
    let runs = runs_from(items, 0, initial);
    if n > 0 {
        lemma_none_empty(items, initial, geoms, n - 1);
        lemma_planned(items, initial, geoms, n - 1);
        lemma_runs(items, 0, initial);
        let run = runs[n - 1];
        let s = planned(items, runs, geoms, n - 1);
        let s1 = after_breaks(s, items, run.breaks as int, run.start as int);
        assert(run_wf(items, run) && run.breaks == runs_reach(runs, n - 1, 0));
        lemma_same_ranges(s, s1, items, run.breaks as int);
        assert forall|a: int| 0 <= a < s1.len() implies (#[trigger] s1[a]).start < s1[a].end by {
            assert(s[a].start < s[a].end);
        }
        if run.start < items.len() {
            assert(!has_columns(items, run.start as int, run.end as int));
            let s2 = pushed(s1, geoms[n - 1], run.start, run.end, None, false);
            assert forall|a: int| 0 <= a < s2.len() implies (#[trigger] s2[a]).start
                < s2[a].end by {
                if a < s1.len() {
                    assert(s1[a].start < s1[a].end <= run.breaks);
                }
            }
            let after = after_run(s, items, run, geoms[n - 1]);
            assert forall|a: int| 0 <= a < after.len() implies (#[trigger] after[a]).start
                < after[a].end by {
                assert(after[a].start == s2[a].start && after[a].end == s2[a].end);
            }
        }
    }
}

proof fn lemma_all_stand(items: Seq<FlowItem>, s: Seq<SectionRun>, idx: int, p: int)
    requires
        partitions(s, items, p),
        none_empty(s),
        0 <= idx <= s.len(),
        forall|a: int| 0 <= a < idx ==> stands(items, #[trigger] s[a]),
    ensures
        ({
            let r = absorbed(items, s, idx);
            r.len() == 1 || forall|a: int| 0 <= a < r.len() ==> stands(items, #[trigger] r[a])
        }),
    decreases s.len() - idx,
{
    if idx >= s.len() {
        assert(absorbed(items, s, idx) == s);
    } else if !absorbable(items, s[idx]) {
        assert(s[idx].start < s[idx].end);
        lemma_all_stand(items, s, idx + 1, p);
        assert(absorbed(items, s, idx) == absorbed(items, s, idx + 1));
    } else if idx + 1 < s.len() || idx > 0 {
        let t = merged(s, idx);
        lemma_merged(items, s, idx, p);
        assert forall|a: int| 0 <= a < t.len() implies (#[trigger] t[a]).start < t[a].end by {
            let b = if a < idx {
                a
            } else {
                a + 1
            };
            assert(s[b].start < s[b].end);
            assert(s[idx].start < s[idx].end);
            if b > idx {
                assert(s[idx].end <= s[b].start);
            } else {
                assert(s[b].end <= s[idx].start);
            }
        }
        assert forall|a: int| 0 <= a < idx && a < t.len() implies stands(
            items,
            #[trigger] t[a],
        ) by {
            assert(stands(items, s[a]));
            if t[a] != s[a] {
                assert(a == idx - 1);
                assert(s[a].end <= s[idx].start);
                if content_empty(items, t[a].start as int, t[a].end as int) {
                    assert forall|x: int| s[a].start <= x < s[a].end implies (
                    #[trigger] items[x]).is_tag() by {
                        assert(t[a].start <= x < t[a].end);
                    }
                    assert(content_empty(items, s[a].start as int, s[a].end as int));
                }
            }
        }
        lemma_all_stand(items, t, idx, p);
        assert(absorbed(items, s, idx) == absorbed(items, t, idx));
    } else {
        assert(s.len() == 1);
        assert(absorbed(items, s, 1) == s);
        assert(absorbed(items, s, idx) == s);
    }
}

/// In a flow without column containers, tags alone make no section of their own,
/// unless there is nothing else: a section that neither ends in a break nor has page
/// breaks in front of it holds something besides tags.
pub proof fn tags_make_no_section(
    items: Seq<FlowItem>,
    initial: usize,
    geoms: Seq<SectGeom>,
    a: int,
)
    requires
        items.len() <= usize::MAX,
        forall|x: int| 0 <= x < items.len() ==> !((#[trigger] items[x]).kind is Columns),
        sections_of(items, initial, geoms).len() > 1,
        0 <= a < sections_of(items, initial, geoms).len(),
        sections_of(items, initial, geoms)[a].break_after is None,
        sections_of(items, initial, geoms)[a].leading_pagebreaks == 0,
    ensures
        exists|x: int|
            sections_of(items, initial, geoms)[a].start <= x < sections_of(
                items,
                initial,
                geoms,
            )[a].end && !((#[trigger] items[x]).kind is Tag),
{
    let runs = runs_from(items, 0, initial);
    let s = planned(items, runs, geoms, runs.len() as int);
    lemma_none_empty(items, initial, geoms, runs.len() as int);
    lemma_planned(items, initial, geoms, runs.len() as int);
    lemma_all_stand(items, s, 0, runs_reach(runs, runs.len() as int, 0));
    let r = sections_of(items, initial, geoms);
    assert(stands(items, r[a]));
    if forall|x: int| r[a].start <= x < r[a].end ==> (#[trigger] items[x]).kind is Tag {
        assert forall|x: int| r[a].start <= x < r[a].end implies (#[trigger] items[x]).is_tag() by {
            assert(items[x].kind is Tag);
        }
        assert(content_empty(items, r[a].start as int, r[a].end as int));
    }
}

} // verus!
