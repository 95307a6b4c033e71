//! Source-backed text that can be wrapped in review controls.

use vstd::prelude::*;

use crate::dom::{
    Block, Footnote, HdrFtrPart, Para, ParaChild, ReviewCandidate, ReviewCandidateKind,
    ReviewOrigin, Run, Span,
};
use crate::text::{opt_str, str_eq};
use crate::walk::{collect_paras, paras, targets};

verus! {

/// A semantic node of the document, as far as review reads it.
#[derive(Debug, Clone, PartialEq)]
pub struct SnapshotNode {
    pub span: Span,
    /// The element name.
    pub element: String,
    /// How often the node occurs in the document.
    pub semantic_occurrences: usize,
    /// How many positions the paged layout gave it.
    pub paged_positions: usize,
}

/// A source position with the text that stands for it.
pub struct Seed {
    pub origin: ReviewOrigin,
    pub text: Seq<char>,
}

/// A source position with the text that stands for it.
#[derive(Debug, Clone)]
pub struct ReviewSeed {
    pub origin: ReviewOrigin,
    pub text: String,
}

/// What seeds say.
pub open spec fn seeds_view(s: Seq<ReviewSeed>) -> Seq<Seed> {
    s.map_values(|x: ReviewSeed| Seed { origin: x.origin, text: x.text@ })
}

/// The seed of one run: text that has an origin.
pub open spec fn run_seed(run: Run) -> Seq<Seed> {
    match run {
        Run::Text { props, text } => match props.review_origin {
            Some(origin) => seq![Seed { origin, text: text@ }],
            None => Seq::empty(),
        },
        _ => Seq::empty(),
    }
}

/// The seeds of runs.
pub open spec fn runs_seeds(runs: Seq<Run>) -> Seq<Seed>
    decreases runs.len(),
{
    if runs.len() == 0 {
        Seq::empty()
    } else {
        runs_seeds(runs.drop_last()) + run_seed(runs.last())
    }
}

/// The seeds of the text runs of paragraph content.
pub open spec fn text_run_seeds(content: Seq<ParaChild>) -> Seq<Seed>
    decreases content.len(),
{
    if content.len() == 0 {
        Seq::empty()
    } else {
        text_run_seeds(content.drop_last()) + (match content.last() {
            ParaChild::Run(run) => run_seed(run),
            ParaChild::Hyperlink { runs, .. } => runs_seeds(runs@),
            _ => Seq::empty(),
        })
    }
}

/// The plain text of paragraph content, when it is made of nothing but text and
/// invisible marks.
pub open spec fn plain_text(content: Seq<ParaChild>) -> Option<Seq<char>>
    decreases content.len(),
{
    if content.len() == 0 {
        Some(Seq::empty())
    } else {
        match (plain_text(content.drop_last()), content.last()) {
            (None, _) => None,
            (Some(t), ParaChild::Run(Run::Text { text, .. })) => Some(t + text@),
            (Some(t), ParaChild::Run(Run::FootnoteRefMark)) => Some(t),
            (Some(t), ParaChild::Run(Run::Tab)) => Some(t),
            (Some(t), ParaChild::Run(Run::CommentReference { .. })) => Some(t),
            (Some(t), ParaChild::BookmarkStart { .. }) => Some(t),
            (Some(t), ParaChild::BookmarkEnd { .. }) => Some(t),
            (Some(t), ParaChild::CommentRangeStart { .. }) => Some(t),
            (Some(t), ParaChild::CommentRangeEnd { .. }) => Some(t),
            (Some(t), ParaChild::Tag(_)) => Some(t),
            _ => None,
        }
    }
}

/// The seeds of a paragraph: the paragraph as a whole when it has an origin, a
/// single text run with one and plain text, otherwise its text runs.
pub open spec fn para_seeds(para: Para) -> Seq<Seed> {
    let runs = text_run_seeds(para.content@);
    match (para.props.review_origin, plain_text(para.content@)) {
        (Some(origin), Some(text)) => if runs.len() == 1 && text.len() > 0 {
            seq![Seed { origin, text }]
        } else {
            runs
        },
        _ => runs,
    }
}

/// The seeds of paragraphs.
pub open spec fn paras_seeds(ps: Seq<Para>) -> Seq<Seed>
    decreases ps.len(),
{
    if ps.len() == 0 {
        Seq::empty()
    } else {
        paras_seeds(ps.drop_last()) + para_seeds(ps.last())
    }
}

/// The number of seeds with the given span.
pub open spec fn span_count(seeds: Seq<Seed>, span: Span) -> nat
    decreases seeds.len(),
{
    if seeds.len() == 0 {
        0
    } else {
        span_count(seeds.drop_last(), span) + (if seeds.last().origin.span == span {
            1nat
        } else {
            0nat
        })
    }
}

/// Whether a node is the one place where a heading with the given span stands.
pub open spec fn is_sole_heading(node: SnapshotNode, span: Span) -> bool {
    node.span == span && node.element@ == "heading"@ && node.semantic_occurrences == 1
        && node.paged_positions == 1
}

/// The number of nodes where a heading with the given span stands once.
pub open spec fn heading_nodes(nodes: Seq<SnapshotNode>, span: Span) -> nat
    decreases nodes.len(),
{
    if nodes.len() == 0 {
        0
    } else {
        heading_nodes(nodes.drop_last(), span) + (if is_sole_heading(nodes.last(), span) {
            1nat
        } else {
            0nat
        })
    }
}

/// Whether a seed can be offered for review: its span names a source, no other
/// seed has it, and a heading stands in the document exactly once.
pub open spec fn eligible(seed: Seed, seeds: Seq<Seed>, nodes: Seq<SnapshotNode>) -> bool {
    &&& !seed.origin.span.detached()
    &&& span_count(seeds, seed.origin.span) == 1
    &&& seed.origin.kind == ReviewCandidateKind::Heading ==> heading_nodes(
        nodes,
        seed.origin.span,
    ) == 1
}

/// The eligible ones of the first `n` seeds.
pub open spec fn candidates(seeds: Seq<Seed>, nodes: Seq<SnapshotNode>, n: int) -> Seq<Seed>
    decreases n,
{
    if n <= 0 {
        Seq::empty()
    } else {
        let before = candidates(seeds, nodes, n - 1);
        if eligible(seeds[n - 1], seeds, nodes) {
            before.push(seeds[n - 1])
        } else {
            before
        }
    }
}

/// What review candidates say.
pub open spec fn candidates_view(s: Seq<ReviewCandidate>) -> Seq<Seed> {
    s.map_values(
        |c: ReviewCandidate|
            Seed {
                origin: ReviewOrigin { join_id: c.join_id, span: c.span, kind: c.kind },
                text: c.baseline@,
            },
    )
}

/// The paragraphs of notes.
pub open spec fn notes_paras(notes: Seq<Footnote>) -> Seq<Para>
    decreases notes.len(),
{
    if notes.len() == 0 {
        Seq::empty()
    } else {
        notes_paras(notes.drop_last()) + paras(notes.last().blocks@)
    }
}

/// The paragraphs of header or footer parts.
pub open spec fn hdrftr_paras(parts: Seq<HdrFtrPart>) -> Seq<Para>
    decreases parts.len(),
{
    if parts.len() == 0 {
        Seq::empty()
    } else {
        hdrftr_paras(parts.drop_last()) + paras(parts.last().blocks@)
    }
}

/// The seeds of a document.
pub open spec fn document_seeds(
    body: Seq<Block>,
    footnotes: Seq<Footnote>,
    headers: Seq<HdrFtrPart>,
    footers: Seq<HdrFtrPart>,
) -> Seq<Seed> {
    paras_seeds(paras(body) + notes_paras(footnotes) + hdrftr_paras(headers) + hdrftr_paras(footers))
}

fn push_run_seed(run: &Run, out: &mut Vec<ReviewSeed>)
    ensures
        seeds_view(final(out)@) == seeds_view(old(out)@) + run_seed(*run),
{
    let ghost before = seeds_view(out@);
    assert(before =~= before + Seq::<Seed>::empty());
    if let Run::Text { props, text } = run {
        if let Some(origin) = props.review_origin {
            out.push(ReviewSeed { origin, text: text.clone() });
            assert(seeds_view(out@) =~= before + run_seed(*run));
        }
    }
}

fn push_runs_seeds(runs: &Vec<Run>, out: &mut Vec<ReviewSeed>)
    ensures
        seeds_view(final(out)@) == seeds_view(old(out)@) + runs_seeds(runs@),
{
    let mut i: usize = 0;
    assert(seeds_view(out@) =~= seeds_view(old(out)@) + runs_seeds(runs@.take(0)));
    while i < runs.len()
        invariant
            i <= runs.len(),
            seeds_view(out@) == seeds_view(old(out)@) + runs_seeds(runs@.take(i as int)),
        decreases runs.len() - i,
    {
        assert(runs@.take(i + 1).drop_last() =~= runs@.take(i as int));
        push_run_seed(&runs[i], out);
        assert(seeds_view(out@) =~= seeds_view(old(out)@) + runs_seeds(runs@.take(i + 1)));
        i = i + 1;
    }
    assert(runs@.take(i as int) =~= runs@);
}

/// The seeds of the text runs of a paragraph.
pub fn review_text_runs(para: &Para) -> (r: Vec<ReviewSeed>)
    ensures
        seeds_view(r@) == text_run_seeds(para.content@),
{
    let content: &Vec<ParaChild> = &para.content;
    let mut out: Vec<ReviewSeed> = Vec::new();
    let mut i: usize = 0;
    assert(seeds_view(out@) =~= text_run_seeds(content@.take(0)));
    while i < content.len()
        invariant
            i <= content.len(),
            seeds_view(out@) == text_run_seeds(content@.take(i as int)),
        decreases content.len() - i,
    {
        assert(content@.take(i + 1).drop_last() =~= content@.take(i as int));
        let ghost before = seeds_view(out@);
        assert(before =~= before + Seq::<Seed>::empty());
        match &content[i] {
            ParaChild::Run(run) => {
                push_run_seed(run, &mut out);
            }
            ParaChild::Hyperlink { runs, .. } => {
                push_runs_seeds(runs, &mut out);
            }
            _ => {}
        }
        i = i + 1;
    }
    assert(content@.take(i as int) =~= content@);
    out
}

fn child_plain(child: &ParaChild, text: &mut String) -> (ok: bool)
    ensures
        ok == (match *child {
            ParaChild::Run(Run::Text { .. }) => true,
            ParaChild::Run(Run::FootnoteRefMark) => true,
            ParaChild::Run(Run::Tab) => true,
            ParaChild::Run(Run::CommentReference { .. }) => true,
            ParaChild::BookmarkStart { .. } => true,
            ParaChild::BookmarkEnd { .. } => true,
            ParaChild::CommentRangeStart { .. } => true,
            ParaChild::CommentRangeEnd { .. } => true,
            ParaChild::Tag(_) => true,
            _ => false,
        }),
        final(text)@ == (match *child {
            ParaChild::Run(Run::Text { text: t, .. }) => old(text)@ + t@,
            _ => old(text)@,
        }),
{
    match child {
        ParaChild::Run(run) => match run {
            Run::Text { text: t, .. } => {
                text.append(t.as_str());
                true
            },
            Run::FootnoteRefMark => true,
            Run::Tab => true,
            Run::CommentReference { .. } => true,
            _ => false,
        },
        ParaChild::BookmarkStart { .. } => true,
        ParaChild::BookmarkEnd { .. } => true,
        ParaChild::CommentRangeStart { .. } => true,
        ParaChild::CommentRangeEnd { .. } => true,
        ParaChild::Tag(_) => true,
        _ => false,
    }
}

proof fn lemma_plain_prefix(content: Seq<ParaChild>, n: int)
    requires
        0 <= n <= content.len(),
        plain_text(content.take(n)) is None,
    ensures
        plain_text(content) is None,
    decreases content.len() - n,
{
    if n == content.len() {
        assert(content.take(n) =~= content);
    } else {
        assert(content.take(n + 1).drop_last() =~= content.take(n));
        lemma_plain_prefix(content, n + 1);
    }
}

/// The plain text of a paragraph, when it has some and is made of nothing but
/// text and invisible marks.
pub fn plain_review_text(para: &Para) -> (r: Option<String>)
    ensures
        opt_str(r) == (match plain_text(para.content@) {
            Some(t) => if t.len() > 0 {
                Some(t)
            } else {
                None
            },
            None => None,
        }),
{
    let content: &Vec<ParaChild> = &para.content;
    let mut text: String = String::new();
    let mut i: usize = 0;
    assert(content@.take(0) =~= Seq::<ParaChild>::empty());
    while i < content.len()
        invariant
            i <= content.len(),
            content == &para.content,
            plain_text(content@.take(i as int)) == Some(text@),
        decreases content.len() - i,
    {
        assert(content@.take(i + 1).drop_last() =~= content@.take(i as int));
        assert(content@.take(i + 1).last() == content@[i as int]);
        let ok: bool = child_plain(&content[i], &mut text);
        if !ok {
            proof {
                lemma_plain_prefix(content@, i + 1);
            }
            return None;
        }
        i = i + 1;
    }
    assert(content@.take(i as int) =~= content@);
    if text.as_str().is_empty() {
        None
    } else {
        Some(text)
    }
}

fn push_para_seeds(para: &Para, out: &mut Vec<ReviewSeed>)
    ensures
        seeds_view(final(out)@) == seeds_view(old(out)@) + para_seeds(*para),
{
    let ghost before = seeds_view(out@);
    let mut runs: Vec<ReviewSeed> = review_text_runs(para);
    if runs.len() == 1 {
        if let Some(origin) = para.props.review_origin {
            if let Some(text) = plain_review_text(para) {
                out.push(ReviewSeed { origin, text });
                assert(seeds_view(out@) =~= before + para_seeds(*para));
                return;
            }
        }
    }
    assert(seeds_view(runs@).len() == runs@.len());
    assert(para_seeds(*para) == seeds_view(runs@));
    let ghost own = runs@;
    let ghost base = out@;
    out.append(&mut runs);
    assert(seeds_view(out@) =~= before + seeds_view(own));
}

fn push_note_paras<'a>(notes: &'a Vec<Footnote>, out: &mut Vec<&'a Para>)
    ensures
        targets(final(out)@) == targets(old(out)@) + notes_paras(notes@),
{
    let mut i: usize = 0;
    assert(targets(out@) =~= targets(old(out)@) + notes_paras(notes@.take(0)));
    while i < notes.len()
        invariant
            i <= notes.len(),
            targets(out@) == targets(old(out)@) + notes_paras(notes@.take(i as int)),
        decreases notes.len() - i,
    {
        assert(notes@.take(i + 1).drop_last() =~= notes@.take(i as int));
        collect_paras(&notes[i].blocks, out);
        assert(targets(out@) =~= targets(old(out)@) + notes_paras(notes@.take(i + 1)));
        i = i + 1;
    }
    assert(notes@.take(i as int) =~= notes@);
}

fn push_hdrftr_paras<'a>(parts: &'a Vec<HdrFtrPart>, out: &mut Vec<&'a Para>)
    ensures
        targets(final(out)@) == targets(old(out)@) + hdrftr_paras(parts@),
{
    let mut i: usize = 0;
    assert(targets(out@) =~= targets(old(out)@) + hdrftr_paras(parts@.take(0)));
    while i < parts.len()
        invariant
            i <= parts.len(),
            targets(out@) == targets(old(out)@) + hdrftr_paras(parts@.take(i as int)),
        decreases parts.len() - i,
    {
        assert(parts@.take(i + 1).drop_last() =~= parts@.take(i as int));
        collect_paras(&parts[i].blocks, out);
        assert(targets(out@) =~= targets(old(out)@) + hdrftr_paras(parts@.take(i + 1)));
        i = i + 1;
    }
    assert(parts@.take(i as int) =~= parts@);
}

fn collect_seeds(ps: &Vec<&Para>) -> (out: Vec<ReviewSeed>)
    ensures
        seeds_view(out@) == paras_seeds(targets(ps@)),
{
    let ghost all = targets(ps@);
    let mut out: Vec<ReviewSeed> = Vec::new();
    let mut i: usize = 0;
    assert(seeds_view(out@) =~= paras_seeds(all.take(0)));
    while i < ps.len()
        invariant
            i <= ps.len(),
            all == targets(ps@),
            seeds_view(out@) == paras_seeds(all.take(i as int)),
        decreases ps.len() - i,
    {
        assert(all.take(i + 1).drop_last() =~= all.take(i as int));
        assert(all.take(i + 1).last() == *ps@[i as int]);
        push_para_seeds(ps[i], &mut out);
        i = i + 1;
    }
    assert(all.take(i as int) =~= all);
    out
}

fn count_span(seeds: &Vec<ReviewSeed>, span: Span) -> (r: usize)
    ensures
        r == span_count(seeds_view(seeds@), span),
{
    let ghost all = seeds_view(seeds@);
    let mut n: usize = 0;
    let mut i: usize = 0;
    while i < seeds.len()
        invariant
            i <= seeds.len(),
            n <= i,
            all == seeds_view(seeds@),
            n == span_count(all.take(i as int), span),
        decreases seeds.len() - i,
    {
        assert(all.take(i + 1).drop_last() =~= all.take(i as int));
        assert(all.take(i + 1).last() == all[i as int]);
        if seeds[i].origin.span == span {
            n = n + 1;
        }
        i = i + 1;
    }
    assert(all.take(i as int) =~= all);
    n
}

fn count_heading_nodes(nodes: &Vec<SnapshotNode>, span: Span) -> (r: usize)
    ensures
        r == heading_nodes(nodes@, span),
{
    let mut n: usize = 0;
    let mut i: usize = 0;
    while i < nodes.len()
        invariant
            i <= nodes.len(),
            n <= i,
            n == heading_nodes(nodes@.take(i as int), span),
        decreases nodes.len() - i,
    {
        assert(nodes@.take(i + 1).drop_last() =~= nodes@.take(i as int));
        assert(nodes@.take(i + 1).last() == nodes@[i as int]);
        let node: &SnapshotNode = &nodes[i];
        if node.span == span && str_eq(node.element.as_str(), "heading")
            && node.semantic_occurrences == 1 && node.paged_positions == 1 {
            n = n + 1;
        }
        i = i + 1;
    }
    assert(nodes@.take(i as int) =~= nodes@);
    n
}

/// Collects the blocks and inline texts that can be offered for review: those
/// whose source position names exactly one of them.
pub fn collect_review_candidates(
    body: &Vec<Block>,
    footnotes: &Vec<Footnote>,
    headers: &Vec<HdrFtrPart>,
    footers: &Vec<HdrFtrPart>,
    nodes: &Vec<SnapshotNode>,
) -> (r: Vec<ReviewCandidate>)
    ensures
        ({
            let seeds = document_seeds(body@, footnotes@, headers@, footers@);
            candidates_view(r@) == candidates(seeds, nodes@, seeds.len() as int)
        }),
{
    let mut ps: Vec<&Para> = Vec::new();
    collect_paras(body, &mut ps);
    assert(targets(ps@) =~= paras(body@));
    push_note_paras(footnotes, &mut ps);
    push_hdrftr_paras(headers, &mut ps);
    push_hdrftr_paras(footers, &mut ps);
    let seeds: Vec<ReviewSeed> = collect_seeds(&ps);
    let ghost all = seeds_view(seeds@);
    let mut out: Vec<ReviewCandidate> = Vec::new();
    let mut i: usize = 0;
    assert(candidates_view(out@) =~= Seq::<Seed>::empty());
    while i < seeds.len()
        invariant
            i <= seeds.len(),
            all == seeds_view(seeds@),
            candidates_view(out@) == candidates(all, nodes@, i as int),
        decreases seeds.len() - i,
    {
        let seed: &ReviewSeed = &seeds[i];
        assert(all[i as int] == (Seed { origin: seed.origin, text: seed.text@ }));
        let unique: bool = !seed.origin.span.is_detached() && count_span(&seeds, seed.origin.span)
            == 1;
        let placed: bool = seed.origin.kind != ReviewCandidateKind::Heading
            || count_heading_nodes(nodes, seed.origin.span) == 1;
        if unique && placed {
            let ghost prior = out@;
            out.push(
                ReviewCandidate {
                    join_id: seed.origin.join_id,
                    span: seed.origin.span,
                    kind: seed.origin.kind,
                    baseline: seed.text.clone(),
                },
            );
            assert(candidates_view(out@) =~= candidates_view(prior).push(all[i as int]));
        }
        i = i + 1;
    }
    assert(all.len() == seeds@.len());
    out
}

proof fn lemma_span_counted(seeds: Seq<Seed>, i: int)
    requires
        0 <= i < seeds.len(),
    ensures
        span_count(seeds, seeds[i].origin.span) >= 1,
    decreases seeds.len(),
{
    if i < seeds.len() - 1 {
        lemma_span_counted(seeds.drop_last(), i);
    }
}

proof fn lemma_span_counted_twice(seeds: Seq<Seed>, i: int, j: int)
    requires
        0 <= i < j < seeds.len(),
        seeds[i].origin.span == seeds[j].origin.span,
    ensures
        span_count(seeds, seeds[i].origin.span) >= 2,
    decreases seeds.len(),
{
    if j == seeds.len() - 1 {
        lemma_span_counted(seeds.drop_last(), i);
    } else {
        lemma_span_counted_twice(seeds.drop_last(), i, j);
    }
}

proof fn lemma_candidates(seeds: Seq<Seed>, nodes: Seq<SnapshotNode>, n: int)
    requires
        0 <= n <= seeds.len(),
    ensures
        forall|i: int|
            0 <= i < candidates(seeds, nodes, n).len() ==> eligible(
                #[trigger] candidates(seeds, nodes, n)[i],
                seeds,
                nodes,
            ) && exists|k: int|
                0 <= k < n && #[trigger] seeds[k] == candidates(seeds, nodes, n)[i],
        forall|i: int, j: int|
            #![trigger candidates(seeds, nodes, n)[i], candidates(seeds, nodes, n)[j]]
            0 <= i < j < candidates(seeds, nodes, n).len() ==> candidates(
                seeds,
                nodes,
                n,
            )[i].origin.span != candidates(seeds, nodes, n)[j].origin.span,
    decreases n,
{
    if n > 0 {
        lemma_candidates(seeds, nodes, n - 1);
        let before = candidates(seeds, nodes, n - 1);
        let after = candidates(seeds, nodes, n);
        if eligible(seeds[n - 1], seeds, nodes) {
            assert forall|i: int| 0 <= i < before.len() implies #[trigger] before[i].origin.span
                != seeds[n - 1].origin.span by {
                let k = choose|k: int| 0 <= k < n - 1 && #[trigger] seeds[k] == before[i];
                if seeds[k].origin.span == seeds[n - 1].origin.span {
                    lemma_span_counted_twice(seeds, k, n - 1);
                }
            }
            assert forall|i: int| 0 <= i < after.len() implies eligible(
                #[trigger] after[i],
                seeds,
                nodes,
            ) && exists|k: int| 0 <= k < n && #[trigger] seeds[k] == after[i] by {
                if i < before.len() {
                    assert(after[i] == before[i]);
                    let k = choose|k: int| 0 <= k < n - 1 && #[trigger] seeds[k] == before[i];
                    assert(seeds[k] == after[i]);
                } else {
                    assert(seeds[n - 1] == after[i]);
                }
            }
            assert forall|i: int, j: int|
                #![trigger after[i], after[j]]
                0 <= i < j < after.len() implies after[i].origin.span != after[j].origin.span by {
                assert(after[i] == before[i]);
                if j < before.len() {
                    assert(after[j] == before[j]);
                }
            }
        } else {
            assert forall|i: int| 0 <= i < after.len() implies exists|k: int|
                0 <= k < n && #[trigger] seeds[k] == #[trigger] after[i] by {
                let k = choose|k: int| 0 <= k < n - 1 && #[trigger] seeds[k] == before[i];
                assert(seeds[k] == after[i]);
            }
        }
    }
}

/// A review candidate names one place: no two candidates have the same source
/// position, and none is without one.
pub proof fn candidates_name_one_place(seeds: Seq<Seed>, nodes: Seq<SnapshotNode>, i: int, j: int)
    requires
        0 <= i < j < candidates(seeds, nodes, seeds.len() as int).len(),
    ensures
        candidates(seeds, nodes, seeds.len() as int)[i].origin.span != candidates(
            seeds,
            nodes,
            seeds.len() as int,
        )[j].origin.span,
        !candidates(seeds, nodes, seeds.len() as int)[i].origin.span.detached(),
        !candidates(seeds, nodes, seeds.len() as int)[j].origin.span.detached(),
{
    lemma_candidates(seeds, nodes, seeds.len() as int);
}

} // verus!
