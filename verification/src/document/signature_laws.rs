//! What signatures of furniture tell apart, and what they do not.

use vstd::prelude::*;

use crate::document::signature::{
    cell_head_text, drawing_text, field_head_text, row_head_text, run_props_text, show_opt_str,
    sig_block_text, sig_blocks_text, sig_cell_text, sig_cells_text, sig_child_text,
    sig_children_text, sig_indent_text, sig_live_runs_text, sig_live_text, sig_para_flags_text,
    sig_para_props_text, sig_para_text, sig_paras_text, sig_row_text, sig_rows_text,
    sig_run_props_text, sig_run_text, sig_runs_text, sig_spacing_text, sig_tab_text, sig_tabs_text,
    table_head_text, toc_head_text,
};
use crate::dom::{
    Block, BreakKind, Cell, Field, FieldMode, Para, ParaChild, ParaProps, Row, Run, RunProps,
    TabStop,
};
use crate::text::{dec, opt_str};

verus! {

// -- Notation behind a text --------------------------------------------------

proof fn assoc(a: Seq<char>, b: Seq<char>, c: Seq<char>)
    ensures
        (a + b) + c == a + (b + c),
{
    assert((a + b) + c =~= a + (b + c));
}

proof fn lemma_tabs(a: Seq<char>, t: Seq<char>, tabs: Seq<TabStop>)
    ensures
        sig_tabs_text(a + t, tabs) == a + sig_tabs_text(t, tabs),
    decreases tabs.len(),
{
    if tabs.len() > 0 {
        lemma_tabs(a, t, tabs.drop_last());
        assert(sig_tab_text(a + sig_tabs_text(t, tabs.drop_last()), tabs.last()) =~= a
            + sig_tab_text(sig_tabs_text(t, tabs.drop_last()), tabs.last()));
    }
}

proof fn lemma_para_props(a: Seq<char>, t: Seq<char>, props: ParaProps)
    ensures
        sig_para_props_text(a + t, props) == a + sig_para_props_text(t, props),
{
    let flags = sig_para_flags_text(t, props);
    assert(sig_para_flags_text(a + t, props) =~= a + flags);
    let spaced = match props.spacing {
        Some(s) => sig_spacing_text(flags, s),
        None => flags,
    };
    if let Some(s) = props.spacing {
        assert(sig_spacing_text(a + flags, s) =~= a + spaced);
    }
    let indented = match props.ind {
        Some(i) => sig_indent_text(spaced, i),
        None => spaced,
    };
    if let Some(i) = props.ind {
        assert(sig_indent_text(a + spaced, i) =~= a + indented);
    }
    lemma_tabs(a, indented, props.tabs@);
}

proof fn lemma_blocks(a: Seq<char>, t: Seq<char>, s: Seq<Block>)
    ensures
        sig_blocks_text(a + t, s) == a + sig_blocks_text(t, s),
    decreases s, 0nat,
{
    if s.len() > 0 {
        lemma_blocks(a, t, s.drop_last());
        lemma_block(a, sig_blocks_text(t, s.drop_last()), s.last());
    }
}

pub(crate) proof fn lemma_block(a: Seq<char>, t: Seq<char>, block: Block)
    ensures
        sig_block_text(a + t, block) == a + sig_block_text(t, block),
    decreases block, 0nat,
{
    match block {
        Block::Para(para) => lemma_para(a, t, para),
        Block::Table(table) => {
            let head = table_head_text(table);
            assoc(a, t, head);
            lemma_rows(a, t + head, table.rows@);
            assoc(a, sig_rows_text(t + head, table.rows@), ")"@);
        },
        Block::Toc(toc) => {
            let head = toc_head_text(toc);
            assoc(a, t, head);
            lemma_paras(a, t + head, toc.entries@);
            lemma_runs(a, sig_paras_text(t + head, toc.entries@), toc.fallback@);
        },
        _ => {
            assert(sig_block_text(a + t, block) =~= a + sig_block_text(t, block));
        },
    }
}

proof fn lemma_rows(a: Seq<char>, t: Seq<char>, s: Seq<Row>)
    ensures
        sig_rows_text(a + t, s) == a + sig_rows_text(t, s),
    decreases s, 0nat,
{
    if s.len() > 0 {
        lemma_rows(a, t, s.drop_last());
        lemma_row(a, sig_rows_text(t, s.drop_last()), s.last());
    }
}

pub(crate) proof fn lemma_row(a: Seq<char>, t: Seq<char>, row: Row)
    ensures
        sig_row_text(a + t, row) == a + sig_row_text(t, row),
    decreases row, 0nat,
{
    let head = row_head_text(row);
    assoc(a, t, head);
    lemma_cells(a, t + head, row.cells@);
    assoc(a, sig_cells_text(t + head, row.cells@), ")"@);
}

proof fn lemma_cells(a: Seq<char>, t: Seq<char>, s: Seq<Cell>)
    ensures
        sig_cells_text(a + t, s) == a + sig_cells_text(t, s),
    decreases s, 0nat,
{
    if s.len() > 0 {
        lemma_cells(a, t, s.drop_last());
        lemma_cell(a, sig_cells_text(t, s.drop_last()), s.last());
    }
}

pub(crate) proof fn lemma_cell(a: Seq<char>, t: Seq<char>, cell: Cell)
    ensures
        sig_cell_text(a + t, cell) == a + sig_cell_text(t, cell),
    decreases cell, 0nat,
{
    let head = cell_head_text(cell);
    assoc(a, t, head);
    lemma_blocks(a, t + head, cell.blocks@);
    assoc(a, sig_blocks_text(t + head, cell.blocks@), ")"@);
}

proof fn lemma_paras(a: Seq<char>, t: Seq<char>, s: Seq<Para>)
    ensures
        sig_paras_text(a + t, s) == a + sig_paras_text(t, s),
    decreases s, 0nat,
{
    if s.len() > 0 {
        lemma_paras(a, t, s.drop_last());
        lemma_para(a, sig_paras_text(t, s.drop_last()), s.last());
    }
}

pub(crate) proof fn lemma_para(a: Seq<char>, t: Seq<char>, para: Para)
    ensures
        sig_para_text(a + t, para) == a + sig_para_text(t, para),
    decreases para, 0nat,
{
    assoc(a, t, "p("@);
    lemma_para_props(a, t + "p("@, para.props);
    let head = sig_para_props_text(t + "p("@, para.props);
    lemma_children(a, head, para.content@);
    assoc(a, sig_children_text(head, para.content@), ")"@);
}

proof fn lemma_children(a: Seq<char>, t: Seq<char>, s: Seq<ParaChild>)
    ensures
        sig_children_text(a + t, s) == a + sig_children_text(t, s),
    decreases s, 0nat,
{
    if s.len() > 0 {
        lemma_children(a, t, s.drop_last());
        lemma_child(a, sig_children_text(t, s.drop_last()), s.last());
    }
}

pub(crate) proof fn lemma_child(a: Seq<char>, t: Seq<char>, child: ParaChild)
    ensures
        sig_child_text(a + t, child) == a + sig_child_text(t, child),
    decreases child, 0nat,
{
    match child {
        ParaChild::Run(run) => lemma_run(a, t, run),
        ParaChild::OmmlPara(xml) => {
            assert(sig_child_text(a + t, child) =~= a + sig_child_text(t, child));
        },
        ParaChild::Hyperlink { anchor, runs, .. } => {
            let head = t + "link("@ + show_opt_str(opt_str(anchor));
            assert(a + t + "link("@ + show_opt_str(opt_str(anchor)) =~= a + head);
            lemma_runs(a, head, runs@);
            assoc(a, sig_runs_text(head, runs@), ")"@);
        },
        _ => {},
    }
}

pub(crate) proof fn lemma_runs(a: Seq<char>, t: Seq<char>, s: Seq<Run>)
    ensures
        sig_runs_text(a + t, s) == a + sig_runs_text(t, s),
    decreases s, 0nat,
{
    if s.len() > 0 {
        lemma_runs(a, t, s.drop_last());
        lemma_run(a, sig_runs_text(t, s.drop_last()), s.last());
    }
}

proof fn lemma_live_runs(a: Seq<char>, t: Seq<char>, s: Seq<Run>)
    ensures
        sig_live_runs_text(a + t, s) == a + sig_live_runs_text(t, s),
    decreases s, 0nat,
{
    if s.len() > 0 {
        lemma_live_runs(a, t, s.drop_last());
        lemma_live(a, sig_live_runs_text(t, s.drop_last()), s.last());
    }
}

proof fn lemma_props_run(a: Seq<char>, t: Seq<char>, name: Seq<char>, p: RunProps)
    ensures
        sig_run_props_text(a + t + name, p) == a + sig_run_props_text(t + name, p),
{
    assoc(a, t, name);
    assoc(a, t + name, run_props_text(p));
}

pub(crate) proof fn lemma_run(a: Seq<char>, t: Seq<char>, run: Run)
    ensures
        sig_run_text(a + t, run) == a + sig_run_text(t, run),
    decreases run, 0nat,
{
    match run {
        Run::Field(field) => {
            let head = field_head_text(field);
            assoc(a, t, head);
            if field.mode == FieldMode::Live {
                lemma_live_runs(a, t + head, field.result@);
                assoc(a, sig_live_runs_text(t + head, field.result@), ")"@);
            } else {
                lemma_runs(a, t + head, field.result@);
                assoc(a, sig_runs_text(t + head, field.result@), ")"@);
            }
        },
        Run::Text { props, text } => {
            lemma_props_run(a, t, "r("@, props);
            let head = sig_run_props_text(t + "r("@, props);
            assoc(a, head, "text="@);
            assoc(a, head + "text="@, text@);
            assoc(a, head + "text="@ + text@, ")"@);
        },
        Run::FootnoteRef { props, id, .. } => {
            lemma_props_run(a, t, "fnref("@, props);
            let head = sig_run_props_text(t + "fnref("@, props);
            assoc(a, head, dec(id as int));
            assoc(a, head + dec(id as int), ")"@);
        },
        Run::CommentReference { props, id } => {
            lemma_props_run(a, t, "cref("@, props);
            let head = sig_run_props_text(t + "cref("@, props);
            assoc(a, head, dec(id as int));
            assoc(a, head + dec(id as int), ")"@);
        },
        Run::Drawing(drawing) => assoc(a, t, drawing_text(drawing)),
        Run::OmmlInline(xml) => {
            assoc(a, t, "ommli("@);
            assoc(a, t + "ommli("@, xml@);
            assoc(a, t + "ommli("@ + xml@, ")"@);
        },
        Run::Break { kind: BreakKind::Authored } => assoc(a, t, "br;"@),
        Run::Break { kind: BreakKind::Structure } => assoc(a, t, "sbr;"@),
        Run::PageBreak => assoc(a, t, "pagebr;"@),
        Run::ColumnBreak => assoc(a, t, "colbr;"@),
        Run::Tab => assoc(a, t, "tab;"@),
        Run::FillTab => assoc(a, t, "filltab;"@),
        Run::FootnoteRefMark => assoc(a, t, "fnmark;"@),
    }
}

pub(crate) proof fn lemma_live(a: Seq<char>, t: Seq<char>, run: Run)
    ensures
        sig_live_text(a + t, run) == a + sig_live_text(t, run),
    decreases run, 1nat,
{
    match run {
        Run::Text { props, .. } => {
            lemma_props_run(a, t, "r("@, props);
            assoc(a, sig_run_props_text(t + "r("@, props), "text=*)"@);
        },
        _ => lemma_run(a, t, run),
    }
}

// -- Parts of a text ---------------------------------------------------------

pub(crate) proof fn lemma_behind(x: Seq<char>, y: Seq<char>, s: Seq<char>)
    requires
        x != y,
    ensures
        x + s != y + s,
{
    if x + s == y + s {
        assert((x + s).len() == (y + s).len());
        assert(x =~= (x + s).take(x.len() as int));
        assert(y =~= (y + s).take(x.len() as int));
    }
}

pub(crate) proof fn lemma_before(s: Seq<char>, x: Seq<char>, y: Seq<char>)
    requires
        x != y,
    ensures
        s + x != s + y,
{
    if s + x == s + y {
        assert(x =~= (s + x).skip(s.len() as int));
        assert(y =~= (s + y).skip(s.len() as int));
    }
}

pub(crate) proof fn lemma_between(a: Seq<char>, x: Seq<char>, y: Seq<char>, b: Seq<char>)
    requires
        x != y,
    ensures
        a + x + b != a + y + b,
{
    lemma_before(a, x, y);
    lemma_behind(a + x, a + y, b);
}

/// The signature of blocks put together is the sum of their signatures, and
/// nothing has no signature.
pub proof fn signatures_add(a: Seq<Block>, b: Seq<Block>)
    ensures
        sig_blocks_text(seq![], a + b) == sig_blocks_text(seq![], a) + sig_blocks_text(seq![], b),
        sig_blocks_text(seq![], seq![]) == Seq::<char>::empty(),
    decreases b.len(),
{
    let none = Seq::<char>::empty();
    if b.len() == 0 {
        assert(a + b =~= a);
        assert(sig_blocks_text(none, a) + none =~= sig_blocks_text(none, a));
    } else {
        let head = sig_blocks_text(none, a);
        let rest = sig_blocks_text(none, b.drop_last());
        signatures_add(a, b.drop_last());
        assert((a + b).drop_last() =~= a + b.drop_last());
        lemma_block(head, rest, b.last());
    }
}

/// A signature tells two blocks in the same place apart exactly when their own
/// signatures differ, wherever among blocks that place is.
pub proof fn signatures_tell_blocks_apart(a: Seq<Block>, x: Block, y: Block, b: Seq<Block>)
    ensures
        sig_blocks_text(seq![], a + seq![x] + b) == sig_blocks_text(seq![], a + seq![y] + b)
            <==> sig_block_text(seq![], x) == sig_block_text(seq![], y),
{
    let none = Seq::<char>::empty();
    signatures_add(a + seq![x], b);
    signatures_add(a + seq![y], b);
    signatures_add(a, seq![x]);
    signatures_add(a, seq![y]);
    assert(seq![x].drop_last() =~= Seq::<Block>::empty());
    assert(seq![y].drop_last() =~= Seq::<Block>::empty());
    reveal_with_fuel(sig_blocks_text, 2);
    assert(sig_blocks_text(none, seq![x]) == sig_block_text(none, x));
    assert(sig_blocks_text(none, seq![y]) == sig_block_text(none, y));
    if sig_block_text(none, x) != sig_block_text(none, y) {
        lemma_between(
            sig_blocks_text(none, a),
            sig_block_text(none, x),
            sig_block_text(none, y),
            sig_blocks_text(none, b),
        );
    }
}

proof fn lemma_children_add(acc: Seq<char>, a: Seq<ParaChild>, b: Seq<ParaChild>)
    ensures
        sig_children_text(acc, a + b) == sig_children_text(sig_children_text(acc, a), b),
    decreases b.len(),
{
    if b.len() == 0 {
        assert(a + b =~= a);
    } else {
        lemma_children_add(acc, a, b.drop_last());
        assert((a + b).drop_last() =~= a + b.drop_last());
    }
}

/// A signature tells two children in the same place of a paragraph apart exactly
/// when their own notations differ.
pub proof fn signatures_tell_children_apart(
    p: Para,
    q: Para,
    a: Seq<ParaChild>,
    x: ParaChild,
    y: ParaChild,
    b: Seq<ParaChild>,
)
    requires
        p.props == q.props,
        p.content@ == a + seq![x] + b,
        q.content@ == a + seq![y] + b,
    ensures
        sig_para_text(seq![], p) == sig_para_text(seq![], q) <==> sig_child_text(seq![], x)
            == sig_child_text(seq![], y),
{
    let none = Seq::<char>::empty();
    let start = sig_para_props_text(none + "p("@, p.props);
    let head = sig_children_text(start, a);
    lemma_children_place(start, a, x, b);
    lemma_children_place(start, a, y, b);
    let u = sig_child_text(none, x);
    let v = sig_child_text(none, y);
    let tail = sig_children_text(none, b);
    if u != v {
        lemma_between(head, u, v, tail);
        lemma_behind(head + u + tail, head + v + tail, ")"@);
    }
}

proof fn lemma_children_place(start: Seq<char>, a: Seq<ParaChild>, x: ParaChild, b: Seq<ParaChild>)
    ensures
        sig_children_text(start, a + seq![x] + b) == sig_children_text(start, a) + sig_child_text(
            seq![],
            x,
        ) + sig_children_text(seq![], b),
{
    let none = Seq::<char>::empty();
    let head = sig_children_text(start, a);
    lemma_children_add(start, a + seq![x], b);
    assert((a + seq![x]).drop_last() =~= a);
    assert(sig_children_text(start, a + seq![x]) == sig_child_text(head, x));
    assert(head + none =~= head);
    lemma_child(head, none, x);
    let mid = head + sig_child_text(none, x);
    assert(mid + none =~= mid);
    lemma_children(mid, none, b);
}

/// Whether a paragraph child is a mark: a tag, or an end of a bookmark or of a
/// comment's range.
pub open spec fn is_mark(child: ParaChild) -> bool {
    match child {
        ParaChild::Tag(_) => true,
        ParaChild::BookmarkStart { .. } => true,
        ParaChild::BookmarkEnd { .. } => true,
        ParaChild::CommentRangeStart { .. } => true,
        ParaChild::CommentRangeEnd { .. } => true,
        _ => false,
    }
}

/// Marks in a paragraph leave no trace in its signature: two paragraphs that only
/// differ in them have the same one.
pub proof fn marks_leave_no_trace(p: Para, q: Para)
    requires
        p.props == q.props,
        p.content@.filter(|c: ParaChild| !is_mark(c)) == q.content@.filter(
            |c: ParaChild| !is_mark(c),
        ),
    ensures
        sig_para_text(seq![], p) == sig_para_text(seq![], q),
{
    let start = sig_para_props_text(Seq::<char>::empty() + "p("@, p.props);
    lemma_marks(start, p.content@);
    lemma_marks(start, q.content@);
}

pub(crate) proof fn lemma_marks(acc: Seq<char>, content: Seq<ParaChild>)
    ensures
        sig_children_text(acc, content) == sig_children_text(
            acc,
            content.filter(|c: ParaChild| !is_mark(c)),
        ),
    decreases content.len(),
{
    let keep = |c: ParaChild| !is_mark(c);
    reveal(Seq::filter);
    if content.len() > 0 {
        lemma_marks(acc, content.drop_last());
        assert(sig_children_text(acc, content) == sig_child_text(
            sig_children_text(acc, content.drop_last()),
            content.last(),
        ));
        let rest = content.drop_last().filter(keep);
        if keep(content.last()) {
            assert(content.filter(keep) == rest.push(content.last()));
            assert(rest.push(content.last()).drop_last() =~= rest);
            assert(sig_children_text(acc, rest.push(content.last())) == sig_child_text(
                sig_children_text(acc, rest),
                content.last(),
            ));
        } else {
            assert(content.filter(keep) == rest);
        }
    } else {
        assert(content.filter(keep) =~= content);
    }
}

/// Whether two runs of a field's result are the same but for the text of a text
/// run.
pub open spec fn same_but_text(a: Run, b: Run) -> bool {
    match (a, b) {
        (Run::Text { props: p, .. }, Run::Text { props: q, .. }) => p == q,
        _ => a == b,
    }
}

/// The cached text of a live field leaves no trace: two live fields with one
/// instruction whose results only differ in text have the same notation.
pub proof fn cached_text_leaves_no_trace(a: Field, b: Field)
    requires
        a.mode == FieldMode::Live,
        b.mode == FieldMode::Live,
        a.instr@ == b.instr@,
        a.display == b.display,
        a.result@.len() == b.result@.len(),
        forall|i: int|
            0 <= i < a.result@.len() ==> same_but_text(#[trigger] a.result@[i], b.result@[i]),
    ensures
        sig_run_text(seq![], Run::Field(a)) == sig_run_text(seq![], Run::Field(b)),
{
    lemma_cached(Seq::<char>::empty() + field_head_text(a), a.result@, b.result@);
}

proof fn lemma_cached(acc: Seq<char>, a: Seq<Run>, b: Seq<Run>)
    requires
        a.len() == b.len(),
        forall|i: int| 0 <= i < a.len() ==> same_but_text(#[trigger] a[i], b[i]),
    ensures
        sig_live_runs_text(acc, a) == sig_live_runs_text(acc, b),
    decreases a.len(),
{
    if a.len() > 0 {
        assert forall|i: int| 0 <= i < a.drop_last().len() implies same_but_text(
            #[trigger] a.drop_last()[i],
            b.drop_last()[i],
        ) by {
            assert(same_but_text(a[i], b[i]));
        }
        lemma_cached(acc, a.drop_last(), b.drop_last());
        assert(same_but_text(a[a.len() - 1], b[b.len() - 1]));
        let before = sig_live_runs_text(acc, a.drop_last());
        assert(sig_live_runs_text(acc, a) == sig_live_text(before, a.last()));
        assert(sig_live_runs_text(acc, b) == sig_live_text(before, b.last()));
    }
}

proof fn lemma_runs_add(acc: Seq<char>, a: Seq<Run>, b: Seq<Run>)
    ensures
        sig_runs_text(acc, a + b) == sig_runs_text(sig_runs_text(acc, a), b),
        sig_live_runs_text(acc, a + b) == sig_live_runs_text(sig_live_runs_text(acc, a), b),
    decreases b.len(),
{
    if b.len() == 0 {
        assert(a + b =~= a);
    } else {
        lemma_runs_add(acc, a, b.drop_last());
        assert((a + b).drop_last() =~= a + b.drop_last());
    }
}

proof fn lemma_runs_place(start: Seq<char>, a: Seq<Run>, x: Run, b: Seq<Run>)
    ensures
        sig_runs_text(start, a + seq![x] + b) == sig_runs_text(start, a) + sig_run_text(
            seq![],
            x,
        ) + sig_runs_text(seq![], b),
        sig_live_runs_text(start, a + seq![x] + b) == sig_live_runs_text(start, a)
            + sig_live_text(seq![], x) + sig_live_runs_text(seq![], b),
{
    let none = Seq::<char>::empty();
    lemma_runs_add(start, a + seq![x], b);
    assert((a + seq![x]).drop_last() =~= a);
    let head = sig_runs_text(start, a);
    assert(head + none =~= head);
    lemma_run(head, none, x);
    let mid = head + sig_run_text(none, x);
    assert(mid + none =~= mid);
    lemma_runs(mid, none, b);
    let head = sig_live_runs_text(start, a);
    assert(head + none =~= head);
    lemma_live(head, none, x);
    let mid = head + sig_live_text(none, x);
    assert(mid + none =~= mid);
    lemma_live_runs(mid, none, b);
}

/// The cached text of a static field shows: two static fields with one instruction
/// whose results differ in one text have different notations.
pub proof fn static_text_shows(
    f: Field,
    g: Field,
    a: Seq<Run>,
    props: RunProps,
    x: String,
    y: String,
    b: Seq<Run>,
)
    requires
        f.mode == FieldMode::Static,
        g.mode == FieldMode::Static,
        f.instr@ == g.instr@,
        f.display == g.display,
        f.result@ == a + seq![Run::Text { props, text: x }] + b,
        g.result@ == a + seq![Run::Text { props, text: y }] + b,
        x@ != y@,
    ensures
        sig_run_text(seq![], Run::Field(f)) != sig_run_text(seq![], Run::Field(g)),
{
    let none = Seq::<char>::empty();
    let start = none + field_head_text(f);
    let u = Run::Text { props, text: x };
    let v = Run::Text { props, text: y };
    lemma_runs_place(start, a, u, b);
    lemma_runs_place(start, a, v, b);
    let lead = none + "r("@ + run_props_text(props) + "text="@;
    lemma_between(lead, x@, y@, ")"@);
    let head = sig_runs_text(start, a);
    let tail = sig_runs_text(none, b);
    lemma_between(head, sig_run_text(none, u), sig_run_text(none, v), tail);
    lemma_behind(
        head + sig_run_text(none, u) + tail,
        head + sig_run_text(none, v) + tail,
        ")"@,
    );
}

/// What shows of one run of a live field's cached result shows of the field: two
/// live fields with one instruction whose results differ in a run that is written
/// otherwise have different notations.
pub proof fn cached_formatting_shows(
    f: Field,
    g: Field,
    a: Seq<Run>,
    x: Run,
    y: Run,
    b: Seq<Run>,
)
    requires
        f.mode == FieldMode::Live,
        g.mode == FieldMode::Live,
        f.instr@ == g.instr@,
        f.display == g.display,
        f.result@ == a + seq![x] + b,
        g.result@ == a + seq![y] + b,
        sig_live_text(seq![], x) != sig_live_text(seq![], y),
    ensures
        sig_run_text(seq![], Run::Field(f)) != sig_run_text(seq![], Run::Field(g)),
{
    let none = Seq::<char>::empty();
    let start = none + field_head_text(f);
    let u = sig_live_text(none, x);
    let v = sig_live_text(none, y);
    lemma_runs_place(start, a, x, b);
    lemma_runs_place(start, a, y, b);
    let head = sig_live_runs_text(start, a);
    let tail = sig_live_runs_text(none, b);
    lemma_between(head, u, v, tail);
    lemma_behind(head + u + tail, head + v + tail, ")"@);
}

} // verus!
