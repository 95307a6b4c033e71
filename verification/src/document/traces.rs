//! What leaves no trace in a signature.
//!
//! Furniture is lowered once per page, and what differs from one lowering to the
//! next although the furniture is the same must not show: tags, the ends of
//! bookmarks and of comment ranges, the relationships of links and drawings, and
//! the cached text of live fields. Wherever these stand, in table cells, in text
//! boxes or in the runs of a link, they leave the signature as it is.

use vstd::prelude::*;

use crate::document::laws::tags_leave_no_trace;
use crate::document::signature::{
    cell_head_text, drawing_text, field_head_text, group_child_text, group_text, row_head_text,
    shape_text, show_ints, show_opt_str, sig_block_text, sig_blocks_text, sig_cell_text,
    sig_cells_text, sig_child_text, sig_children_text, sig_live_runs_text, sig_live_text,
    sig_para_props_text, sig_para_text, sig_paras_text, sig_row_text, sig_rows_text, sig_run_text,
    sig_runs_text, table_head_text, toc_head_text,
};
use crate::document::signature_laws::{is_mark, lemma_marks};
use crate::dom::{
    Block, Cell, Drawing, Field, FieldMode, GroupChild, Para, ParaChild, Row, Run, ShapeSpec, Tbl,
    TextBox, Toc,
};
use crate::text::opt_str;

verus! {

// -- What is there but for marks ----------------------------------------------

/// The blocks that are no tags.
pub open spec fn shown_blocks(s: Seq<Block>) -> Seq<Block> {
    s.filter(|b: Block| !(b is Tag))
}

/// The paragraph children that are no marks.
pub open spec fn shown_children(s: Seq<ParaChild>) -> Seq<ParaChild> {
    s.filter(|c: ParaChild| !is_mark(c))
}

proof fn lemma_filtered<T>(s: Seq<T>, keep: spec_fn(T) -> bool, i: int)
    requires
        0 <= i < s.filter(keep).len(),
    ensures
        exists|k: int| 0 <= k < s.len() && #[trigger] s[k] == s.filter(keep)[i],
    decreases s.len(),
{
    reveal(Seq::filter);
    if s.len() > 0 {
        let rest = s.drop_last().filter(keep);
        if i < rest.len() {
            lemma_filtered(s.drop_last(), keep, i);
            let k = choose|k: int| 0 <= k < s.len() - 1 && #[trigger] s.drop_last()[k] == rest[i];
            assert(s[k] == rest[i]);
        } else {
            assert(s[s.len() - 1] == s.filter(keep)[i]);
        }
    }
}

/// What is kept of a list is below it.
pub proof fn lemma_smaller<T>(s: Seq<T>, keep: spec_fn(T) -> bool)
    ensures
        forall|i: int|
            0 <= i < s.filter(keep).len() ==> decreases_to!(s => #[trigger] s.filter(keep)[i]),
{
    assert forall|i: int| 0 <= i < s.filter(keep).len() implies decreases_to!(
        s => #[trigger] s.filter(keep)[i]
    ) by {
        lemma_filtered(s, keep, i);
        let k = choose|k: int| 0 <= k < s.len() && #[trigger] s[k] == s.filter(keep)[i];
        assert(decreases_to!(s => s[k]));
    }
}

/// Whether two lists of blocks are the same but for what leaves no trace.
pub open spec fn alike_blocks(a: Seq<Block>, b: Seq<Block>) -> bool
    decreases a, 0nat,
{
    proof {
        lemma_smaller(a, |b: Block| !(b is Tag));
    }
    let x = shown_blocks(a);
    let y = shown_blocks(b);
    &&& x.len() == y.len()
    &&& forall|i: int| 0 <= i < x.len() ==> alike_block(#[trigger] x[i], y[i])
}

/// Whether two blocks are the same but for what leaves no trace.
pub open spec fn alike_block(a: Block, b: Block) -> bool
    decreases a, 0nat,
{
    match a {
        Block::Para(para) => b is Para && alike_para(para, b->Para_0),
        Block::Table(table) => {
            &&& b is Table
            &&& b->Table_0 == (Tbl { rows: (b->Table_0).rows, ..table })
            &&& alike_rows(table.rows@, (b->Table_0).rows@)
        },
        Block::Toc(toc) => {
            &&& b is Toc
            &&& b->Toc_0 == (Toc {
                entries: (b->Toc_0).entries,
                fallback: (b->Toc_0).fallback,
                ..toc
            })
            &&& alike_paras(toc.entries@, (b->Toc_0).entries@)
            &&& alike_runs(toc.fallback@, (b->Toc_0).fallback@, false)
        },
        _ => a == b,
    }
}

/// Whether two lists of rows are the same but for what leaves no trace.
pub open spec fn alike_rows(a: Seq<Row>, b: Seq<Row>) -> bool
    decreases a, 0nat,
{
    &&& a.len() == b.len()
    &&& forall|i: int| 0 <= i < a.len() ==> alike_row(#[trigger] a[i], b[i])
}

/// Whether two rows are the same but for what leaves no trace.
pub open spec fn alike_row(a: Row, b: Row) -> bool
    decreases a, 0nat,
{
    b == (Row { cells: b.cells, ..a }) && alike_cells(a.cells@, b.cells@)
}

/// Whether two lists of cells are the same but for what leaves no trace.
pub open spec fn alike_cells(a: Seq<Cell>, b: Seq<Cell>) -> bool
    decreases a, 0nat,
{
    &&& a.len() == b.len()
    &&& forall|i: int| 0 <= i < a.len() ==> alike_cell(#[trigger] a[i], b[i])
}

/// Whether two cells are the same but for what leaves no trace.
pub open spec fn alike_cell(a: Cell, b: Cell) -> bool
    decreases a, 0nat,
{
    b == (Cell { blocks: b.blocks, ..a }) && alike_blocks(a.blocks@, b.blocks@)
}

/// Whether two lists of paragraphs are the same but for what leaves no trace.
pub open spec fn alike_paras(a: Seq<Para>, b: Seq<Para>) -> bool
    decreases a, 0nat,
{
    &&& a.len() == b.len()
    &&& forall|i: int| 0 <= i < a.len() ==> alike_para(#[trigger] a[i], b[i])
}

/// Whether two paragraphs are the same but for what leaves no trace.
pub open spec fn alike_para(a: Para, b: Para) -> bool
    decreases a, 0nat,
{
    b == (Para { content: b.content, ..a }) && alike_children(a.content@, b.content@)
}

/// Whether the contents of two paragraphs are the same but for what leaves no
/// trace.
pub open spec fn alike_children(a: Seq<ParaChild>, b: Seq<ParaChild>) -> bool
    decreases a, 0nat,
{
    proof {
        lemma_smaller(a, |c: ParaChild| !is_mark(c));
    }
    let x = shown_children(a);
    let y = shown_children(b);
    &&& x.len() == y.len()
    &&& forall|i: int| 0 <= i < x.len() ==> alike_child(#[trigger] x[i], y[i])
}

/// Whether two paragraph children are the same but for what leaves no trace.
pub open spec fn alike_child(a: ParaChild, b: ParaChild) -> bool
    decreases a, 0nat,
{
    match a {
        ParaChild::Run(run) => b is Run && alike_run(run, b->Run_0, false),
        ParaChild::Hyperlink { anchor, runs, .. } => {
            &&& b is Hyperlink
            &&& opt_str(b->Hyperlink_anchor) == opt_str(anchor)
            &&& alike_runs(runs@, b->Hyperlink_runs@, false)
        },
        _ => a == b,
    }
}

/// Whether two lists of runs are the same but for what leaves no trace. `live` says
/// that they are the cached results of live fields.
pub open spec fn alike_runs(a: Seq<Run>, b: Seq<Run>, live: bool) -> bool
    decreases a, 0nat,
{
    &&& a.len() == b.len()
    &&& forall|i: int| 0 <= i < a.len() ==> alike_run(#[trigger] a[i], b[i], live)
}

/// Whether two runs are the same but for what leaves no trace: among that is the
/// text in the cached result of a live field, and the bookmark that a reference to
/// a footnote carries.
pub open spec fn alike_run(a: Run, b: Run, live: bool) -> bool
    decreases a, 0nat,
{
    match a {
        Run::Text { props, text } => {
            &&& b is Text
            &&& b->Text_props == props
            &&& live || b->Text_text@ == text@
        },
        Run::FootnoteRef { props, id, .. } => {
            &&& b is FootnoteRef
            &&& b->FootnoteRef_props == props
            &&& b->FootnoteRef_id == id
        },
        Run::Drawing(drawing) => b is Drawing && alike_drawing(drawing, b->Drawing_0),
        Run::Field(field) => b is Field && alike_field(field, b->Field_0),
        _ => a == b,
    }
}

/// Whether two fields are the same but for what leaves no trace.
pub open spec fn alike_field(a: Field, b: Field) -> bool
    decreases a, 0nat,
{
    &&& b.instr@ == a.instr@
    &&& b.mode == a.mode
    &&& b.display == a.display
    &&& alike_runs(a.result@, b.result@, a.mode == FieldMode::Live)
}

/// Whether two drawings are the same but for what leaves no trace: among that are
/// their relationships, their identifiers and their names.
pub open spec fn alike_drawing(a: Drawing, b: Drawing) -> bool
    decreases a, 0nat,
{
    &&& b == (Drawing {
        rel: b.rel,
        svg_rel: b.svg_rel,
        compatibility_split_ids: b.compatibility_split_ids,
        docpr_id: b.docpr_id,
        name: b.name,
        shape: b.shape,
        group: b.group,
        ..a
    })
    &&& match a.shape {
        Some(shape) => b.shape is Some && alike_shape(shape, b.shape->0),
        None => b.shape is None,
    }
    &&& match a.group {
        Some(group) => b.group is Some && alike_group(group.children@, (b.group->0).children@),
        None => b.group is None,
    }
}

/// Whether two shapes are the same but for what leaves no trace.
pub open spec fn alike_shape(a: ShapeSpec, b: ShapeSpec) -> bool
    decreases a, 0nat,
{
    &&& b == (ShapeSpec { txbx: b.txbx, ..a })
    &&& match a.txbx {
        Some(txbx) => {
            &&& b.txbx is Some
            &&& b.txbx->0 == (TextBox { blocks: (b.txbx->0).blocks, ..txbx })
            &&& alike_blocks(txbx.blocks@, (b.txbx->0).blocks@)
        },
        None => b.txbx is None,
    }
}

/// Whether the shapes of two groups are the same but for what leaves no trace.
pub open spec fn alike_group(a: Seq<GroupChild>, b: Seq<GroupChild>) -> bool
    decreases a, 0nat,
{
    &&& a.len() == b.len()
    &&& forall|i: int| 0 <= i < a.len() ==> alike_group_child(#[trigger] a[i], b[i])
}

/// Whether two shapes of groups are the same but for what leaves no trace.
pub open spec fn alike_group_child(a: GroupChild, b: GroupChild) -> bool
    decreases a, 0nat,
{
    b == (GroupChild { shape: b.shape, ..a }) && alike_shape(a.shape, b.shape)
}

// -- Signatures ---------------------------------------------------------------

proof fn lemma_blocks(acc: Seq<char>, a: Seq<Block>, b: Seq<Block>)
    requires
        alike_blocks(a, b),
    ensures
        sig_blocks_text(acc, a) == sig_blocks_text(acc, b),
    decreases a, 1nat, 0nat,
{
    let x = shown_blocks(a);
    let y = shown_blocks(b);
    lemma_smaller(a, |b: Block| !(b is Tag));
    tags_leave_no_trace(acc, a);
    tags_leave_no_trace(acc, b);
    lemma_shown_blocks(acc, a, b, x.len() as int);
    assert(x.take(x.len() as int) =~= x);
    assert(y.take(x.len() as int) =~= y);
}

proof fn lemma_shown_blocks(acc: Seq<char>, a: Seq<Block>, b: Seq<Block>, n: int)
    requires
        alike_blocks(a, b),
        0 <= n <= shown_blocks(a).len(),
        forall|i: int|
            0 <= i < shown_blocks(a).len() ==> decreases_to!(a => #[trigger] shown_blocks(a)[i]),
    ensures
        sig_blocks_text(acc, shown_blocks(a).take(n)) == sig_blocks_text(
            acc,
            shown_blocks(b).take(n),
        ),
    decreases a, 0nat, n,
{
    let x = shown_blocks(a);
    let y = shown_blocks(b);
    if n > 0 {
        lemma_shown_blocks(acc, a, b, n - 1);
        assert(x.take(n).drop_last() =~= x.take(n - 1));
        assert(y.take(n).drop_last() =~= y.take(n - 1));
        assert(alike_block(x[n - 1], y[n - 1]));
        assert(decreases_to!(a => x[n - 1]));
        lemma_block(sig_blocks_text(acc, x.take(n - 1)), x[n - 1], y[n - 1]);
    }
}

proof fn lemma_block(acc: Seq<char>, a: Block, b: Block)
    requires
        alike_block(a, b),
    ensures
        sig_block_text(acc, a) == sig_block_text(acc, b),
    decreases a, 0nat, 0nat,
{
    match a {
        Block::Para(para) => lemma_para(acc, para, b->Para_0),
        Block::Table(table) => lemma_rows(
            acc + table_head_text(table),
            table.rows@,
            (b->Table_0).rows@,
        ),
        Block::Toc(toc) => {
            let head = acc + toc_head_text(toc);
            lemma_paras(head, toc.entries@, (b->Toc_0).entries@);
            lemma_runs(
                sig_paras_text(head, toc.entries@),
                toc.fallback@,
                (b->Toc_0).fallback@,
            );
        },
        _ => {},
    }
}

proof fn lemma_rows(acc: Seq<char>, a: Seq<Row>, b: Seq<Row>)
    requires
        alike_rows(a, b),
    ensures
        sig_rows_text(acc, a) == sig_rows_text(acc, b),
    decreases a, 0nat, 0nat,
{
    if a.len() > 0 {
        let x = a.drop_last();
        let y = b.drop_last();
        assert forall|i: int| 0 <= i < x.len() implies alike_row(#[trigger] x[i], y[i]) by {
            assert(alike_row(a[i], b[i]));
        }
        lemma_rows(acc, x, y);
        assert(alike_row(a[a.len() - 1], b[a.len() - 1]));
        lemma_row(sig_rows_text(acc, x), a.last(), b.last());
    }
}

proof fn lemma_row(acc: Seq<char>, a: Row, b: Row)
    requires
        alike_row(a, b),
    ensures
        sig_row_text(acc, a) == sig_row_text(acc, b),
    decreases a, 0nat, 0nat,
{
    lemma_cells(acc + row_head_text(a), a.cells@, b.cells@);
}

proof fn lemma_cells(acc: Seq<char>, a: Seq<Cell>, b: Seq<Cell>)
    requires
        alike_cells(a, b),
    ensures
        sig_cells_text(acc, a) == sig_cells_text(acc, b),
    decreases a, 0nat, 0nat,
{
    if a.len() > 0 {
        let x = a.drop_last();
        let y = b.drop_last();
        assert forall|i: int| 0 <= i < x.len() implies alike_cell(#[trigger] x[i], y[i]) by {
            assert(alike_cell(a[i], b[i]));
        }
        lemma_cells(acc, x, y);
        assert(alike_cell(a[a.len() - 1], b[a.len() - 1]));
        lemma_cell(sig_cells_text(acc, x), a.last(), b.last());
    }
}

proof fn lemma_cell(acc: Seq<char>, a: Cell, b: Cell)
    requires
        alike_cell(a, b),
    ensures
        sig_cell_text(acc, a) == sig_cell_text(acc, b),
    decreases a, 0nat, 0nat,
{
    lemma_blocks(acc + cell_head_text(a), a.blocks@, b.blocks@);
}

proof fn lemma_paras(acc: Seq<char>, a: Seq<Para>, b: Seq<Para>)
    requires
        alike_paras(a, b),
    ensures
        sig_paras_text(acc, a) == sig_paras_text(acc, b),
    decreases a, 0nat, 0nat,
{
    if a.len() > 0 {
        let x = a.drop_last();
        let y = b.drop_last();
        assert forall|i: int| 0 <= i < x.len() implies alike_para(#[trigger] x[i], y[i]) by {
            assert(alike_para(a[i], b[i]));
        }
        lemma_paras(acc, x, y);
        assert(alike_para(a[a.len() - 1], b[a.len() - 1]));
        lemma_para(sig_paras_text(acc, x), a.last(), b.last());
    }
}

proof fn lemma_para(acc: Seq<char>, a: Para, b: Para)
    requires
        alike_para(a, b),
    ensures
        sig_para_text(acc, a) == sig_para_text(acc, b),
    decreases a, 0nat, 0nat,
{
    lemma_children(sig_para_props_text(acc + "p("@, a.props), a.content@, b.content@);
}

proof fn lemma_children(acc: Seq<char>, a: Seq<ParaChild>, b: Seq<ParaChild>)
    requires
        alike_children(a, b),
    ensures
        sig_children_text(acc, a) == sig_children_text(acc, b),
    decreases a, 1nat, 0nat,
{
    let x = shown_children(a);
    let y = shown_children(b);
    lemma_smaller(a, |c: ParaChild| !is_mark(c));
    lemma_marks(acc, a);
    lemma_marks(acc, b);
    lemma_shown_children(acc, a, b, x.len() as int);
    assert(x.take(x.len() as int) =~= x);
    assert(y.take(x.len() as int) =~= y);
}

proof fn lemma_shown_children(acc: Seq<char>, a: Seq<ParaChild>, b: Seq<ParaChild>, n: int)
    requires
        alike_children(a, b),
        0 <= n <= shown_children(a).len(),
        forall|i: int|
            0 <= i < shown_children(a).len() ==> decreases_to!(a => #[trigger] shown_children(a)[i]),
    ensures
        sig_children_text(acc, shown_children(a).take(n)) == sig_children_text(
            acc,
            shown_children(b).take(n),
        ),
    decreases a, 0nat, n,
{
    let x = shown_children(a);
    let y = shown_children(b);
    if n > 0 {
        lemma_shown_children(acc, a, b, n - 1);
        assert(x.take(n).drop_last() =~= x.take(n - 1));
        assert(y.take(n).drop_last() =~= y.take(n - 1));
        assert(alike_child(x[n - 1], y[n - 1]));
        assert(decreases_to!(a => x[n - 1]));
        lemma_child(sig_children_text(acc, x.take(n - 1)), x[n - 1], y[n - 1]);
    }
}

proof fn lemma_child(acc: Seq<char>, a: ParaChild, b: ParaChild)
    requires
        alike_child(a, b),
    ensures
        sig_child_text(acc, a) == sig_child_text(acc, b),
    decreases a, 0nat, 0nat,
{
    match a {
        ParaChild::Run(run) => lemma_run(acc, run, b->Run_0),
        ParaChild::Hyperlink { anchor, runs, .. } => lemma_runs(
            acc + "link("@ + show_opt_str(opt_str(anchor)),
            runs@,
            b->Hyperlink_runs@,
        ),
        _ => {},
    }
}

proof fn lemma_runs(acc: Seq<char>, a: Seq<Run>, b: Seq<Run>)
    requires
        alike_runs(a, b, false),
    ensures
        sig_runs_text(acc, a) == sig_runs_text(acc, b),
    decreases a, 0nat, 0nat,
{
    if a.len() > 0 {
        let x = a.drop_last();
        let y = b.drop_last();
        assert forall|i: int| 0 <= i < x.len() implies alike_run(#[trigger] x[i], y[i], false) by {
            assert(alike_run(a[i], b[i], false));
        }
        lemma_runs(acc, x, y);
        assert(alike_run(a[a.len() - 1], b[a.len() - 1], false));
        lemma_run(sig_runs_text(acc, x), a.last(), b.last());
    }
}

proof fn lemma_live_runs(acc: Seq<char>, a: Seq<Run>, b: Seq<Run>)
    requires
        alike_runs(a, b, true),
    ensures
        sig_live_runs_text(acc, a) == sig_live_runs_text(acc, b),
    decreases a, 0nat, 0nat,
{
    if a.len() > 0 {
        let x = a.drop_last();
        let y = b.drop_last();
        assert forall|i: int| 0 <= i < x.len() implies alike_run(#[trigger] x[i], y[i], true) by {
            assert(alike_run(a[i], b[i], true));
        }
        lemma_live_runs(acc, x, y);
        assert(alike_run(a[a.len() - 1], b[a.len() - 1], true));
        lemma_live(sig_live_runs_text(acc, x), a.last(), b.last());
    }
}

proof fn lemma_run(acc: Seq<char>, a: Run, b: Run)
    requires
        alike_run(a, b, false),
    ensures
        sig_run_text(acc, a) == sig_run_text(acc, b),
    decreases a, 0nat, 0nat,
{
    match a {
        Run::Drawing(drawing) => lemma_drawing(drawing, b->Drawing_0),
        Run::Field(field) => lemma_field(acc, field, b->Field_0),
        _ => {},
    }
}

proof fn lemma_live(acc: Seq<char>, a: Run, b: Run)
    requires
        alike_run(a, b, true),
    ensures
        sig_live_text(acc, a) == sig_live_text(acc, b),
    decreases a, 1nat, 0nat,
{
    match a {
        Run::Text { .. } => {},
        _ => lemma_run(acc, a, b),
    }
}

proof fn lemma_field(acc: Seq<char>, a: Field, b: Field)
    requires
        alike_field(a, b),
    ensures
        sig_run_text(acc, Run::Field(a)) == sig_run_text(acc, Run::Field(b)),
    decreases a, 0nat, 0nat,
{
    let head = acc + field_head_text(a);
    if a.mode == FieldMode::Live {
        lemma_live_runs(head, a.result@, b.result@);
    } else {
        lemma_runs(head, a.result@, b.result@);
    }
}

proof fn lemma_drawing(a: Drawing, b: Drawing)
    requires
        alike_drawing(a, b),
    ensures
        drawing_text(a) == drawing_text(b),
    decreases a, 0nat, 0nat,
{
    if let Some(shape) = a.shape {
        lemma_shape(shape, b.shape->0);
    }
    if let Some(group) = a.group {
        lemma_group(Seq::empty(), group.children@, (b.group->0).children@);
    }
}

proof fn lemma_shape(a: ShapeSpec, b: ShapeSpec)
    requires
        alike_shape(a, b),
    ensures
        shape_text(a) == shape_text(b),
    decreases a, 0nat, 0nat,
{
    if let Some(txbx) = a.txbx {
        lemma_blocks(
            "ins="@ + show_ints(txbx.ins@.map_values(|n: i64| n as int)) + ";"@,
            txbx.blocks@,
            (b.txbx->0).blocks@,
        );
    }
}

proof fn lemma_group(acc: Seq<char>, a: Seq<GroupChild>, b: Seq<GroupChild>)
    requires
        alike_group(a, b),
    ensures
        group_text(acc, a) == group_text(acc, b),
    decreases a, 0nat, 0nat,
{
    if a.len() > 0 {
        let x = a.drop_last();
        let y = b.drop_last();
        assert forall|i: int| 0 <= i < x.len() implies alike_group_child(#[trigger] x[i], y[i]) by {
            assert(alike_group_child(a[i], b[i]));
        }
        lemma_group(acc, x, y);
        assert(alike_group_child(a[a.len() - 1], b[a.len() - 1]));
        lemma_group_child(group_text(acc, x), a.last(), b.last());
    }
}

proof fn lemma_group_child(acc: Seq<char>, a: GroupChild, b: GroupChild)
    requires
        alike_group_child(a, b),
    ensures
        group_child_text(acc, a) == group_child_text(acc, b),
    decreases a, 0nat, 0nat,
{
    lemma_shape(a.shape, b.shape);
}

/// Furniture that is the same but for tags, marks, relationships and the cached text
/// of live fields has the same signature, however deep in the furniture these stand.
pub proof fn unshown_parts_leave_no_trace(a: Seq<Block>, b: Seq<Block>)
    requires
        alike_blocks(a, b),
    ensures
        sig_blocks_text(seq![], a) == sig_blocks_text(seq![], b),
{
    lemma_blocks(Seq::empty(), a, b);
}

// -- Marks that are added or left out ------------------------------------------

proof fn lemma_same_blocks(a: Seq<Block>)
    ensures
        alike_blocks(a, a),
    decreases a, 0nat,
{
    let x = shown_blocks(a);
    lemma_smaller(a, |b: Block| !(b is Tag));
    assert forall|i: int| 0 <= i < x.len() implies alike_block(#[trigger] x[i], x[i]) by {
        assert(decreases_to!(a => x[i]));
        lemma_same_block(x[i]);
    }
}

proof fn lemma_same_block(a: Block)
    ensures
        alike_block(a, a),
    decreases a, 0nat,
{
    match a {
        Block::Para(para) => lemma_same_para(para),
        Block::Table(table) => lemma_same_rows(table.rows@),
        Block::Toc(toc) => {
            lemma_same_paras(toc.entries@);
            lemma_same_runs(toc.fallback@, false);
        },
        _ => {},
    }
}

proof fn lemma_same_rows(a: Seq<Row>)
    ensures
        alike_rows(a, a),
    decreases a, 0nat,
{
    assert forall|i: int| 0 <= i < a.len() implies alike_row(#[trigger] a[i], a[i]) by {
        assert(decreases_to!(a => a[i]));
        lemma_same_row(a[i]);
    }
}

proof fn lemma_same_row(a: Row)
    ensures
        alike_row(a, a),
    decreases a, 0nat,
{
    lemma_same_cells(a.cells@);
}

proof fn lemma_same_cells(a: Seq<Cell>)
    ensures
        alike_cells(a, a),
    decreases a, 0nat,
{
    assert forall|i: int| 0 <= i < a.len() implies alike_cell(#[trigger] a[i], a[i]) by {
        assert(decreases_to!(a => a[i]));
        lemma_same_cell(a[i]);
    }
}

proof fn lemma_same_cell(a: Cell)
    ensures
        alike_cell(a, a),
    decreases a, 0nat,
{
    lemma_same_blocks(a.blocks@);
}

proof fn lemma_same_paras(a: Seq<Para>)
    ensures
        alike_paras(a, a),
    decreases a, 0nat,
{
    assert forall|i: int| 0 <= i < a.len() implies alike_para(#[trigger] a[i], a[i]) by {
        assert(decreases_to!(a => a[i]));
        lemma_same_para(a[i]);
    }
}

proof fn lemma_same_para(a: Para)
    ensures
        alike_para(a, a),
    decreases a, 0nat,
{
    lemma_same_children(a.content@);
}

proof fn lemma_same_children(a: Seq<ParaChild>)
    ensures
        alike_children(a, a),
    decreases a, 0nat,
{
    let x = shown_children(a);
    lemma_smaller(a, |c: ParaChild| !is_mark(c));
    assert forall|i: int| 0 <= i < x.len() implies alike_child(#[trigger] x[i], x[i]) by {
        assert(decreases_to!(a => x[i]));
        lemma_same_child(x[i]);
    }
}

proof fn lemma_same_child(a: ParaChild)
    ensures
        alike_child(a, a),
    decreases a, 0nat,
{
    match a {
        ParaChild::Run(run) => lemma_same_run(run, false),
        ParaChild::Hyperlink { runs, .. } => lemma_same_runs(runs@, false),
        _ => {},
    }
}

proof fn lemma_same_runs(a: Seq<Run>, live: bool)
    ensures
        alike_runs(a, a, live),
    decreases a, 0nat,
{
    assert forall|i: int| 0 <= i < a.len() implies alike_run(#[trigger] a[i], a[i], live) by {
        assert(decreases_to!(a => a[i]));
        lemma_same_run(a[i], live);
    }
}

proof fn lemma_same_run(a: Run, live: bool)
    ensures
        alike_run(a, a, live),
    decreases a, 0nat,
{
    match a {
        Run::Drawing(drawing) => lemma_same_drawing(drawing),
        Run::Field(field) => lemma_same_runs(field.result@, field.mode == FieldMode::Live),
        _ => {},
    }
}

proof fn lemma_same_drawing(a: Drawing)
    ensures
        alike_drawing(a, a),
    decreases a, 0nat,
{
    if let Some(shape) = a.shape {
        lemma_same_shape(shape);
    }
    if let Some(group) = a.group {
        lemma_same_group(group.children@);
    }
}

proof fn lemma_same_shape(a: ShapeSpec)
    ensures
        alike_shape(a, a),
    decreases a, 0nat,
{
    if let Some(txbx) = a.txbx {
        lemma_same_blocks(txbx.blocks@);
    }
}

proof fn lemma_same_group(a: Seq<GroupChild>)
    ensures
        alike_group(a, a),
    decreases a, 0nat,
{
    assert forall|i: int| 0 <= i < a.len() implies alike_group_child(#[trigger] a[i], a[i]) by {
        assert(decreases_to!(a => a[i]));
        lemma_same_group_child(a[i]);
    }
}

proof fn lemma_same_group_child(a: GroupChild)
    ensures
        alike_group_child(a, a),
    decreases a, 0nat,
{
    lemma_same_shape(a.shape);
}

/// Tags that are added or left out change nothing of what blocks show, and marks
/// nothing of what the content of a paragraph shows.
pub proof fn marks_may_come_and_go(
    a: Seq<Block>,
    b: Seq<Block>,
    c: Seq<ParaChild>,
    d: Seq<ParaChild>,
)
    requires
        shown_blocks(a) == shown_blocks(b),
        shown_children(c) == shown_children(d),
    ensures
        alike_blocks(a, b),
        alike_children(c, d),
{
    lemma_same_blocks(a);
    lemma_same_children(c);
}

} // verus!
