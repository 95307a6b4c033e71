//! What a signature says of text.
//!
//! Another text, font, size or color of one text run, wherever in the furniture it
//! stands, gives another signature. Only the text in the cached result of a live
//! field does not show.

use vstd::prelude::*;

use crate::document::signature::{
    before_font_text, behind_color_text, behind_font_text, behind_size_text, cell_head_text,
    comma_list, debug_text, drawing_text, field_head_text, fill_text, geom_text,
    group_child_text, group_text, opt_anchor_text, opt_u32, row_head_text, run_props_text,
    shape_text, show_ints, show_opt, show_opt_int, show_opt_rgb, show_opt_str, sig_block_text,
    sig_blocks_text, sig_cell_text, sig_cells_text, sig_child_text, sig_children_text,
    sig_live_runs_text, sig_live_text, sig_para_props_text, sig_para_text, sig_paras_text,
    sig_row_text, sig_rows_text, sig_run_props_text, sig_run_text, sig_runs_text, stroke_text, table_head_text,
    toc_head_text,
};
use crate::document::signature_laws::{
    lemma_before, lemma_behind, lemma_between, lemma_block, lemma_cell, lemma_child, lemma_live,
    lemma_para, lemma_row, lemma_run, lemma_runs,
};
use crate::dom::{
    Block, Cell, Drawing, Field, FieldMode, GroupChild, Para, ParaChild, Row, Run, RunProps,
    ShapeSpec, Tbl, TextBox, Toc,
};
use crate::text::{dec, dec_nat, lemma_dec_injective, opt_str};

verus! {

// -- Fonts that their notation tells -----------------------------------------

/// Whether no other text has the debug notation of `s`.
pub open spec fn told_apart(s: Seq<char>) -> bool {
    forall|t: Seq<char>| #[trigger] debug_text(t) == debug_text(s) ==> t == s
}

/// Whether the notation of run properties tells their font from any other.
pub open spec fn tells_props(props: RunProps) -> bool {
    props.font matches Some(font) ==> told_apart(font@)
}

/// Whether the notation of a run tells the fonts in it from any others.
pub open spec fn tells_run(run: Run) -> bool
    decreases run, 0nat,
{
    match run {
        Run::Text { props, .. } => tells_props(props),
        Run::Field(field) => tells_runs(field.result@),
        Run::Drawing(drawing) => tells_drawing(drawing),
        _ => true,
    }
}

/// Whether the notation of runs tells the fonts in them from any others.
pub open spec fn tells_runs(s: Seq<Run>) -> bool
    decreases s, 0nat,
{
    forall|i: int| 0 <= i < s.len() ==> tells_run(#[trigger] s[i])
}

/// Whether the notation of a drawing tells the fonts in it from any others.
pub open spec fn tells_drawing(drawing: Drawing) -> bool
    decreases drawing, 0nat,
{
    &&& match drawing.shape {
        Some(shape) => tells_shape(shape),
        None => true,
    }
    &&& match drawing.group {
        Some(group) => tells_group(group.children@),
        None => true,
    }
}

/// Whether the notation of a shape tells the fonts in it from any others.
pub open spec fn tells_shape(shape: ShapeSpec) -> bool
    decreases shape, 0nat,
{
    match shape.txbx {
        Some(txbx) => tells_blocks(txbx.blocks@),
        None => true,
    }
}

/// Whether the notation of the shapes of a group tells the fonts in them from any
/// others.
pub open spec fn tells_group(s: Seq<GroupChild>) -> bool
    decreases s, 0nat,
{
    forall|i: int| 0 <= i < s.len() ==> tells_group_child(#[trigger] s[i])
}

/// Whether the notation of one shape of a group tells the fonts in it from any
/// others.
pub open spec fn tells_group_child(child: GroupChild) -> bool
    decreases child, 0nat,
{
    tells_shape(child.shape)
}

/// Whether the notation of a paragraph child tells the fonts in it from any others.
pub open spec fn tells_child(child: ParaChild) -> bool
    decreases child, 0nat,
{
    match child {
        ParaChild::Run(run) => tells_run(run),
        ParaChild::Hyperlink { runs, .. } => tells_runs(runs@),
        _ => true,
    }
}

/// Whether the notation of paragraph content tells the fonts in it from any others.
pub open spec fn tells_children(s: Seq<ParaChild>) -> bool
    decreases s, 0nat,
{
    forall|i: int| 0 <= i < s.len() ==> tells_child(#[trigger] s[i])
}

/// Whether the notation of a paragraph tells the fonts in it from any others.
pub open spec fn tells_para(para: Para) -> bool
    decreases para, 0nat,
{
    tells_children(para.content@)
}

/// Whether the notation of paragraphs tells the fonts in them from any others.
pub open spec fn tells_paras(s: Seq<Para>) -> bool
    decreases s, 0nat,
{
    forall|i: int| 0 <= i < s.len() ==> tells_para(#[trigger] s[i])
}

/// Whether the notation of a cell tells the fonts in it from any others.
pub open spec fn tells_cell(cell: Cell) -> bool
    decreases cell, 0nat,
{
    tells_blocks(cell.blocks@)
}

/// Whether the notation of cells tells the fonts in them from any others.
pub open spec fn tells_cells(s: Seq<Cell>) -> bool
    decreases s, 0nat,
{
    forall|i: int| 0 <= i < s.len() ==> tells_cell(#[trigger] s[i])
}

/// Whether the notation of a row tells the fonts in it from any others.
pub open spec fn tells_row(row: Row) -> bool
    decreases row, 0nat,
{
    tells_cells(row.cells@)
}

/// Whether the notation of rows tells the fonts in them from any others.
pub open spec fn tells_rows(s: Seq<Row>) -> bool
    decreases s, 0nat,
{
    forall|i: int| 0 <= i < s.len() ==> tells_row(#[trigger] s[i])
}

/// Whether the notation of a block tells the fonts in it from any others.
pub open spec fn tells_block(block: Block) -> bool
    decreases block, 0nat,
{
    match block {
        Block::Para(para) => tells_para(para),
        Block::Table(table) => tells_rows(table.rows@),
        Block::Toc(toc) => tells_paras(toc.entries@) && tells_runs(toc.fallback@),
        _ => true,
    }
}

/// Whether the notation of blocks tells the fonts in them from any others.
pub open spec fn tells_blocks(s: Seq<Block>) -> bool
    decreases s, 0nat,
{
    forall|i: int| 0 <= i < s.len() ==> tells_block(#[trigger] s[i])
}

// -- Edited text -------------------------------------------------------------

/// Whether two lists are the same but for what stands at `k`.
pub open spec fn same_but_at<T>(a: Seq<T>, b: Seq<T>, k: int) -> bool {
    &&& 0 <= k < a.len()
    &&& b.len() == a.len()
    &&& forall|i: int| 0 <= i < a.len() && i != k ==> #[trigger] b[i] == a[i]
}

/// Whether `q` is `p` with another font, another size or another color.
pub open spec fn restyled_props(p: RunProps, q: RunProps) -> bool {
    ||| q == (RunProps { font: q.font, ..p }) && opt_str(q.font) != opt_str(p.font)
    ||| q == (RunProps { size_half_pt: q.size_half_pt, ..p }) && q.size_half_pt != p.size_half_pt
    ||| q == (RunProps { color: q.color, ..p }) && q.color != p.color
}

/// Whether `b` is the run `a` with one text run in it edited: restyled, or
/// with another text. In the cached result of a live field the text is no edit, and
/// may differ beside one.
pub open spec fn edited_run(a: Run, b: Run, live: bool) -> bool
    decreases a, 0nat,
{
    match a {
        Run::Text { props, text } => {
            &&& b is Text
            &&& {
                ||| restyled_props(props, b->Text_props) && (live || b->Text_text == text)
                ||| !live && b->Text_props == props && b->Text_text@ != text@
            }
        },
        Run::Field(field) => {
            &&& b is Field
            &&& b->Field_0 == (Field { result: (b->Field_0).result, ..field })
            &&& edited_runs(field.result@, (b->Field_0).result@, field.mode == FieldMode::Live)
        },
        Run::Drawing(drawing) => b is Drawing && edited_drawing(drawing, b->Drawing_0),
        _ => false,
    }
}

/// Whether `b` are the runs `a` with one text run in them edited.
pub open spec fn edited_runs(a: Seq<Run>, b: Seq<Run>, live: bool) -> bool
    decreases a, 0nat,
{
    exists|k: int| #[trigger] same_but_at(a, b, k) && edited_run(a[k], b[k], live)
}

/// Whether `b` is the drawing `a` with one text run in it edited.
pub open spec fn edited_drawing(a: Drawing, b: Drawing) -> bool
    decreases a, 0nat,
{
    ||| b == (Drawing { shape: b.shape, ..a }) && match a.shape {
        Some(shape) => b.shape is Some && edited_shape(shape, b.shape->0),
        None => false,
    }
    ||| b == (Drawing { group: b.group, ..a }) && match a.group {
        Some(group) => b.group is Some && edited_group(group.children@, (b.group->0).children@),
        None => false,
    }
}

/// Whether `b` is the shape `a` with one text run in it edited.
pub open spec fn edited_shape(a: ShapeSpec, b: ShapeSpec) -> bool
    decreases a, 0nat,
{
    &&& b == (ShapeSpec { txbx: b.txbx, ..a })
    &&& match a.txbx {
        Some(txbx) => {
            &&& b.txbx is Some
            &&& b.txbx->0 == (TextBox { blocks: (b.txbx->0).blocks, ..txbx })
            &&& edited_blocks(txbx.blocks@, (b.txbx->0).blocks@)
        },
        None => false,
    }
}

/// Whether `b` are the shapes `a` of a group with one text run in them edited.
pub open spec fn edited_group(a: Seq<GroupChild>, b: Seq<GroupChild>) -> bool
    decreases a, 0nat,
{
    exists|k: int| #[trigger] same_but_at(a, b, k) && edited_group_child(a[k], b[k])
}

/// Whether `b` is the shape `a` of a group with one text run in it edited.
pub open spec fn edited_group_child(a: GroupChild, b: GroupChild) -> bool
    decreases a, 0nat,
{
    b == (GroupChild { shape: b.shape, ..a }) && edited_shape(a.shape, b.shape)
}

/// Whether `b` is the paragraph child `a` with one text run in it edited.
pub open spec fn edited_child(a: ParaChild, b: ParaChild) -> bool
    decreases a, 0nat,
{
    match a {
        ParaChild::Run(run) => b is Run && edited_run(run, b->Run_0, false),
        ParaChild::Hyperlink { rel, anchor, runs } => {
            &&& b is Hyperlink
            &&& b->Hyperlink_rel == rel
            &&& b->Hyperlink_anchor == anchor
            &&& edited_runs(runs@, b->Hyperlink_runs@, false)
        },
        _ => false,
    }
}

/// Whether `b` is the paragraph content `a` with one text run in it edited.
pub open spec fn edited_children(a: Seq<ParaChild>, b: Seq<ParaChild>) -> bool
    decreases a, 0nat,
{
    exists|k: int| #[trigger] same_but_at(a, b, k) && edited_child(a[k], b[k])
}

/// Whether `b` is the paragraph `a` with one text run in it edited.
pub open spec fn edited_para(a: Para, b: Para) -> bool
    decreases a, 0nat,
{
    b == (Para { content: b.content, ..a }) && edited_children(a.content@, b.content@)
}

/// Whether `b` are the paragraphs `a` with one text run in them edited.
pub open spec fn edited_paras(a: Seq<Para>, b: Seq<Para>) -> bool
    decreases a, 0nat,
{
    exists|k: int| #[trigger] same_but_at(a, b, k) && edited_para(a[k], b[k])
}

/// Whether `b` is the cell `a` with one text run in it edited.
pub open spec fn edited_cell(a: Cell, b: Cell) -> bool
    decreases a, 0nat,
{
    b == (Cell { blocks: b.blocks, ..a }) && edited_blocks(a.blocks@, b.blocks@)
}

/// Whether `b` are the cells `a` with one text run in them edited.
pub open spec fn edited_cells(a: Seq<Cell>, b: Seq<Cell>) -> bool
    decreases a, 0nat,
{
    exists|k: int| #[trigger] same_but_at(a, b, k) && edited_cell(a[k], b[k])
}

/// Whether `b` is the row `a` with one text run in it edited.
pub open spec fn edited_row(a: Row, b: Row) -> bool
    decreases a, 0nat,
{
    b == (Row { cells: b.cells, ..a }) && edited_cells(a.cells@, b.cells@)
}

/// Whether `b` are the rows `a` with one text run in them edited.
pub open spec fn edited_rows(a: Seq<Row>, b: Seq<Row>) -> bool
    decreases a, 0nat,
{
    exists|k: int| #[trigger] same_but_at(a, b, k) && edited_row(a[k], b[k])
}

/// Whether `b` is the table of contents `a` with one text run in it edited.
pub open spec fn edited_toc(a: Toc, b: Toc) -> bool
    decreases a, 0nat,
{
    ||| b == (Toc { entries: b.entries, ..a }) && edited_paras(a.entries@, b.entries@)
    ||| b == (Toc { fallback: b.fallback, ..a }) && edited_runs(
        a.fallback@,
        b.fallback@,
        false,
    )
}

/// Whether `b` is the block `a` with one text run in it edited.
pub open spec fn edited_block(a: Block, b: Block) -> bool
    decreases a, 0nat,
{
    match a {
        Block::Para(para) => b is Para && edited_para(para, b->Para_0),
        Block::Table(table) => {
            &&& b is Table
            &&& b->Table_0 == (Tbl { rows: (b->Table_0).rows, ..table })
            &&& edited_rows(table.rows@, (b->Table_0).rows@)
        },
        Block::Toc(toc) => b is Toc && edited_toc(toc, b->Toc_0),
        _ => false,
    }
}

/// Whether `b` are the blocks `a` with one text run in them edited: the same blocks
/// but for the text, the font, the size or the color of that run.
pub open spec fn edited_blocks(a: Seq<Block>, b: Seq<Block>) -> bool
    decreases a, 0nat,
{
    exists|k: int| #[trigger] same_but_at(a, b, k) && edited_block(a[k], b[k])
}

// -- The notation of formatting ----------------------------------------------

proof fn lemma_opt(a: Option<Seq<char>>, b: Option<Seq<char>>)
    requires
        a != b,
    ensures
        show_opt(a) != show_opt(b),
{
    reveal_strlit("Some(");
    reveal_strlit("None");
    reveal_strlit(")");
    match (a, b) {
        (Some(s), Some(t)) => lemma_between("Some("@, s, t, ")"@),
        (Some(s), None) => {
            assert(show_opt(a)[0] == 'S');
            assert(show_opt(b)[0] == 'N');
        },
        (None, Some(t)) => {
            assert(show_opt(b)[0] == 'S');
            assert(show_opt(a)[0] == 'N');
        },
        (None, None) => {},
    }
}

proof fn lemma_opt_int(a: Option<u32>, b: Option<u32>)
    requires
        a != b,
    ensures
        show_opt_int(opt_u32(a)) != show_opt_int(opt_u32(b)),
{
    match (a, b) {
        (Some(m), Some(n)) => {
            if dec(m as int) == dec(n as int) {
                lemma_dec_injective(m as int, n as int);
            }
        },
        _ => {},
    }
    let s = match opt_u32(a) {
        Some(n) => Some(dec(n)),
        None => None,
    };
    let t = match opt_u32(b) {
        Some(n) => Some(dec(n)),
        None => None,
    };
    lemma_opt(s, t);
}

proof fn lemma_no_comma(n: nat, i: int)
    requires
        0 <= i < dec_nat(n).len(),
    ensures
        dec_nat(n)[i] != ',',
    decreases n,
{
    if n >= 10 {
        if i < dec_nat(n / 10).len() {
            lemma_no_comma(n / 10, i);
        }
    }
}

proof fn lemma_first_number(m: nat, n: nat, s: Seq<char>, t: Seq<char>)
    requires
        dec_nat(m) + ", "@ + s == dec_nat(n) + ", "@ + t,
    ensures
        m == n,
        s == t,
{
    reveal_strlit(", ");
    let a = dec_nat(m);
    let b = dec_nat(n);
    let u = a + ", "@ + s;
    let v = b + ", "@ + t;
    if a.len() < b.len() {
        assert(u[a.len() as int] == ',');
        assert(v[a.len() as int] == b[a.len() as int]);
        lemma_no_comma(n, a.len() as int);
    } else if b.len() < a.len() {
        assert(v[b.len() as int] == ',');
        assert(u[b.len() as int] == a[b.len() as int]);
        lemma_no_comma(m, b.len() as int);
    }
    assert(a =~= u.take(a.len() as int));
    assert(b =~= v.take(a.len() as int));
    assert(s =~= u.skip(a.len() as int + 2));
    assert(t =~= v.skip(a.len() as int + 2));
    lemma_dec_injective(m as int, n as int);
}

proof fn lemma_three(c: [u8; 3])
    ensures
        show_ints(c@.map_values(|b: u8| b as int)) == "["@ + (dec_nat(c@[0] as nat) + ", "@ + (
        dec_nat(c@[1] as nat) + ", "@ + dec_nat(c@[2] as nat))) + "]"@,
{
    let ints = c@.map_values(|b: u8| b as int);
    let items = ints.map_values(|n: int| dec(n));
    let two = items.drop_last();
    let one = two.drop_last();
    assert(items.len() == 3);
    reveal_with_fuel(comma_list, 3);
    assert(comma_list(one) == items[0]);
    assert(comma_list(two) == items[0] + ", "@ + items[1]);
    assert(comma_list(items) =~= dec_nat(c@[0] as nat) + ", "@ + (dec_nat(c@[1] as nat) + ", "@
        + dec_nat(c@[2] as nat)));
}

proof fn lemma_rgb(a: Option<[u8; 3]>, b: Option<[u8; 3]>)
    requires
        a != b,
    ensures
        show_opt_rgb(a) != show_opt_rgb(b),
{
    let s = match a {
        Some(v) => Some(show_ints(v@.map_values(|b: u8| b as int))),
        None => None,
    };
    let t = match b {
        Some(v) => Some(show_ints(v@.map_values(|b: u8| b as int))),
        None => None,
    };
    match (a, b) {
        (Some(v), Some(w)) => {
            let v3 = dec_nat(v@[2] as nat);
            let w3 = dec_nat(w@[2] as nat);
            let v2 = dec_nat(v@[1] as nat) + ", "@ + v3;
            let w2 = dec_nat(w@[1] as nat) + ", "@ + w3;
            let v1 = dec_nat(v@[0] as nat) + ", "@ + v2;
            let w1 = dec_nat(w@[0] as nat) + ", "@ + w2;
            lemma_three(v);
            lemma_three(w);
            if s == t {
                if v1 != w1 {
                    lemma_between("["@, v1, w1, "]"@);
                }
                lemma_first_number(v@[0] as nat, w@[0] as nat, v2, w2);
                lemma_first_number(v@[1] as nat, w@[1] as nat, v3, w3);
                lemma_dec_injective(v@[2] as int, w@[2] as int);
                assert(v@ =~= w@);
                assert(v == w);
            }
        },
        _ => {},
    }
    lemma_opt(s, t);
}

proof fn lemma_size_shows(p: RunProps, q: RunProps)
    requires
        p.size_half_pt != q.size_half_pt,
        before_font_text(p) == before_font_text(q),
        p.font == q.font,
        behind_font_text(p) == behind_font_text(q),
        p.color == q.color,
        behind_color_text(p) == behind_color_text(q),
        behind_size_text(p) == behind_size_text(q),
    ensures
        run_props_text(p) != run_props_text(q),
{
    lemma_opt_int(p.size_half_pt, q.size_half_pt);
    lemma_between(
        before_font_text(p) + show_opt_str(opt_str(p.font)) + behind_font_text(p) + show_opt_rgb(
            p.color,
        ) + behind_color_text(p),
        show_opt_int(opt_u32(p.size_half_pt)),
        show_opt_int(opt_u32(q.size_half_pt)),
        behind_size_text(p),
    );
}

proof fn lemma_color_shows(p: RunProps, q: RunProps)
    requires
        p.color != q.color,
        before_font_text(p) == before_font_text(q),
        p.font == q.font,
        behind_font_text(p) == behind_font_text(q),
        behind_color_text(p) == behind_color_text(q),
        p.size_half_pt == q.size_half_pt,
        behind_size_text(p) == behind_size_text(q),
    ensures
        run_props_text(p) != run_props_text(q),
{
    let before = before_font_text(p) + show_opt_str(opt_str(p.font)) + behind_font_text(p);
    let x = show_opt_rgb(p.color);
    let y = show_opt_rgb(q.color);
    let gap = behind_color_text(p);
    let measure = show_opt_int(opt_u32(p.size_half_pt));
    lemma_rgb(p.color, q.color);
    lemma_between(before, x, y, gap);
    lemma_behind(before + x + gap, before + y + gap, measure);
    lemma_behind(before + x + gap + measure, before + y + gap + measure, behind_size_text(p));
}

proof fn lemma_font_shows(p: RunProps, q: RunProps)
    requires
        show_opt_str(opt_str(p.font)) != show_opt_str(opt_str(q.font)),
        before_font_text(p) == before_font_text(q),
        behind_font_text(p) == behind_font_text(q),
        p.color == q.color,
        behind_color_text(p) == behind_color_text(q),
        p.size_half_pt == q.size_half_pt,
        behind_size_text(p) == behind_size_text(q),
    ensures
        run_props_text(p) != run_props_text(q),
{
    let lead = before_font_text(p);
    let paint = show_opt_rgb(p.color);
    let gap = behind_color_text(p);
    let measure = show_opt_int(opt_u32(p.size_half_pt));
    let u = lead + show_opt_str(opt_str(p.font)) + behind_font_text(p);
    let v = lead + show_opt_str(opt_str(q.font)) + behind_font_text(p);
    lemma_between(
        lead,
        show_opt_str(opt_str(p.font)),
        show_opt_str(opt_str(q.font)),
        behind_font_text(p),
    );
    lemma_behind(u, v, paint);
    lemma_behind(u + paint, v + paint, gap);
    lemma_behind(u + paint + gap, v + paint + gap, measure);
    lemma_behind(u + paint + gap + measure, v + paint + gap + measure, behind_size_text(p));
}

proof fn lemma_live_shows(p: RunProps, text: String, q: RunProps, other: String)
    requires
        run_props_text(p) != run_props_text(q),
    ensures
        sig_live_text(seq![], Run::Text { props: p, text }) != sig_live_text(
            seq![],
            Run::Text { props: q, text: other },
        ),
{
    lemma_between(
        Seq::<char>::empty() + "r("@,
        run_props_text(p),
        run_props_text(q),
        "text=*)"@,
    );
}

// -- Edited text shows -------------------------------------------------------

proof fn lemma_font(p: RunProps, q: RunProps)
    requires
        tells_props(p),
        opt_str(p.font) != opt_str(q.font),
    ensures
        show_opt_str(opt_str(p.font)) != show_opt_str(opt_str(q.font)),
{
    let s = match opt_str(p.font) {
        Some(font) => Some(debug_text(font)),
        None => None,
    };
    let t = match opt_str(q.font) {
        Some(font) => Some(debug_text(font)),
        None => None,
    };
    lemma_opt(s, t);
}

proof fn lemma_props(p: RunProps, q: RunProps)
    requires
        tells_props(p),
        restyled_props(p, q),
    ensures
        run_props_text(p) != run_props_text(q),
{
    if q == (RunProps { size_half_pt: q.size_half_pt, ..p }) && q.size_half_pt != p.size_half_pt {
        lemma_size_shows(p, q);
    } else if q == (RunProps { color: q.color, ..p }) && q.color != p.color {
        lemma_color_shows(p, q);
    } else {
        lemma_font(p, q);
        lemma_font_shows(p, q);
    }
}

proof fn lemma_text_edited(p: RunProps, s: Seq<char>, q: RunProps, t: Seq<char>)
    requires
        tells_props(p),
        (restyled_props(p, q) && s == t) || (p == q && s != t),
    ensures
        sig_run_props_text(seq![] + "r("@, p) + "text="@ + s + ")"@ != sig_run_props_text(
            seq![] + "r("@,
            q,
        ) + "text="@ + t + ")"@,
{
    let head = Seq::<char>::empty() + "r("@;
    let x = run_props_text(p);
    let y = run_props_text(q);
    if p == q {
        lemma_between(head + x + "text="@, s, t, ")"@);
    } else {
        lemma_props(p, q);
        lemma_between(head, x, y, "text="@);
        lemma_behind(head + x + "text="@, head + y + "text="@, s);
        lemma_behind(head + x + "text="@ + s, head + y + "text="@ + s, ")"@);
    }
}

proof fn lemma_run_edited(a: Run, b: Run)
    requires
        tells_run(a),
        edited_run(a, b, false),
    ensures
        sig_run_text(seq![], a) != sig_run_text(seq![], b),
    decreases a, 0nat,
{
    let none = Seq::<char>::empty();
    match a {
        Run::Text { props, text } => {
            lemma_text_edited(props, text@, b->Text_props, b->Text_text@);
        },
        Run::Field(field) => lemma_field_edited(field, b->Field_0),
        Run::Drawing(drawing) => {
            lemma_drawing_edited(drawing, b->Drawing_0);
            lemma_before(none, drawing_text(drawing), drawing_text(b->Drawing_0));
        },
        _ => {},
    }
}

proof fn lemma_field_edited(a: Field, b: Field)
    requires
        tells_runs(a.result@),
        b == (Field { result: b.result, ..a }),
        edited_runs(a.result@, b.result@, a.mode == FieldMode::Live),
    ensures
        sig_run_text(seq![], Run::Field(a)) != sig_run_text(seq![], Run::Field(b)),
    decreases a, 0nat,
{
    let head = Seq::<char>::empty() + field_head_text(a);
    let live = a.mode == FieldMode::Live;
    let k = choose|k: int| #[trigger]
        same_but_at(a.result@, b.result@, k) && edited_run(a.result@[k], b.result@[k], live);
    if live {
        lemma_live_runs_edited(head, a.result@, b.result@, k);
        lemma_behind(
            sig_live_runs_text(head, a.result@),
            sig_live_runs_text(head, b.result@),
            ")"@,
        );
    } else {
        lemma_runs_edited(head, a.result@, b.result@, k);
        lemma_behind(sig_runs_text(head, a.result@), sig_runs_text(head, b.result@), ")"@);
    }
}

proof fn lemma_live_edited(a: Run, b: Run)
    requires
        tells_run(a),
        edited_run(a, b, true),
    ensures
        sig_live_text(seq![], a) != sig_live_text(seq![], b),
    decreases a, 1nat,
{
    match a {
        Run::Text { props, text } => {
            lemma_props(props, b->Text_props);
            lemma_live_shows(props, text, b->Text_props, b->Text_text);
        },
        _ => lemma_run_edited(a, b),
    }
}

proof fn lemma_drawing_edited(a: Drawing, b: Drawing)
    requires
        tells_drawing(a),
        edited_drawing(a, b),
    ensures
        drawing_text(a) != drawing_text(b),
    decreases a, 0nat,
{
    let none = Seq::<char>::empty();
    let lead = "drawing(w="@ + dec(a.w_emu as int) + ",h="@ + dec(a.h_emu as int) + ",alt="@
        + show_opt_str(opt_str(a.alt)) + ",anchor="@ + opt_anchor_text(a.anchor) + ",shape="@;
    let x = match a.shape {
        Some(s) => shape_text(s),
        None => none,
    };
    let y = match a.group {
        Some(g) => group_text(none, g.children@),
        None => none,
    };
    if b == (Drawing { shape: b.shape, ..a }) && a.shape is Some && b.shape is Some
        && edited_shape(a.shape->0, b.shape->0) {
        let z = shape_text(b.shape->0);
        lemma_shape_edited(a.shape->0, b.shape->0);
        lemma_between(lead, x, z, ",group="@);
        lemma_behind(lead + x + ",group="@, lead + z + ",group="@, y);
        lemma_behind(lead + x + ",group="@ + y, lead + z + ",group="@ + y, ")"@);
    } else {
        let s = (a.group->0).children@;
        let t = (b.group->0).children@;
        let k = choose|k: int| #[trigger]
            same_but_at(s, t, k) && edited_group_child(s[k], t[k]);
        lemma_group_edited(none, s, t, k);
        lemma_between(lead + x + ",group="@, group_text(none, s), group_text(none, t), ")"@);
    }
}

proof fn lemma_shape_edited(a: ShapeSpec, b: ShapeSpec)
    requires
        tells_shape(a),
        edited_shape(a, b),
    ensures
        shape_text(a) != shape_text(b),
    decreases a, 0nat,
{
    let s = (a.txbx->0).blocks@;
    let t = (b.txbx->0).blocks@;
    let k = choose|k: int| #[trigger] same_but_at(s, t, k) && edited_block(s[k], t[k]);
    let head = "ins="@ + show_ints((a.txbx->0).ins@.map_values(|n: i64| n as int)) + ";"@;
    lemma_blocks_edited(head, s, t, k);
    lemma_before(
        "geom="@ + geom_text(a.geom) + ",fill="@ + fill_text(a.fill) + ",stroke="@ + stroke_text(
            a.stroke,
        ) + ",txbx="@,
        sig_blocks_text(head, s),
        sig_blocks_text(head, t),
    );
}

proof fn lemma_group_child_edited(a: GroupChild, b: GroupChild)
    requires
        tells_group_child(a),
        edited_group_child(a, b),
    ensures
        group_child_text(seq![], a) != group_child_text(seq![], b),
    decreases a, 0nat,
{
    lemma_shape_edited(a.shape, b.shape);
    lemma_between(
        Seq::<char>::empty() + "child("@ + dec(a.x_emu as int) + ","@ + dec(a.y_emu as int) + ","@
            + dec(a.w_emu as int) + ","@ + dec(a.h_emu as int) + ","@,
        shape_text(a.shape),
        shape_text(b.shape),
        ");"@,
    );
}

proof fn lemma_group_child(a: Seq<char>, t: Seq<char>, child: GroupChild)
    ensures
        group_child_text(a + t, child) == a + group_child_text(t, child),
{
    assert(group_child_text(a + t, child) =~= a + group_child_text(t, child));
}

proof fn lemma_child_edited(a: ParaChild, b: ParaChild)
    requires
        tells_child(a),
        edited_child(a, b),
    ensures
        sig_child_text(seq![], a) != sig_child_text(seq![], b),
    decreases a, 0nat,
{
    match a {
        ParaChild::Run(run) => lemma_run_edited(run, b->Run_0),
        ParaChild::Hyperlink { anchor, runs, .. } => {
            let others = b->Hyperlink_runs@;
            let head = Seq::<char>::empty() + "link("@ + show_opt_str(opt_str(anchor));
            let k = choose|k: int| #[trigger]
                same_but_at(runs@, others, k) && edited_run(runs@[k], others[k], false);
            lemma_runs_edited(head, runs@, others, k);
            lemma_behind(sig_runs_text(head, runs@), sig_runs_text(head, others), ")"@);
        },
        _ => {},
    }
}

proof fn lemma_para_edited(a: Para, b: Para)
    requires
        tells_para(a),
        edited_para(a, b),
    ensures
        sig_para_text(seq![], a) != sig_para_text(seq![], b),
    decreases a, 0nat,
{
    let s = a.content@;
    let t = b.content@;
    let head = sig_para_props_text(Seq::<char>::empty() + "p("@, a.props);
    let k = choose|k: int| #[trigger] same_but_at(s, t, k) && edited_child(s[k], t[k]);
    lemma_children_edited(head, s, t, k);
    lemma_behind(sig_children_text(head, s), sig_children_text(head, t), ")"@);
}

proof fn lemma_cell_edited(a: Cell, b: Cell)
    requires
        tells_cell(a),
        edited_cell(a, b),
    ensures
        sig_cell_text(seq![], a) != sig_cell_text(seq![], b),
    decreases a, 0nat,
{
    let s = a.blocks@;
    let t = b.blocks@;
    let head = Seq::<char>::empty() + cell_head_text(a);
    let k = choose|k: int| #[trigger] same_but_at(s, t, k) && edited_block(s[k], t[k]);
    lemma_blocks_edited(head, s, t, k);
    lemma_behind(sig_blocks_text(head, s), sig_blocks_text(head, t), ")"@);
}

proof fn lemma_row_edited(a: Row, b: Row)
    requires
        tells_row(a),
        edited_row(a, b),
    ensures
        sig_row_text(seq![], a) != sig_row_text(seq![], b),
    decreases a, 0nat,
{
    let s = a.cells@;
    let t = b.cells@;
    let head = Seq::<char>::empty() + row_head_text(a);
    let k = choose|k: int| #[trigger] same_but_at(s, t, k) && edited_cell(s[k], t[k]);
    lemma_cells_edited(head, s, t, k);
    lemma_behind(sig_cells_text(head, s), sig_cells_text(head, t), ")"@);
}

proof fn lemma_block_edited(a: Block, b: Block)
    requires
        tells_block(a),
        edited_block(a, b),
    ensures
        sig_block_text(seq![], a) != sig_block_text(seq![], b),
    decreases a, 0nat,
{
    match a {
        Block::Para(para) => lemma_para_edited(para, b->Para_0),
        Block::Table(table) => {
            let s = table.rows@;
            let t = (b->Table_0).rows@;
            let head = Seq::<char>::empty() + table_head_text(table);
            let k = choose|k: int| #[trigger] same_but_at(s, t, k) && edited_row(s[k], t[k]);
            lemma_rows_edited(head, s, t, k);
            lemma_behind(sig_rows_text(head, s), sig_rows_text(head, t), ")"@);
        },
        Block::Toc(toc) => lemma_toc_edited(toc, b->Toc_0),
        _ => {},
    }
}

proof fn lemma_toc_edited(a: Toc, b: Toc)
    requires
        tells_paras(a.entries@),
        tells_runs(a.fallback@),
        edited_toc(a, b),
    ensures
        sig_block_text(seq![], Block::Toc(a)) != sig_block_text(seq![], Block::Toc(b)),
    decreases a, 0nat,
{
    let none = Seq::<char>::empty();
    let head = none + toc_head_text(a);
    let u = sig_paras_text(head, a.entries@);
    if b == (Toc { entries: b.entries, ..a }) && edited_paras(a.entries@, b.entries@) {
        let s = a.entries@;
        let t = b.entries@;
        let v = sig_paras_text(head, t);
        let k = choose|k: int| #[trigger] same_but_at(s, t, k) && edited_para(s[k], t[k]);
        lemma_paras_edited(head, s, t, k);
        assert(u + none =~= u);
        assert(v + none =~= v);
        lemma_runs(u, none, a.fallback@);
        lemma_runs(v, none, a.fallback@);
        lemma_behind(u, v, sig_runs_text(none, a.fallback@));
    } else {
        let s = a.fallback@;
        let t = b.fallback@;
        let k = choose|k: int| #[trigger]
            same_but_at(s, t, k) && edited_run(s[k], t[k], false);
        lemma_runs_edited(u, s, t, k);
    }
}

proof fn lemma_runs_edited(acc: Seq<char>, a: Seq<Run>, b: Seq<Run>, k: int)
    requires
        tells_runs(a),
        same_but_at(a, b, k),
        edited_run(a[k], b[k], false),
    ensures
        sig_runs_text(acc, a) != sig_runs_text(acc, b),
    decreases a, 0nat,
{
    let none = Seq::<char>::empty();
    let s = a.drop_last();
    let t = b.drop_last();
    let x = a.last();
    let y = b.last();
    let u = sig_runs_text(acc, s);
    let v = sig_runs_text(acc, t);
    assert(u + none =~= u);
    assert(v + none =~= v);
    lemma_run(u, none, x);
    lemma_run(v, none, y);
    if k == a.len() - 1 {
        assert(s =~= t);
        lemma_run_edited(x, y);
        lemma_before(u, sig_run_text(none, x), sig_run_text(none, y));
    } else {
        assert(x == y);
        assert(same_but_at(s, t, k));
        lemma_runs_edited(acc, s, t, k);
        lemma_behind(u, v, sig_run_text(none, x));
    }
}

proof fn lemma_live_runs_edited(acc: Seq<char>, a: Seq<Run>, b: Seq<Run>, k: int)
    requires
        tells_runs(a),
        same_but_at(a, b, k),
        edited_run(a[k], b[k], true),
    ensures
        sig_live_runs_text(acc, a) != sig_live_runs_text(acc, b),
    decreases a, 0nat,
{
    let none = Seq::<char>::empty();
    let s = a.drop_last();
    let t = b.drop_last();
    let x = a.last();
    let y = b.last();
    let u = sig_live_runs_text(acc, s);
    let v = sig_live_runs_text(acc, t);
    assert(u + none =~= u);
    assert(v + none =~= v);
    lemma_live(u, none, x);
    lemma_live(v, none, y);
    if k == a.len() - 1 {
        assert(s =~= t);
        lemma_live_edited(x, y);
        lemma_before(u, sig_live_text(none, x), sig_live_text(none, y));
    } else {
        assert(x == y);
        assert(same_but_at(s, t, k));
        lemma_live_runs_edited(acc, s, t, k);
        lemma_behind(u, v, sig_live_text(none, x));
    }
}

proof fn lemma_group_edited(acc: Seq<char>, a: Seq<GroupChild>, b: Seq<GroupChild>, k: int)
    requires
        tells_group(a),
        same_but_at(a, b, k),
        edited_group_child(a[k], b[k]),
    ensures
        group_text(acc, a) != group_text(acc, b),
    decreases a, 0nat,
{
    let none = Seq::<char>::empty();
    let s = a.drop_last();
    let t = b.drop_last();
    let x = a.last();
    let y = b.last();
    let u = group_text(acc, s);
    let v = group_text(acc, t);
    assert(u + none =~= u);
    assert(v + none =~= v);
    lemma_group_child(u, none, x);
    lemma_group_child(v, none, y);
    if k == a.len() - 1 {
        assert(s =~= t);
        lemma_group_child_edited(x, y);
        lemma_before(u, group_child_text(none, x), group_child_text(none, y));
    } else {
        assert(x == y);
        assert(same_but_at(s, t, k));
        lemma_group_edited(acc, s, t, k);
        lemma_behind(u, v, group_child_text(none, x));
    }
}

proof fn lemma_children_edited(acc: Seq<char>, a: Seq<ParaChild>, b: Seq<ParaChild>, k: int)
    requires
        tells_children(a),
        same_but_at(a, b, k),
        edited_child(a[k], b[k]),
    ensures
        sig_children_text(acc, a) != sig_children_text(acc, b),
    decreases a, 0nat,
{
    let none = Seq::<char>::empty();
    let s = a.drop_last();
    let t = b.drop_last();
    let x = a.last();
    let y = b.last();
    let u = sig_children_text(acc, s);
    let v = sig_children_text(acc, t);
    assert(u + none =~= u);
    assert(v + none =~= v);
    lemma_child(u, none, x);
    lemma_child(v, none, y);
    if k == a.len() - 1 {
        assert(s =~= t);
        lemma_child_edited(x, y);
        lemma_before(u, sig_child_text(none, x), sig_child_text(none, y));
    } else {
        assert(x == y);
        assert(same_but_at(s, t, k));
        lemma_children_edited(acc, s, t, k);
        lemma_behind(u, v, sig_child_text(none, x));
    }
}

proof fn lemma_paras_edited(acc: Seq<char>, a: Seq<Para>, b: Seq<Para>, k: int)
    requires
        tells_paras(a),
        same_but_at(a, b, k),
        edited_para(a[k], b[k]),
    ensures
        sig_paras_text(acc, a) != sig_paras_text(acc, b),
    decreases a, 0nat,
{
    let none = Seq::<char>::empty();
    let s = a.drop_last();
    let t = b.drop_last();
    let x = a.last();
    let y = b.last();
    let u = sig_paras_text(acc, s);
    let v = sig_paras_text(acc, t);
    assert(u + none =~= u);
    assert(v + none =~= v);
    lemma_para(u, none, x);
    lemma_para(v, none, y);
    if k == a.len() - 1 {
        assert(s =~= t);
        lemma_para_edited(x, y);
        lemma_before(u, sig_para_text(none, x), sig_para_text(none, y));
    } else {
        assert(x == y);
        assert(same_but_at(s, t, k));
        lemma_paras_edited(acc, s, t, k);
        lemma_behind(u, v, sig_para_text(none, x));
    }
}

proof fn lemma_cells_edited(acc: Seq<char>, a: Seq<Cell>, b: Seq<Cell>, k: int)
    requires
        tells_cells(a),
        same_but_at(a, b, k),
        edited_cell(a[k], b[k]),
    ensures
        sig_cells_text(acc, a) != sig_cells_text(acc, b),
    decreases a, 0nat,
{
    let none = Seq::<char>::empty();
    let s = a.drop_last();
    let t = b.drop_last();
    let x = a.last();
    let y = b.last();
    let u = sig_cells_text(acc, s);
    let v = sig_cells_text(acc, t);
    assert(u + none =~= u);
    assert(v + none =~= v);
    lemma_cell(u, none, x);
    lemma_cell(v, none, y);
    if k == a.len() - 1 {
        assert(s =~= t);
        lemma_cell_edited(x, y);
        lemma_before(u, sig_cell_text(none, x), sig_cell_text(none, y));
    } else {
        assert(x == y);
        assert(same_but_at(s, t, k));
        lemma_cells_edited(acc, s, t, k);
        lemma_behind(u, v, sig_cell_text(none, x));
    }
}

proof fn lemma_rows_edited(acc: Seq<char>, a: Seq<Row>, b: Seq<Row>, k: int)
    requires
        tells_rows(a),
        same_but_at(a, b, k),
        edited_row(a[k], b[k]),
    ensures
        sig_rows_text(acc, a) != sig_rows_text(acc, b),
    decreases a, 0nat,
{
    let none = Seq::<char>::empty();
    let s = a.drop_last();
    let t = b.drop_last();
    let x = a.last();
    let y = b.last();
    let u = sig_rows_text(acc, s);
    let v = sig_rows_text(acc, t);
    assert(u + none =~= u);
    assert(v + none =~= v);
    lemma_row(u, none, x);
    lemma_row(v, none, y);
    if k == a.len() - 1 {
        assert(s =~= t);
        lemma_row_edited(x, y);
        lemma_before(u, sig_row_text(none, x), sig_row_text(none, y));
    } else {
        assert(x == y);
        assert(same_but_at(s, t, k));
        lemma_rows_edited(acc, s, t, k);
        lemma_behind(u, v, sig_row_text(none, x));
    }
}

proof fn lemma_blocks_edited(acc: Seq<char>, a: Seq<Block>, b: Seq<Block>, k: int)
    requires
        tells_blocks(a),
        same_but_at(a, b, k),
        edited_block(a[k], b[k]),
    ensures
        sig_blocks_text(acc, a) != sig_blocks_text(acc, b),
    decreases a, 0nat,
{
    let none = Seq::<char>::empty();
    let s = a.drop_last();
    let t = b.drop_last();
    let x = a.last();
    let y = b.last();
    let u = sig_blocks_text(acc, s);
    let v = sig_blocks_text(acc, t);
    assert(u + none =~= u);
    assert(v + none =~= v);
    lemma_block(u, none, x);
    lemma_block(v, none, y);
    if k == a.len() - 1 {
        assert(s =~= t);
        lemma_block_edited(x, y);
        lemma_before(u, sig_block_text(none, x), sig_block_text(none, y));
    } else {
        assert(x == y);
        assert(same_but_at(s, t, k));
        lemma_blocks_edited(acc, s, t, k);
        lemma_behind(u, v, sig_block_text(none, x));
    }
}

/// Edited blocks have another signature.
pub(crate) proof fn lemma_edits_show(a: Seq<Block>, b: Seq<Block>)
    requires
        tells_blocks(a),
        edited_blocks(a, b),
    ensures
        sig_blocks_text(seq![], a) != sig_blocks_text(seq![], b),
{
    let k = choose|k: int| #[trigger] same_but_at(a, b, k) && edited_block(a[k], b[k]);
    lemma_blocks_edited(Seq::empty(), a, b, k);
}

} // verus!
