//! What the markup of text, fields and blocks says, read back from what is
//! written.

use vstd::prelude::*;

use crate::dom::{Block, Cell, Field, FieldDisplay, FieldMode, Para, ParaChild, Row, Run, Toc};
use crate::encode::body::{
    block_xml, blocks_xml, cells_xml, child_xml, children_xml, entries_xml, field_xml, rows_xml,
    run_xml, runs_xml, toc_body_xml, toc_xml,
};
use crate::encode::field::{field_begin, field_end, field_run};
use crate::encode::reading::{part, part_says, reading, says};
use crate::encode::section::sectpr_xml;
use crate::encode::table::{grid_xml, tblpr_xml, tcpr_xml, trpr_xml};
use crate::text::{dec, lemma_dec_injective};
use crate::xml::{El, OwedXml, Xml, el};

verus! {

proof fn run_words()
    ensures
        "w:t"@ != "w:br"@,
        "w:t"@ != "w:tab"@,
        "w:t"@ != "w:footnoteReference"@,
        "w:t"@ != "w:footnoteRef"@,
        "w:t"@ != "w:commentReference"@,
        "w:t"@ != "w:drawing"@,
        "w:t"@ != "mc:AlternateContent"@,
        "w:t"@ != "w:fldChar"@,
        "w:t"@ != "w:instrText"@,
        "w:t"@ != "w:rPr"@,
        "w:br"@ != "w:tab"@,
        "w:br"@ != "w:footnoteReference"@,
        "w:br"@ != "w:footnoteRef"@,
        "w:br"@ != "w:commentReference"@,
        "w:br"@ != "w:drawing"@,
        "w:br"@ != "mc:AlternateContent"@,
        "w:br"@ != "w:fldChar"@,
        "w:br"@ != "w:instrText"@,
        "w:br"@ != "w:rPr"@,
        "w:tab"@ != "w:footnoteReference"@,
        "w:tab"@ != "w:footnoteRef"@,
        "w:tab"@ != "w:commentReference"@,
        "w:tab"@ != "w:drawing"@,
        "w:tab"@ != "mc:AlternateContent"@,
        "w:tab"@ != "w:fldChar"@,
        "w:tab"@ != "w:instrText"@,
        "w:tab"@ != "w:rPr"@,
        "w:footnoteReference"@ != "w:footnoteRef"@,
        "w:footnoteReference"@ != "w:commentReference"@,
        "w:footnoteReference"@ != "w:drawing"@,
        "w:footnoteReference"@ != "mc:AlternateContent"@,
        "w:footnoteReference"@ != "w:fldChar"@,
        "w:footnoteReference"@ != "w:instrText"@,
        "w:footnoteReference"@ != "w:rPr"@,
        "w:footnoteRef"@ != "w:commentReference"@,
        "w:footnoteRef"@ != "w:drawing"@,
        "w:footnoteRef"@ != "mc:AlternateContent"@,
        "w:footnoteRef"@ != "w:fldChar"@,
        "w:footnoteRef"@ != "w:instrText"@,
        "w:footnoteRef"@ != "w:rPr"@,
        "w:commentReference"@ != "w:drawing"@,
        "w:commentReference"@ != "mc:AlternateContent"@,
        "w:commentReference"@ != "w:fldChar"@,
        "w:commentReference"@ != "w:instrText"@,
        "w:commentReference"@ != "w:rPr"@,
        "w:drawing"@ != "mc:AlternateContent"@,
        "w:drawing"@ != "w:fldChar"@,
        "w:drawing"@ != "w:instrText"@,
        "w:drawing"@ != "w:rPr"@,
        "mc:AlternateContent"@ != "w:fldChar"@,
        "mc:AlternateContent"@ != "w:instrText"@,
        "mc:AlternateContent"@ != "w:rPr"@,
        "w:fldChar"@ != "w:instrText"@,
        "w:fldChar"@ != "w:rPr"@,
        "w:instrText"@ != "w:rPr"@,
        "w:r"@ != "w:hyperlink"@,
        "w:r"@ != "w:bookmarkStart"@,
        "w:r"@ != "w:bookmarkEnd"@,
        "w:r"@ != "w:commentRangeStart"@,
        "w:r"@ != "w:commentRangeEnd"@,
        "w:hyperlink"@ != "w:bookmarkStart"@,
        "w:hyperlink"@ != "w:bookmarkEnd"@,
        "w:hyperlink"@ != "w:commentRangeStart"@,
        "w:hyperlink"@ != "w:commentRangeEnd"@,
        "w:bookmarkStart"@ != "w:bookmarkEnd"@,
        "w:bookmarkStart"@ != "w:commentRangeStart"@,
        "w:bookmarkStart"@ != "w:commentRangeEnd"@,
        "w:bookmarkEnd"@ != "w:commentRangeStart"@,
        "w:bookmarkEnd"@ != "w:commentRangeEnd"@,
        "w:commentRangeStart"@ != "w:commentRangeEnd"@,
        "page"@ != "column"@,
        "begin"@ != "separate"@,
        "begin"@ != "end"@,
        "separate"@ != "end"@,
        "w:fldCharType"@ != "w:fldLock"@,
        "w:id"@ != "w:name"@,
        "r:id"@ != "w:anchor"@,
        "r:id"@ != "w:history"@,
        "w:anchor"@ != "w:history"@,
{
    reveal_strlit("w:t");
    reveal_strlit("w:br");
    reveal_strlit("w:tab");
    reveal_strlit("w:footnoteReference");
    reveal_strlit("w:footnoteRef");
    reveal_strlit("w:commentReference");
    reveal_strlit("w:drawing");
    reveal_strlit("mc:AlternateContent");
    reveal_strlit("w:fldChar");
    reveal_strlit("w:instrText");
    reveal_strlit("w:rPr");
    reveal_strlit("w:r");
    reveal_strlit("w:hyperlink");
    reveal_strlit("w:bookmarkStart");
    reveal_strlit("w:bookmarkEnd");
    reveal_strlit("w:commentRangeStart");
    reveal_strlit("w:commentRangeEnd");
    reveal_strlit("page");
    reveal_strlit("column");
    reveal_strlit("begin");
    reveal_strlit("separate");
    reveal_strlit("end");
    reveal_strlit("w:fldCharType");
    reveal_strlit("w:fldLock");
    reveal_strlit("w:id");
    reveal_strlit("w:name");
    reveal_strlit("r:id");
    reveal_strlit("w:anchor");
    reveal_strlit("w:history");
    assert("w:t"@.len() == 3);
    assert("w:br"@.len() == 4);
    assert("w:tab"@.len() == 5);
    assert("w:footnoteReference"@.len() == 19);
    assert("w:footnoteRef"@.len() == 13);
    assert("w:commentReference"@.len() == 18);
    assert("w:drawing"@.len() == 9);
    assert("mc:AlternateContent"@.len() == 19);
    assert("w:fldChar"@.len() == 9);
    assert("w:instrText"@.len() == 11);
    assert("w:rPr"@.len() == 5);
    assert("w:r"@.len() == 3);
    assert("w:hyperlink"@.len() == 11);
    assert("w:bookmarkStart"@.len() == 15);
    assert("w:bookmarkEnd"@.len() == 13);
    assert("w:commentRangeStart"@.len() == 19);
    assert("w:commentRangeEnd"@.len() == 17);
    assert("page"@.len() == 4);
    assert("column"@.len() == 6);
    assert("begin"@.len() == 5);
    assert("separate"@.len() == 8);
    assert("end"@.len() == 3);
    assert("w:fldCharType"@.len() == 13);
    assert("w:fldLock"@.len() == 9);
    assert("w:id"@.len() == 4);
    assert("w:name"@.len() == 6);
    assert("r:id"@.len() == 4);
    assert("w:anchor"@.len() == 8);
    assert("w:history"@.len() == 9);
    assert("w:tab"@[2] != "w:rPr"@[2]);
    assert("w:footnoteReference"@[0] != "mc:AlternateContent"@[0]);
    assert("w:drawing"@[2] != "w:fldChar"@[2]);
}

// -- One after another -------------------------------------------------------

/// Blocks write one after another.
pub proof fn blocks_write_in_order(a: Seq<Block>, b: Seq<Block>)
    ensures
        blocks_xml(a + b) == blocks_xml(a) + blocks_xml(b),
    decreases b.len(),
{
    if b.len() == 0 {
        assert(a + b =~= a);
        assert(blocks_xml(a) + blocks_xml(b) =~= blocks_xml(a));
    } else {
        blocks_write_in_order(a, b.drop_last());
        assert((a + b).drop_last() =~= a + b.drop_last());
        assert(blocks_xml(a) + blocks_xml(b.drop_last()) + block_xml(b.last()) =~= blocks_xml(a)
            + (blocks_xml(b.drop_last()) + block_xml(b.last())));
    }
}

/// The children of a paragraph write one after another.
pub proof fn children_write_in_order(a: Seq<ParaChild>, b: Seq<ParaChild>)
    ensures
        children_xml(a + b) == children_xml(a) + children_xml(b),
    decreases b.len(),
{
    if b.len() == 0 {
        assert(a + b =~= a);
        assert(children_xml(a) + children_xml(b) =~= children_xml(a));
    } else {
        children_write_in_order(a, b.drop_last());
        assert((a + b).drop_last() =~= a + b.drop_last());
        assert(children_xml(a) + children_xml(b.drop_last()) + child_xml(b.last())
            =~= children_xml(a) + (children_xml(b.drop_last()) + child_xml(b.last())));
    }
}

/// Runs write one after another.
pub proof fn runs_write_in_order(a: Seq<Run>, b: Seq<Run>)
    ensures
        runs_xml(a + b) == runs_xml(a) + runs_xml(b),
    decreases b.len(),
{
    if b.len() == 0 {
        assert(a + b =~= a);
        assert(runs_xml(a) + runs_xml(b) =~= runs_xml(a));
    } else {
        runs_write_in_order(a, b.drop_last());
        assert((a + b).drop_last() =~= a + b.drop_last());
        assert(runs_xml(a) + runs_xml(b.drop_last()) + run_xml(b.last()) =~= runs_xml(a) + (
        runs_xml(b.drop_last()) + run_xml(b.last())));
    }
}

/// Every row writes one row, with its properties in front of its cells.
pub proof fn rows_write_rows(rows: Seq<Row>)
    ensures
        rows_xml(rows).len() == rows.len(),
        forall|i: int|
            #![trigger rows[i]]
            0 <= i < rows.len() ==> {
                let r = rows_xml(rows)[i];
                &&& r is El
                &&& r->El_0.name == "w:tr"@
                &&& r->El_0.children == trpr_xml(rows[i]) + cells_xml(rows[i].cells@)
            },
    decreases rows.len(),
{
    if rows.len() > 0 {
        rows_write_rows(rows.drop_last());
        let row = rows.last();
        assert(el("w:tr"@).all(trpr_xml(row)).all(cells_xml(row.cells@)).children =~= trpr_xml(row)
            + cells_xml(row.cells@));
        assert forall|i: int|
            #![trigger rows[i]]
            0 <= i < rows.len() implies ({
            let r = rows_xml(rows)[i];
            &&& r is El
            &&& r->El_0.name == "w:tr"@
            &&& r->El_0.children == trpr_xml(rows[i]) + cells_xml(rows[i].cells@)
        }) by {
            if i < rows.len() - 1 {
                assert(rows.drop_last()[i] == rows[i]);
            }
        }
    }
}

/// Every cell writes one cell, with its properties in front of its blocks.
pub proof fn cells_write_cells(cells: Seq<Cell>)
    ensures
        cells_xml(cells).len() == cells.len(),
        forall|i: int|
            #![trigger cells[i]]
            0 <= i < cells.len() ==> {
                let c = cells_xml(cells)[i];
                &&& c is El
                &&& c->El_0.name == "w:tc"@
                &&& c->El_0.children == seq![Xml::El(tcpr_xml(cells[i]))] + blocks_xml(
                    cells[i].blocks@,
                )
            },
    decreases cells.len(),
{
    if cells.len() > 0 {
        cells_write_cells(cells.drop_last());
        let cell = cells.last();
        assert(el("w:tc"@).elem(tcpr_xml(cell)).all(blocks_xml(cell.blocks@)).children =~= seq![
            Xml::El(tcpr_xml(cell)),
        ] + blocks_xml(cell.blocks@));
        assert forall|i: int|
            #![trigger cells[i]]
            0 <= i < cells.len() implies ({
            let c = cells_xml(cells)[i];
            &&& c is El
            &&& c->El_0.name == "w:tc"@
            &&& c->El_0.children == seq![Xml::El(tcpr_xml(cells[i]))] + blocks_xml(
                cells[i].blocks@,
            )
        }) by {
            if i < cells.len() - 1 {
                assert(cells.drop_last()[i] == cells[i]);
            }
        }
    }
}

// -- Blocks ------------------------------------------------------------------

/// A paragraph writes one paragraph with its formatting and its content; a table
/// one table with its properties, its grid and its rows; a section break one
/// paragraph with the properties of the section it ends; tags and weak page breaks
/// nothing.
pub proof fn blocks_write_themselves(block: Block)
    ensures
        block is Para ==> {
            &&& block_xml(block).len() == 1
            &&& block_xml(block)[0] is Para
            &&& block_xml(block)[0]->Para_0 == seq![
                Xml::Owed(OwedXml::ParaProps(block->Para_0.props@)),
            ] + children_xml(block->Para_0.content@)
        },
        block is Table ==> {
            &&& block_xml(block).len() == 1
            &&& block_xml(block)[0] is El
            &&& block_xml(block)[0]->El_0.name == "w:tbl"@
            &&& block_xml(block)[0]->El_0.children == seq![
                Xml::El(tblpr_xml(block->Table_0.props)),
                Xml::El(grid_xml(block->Table_0.grid@)),
            ] + rows_xml(block->Table_0.rows@)
        },
        block is SectionBreak ==> {
            &&& block_xml(block).len() == 1
            &&& block_xml(block)[0] is Para
            &&& block_xml(block)[0]->Para_0.len() == 1
            &&& block_xml(block)[0]->Para_0[0] is El
            &&& block_xml(block)[0]->Para_0[0]->El_0.name == "w:pPr"@
            &&& block_xml(block)[0]->Para_0[0]->El_0.children == seq![
                Xml::El(sectpr_xml(block->SectionBreak_0)),
            ]
        },
        block is FlowSpace ==> {
            &&& block_xml(block).len() == 1
            &&& block_xml(block)[0] is Para
            &&& block_xml(block)[0]->Para_0.len() == 1
            &&& block_xml(block)[0]->Para_0[0] is Owed
            &&& block_xml(block)[0]->Para_0[0]->Owed_0 is ParaProps
            &&& block_xml(block)[0]->Para_0[0]->Owed_0->ParaProps_0.spacing is Some
            &&& ({
                let s = block_xml(block)[0]->Para_0[0]->Owed_0->ParaProps_0.spacing.unwrap();
                &&& s.before == Some(0i32)
                &&& s.after == Some(0i32)
                &&& s.line is Some
                &&& s.line.unwrap() >= 1
                &&& block->dxa >= 1 ==> s.line == Some(block->dxa)
                &&& !s.line_rule_auto
                &&& !s.line_rule_at_least
            })
        },
        block is Tag || block is WeakPageBreak ==> block_xml(block).len() == 0,
{
    match block {
        Block::Table(tbl) => {
            assert(el("w:tbl"@).elem(tblpr_xml(tbl.props)).elem(grid_xml(tbl.grid@)).all(
                rows_xml(tbl.rows@),
            ).children =~= seq![Xml::El(tblpr_xml(tbl.props)), Xml::El(grid_xml(tbl.grid@))]
                + rows_xml(tbl.rows@));
        },
        Block::SectionBreak(sect) => {
            assert(el("w:pPr"@).elem(sectpr_xml(sect)).children =~= seq![Xml::El(sectpr_xml(sect))]);
        },
        _ => {},
    }
}

// -- Runs --------------------------------------------------------------------

/// Whether the only markup of a run is one run element.
pub open spec fn one_run(run: Run) -> bool {
    run_xml(run).len() == 1 && run_xml(run)[0] is El && run_xml(run)[0]->El_0.name == "w:r"@
}

/// The text inside a run element: that of its text element.
pub open spec fn text_inside(e: El) -> Option<Seq<char>> {
    match part(e, "w:t"@) {
        Some(t) => if t.children.len() == 1 && t.children[0] is Text {
            Some(t.children[0]->Text_0)
        } else {
            None
        },
        None => None,
    }
}

/// A text run writes its formatting and its text, whose white space is kept.
pub proof fn text_reads_back(run: Run)
    requires
        run is Text,
    ensures
        one_run(run),
        run_xml(run)[0]->El_0.children.len() == 2,
        run_xml(run)[0]->El_0.children[0] == Xml::Owed(OwedXml::RunProps(run->Text_props@)),
        text_inside(run_xml(run)[0]->El_0) == Some(run->text@),
        part_says(run_xml(run)[0]->El_0, "w:t"@, "xml:space"@) == Some("preserve"@),
{
    broadcast use reading;

}

/// Line, page and column breaks differ by their type, and a tab is no break; none
/// of them holds text.
pub proof fn breaks_read_back(run: Run)
    requires
        run is Break || run is PageBreak || run is ColumnBreak || run is Tab || run is FillTab,
    ensures
        one_run(run),
        text_inside(run_xml(run)[0]->El_0) is None,
        run is Tab || run is FillTab <==> part(run_xml(run)[0]->El_0, "w:tab"@) is Some,
        run is Break || run is PageBreak || run is ColumnBreak <==> part(
            run_xml(run)[0]->El_0,
            "w:br"@,
        ) is Some,
        run is Break ==> part_says(run_xml(run)[0]->El_0, "w:br"@, "w:type"@) is None,
        run is PageBreak ==> part_says(run_xml(run)[0]->El_0, "w:br"@, "w:type"@) == Some("page"@),
        run is ColumnBreak ==> part_says(run_xml(run)[0]->El_0, "w:br"@, "w:type"@) == Some(
            "column"@,
        ),
        "page"@ != "column"@,
{
    broadcast use reading;

    run_words();
}

/// The mark of a footnote names the footnote, between the ends of its bookmark
/// where it has one; that of a comment names the comment.
pub proof fn note_marks_read_back(run: Run)
    ensures
        run is FootnoteRef && run->bookmark is None ==> {
            &&& one_run(run)
            &&& part_says(run_xml(run)[0]->El_0, "w:footnoteReference"@, "w:id"@) == Some(
                dec(run->FootnoteRef_id as int),
            )
        },
        run is FootnoteRef && run->bookmark is Some ==> {
            &&& run_xml(run).len() == 3
            &&& run_xml(run)[0] is El
            &&& run_xml(run)[0]->El_0.name == "w:bookmarkStart"@
            &&& says(run_xml(run)[0]->El_0, "w:id"@) == Some(
                dec(run->bookmark.unwrap().0 as int),
            )
            &&& says(run_xml(run)[0]->El_0, "w:name"@) == Some(run->bookmark.unwrap().1@)
            &&& run_xml(run)[1] is El
            &&& run_xml(run)[1]->El_0.name == "w:r"@
            &&& part_says(run_xml(run)[1]->El_0, "w:footnoteReference"@, "w:id"@) == Some(
                dec(run->FootnoteRef_id as int),
            )
            &&& run_xml(run)[2] is El
            &&& run_xml(run)[2]->El_0.name == "w:bookmarkEnd"@
            &&& says(run_xml(run)[2]->El_0, "w:id"@) == Some(
                dec(run->bookmark.unwrap().0 as int),
            )
        },
        run is FootnoteRefMark ==> one_run(run) && part(
            run_xml(run)[0]->El_0,
            "w:footnoteRef"@,
        ) is Some,
        run is CommentReference ==> {
            &&& one_run(run)
            &&& part_says(run_xml(run)[0]->El_0, "w:commentReference"@, "w:id"@) == Some(
                dec(run->CommentReference_id as int),
            )
        },
        run is OmmlInline ==> run_xml(run) =~= seq![Xml::Raw(run->OmmlInline_0@)],
{
    broadcast use reading;

    run_words();
}

/// Different texts, and marks of different footnotes and comments, are written
/// differently.
pub proof fn different_runs_are_written_differently(a: Run, b: Run)
    requires
        run_xml(a) == run_xml(b),
    ensures
        a is Text && b is Text ==> a->text@ == b->text@ && a->Text_props@ == b->Text_props@,
        a is PageBreak ==> !(b is ColumnBreak) && !(b is Break) && !(b is Tab),
        a is CommentReference && b is CommentReference ==> a->CommentReference_id
            == b->CommentReference_id,
        a is FootnoteRef && b is FootnoteRef && a->bookmark is None && b->bookmark is None
            ==> a->FootnoteRef_id == b->FootnoteRef_id,
{
    if a is Text && b is Text {
        text_reads_back(a);
        text_reads_back(b);
    }
    if a is PageBreak {
        breaks_read_back(a);
        if b is ColumnBreak || b is Break || b is Tab {
            breaks_read_back(b);
        }
    }
    note_marks_read_back(a);
    note_marks_read_back(b);
    if a is CommentReference && b is CommentReference {
        lemma_dec_injective(a->CommentReference_id as int, b->CommentReference_id as int);
    }
    if a is FootnoteRef && b is FootnoteRef && a->bookmark is None && b->bookmark is None {
        lemma_dec_injective(a->FootnoteRef_id as int, b->FootnoteRef_id as int);
    }
}

/// A link writes its target, outside or inside the document, around its runs.
/// Bookmarks and comment ranges write their two ends under the same number.
pub proof fn paragraph_children_read_back(child: ParaChild)
    ensures
        child is Hyperlink ==> {
            &&& child_xml(child).len() == 1
            &&& child_xml(child)[0] is El
            &&& child_xml(child)[0]->El_0.name == "w:hyperlink"@
            &&& says(child_xml(child)[0]->El_0, "r:id"@) == (match child->rel {
                Some(rel) => Some(rel@),
                None => None,
            })
            &&& says(child_xml(child)[0]->El_0, "w:anchor"@) == (match child->anchor {
                Some(anchor) => Some(anchor@),
                None => None,
            })
            &&& child_xml(child)[0]->El_0.children =~= runs_xml(child->runs@)
        },
        child is BookmarkStart ==> {
            &&& child_xml(child).len() == 1
            &&& child_xml(child)[0] is El
            &&& child_xml(child)[0]->El_0.name == "w:bookmarkStart"@
            &&& says(child_xml(child)[0]->El_0, "w:id"@) == Some(
                dec(child->BookmarkStart_id as int),
            )
            &&& says(child_xml(child)[0]->El_0, "w:name"@) == Some(child->name@)
        },
        child is BookmarkEnd ==> {
            &&& child_xml(child).len() == 1
            &&& child_xml(child)[0] is El
            &&& child_xml(child)[0]->El_0.name == "w:bookmarkEnd"@
            &&& says(child_xml(child)[0]->El_0, "w:id"@) == Some(dec(child->BookmarkEnd_id as int))
        },
        child is CommentRangeStart ==> {
            &&& child_xml(child).len() == 1
            &&& child_xml(child)[0] is El
            &&& child_xml(child)[0]->El_0.name == "w:commentRangeStart"@
            &&& says(child_xml(child)[0]->El_0, "w:id"@) == Some(
                dec(child->CommentRangeStart_id as int),
            )
        },
        child is CommentRangeEnd ==> {
            &&& child_xml(child).len() == 1
            &&& child_xml(child)[0] is El
            &&& child_xml(child)[0]->El_0.name == "w:commentRangeEnd"@
            &&& says(child_xml(child)[0]->El_0, "w:id"@) == Some(
                dec(child->CommentRangeEnd_id as int),
            )
        },
        child is Run ==> child_xml(child) == run_xml(child->Run_0),
        child is OmmlPara ==> child_xml(child) =~= seq![Xml::Raw(child->OmmlPara_0@)],
        child is Tag ==> child_xml(child).len() == 0,
{
    broadcast use reading;

    run_words();
}

// -- Fields ------------------------------------------------------------------

/// Whether a run element of a field is hidden.
pub open spec fn is_hidden(e: El) -> bool {
    part(e, "w:rPr"@) is Some && part(part(e, "w:rPr"@).unwrap(), "w:vanish"@) is Some
}

/// A field writes where it begins, its instruction, where its result begins, the
/// result, and where it ends. It is locked exactly where the exporter owns its
/// value, and its marks are hidden exactly where the field is.
pub proof fn fields_read_back(field: Field)
    ensures
        ({
            let x = field_xml(field);
            let n = x.len();
            &&& n >= 4
            &&& x[0] is El && x[0]->El_0.name == "w:r"@
            &&& part_says(x[0]->El_0, "w:fldChar"@, "w:fldCharType"@) == Some("begin"@)
            &&& part_says(x[0]->El_0, "w:fldChar"@, "w:fldLock"@) == (match field.mode {
                FieldMode::Static => Some("true"@),
                FieldMode::Live => None,
            })
            &&& x[1] is El && x[1]->El_0.name == "w:r"@
            &&& part(x[1]->El_0, "w:instrText"@) is Some
            &&& part(x[1]->El_0, "w:instrText"@).unwrap().children =~= seq![
                Xml::Text(field.instr@),
            ]
            &&& x[2] is El && x[2]->El_0.name == "w:r"@
            &&& part_says(x[2]->El_0, "w:fldChar"@, "w:fldCharType"@) == Some("separate"@)
            &&& x[n - 1] is El && x[n - 1]->El_0.name == "w:r"@
            &&& part_says(x[n - 1]->El_0, "w:fldChar"@, "w:fldCharType"@) == Some("end"@)
            &&& field.display == FieldDisplay::Visible ==> x.subrange(3, n - 1) =~= runs_xml(
                field.result@,
            )
            &&& field.display == FieldDisplay::Hidden ==> n == 5 && is_hidden(x[3]->El_0)
            &&& is_hidden(x[0]->El_0) <==> field.display == FieldDisplay::Hidden
            &&& is_hidden(x[1]->El_0) <==> field.display == FieldDisplay::Hidden
            &&& is_hidden(x[2]->El_0) <==> field.display == FieldDisplay::Hidden
            &&& is_hidden(x[n - 1]->El_0) <==> field.display == FieldDisplay::Hidden
        }),
{
    broadcast use reading;

    run_words();
    let begin = field_begin(field.instr@, field.mode, field.display);
    let end = field_end(field.display);
    assert(begin.len() == 3 && end.len() == 1);
    let x = field_xml(field);
    assert(x[0] == begin[0] && x[1] == begin[1] && x[2] == begin[2]);
    assert(x[x.len() - 1] == end[0]);
    assert(field_run(field.display).name == "w:r"@);
    if field.display == FieldDisplay::Hidden {
        assert(x[3] == crate::encode::field::hidden_result()[0]);
    }
}

/// A run that is a field writes the field.
pub proof fn field_runs_write_fields(run: Run)
    requires
        run is Field,
    ensures
        run_xml(run) == field_xml(run->Field_0),
{
}

// -- Tables of contents ------------------------------------------------------

proof fn lemma_entries(toc: Toc, entries: Seq<Para>)
    ensures
        entries_xml(toc, entries).len() == entries.len(),
        forall|i: int|
            #![trigger entries[i]]
            0 <= i < entries.len() ==> {
                let p = entries_xml(toc, entries)[i];
                &&& p is El
                &&& p->El_0.name == "w:p"@
                &&& p->El_0.children == seq![Xml::Owed(OwedXml::ParaProps(entries[i].props@))] + (
                if i == 0 {
                    field_begin(toc.instr@, toc.mode, FieldDisplay::Visible)
                } else {
                    Seq::empty()
                }) + children_xml(entries[i].content@) + (if i + 1 == toc.entries@.len() {
                    field_end(FieldDisplay::Visible)
                } else {
                    Seq::empty()
                })
            },
    decreases entries.len(),
{
    if entries.len() > 0 {
        lemma_entries(toc, entries.drop_last());
        let para = entries.last();
        let head = if entries.len() == 1 {
            field_begin(toc.instr@, toc.mode, FieldDisplay::Visible)
        } else {
            Seq::empty()
        };
        let tail = if entries.len() == toc.entries@.len() {
            field_end(FieldDisplay::Visible)
        } else {
            Seq::empty()
        };
        assert(el("w:p"@).owed(OwedXml::ParaProps(para.props@)).all(head).all(
            children_xml(para.content@),
        ).all(tail).children =~= seq![Xml::Owed(OwedXml::ParaProps(para.props@))] + head
            + children_xml(para.content@) + tail);
        assert forall|i: int|
            #![trigger entries[i]]
            0 <= i < entries.len() implies ({
            let p = entries_xml(toc, entries)[i];
            &&& p is El
            &&& p->El_0.name == "w:p"@
            &&& p->El_0.children == seq![Xml::Owed(OwedXml::ParaProps(entries[i].props@))] + (if i
                == 0 {
                field_begin(toc.instr@, toc.mode, FieldDisplay::Visible)
            } else {
                Seq::empty()
            }) + children_xml(entries[i].content@) + (if i + 1 == toc.entries@.len() {
                field_end(FieldDisplay::Visible)
            } else {
                Seq::empty()
            })
        }) by {
            if i < entries.len() - 1 {
                assert(entries.drop_last()[i] == entries[i]);
            }
        }
    }
}

/// A table of contents writes one paragraph for each entry, in order. Its field
/// begins in the first, behind the formatting, and ends at the end of the last.
pub proof fn tables_of_contents_write_their_entries(toc: Toc, i: int)
    requires
        0 <= i < toc.entries@.len(),
    ensures
        toc_body_xml(toc).len() == toc.entries@.len(),
        ({
            let p = toc_body_xml(toc)[i];
            let entry = toc.entries@[i];
            let begin = field_begin(toc.instr@, toc.mode, FieldDisplay::Visible);
            let end = field_end(FieldDisplay::Visible);
            let own = children_xml(entry.content@);
            &&& p is El
            &&& p->El_0.name == "w:p"@
            &&& p->El_0.children.len() == 1 + own.len() + (if i == 0 {
                3int
            } else {
                0
            }) + if i + 1 == toc.entries@.len() {
                1int
            } else {
                0
            }
            &&& p->El_0.children[0] == Xml::Owed(OwedXml::ParaProps(entry.props@))
            &&& i == 0 ==> p->El_0.children.subrange(1, 4) =~= begin
            &&& i + 1 == toc.entries@.len() ==> p->El_0.children.last() == end[0]
            &&& i > 0 ==> p->El_0.children.subrange(1, 1 + own.len() as int) =~= own
        }),
{
    lemma_entries(toc, toc.entries@);
}

/// A table of contents of headings stands in a content control; another one does
/// not. Without entries it is one paragraph with its placeholder inside the field.
pub proof fn tables_of_contents_of_headings_can_be_updated(toc: Toc)
    ensures
        toc.depth is None ==> toc_xml(toc) == toc_body_xml(toc),
        toc.depth is Some ==> {
            &&& toc_xml(toc).len() == 1
            &&& toc_xml(toc)[0] is El
            &&& toc_xml(toc)[0]->El_0.name == "w:sdt"@
            &&& part(toc_xml(toc)[0]->El_0, "w:sdtContent"@) is Some
            &&& part(toc_xml(toc)[0]->El_0, "w:sdtContent"@).unwrap().children =~= toc_body_xml(
                toc,
            )
        },
        toc.entries@.len() == 0 ==> {
            &&& toc_body_xml(toc).len() == 1
            &&& toc_body_xml(toc)[0] is El
            &&& toc_body_xml(toc)[0]->El_0.name == "w:p"@
            &&& toc_body_xml(toc)[0]->El_0.children =~= field_begin(
                toc.instr@,
                toc.mode,
                FieldDisplay::Visible,
            ) + runs_xml(toc.fallback@) + field_end(FieldDisplay::Visible)
        },
{
    broadcast use reading;

    reveal_strlit("w:sdtPr");
    reveal_strlit("w:sdtContent");
    assert("w:sdtPr"@.len() == 7 && "w:sdtContent"@.len() == 12);
}

} // verus!
