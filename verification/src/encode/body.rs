//! Blocks, paragraphs and runs.

use vstd::prelude::*;

use crate::dom::{
    Block, Cell, Drawing, Field, FieldDisplay, GroupChild, Para, ParaChild, ParaProps, Row, Run,
    RunProps, ShapeSpec, Spacing, TextBox, Toc,
};
use crate::encode::drawing::{
    drawing_run_xml, envelope_xml, graphic_xml, group_xml, pic_xml, text_box_run_xml, vml_xml,
    write_drawing_run, write_envelope, write_graphic, write_group_payload, write_pic_payload,
    write_text_box_run, write_vml_textbox, write_wsp, wsp_xml,
};
use crate::encode::field::{
    field_begin, field_end, hidden_result, preserved, write_field_begin, write_field_end,
    write_hidden_result, write_preserved,
};
use crate::encode::section::{sectpr_xml, write_sectpr};
use crate::encode::table::{
    grid_xml, tblpr_xml, tcpr_xml, trpr_xml, write_grid, write_tblpr, write_tcpr, write_trpr,
};
use crate::ns;
use crate::props::{ParaLook, plain_para};
use crate::text::{dec, dec_i64};
use crate::xml::{
    El, Elem, Node, Owed, OwedXml, Xml, el, nothing, open, put, put_all, put_elem, xmls,
};

verus! {

/// Whether what a block writes ends in a paragraph.
pub open spec fn ends_with_para(block: Block) -> bool {
    match block {
        Block::Para(_) | Block::FlowSpace { .. } | Block::Toc(_) | Block::SectionBreak(_) => true,
        Block::Table(_) | Block::Tag(_) | Block::WeakPageBreak => false,
    }
}

/// The properties of a paragraph that is a line of an exact height and nothing
/// else.
pub open spec fn spacer_look(dxa: i32) -> ParaLook {
    ParaLook {
        spacing: Some(
            Spacing {
                before: Some(0),
                after: Some(0),
                line: Some(
                    if dxa > 1 {
                        dxa
                    } else {
                        1
                    },
                ),
                line_rule_auto: false,
                line_rule_at_least: false,
            },
        ),
        ..plain_para()
    }
}

/// What a block writes. Every paragraph of content has an identity. A section
/// break is a paragraph that carries the properties of the section it ends. Tags
/// write nothing, nor do weak page breaks: they were settled onto the blocks they
/// apply to.
pub open spec fn block_xml(block: Block) -> Seq<Xml>
    decreases block, 0int,
{
    match block {
        Block::Para(para) => seq![
            Xml::Para(
                seq![Xml::Owed(OwedXml::ParaProps(para.props@))] + children_xml(para.content@),
            ),
        ],
        Block::Table(tbl) => seq![
            Xml::El(
                el("w:tbl"@).elem(tblpr_xml(tbl.props)).elem(grid_xml(tbl.grid@)).all(
                    rows_xml(tbl.rows@),
                ),
            ),
        ],
        Block::FlowSpace { dxa } => seq![
            Xml::Para(seq![Xml::Owed(OwedXml::ParaProps(spacer_look(dxa)))]),
        ],
        Block::Toc(toc) => toc_xml(toc),
        Block::SectionBreak(sect) => seq![
            Xml::Para(seq![Xml::El(el("w:pPr"@).elem(sectpr_xml(sect)))]),
        ],
        Block::Tag(_) | Block::WeakPageBreak => Seq::empty(),
    }
}

/// What blocks write, in order.
pub open spec fn blocks_xml(blocks: Seq<Block>) -> Seq<Xml>
    decreases blocks, 0int,
{
    if blocks.len() == 0 {
        Seq::empty()
    } else {
        blocks_xml(blocks.drop_last()) + block_xml(blocks.last())
    }
}

/// Blocks as the content of a container, which must end in a paragraph: an empty
/// one is added where it would not.
pub open spec fn content_xml(blocks: Seq<Block>) -> Seq<Xml>
    decreases blocks, 1int,
{
    if blocks.len() > 0 && ends_with_para(blocks.last()) {
        blocks_xml(blocks)
    } else {
        blocks_xml(blocks).push(Xml::El(el("w:p"@)))
    }
}

/// What the rows of a table write.
pub open spec fn rows_xml(rows: Seq<Row>) -> Seq<Xml>
    decreases rows, 0int,
{
    if rows.len() == 0 {
        Seq::empty()
    } else {
        let row = rows.last();
        rows_xml(rows.drop_last()).push(
            Xml::El(el("w:tr"@).all(trpr_xml(row)).all(cells_xml(row.cells@))),
        )
    }
}

/// What the cells of a row write.
pub open spec fn cells_xml(cells: Seq<Cell>) -> Seq<Xml>
    decreases cells, 0int,
{
    if cells.len() == 0 {
        Seq::empty()
    } else {
        let cell = cells.last();
        cells_xml(cells.drop_last()).push(
            Xml::El(el("w:tc"@).elem(tcpr_xml(cell)).all(blocks_xml(cell.blocks@))),
        )
    }
}

/// What the children of a paragraph write.
pub open spec fn children_xml(content: Seq<ParaChild>) -> Seq<Xml>
    decreases content, 0int,
{
    if content.len() == 0 {
        Seq::empty()
    } else {
        children_xml(content.drop_last()) + child_xml(content.last())
    }
}

/// A mark that names something by its number.
pub open spec fn numbered_xml(name: Seq<char>, id: int) -> El {
    el(name).attr("w:id"@, dec(id))
}

/// The start of a bookmark.
pub open spec fn bookmark_start_xml(id: u32, name: Seq<char>) -> El {
    numbered_xml("w:bookmarkStart"@, id as int).attr("w:name"@, name)
}

/// What a child of a paragraph writes.
pub open spec fn child_xml(child: ParaChild) -> Seq<Xml>
    decreases child, 0int,
{
    match child {
        ParaChild::Run(run) => run_xml(run),
        ParaChild::OmmlPara(markup) => seq![Xml::Raw(markup@)],
        ParaChild::Hyperlink { rel, anchor, runs } => {
            let e = el("w:hyperlink"@);
            let e = match rel {
                Some(rel) => e.attr("r:id"@, rel@),
                None => e,
            };
            let e = match anchor {
                Some(anchor) => e.attr("w:anchor"@, anchor@),
                None => e,
            };
            seq![Xml::El(e.attr("w:history"@, "1"@).all(runs_xml(runs@)))]
        },
        ParaChild::BookmarkStart { id, name } => seq![Xml::El(bookmark_start_xml(id, name@))],
        ParaChild::BookmarkEnd { id } => seq![Xml::El(numbered_xml("w:bookmarkEnd"@, id as int))],
        ParaChild::CommentRangeStart { id } => seq![
            Xml::El(numbered_xml("w:commentRangeStart"@, id as int)),
        ],
        ParaChild::CommentRangeEnd { id } => seq![
            Xml::El(numbered_xml("w:commentRangeEnd"@, id as int)),
        ],
        ParaChild::Tag(_) => Seq::empty(),
    }
}

/// What runs write, in order.
pub open spec fn runs_xml(runs: Seq<Run>) -> Seq<Xml>
    decreases runs, 0int,
{
    if runs.len() == 0 {
        Seq::empty()
    } else {
        runs_xml(runs.drop_last()) + run_xml(runs.last())
    }
}

/// A run with its properties and one element.
pub open spec fn props_run(props: RunProps, e: El) -> El {
    el("w:r"@).owed(OwedXml::RunProps(props@)).elem(e)
}

/// A break of a kind.
pub open spec fn break_run(kind: Seq<char>) -> El {
    el("w:r"@).elem(el("w:br"@).attr("w:type"@, kind))
}

/// What a run writes.
pub open spec fn run_xml(run: Run) -> Seq<Xml>
    decreases run, 0int,
{
    match run {
        Run::Text { props, text } => seq![Xml::El(props_run(props, preserved("w:t"@, text@)))],
        Run::Break { kind: _ } => seq![Xml::El(el("w:r"@).elem(el("w:br"@)))],
        Run::PageBreak => seq![Xml::El(break_run("page"@))],
        Run::ColumnBreak => seq![Xml::El(break_run("column"@))],
        Run::Tab | Run::FillTab => seq![Xml::El(el("w:r"@).elem(el("w:tab"@)))],
        Run::FootnoteRef { props, id, bookmark } => {
            let mark = Xml::El(
                props_run(props, numbered_xml("w:footnoteReference"@, id as int)),
            );
            match bookmark {
                Some((bookmark_id, name)) => seq![
                    Xml::El(bookmark_start_xml(bookmark_id, name@)),
                    mark,
                    Xml::El(numbered_xml("w:bookmarkEnd"@, bookmark_id as int)),
                ],
                None => seq![mark],
            }
        },
        Run::FootnoteRefMark => seq![
            Xml::El(
                el("w:r"@).elem(
                    el("w:rPr"@).elem(el("w:rStyle"@).attr("w:val"@, "FootnoteReference"@)),
                ).elem(el("w:footnoteRef"@)),
            ),
        ],
        Run::CommentReference { props, id } => seq![
            Xml::El(props_run(props, numbered_xml("w:commentReference"@, id as int))),
        ],
        Run::Drawing(drawing) => seq![Xml::El(drawing_xml(drawing))],
        Run::OmmlInline(markup) => seq![Xml::Raw(markup@)],
        Run::Field(field) => field_xml(field),
    }
}

/// What a field writes. A hidden field has a result of its own.
pub open spec fn field_xml(field: Field) -> Seq<Xml>
    decreases field, 0int,
{
    field_begin(field.instr@, field.mode, field.display) + (if field.display
        == FieldDisplay::Hidden {
        hidden_result()
    } else {
        runs_xml(field.result@)
    }) + field_end(field.display)
}

/// The text that a shape frames.
pub open spec fn framed_xml(shape: ShapeSpec) -> Seq<Xml>
    decreases shape, 0int,
{
    match shape.txbx {
        Some(tb) => box_xml(tb),
        None => Seq::empty(),
    }
}

/// The text of a text box.
pub open spec fn box_xml(tb: TextBox) -> Seq<Xml>
    decreases tb, 0int,
{
    content_xml(tb.blocks@)
}

/// What the shapes of a group write.
pub open spec fn shapes_xml(children: Seq<GroupChild>) -> Seq<Xml>
    decreases children, 0int,
{
    if children.len() == 0 {
        Seq::empty()
    } else {
        let child = children.last();
        shapes_xml(children.drop_last()).push(
            Xml::El(
                wsp_xml(
                    (child.x_emu, child.y_emu),
                    (child.w_emu, child.h_emu),
                    child.shape,
                    framed_xml(child.shape),
                ),
            ),
        )
    }
}

/// The graphic of a drawing: a group, a shape, or else a picture.
pub open spec fn payload_xml(d: Drawing) -> El
    decreases d, 0int,
{
    match d.group {
        Some(group) => group_xml(d, shapes_xml(group.children@)),
        None => match d.shape {
            Some(shape) => graphic_xml(
                ns::WPS@,
                wsp_xml((0, 0), (d.w_emu, d.h_emu), shape, framed_xml(shape)),
            ),
            None => pic_xml(d),
        },
    }
}

/// What a drawing writes. A text box is written twice, in newer and in older
/// markup.
pub open spec fn drawing_xml(d: Drawing) -> El
    decreases d, 1int,
{
    let envelope = envelope_xml(d, payload_xml(d));
    match d.shape {
        Some(shape) => match shape.txbx {
            Some(tb) => text_box_run_xml(envelope, vml_xml(d, shape, tb, box_xml(tb))),
            None => drawing_run_xml(envelope),
        },
        None => drawing_run_xml(envelope),
    }
}

/// The paragraphs of the first entries of a table of contents. The field spans
/// all entries: it starts in the first and ends in the last.
pub open spec fn entries_xml(toc: Toc, entries: Seq<Para>) -> Seq<Xml>
    decreases entries, 0int,
{
    if entries.len() == 0 {
        Seq::empty()
    } else {
        let para = entries.last();
        entries_xml(toc, entries.drop_last()).push(
            Xml::El(
                el("w:p"@).owed(OwedXml::ParaProps(para.props@)).all(
                    if entries.len() == 1 {
                        field_begin(toc.instr@, toc.mode, FieldDisplay::Visible)
                    } else {
                        Seq::empty()
                    },
                ).all(children_xml(para.content@)).all(
                    if entries.len() == toc.entries@.len() {
                        field_end(FieldDisplay::Visible)
                    } else {
                        Seq::empty()
                    },
                ),
            ),
        )
    }
}

/// The paragraphs of a table of contents, or a single one with a placeholder
/// where there are no entries.
pub open spec fn toc_body_xml(toc: Toc) -> Seq<Xml>
    decreases toc, 0int,
{
    if toc.entries@.len() == 0 {
        seq![
            Xml::El(
                el("w:p"@).all(field_begin(toc.instr@, toc.mode, FieldDisplay::Visible)).all(
                    runs_xml(toc.fallback@),
                ).all(field_end(FieldDisplay::Visible)),
            ),
        ]
    } else {
        entries_xml(toc, toc.entries@)
    }
}

/// What a table of contents writes. One of headings stands in a content control
/// that makes consumers offer to update it.
pub open spec fn toc_xml(toc: Toc) -> Seq<Xml>
    decreases toc, 1int,
{
    if toc.depth is Some {
        seq![
            Xml::El(
                el("w:sdt"@).elem(
                    el("w:sdtPr"@).elem(
                        el("w:docPartObj"@).elem(
                            el("w:docPartGallery"@).attr("w:val"@, "Table of Contents"@),
                        ).elem(el("w:docPartUnique"@)),
                    ),
                ).elem(el("w:sdtContent"@).all(toc_body_xml(toc))),
            ),
        ]
    } else {
        toc_body_xml(toc)
    }
}

fn spacer_props(dxa: i32) -> (r: ParaProps)
    ensures
        r@ == spacer_look(dxa),
{
    let mut props: ParaProps = ParaProps::default();
    let line: i32 = if dxa > 1 {
        dxa
    } else {
        1
    };
    props.spacing = Some(
        Spacing {
            before: Some(0),
            after: Some(0),
            line: Some(line),
            line_rule_auto: false,
            line_rule_at_least: false,
        },
    );
    props
}

fn block_ends_with_para(block: &Block) -> (r: bool)
    ensures
        r == ends_with_para(*block),
{
    match block {
        Block::Para(_) | Block::FlowSpace { .. } | Block::Toc(_) | Block::SectionBreak(_) => true,
        Block::Table(_) | Block::Tag(_) | Block::WeakPageBreak => false,
    }
}

/// Builds a block.
pub fn write_block<'a>(block: &'a Block) -> (r: Vec<Node<'a>>)
    ensures
        xmls(r@) == block_xml(*block),
    decreases *block, 0int,
{
    let mut r: Vec<Node<'a>> = nothing();
    match block {
        Block::Para(para) => {
            let mut children: Vec<Node<'a>> = nothing();
            put(&mut children, Node::Owed(Owed::ParaProps(&para.props)));
            put_all(&mut children, write_children(&para.content));
            put(&mut r, Node::Para(children));
        }
        Block::Table(tbl) => {
            put_elem(
                &mut r,
                open("w:tbl").elem(write_tblpr(&tbl.props)).elem(write_grid(&tbl.grid)).all(
                    write_rows(&tbl.rows),
                ),
            );
        }
        Block::FlowSpace { dxa } => {
            let mut children: Vec<Node<'a>> = nothing();
            put(&mut children, Node::Owed(Owed::Spacer(spacer_props(*dxa))));
            put(&mut r, Node::Para(children));
        }
        Block::Toc(toc) => {
            r = write_toc(toc);
        }
        Block::SectionBreak(sect) => {
            let mut children: Vec<Node<'a>> = nothing();
            put_elem(&mut children, open("w:pPr").elem(write_sectpr(sect)));
            put(&mut r, Node::Para(children));
        }
        Block::Tag(_) | Block::WeakPageBreak => {}
    }
    r
}

/// Builds blocks.
pub fn write_blocks<'a>(blocks: &'a Vec<Block>) -> (r: Vec<Node<'a>>)
    ensures
        xmls(r@) == blocks_xml(blocks@),
    decreases blocks@, 0int,
{
    let mut r: Vec<Node<'a>> = nothing();
    let mut i: usize = 0;
    while i < blocks.len()
        invariant
            i <= blocks.len(),
            xmls(r@) == blocks_xml(blocks@.take(i as int)),
        decreases blocks.len() - i,
    {
        assert(blocks@.take(i + 1).drop_last() =~= blocks@.take(i as int));
        proof {
            assert(decreases_to!(blocks@ => blocks@[i as int]));
        }
        put_all(&mut r, write_block(&blocks[i]));
        i = i + 1;
    }
    assert(blocks@.take(i as int) =~= blocks@);
    r
}

/// Builds blocks as the content of a container, which ends in a paragraph.
pub fn write_content<'a>(blocks: &'a Vec<Block>) -> (r: Vec<Node<'a>>)
    ensures
        xmls(r@) == content_xml(blocks@),
    decreases blocks@, 1int,
{
    let mut r: Vec<Node<'a>> = write_blocks(blocks);
    if !(blocks.len() > 0 && block_ends_with_para(&blocks[blocks.len() - 1])) {
        put_elem(&mut r, open("w:p"));
    }
    r
}

fn write_rows<'a>(rows: &'a Vec<Row>) -> (r: Vec<Node<'a>>)
    ensures
        xmls(r@) == rows_xml(rows@),
    decreases rows@, 0int,
{
    let mut r: Vec<Node<'a>> = nothing();
    let mut i: usize = 0;
    while i < rows.len()
        invariant
            i <= rows.len(),
            xmls(r@) == rows_xml(rows@.take(i as int)),
        decreases rows.len() - i,
    {
        assert(rows@.take(i + 1).drop_last() =~= rows@.take(i as int));
        proof {
            assert(decreases_to!(rows@ => rows@[i as int]));
        }
        put_elem(
            &mut r,
            open("w:tr").all(write_trpr(&rows[i])).all(write_cells(&rows[i].cells)),
        );
        i = i + 1;
    }
    assert(rows@.take(i as int) =~= rows@);
    r
}

fn write_cells<'a>(cells: &'a Vec<Cell>) -> (r: Vec<Node<'a>>)
    ensures
        xmls(r@) == cells_xml(cells@),
    decreases cells@, 0int,
{
    let mut r: Vec<Node<'a>> = nothing();
    let mut i: usize = 0;
    while i < cells.len()
        invariant
            i <= cells.len(),
            xmls(r@) == cells_xml(cells@.take(i as int)),
        decreases cells.len() - i,
    {
        assert(cells@.take(i + 1).drop_last() =~= cells@.take(i as int));
        proof {
            assert(decreases_to!(cells@ => cells@[i as int]));
        }
        put_elem(
            &mut r,
            open("w:tc").elem(write_tcpr(&cells[i])).all(write_blocks(&cells[i].blocks)),
        );
        i = i + 1;
    }
    assert(cells@.take(i as int) =~= cells@);
    r
}

fn write_children<'a>(content: &'a Vec<ParaChild>) -> (r: Vec<Node<'a>>)
    ensures
        xmls(r@) == children_xml(content@),
    decreases content@, 0int,
{
    let mut r: Vec<Node<'a>> = nothing();
    let mut i: usize = 0;
    while i < content.len()
        invariant
            i <= content.len(),
            xmls(r@) == children_xml(content@.take(i as int)),
        decreases content.len() - i,
    {
        assert(content@.take(i + 1).drop_last() =~= content@.take(i as int));
        proof {
            assert(decreases_to!(content@ => content@[i as int]));
        }
        put_all(&mut r, write_para_child(&content[i]));
        i = i + 1;
    }
    assert(content@.take(i as int) =~= content@);
    r
}

fn write_numbered<'a>(name: &'static str, id: i64) -> (r: Elem<'a>)
    ensures
        r@ == numbered_xml(name@, id as int),
{
    open(name).attr("w:id", dec_i64(id).as_str())
}

fn write_bookmark_start<'a>(id: u32, name: &str) -> (r: Elem<'a>)
    ensures
        r@ == bookmark_start_xml(id, name@),
{
    write_numbered("w:bookmarkStart", id as i64).attr("w:name", name)
}

/// Builds a child of a paragraph.
pub fn write_para_child<'a>(child: &'a ParaChild) -> (r: Vec<Node<'a>>)
    ensures
        xmls(r@) == child_xml(*child),
    decreases *child, 0int,
{
    let mut r: Vec<Node<'a>> = nothing();
    match child {
        ParaChild::Run(run) => {
            r = write_run(run);
        }
        ParaChild::OmmlPara(markup) => {
            put(&mut r, Node::Raw(markup.clone()));
        }
        ParaChild::Hyperlink { rel, anchor, runs } => {
            let e: Elem<'a> = open("w:hyperlink");
            let e: Elem<'a> = match rel {
                Some(rel) => e.attr("r:id", rel.as_str()),
                None => e,
            };
            let e: Elem<'a> = match anchor {
                Some(anchor) => e.attr("w:anchor", anchor.as_str()),
                None => e,
            };
            put_elem(&mut r, e.attr("w:history", "1").all(write_runs(runs)));
        }
        ParaChild::BookmarkStart { id, name } => {
            put_elem(&mut r, write_bookmark_start(*id, name.as_str()));
        }
        ParaChild::BookmarkEnd { id } => {
            put_elem(&mut r, write_numbered("w:bookmarkEnd", *id as i64));
        }
        ParaChild::CommentRangeStart { id } => {
            put_elem(&mut r, write_numbered("w:commentRangeStart", *id as i64));
        }
        ParaChild::CommentRangeEnd { id } => {
            put_elem(&mut r, write_numbered("w:commentRangeEnd", *id as i64));
        }
        ParaChild::Tag(_) => {}
    }
    r
}

fn write_runs<'a>(runs: &'a Vec<Run>) -> (r: Vec<Node<'a>>)
    ensures
        xmls(r@) == runs_xml(runs@),
    decreases runs@, 0int,
{
    let mut r: Vec<Node<'a>> = nothing();
    let mut i: usize = 0;
    while i < runs.len()
        invariant
            i <= runs.len(),
            xmls(r@) == runs_xml(runs@.take(i as int)),
        decreases runs.len() - i,
    {
        assert(runs@.take(i + 1).drop_last() =~= runs@.take(i as int));
        proof {
            assert(decreases_to!(runs@ => runs@[i as int]));
        }
        put_all(&mut r, write_run(&runs[i]));
        i = i + 1;
    }
    assert(runs@.take(i as int) =~= runs@);
    r
}

fn write_props_run<'a>(props: &'a RunProps, e: Elem<'a>) -> (r: Elem<'a>)
    ensures
        r@ == props_run(*props, e@),
{
    open("w:r").owed(Owed::RunProps(props)).elem(e)
}

fn write_break_run<'a>(kind: &str) -> (r: Elem<'a>)
    ensures
        r@ == break_run(kind@),
{
    open("w:r").elem(open("w:br").attr("w:type", kind))
}

/// Builds a run.
pub fn write_run<'a>(run: &'a Run) -> (r: Vec<Node<'a>>)
    ensures
        xmls(r@) == run_xml(*run),
    decreases *run, 0int,
{
    let mut r: Vec<Node<'a>> = nothing();
    match run {
        Run::Text { props, text } => {
            put_elem(&mut r, write_props_run(props, write_preserved("w:t", text.as_str())));
        }
        Run::Break { .. } => {
            put_elem(&mut r, open("w:r").elem(open("w:br")));
        }
        Run::PageBreak => {
            put_elem(&mut r, write_break_run("page"));
        }
        Run::ColumnBreak => {
            put_elem(&mut r, write_break_run("column"));
        }
        Run::Tab | Run::FillTab => {
            put_elem(&mut r, open("w:r").elem(open("w:tab")));
        }
        Run::FootnoteRef { props, id, bookmark } => {
            let mark: Elem<'a> = write_props_run(
                props,
                write_numbered("w:footnoteReference", *id as i64),
            );
            match bookmark {
                Some((bookmark_id, name)) => {
                    put_elem(&mut r, write_bookmark_start(*bookmark_id, name.as_str()));
                    put_elem(&mut r, mark);
                    put_elem(&mut r, write_numbered("w:bookmarkEnd", *bookmark_id as i64));
                }
                None => {
                    put_elem(&mut r, mark);
                }
            }
        }
        Run::FootnoteRefMark => {
            put_elem(
                &mut r,
                open("w:r").elem(
                    open("w:rPr").elem(open("w:rStyle").attr("w:val", "FootnoteReference")),
                ).elem(open("w:footnoteRef")),
            );
        }
        Run::CommentReference { props, id } => {
            put_elem(
                &mut r,
                write_props_run(props, write_numbered("w:commentReference", *id as i64)),
            );
        }
        Run::Drawing(drawing) => {
            put_elem(&mut r, write_drawing(drawing));
        }
        Run::OmmlInline(markup) => {
            put(&mut r, Node::Raw(markup.clone()));
        }
        Run::Field(field) => {
            r = write_field(field);
        }
    }
    r
}

fn write_field<'a>(field: &'a Field) -> (r: Vec<Node<'a>>)
    ensures
        xmls(r@) == field_xml(*field),
    decreases *field, 0int,
{
    let mut r: Vec<Node<'a>> = write_field_begin(field.instr.as_str(), field.mode, field.display);
    if field.display == FieldDisplay::Hidden {
        put_all(&mut r, write_hidden_result());
    } else {
        put_all(&mut r, write_runs(&field.result));
    }
    put_all(&mut r, write_field_end(field.display));
    r
}

fn write_framed<'a>(shape: &'a ShapeSpec) -> (r: Vec<Node<'a>>)
    ensures
        xmls(r@) == framed_xml(*shape),
    decreases *shape, 0int,
{
    match &shape.txbx {
        Some(tb) => write_box(tb),
        None => nothing(),
    }
}

fn write_box<'a>(tb: &'a TextBox) -> (r: Vec<Node<'a>>)
    ensures
        xmls(r@) == box_xml(*tb),
    decreases *tb, 0int,
{
    write_content(&tb.blocks)
}

fn write_shapes<'a>(children: &'a Vec<GroupChild>) -> (r: Vec<Node<'a>>)
    ensures
        xmls(r@) == shapes_xml(children@),
    decreases children@, 0int,
{
    let mut r: Vec<Node<'a>> = nothing();
    let mut i: usize = 0;
    while i < children.len()
        invariant
            i <= children.len(),
            xmls(r@) == shapes_xml(children@.take(i as int)),
        decreases children.len() - i,
    {
        assert(children@.take(i + 1).drop_last() =~= children@.take(i as int));
        proof {
            assert(decreases_to!(children@ => children@[i as int]));
        }
        let child: &'a GroupChild = &children[i];
        put_elem(
            &mut r,
            write_wsp(
                (child.x_emu, child.y_emu),
                (child.w_emu, child.h_emu),
                &child.shape,
                write_framed(&child.shape),
            ),
        );
        i = i + 1;
    }
    assert(children@.take(i as int) =~= children@);
    r
}

fn write_payload<'a>(d: &'a Drawing) -> (r: Elem<'a>)
    ensures
        r@ == payload_xml(*d),
    decreases *d, 0int,
{
    match &d.group {
        Some(group) => write_group_payload(d, write_shapes(&group.children)),
        None => match &d.shape {
            Some(shape) => write_graphic(
                ns::WPS,
                write_wsp((0, 0), (d.w_emu, d.h_emu), shape, write_framed(shape)),
            ),
            None => write_pic_payload(d),
        },
    }
}

/// Builds a drawing.
pub fn write_drawing<'a>(d: &'a Drawing) -> (r: Elem<'a>)
    ensures
        r@ == drawing_xml(*d),
    decreases *d, 1int,
{
    let envelope: Elem<'a> = write_envelope(d, write_payload(d));
    match &d.shape {
        Some(shape) => match &shape.txbx {
            Some(tb) => write_text_box_run(
                envelope,
                write_vml_textbox(d, shape, tb, write_box(tb)),
            ),
            None => write_drawing_run(envelope),
        },
        None => write_drawing_run(envelope),
    }
}

fn write_entries<'a>(toc: &'a Toc, entries: &'a Vec<Para>) -> (r: Vec<Node<'a>>)
    requires
        entries@ == toc.entries@,
    ensures
        xmls(r@) == entries_xml(*toc, entries@),
    decreases entries@, 0int,
{
    let mut r: Vec<Node<'a>> = nothing();
    let mut i: usize = 0;
    while i < entries.len()
        invariant
            i <= entries.len(),
            entries@ == toc.entries@,
            xmls(r@) == entries_xml(*toc, entries@.take(i as int)),
        decreases entries.len() - i,
    {
        assert(entries@.take(i + 1).drop_last() =~= entries@.take(i as int));
        proof {
            assert(decreases_to!(entries@ => entries@[i as int]));
        }
        let para: &'a Para = &entries[i];
        let begin: Vec<Node<'a>> = if i == 0 {
            write_field_begin(toc.instr.as_str(), toc.mode, FieldDisplay::Visible)
        } else {
            nothing()
        };
        let end: Vec<Node<'a>> = if i == entries.len() - 1 {
            write_field_end(FieldDisplay::Visible)
        } else {
            nothing()
        };
        put_elem(
            &mut r,
            open("w:p").owed(Owed::ParaProps(&para.props)).all(begin).all(
                write_children(&para.content),
            ).all(end),
        );
        i = i + 1;
    }
    assert(entries@.take(i as int) =~= entries@);
    r
}

fn write_toc_body<'a>(toc: &'a Toc) -> (r: Vec<Node<'a>>)
    ensures
        xmls(r@) == toc_body_xml(*toc),
    decreases *toc, 0int,
{
    if toc.entries.len() == 0 {
        let mut r: Vec<Node<'a>> = nothing();
        put_elem(
            &mut r,
            open("w:p").all(
                write_field_begin(toc.instr.as_str(), toc.mode, FieldDisplay::Visible),
            ).all(write_runs(&toc.fallback)).all(write_field_end(FieldDisplay::Visible)),
        );
        r
    } else {
        write_entries(toc, &toc.entries)
    }
}

/// Builds a table of contents.
pub fn write_toc<'a>(toc: &'a Toc) -> (r: Vec<Node<'a>>)
    ensures
        xmls(r@) == toc_xml(*toc),
    decreases *toc, 1int,
{
    let body: Vec<Node<'a>> = write_toc_body(toc);
    if toc.depth.is_some() {
        let mut r: Vec<Node<'a>> = nothing();
        put_elem(
            &mut r,
            open("w:sdt").elem(
                open("w:sdtPr").elem(
                    open("w:docPartObj").elem(
                        open("w:docPartGallery").attr("w:val", "Table of Contents"),
                    ).elem(open("w:docPartUnique")),
                ),
            ).elem(open("w:sdtContent").all(body)),
        );
        r
    } else {
        body
    }
}

} // verus!
