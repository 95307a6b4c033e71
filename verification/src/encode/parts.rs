//! The parts that hold the document's content.

use vstd::prelude::*;

use crate::dom::{
    AbstractNum, Comment, DocxDocument, Footnote, HdrFtrPart, ListLevel, NumInstance,
    NumberingTable,
};
use crate::encode::body::{content_xml, write_content};
use crate::encode::section::{sectpr_xml, write_sectpr};
use crate::ns;
use crate::text::{dec, dec_i64, dec_u64, hex, hex_rgb};
use crate::xml::{El, Elem, Node, Xml, el, nothing, open, put_elem, xmls};

verus! {

/// The root of a part with content. Every part declares all prefixes that its
/// content may use on its own root, and those that a consumer may ignore.
pub open spec fn root_xml(name: Seq<char>) -> El {
    el(name).attr("xmlns:w"@, ns::W@).attr("xmlns:r"@, ns::R@).attr("xmlns:m"@, ns::M@).attr(
        "xmlns:wp"@,
        ns::WP@,
    ).attr("xmlns:a"@, ns::A@).attr("xmlns:pic"@, ns::PIC@).attr("xmlns:mc"@, ns::MC@).attr(
        "xmlns:w14"@,
        ns::W14@,
    ).attr("xmlns:wp14"@, ns::WP14@).attr("xmlns:wps"@, ns::WPS@).attr("xmlns:v"@, ns::V@).attr(
        "mc:Ignorable"@,
        "w14 wp14"@,
    )
}

fn open_root<'a>(name: &'static str) -> (r: Elem<'a>)
    ensures
        r@ == root_xml(name@),
{
    open(name).attr("xmlns:w", ns::W).attr("xmlns:r", ns::R).attr("xmlns:m", ns::M).attr(
        "xmlns:wp",
        ns::WP,
    ).attr("xmlns:a", ns::A).attr("xmlns:pic", ns::PIC).attr("xmlns:mc", ns::MC).attr(
        "xmlns:w14",
        ns::W14,
    ).attr("xmlns:wp14", ns::WP14).attr("xmlns:wps", ns::WPS).attr("xmlns:v", ns::V).attr(
        "mc:Ignorable",
        "w14 wp14",
    )
}

/// The main part: the page color, the body, and the properties of the last
/// section at its end.
pub open spec fn document_xml(d: DocxDocument) -> El {
    let e = root_xml("w:document"@);
    let e = match d.background_color {
        Some(c) => e.elem(el("w:background"@).attr("w:color"@, hex_rgb(c))),
        None => e,
    };
    e.elem(el("w:body"@).all(content_xml(d.body@)).elem(sectpr_xml(d.sect)))
}

/// Builds the main part.
pub fn build_document<'a>(d: &'a DocxDocument) -> (r: Elem<'a>)
    ensures
        r@ == document_xml(*d),
{
    let e: Elem<'a> = open_root("w:document");
    let e: Elem<'a> = match d.background_color {
        Some(c) => e.elem(open("w:background").attr("w:color", hex(c).as_str())),
        None => e,
    };
    e.elem(open("w:body").all(write_content(&d.body)).elem(write_sectpr(&d.sect)))
}

/// A header or footer part. It is never empty.
pub open spec fn hdrftr_xml(part: HdrFtrPart) -> El {
    root_xml(
        if part.is_header {
            "w:hdr"@
        } else {
            "w:ftr"@
        },
    ).all(content_xml(part.blocks@))
}

/// Builds a header or footer part.
pub fn build_hdrftr<'a>(part: &'a HdrFtrPart) -> (r: Elem<'a>)
    ensures
        r@ == hdrftr_xml(*part),
{
    let root: &'static str = if part.is_header {
        "w:hdr"
    } else {
        "w:ftr"
    };
    open_root(root).all(write_content(&part.blocks))
}

/// The line between the text and its notes.
pub open spec fn separator_xml(elem: Seq<char>, id: int, kind: Seq<char>, mark: Seq<char>) -> El {
    el(elem).attr("w:type"@, kind).attr("w:id"@, dec(id)).elem(
        el("w:p"@).elem(el("w:r"@).elem(el(mark))),
    )
}

/// Both lines between the text and its notes.
pub open spec fn with_separators(e: El, elem: Seq<char>) -> El {
    e.elem(separator_xml(elem, -1, "separator"@, "w:separator"@)).elem(
        separator_xml(elem, 0, "continuationSeparator"@, "w:continuationSeparator"@),
    )
}

fn write_separator<'a>(
    elem: &'static str,
    id: i64,
    kind: &'static str,
    mark: &'static str,
) -> (r: Elem<'a>)
    ensures
        r@ == separator_xml(elem@, id as int, kind@, mark@),
{
    open(elem).attr("w:type", kind).attr("w:id", dec_i64(id).as_str()).elem(
        open("w:p").elem(open("w:r").elem(open(mark))),
    )
}

fn add_separators<'a>(e: Elem<'a>, elem: &'static str) -> (r: Elem<'a>)
    ensures
        r@ == with_separators(e@, elem@),
{
    e.elem(write_separator(elem, -1, "separator", "w:separator")).elem(
        write_separator(elem, 0, "continuationSeparator", "w:continuationSeparator"),
    )
}

/// One footnote. It ends in a paragraph.
pub open spec fn footnote_xml(note: Footnote) -> El {
    el("w:footnote"@).attr("w:id"@, dec(note.id as int)).all(content_xml(note.blocks@))
}

/// The footnotes part. It is there without footnotes too.
pub open spec fn footnotes_xml(notes: Seq<Footnote>) -> El {
    with_separators(root_xml("w:footnotes"@), "w:footnote"@).all(
        notes.map_values(|n: Footnote| Xml::El(footnote_xml(n))),
    )
}

/// Builds the footnotes part.
pub fn build_footnotes<'a>(notes: &'a Vec<Footnote>) -> (r: Elem<'a>)
    ensures
        r@ == footnotes_xml(notes@),
{
    let ghost one = |n: Footnote| Xml::El(footnote_xml(n));
    let mut out: Vec<Node<'a>> = nothing();
    let mut i: usize = 0;
    assert(xmls(out@) =~= notes@.take(0).map_values(one));
    while i < notes.len()
        invariant
            i <= notes.len(),
            one == (|n: Footnote| Xml::El(footnote_xml(n))),
            xmls(out@) == notes@.take(i as int).map_values(one),
        decreases notes.len() - i,
    {
        put_elem(
            &mut out,
            open("w:footnote").attr("w:id", dec_i64(notes[i].id as i64).as_str()).all(
                write_content(&notes[i].blocks),
            ),
        );
        assert(xmls(out@) =~= notes@.take(i + 1).map_values(one));
        i = i + 1;
    }
    assert(notes@.take(i as int) =~= notes@);
    add_separators(open_root("w:footnotes"), "w:footnote").all(out)
}

/// The endnotes part: there are no endnotes, so it only holds the lines.
pub open spec fn endnotes_xml() -> El {
    with_separators(root_xml("w:endnotes"@), "w:endnote"@)
}

/// Builds the endnotes part.
pub fn build_endnotes<'a>() -> (r: Elem<'a>)
    ensures
        r@ == endnotes_xml(),
{
    add_separators(open_root("w:endnotes"), "w:endnote")
}

/// One comment. Its author is always stated.
pub open spec fn comment_xml(c: Comment) -> El {
    let e = el("w:comment"@).attr("w:id"@, dec(c.id as int)).attr(
        "w:author"@,
        match c.author {
            Some(author) => author@,
            None => ""@,
        },
    );
    let e = match c.date {
        Some(date) => e.attr("w:date"@, date@),
        None => e,
    };
    let e = match c.initials {
        Some(initials) => e.attr("w:initials"@, initials@),
        None => e,
    };
    e.all(content_xml(c.blocks@))
}

/// The comments part.
pub open spec fn comments_xml(comments: Seq<Comment>) -> El {
    root_xml("w:comments"@).all(comments.map_values(|c: Comment| Xml::El(comment_xml(c))))
}

fn write_comment<'a>(c: &'a Comment) -> (r: Elem<'a>)
    ensures
        r@ == comment_xml(*c),
{
    let author: &str = match &c.author {
        Some(author) => author.as_str(),
        None => "",
    };
    let e: Elem<'a> = open("w:comment").attr("w:id", dec_i64(c.id as i64).as_str()).attr(
        "w:author",
        author,
    );
    let e: Elem<'a> = match &c.date {
        Some(date) => e.attr("w:date", date.as_str()),
        None => e,
    };
    let e: Elem<'a> = match &c.initials {
        Some(initials) => e.attr("w:initials", initials.as_str()),
        None => e,
    };
    e.all(write_content(&c.blocks))
}

/// Builds the comments part.
pub fn build_comments<'a>(comments: &'a Vec<Comment>) -> (r: Elem<'a>)
    ensures
        r@ == comments_xml(comments@),
{
    let ghost one = |c: Comment| Xml::El(comment_xml(c));
    let mut out: Vec<Node<'a>> = nothing();
    let mut i: usize = 0;
    assert(xmls(out@) =~= comments@.take(0).map_values(one));
    while i < comments.len()
        invariant
            i <= comments.len(),
            one == (|c: Comment| Xml::El(comment_xml(c))),
            xmls(out@) == comments@.take(i as int).map_values(one),
        decreases comments.len() - i,
    {
        put_elem(&mut out, write_comment(&comments[i]));
        assert(xmls(out@) =~= comments@.take(i + 1).map_values(one));
        i = i + 1;
    }
    assert(comments@.take(i as int) =~= comments@);
    open_root("w:comments").all(out)
}

/// An element with one value.
pub open spec fn val_xml(name: Seq<char>, value: Seq<char>) -> El {
    el(name).attr("w:val"@, value)
}

/// Builds an element with one value.
pub fn write_val<'a>(name: &'static str, value: &str) -> (r: Elem<'a>)
    ensures
        r@ == val_xml(name@, value@),
{
    open(name).attr("w:val", value)
}

/// One level of a numbering definition.
pub open spec fn level_xml(i: int, level: ListLevel) -> El {
    let e = el("w:lvl"@).attr("w:ilvl"@, dec(i)).elem(
        val_xml("w:start"@, dec(level.start as int)),
    ).elem(val_xml("w:numFmt"@, level.num_fmt.name()));
    let e = match level.pstyle {
        Some(style) => e.elem(val_xml("w:pStyle"@, style@)),
        None => e,
    };
    let e = e.elem(val_xml("w:lvlText"@, level.lvl_text@)).elem(val_xml("w:lvlJc"@, "left"@)).elem(
        el("w:pPr"@).elem(
            el("w:ind"@).attr("w:left"@, dec(level.ind_left as int)).attr(
                "w:hanging"@,
                dec(level.ind_hanging as int),
            ),
        ),
    );
    match level.bullet_font {
        Some(font) => e.elem(
            el("w:rPr"@).elem(
                el("w:rFonts"@).attr("w:ascii"@, font@).attr("w:hAnsi"@, font@).attr(
                    "w:cs"@,
                    font@,
                ),
            ),
        ),
        None => e,
    }
}

/// The levels of a numbering definition.
pub open spec fn levels_xml(levels: Seq<ListLevel>) -> Seq<Xml> {
    levels.map(|i: int, l: ListLevel| Xml::El(level_xml(i, l)))
}

/// A numbering definition.
pub open spec fn abstract_xml(a: AbstractNum) -> El {
    el("w:abstractNum"@).attr("w:abstractNumId"@, dec(a.id as int)).elem(
        val_xml("w:multiLevelType"@, a.multilevel.name()),
    ).all(levels_xml(a.levels@))
}

/// An instance of a numbering definition.
pub open spec fn instance_xml(n: NumInstance) -> El {
    let e = el("w:num"@).attr("w:numId"@, dec(n.num_id as int)).elem(
        val_xml("w:abstractNumId"@, dec(n.abstract_id as int)),
    );
    match n.start_override {
        Some(start) => e.elem(
            el("w:lvlOverride"@).attr("w:ilvl"@, "0"@).elem(
                val_xml("w:startOverride"@, dec(start as int)),
            ),
        ),
        None => e,
    }
}

/// The numbering part: the definitions, then their instances.
pub open spec fn numbering_xml(t: NumberingTable) -> El {
    el("w:numbering"@).attr("xmlns:w"@, ns::W@).all(
        t.abstracts@.map_values(|a: AbstractNum| Xml::El(abstract_xml(a))),
    ).all(t.nums@.map_values(|n: NumInstance| Xml::El(instance_xml(n))))
}

fn write_level<'a>(i: usize, level: &ListLevel) -> (r: Elem<'a>)
    ensures
        r@ == level_xml(i as int, *level),
{
    let e: Elem<'a> = open("w:lvl").attr("w:ilvl", dec_u64(i as u64).as_str()).elem(
        write_val("w:start", dec_u64(level.start).as_str()),
    ).elem(write_val("w:numFmt", level.num_fmt.as_str()));
    let e: Elem<'a> = match &level.pstyle {
        Some(style) => e.elem(write_val("w:pStyle", style.as_str())),
        None => e,
    };
    let e: Elem<'a> = e.elem(write_val("w:lvlText", level.lvl_text.as_str())).elem(
        write_val("w:lvlJc", "left"),
    ).elem(
        open("w:pPr").elem(
            open("w:ind").attr("w:left", dec_i64(level.ind_left as i64).as_str()).attr(
                "w:hanging",
                dec_i64(level.ind_hanging as i64).as_str(),
            ),
        ),
    );
    match &level.bullet_font {
        Some(font) => e.elem(
            open("w:rPr").elem(
                open("w:rFonts").attr("w:ascii", font.as_str()).attr(
                    "w:hAnsi",
                    font.as_str(),
                ).attr("w:cs", font.as_str()),
            ),
        ),
        None => e,
    }
}

fn write_levels<'a>(levels: &Vec<ListLevel>) -> (r: Vec<Node<'a>>)
    ensures
        xmls(r@) == levels_xml(levels@),
{
    let mut r: Vec<Node<'a>> = nothing();
    let mut i: usize = 0;
    assert(xmls(r@) =~= levels_xml(levels@.take(0)));
    while i < levels.len()
        invariant
            i <= levels.len(),
            xmls(r@) == levels_xml(levels@.take(i as int)),
        decreases levels.len() - i,
    {
        put_elem(&mut r, write_level(i, &levels[i]));
        assert(xmls(r@) =~= levels_xml(levels@.take(i + 1)));
        i = i + 1;
    }
    assert(levels@.take(i as int) =~= levels@);
    r
}

fn write_abstracts<'a>(abstracts: &Vec<AbstractNum>) -> (r: Vec<Node<'a>>)
    ensures
        xmls(r@) == abstracts@.map_values(|a: AbstractNum| Xml::El(abstract_xml(a))),
{
    let ghost one = |a: AbstractNum| Xml::El(abstract_xml(a));
    let mut r: Vec<Node<'a>> = nothing();
    let mut i: usize = 0;
    assert(xmls(r@) =~= abstracts@.take(0).map_values(one));
    while i < abstracts.len()
        invariant
            i <= abstracts.len(),
            one == (|a: AbstractNum| Xml::El(abstract_xml(a))),
            xmls(r@) == abstracts@.take(i as int).map_values(one),
        decreases abstracts.len() - i,
    {
        let a: &AbstractNum = &abstracts[i];
        put_elem(
            &mut r,
            open("w:abstractNum").attr("w:abstractNumId", dec_u64(a.id as u64).as_str()).elem(
                write_val("w:multiLevelType", a.multilevel.as_str()),
            ).all(write_levels(&a.levels)),
        );
        assert(xmls(r@) =~= abstracts@.take(i + 1).map_values(one));
        i = i + 1;
    }
    assert(abstracts@.take(i as int) =~= abstracts@);
    r
}

fn write_instance<'a>(n: &NumInstance) -> (r: Elem<'a>)
    ensures
        r@ == instance_xml(*n),
{
    let e: Elem<'a> = open("w:num").attr("w:numId", dec_u64(n.num_id as u64).as_str()).elem(
        write_val("w:abstractNumId", dec_u64(n.abstract_id as u64).as_str()),
    );
    match n.start_override {
        Some(start) => e.elem(
            open("w:lvlOverride").attr("w:ilvl", "0").elem(
                write_val("w:startOverride", dec_u64(start).as_str()),
            ),
        ),
        None => e,
    }
}

fn write_instances<'a>(nums: &Vec<NumInstance>) -> (r: Vec<Node<'a>>)
    ensures
        xmls(r@) == nums@.map_values(|n: NumInstance| Xml::El(instance_xml(n))),
{
    let ghost one = |n: NumInstance| Xml::El(instance_xml(n));
    let mut r: Vec<Node<'a>> = nothing();
    let mut i: usize = 0;
    assert(xmls(r@) =~= nums@.take(0).map_values(one));
    while i < nums.len()
        invariant
            i <= nums.len(),
            one == (|n: NumInstance| Xml::El(instance_xml(n))),
            xmls(r@) == nums@.take(i as int).map_values(one),
        decreases nums.len() - i,
    {
        put_elem(&mut r, write_instance(&nums[i]));
        assert(xmls(r@) =~= nums@.take(i + 1).map_values(one));
        i = i + 1;
    }
    assert(nums@.take(i as int) =~= nums@);
    r
}

/// Builds the numbering part.
pub fn build_numbering<'a>(t: &NumberingTable) -> (r: Elem<'a>)
    ensures
        r@ == numbering_xml(*t),
{
    open("w:numbering").attr("xmlns:w", ns::W).all(write_abstracts(&t.abstracts)).all(
        write_instances(&t.nums),
    )
}

} // verus!
