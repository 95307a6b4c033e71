//! What the markup of the parts of a document says, read back from what is
//! written.

use vstd::prelude::*;

use crate::dom::{
    AbstractNum, Comment, DocxDocument, Footnote, HdrFtrPart, ListLevel, MultiLevelType, NumFmt,
    NumInstance, NumberingTable,
};
use crate::encode::body::content_xml;
use crate::encode::parts::{
    abstract_xml, comment_xml, comments_xml, document_xml, footnote_xml, footnotes_xml, hdrftr_xml,
    instance_xml, level_xml, levels_xml, numbering_xml, root_xml,
};
use crate::encode::reading::{part, part_says, reading, says};
use crate::encode::section::sectpr_xml;
use crate::text::{dec, hex_rgb, lemma_dec_injective};
use crate::xml::{El, Xml, el};

verus! {

proof fn part_words()
    ensures
        "w:background"@ != "w:body"@,
        "w:hdr"@ != "w:ftr"@,
        "w:id"@ != "w:author"@,
        "w:id"@ != "w:date"@,
        "w:id"@ != "w:initials"@,
        "w:id"@ != "w:type"@,
        "w:author"@ != "w:date"@,
        "w:author"@ != "w:initials"@,
        "w:author"@ != "w:type"@,
        "w:date"@ != "w:initials"@,
        "w:date"@ != "w:type"@,
        "w:initials"@ != "w:type"@,
        "separator"@ != "continuationSeparator"@,
        "w:start"@ != "w:numFmt"@,
        "w:start"@ != "w:pStyle"@,
        "w:start"@ != "w:lvlText"@,
        "w:start"@ != "w:lvlJc"@,
        "w:start"@ != "w:pPr"@,
        "w:start"@ != "w:rPr"@,
        "w:numFmt"@ != "w:pStyle"@,
        "w:numFmt"@ != "w:lvlText"@,
        "w:numFmt"@ != "w:lvlJc"@,
        "w:numFmt"@ != "w:pPr"@,
        "w:numFmt"@ != "w:rPr"@,
        "w:pStyle"@ != "w:lvlText"@,
        "w:pStyle"@ != "w:lvlJc"@,
        "w:pStyle"@ != "w:pPr"@,
        "w:pStyle"@ != "w:rPr"@,
        "w:lvlText"@ != "w:lvlJc"@,
        "w:lvlText"@ != "w:pPr"@,
        "w:lvlText"@ != "w:rPr"@,
        "w:lvlJc"@ != "w:pPr"@,
        "w:lvlJc"@ != "w:rPr"@,
        "w:pPr"@ != "w:rPr"@,
        "w:left"@ != "w:hanging"@,
        "w:ascii"@ != "w:hAnsi"@,
        "w:ascii"@ != "w:cs"@,
        "w:hAnsi"@ != "w:cs"@,
        "w:abstractNumId"@ != "w:lvlOverride"@,
        "w:multiLevelType"@ != "w:lvl"@,
{
    reveal_strlit("w:background");
    reveal_strlit("w:body");
    reveal_strlit("w:hdr");
    reveal_strlit("w:ftr");
    reveal_strlit("w:id");
    reveal_strlit("w:author");
    reveal_strlit("w:date");
    reveal_strlit("w:initials");
    reveal_strlit("w:type");
    reveal_strlit("separator");
    reveal_strlit("continuationSeparator");
    reveal_strlit("w:start");
    reveal_strlit("w:numFmt");
    reveal_strlit("w:pStyle");
    reveal_strlit("w:lvlText");
    reveal_strlit("w:lvlJc");
    reveal_strlit("w:pPr");
    reveal_strlit("w:rPr");
    reveal_strlit("w:left");
    reveal_strlit("w:hanging");
    reveal_strlit("w:ascii");
    reveal_strlit("w:hAnsi");
    reveal_strlit("w:cs");
    reveal_strlit("w:abstractNumId");
    reveal_strlit("w:lvlOverride");
    reveal_strlit("w:multiLevelType");
    reveal_strlit("w:lvl");
    assert("w:background"@.len() == 12);
    assert("w:body"@.len() == 6);
    assert("w:hdr"@.len() == 5);
    assert("w:ftr"@.len() == 5);
    assert("w:id"@.len() == 4);
    assert("w:author"@.len() == 8);
    assert("w:date"@.len() == 6);
    assert("w:initials"@.len() == 10);
    assert("w:type"@.len() == 6);
    assert("separator"@.len() == 9);
    assert("continuationSeparator"@.len() == 21);
    assert("w:start"@.len() == 7);
    assert("w:numFmt"@.len() == 8);
    assert("w:pStyle"@.len() == 8);
    assert("w:lvlText"@.len() == 9);
    assert("w:lvlJc"@.len() == 7);
    assert("w:pPr"@.len() == 5);
    assert("w:rPr"@.len() == 5);
    assert("w:left"@.len() == 6);
    assert("w:hanging"@.len() == 9);
    assert("w:ascii"@.len() == 7);
    assert("w:hAnsi"@.len() == 7);
    assert("w:cs"@.len() == 4);
    assert("w:abstractNumId"@.len() == 15);
    assert("w:lvlOverride"@.len() == 13);
    assert("w:multiLevelType"@.len() == 16);
    assert("w:lvl"@.len() == 5);
    assert("w:hdr"@[2] != "w:ftr"@[2]);
    assert("w:date"@[2] != "w:type"@[2]);
    assert("w:start"@[2] != "w:lvlJc"@[2]);
    assert("w:numFmt"@[2] != "w:pStyle"@[2]);
    assert("w:pPr"@[2] != "w:rPr"@[2]);
    assert("w:ascii"@[2] != "w:hAnsi"@[2]);
}

proof fn format_words()
    ensures
        "bullet"@ != "decimal"@,
        "bullet"@ != "lowerLetter"@,
        "bullet"@ != "upperLetter"@,
        "bullet"@ != "lowerRoman"@,
        "bullet"@ != "upperRoman"@,
        "bullet"@ != "none"@,
        "decimal"@ != "lowerLetter"@,
        "decimal"@ != "upperLetter"@,
        "decimal"@ != "lowerRoman"@,
        "decimal"@ != "upperRoman"@,
        "decimal"@ != "none"@,
        "lowerLetter"@ != "upperLetter"@,
        "lowerLetter"@ != "lowerRoman"@,
        "lowerLetter"@ != "upperRoman"@,
        "lowerLetter"@ != "none"@,
        "upperLetter"@ != "lowerRoman"@,
        "upperLetter"@ != "upperRoman"@,
        "upperLetter"@ != "none"@,
        "lowerRoman"@ != "upperRoman"@,
        "lowerRoman"@ != "none"@,
        "upperRoman"@ != "none"@,
        "singleLevel"@ != "multilevel"@,
        "singleLevel"@ != "hybridMultilevel"@,
        "multilevel"@ != "hybridMultilevel"@,
{
    reveal_strlit("bullet");
    reveal_strlit("decimal");
    reveal_strlit("lowerLetter");
    reveal_strlit("upperLetter");
    reveal_strlit("lowerRoman");
    reveal_strlit("upperRoman");
    reveal_strlit("none");
    reveal_strlit("singleLevel");
    reveal_strlit("multilevel");
    reveal_strlit("hybridMultilevel");
    assert("bullet"@.len() == 6);
    assert("decimal"@.len() == 7);
    assert("lowerLetter"@.len() == 11);
    assert("upperLetter"@.len() == 11);
    assert("lowerRoman"@.len() == 10);
    assert("upperRoman"@.len() == 10);
    assert("none"@.len() == 4);
    assert("singleLevel"@.len() == 11);
    assert("multilevel"@.len() == 10);
    assert("hybridMultilevel"@.len() == 16);
    assert("lowerLetter"@[0] != "upperLetter"@[0]);
    assert("lowerRoman"@[0] != "upperRoman"@[0]);
}

proof fn lemma_root(name: Seq<char>)
    ensures
        root_xml(name).name == name,
        root_xml(name).children.len() == 0,
{
}

/// The main part states the page color, where there is one, and its body holds the
/// content and then the properties of the last section.
pub proof fn the_document_reads_back(d: DocxDocument)
    ensures
        document_xml(d).name == "w:document"@,
        part_says(document_xml(d), "w:background"@, "w:color"@) == (match d.background_color {
            Some(c) => Some(hex_rgb(c)),
            None => None,
        }),
        part(document_xml(d), "w:body"@) is Some,
        part(document_xml(d), "w:body"@).unwrap().children == content_xml(d.body@).push(
            Xml::El(sectpr_xml(d.sect)),
        ),
{
    broadcast use reading;

    part_words();
    lemma_root("w:document"@);
    assert(part(root_xml("w:document"@), "w:body"@) is None);
    assert(part(root_xml("w:document"@), "w:background"@) is None);
    assert(el("w:body"@).all(content_xml(d.body@)).elem(sectpr_xml(d.sect)).children
        =~= content_xml(d.body@).push(Xml::El(sectpr_xml(d.sect))));
}

/// A header is written as a header and a footer as a footer, with its content.
pub proof fn headers_and_footers_read_back(p: HdrFtrPart)
    ensures
        p.is_header <==> hdrftr_xml(p).name == "w:hdr"@,
        !p.is_header <==> hdrftr_xml(p).name == "w:ftr"@,
        hdrftr_xml(p).children == content_xml(p.blocks@),
{
    part_words();
    lemma_root("w:hdr"@);
    lemma_root("w:ftr"@);
    assert(hdrftr_xml(p).children =~= content_xml(p.blocks@));
}

/// The footnotes part holds the two separators, numbered minus one and zero, and
/// then every footnote in order, by its number and with its content.
pub proof fn footnotes_read_back(notes: Seq<Footnote>)
    ensures
        footnotes_xml(notes).name == "w:footnotes"@,
        footnotes_xml(notes).children.len() == notes.len() + 2,
        ({
            let s = footnotes_xml(notes).children[0];
            s is El && s->El_0.name == "w:footnote"@ && says(s->El_0, "w:id"@) == Some(dec(-1))
                && says(s->El_0, "w:type"@) == Some("separator"@)
        }),
        ({
            let s = footnotes_xml(notes).children[1];
            s is El && s->El_0.name == "w:footnote"@ && says(s->El_0, "w:id"@) == Some(dec(0))
                && says(s->El_0, "w:type"@) == Some("continuationSeparator"@)
        }),
        forall|i: int|
            #![trigger notes[i]]
            0 <= i < notes.len() ==> {
                let n = footnotes_xml(notes).children[i + 2];
                &&& n is El
                &&& n->El_0.name == "w:footnote"@
                &&& says(n->El_0, "w:id"@) == Some(dec(notes[i].id as int))
                &&& n->El_0.children == content_xml(notes[i].blocks@)
            },
{
    broadcast use reading;

    part_words();
    lemma_root("w:footnotes"@);
    assert forall|i: int|
        #![trigger notes[i]]
        0 <= i < notes.len() implies ({
        let n = footnotes_xml(notes).children[i + 2];
        &&& n is El
        &&& n->El_0.name == "w:footnote"@
        &&& says(n->El_0, "w:id"@) == Some(dec(notes[i].id as int))
        &&& n->El_0.children == content_xml(notes[i].blocks@)
    }) by {
        assert(footnotes_xml(notes).children[i + 2] == Xml::El(footnote_xml(notes[i])));
        assert(footnote_xml(notes[i]).children =~= content_xml(notes[i].blocks@));
    }
}

/// Every comment is written in order, with its number, its author, and its date and
/// its initials where it has them.
pub proof fn comments_read_back(comments: Seq<Comment>)
    ensures
        comments_xml(comments).name == "w:comments"@,
        comments_xml(comments).children.len() == comments.len(),
        forall|i: int|
            #![trigger comments[i]]
            0 <= i < comments.len() ==> {
                let c = comments_xml(comments).children[i];
                &&& c is El
                &&& c->El_0.name == "w:comment"@
                &&& says(c->El_0, "w:id"@) == Some(dec(comments[i].id as int))
                &&& comments[i].author is Some ==> says(c->El_0, "w:author"@) == Some(
                    comments[i].author.unwrap()@,
                )
                &&& says(c->El_0, "w:author"@) is Some
                &&& says(c->El_0, "w:date"@) == (match comments[i].date {
                    Some(date) => Some(date@),
                    None => None,
                })
                &&& says(c->El_0, "w:initials"@) == (match comments[i].initials {
                    Some(initials) => Some(initials@),
                    None => None,
                })
                &&& c->El_0.children == content_xml(comments[i].blocks@)
            },
{
    broadcast use reading;

    part_words();
    lemma_root("w:comments"@);
    assert forall|i: int|
        #![trigger comments[i]]
        0 <= i < comments.len() implies ({
        let c = comments_xml(comments).children[i];
        &&& c is El
        &&& c->El_0.name == "w:comment"@
        &&& says(c->El_0, "w:id"@) == Some(dec(comments[i].id as int))
        &&& comments[i].author is Some ==> says(c->El_0, "w:author"@) == Some(
            comments[i].author.unwrap()@,
        )
        &&& says(c->El_0, "w:author"@) is Some
        &&& says(c->El_0, "w:date"@) == (match comments[i].date {
            Some(date) => Some(date@),
            None => None,
        })
        &&& says(c->El_0, "w:initials"@) == (match comments[i].initials {
            Some(initials) => Some(initials@),
            None => None,
        })
        &&& c->El_0.children == content_xml(comments[i].blocks@)
    }) by {
        assert(comments_xml(comments).children[i] == Xml::El(comment_xml(comments[i])));
        assert(comment_xml(comments[i]).children =~= content_xml(comments[i].blocks@));
    }
}

/// The number format that a value names.
pub open spec fn read_format(value: Option<Seq<char>>) -> Option<NumFmt> {
    if value == Some("bullet"@) {
        Some(NumFmt::Bullet)
    } else if value == Some("decimal"@) {
        Some(NumFmt::Decimal)
    } else if value == Some("lowerLetter"@) {
        Some(NumFmt::LowerLetter)
    } else if value == Some("upperLetter"@) {
        Some(NumFmt::UpperLetter)
    } else if value == Some("lowerRoman"@) {
        Some(NumFmt::LowerRoman)
    } else if value == Some("upperRoman"@) {
        Some(NumFmt::UpperRoman)
    } else if value == Some("none"@) {
        Some(NumFmt::Off)
    } else {
        None
    }
}

/// A level of a numbering definition states its index, where it starts, its
/// format, its text, its indents, and the style and the font that it is bound to.
pub proof fn levels_read_back(i: int, level: ListLevel)
    ensures
        level_xml(i, level).name == "w:lvl"@,
        says(level_xml(i, level), "w:ilvl"@) == Some(dec(i)),
        part_says(level_xml(i, level), "w:start"@, "w:val"@) == Some(dec(level.start as int)),
        read_format(part_says(level_xml(i, level), "w:numFmt"@, "w:val"@)) == Some(level.num_fmt),
        part_says(level_xml(i, level), "w:pStyle"@, "w:val"@) == (match level.pstyle {
            Some(style) => Some(style@),
            None => None,
        }),
        part_says(level_xml(i, level), "w:lvlText"@, "w:val"@) == Some(level.lvl_text@),
        part(level_xml(i, level), "w:pPr"@) is Some,
        part_says(part(level_xml(i, level), "w:pPr"@).unwrap(), "w:ind"@, "w:left"@) == Some(
            dec(level.ind_left as int),
        ),
        part_says(part(level_xml(i, level), "w:pPr"@).unwrap(), "w:ind"@, "w:hanging"@) == Some(
            dec(level.ind_hanging as int),
        ),
        part(level_xml(i, level), "w:rPr"@) is Some <==> level.bullet_font is Some,
        level.bullet_font is Some ==> {
            let props = part(level_xml(i, level), "w:rPr"@).unwrap();
            &&& part_says(props, "w:rFonts"@, "w:ascii"@) == Some(level.bullet_font.unwrap()@)
            &&& part_says(props, "w:rFonts"@, "w:hAnsi"@) == Some(level.bullet_font.unwrap()@)
            &&& part_says(props, "w:rFonts"@, "w:cs"@) == Some(level.bullet_font.unwrap()@)
        },
{
    broadcast use reading;

    part_words();
    format_words();
    assert(crate::encode::parts::val_xml("w:start"@, dec(0)).name == "w:start"@);
}

/// The kind of numbering that a value names.
pub open spec fn read_multilevel(value: Option<Seq<char>>) -> Option<MultiLevelType> {
    if value == Some("singleLevel"@) {
        Some(MultiLevelType::SingleLevel)
    } else if value == Some("multilevel"@) {
        Some(MultiLevelType::Multilevel)
    } else if value == Some("hybridMultilevel"@) {
        Some(MultiLevelType::HybridMultilevel)
    } else {
        None
    }
}

/// A numbering definition states its number and its kind, and then its levels in
/// order.
pub proof fn definitions_read_back(a: AbstractNum)
    ensures
        abstract_xml(a).name == "w:abstractNum"@,
        says(abstract_xml(a), "w:abstractNumId"@) == Some(dec(a.id as int)),
        read_multilevel(part_says(abstract_xml(a), "w:multiLevelType"@, "w:val"@)) == Some(
            a.multilevel,
        ),
        abstract_xml(a).children.len() == a.levels@.len() + 1,
        forall|i: int|
            #![trigger a.levels@[i]]
            0 <= i < a.levels@.len() ==> abstract_xml(a).children[i + 1] == Xml::El(
                level_xml(i, a.levels@[i]),
            ),
{
    broadcast use reading;

    part_words();
    format_words();
    let e = el("w:abstractNum"@).attr("w:abstractNumId"@, dec(a.id as int)).elem(
        crate::encode::parts::val_xml("w:multiLevelType"@, a.multilevel.name()),
    );
    assert(abstract_xml(a).children =~= e.children + levels_xml(a.levels@));
    assert(crate::encode::parts::val_xml("w:multiLevelType"@, a.multilevel.name()).name
        == "w:multiLevelType"@);
}

/// An instance states its number, the definition that it follows, and where it
/// starts, if it starts elsewhere than its definition.
pub proof fn instances_read_back(n: NumInstance)
    ensures
        instance_xml(n).name == "w:num"@,
        says(instance_xml(n), "w:numId"@) == Some(dec(n.num_id as int)),
        part_says(instance_xml(n), "w:abstractNumId"@, "w:val"@) == Some(
            dec(n.abstract_id as int),
        ),
        part(instance_xml(n), "w:lvlOverride"@) is Some <==> n.start_override is Some,
        n.start_override is Some ==> {
            let over = part(instance_xml(n), "w:lvlOverride"@).unwrap();
            &&& says(over, "w:ilvl"@) == Some("0"@)
            &&& part_says(over, "w:startOverride"@, "w:val"@) == Some(
                dec(n.start_override.unwrap() as int),
            )
        },
{
    broadcast use reading;

    part_words();
    assert(crate::encode::parts::val_xml("w:abstractNumId"@, dec(0)).name == "w:abstractNumId"@);
    assert(crate::encode::parts::val_xml("w:startOverride"@, dec(0)).name == "w:startOverride"@);
}

/// The numbering part holds every definition in order and then every instance in
/// order.
pub proof fn numbering_reads_back(t: NumberingTable)
    ensures
        numbering_xml(t).name == "w:numbering"@,
        numbering_xml(t).children.len() == t.abstracts@.len() + t.nums@.len(),
        forall|i: int|
            #![trigger t.abstracts@[i]]
            0 <= i < t.abstracts@.len() ==> numbering_xml(t).children[i] == Xml::El(
                abstract_xml(t.abstracts@[i]),
            ),
        forall|i: int|
            #![trigger t.nums@[i]]
            0 <= i < t.nums@.len() ==> numbering_xml(t).children[t.abstracts@.len() + i]
                == Xml::El(instance_xml(t.nums@[i])),
{
}

/// Levels and instances that number differently are written differently.
pub proof fn different_numbering_is_written_differently(
    i: int,
    a: ListLevel,
    b: ListLevel,
    m: NumInstance,
    n: NumInstance,
)
    ensures
        level_xml(i, a) == level_xml(i, b) ==> a.num_fmt == b.num_fmt && a.lvl_text@
            == b.lvl_text@ && a.start == b.start && a.ind_left == b.ind_left && a.ind_hanging
            == b.ind_hanging,
        instance_xml(m) == instance_xml(n) ==> m.num_id == n.num_id && m.abstract_id
            == n.abstract_id && m.start_override == n.start_override,
{
    levels_read_back(i, a);
    levels_read_back(i, b);
    instances_read_back(m);
    instances_read_back(n);
    if level_xml(i, a) == level_xml(i, b) {
        lemma_dec_injective(a.start as int, b.start as int);
        lemma_dec_injective(a.ind_left as int, b.ind_left as int);
        lemma_dec_injective(a.ind_hanging as int, b.ind_hanging as int);
    }
    if instance_xml(m) == instance_xml(n) {
        lemma_dec_injective(m.num_id as int, n.num_id as int);
        lemma_dec_injective(m.abstract_id as int, n.abstract_id as int);
        if m.start_override is Some && n.start_override is Some {
            lemma_dec_injective(
                m.start_override.unwrap() as int,
                n.start_override.unwrap() as int,
            );
        }
    }
}

} // verus!
