//! Document properties and bibliography parts.

use vstd::prelude::*;

use crate::bibliography::{WordAuthor, WordPerson, WordSource};
use crate::dom::{Datetime, DocumentInfo};
use crate::ns;
use crate::text::{dec_nat, opt_str, push_u64};
use crate::xml::{El, Elem, Node, Xml, el, nothing, open, put_elem, xmls};

verus! {

/// An element with text.
pub open spec fn text_xml(name: Seq<char>, text: Seq<char>) -> El {
    el(name).text(text)
}

fn write_text<'a>(name: &'static str, text: &str) -> (r: Elem<'a>)
    ensures
        r@ == text_xml(name@, text@),
{
    open(name).text(text)
}

/// An element with an element of text added, where there is text.
pub open spec fn with_text(e: El, name: Seq<char>, text: Option<Seq<char>>) -> El {
    match text {
        Some(text) => e.elem(text_xml(name, text)),
        None => e,
    }
}

fn add_text<'a>(e: Elem<'a>, name: &'static str, text: &Option<String>) -> (r: Elem<'a>)
    ensures
        r@ == with_text(e@, name@, opt_str(*text)),
{
    match text {
        Some(text) => e.elem(write_text(name, text.as_str())),
        None => e,
    }
}

/// Texts with a separator between them.
pub open spec fn joined(texts: Seq<String>, separator: Seq<char>) -> Seq<char>
    decreases texts.len(),
{
    if texts.len() == 0 {
        Seq::empty()
    } else if texts.len() == 1 {
        texts[0]@
    } else {
        joined(texts.drop_last(), separator) + separator + texts.last()@
    }
}

fn join(texts: &Vec<String>, separator: &str) -> (r: String)
    ensures
        r@ == joined(texts@, separator@),
{
    let mut r: String = String::new();
    let mut i: usize = 0;
    while i < texts.len()
        invariant
            i <= texts.len(),
            r@ == joined(texts@.take(i as int), separator@),
        decreases texts.len() - i,
    {
        assert(texts@.take(i + 1).drop_last() =~= texts@.take(i as int));
        let ghost before = r@;
        if i > 0 {
            r.append(separator);
        }
        r.append(texts[i].as_str());
        assert(i == 0 ==> r@ =~= texts@[0]@);
        i = i + 1;
    }
    assert(texts@.take(i as int) =~= texts@);
    r
}

/// A number with zeros in front, up to a width.
pub open spec fn padded(n: nat, width: nat) -> Seq<char> {
    let digits = dec_nat(n);
    if digits.len() < width {
        Seq::new((width - digits.len()) as nat, |i: int| '0') + digits
    } else {
        digits
    }
}

fn push_padded(s: &mut String, n: u64, width: usize)
    ensures
        final(s)@ == old(s)@ + padded(n as nat, width as nat),
{
    let mut digits: String = String::new();
    push_u64(&mut digits, n);
    assert(digits@ =~= dec_nat(n as nat));
    let len: usize = digits.as_str().unicode_len();
    let mut missing: usize = if len < width {
        width - len
    } else {
        0
    };
    let ghost all = missing as nat;
    let ghost zeros = |i: int| '0';
    assert(s@ =~= old(s)@ + Seq::new(0, zeros));
    while missing > 0
        invariant
            missing <= all,
            zeros == (|i: int| '0'),
            s@ == old(s)@ + Seq::new((all - missing) as nat, zeros),
        decreases missing,
    {
        proof {
            reveal_strlit("0");
        }
        s.append("0");
        assert(s@ =~= old(s)@ + Seq::new((all - missing + 1) as nat, zeros));
        missing = missing - 1;
    }
    s.append(digits.as_str());
    assert(s@ =~= old(s)@ + padded(n as nat, width as nat));
}

/// A part of a date, or what it is where it is not known.
pub open spec fn known(part: Option<u8>, otherwise: u8) -> nat {
    match part {
        Some(n) => n as nat,
        None => otherwise as nat,
    }
}

/// A point in time of which at least the year is known. The sign of a year
/// counts for its width.
pub open spec fn timestamp(date: Datetime, year: int) -> Seq<char> {
    (if year < 0 {
        "-"@ + padded((-year) as nat, 3)
    } else {
        padded(year as nat, 4)
    }) + "-"@ + padded(known(date.month, 1), 2) + "-"@ + padded(known(date.day, 1), 2) + "T"@
        + padded(known(date.hour, 0), 2) + ":"@ + padded(known(date.minute, 0), 2) + ":"@ + padded(
        known(date.second, 0),
        2,
    ) + "Z"@
}

fn part_or(part: Option<u8>, otherwise: u8) -> (r: u64)
    ensures
        r == known(part, otherwise),
{
    match part {
        Some(n) => n as u64,
        None => otherwise as u64,
    }
}

/// Formats a point in time, if at least its year is known.
pub fn w3cdtf(date: &Datetime) -> (r: Option<String>)
    ensures
        match date.year {
            Some(year) => r matches Some(s) && s@ == timestamp(*date, year as int),
            None => r is None,
        },
{
    let year: i32 = match date.year {
        Some(year) => year,
        None => {
            return None;
        }
    };
    let mut s: String = String::new();
    if year < 0 {
        s.append("-");
        push_padded(&mut s, (-(year as i64)) as u64, 3);
    } else {
        push_padded(&mut s, year as u64, 4);
    }
    assert(s@ =~= (if year < 0 {
        "-"@ + padded((-year) as nat, 3)
    } else {
        padded(year as nat, 4)
    }));
    s.append("-");
    push_padded(&mut s, part_or(date.month, 1), 2);
    s.append("-");
    push_padded(&mut s, part_or(date.day, 1), 2);
    s.append("T");
    push_padded(&mut s, part_or(date.hour, 0), 2);
    s.append(":");
    push_padded(&mut s, part_or(date.minute, 0), 2);
    s.append(":");
    push_padded(&mut s, part_or(date.second, 0), 2);
    s.append("Z");
    Some(s)
}

/// A moment in the core properties.
pub open spec fn moment_xml(name: Seq<char>, at: Seq<char>) -> El {
    el(name).attr("xsi:type"@, "dcterms:W3CDTF"@).text(at)
}

/// The core properties. The authors also count as those who changed the document
/// last, and a new document is its first revision.
pub open spec fn core_xml(info: DocumentInfo) -> El {
    let e = el("cp:coreProperties"@).attr("xmlns:cp"@, ns::CP@).attr("xmlns:dc"@, ns::DC@).attr(
        "xmlns:dcterms"@,
        ns::DCTERMS@,
    ).attr("xmlns:dcmitype"@, ns::DCMITYPE@).attr("xmlns:xsi"@, ns::XSI@);
    let e = with_text(e, "dc:title"@, opt_str(info.title));
    let e = if info.author@.len() > 0 {
        let authors = joined(info.author@, "; "@);
        e.elem(text_xml("dc:creator"@, authors)).elem(text_xml("cp:lastModifiedBy"@, authors))
    } else {
        e
    };
    let e = with_text(e, "dc:description"@, opt_str(info.description));
    let e = if info.keywords@.len() > 0 {
        e.elem(text_xml("cp:keywords"@, joined(info.keywords@, ", "@)))
    } else {
        e
    };
    let e = e.elem(text_xml("cp:revision"@, "1"@));
    match info.date {
        Some(date) => match date.year {
            Some(year) => e.elem(
                moment_xml("dcterms:created"@, timestamp(date, year as int)),
            ).elem(moment_xml("dcterms:modified"@, timestamp(date, year as int))),
            None => e,
        },
        None => e,
    }
}

fn write_moment<'a>(name: &'static str, at: &str) -> (r: Elem<'a>)
    ensures
        r@ == moment_xml(name@, at@),
{
    open(name).attr("xsi:type", "dcterms:W3CDTF").text(at)
}

/// Builds the core properties.
pub fn build_core<'a>(info: &DocumentInfo) -> (r: Elem<'a>)
    ensures
        r@ == core_xml(*info),
{
    let e: Elem<'a> = open("cp:coreProperties").attr("xmlns:cp", ns::CP).attr(
        "xmlns:dc",
        ns::DC,
    ).attr("xmlns:dcterms", ns::DCTERMS).attr("xmlns:dcmitype", ns::DCMITYPE).attr(
        "xmlns:xsi",
        ns::XSI,
    );
    let e: Elem<'a> = add_text(e, "dc:title", &info.title);
    let e: Elem<'a> = if info.author.len() > 0 {
        let authors: String = join(&info.author, "; ");
        e.elem(write_text("dc:creator", authors.as_str())).elem(
            write_text("cp:lastModifiedBy", authors.as_str()),
        )
    } else {
        e
    };
    let e: Elem<'a> = add_text(e, "dc:description", &info.description);
    let e: Elem<'a> = if info.keywords.len() > 0 {
        e.elem(write_text("cp:keywords", join(&info.keywords, ", ").as_str()))
    } else {
        e
    };
    let e: Elem<'a> = e.elem(write_text("cp:revision", "1"));
    match &info.date {
        Some(date) => match w3cdtf(date) {
            Some(at) => e.elem(write_moment("dcterms:created", at.as_str())).elem(
                write_moment("dcterms:modified", at.as_str()),
            ),
            None => e,
        },
        None => e,
    }
}

/// The extended properties. A consumer counts pages and words itself.
pub open spec fn app_xml() -> El {
    el("Properties"@).attr("xmlns"@, ns::EXTENDED_PROPS@).elem(
        text_xml("Template"@, "Normal.dotm"@),
    ).elem(text_xml("TotalTime"@, "0"@)).elem(text_xml("Pages"@, "1"@)).elem(
        text_xml("Words"@, "0"@),
    ).elem(text_xml("Characters"@, "0"@)).elem(text_xml("Application"@, "Typst"@)).elem(
        text_xml("DocSecurity"@, "0"@),
    ).elem(text_xml("Lines"@, "0"@)).elem(text_xml("Paragraphs"@, "0"@)).elem(
        text_xml("ScaleCrop"@, "false"@),
    ).elem(text_xml("Company"@, ""@)).elem(text_xml("LinksUpToDate"@, "false"@)).elem(
        text_xml("CharactersWithSpaces"@, "0"@),
    ).elem(text_xml("SharedDoc"@, "false"@)).elem(text_xml("HyperlinksChanged"@, "false"@)).elem(
        text_xml("AppVersion"@, "16.0000"@),
    )
}

/// Builds the extended properties.
pub fn build_app<'a>() -> (r: Elem<'a>)
    ensures
        r@ == app_xml(),
{
    open("Properties").attr("xmlns", ns::EXTENDED_PROPS).elem(
        write_text("Template", "Normal.dotm"),
    ).elem(write_text("TotalTime", "0")).elem(write_text("Pages", "1")).elem(
        write_text("Words", "0"),
    ).elem(write_text("Characters", "0")).elem(write_text("Application", "Typst")).elem(
        write_text("DocSecurity", "0"),
    ).elem(write_text("Lines", "0")).elem(write_text("Paragraphs", "0")).elem(
        write_text("ScaleCrop", "false"),
    ).elem(write_text("Company", "")).elem(write_text("LinksUpToDate", "false")).elem(
        write_text("CharactersWithSpaces", "0"),
    ).elem(write_text("SharedDoc", "false")).elem(write_text("HyperlinksChanged", "false")).elem(
        write_text("AppVersion", "16.0000"),
    )
}

/// The custom properties: a second carrier of the fidelity manifest, which
/// survives consumers that drop custom parts.
pub open spec fn custom_properties_xml(manifest: Seq<char>) -> El {
    el("Properties"@).attr("xmlns"@, ns::CUSTOM_PROPERTIES@).attr(
        "xmlns:vt"@,
        ns::DOC_PROPS_VTYPES@,
    ).elem(
        el("property"@).attr("fmtid"@, "{D5CDD505-2E9C-101B-9397-08002B2CF9AE}"@).attr(
            "pid"@,
            "2"@,
        ).attr("name"@, "TypstFidelityManifestV1"@).elem(text_xml("vt:lpwstr"@, manifest)),
    )
}

/// Builds the custom properties.
pub fn build_custom_properties<'a>(manifest: &str) -> (r: Elem<'a>)
    ensures
        r@ == custom_properties_xml(manifest@),
{
    open("Properties").attr("xmlns", ns::CUSTOM_PROPERTIES).attr(
        "xmlns:vt",
        ns::DOC_PROPS_VTYPES,
    ).elem(
        open("property").attr("fmtid", "{D5CDD505-2E9C-101B-9397-08002B2CF9AE}").attr(
            "pid",
            "2",
        ).attr("name", "TypstFidelityManifestV1").elem(write_text("vt:lpwstr", manifest)),
    )
}

/// The lossless bibliography, in a part of its own.
pub open spec fn typst_bibliography_xml(bib: Seq<char>) -> El {
    el("typstBibliography"@).attr("xmlns"@, ns::TYPST_BIBLIOGRAPHY@).elem(
        text_xml("biblatex"@, bib),
    )
}

/// Builds the part of the lossless bibliography.
pub fn build_typst_bibliography<'a>(bib: &str) -> (r: Elem<'a>)
    ensures
        r@ == typst_bibliography_xml(bib@),
{
    open("typstBibliography").attr("xmlns", ns::TYPST_BIBLIOGRAPHY).elem(
        write_text("biblatex", bib),
    )
}

/// A person among the authors of a source.
pub open spec fn person_xml(p: WordPerson) -> El {
    with_text(
        el("b:Person"@).elem(text_xml("b:Last"@, p.last@)),
        "b:First"@,
        opt_str(p.first),
    )
}

/// The author of a source, inside the two elements that the format nests.
pub open spec fn nested_author(e: El) -> El {
    el("b:Author"@).elem(el("b:Author"@).elem(e))
}

/// A source with its author.
pub open spec fn with_author(e: El, author: WordAuthor) -> El {
    match author {
        WordAuthor::Absent => e,
        WordAuthor::Corporate(name) => e.elem(
            nested_author(text_xml("b:Corporate"@, name@)),
        ),
        WordAuthor::Persons(persons) => e.elem(
            nested_author(
                el("b:NameList"@).all(
                    persons@.map_values(|p: WordPerson| Xml::El(person_xml(p))),
                ),
            ),
        ),
    }
}

/// One source.
pub open spec fn source_xml(s: WordSource) -> El {
    let e = el("b:Source"@).elem(text_xml("b:Tag"@, s.tag@)).elem(
        text_xml("b:SourceType"@, s.source_type@),
    ).elem(text_xml("b:Guid"@, s.guid@));
    let e = with_author(e, s.author);
    let e = with_text(e, "b:Title"@, opt_str(s.title));
    let e = with_text(e, "b:Year"@, opt_str(s.year));
    let e = with_text(e, "b:Publisher"@, opt_str(s.publisher));
    let e = with_text(e, "b:City"@, opt_str(s.city));
    let e = with_text(e, "b:JournalName"@, opt_str(s.journal_name));
    let e = with_text(e, "b:Volume"@, opt_str(s.volume));
    let e = with_text(e, "b:Issue"@, opt_str(s.issue));
    let e = with_text(e, "b:Pages"@, opt_str(s.pages));
    with_text(e, "b:URL"@, opt_str(s.url))
}

/// The sources part.
pub open spec fn sources_xml(sources: Seq<WordSource>) -> El {
    el("b:Sources"@).attr("xmlns:b"@, ns::B@).attr("xmlns"@, ns::B@).attr(
        "SelectedStyle"@,
        "\\APA.XSL"@,
    ).attr("StyleName"@, "APA"@).all(sources.map_values(|s: WordSource| Xml::El(source_xml(s))))
}

fn write_person<'a>(p: &WordPerson) -> (r: Elem<'a>)
    ensures
        r@ == person_xml(*p),
{
    add_text(
        open("b:Person").elem(write_text("b:Last", p.last.as_str())),
        "b:First",
        &p.first,
    )
}

fn write_persons<'a>(persons: &Vec<WordPerson>) -> (r: Vec<Node<'a>>)
    ensures
        xmls(r@) == persons@.map_values(|p: WordPerson| Xml::El(person_xml(p))),
{
    let ghost one = |p: WordPerson| Xml::El(person_xml(p));
    let mut r: Vec<Node<'a>> = nothing();
    let mut i: usize = 0;
    assert(xmls(r@) =~= persons@.take(0).map_values(one));
    while i < persons.len()
        invariant
            i <= persons.len(),
            one == (|p: WordPerson| Xml::El(person_xml(p))),
            xmls(r@) == persons@.take(i as int).map_values(one),
        decreases persons.len() - i,
    {
        put_elem(&mut r, write_person(&persons[i]));
        assert(xmls(r@) =~= persons@.take(i + 1).map_values(one));
        i = i + 1;
    }
    assert(persons@.take(i as int) =~= persons@);
    r
}

fn write_nested_author<'a>(e: Elem<'a>) -> (r: Elem<'a>)
    ensures
        r@ == nested_author(e@),
{
    open("b:Author").elem(open("b:Author").elem(e))
}

fn build_author<'a>(e: Elem<'a>, author: &WordAuthor) -> (r: Elem<'a>)
    ensures
        r@ == with_author(e@, *author),
{
    match author {
        WordAuthor::Absent => e,
        WordAuthor::Corporate(name) => e.elem(
            write_nested_author(write_text("b:Corporate", name.as_str())),
        ),
        WordAuthor::Persons(persons) => e.elem(
            write_nested_author(open("b:NameList").all(write_persons(persons))),
        ),
    }
}

fn build_source<'a>(s: &WordSource) -> (r: Elem<'a>)
    ensures
        r@ == source_xml(*s),
{
    let e: Elem<'a> = open("b:Source").elem(write_text("b:Tag", s.tag.as_str())).elem(
        write_text("b:SourceType", s.source_type),
    ).elem(write_text("b:Guid", s.guid.as_str()));
    let e: Elem<'a> = build_author(e, &s.author);
    let e: Elem<'a> = add_text(e, "b:Title", &s.title);
    let e: Elem<'a> = add_text(e, "b:Year", &s.year);
    let e: Elem<'a> = add_text(e, "b:Publisher", &s.publisher);
    let e: Elem<'a> = add_text(e, "b:City", &s.city);
    let e: Elem<'a> = add_text(e, "b:JournalName", &s.journal_name);
    let e: Elem<'a> = add_text(e, "b:Volume", &s.volume);
    let e: Elem<'a> = add_text(e, "b:Issue", &s.issue);
    let e: Elem<'a> = add_text(e, "b:Pages", &s.pages);
    add_text(e, "b:URL", &s.url)
}

/// Builds the sources part.
pub fn build_word_sources<'a>(sources: &Vec<WordSource>) -> (r: Elem<'a>)
    ensures
        r@ == sources_xml(sources@),
{
    let ghost one = |s: WordSource| Xml::El(source_xml(s));
    let mut out: Vec<Node<'a>> = nothing();
    let mut i: usize = 0;
    assert(xmls(out@) =~= sources@.take(0).map_values(one));
    while i < sources.len()
        invariant
            i <= sources.len(),
            one == (|s: WordSource| Xml::El(source_xml(s))),
            xmls(out@) == sources@.take(i as int).map_values(one),
        decreases sources.len() - i,
    {
        put_elem(&mut out, build_source(&sources[i]));
        assert(xmls(out@) =~= sources@.take(i + 1).map_values(one));
        i = i + 1;
    }
    assert(sources@.take(i as int) =~= sources@);
    open("b:Sources").attr("xmlns:b", ns::B).attr("xmlns", ns::B).attr(
        "SelectedStyle",
        "\\APA.XSL",
    ).attr("StyleName", "APA").all(out)
}

/// The part that tells consumers that the sources part holds a bibliography.
pub open spec fn item_props_xml(guid: Seq<char>) -> El {
    el("ds:datastoreItem"@).attr("ds:itemID"@, guid).attr("xmlns:ds"@, ns::DS@).elem(
        el("ds:schemaRefs"@).elem(el("ds:schemaRef"@).attr("ds:uri"@, ns::B@)),
    )
}

/// Builds the part that tells consumers what the sources part holds.
pub fn build_item_props<'a>(guid: &str) -> (r: Elem<'a>)
    ensures
        r@ == item_props_xml(guid@),
{
    open("ds:datastoreItem").attr("ds:itemID", guid).attr("xmlns:ds", ns::DS).elem(
        open("ds:schemaRefs").elem(open("ds:schemaRef").attr("ds:uri", ns::B)),
    )
}

} // verus!
