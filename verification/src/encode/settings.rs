//! The settings part.

use vstd::prelude::*;
use vstd::utf8::encode_utf8;

use crate::dom::DocxDocument;
use crate::encode::parts::{val_xml, write_val};
use crate::ns;
use crate::text::{hex8, hex_u32};
use crate::xml::{El, Elem, Node, Owed, OwedXml, Xml, el, open};

verus! {

/// One step of a running fingerprint.
pub open spec fn fnv_step(h: u32, b: u8) -> u32 {
    (((h ^ (b as u32)) as int * 0x0100_0193) % 0x1_0000_0000) as u32
}

/// A fingerprint after more bytes.
pub open spec fn fnv(h: u32, bytes: Seq<u8>) -> u32
    decreases bytes.len(),
{
    if bytes.len() == 0 {
        h
    } else {
        fnv_step(fnv(h, bytes.drop_last()), bytes.last())
    }
}

/// The four lowest bytes of a number, the lowest first.
pub open spec fn low_bytes(n: int) -> Seq<u8> {
    seq![
        (n % 256) as u8,
        ((n / 256) % 256) as u8,
        ((n / 65536) % 256) as u8,
        ((n / 16777216) % 256) as u8,
    ]
}

/// The bytes that a document is told apart by: its title, the number of its
/// blocks and the depth of its headings.
pub open spec fn fingerprint_bytes(d: DocxDocument) -> Seq<u8> {
    (match d.info.title {
        Some(title) => encode_utf8(title@),
        None => Seq::empty(),
    }) + low_bytes(d.body@.len() as int) + seq![d.max_heading_level]
}

proof fn lemma_fnv_add(h: u32, a: Seq<u8>, b: Seq<u8>)
    ensures
        fnv(h, a + b) == fnv(fnv(h, a), b),
    decreases b.len(),
{
    if b.len() == 0 {
        assert(a + b =~= a);
    } else {
        assert((a + b).drop_last() =~= a + b.drop_last());
        lemma_fnv_add(h, a, b.drop_last());
    }
}

fn feed(h: u32, bytes: &[u8]) -> (r: u32)
    ensures
        r == fnv(h, bytes@),
{
    let mut r: u32 = h;
    let mut i: usize = 0;
    while i < bytes.len()
        invariant
            i <= bytes.len(),
            r == fnv(h, bytes@.take(i as int)),
        decreases bytes.len() - i,
    {
        assert(bytes@.take(i + 1).drop_last() =~= bytes@.take(i as int));
        let b: u8 = bytes[i];
        let mixed: u32 = r ^ (b as u32);
        r = mixed.wrapping_mul(0x0100_0193);
        i = i + 1;
    }
    assert(bytes@.take(i as int) =~= bytes@);
    r
}

/// A fingerprint of the document, which only has to be stable and to differ
/// between most documents.
pub fn doc_fingerprint(d: &DocxDocument) -> (r: u32)
    ensures
        r == fnv(0x811C_9DC5, fingerprint_bytes(*d)),
{
    let mut h: u32 = 0x811C_9DC5;
    let ghost mut fed: Seq<u8> = Seq::empty();
    if let Some(title) = &d.info.title {
        h = feed(h, title.as_str().as_bytes());
        proof {
            fed = encode_utf8(title@);
        }
    }
    let n: u64 = d.body.len() as u64;
    let tail: [u8; 5] = [
        (n % 256) as u8,
        ((n / 256) % 256) as u8,
        ((n / 65536) % 256) as u8,
        ((n / 16777216) % 256) as u8,
        d.max_heading_level,
    ];
    let r: u32 = feed(h, tail.as_slice());
    proof {
        lemma_fnv_add(0x811C_9DC5, fed, tail@);
        assert(fed + tail@ =~= fingerprint_bytes(*d));
    }
    r
}

/// A compatibility setting.
pub open spec fn compat_xml(name: Seq<char>, val: Seq<char>) -> El {
    el("w:compatSetting"@).attr("w:name"@, name).attr(
        "w:uri"@,
        "http://schemas.microsoft.com/office/word"@,
    ).attr("w:val"@, val)
}

/// The compatibility settings that open the document as a native one.
pub open spec fn compats_xml() -> El {
    el("w:compat"@).elem(compat_xml("compatibilityMode"@, "15"@)).elem(
        compat_xml("overrideTableStyleFontSizeAndJustification"@, "1"@),
    ).elem(compat_xml("enableOpenTypeFeatures"@, "1"@)).elem(
        compat_xml("doNotFlipMirrorIndents"@, "1"@),
    ).elem(compat_xml("differentiateMultirowTableHeaders"@, "1"@))
}

/// The lines that separate notes of a kind.
pub open spec fn note_props_xml(name: Seq<char>, note: Seq<char>) -> El {
    el(name).elem(el(note).attr("w:id"@, "-1"@)).elem(el(note).attr("w:id"@, "0"@))
}

/// A math default.
pub open spec fn math_val_xml(name: Seq<char>, val: Seq<char>) -> El {
    el(name).attr("m:val"@, val)
}

/// The math defaults.
pub open spec fn math_props_xml() -> El {
    el("m:mathPr"@).elem(math_val_xml("m:mathFont"@, "Cambria Math"@)).elem(
        math_val_xml("m:brkBin"@, "before"@),
    ).elem(math_val_xml("m:brkBinSub"@, "--"@)).elem(math_val_xml("m:smallFrac"@, "0"@)).elem(
        el("m:dispDef"@),
    ).elem(math_val_xml("m:lMargin"@, "0"@)).elem(math_val_xml("m:rMargin"@, "0"@)).elem(
        math_val_xml("m:defJc"@, "centerGroup"@),
    ).elem(math_val_xml("m:wrapIndent"@, "1440"@)).elem(math_val_xml("m:intLim"@, "subSup"@)).elem(
        math_val_xml("m:naryLim"@, "undOvr"@),
    )
}

/// Which theme colors the color slots stand for.
pub open spec fn color_mapping_xml() -> El {
    el("w:clrSchemeMapping"@).attr("w:bg1"@, "light1"@).attr("w:t1"@, "dark1"@).attr(
        "w:bg2"@,
        "light2"@,
    ).attr("w:t2"@, "dark2"@).attr("w:accent1"@, "accent1"@).attr("w:accent2"@, "accent2"@).attr(
        "w:accent3"@,
        "accent3"@,
    ).attr("w:accent4"@, "accent4"@).attr("w:accent5"@, "accent5"@).attr(
        "w:accent6"@,
        "accent6"@,
    ).attr("w:hyperlink"@, "hyperlink"@).attr("w:followedHyperlink"@, "followedHyperlink"@)
}

/// An element without content, where it applies.
pub open spec fn flag_xml(e: El, name: Seq<char>, applies: bool) -> El {
    if applies {
        e.elem(el(name))
    } else {
        e
    }
}

/// The settings up to the notes, in the order that the format fixes.
pub open spec fn page_settings_xml(d: DocxDocument) -> El {
    let e = el("w:settings"@).attr("xmlns:w"@, ns::W@).attr("xmlns:m"@, ns::M@).attr(
        "xmlns:o"@,
        ns::O@,
    ).attr("xmlns:v"@, ns::V@).attr("xmlns:w14"@, ns::W14@).attr("xmlns:mc"@, ns::MC@).attr(
        "mc:Ignorable"@,
        "w14"@,
    ).elem(el("w:zoom"@).attr("w:percent"@, "100"@)).elem(
        el("w:proofState"@).attr("w:spelling"@, "clean"@).attr("w:grammar"@, "clean"@),
    );
    let e = flag_xml(e, "w:mirrorMargins"@, d.mirror_margins);
    let e = flag_xml(e, "w:rtlGutter"@, d.rtl_gutter);
    let e = e.elem(val_xml("w:defaultTabStop"@, "720"@));
    let e = flag_xml(e, "w:autoHyphenation"@, d.hyphenate);
    let e = flag_xml(e, "w:evenAndOddHeaders"@, d.even_and_odd_headers);
    e.elem(val_xml("w:characterSpacingControl"@, "doNotCompress"@)).child(
        Xml::Raw(
            "<w:hdrShapeDefaults><o:shapedefaults v:ext=\"edit\" spidmax=\"1026\"/></w:hdrShapeDefaults>"@,
        ),
    ).elem(note_props_xml("w:footnotePr"@, "w:footnote"@)).elem(
        note_props_xml("w:endnotePr"@, "w:endnote"@),
    )
}

/// The settings part.
pub open spec fn settings_xml(d: DocxDocument) -> El {
    let id = hex8(fnv(0x811C_9DC5, fingerprint_bytes(d)));
    let lang = match d.text_defaults.lang {
        Some(lang) => lang@,
        None => "en-US"@,
    };
    page_settings_xml(d).elem(compats_xml()).elem(
        el("w:rsids"@).elem(val_xml("w:rsidRoot"@, id)).elem(val_xml("w:rsid"@, id)),
    ).elem(math_props_xml()).owed(
        OwedXml::Language { elem: "w:themeFontLang"@, lang },
    ).elem(color_mapping_xml()).child(
        Xml::Raw(
            "<w:shapeDefaults><o:shapedefaults v:ext=\"edit\" spidmax=\"1026\"/><o:shapelayout v:ext=\"edit\"><o:idmap v:ext=\"edit\" data=\"1\"/></o:shapelayout></w:shapeDefaults>"@,
        ),
    ).elem(val_xml("w:decimalSymbol"@, "."@)).elem(val_xml("w:listSeparator"@, ","@)).elem(
        el("w14:docId"@).attr("w14:val"@, id),
    )
}

fn write_compat<'a>(name: &str, val: &str) -> (r: Elem<'a>)
    ensures
        r@ == compat_xml(name@, val@),
{
    open("w:compatSetting").attr("w:name", name).attr(
        "w:uri",
        "http://schemas.microsoft.com/office/word",
    ).attr("w:val", val)
}

fn write_compats<'a>() -> (r: Elem<'a>)
    ensures
        r@ == compats_xml(),
{
    open("w:compat").elem(write_compat("compatibilityMode", "15")).elem(
        write_compat("overrideTableStyleFontSizeAndJustification", "1"),
    ).elem(write_compat("enableOpenTypeFeatures", "1")).elem(
        write_compat("doNotFlipMirrorIndents", "1"),
    ).elem(write_compat("differentiateMultirowTableHeaders", "1"))
}

fn write_note_props<'a>(name: &'static str, note: &'static str) -> (r: Elem<'a>)
    ensures
        r@ == note_props_xml(name@, note@),
{
    open(name).elem(open(note).attr("w:id", "-1")).elem(open(note).attr("w:id", "0"))
}

fn write_math_val<'a>(name: &'static str, val: &str) -> (r: Elem<'a>)
    ensures
        r@ == math_val_xml(name@, val@),
{
    open(name).attr("m:val", val)
}

fn write_math_props<'a>() -> (r: Elem<'a>)
    ensures
        r@ == math_props_xml(),
{
    open("m:mathPr").elem(write_math_val("m:mathFont", "Cambria Math")).elem(
        write_math_val("m:brkBin", "before"),
    ).elem(write_math_val("m:brkBinSub", "--")).elem(write_math_val("m:smallFrac", "0")).elem(
        open("m:dispDef"),
    ).elem(write_math_val("m:lMargin", "0")).elem(write_math_val("m:rMargin", "0")).elem(
        write_math_val("m:defJc", "centerGroup"),
    ).elem(write_math_val("m:wrapIndent", "1440")).elem(write_math_val("m:intLim", "subSup")).elem(
        write_math_val("m:naryLim", "undOvr"),
    )
}

fn write_color_mapping<'a>() -> (r: Elem<'a>)
    ensures
        r@ == color_mapping_xml(),
{
    open("w:clrSchemeMapping").attr("w:bg1", "light1").attr("w:t1", "dark1").attr(
        "w:bg2",
        "light2",
    ).attr("w:t2", "dark2").attr("w:accent1", "accent1").attr("w:accent2", "accent2").attr(
        "w:accent3",
        "accent3",
    ).attr("w:accent4", "accent4").attr("w:accent5", "accent5").attr(
        "w:accent6",
        "accent6",
    ).attr("w:hyperlink", "hyperlink").attr("w:followedHyperlink", "followedHyperlink")
}

fn write_flag<'a>(e: Elem<'a>, name: &'static str, applies: bool) -> (r: Elem<'a>)
    ensures
        r@ == flag_xml(e@, name@, applies),
{
    if applies {
        e.elem(open(name))
    } else {
        e
    }
}

fn write_page_settings<'a>(d: &DocxDocument) -> (r: Elem<'a>)
    ensures
        r@ == page_settings_xml(*d),
{
    let e: Elem<'a> = open("w:settings").attr("xmlns:w", ns::W).attr("xmlns:m", ns::M).attr(
        "xmlns:o",
        ns::O,
    ).attr("xmlns:v", ns::V).attr("xmlns:w14", ns::W14).attr("xmlns:mc", ns::MC).attr(
        "mc:Ignorable",
        "w14",
    ).elem(open("w:zoom").attr("w:percent", "100")).elem(
        open("w:proofState").attr("w:spelling", "clean").attr("w:grammar", "clean"),
    );
    let e: Elem<'a> = write_flag(e, "w:mirrorMargins", d.mirror_margins);
    let e: Elem<'a> = write_flag(e, "w:rtlGutter", d.rtl_gutter);
    let e: Elem<'a> = e.elem(write_val("w:defaultTabStop", "720"));
    let e: Elem<'a> = write_flag(e, "w:autoHyphenation", d.hyphenate);
    let e: Elem<'a> = write_flag(e, "w:evenAndOddHeaders", d.even_and_odd_headers);
    e.elem(write_val("w:characterSpacingControl", "doNotCompress")).child(
        Node::Raw(
            "<w:hdrShapeDefaults><o:shapedefaults v:ext=\"edit\" spidmax=\"1026\"/></w:hdrShapeDefaults>".to_owned(),
        ),
    ).elem(write_note_props("w:footnotePr", "w:footnote")).elem(
        write_note_props("w:endnotePr", "w:endnote"),
    )
}

/// Builds the settings part.
pub fn build_settings<'a>(d: &'a DocxDocument) -> (r: Elem<'a>)
    ensures
        r@ == settings_xml(*d),
{
    let id: String = hex_u32(doc_fingerprint(d));
    let lang: &'a str = match &d.text_defaults.lang {
        Some(lang) => lang.as_str(),
        None => "en-US",
    };
    write_page_settings(d).elem(write_compats()).elem(
        open("w:rsids").elem(write_val("w:rsidRoot", id.as_str())).elem(
            write_val("w:rsid", id.as_str()),
        ),
    ).elem(write_math_props()).owed(Owed::Language { elem: "w:themeFontLang", lang }).elem(
        write_color_mapping(),
    ).child(
        Node::Raw(
            "<w:shapeDefaults><o:shapedefaults v:ext=\"edit\" spidmax=\"1026\"/><o:shapelayout v:ext=\"edit\"><o:idmap v:ext=\"edit\" data=\"1\"/></o:shapelayout></w:shapeDefaults>".to_owned(),
        ),
    ).elem(write_val("w:decimalSymbol", ".")).elem(write_val("w:listSeparator", ",")).elem(
        open("w14:docId").attr("w14:val", id.as_str()),
    )
}

} // verus!
