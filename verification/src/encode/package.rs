//! Which parts the package holds and how they refer to each other.

use vstd::prelude::*;

use crate::dom::{DocxDocument, EmbeddedFontProgram, HdrFtrPart};
use crate::encode::fonts::{
    Embedding, EmbeddingLook, collect_font_rels, embed_fonts, embedding_looks, embeddings,
    font_file, font_rels, font_target, obfuscate, obfuscated,
};
use crate::encode::metadata::{
    app_xml, build_app, build_core, build_custom_properties, build_item_props,
    build_typst_bibliography, build_word_sources, core_xml, custom_properties_xml, item_props_xml,
    sources_xml, typst_bibliography_xml,
};
use crate::encode::parts::{
    build_comments, build_document, build_endnotes, build_footnotes, build_hdrftr,
    build_numbering, comments_xml, document_xml, endnotes_xml, footnotes_xml, hdrftr_xml,
    numbering_xml,
};
use crate::encode::settings::{build_settings, settings_xml};
use crate::ns;
use crate::rels::{Rel, RelMode, RelSpec, Rels, rel_id, with_rel};
use crate::text::{concat2, cut_prefix, stands_at, str_eq};
use crate::xml::{El, Elem};

verus! {

/// Settings for the export.
#[derive(Debug, Copy, Clone, PartialEq, Eq, Structural, Hash)]
pub struct DocxOptions {
    /// Whether to pretty-print the parts.
    pub pretty: bool,
}

impl Default for DocxOptions {
    fn default() -> (r: Self)
        ensures
            r == (DocxOptions { pretty: false }),
    {
        DocxOptions { pretty: false }
    }
}

/// The number that the identities of a header part's paragraphs start from.
pub open spec fn header_lane(i: int) -> int {
    0x1000_0000 + i * 0x10_0000
}

/// The number that the identities of a footer part's paragraphs start from.
pub open spec fn footer_lane(i: int) -> int {
    0x4000_0000 + i * 0x10_0000
}

/// The number that the identities of a note's paragraphs start from.
pub const NOTES_LANE: u32 = 0x7000_0000;

/// The content of a part.
pub enum PartBody<'a> {
    /// A tree, and the number that the identities of its paragraphs start from.
    Tree { root: Elem<'a>, para_base: u32 },
    /// The styles of the document.
    Styles,
    /// The theme of the document.
    Theme,
    /// The fonts of the document, and those of them that are embedded.
    FontTable { fonts: Vec<String>, embedded: Vec<Embedding> },
    /// An obfuscated font program.
    Font(Vec<u8>),
    /// The settings for the web.
    WebSettings,
    /// Text.
    Text(&'a str),
}

/// The content of a part, by value.
pub enum BodyLook {
    Tree { root: El, para_base: u32 },
    Styles,
    Theme,
    FontTable { fonts: Seq<Seq<char>>, embedded: Seq<EmbeddingLook> },
    Font(Seq<u8>),
    WebSettings,
    Text(Seq<char>),
}

/// Font names, one by one.
pub open spec fn font_list(fonts: Seq<String>) -> Seq<Seq<char>> {
    fonts.map_values(|f: String| f@)
}

impl<'a> PartBody<'a> {
    pub open spec fn view(self) -> BodyLook {
        match self {
            PartBody::Tree { root, para_base } => BodyLook::Tree { root: root@, para_base },
            PartBody::Styles => BodyLook::Styles,
            PartBody::Theme => BodyLook::Theme,
            PartBody::FontTable { fonts, embedded } => BodyLook::FontTable {
                fonts: font_list(fonts@),
                embedded: embedding_looks(embedded@),
            },
            PartBody::Font(data) => BodyLook::Font(data@),
            PartBody::WebSettings => BodyLook::WebSettings,
            PartBody::Text(s) => BodyLook::Text(s@),
        }
    }
}

/// A part of the package.
pub struct PackagePart<'a> {
    pub path: String,
    pub content_type: &'static str,
    pub body: PartBody<'a>,
}

/// A part of the package, by value.
pub struct PartLook {
    pub path: Seq<char>,
    pub content_type: Seq<char>,
    pub body: BodyLook,
}

impl<'a> PackagePart<'a> {
    pub open spec fn view(self) -> PartLook {
        PartLook { path: self.path@, content_type: self.content_type@, body: self.body@ }
    }
}

/// Parts, one by one.
pub open spec fn part_looks(parts: Seq<PackagePart>) -> Seq<PartLook> {
    parts.map_values(|p: PackagePart| p@)
}

/// A font list with one more font, unless it is there.
pub open spec fn with_font(fonts: Seq<Seq<char>>, font: Seq<char>) -> Seq<Seq<char>> {
    if fonts.contains(font) {
        fonts
    } else {
        fonts.push(font)
    }
}

/// A font list with more fonts, each once.
pub open spec fn with_fonts(fonts: Seq<Seq<char>>, more: Seq<Seq<char>>) -> Seq<Seq<char>>
    decreases more.len(),
{
    if more.len() == 0 {
        fonts
    } else {
        with_font(with_fonts(fonts, more.drop_last()), more.last())
    }
}

/// The fonts of the font table: those the content refers to, the auxiliary ones,
/// and the math font where there is math.
pub open spec fn table_fonts(d: DocxDocument) -> Seq<Seq<char>> {
    let fonts = with_font(
        with_font(with_fonts(Seq::empty(), font_list(d.fonts@)), "Symbol"@),
        "Courier New"@,
    );
    if d.uses_math {
        with_font(fonts, "Cambria Math"@)
    } else {
        fonts
    }
}

/// Adds a font, unless it is there.
pub fn push_font(fonts: &mut Vec<String>, font: &str)
    ensures
        font_list(final(fonts)@) == with_font(font_list(old(fonts)@), font@),
{
    let mut i: usize = 0;
    while i < fonts.len()
        invariant
            i <= fonts.len(),
            *fonts == *old(fonts),
            forall|k: int| 0 <= k < i ==> (#[trigger] font_list(fonts@)[k]) != font@,
        decreases fonts.len() - i,
    {
        if str_eq(fonts[i].as_str(), font) {
            assert(font_list(fonts@)[i as int] == font@);
            return;
        }
        i = i + 1;
    }
    fonts.push(font.to_owned());
    assert(font_list(fonts@) =~= font_list(old(fonts)@).push(font@));
}

fn collect_fonts(d: &DocxDocument) -> (r: Vec<String>)
    ensures
        font_list(r@) == table_fonts(*d),
{
    let mut fonts: Vec<String> = Vec::new();
    let mut i: usize = 0;
    assert(font_list(fonts@) =~= with_fonts(Seq::empty(), font_list(d.fonts@.take(0))));
    while i < d.fonts.len()
        invariant
            i <= d.fonts.len(),
            font_list(fonts@) == with_fonts(Seq::empty(), font_list(d.fonts@.take(i as int))),
        decreases d.fonts.len() - i,
    {
        push_font(&mut fonts, d.fonts[i].as_str());
        assert(font_list(d.fonts@.take(i + 1)).drop_last() =~= font_list(d.fonts@.take(i as int)));
        i = i + 1;
    }
    assert(d.fonts@.take(i as int) =~= d.fonts@);
    push_font(&mut fonts, "Symbol");
    push_font(&mut fonts, "Courier New");
    if d.uses_math {
        push_font(&mut fonts, "Cambria Math");
    }
    fonts
}

/// A part with a tree.
pub open spec fn tree_part(
    path: Seq<char>,
    content_type: Seq<char>,
    root: El,
    para_base: u32,
) -> PartLook {
    PartLook { path, content_type, body: BodyLook::Tree { root, para_base } }
}

/// A part that is made elsewhere.
pub open spec fn other_part(path: Seq<char>, content_type: Seq<char>, body: BodyLook) -> PartLook {
    PartLook { path, content_type, body }
}

/// The parts of headers.
pub open spec fn header_part_looks(parts: Seq<HdrFtrPart>) -> Seq<PartLook> {
    parts.map(
        |i: int, p: HdrFtrPart|
            tree_part(
                "word/"@ + p.part_name@,
                ns::CT_HEADER@,
                hdrftr_xml(p),
                header_lane(i) as u32,
            ),
    )
}

/// The parts of footers.
pub open spec fn footer_part_looks(parts: Seq<HdrFtrPart>) -> Seq<PartLook> {
    parts.map(
        |i: int, p: HdrFtrPart|
            tree_part(
                "word/"@ + p.part_name@,
                ns::CT_FOOTER@,
                hdrftr_xml(p),
                footer_lane(i) as u32,
            ),
    )
}

/// The parts that come before the headers and footers.
pub open spec fn leading_parts(d: DocxDocument) -> Seq<PartLook> {
    let parts = seq![
        other_part("word/styles.xml"@, ns::CT_STYLES@, BodyLook::Styles),
        tree_part("word/settings.xml"@, ns::CT_SETTINGS@, settings_xml(d), 0),
        other_part("word/theme/theme1.xml"@, ns::CT_THEME@, BodyLook::Theme),
        other_part(
            "word/fontTable.xml"@,
            ns::CT_FONT_TABLE@,
            BodyLook::FontTable {
                fonts: table_fonts(d),
                embedded: embeddings(d.embedded_fonts@),
            },
        ),
        other_part("word/webSettings.xml"@, ns::CT_WEB_SETTINGS@, BodyLook::WebSettings),
    ];
    let parts = if d.numbering.abstracts@.len() > 0 {
        parts.push(
            tree_part("word/numbering.xml"@, ns::CT_NUMBERING@, numbering_xml(d.numbering), 0),
        )
    } else {
        parts
    };
    let parts = parts.push(
        tree_part(
            "word/footnotes.xml"@,
            ns::CT_FOOTNOTES@,
            footnotes_xml(d.footnotes@),
            NOTES_LANE,
        ),
    ).push(tree_part("word/endnotes.xml"@, ns::CT_ENDNOTES@, endnotes_xml(), 0));
    if d.comments@.len() > 0 {
        parts.push(
            tree_part(
                "word/comments.xml"@,
                ns::CT_COMMENTS@,
                comments_xml(d.comments@),
                COMMENTS_LANE,
            ),
        )
    } else {
        parts
    }
}

/// The number that the identities of a comment's paragraphs start from.
pub const COMMENTS_LANE: u32 = 0x7800_0000;

/// What the package needs that is made elsewhere: the identifier of the sources,
/// the key of embedded fonts, and the fidelity manifest with the type of its
/// relationship.
pub struct Outside<'a> {
    pub sources_guid: &'a str,
    /// The bytes that the font key spells, in the order in which it spells them.
    pub font_key: [u8; 16],
    pub manifest: &'a str,
    pub manifest_rel: &'static str,
}

/// The parts of embedded fonts, one for each program.
pub open spec fn font_part_looks(programs: Seq<EmbeddedFontProgram>, key: Seq<u8>) -> Seq<
    PartLook,
> {
    programs.map(
        |i: int, p: EmbeddedFontProgram|
            other_part(
                "word/"@ + font_target(i),
                ns::CT_FONT@,
                BodyLook::Font(obfuscated(p.data@, key)),
            ),
    )
}

/// The parts that come after the headers and footers.
pub open spec fn trailing_parts(d: DocxDocument, o: Outside) -> Seq<PartLook> {
    let parts = match d.bibliography {
        Some(bib) => seq![
            tree_part(
                "word/typstBibliography.xml"@,
                ns::CT_XML@,
                typst_bibliography_xml(bib@),
                0,
            ),
        ],
        None => Seq::empty(),
    };
    let parts = if d.word_sources@.len() > 0 {
        parts.push(
            tree_part("customXml/item1.xml"@, ns::CT_XML@, sources_xml(d.word_sources@), 0),
        ).push(
            tree_part(
                "customXml/itemProps1.xml"@,
                ns::CT_CUSTOM_XML_PROPS@,
                item_props_xml(o.sources_guid@),
                0,
            ),
        )
    } else {
        parts
    };
    parts.push(
        other_part("customXml/typstFidelity.xml"@, ns::CT_XML@, BodyLook::Text(o.manifest@)),
    ).push(tree_part("word/document.xml"@, ns::CT_DOCUMENT@, document_xml(d), 0)).push(
        tree_part("docProps/core.xml"@, ns::CT_CORE@, core_xml(d.info), 0),
    ).push(tree_part("docProps/app.xml"@, ns::CT_EXTENDED@, app_xml(), 0)).push(
        tree_part(
            "docProps/custom.xml"@,
            ns::CT_CUSTOM_PROPERTIES@,
            custom_properties_xml(o.manifest@),
            0,
        ),
    )
}

/// The parts of the package, beside its media: those before the headers, the
/// embedded fonts among them, the headers, the footers, and those after them.
pub open spec fn package_parts(d: DocxDocument, o: Outside) -> Seq<PartLook> {
    leading_parts(d) + font_part_looks(d.embedded_fonts@, o.font_key@) + header_part_looks(
        d.header_parts@,
    ) + footer_part_looks(d.footer_parts@) + trailing_parts(d, o)
}

fn put_part<'a>(
    out: &mut Vec<PackagePart<'a>>,
    path: &str,
    content_type: &'static str,
    body: PartBody<'a>,
)
    ensures
        part_looks(final(out)@) == part_looks(old(out)@).push(
            other_part(path@, content_type@, body@),
        ),
{
    out.push(PackagePart { path: path.to_owned(), content_type, body });
    assert(part_looks(out@) =~= part_looks(old(out)@).push(
        other_part(path@, content_type@, body@),
    ));
}

fn put_tree<'a>(
    out: &mut Vec<PackagePart<'a>>,
    path: &str,
    content_type: &'static str,
    root: Elem<'a>,
    para_base: u32,
)
    ensures
        part_looks(final(out)@) == part_looks(old(out)@).push(
            tree_part(path@, content_type@, root@, para_base),
        ),
{
    put_part(out, path, content_type, PartBody::Tree { root, para_base });
}

fn put_leading<'a>(out: &mut Vec<PackagePart<'a>>, d: &'a DocxDocument)
    requires
        part_looks(old(out)@) == Seq::<PartLook>::empty(),
    ensures
        part_looks(final(out)@) == leading_parts(*d),
{
    put_part(out, "word/styles.xml", ns::CT_STYLES, PartBody::Styles);
    put_tree(out, "word/settings.xml", ns::CT_SETTINGS, build_settings(d), 0);
    put_part(out, "word/theme/theme1.xml", ns::CT_THEME, PartBody::Theme);
    put_part(
        out,
        "word/fontTable.xml",
        ns::CT_FONT_TABLE,
        PartBody::FontTable { fonts: collect_fonts(d), embedded: embed_fonts(&d.embedded_fonts) },
    );
    put_part(out, "word/webSettings.xml", ns::CT_WEB_SETTINGS, PartBody::WebSettings);
    if d.numbering.abstracts.len() > 0 {
        put_tree(
            out,
            "word/numbering.xml",
            ns::CT_NUMBERING,
            build_numbering(&d.numbering),
            0,
        );
    }
    put_tree(
        out,
        "word/footnotes.xml",
        ns::CT_FOOTNOTES,
        build_footnotes(&d.footnotes),
        NOTES_LANE,
    );
    put_tree(out, "word/endnotes.xml", ns::CT_ENDNOTES, build_endnotes(), 0);
    if d.comments.len() > 0 {
        put_tree(
            out,
            "word/comments.xml",
            ns::CT_COMMENTS,
            build_comments(&d.comments),
            COMMENTS_LANE,
        );
    }
}

fn put_fonts<'a>(
    out: &mut Vec<PackagePart<'a>>,
    programs: &Vec<EmbeddedFontProgram>,
    key: &[u8; 16],
)
    ensures
        part_looks(final(out)@) == part_looks(old(out)@) + font_part_looks(programs@, key@),
{
    let mut i: usize = 0;
    assert(part_looks(out@) =~= part_looks(old(out)@) + font_part_looks(programs@.take(0), key@));
    while i < programs.len()
        invariant
            i <= programs.len(),
            part_looks(out@) == part_looks(old(out)@) + font_part_looks(
                programs@.take(i as int),
                key@,
            ),
        decreases programs.len() - i,
    {
        let path: String = concat2("word/", font_file(i).as_str());
        let data: Vec<u8> = obfuscate(&programs[i].data, key);
        put_part(out, path.as_str(), ns::CT_FONT, PartBody::Font(data));
        assert(part_looks(out@) =~= part_looks(old(out)@) + font_part_looks(
            programs@.take(i + 1),
            key@,
        ));
        i = i + 1;
    }
    assert(programs@.take(i as int) =~= programs@);
}

fn put_headers<'a>(out: &mut Vec<PackagePart<'a>>, parts: &'a Vec<HdrFtrPart>)
    requires
        parts@.len() <= 0xF00,
    ensures
        part_looks(final(out)@) == part_looks(old(out)@) + header_part_looks(parts@),
{
    let mut i: usize = 0;
    assert(part_looks(out@) =~= part_looks(old(out)@) + header_part_looks(parts@.take(0)));
    while i < parts.len()
        invariant
            i <= parts.len(),
            parts@.len() <= 0xF00,
            part_looks(out@) == part_looks(old(out)@) + header_part_looks(
                parts@.take(i as int),
            ),
        decreases parts.len() - i,
    {
        let path: String = concat2("word/", parts[i].part_name.as_str());
        let base: u32 = 0x1000_0000u32 + (i as u32) * 0x10_0000u32;
        put_tree(out, path.as_str(), ns::CT_HEADER, build_hdrftr(&parts[i]), base);
        assert(part_looks(out@) =~= part_looks(old(out)@) + header_part_looks(
            parts@.take(i + 1),
        ));
        i = i + 1;
    }
    assert(parts@.take(i as int) =~= parts@);
}

fn put_footers<'a>(out: &mut Vec<PackagePart<'a>>, parts: &'a Vec<HdrFtrPart>)
    requires
        parts@.len() <= 0xC00,
    ensures
        part_looks(final(out)@) == part_looks(old(out)@) + footer_part_looks(parts@),
{
    let mut i: usize = 0;
    assert(part_looks(out@) =~= part_looks(old(out)@) + footer_part_looks(parts@.take(0)));
    while i < parts.len()
        invariant
            i <= parts.len(),
            parts@.len() <= 0xC00,
            part_looks(out@) == part_looks(old(out)@) + footer_part_looks(
                parts@.take(i as int),
            ),
        decreases parts.len() - i,
    {
        let path: String = concat2("word/", parts[i].part_name.as_str());
        let base: u32 = 0x4000_0000u32 + (i as u32) * 0x10_0000u32;
        put_tree(out, path.as_str(), ns::CT_FOOTER, build_hdrftr(&parts[i]), base);
        assert(part_looks(out@) =~= part_looks(old(out)@) + footer_part_looks(
            parts@.take(i + 1),
        ));
        i = i + 1;
    }
    assert(parts@.take(i as int) =~= parts@);
}

fn put_trailing<'a>(out: &mut Vec<PackagePart<'a>>, d: &'a DocxDocument, o: &Outside<'a>)
    ensures
        part_looks(final(out)@) == part_looks(old(out)@) + trailing_parts(*d, *o),
{
    let mut own: Vec<PackagePart<'a>> = Vec::new();
    assert(part_looks(own@) =~= Seq::<PartLook>::empty());
    if let Some(bib) = &d.bibliography {
        put_tree(
            &mut own,
            "word/typstBibliography.xml",
            ns::CT_XML,
            build_typst_bibliography(bib.as_str()),
            0,
        );
    }
    if d.word_sources.len() > 0 {
        put_tree(
            &mut own,
            "customXml/item1.xml",
            ns::CT_XML,
            build_word_sources(&d.word_sources),
            0,
        );
        put_tree(
            &mut own,
            "customXml/itemProps1.xml",
            ns::CT_CUSTOM_XML_PROPS,
            build_item_props(o.sources_guid),
            0,
        );
    }
    put_part(
        &mut own,
        "customXml/typstFidelity.xml",
        ns::CT_XML,
        PartBody::Text(o.manifest),
    );
    put_tree(&mut own, "word/document.xml", ns::CT_DOCUMENT, build_document(d), 0);
    put_tree(&mut own, "docProps/core.xml", ns::CT_CORE, build_core(&d.info), 0);
    put_tree(&mut own, "docProps/app.xml", ns::CT_EXTENDED, build_app(), 0);
    put_tree(
        &mut own,
        "docProps/custom.xml",
        ns::CT_CUSTOM_PROPERTIES,
        build_custom_properties(o.manifest),
        0,
    );
    let ghost added = own@;
    out.append(&mut own);
    assert(part_looks(out@) =~= part_looks(old(out)@) + part_looks(added));
}

/// A relationship to another part of the package.
pub open spec fn internal(ty: Seq<char>, target: Seq<char>) -> RelSpec {
    RelSpec { ty, target, mode: RelMode::Internal }
}

/// Relationships to the parts that every document has.
pub open spec fn with_common(rels: Seq<RelSpec>) -> Seq<RelSpec> {
    let rels = with_rel(rels, internal(ns::REL_STYLES@, "styles.xml"@));
    let rels = with_rel(rels, internal(ns::REL_SETTINGS@, "settings.xml"@));
    let rels = with_rel(rels, internal(ns::REL_THEME@, "theme/theme1.xml"@));
    let rels = with_rel(rels, internal(ns::REL_FONT_TABLE@, "fontTable.xml"@));
    with_rel(rels, internal(ns::REL_WEB_SETTINGS@, "webSettings.xml"@))
}

/// Relationships to the parts of lists, notes and comments.
pub open spec fn with_notes(rels: Seq<RelSpec>, d: DocxDocument) -> Seq<RelSpec> {
    let rels = if d.numbering.abstracts@.len() > 0 {
        with_rel(rels, internal(ns::REL_NUMBERING@, "numbering.xml"@))
    } else {
        rels
    };
    let rels = with_rel(rels, internal(ns::REL_FOOTNOTES@, "footnotes.xml"@));
    let rels = with_rel(rels, internal(ns::REL_ENDNOTES@, "endnotes.xml"@));
    if d.comments@.len() > 0 {
        with_rel(rels, internal(ns::REL_COMMENTS@, "comments.xml"@))
    } else {
        rels
    }
}

/// Relationships to the parts that carry data beside the text.
pub open spec fn with_data(rels: Seq<RelSpec>, d: DocxDocument, o: Outside) -> Seq<RelSpec> {
    let rels = if d.bibliography is Some {
        with_rel(rels, internal(ns::REL_BIBLIOGRAPHY@, "typstBibliography.xml"@))
    } else {
        rels
    };
    let rels = if d.word_sources@.len() > 0 {
        with_rel(rels, internal(ns::REL_CUSTOM_XML@, "../customXml/item1.xml"@))
    } else {
        rels
    };
    with_rel(rels, internal(o.manifest_rel@, "../customXml/typstFidelity.xml"@))
}

/// The relationships of the main part: those of its content, then those to the
/// parts that go with it.
pub open spec fn document_rels(d: DocxDocument, o: Outside) -> Seq<RelSpec> {
    with_data(with_notes(with_common(d.doc_rels@), d), d, o)
}

/// The relationships of the package itself.
pub open spec fn root_rels() -> Seq<RelSpec> {
    seq![
        internal(ns::REL_OFFICE_DOCUMENT@, "word/document.xml"@),
        internal(ns::REL_CORE_PROPS@, "docProps/core.xml"@),
        internal(ns::REL_EXTENDED_PROPS@, "docProps/app.xml"@),
        internal(ns::REL_CUSTOM_PROPERTIES@, "docProps/custom.xml"@),
    ]
}

fn copy_rels(rels: &Rels) -> (r: Rels)
    ensures
        r@ == rels@,
{
    let mut entries: Vec<Rel> = Vec::new();
    let mut i: usize = 0;
    while i < rels.entries.len()
        invariant
            i <= rels.entries.len(),
            entries@.len() == i,
            forall|k: int| 0 <= k < i ==> (#[trigger] entries@[k])@ == rels.entries@[k]@,
        decreases rels.entries.len() - i,
    {
        let rel: &Rel = &rels.entries[i];
        entries.push(Rel { ty: rel.ty, target: rel.target.clone(), mode: rel.mode });
        i = i + 1;
    }
    let r = Rels { entries };
    assert(r@ =~= rels@);
    r
}

fn relate(rels: &mut Rels, ty: &'static str, target: &str)
    requires
        old(rels)@.len() < usize::MAX,
    ensures
        final(rels)@ == with_rel(old(rels)@, internal(ty@, target@)),
        final(rels)@.len() <= old(rels)@.len() + 1,
{
    let _ = rels.add_rel(ty, target, RelMode::Internal);
}

fn relate_common(rels: &mut Rels)
    requires
        old(rels)@.len() <= usize::MAX - 5,
    ensures
        final(rels)@ == with_common(old(rels)@),
        final(rels)@.len() <= old(rels)@.len() + 5,
{
    relate(rels, ns::REL_STYLES, "styles.xml");
    relate(rels, ns::REL_SETTINGS, "settings.xml");
    relate(rels, ns::REL_THEME, "theme/theme1.xml");
    relate(rels, ns::REL_FONT_TABLE, "fontTable.xml");
    relate(rels, ns::REL_WEB_SETTINGS, "webSettings.xml");
}

fn relate_notes(rels: &mut Rels, d: &DocxDocument)
    requires
        old(rels)@.len() <= usize::MAX - 4,
    ensures
        final(rels)@ == with_notes(old(rels)@, *d),
        final(rels)@.len() <= old(rels)@.len() + 4,
{
    if d.numbering.abstracts.len() > 0 {
        relate(rels, ns::REL_NUMBERING, "numbering.xml");
    }
    relate(rels, ns::REL_FOOTNOTES, "footnotes.xml");
    relate(rels, ns::REL_ENDNOTES, "endnotes.xml");
    if d.comments.len() > 0 {
        relate(rels, ns::REL_COMMENTS, "comments.xml");
    }
}

fn relate_data(rels: &mut Rels, d: &DocxDocument, o: &Outside)
    requires
        old(rels)@.len() <= usize::MAX - 3,
    ensures
        final(rels)@ == with_data(old(rels)@, *d, *o),
{
    if d.bibliography.is_some() {
        relate(rels, ns::REL_BIBLIOGRAPHY, "typstBibliography.xml");
    }
    if d.word_sources.len() > 0 {
        relate(rels, ns::REL_CUSTOM_XML, "../customXml/item1.xml");
    }
    relate(rels, o.manifest_rel, "../customXml/typstFidelity.xml");
}

/// The relationships of the main part.
pub fn collect_document_rels(d: &DocxDocument, o: &Outside) -> (r: Rels)
    requires
        d.doc_rels@.len() <= usize::MAX - 12,
    ensures
        r@ == document_rels(*d, *o),
{
    let mut rels: Rels = copy_rels(&d.doc_rels);
    relate_common(&mut rels);
    relate_notes(&mut rels, d);
    relate_data(&mut rels, d, o);
    rels
}

proof fn lemma_new_rel(rels: Seq<RelSpec>, rel: RelSpec)
    requires
        !rels.contains(rel),
    ensures
        with_rel(rels, rel) == rels.push(rel),
{
    lemma_no_index(rels, rel, 0);
}

proof fn lemma_no_index(rels: Seq<RelSpec>, rel: RelSpec, i: int)
    requires
        0 <= i <= rels.len(),
        !rels.contains(rel),
    ensures
        crate::rels::rel_index(rels, rel, i) == rels.len(),
    decreases rels.len() - i,
{
    if i < rels.len() {
        assert(rels.contains(rels[i]));
        lemma_no_index(rels, rel, i + 1);
    }
}

/// The relationships of the package itself.
pub fn collect_root_rels() -> (r: Rels)
    ensures
        r@ == root_rels(),
{
    let mut rels: Rels = Rels::new();
    let ghost none = rels@;
    relate(&mut rels, ns::REL_OFFICE_DOCUMENT, "word/document.xml");
    relate(&mut rels, ns::REL_CORE_PROPS, "docProps/core.xml");
    relate(&mut rels, ns::REL_EXTENDED_PROPS, "docProps/app.xml");
    relate(&mut rels, ns::REL_CUSTOM_PROPERTIES, "docProps/custom.xml");
    proof {
        reveal_strlit("word/document.xml");
        reveal_strlit("docProps/core.xml");
        reveal_strlit("docProps/app.xml");
        reveal_strlit("docProps/custom.xml");
        let document = internal(ns::REL_OFFICE_DOCUMENT@, "word/document.xml"@);
        let core = internal(ns::REL_CORE_PROPS@, "docProps/core.xml"@);
        let app = internal(ns::REL_EXTENDED_PROPS@, "docProps/app.xml"@);
        let custom = internal(ns::REL_CUSTOM_PROPERTIES@, "docProps/custom.xml"@);
        assert(core.target.len() == 17 && document.target.len() == 17);
        assert(core.target[0] == 'd' && document.target[0] == 'w');
        assert(app.target.len() == 16 && custom.target.len() == 19);
        lemma_new_rel(none, document);
        lemma_new_rel(none.push(document), core);
        lemma_new_rel(none.push(document).push(core), app);
        lemma_new_rel(none.push(document).push(core).push(app), custom);
        assert(rels@ =~= root_rels());
    }
    rels
}

/// The relationships of parts, with those of one more part, where it has any.
pub open spec fn with_part_rels(
    out: Seq<(Seq<char>, Seq<RelSpec>)>,
    path: Seq<char>,
    rels: Seq<RelSpec>,
) -> Seq<(Seq<char>, Seq<RelSpec>)> {
    if rels.len() > 0 {
        out.push((path, rels))
    } else {
        out
    }
}

/// The relationships of parts, with those of headers or footers.
pub open spec fn with_hdrftr_rels(
    out: Seq<(Seq<char>, Seq<RelSpec>)>,
    parts: Seq<HdrFtrPart>,
) -> Seq<(Seq<char>, Seq<RelSpec>)>
    decreases parts.len(),
{
    if parts.len() == 0 {
        out
    } else {
        with_part_rels(
            with_hdrftr_rels(out, parts.drop_last()),
            "word/"@ + parts.last().part_name@,
            parts.last().rels@,
        )
    }
}

/// The relationships of every part that has any. What the content of a part
/// refers to is looked up among the relationships of that part alone.
pub open spec fn part_rels(d: DocxDocument, o: Outside) -> Seq<(Seq<char>, Seq<RelSpec>)> {
    let out = with_part_rels(
        Seq::empty(),
        "word/fontTable.xml"@,
        font_rels(d.embedded_fonts@.len()),
    );
    let out = with_part_rels(out, "word/footnotes.xml"@, d.footnote_rels@);
    let out = if d.comments@.len() > 0 {
        with_part_rels(out, "word/comments.xml"@, d.comment_rels@)
    } else {
        out
    };
    let out = with_hdrftr_rels(out, d.header_parts@);
    let out = with_hdrftr_rels(out, d.footer_parts@);
    let out = if d.word_sources@.len() > 0 {
        with_part_rels(
            out,
            "customXml/item1.xml"@,
            seq![internal(ns::REL_CUSTOM_XML_PROPS@, "itemProps1.xml"@)],
        )
    } else {
        out
    };
    with_part_rels(out, "word/document.xml"@, document_rels(d, o))
}

/// The relationships of a part.
pub struct PartRels {
    pub path: String,
    pub rels: Rels,
}

/// The relationships of parts, one by one.
pub open spec fn rels_looks(s: Seq<PartRels>) -> Seq<(Seq<char>, Seq<RelSpec>)> {
    s.map_values(|p: PartRels| (p.path@, p.rels@))
}

fn write_part_rels(out: &mut Vec<PartRels>, path: &str, rels: Rels)
    ensures
        rels_looks(final(out)@) == with_part_rels(rels_looks(old(out)@), path@, rels@),
{
    assert(rels@.len() == rels.entries@.len());
    if rels.entries.len() > 0 {
        out.push(PartRels { path: path.to_owned(), rels });
        assert(rels_looks(out@) =~= rels_looks(old(out)@).push((path@, rels@)));
    }
}

fn write_hdrftr_rels(out: &mut Vec<PartRels>, parts: &Vec<HdrFtrPart>)
    ensures
        rels_looks(final(out)@) == with_hdrftr_rels(rels_looks(old(out)@), parts@),
{
    let mut i: usize = 0;
    while i < parts.len()
        invariant
            i <= parts.len(),
            rels_looks(out@) == with_hdrftr_rels(rels_looks(old(out)@), parts@.take(i as int)),
        decreases parts.len() - i,
    {
        assert(parts@.take(i + 1).drop_last() =~= parts@.take(i as int));
        let path: String = concat2("word/", parts[i].part_name.as_str());
        write_part_rels(out, path.as_str(), copy_rels(&parts[i].rels));
        i = i + 1;
    }
    assert(parts@.take(i as int) =~= parts@);
}

/// The relationships of every part that has any.
pub fn collect_part_rels(d: &DocxDocument, o: &Outside) -> (r: Vec<PartRels>)
    requires
        d.doc_rels@.len() <= usize::MAX - 12,
    ensures
        rels_looks(r@) == part_rels(*d, *o),
{
    let mut out: Vec<PartRels> = Vec::new();
    assert(rels_looks(out@) =~= Seq::<(Seq<char>, Seq<RelSpec>)>::empty());
    write_part_rels(&mut out, "word/fontTable.xml", collect_font_rels(d.embedded_fonts.len()));
    write_part_rels(&mut out, "word/footnotes.xml", copy_rels(&d.footnote_rels));
    if d.comments.len() > 0 {
        write_part_rels(&mut out, "word/comments.xml", copy_rels(&d.comment_rels));
    }
    write_hdrftr_rels(&mut out, &d.header_parts);
    write_hdrftr_rels(&mut out, &d.footer_parts);
    if d.word_sources.len() > 0 {
        let mut item: Rels = Rels::new();
        relate(&mut item, ns::REL_CUSTOM_XML_PROPS, "itemProps1.xml");
        assert(item@ =~= seq![internal(ns::REL_CUSTOM_XML_PROPS@, "itemProps1.xml"@)]);
        write_part_rels(&mut out, "customXml/item1.xml", item);
    }
    write_part_rels(&mut out, "word/document.xml", collect_document_rels(d, o));
    out
}

/// The package of a document: its parts beside its media, the relationships of
/// its parts, and those of the package itself.
pub struct PackagePlan<'a> {
    pub parts: Vec<PackagePart<'a>>,
    pub part_rels: Vec<PartRels>,
    pub root_rels: Rels,
}

/// Whether a plan is the package of a document.
pub open spec fn is_package(d: DocxDocument, o: Outside, plan: PackagePlan) -> bool {
    &&& part_looks(plan.parts@) == package_parts(d, o)
    &&& rels_looks(plan.part_rels@) == part_rels(d, o)
    &&& plan.root_rels@ == root_rels()
}

/// Plans the package of a document. `valid` is what validating the document gave;
/// a document that is not valid is refused with the error.
pub fn docx<'a>(d: &'a DocxDocument, o: &Outside<'a>, valid: Result<(), String>) -> (r: Result<
    PackagePlan<'a>,
    String,
>)
    requires
        valid is Ok ==> d.doc_rels@.len() <= usize::MAX - 12 && d.header_parts@.len() <= 0xF00
            && d.footer_parts@.len() <= 0xC00,
    ensures
        match (valid, r) {
            (Err(e), Err(m)) => m@ == "invalid finalized DOCX IR: "@ + e@,
            (Ok(_), Ok(plan)) => is_package(*d, *o, plan),
            _ => false,
        },
{
    if let Err(e) = valid {
        return Err(concat2("invalid finalized DOCX IR: ", e.as_str()));
    }
    let mut parts: Vec<PackagePart<'a>> = Vec::new();
    assert(part_looks(parts@) =~= Seq::<PartLook>::empty());
    put_leading(&mut parts, d);
    put_fonts(&mut parts, &d.embedded_fonts, &o.font_key);
    put_headers(&mut parts, &d.header_parts);
    put_footers(&mut parts, &d.footer_parts);
    put_trailing(&mut parts, d, o);
    Ok(PackagePlan { parts, part_rels: collect_part_rels(d, o), root_rels: collect_root_rels() })
}

/// Planning a document again gives the same package: the same parts in the same
/// order, with the same contents and the same relationships.
pub proof fn plans_are_repeatable(d: DocxDocument, o: Outside, p: PackagePlan, q: PackagePlan)
    requires
        is_package(d, o, p),
        is_package(d, o, q),
    ensures
        part_looks(p.parts@) == part_looks(q.parts@),
        rels_looks(p.part_rels@) == rels_looks(q.part_rels@),
        p.root_rels@ == q.root_rels@,
{
}

/// Passes a planned package on. `valid` is what validating its finished parts gave;
/// a package with a part that is not valid is refused with the error.
pub fn checked_parts<'a>(plan: PackagePlan<'a>, valid: Result<(), String>) -> (r: Result<
    PackagePlan<'a>,
    String,
>)
    ensures
        match (valid, r) {
            (Err(e), Err(m)) => m@ == "invalid finalized DOCX XML sequence: "@ + e@,
            (Ok(_), Ok(checked)) => checked == plan,
            _ => false,
        },
{
    match valid {
        Err(e) => Err(concat2("invalid finalized DOCX XML sequence: ", e.as_str())),
        Ok(_) => Ok(plan),
    }
}

/// Passes on that the relationships of a part were registered, or refuses with the
/// error.
pub fn registered_rels(done: Result<(), String>) -> (r: Result<(), String>)
    ensures
        match (done, r) {
            (Err(e), Err(m)) => m@ == "failed to register relationships: "@ + e@,
            (Ok(_), Ok(_)) => true,
            _ => false,
        },
{
    match done {
        Err(e) => Err(concat2("failed to register relationships: ", e.as_str())),
        Ok(_) => Ok(()),
    }
}

/// Passes a finished package on, or refuses with the error of finishing it.
pub fn finished_package(done: Result<Vec<u8>, String>) -> (r: Result<Vec<u8>, String>)
    ensures
        match (done, r) {
            (Err(e), Err(m)) => m@ == "failed to finalize DOCX package: "@ + e@,
            (Ok(bytes), Ok(same)) => same == bytes,
            _ => false,
        },
{
    match done {
        Err(e) => Err(concat2("failed to finalize DOCX package: ", e.as_str())),
        Ok(bytes) => Ok(bytes),
    }
}

/// Whether a part stands at a path.
pub open spec fn has_part(parts: Seq<PartLook>, path: Seq<char>) -> bool {
    exists|i: int| 0 <= i < parts.len() && (#[trigger] parts[i]).path == path
}

/// The path that a relationship of the main part leads to.
pub open spec fn resolved(target: Seq<char>) -> Seq<char> {
    match cut_prefix(target, "../"@) {
        Some(rest) => rest,
        None => "word/"@ + target,
    }
}

proof fn lemma_has_part_add(a: Seq<PartLook>, b: Seq<PartLook>, path: Seq<char>)
    requires
        has_part(a, path) || has_part(b, path),
    ensures
        has_part(a + b, path),
{
    if has_part(a, path) {
        let i = choose|i: int| 0 <= i < a.len() && (#[trigger] a[i]).path == path;
        assert((a + b)[i].path == path);
    } else {
        let i = choose|i: int| 0 <= i < b.len() && (#[trigger] b[i]).path == path;
        assert((a + b)[a.len() + i].path == path);
    }
}

proof fn lemma_leading_parts(d: DocxDocument)
    ensures
        has_part(leading_parts(d), "word/styles.xml"@),
        has_part(leading_parts(d), "word/settings.xml"@),
        has_part(leading_parts(d), "word/theme/theme1.xml"@),
        has_part(leading_parts(d), "word/fontTable.xml"@),
        has_part(leading_parts(d), "word/webSettings.xml"@),
        d.numbering.abstracts@.len() > 0 ==> has_part(leading_parts(d), "word/numbering.xml"@),
        has_part(leading_parts(d), "word/footnotes.xml"@),
        has_part(leading_parts(d), "word/endnotes.xml"@),
        d.comments@.len() > 0 ==> has_part(leading_parts(d), "word/comments.xml"@),
{
    let parts = leading_parts(d);
    let k: int = if d.numbering.abstracts@.len() > 0 {
        1
    } else {
        0
    };
    assert(parts[0].path == "word/styles.xml"@);
    assert(parts[1].path == "word/settings.xml"@);
    assert(parts[2].path == "word/theme/theme1.xml"@);
    assert(parts[3].path == "word/fontTable.xml"@);
    assert(parts[4].path == "word/webSettings.xml"@);
    assert(k == 1 ==> parts[5].path == "word/numbering.xml"@);
    assert(parts[5 + k].path == "word/footnotes.xml"@);
    assert(parts[6 + k].path == "word/endnotes.xml"@);
    assert(d.comments@.len() > 0 ==> parts[7 + k].path == "word/comments.xml"@);
}

proof fn lemma_trailing_parts(d: DocxDocument, o: Outside)
    ensures
        d.bibliography is Some ==> has_part(
            trailing_parts(d, o),
            "word/typstBibliography.xml"@,
        ),
        d.word_sources@.len() > 0 ==> has_part(trailing_parts(d, o), "customXml/item1.xml"@),
        d.word_sources@.len() > 0 ==> has_part(trailing_parts(d, o), "customXml/itemProps1.xml"@),
        has_part(trailing_parts(d, o), "customXml/typstFidelity.xml"@),
        has_part(trailing_parts(d, o), "word/document.xml"@),
        has_part(trailing_parts(d, o), "docProps/core.xml"@),
        has_part(trailing_parts(d, o), "docProps/app.xml"@),
        has_part(trailing_parts(d, o), "docProps/custom.xml"@),
{
    let parts = trailing_parts(d, o);
    let b: int = if d.bibliography is Some {
        1
    } else {
        0
    };
    let s: int = if d.word_sources@.len() > 0 {
        2
    } else {
        0
    };
    assert(b == 1 ==> parts[0].path == "word/typstBibliography.xml"@);
    assert(s == 2 ==> parts[b].path == "customXml/item1.xml"@);
    assert(s == 2 ==> parts[b + 1].path == "customXml/itemProps1.xml"@);
    assert(parts[b + s].path == "customXml/typstFidelity.xml"@);
    assert(parts[b + s + 1].path == "word/document.xml"@);
    assert(parts[b + s + 2].path == "docProps/core.xml"@);
    assert(parts[b + s + 3].path == "docProps/app.xml"@);
    assert(parts[b + s + 4].path == "docProps/custom.xml"@);
}

proof fn lemma_beside(path: Seq<char>, file: Seq<char>)
    requires
        file.len() > 0,
        file[0] != '.',
        path =~= "word/"@ + file,
    ensures
        resolved(file) == path,
{
    reveal_strlit("../");
    assert("../"@[0] == '.');
    if stands_at(file, 0, "../"@) {
        assert(file.subrange(0, 3)[0] == file[0]);
    }
}

proof fn lemma_common_resolved()
    ensures
        resolved("styles.xml"@) == "word/styles.xml"@,
        resolved("settings.xml"@) == "word/settings.xml"@,
        resolved("theme/theme1.xml"@) == "word/theme/theme1.xml"@,
        resolved("fontTable.xml"@) == "word/fontTable.xml"@,
        resolved("webSettings.xml"@) == "word/webSettings.xml"@,
{
    reveal_strlit("word/");
    assert(resolved("styles.xml"@) == "word/styles.xml"@) by {
        reveal_strlit("styles.xml");
        reveal_strlit("word/styles.xml");
        lemma_beside("word/styles.xml"@, "styles.xml"@);
    }
    assert(resolved("settings.xml"@) == "word/settings.xml"@) by {
        reveal_strlit("settings.xml");
        reveal_strlit("word/settings.xml");
        lemma_beside("word/settings.xml"@, "settings.xml"@);
    }
    assert(resolved("theme/theme1.xml"@) == "word/theme/theme1.xml"@) by {
        reveal_strlit("theme/theme1.xml");
        reveal_strlit("word/theme/theme1.xml");
        lemma_beside("word/theme/theme1.xml"@, "theme/theme1.xml"@);
    }
    assert(resolved("fontTable.xml"@) == "word/fontTable.xml"@) by {
        reveal_strlit("fontTable.xml");
        reveal_strlit("word/fontTable.xml");
        lemma_beside("word/fontTable.xml"@, "fontTable.xml"@);
    }
    assert(resolved("webSettings.xml"@) == "word/webSettings.xml"@) by {
        reveal_strlit("webSettings.xml");
        reveal_strlit("word/webSettings.xml");
        lemma_beside("word/webSettings.xml"@, "webSettings.xml"@);
    }
}

proof fn lemma_notes_resolved()
    ensures
        resolved("numbering.xml"@) == "word/numbering.xml"@,
        resolved("footnotes.xml"@) == "word/footnotes.xml"@,
        resolved("endnotes.xml"@) == "word/endnotes.xml"@,
        resolved("comments.xml"@) == "word/comments.xml"@,
{
    reveal_strlit("word/");
    assert(resolved("numbering.xml"@) == "word/numbering.xml"@) by {
        reveal_strlit("numbering.xml");
        reveal_strlit("word/numbering.xml");
        lemma_beside("word/numbering.xml"@, "numbering.xml"@);
    }
    assert(resolved("footnotes.xml"@) == "word/footnotes.xml"@) by {
        reveal_strlit("footnotes.xml");
        reveal_strlit("word/footnotes.xml");
        lemma_beside("word/footnotes.xml"@, "footnotes.xml"@);
    }
    assert(resolved("endnotes.xml"@) == "word/endnotes.xml"@) by {
        reveal_strlit("endnotes.xml");
        reveal_strlit("word/endnotes.xml");
        lemma_beside("word/endnotes.xml"@, "endnotes.xml"@);
    }
    assert(resolved("comments.xml"@) == "word/comments.xml"@) by {
        reveal_strlit("comments.xml");
        reveal_strlit("word/comments.xml");
        lemma_beside("word/comments.xml"@, "comments.xml"@);
    }
}

proof fn lemma_data_resolved()
    ensures
        resolved("typstBibliography.xml"@) == "word/typstBibliography.xml"@,
        resolved("../customXml/item1.xml"@) == "customXml/item1.xml"@,
        resolved("../customXml/typstFidelity.xml"@) == "customXml/typstFidelity.xml"@,
{
    reveal_strlit("word/");
    reveal_strlit("../");
    assert(resolved("typstBibliography.xml"@) == "word/typstBibliography.xml"@) by {
        reveal_strlit("typstBibliography.xml");
        reveal_strlit("word/typstBibliography.xml");
        lemma_beside("word/typstBibliography.xml"@, "typstBibliography.xml"@);
    }
    assert(resolved("../customXml/item1.xml"@) == "customXml/item1.xml"@) by {
        reveal_strlit("../customXml/item1.xml");
        reveal_strlit("customXml/item1.xml");
        let target = "../customXml/item1.xml"@;
        assert(target.subrange(0, 3) =~= "../"@);
        assert(target.subrange(3, target.len() as int) =~= "customXml/item1.xml"@);
    }
    assert(resolved("../customXml/typstFidelity.xml"@) == "customXml/typstFidelity.xml"@) by {
        reveal_strlit("../customXml/typstFidelity.xml");
        reveal_strlit("customXml/typstFidelity.xml");
        let target = "../customXml/typstFidelity.xml"@;
        assert(target.subrange(0, 3) =~= "../"@);
        assert(target.subrange(3, target.len() as int) =~= "customXml/typstFidelity.xml"@);
    }
}

proof fn lemma_rel_from(rels: Seq<RelSpec>, added: RelSpec, rel: RelSpec)
    requires
        with_rel(rels, added).contains(rel),
    ensures
        rels.contains(rel) || rel == added,
{
    let after = with_rel(rels, added);
    let i = choose|i: int| 0 <= i < after.len() && after[i] == rel;
    if i < rels.len() {
        assert(rels[i] == rel);
    }
}

proof fn lemma_common_rels(rels: Seq<RelSpec>, d: DocxDocument, rel: RelSpec)
    requires
        with_common(rels).contains(rel),
        !rels.contains(rel),
    ensures
        has_part(leading_parts(d), resolved(rel.target)),
{
    let styles = internal(ns::REL_STYLES@, "styles.xml"@);
    let settings = internal(ns::REL_SETTINGS@, "settings.xml"@);
    let theme = internal(ns::REL_THEME@, "theme/theme1.xml"@);
    let fonts = internal(ns::REL_FONT_TABLE@, "fontTable.xml"@);
    let web = internal(ns::REL_WEB_SETTINGS@, "webSettings.xml"@);
    let r1 = with_rel(rels, styles);
    let r2 = with_rel(r1, settings);
    let r3 = with_rel(r2, theme);
    let r4 = with_rel(r3, fonts);
    lemma_rel_from(r4, web, rel);
    if rel != web {
        lemma_rel_from(r3, fonts, rel);
        if rel != fonts {
            lemma_rel_from(r2, theme, rel);
            if rel != theme {
                lemma_rel_from(r1, settings, rel);
                if rel != settings {
                    lemma_rel_from(rels, styles, rel);
                }
            }
        }
    }
    lemma_common_resolved();
    lemma_leading_parts(d);
}

proof fn lemma_notes_rels(rels: Seq<RelSpec>, d: DocxDocument, rel: RelSpec)
    requires
        with_notes(rels, d).contains(rel),
        !rels.contains(rel),
    ensures
        has_part(leading_parts(d), resolved(rel.target)),
{
    let numbering = internal(ns::REL_NUMBERING@, "numbering.xml"@);
    let footnotes = internal(ns::REL_FOOTNOTES@, "footnotes.xml"@);
    let endnotes = internal(ns::REL_ENDNOTES@, "endnotes.xml"@);
    let comments = internal(ns::REL_COMMENTS@, "comments.xml"@);
    let numbered = d.numbering.abstracts@.len() > 0;
    let commented = d.comments@.len() > 0;
    let r1 = if numbered {
        with_rel(rels, numbering)
    } else {
        rels
    };
    let r2 = with_rel(r1, footnotes);
    let r3 = with_rel(r2, endnotes);
    if commented {
        lemma_rel_from(r3, comments, rel);
    }
    if !(commented && rel == comments) {
        lemma_rel_from(r2, endnotes, rel);
        if rel != endnotes {
            lemma_rel_from(r1, footnotes, rel);
            if rel != footnotes && numbered {
                lemma_rel_from(rels, numbering, rel);
            }
        }
    }
    lemma_notes_resolved();
    lemma_leading_parts(d);
}

proof fn lemma_data_rels(rels: Seq<RelSpec>, d: DocxDocument, o: Outside, rel: RelSpec)
    requires
        with_data(rels, d, o).contains(rel),
        !rels.contains(rel),
    ensures
        has_part(trailing_parts(d, o), resolved(rel.target)),
{
    let bibliography = internal(ns::REL_BIBLIOGRAPHY@, "typstBibliography.xml"@);
    let sources = internal(ns::REL_CUSTOM_XML@, "../customXml/item1.xml"@);
    let manifest = internal(o.manifest_rel@, "../customXml/typstFidelity.xml"@);
    let has_sources = d.word_sources@.len() > 0;
    let r1 = if d.bibliography is Some {
        with_rel(rels, bibliography)
    } else {
        rels
    };
    let r2 = if has_sources {
        with_rel(r1, sources)
    } else {
        r1
    };
    lemma_rel_from(r2, manifest, rel);
    if rel != manifest {
        if has_sources {
            lemma_rel_from(r1, sources, rel);
        }
        if !(has_sources && rel == sources) && d.bibliography is Some {
            lemma_rel_from(rels, bibliography, rel);
        }
    }
    lemma_data_resolved();
    lemma_trailing_parts(d, o);
}

proof fn lemma_package_holds(d: DocxDocument, o: Outside, path: Seq<char>)
    requires
        has_part(leading_parts(d), path) || has_part(trailing_parts(d, o), path) || has_part(
            font_part_looks(d.embedded_fonts@, o.font_key@),
            path,
        ),
    ensures
        has_part(package_parts(d, o), path),
{
    let leading = leading_parts(d);
    let fonts = font_part_looks(d.embedded_fonts@, o.font_key@);
    let headers = header_part_looks(d.header_parts@);
    let footers = footer_part_looks(d.footer_parts@);
    if has_part(leading, path) || has_part(fonts, path) {
        lemma_has_part_add(leading, fonts, path);
        lemma_has_part_add(leading + fonts, headers, path);
        lemma_has_part_add(leading + fonts + headers, footers, path);
    }
    lemma_has_part_add(leading + fonts + headers + footers, trailing_parts(d, o), path);
}

/// Every relationship that planning the package adds to those of the content
/// leads to a part that the package holds: a relationship to a part that is not
/// there would make the package invalid.
pub proof fn added_relationships_have_parts(d: DocxDocument, o: Outside, rel: RelSpec)
    requires
        document_rels(d, o).contains(rel),
        !d.doc_rels@.contains(rel),
    ensures
        has_part(package_parts(d, o), resolved(rel.target)),
{
    let common = with_common(d.doc_rels@);
    let notes = with_notes(common, d);
    if common.contains(rel) {
        lemma_common_rels(d.doc_rels@, d, rel);
    } else if notes.contains(rel) {
        lemma_notes_rels(common, d, rel);
    } else {
        lemma_data_rels(notes, d, o, rel);
    }
    lemma_package_holds(d, o, resolved(rel.target));
}

/// Every embedded font is in the package: the font table refers to it under its
/// family and style, and the relationship of that reference leads to a part that
/// holds the program, obfuscated.
pub proof fn embedded_fonts_are_packaged(d: DocxDocument, o: Outside, i: int)
    requires
        0 <= i < d.embedded_fonts@.len(),
    ensures
        ({
            let program = d.embedded_fonts@[i];
            let reference = embeddings(d.embedded_fonts@)[i];
            let rel = font_rels(d.embedded_fonts@.len())[i];
            &&& reference.family == program.family@
            &&& reference.style == program.style
            &&& reference.rel == rel_id(i)
            &&& part_rels(d, o)[0] == ("word/fontTable.xml"@, font_rels(d.embedded_fonts@.len()))
            &&& package_parts(d, o).contains(
                other_part(
                    resolved(rel.target),
                    ns::CT_FONT@,
                    BodyLook::Font(obfuscated(program.data@, o.font_key@)),
                ),
            )
        }),
{
    let rel = font_rels(d.embedded_fonts@.len())[i];
    let fonts = font_part_looks(d.embedded_fonts@, o.font_key@);
    reveal_strlit("fonts/font");
    assert(rel.target[0] == 'f');
    lemma_beside("word/"@ + rel.target, rel.target);
    let at = leading_parts(d).len() + i;
    assert(package_parts(d, o)[at] == fonts[i]);
    lemma_hdrftr_rels_keep(
        with_part_rels(
            with_part_rels(
                Seq::empty(),
                "word/fontTable.xml"@,
                font_rels(d.embedded_fonts@.len()),
            ),
            "word/footnotes.xml"@,
            d.footnote_rels@,
        ),
        d,
    );
}

proof fn lemma_hdrftr_rels_keep(out: Seq<(Seq<char>, Seq<RelSpec>)>, d: DocxDocument)
    requires
        out.len() > 0,
    ensures
        ({
            let noted = if d.comments@.len() > 0 {
                with_part_rels(out, "word/comments.xml"@, d.comment_rels@)
            } else {
                out
            };
            let all = with_hdrftr_rels(with_hdrftr_rels(noted, d.header_parts@), d.footer_parts@);
            all.len() > 0 && all[0] == out[0]
        }),
{
    let noted = if d.comments@.len() > 0 {
        with_part_rels(out, "word/comments.xml"@, d.comment_rels@)
    } else {
        out
    };
    lemma_rels_keep(noted, d.header_parts@);
    lemma_rels_keep(with_hdrftr_rels(noted, d.header_parts@), d.footer_parts@);
}

proof fn lemma_rels_keep(out: Seq<(Seq<char>, Seq<RelSpec>)>, parts: Seq<HdrFtrPart>)
    requires
        out.len() > 0,
    ensures
        with_hdrftr_rels(out, parts).len() > 0,
        with_hdrftr_rels(out, parts)[0] == out[0],
    decreases parts.len(),
{
    if parts.len() > 0 {
        lemma_rels_keep(out, parts.drop_last());
    }
}

/// Every relationship of the package itself leads to a part that it holds.
pub proof fn root_relationships_have_parts(d: DocxDocument, o: Outside, i: int)
    requires
        0 <= i < root_rels().len(),
    ensures
        has_part(package_parts(d, o), root_rels()[i].target),
{
    lemma_trailing_parts(d, o);
    lemma_package_holds(d, o, root_rels()[i].target);
}

/// No two parts share an identity among their paragraphs: the lanes that headers,
/// footers, notes and comments count in do not overlap each other, nor the lane
/// of the body, as long as no part holds more paragraphs than a lane has numbers.
pub proof fn lanes_are_disjoint(headers: int, footers: int, i: int, j: int)
    requires
        0 <= i < headers <= 0x300,
        0 <= j < footers <= 0x300,
    ensures
        0x10_0000 <= header_lane(i),
        header_lane(i) + 0x10_0000 <= footer_lane(j),
        footer_lane(j) + 0x10_0000 <= NOTES_LANE,
        NOTES_LANE + 0x10_0000 <= COMMENTS_LANE,
        COMMENTS_LANE + 0x10_0000 <= u32::MAX,
        forall|k: int|
            0 <= k < headers && k != i ==> header_lane(i) + 0x10_0000 <= #[trigger] header_lane(k)
                || header_lane(k) + 0x10_0000 <= header_lane(i),
        forall|k: int|
            0 <= k < footers && k != j ==> footer_lane(j) + 0x10_0000 <= #[trigger] footer_lane(k)
                || footer_lane(k) + 0x10_0000 <= footer_lane(j),
{
}

} // verus!
