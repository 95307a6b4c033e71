//! Which parts a package holds, and what they are declared to be.

use vstd::prelude::*;

use crate::dom::{DocxDocument, HdrFtrPart};
use crate::encode::metadata::{
    app_xml, core_xml, custom_properties_xml, item_props_xml, sources_xml, typst_bibliography_xml,
};
use crate::encode::package::{
    Outside, PartLook, footer_part_looks, header_part_looks, leading_parts, package_parts,
    root_rels, trailing_parts,
};
use crate::encode::parts::{
    comments_xml, document_xml, endnotes_xml, footnotes_xml, hdrftr_xml, numbering_xml,
};
use crate::encode::settings::settings_xml;
use crate::rels::RelMode;
use crate::xml::El;

verus! {

/// Whether parts hold one of the given path and content type.
pub open spec fn declares(parts: Seq<PartLook>, path: Seq<char>, content_type: Seq<char>) -> bool {
    exists|i: int|
        0 <= i < parts.len() && (#[trigger] parts[i]).path == path && parts[i].content_type
            == content_type
}

/// Whether parts hold a tree under a path, of the given content type.
pub open spec fn writes(
    parts: Seq<PartLook>,
    path: Seq<char>,
    content_type: Seq<char>,
    root: El,
) -> bool {
    exists|i: int|
        0 <= i < parts.len() && (#[trigger] parts[i]).path == path && parts[i].content_type
            == content_type && parts[i].body is Tree && parts[i].body->root == root
}

proof fn lemma_leading(d: DocxDocument)
    ensures
        ({
            let parts = leading_parts(d);
            &&& declares(
                parts,
                "word/styles.xml"@,
                "application/vnd.openxmlformats-officedocument.wordprocessingml.styles+xml"@,
            )
            &&& writes(
                parts,
                "word/settings.xml"@,
                "application/vnd.openxmlformats-officedocument.wordprocessingml.settings+xml"@,
                settings_xml(d),
            )
            &&& declares(
                parts,
                "word/theme/theme1.xml"@,
                "application/vnd.openxmlformats-officedocument.theme+xml"@,
            )
            &&& declares(
                parts,
                "word/fontTable.xml"@,
                "application/vnd.openxmlformats-officedocument.wordprocessingml.fontTable+xml"@,
            )
            &&& declares(
                parts,
                "word/webSettings.xml"@,
                "application/vnd.openxmlformats-officedocument.wordprocessingml.webSettings+xml"@,
            )
            &&& d.numbering.abstracts@.len() > 0 ==> writes(
                parts,
                "word/numbering.xml"@,
                "application/vnd.openxmlformats-officedocument.wordprocessingml.numbering+xml"@,
                numbering_xml(d.numbering),
            )
            &&& writes(
                parts,
                "word/footnotes.xml"@,
                "application/vnd.openxmlformats-officedocument.wordprocessingml.footnotes+xml"@,
                footnotes_xml(d.footnotes@),
            )
            &&& writes(
                parts,
                "word/endnotes.xml"@,
                "application/vnd.openxmlformats-officedocument.wordprocessingml.endnotes+xml"@,
                endnotes_xml(),
            )
            &&& d.comments@.len() > 0 ==> writes(
                parts,
                "word/comments.xml"@,
                "application/vnd.openxmlformats-officedocument.wordprocessingml.comments+xml"@,
                comments_xml(d.comments@),
            )
        }),
{
    let parts = leading_parts(d);
    assert(parts[0].path == "word/styles.xml"@);
    assert(parts[1].path == "word/settings.xml"@);
    assert(parts[2].path == "word/theme/theme1.xml"@);
    assert(parts[3].path == "word/fontTable.xml"@);
    assert(parts[4].path == "word/webSettings.xml"@);
    let k: int = if d.numbering.abstracts@.len() > 0 {
        6
    } else {
        5
    };
    if d.numbering.abstracts@.len() > 0 {
        assert(parts[5].path == "word/numbering.xml"@);
    }
    assert(parts[k].path == "word/footnotes.xml"@);
    assert(parts[k + 1].path == "word/endnotes.xml"@);
    if d.comments@.len() > 0 {
        assert(parts[k + 2].path == "word/comments.xml"@);
    }
}

proof fn lemma_trailing(d: DocxDocument, o: Outside)
    ensures
        ({
            let parts = trailing_parts(d, o);
            &&& writes(
                parts,
                "word/document.xml"@,
                "application/vnd.openxmlformats-officedocument.wordprocessingml.document.main+xml"@,
                document_xml(d),
            )
            &&& writes(
                parts,
                "docProps/core.xml"@,
                "application/vnd.openxmlformats-package.core-properties+xml"@,
                core_xml(d.info),
            )
            &&& writes(
                parts,
                "docProps/app.xml"@,
                "application/vnd.openxmlformats-officedocument.extended-properties+xml"@,
                app_xml(),
            )
            &&& writes(
                parts,
                "docProps/custom.xml"@,
                "application/vnd.openxmlformats-officedocument.custom-properties+xml"@,
                custom_properties_xml(o.manifest@),
            )
            &&& declares(parts, "customXml/typstFidelity.xml"@, "application/xml"@)
            &&& d.word_sources@.len() > 0 ==> writes(
                parts,
                "customXml/item1.xml"@,
                "application/xml"@,
                sources_xml(d.word_sources@),
            )
            &&& d.word_sources@.len() > 0 ==> writes(
                parts,
                "customXml/itemProps1.xml"@,
                "application/vnd.openxmlformats-officedocument.customXmlProperties+xml"@,
                item_props_xml(o.sources_guid@),
            )
            &&& d.bibliography is Some ==> writes(
                parts,
                "word/typstBibliography.xml"@,
                "application/xml"@,
                typst_bibliography_xml(d.bibliography.unwrap()@),
            )
        }),
{
    let parts = trailing_parts(d, o);
    let n = parts.len() as int;
    assert(parts[n - 1].path == "docProps/custom.xml"@);
    assert(parts[n - 2].path == "docProps/app.xml"@);
    assert(parts[n - 3].path == "docProps/core.xml"@);
    assert(parts[n - 4].path == "word/document.xml"@);
    assert(parts[n - 5].path == "customXml/typstFidelity.xml"@);
    if d.word_sources@.len() > 0 {
        assert(parts[n - 6].path == "customXml/itemProps1.xml"@);
        assert(parts[n - 7].path == "customXml/item1.xml"@);
    }
    if d.bibliography is Some {
        assert(parts[0].path == "word/typstBibliography.xml"@);
    }
}

proof fn lemma_inside(
    a: Seq<PartLook>,
    b: Seq<PartLook>,
    c: Seq<PartLook>,
    path: Seq<char>,
    content_type: Seq<char>,
    root: El,
)
    ensures
        declares(b, path, content_type) ==> declares(a + b + c, path, content_type),
        writes(b, path, content_type, root) ==> writes(a + b + c, path, content_type, root),
{
    let all = a + b + c;
    if declares(b, path, content_type) {
        let i = choose|i: int|
            0 <= i < b.len() && (#[trigger] b[i]).path == path && b[i].content_type
                == content_type;
        assert(all[a.len() + i] == b[i]);
    }
    if writes(b, path, content_type, root) {
        let i = choose|i: int|
            0 <= i < b.len() && (#[trigger] b[i]).path == path && b[i].content_type
                == content_type && b[i].body is Tree && b[i].body->root == root;
        assert(all[a.len() + i] == b[i]);
    }
}

/// The text of a document, its properties, its notes and its settings are written
/// under their paths and declared as what they are. Lists, comments, sources and the
/// bibliography are there where the document has any.
pub proof fn parts_are_declared_as_what_they_are(d: DocxDocument, o: Outside)
    ensures
        ({
            let parts = package_parts(d, o);
            &&& writes(
                parts,
                "word/document.xml"@,
                "application/vnd.openxmlformats-officedocument.wordprocessingml.document.main+xml"@,
                document_xml(d),
            )
            &&& writes(
                parts,
                "word/settings.xml"@,
                "application/vnd.openxmlformats-officedocument.wordprocessingml.settings+xml"@,
                settings_xml(d),
            )
            &&& writes(
                parts,
                "word/footnotes.xml"@,
                "application/vnd.openxmlformats-officedocument.wordprocessingml.footnotes+xml"@,
                footnotes_xml(d.footnotes@),
            )
            &&& writes(
                parts,
                "docProps/core.xml"@,
                "application/vnd.openxmlformats-package.core-properties+xml"@,
                core_xml(d.info),
            )
            &&& d.numbering.abstracts@.len() > 0 ==> writes(
                parts,
                "word/numbering.xml"@,
                "application/vnd.openxmlformats-officedocument.wordprocessingml.numbering+xml"@,
                numbering_xml(d.numbering),
            )
            &&& d.comments@.len() > 0 ==> writes(
                parts,
                "word/comments.xml"@,
                "application/vnd.openxmlformats-officedocument.wordprocessingml.comments+xml"@,
                comments_xml(d.comments@),
            )
            &&& d.word_sources@.len() > 0 ==> writes(
                parts,
                "customXml/item1.xml"@,
                "application/xml"@,
                sources_xml(d.word_sources@),
            )
            &&& d.bibliography is Some ==> writes(
                parts,
                "word/typstBibliography.xml"@,
                "application/xml"@,
                typst_bibliography_xml(d.bibliography.unwrap()@),
            )
            &&& declares(
                parts,
                "word/styles.xml"@,
                "application/vnd.openxmlformats-officedocument.wordprocessingml.styles+xml"@,
            )
            &&& declares(
                parts,
                "word/fontTable.xml"@,
                "application/vnd.openxmlformats-officedocument.wordprocessingml.fontTable+xml"@,
            )
        }),
{
    lemma_leading(d);
    lemma_trailing(d, o);
    let none = Seq::<PartLook>::empty();
    let lead = leading_parts(d);
    let trail = trailing_parts(d, o);
    let all = package_parts(d, o);
    let rest = all.skip(lead.len() as int);
    let front = all.take(all.len() - trail.len());
    assert(all =~= none + lead + rest);
    assert(all =~= front + trail + none);
    let doc = document_xml(d);
    let ct = "application/vnd.openxmlformats-officedocument.wordprocessingml.document.main+xml"@;
    lemma_inside(front, trail, none, "word/document.xml"@, ct, doc);
    lemma_inside(
        none,
        lead,
        rest,
        "word/settings.xml"@,
        "application/vnd.openxmlformats-officedocument.wordprocessingml.settings+xml"@,
        settings_xml(d),
    );
    lemma_inside(
        none,
        lead,
        rest,
        "word/footnotes.xml"@,
        "application/vnd.openxmlformats-officedocument.wordprocessingml.footnotes+xml"@,
        footnotes_xml(d.footnotes@),
    );
    lemma_inside(
        front,
        trail,
        none,
        "docProps/core.xml"@,
        "application/vnd.openxmlformats-package.core-properties+xml"@,
        core_xml(d.info),
    );
    lemma_inside(
        none,
        lead,
        rest,
        "word/numbering.xml"@,
        "application/vnd.openxmlformats-officedocument.wordprocessingml.numbering+xml"@,
        numbering_xml(d.numbering),
    );
    lemma_inside(
        none,
        lead,
        rest,
        "word/comments.xml"@,
        "application/vnd.openxmlformats-officedocument.wordprocessingml.comments+xml"@,
        comments_xml(d.comments@),
    );
    lemma_inside(
        front,
        trail,
        none,
        "customXml/item1.xml"@,
        "application/xml"@,
        sources_xml(d.word_sources@),
    );
    if d.bibliography is Some {
        lemma_inside(
            front,
            trail,
            none,
            "word/typstBibliography.xml"@,
            "application/xml"@,
            typst_bibliography_xml(d.bibliography.unwrap()@),
        );
    }
    lemma_inside(
        none,
        lead,
        rest,
        "word/styles.xml"@,
        "application/vnd.openxmlformats-officedocument.wordprocessingml.styles+xml"@,
        doc,
    );
    lemma_inside(
        none,
        lead,
        rest,
        "word/fontTable.xml"@,
        "application/vnd.openxmlformats-officedocument.wordprocessingml.fontTable+xml"@,
        doc,
    );
}

/// Every header is written as a header and every footer as a footer, under its
/// name.
pub proof fn headers_and_footers_are_declared_apart(parts: Seq<HdrFtrPart>, i: int)
    requires
        0 <= i < parts.len(),
    ensures
        header_part_looks(parts).len() == parts.len(),
        header_part_looks(parts)[i].path == "word/"@ + parts[i].part_name@,
        header_part_looks(parts)[i].content_type
            == "application/vnd.openxmlformats-officedocument.wordprocessingml.header+xml"@,
        header_part_looks(parts)[i].body is Tree,
        header_part_looks(parts)[i].body->root == hdrftr_xml(parts[i]),
        footer_part_looks(parts).len() == parts.len(),
        footer_part_looks(parts)[i].path == "word/"@ + parts[i].part_name@,
        footer_part_looks(parts)[i].content_type
            == "application/vnd.openxmlformats-officedocument.wordprocessingml.footer+xml"@,
        footer_part_looks(parts)[i].body is Tree,
        footer_part_looks(parts)[i].body->root == hdrftr_xml(parts[i]),
{
}

/// A package leads to its document and its properties.
pub proof fn packages_lead_to_their_document()
    ensures
        root_rels().len() == 4,
        root_rels()[0].ty
            == "http://schemas.openxmlformats.org/officeDocument/2006/relationships/officeDocument"@,
        root_rels()[0].target == "word/document.xml"@,
        root_rels()[1].target == "docProps/core.xml"@,
        root_rels()[2].target == "docProps/app.xml"@,
        root_rels()[3].target == "docProps/custom.xml"@,
        forall|i: int| 0 <= i < 4 ==> (#[trigger] root_rels()[i]).mode == RelMode::Internal,
{
}

} // verus!
