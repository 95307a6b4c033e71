//! What the markup of metadata and settings says, read back from what is written.

use vstd::prelude::*;

use crate::bibliography::{WordPerson, WordSource};
use crate::dom::{DocumentInfo, DocxDocument};
use crate::encode::metadata::{
    core_xml, joined, known, nested_author, padded, person_xml, source_xml, sources_xml, text_xml,
    timestamp, with_author, with_text,
};
use crate::encode::reading::{part, reading};
use crate::encode::settings::{page_settings_xml, settings_xml};
use crate::text::{dec_nat, decimal_reads_back, decimal_value, opt_str};
use crate::xml::{El, Xml, el};

verus! {

proof fn source_words()
    ensures
        "b:Tag"@ != "b:SourceType"@,
        "b:Tag"@ != "b:Guid"@,
        "b:Tag"@ != "b:Author"@,
        "b:Tag"@ != "b:Title"@,
        "b:Tag"@ != "b:Year"@,
        "b:Tag"@ != "b:Publisher"@,
        "b:Tag"@ != "b:City"@,
        "b:Tag"@ != "b:JournalName"@,
        "b:Tag"@ != "b:Volume"@,
        "b:Tag"@ != "b:Issue"@,
        "b:Tag"@ != "b:Pages"@,
        "b:Tag"@ != "b:URL"@,
        "b:SourceType"@ != "b:Guid"@,
        "b:SourceType"@ != "b:Author"@,
        "b:SourceType"@ != "b:Title"@,
        "b:SourceType"@ != "b:Year"@,
        "b:SourceType"@ != "b:Publisher"@,
        "b:SourceType"@ != "b:City"@,
        "b:SourceType"@ != "b:JournalName"@,
        "b:SourceType"@ != "b:Volume"@,
        "b:SourceType"@ != "b:Issue"@,
        "b:SourceType"@ != "b:Pages"@,
        "b:SourceType"@ != "b:URL"@,
        "b:Guid"@ != "b:Author"@,
        "b:Guid"@ != "b:Title"@,
        "b:Guid"@ != "b:Year"@,
        "b:Guid"@ != "b:Publisher"@,
        "b:Guid"@ != "b:City"@,
        "b:Guid"@ != "b:JournalName"@,
        "b:Guid"@ != "b:Volume"@,
        "b:Guid"@ != "b:Issue"@,
        "b:Guid"@ != "b:Pages"@,
        "b:Guid"@ != "b:URL"@,
        "b:Author"@ != "b:Title"@,
        "b:Author"@ != "b:Year"@,
        "b:Author"@ != "b:Publisher"@,
        "b:Author"@ != "b:City"@,
        "b:Author"@ != "b:JournalName"@,
        "b:Author"@ != "b:Volume"@,
        "b:Author"@ != "b:Issue"@,
        "b:Author"@ != "b:Pages"@,
        "b:Author"@ != "b:URL"@,
        "b:Title"@ != "b:Year"@,
        "b:Title"@ != "b:Publisher"@,
        "b:Title"@ != "b:City"@,
        "b:Title"@ != "b:JournalName"@,
        "b:Title"@ != "b:Volume"@,
        "b:Title"@ != "b:Issue"@,
        "b:Title"@ != "b:Pages"@,
        "b:Title"@ != "b:URL"@,
        "b:Year"@ != "b:Publisher"@,
        "b:Year"@ != "b:City"@,
        "b:Year"@ != "b:JournalName"@,
        "b:Year"@ != "b:Volume"@,
        "b:Year"@ != "b:Issue"@,
        "b:Year"@ != "b:Pages"@,
        "b:Year"@ != "b:URL"@,
        "b:Publisher"@ != "b:City"@,
        "b:Publisher"@ != "b:JournalName"@,
        "b:Publisher"@ != "b:Volume"@,
        "b:Publisher"@ != "b:Issue"@,
        "b:Publisher"@ != "b:Pages"@,
        "b:Publisher"@ != "b:URL"@,
        "b:City"@ != "b:JournalName"@,
        "b:City"@ != "b:Volume"@,
        "b:City"@ != "b:Issue"@,
        "b:City"@ != "b:Pages"@,
        "b:City"@ != "b:URL"@,
        "b:JournalName"@ != "b:Volume"@,
        "b:JournalName"@ != "b:Issue"@,
        "b:JournalName"@ != "b:Pages"@,
        "b:JournalName"@ != "b:URL"@,
        "b:Volume"@ != "b:Issue"@,
        "b:Volume"@ != "b:Pages"@,
        "b:Volume"@ != "b:URL"@,
        "b:Issue"@ != "b:Pages"@,
        "b:Issue"@ != "b:URL"@,
        "b:Pages"@ != "b:URL"@,
        "b:Corporate"@ != "b:NameList"@,
        "b:Last"@ != "b:First"@,
{
    reveal_strlit("b:Tag");
    reveal_strlit("b:SourceType");
    reveal_strlit("b:Guid");
    reveal_strlit("b:Author");
    reveal_strlit("b:Title");
    reveal_strlit("b:Year");
    reveal_strlit("b:Publisher");
    reveal_strlit("b:City");
    reveal_strlit("b:JournalName");
    reveal_strlit("b:Volume");
    reveal_strlit("b:Issue");
    reveal_strlit("b:Pages");
    reveal_strlit("b:URL");
    reveal_strlit("b:Corporate");
    reveal_strlit("b:NameList");
    reveal_strlit("b:Last");
    reveal_strlit("b:First");
    assert("b:Tag"@.len() == 5);
    assert("b:SourceType"@.len() == 12);
    assert("b:Guid"@.len() == 6);
    assert("b:Author"@.len() == 8);
    assert("b:Title"@.len() == 7);
    assert("b:Year"@.len() == 6);
    assert("b:Publisher"@.len() == 11);
    assert("b:City"@.len() == 6);
    assert("b:JournalName"@.len() == 13);
    assert("b:Volume"@.len() == 8);
    assert("b:Issue"@.len() == 7);
    assert("b:Pages"@.len() == 7);
    assert("b:URL"@.len() == 5);
    assert("b:Corporate"@.len() == 11);
    assert("b:NameList"@.len() == 10);
    assert("b:Last"@.len() == 6);
    assert("b:First"@.len() == 7);
    assert("b:Tag"@[2] != "b:URL"@[2]);
    assert("b:Guid"@[2] != "b:Year"@[2]);
    assert("b:Guid"@[2] != "b:City"@[2]);
    assert("b:Author"@[2] != "b:Volume"@[2]);
    assert("b:Title"@[2] != "b:Issue"@[2]);
    assert("b:Title"@[2] != "b:Pages"@[2]);
    assert("b:Year"@[2] != "b:City"@[2]);
    assert("b:Issue"@[2] != "b:Pages"@[2]);
}

proof fn core_words()
    ensures
        "dc:title"@ != "dc:creator"@,
        "dc:title"@ != "cp:lastModifiedBy"@,
        "dc:title"@ != "dc:description"@,
        "dc:title"@ != "cp:keywords"@,
        "dc:title"@ != "cp:revision"@,
        "dc:title"@ != "dcterms:created"@,
        "dc:title"@ != "dcterms:modified"@,
        "dc:creator"@ != "cp:lastModifiedBy"@,
        "dc:creator"@ != "dc:description"@,
        "dc:creator"@ != "cp:keywords"@,
        "dc:creator"@ != "cp:revision"@,
        "dc:creator"@ != "dcterms:created"@,
        "dc:creator"@ != "dcterms:modified"@,
        "cp:lastModifiedBy"@ != "dc:description"@,
        "cp:lastModifiedBy"@ != "cp:keywords"@,
        "cp:lastModifiedBy"@ != "cp:revision"@,
        "cp:lastModifiedBy"@ != "dcterms:created"@,
        "cp:lastModifiedBy"@ != "dcterms:modified"@,
        "dc:description"@ != "cp:keywords"@,
        "dc:description"@ != "cp:revision"@,
        "dc:description"@ != "dcterms:created"@,
        "dc:description"@ != "dcterms:modified"@,
        "cp:keywords"@ != "cp:revision"@,
        "cp:keywords"@ != "dcterms:created"@,
        "cp:keywords"@ != "dcterms:modified"@,
        "cp:revision"@ != "dcterms:created"@,
        "cp:revision"@ != "dcterms:modified"@,
        "dcterms:created"@ != "dcterms:modified"@,
{
    reveal_strlit("dc:title");
    reveal_strlit("dc:creator");
    reveal_strlit("cp:lastModifiedBy");
    reveal_strlit("dc:description");
    reveal_strlit("cp:keywords");
    reveal_strlit("cp:revision");
    reveal_strlit("dcterms:created");
    reveal_strlit("dcterms:modified");
    assert("dc:title"@.len() == 8);
    assert("dc:creator"@.len() == 10);
    assert("cp:lastModifiedBy"@.len() == 17);
    assert("dc:description"@.len() == 14);
    assert("cp:keywords"@.len() == 11);
    assert("cp:revision"@.len() == 11);
    assert("dcterms:created"@.len() == 15);
    assert("dcterms:modified"@.len() == 16);
    assert("cp:keywords"@[3] != "cp:revision"@[3]);
}

proof fn setting_words()
    ensures
        "w:zoom"@ != "w:proofState"@,
        "w:zoom"@ != "w:mirrorMargins"@,
        "w:zoom"@ != "w:rtlGutter"@,
        "w:zoom"@ != "w:defaultTabStop"@,
        "w:zoom"@ != "w:autoHyphenation"@,
        "w:zoom"@ != "w:evenAndOddHeaders"@,
        "w:zoom"@ != "w:characterSpacingControl"@,
        "w:zoom"@ != "w:footnotePr"@,
        "w:zoom"@ != "w:endnotePr"@,
        "w:zoom"@ != "w:compat"@,
        "w:zoom"@ != "w:rsids"@,
        "w:zoom"@ != "m:mathPr"@,
        "w:zoom"@ != "w:clrSchemeMapping"@,
        "w:zoom"@ != "w:decimalSymbol"@,
        "w:zoom"@ != "w:listSeparator"@,
        "w:zoom"@ != "w14:docId"@,
        "w:proofState"@ != "w:mirrorMargins"@,
        "w:proofState"@ != "w:rtlGutter"@,
        "w:proofState"@ != "w:defaultTabStop"@,
        "w:proofState"@ != "w:autoHyphenation"@,
        "w:proofState"@ != "w:evenAndOddHeaders"@,
        "w:proofState"@ != "w:characterSpacingControl"@,
        "w:proofState"@ != "w:footnotePr"@,
        "w:proofState"@ != "w:endnotePr"@,
        "w:proofState"@ != "w:compat"@,
        "w:proofState"@ != "w:rsids"@,
        "w:proofState"@ != "m:mathPr"@,
        "w:proofState"@ != "w:clrSchemeMapping"@,
        "w:proofState"@ != "w:decimalSymbol"@,
        "w:proofState"@ != "w:listSeparator"@,
        "w:proofState"@ != "w14:docId"@,
        "w:mirrorMargins"@ != "w:rtlGutter"@,
        "w:mirrorMargins"@ != "w:defaultTabStop"@,
        "w:mirrorMargins"@ != "w:autoHyphenation"@,
        "w:mirrorMargins"@ != "w:evenAndOddHeaders"@,
        "w:mirrorMargins"@ != "w:characterSpacingControl"@,
        "w:mirrorMargins"@ != "w:footnotePr"@,
        "w:mirrorMargins"@ != "w:endnotePr"@,
        "w:mirrorMargins"@ != "w:compat"@,
        "w:mirrorMargins"@ != "w:rsids"@,
        "w:mirrorMargins"@ != "m:mathPr"@,
        "w:mirrorMargins"@ != "w:clrSchemeMapping"@,
        "w:mirrorMargins"@ != "w:decimalSymbol"@,
        "w:mirrorMargins"@ != "w:listSeparator"@,
        "w:mirrorMargins"@ != "w14:docId"@,
        "w:rtlGutter"@ != "w:defaultTabStop"@,
        "w:rtlGutter"@ != "w:autoHyphenation"@,
        "w:rtlGutter"@ != "w:evenAndOddHeaders"@,
        "w:rtlGutter"@ != "w:characterSpacingControl"@,
        "w:rtlGutter"@ != "w:footnotePr"@,
        "w:rtlGutter"@ != "w:endnotePr"@,
        "w:rtlGutter"@ != "w:compat"@,
        "w:rtlGutter"@ != "w:rsids"@,
        "w:rtlGutter"@ != "m:mathPr"@,
        "w:rtlGutter"@ != "w:clrSchemeMapping"@,
        "w:rtlGutter"@ != "w:decimalSymbol"@,
        "w:rtlGutter"@ != "w:listSeparator"@,
        "w:rtlGutter"@ != "w14:docId"@,
        "w:defaultTabStop"@ != "w:autoHyphenation"@,
        "w:defaultTabStop"@ != "w:evenAndOddHeaders"@,
        "w:defaultTabStop"@ != "w:characterSpacingControl"@,
        "w:defaultTabStop"@ != "w:footnotePr"@,
        "w:defaultTabStop"@ != "w:endnotePr"@,
        "w:defaultTabStop"@ != "w:compat"@,
        "w:defaultTabStop"@ != "w:rsids"@,
        "w:defaultTabStop"@ != "m:mathPr"@,
        "w:defaultTabStop"@ != "w:clrSchemeMapping"@,
        "w:defaultTabStop"@ != "w:decimalSymbol"@,
        "w:defaultTabStop"@ != "w:listSeparator"@,
        "w:defaultTabStop"@ != "w14:docId"@,
        "w:autoHyphenation"@ != "w:evenAndOddHeaders"@,
        "w:autoHyphenation"@ != "w:characterSpacingControl"@,
        "w:autoHyphenation"@ != "w:footnotePr"@,
        "w:autoHyphenation"@ != "w:endnotePr"@,
        "w:autoHyphenation"@ != "w:compat"@,
        "w:autoHyphenation"@ != "w:rsids"@,
        "w:autoHyphenation"@ != "m:mathPr"@,
        "w:autoHyphenation"@ != "w:clrSchemeMapping"@,
        "w:autoHyphenation"@ != "w:decimalSymbol"@,
        "w:autoHyphenation"@ != "w:listSeparator"@,
        "w:autoHyphenation"@ != "w14:docId"@,
        "w:evenAndOddHeaders"@ != "w:characterSpacingControl"@,
        "w:evenAndOddHeaders"@ != "w:footnotePr"@,
        "w:evenAndOddHeaders"@ != "w:endnotePr"@,
        "w:evenAndOddHeaders"@ != "w:compat"@,
        "w:evenAndOddHeaders"@ != "w:rsids"@,
        "w:evenAndOddHeaders"@ != "m:mathPr"@,
        "w:evenAndOddHeaders"@ != "w:clrSchemeMapping"@,
        "w:evenAndOddHeaders"@ != "w:decimalSymbol"@,
        "w:evenAndOddHeaders"@ != "w:listSeparator"@,
        "w:evenAndOddHeaders"@ != "w14:docId"@,
        "w:characterSpacingControl"@ != "w:footnotePr"@,
        "w:characterSpacingControl"@ != "w:endnotePr"@,
        "w:characterSpacingControl"@ != "w:compat"@,
        "w:characterSpacingControl"@ != "w:rsids"@,
        "w:characterSpacingControl"@ != "m:mathPr"@,
        "w:characterSpacingControl"@ != "w:clrSchemeMapping"@,
        "w:characterSpacingControl"@ != "w:decimalSymbol"@,
        "w:characterSpacingControl"@ != "w:listSeparator"@,
        "w:characterSpacingControl"@ != "w14:docId"@,
        "w:footnotePr"@ != "w:endnotePr"@,
        "w:footnotePr"@ != "w:compat"@,
        "w:footnotePr"@ != "w:rsids"@,
        "w:footnotePr"@ != "m:mathPr"@,
        "w:footnotePr"@ != "w:clrSchemeMapping"@,
        "w:footnotePr"@ != "w:decimalSymbol"@,
        "w:footnotePr"@ != "w:listSeparator"@,
        "w:footnotePr"@ != "w14:docId"@,
        "w:endnotePr"@ != "w:compat"@,
        "w:endnotePr"@ != "w:rsids"@,
        "w:endnotePr"@ != "m:mathPr"@,
        "w:endnotePr"@ != "w:clrSchemeMapping"@,
        "w:endnotePr"@ != "w:decimalSymbol"@,
        "w:endnotePr"@ != "w:listSeparator"@,
        "w:endnotePr"@ != "w14:docId"@,
        "w:compat"@ != "w:rsids"@,
        "w:compat"@ != "m:mathPr"@,
        "w:compat"@ != "w:clrSchemeMapping"@,
        "w:compat"@ != "w:decimalSymbol"@,
        "w:compat"@ != "w:listSeparator"@,
        "w:compat"@ != "w14:docId"@,
        "w:rsids"@ != "m:mathPr"@,
        "w:rsids"@ != "w:clrSchemeMapping"@,
        "w:rsids"@ != "w:decimalSymbol"@,
        "w:rsids"@ != "w:listSeparator"@,
        "w:rsids"@ != "w14:docId"@,
        "m:mathPr"@ != "w:clrSchemeMapping"@,
        "m:mathPr"@ != "w:decimalSymbol"@,
        "m:mathPr"@ != "w:listSeparator"@,
        "m:mathPr"@ != "w14:docId"@,
        "w:clrSchemeMapping"@ != "w:decimalSymbol"@,
        "w:clrSchemeMapping"@ != "w:listSeparator"@,
        "w:clrSchemeMapping"@ != "w14:docId"@,
        "w:decimalSymbol"@ != "w:listSeparator"@,
        "w:decimalSymbol"@ != "w14:docId"@,
        "w:listSeparator"@ != "w14:docId"@,
{
    reveal_strlit("w:zoom");
    reveal_strlit("w:proofState");
    reveal_strlit("w:mirrorMargins");
    reveal_strlit("w:rtlGutter");
    reveal_strlit("w:defaultTabStop");
    reveal_strlit("w:autoHyphenation");
    reveal_strlit("w:evenAndOddHeaders");
    reveal_strlit("w:characterSpacingControl");
    reveal_strlit("w:footnotePr");
    reveal_strlit("w:endnotePr");
    reveal_strlit("w:compat");
    reveal_strlit("w:rsids");
    reveal_strlit("m:mathPr");
    reveal_strlit("w:clrSchemeMapping");
    reveal_strlit("w:decimalSymbol");
    reveal_strlit("w:listSeparator");
    reveal_strlit("w14:docId");
    assert("w:zoom"@.len() == 6);
    assert("w:proofState"@.len() == 12);
    assert("w:mirrorMargins"@.len() == 15);
    assert("w:rtlGutter"@.len() == 11);
    assert("w:defaultTabStop"@.len() == 16);
    assert("w:autoHyphenation"@.len() == 17);
    assert("w:evenAndOddHeaders"@.len() == 19);
    assert("w:characterSpacingControl"@.len() == 25);
    assert("w:footnotePr"@.len() == 12);
    assert("w:endnotePr"@.len() == 11);
    assert("w:compat"@.len() == 8);
    assert("w:rsids"@.len() == 7);
    assert("m:mathPr"@.len() == 8);
    assert("w:clrSchemeMapping"@.len() == 18);
    assert("w:decimalSymbol"@.len() == 15);
    assert("w:listSeparator"@.len() == 15);
    assert("w14:docId"@.len() == 9);
    assert("w:proofState"@[2] != "w:footnotePr"@[2]);
    assert("w:mirrorMargins"@[2] != "w:decimalSymbol"@[2]);
    assert("w:mirrorMargins"@[2] != "w:listSeparator"@[2]);
    assert("w:rtlGutter"@[2] != "w:endnotePr"@[2]);
    assert("w:compat"@[0] != "m:mathPr"@[0]);
    assert("w:decimalSymbol"@[2] != "w:listSeparator"@[2]);
}

/// The text of the first child element of the given name.
pub open spec fn text_under(e: El, name: Seq<char>) -> Option<Seq<char>> {
    match part(e, name) {
        Some(p) => if p.children.len() == 1 && p.children[0] is Text {
            Some(p.children[0]->Text_0)
        } else {
            None
        },
        None => None,
    }
}

// -- Sources -----------------------------------------------------------------

/// Whether an element holds a text under a name, or nothing under it.
pub open spec fn holds_text(e: El, name: Seq<char>, text: Option<Seq<char>>) -> bool {
    text_under(e, name) == text && (text is None ==> part(e, name) is None)
}

proof fn lemma_with_text(e: El, name: Seq<char>, text: Option<Seq<char>>, n: Seq<char>)
    ensures
        n != name ==> part(with_text(e, name, text), n) == part(e, n),
        part(e, name) is None ==> holds_text(with_text(e, name, text), name, text),
{
    broadcast use reading;

}

/// What stands in front of the fields of a source.
spec fn source_head(s: WordSource) -> El {
    with_author(
        el("b:Source"@).elem(text_xml("b:Tag"@, s.tag@)).elem(
            text_xml("b:SourceType"@, s.source_type@),
        ).elem(text_xml("b:Guid"@, s.guid@)),
        s.author,
    )
}

proof fn lemma_head(s: WordSource, n: Seq<char>)
    requires
        n != "b:Author"@,
    ensures
        part(source_head(s), n) == part(
            el("b:Source"@).elem(text_xml("b:Tag"@, s.tag@)).elem(
                text_xml("b:SourceType"@, s.source_type@),
            ).elem(text_xml("b:Guid"@, s.guid@)),
            n,
        ),
{
    broadcast use reading;

}

proof fn lemma_fields(s: WordSource, n: Seq<char>)
    ensures
        n != "b:Title"@ && n != "b:Year"@ && n != "b:Publisher"@ && n != "b:City"@ && n
            != "b:JournalName"@ && n != "b:Volume"@ && n != "b:Issue"@ && n != "b:Pages"@ && n
            != "b:URL"@ ==> part(source_xml(s), n) == part(source_head(s), n),
        n == "b:Title"@ && part(source_head(s), n) is None ==> holds_text(
            source_xml(s),
            n,
            opt_str(s.title),
        ),
        n == "b:Year"@ && part(source_head(s), n) is None ==> holds_text(
            source_xml(s),
            n,
            opt_str(s.year),
        ),
        n == "b:Publisher"@ && part(source_head(s), n) is None ==> holds_text(
            source_xml(s),
            n,
            opt_str(s.publisher),
        ),
        n == "b:City"@ && part(source_head(s), n) is None ==> holds_text(
            source_xml(s),
            n,
            opt_str(s.city),
        ),
        n == "b:JournalName"@ && part(source_head(s), n) is None ==> holds_text(
            source_xml(s),
            n,
            opt_str(s.journal_name),
        ),
        n == "b:Volume"@ && part(source_head(s), n) is None ==> holds_text(
            source_xml(s),
            n,
            opt_str(s.volume),
        ),
        n == "b:Issue"@ && part(source_head(s), n) is None ==> holds_text(
            source_xml(s),
            n,
            opt_str(s.issue),
        ),
        n == "b:Pages"@ && part(source_head(s), n) is None ==> holds_text(
            source_xml(s),
            n,
            opt_str(s.pages),
        ),
        n == "b:URL"@ && part(source_head(s), n) is None ==> holds_text(
            source_xml(s),
            n,
            opt_str(s.url),
        ),
{
    source_words();
    let e0 = source_head(s);
    let e1 = with_text(e0, "b:Title"@, opt_str(s.title));
    lemma_with_text(e0, "b:Title"@, opt_str(s.title), n);
    let e2 = with_text(e1, "b:Year"@, opt_str(s.year));
    lemma_with_text(e1, "b:Year"@, opt_str(s.year), n);
    let e3 = with_text(e2, "b:Publisher"@, opt_str(s.publisher));
    lemma_with_text(e2, "b:Publisher"@, opt_str(s.publisher), n);
    let e4 = with_text(e3, "b:City"@, opt_str(s.city));
    lemma_with_text(e3, "b:City"@, opt_str(s.city), n);
    let e5 = with_text(e4, "b:JournalName"@, opt_str(s.journal_name));
    lemma_with_text(e4, "b:JournalName"@, opt_str(s.journal_name), n);
    let e6 = with_text(e5, "b:Volume"@, opt_str(s.volume));
    lemma_with_text(e5, "b:Volume"@, opt_str(s.volume), n);
    let e7 = with_text(e6, "b:Issue"@, opt_str(s.issue));
    lemma_with_text(e6, "b:Issue"@, opt_str(s.issue), n);
    let e8 = with_text(e7, "b:Pages"@, opt_str(s.pages));
    lemma_with_text(e7, "b:Pages"@, opt_str(s.pages), n);
    let e9 = with_text(e8, "b:URL"@, opt_str(s.url));
    lemma_with_text(e8, "b:URL"@, opt_str(s.url), n);
    assert(source_xml(s) == e9);
}

/// A source states its tag, its type, its identifier and every field that it has,
/// each under its own name.
pub proof fn sources_read_back(s: WordSource)
    ensures
        text_under(source_xml(s), "b:Tag"@) == Some(s.tag@),
        text_under(source_xml(s), "b:SourceType"@) == Some(s.source_type@),
        text_under(source_xml(s), "b:Guid"@) == Some(s.guid@),
        holds_text(source_xml(s), "b:Title"@, opt_str(s.title)),
        holds_text(source_xml(s), "b:Year"@, opt_str(s.year)),
        holds_text(source_xml(s), "b:Publisher"@, opt_str(s.publisher)),
        holds_text(source_xml(s), "b:City"@, opt_str(s.city)),
        holds_text(source_xml(s), "b:JournalName"@, opt_str(s.journal_name)),
        holds_text(source_xml(s), "b:Volume"@, opt_str(s.volume)),
        holds_text(source_xml(s), "b:Issue"@, opt_str(s.issue)),
        holds_text(source_xml(s), "b:Pages"@, opt_str(s.pages)),
        holds_text(source_xml(s), "b:URL"@, opt_str(s.url)),
{
    source_words();
    lemma_head(s, "b:Tag"@);
    lemma_fields(s, "b:Tag"@);
    lemma_bare(s, "b:Tag"@);
    lemma_head(s, "b:SourceType"@);
    lemma_fields(s, "b:SourceType"@);
    lemma_bare(s, "b:SourceType"@);
    lemma_head(s, "b:Guid"@);
    lemma_fields(s, "b:Guid"@);
    lemma_bare(s, "b:Guid"@);
    lemma_head(s, "b:Title"@);
    lemma_fields(s, "b:Title"@);
    lemma_bare(s, "b:Title"@);
    lemma_head(s, "b:Year"@);
    lemma_fields(s, "b:Year"@);
    lemma_bare(s, "b:Year"@);
    lemma_head(s, "b:Publisher"@);
    lemma_fields(s, "b:Publisher"@);
    lemma_bare(s, "b:Publisher"@);
    lemma_head(s, "b:City"@);
    lemma_fields(s, "b:City"@);
    lemma_bare(s, "b:City"@);
    lemma_head(s, "b:JournalName"@);
    lemma_fields(s, "b:JournalName"@);
    lemma_bare(s, "b:JournalName"@);
    lemma_head(s, "b:Volume"@);
    lemma_fields(s, "b:Volume"@);
    lemma_bare(s, "b:Volume"@);
    lemma_head(s, "b:Issue"@);
    lemma_fields(s, "b:Issue"@);
    lemma_bare(s, "b:Issue"@);
    lemma_head(s, "b:Pages"@);
    lemma_fields(s, "b:Pages"@);
    lemma_bare(s, "b:Pages"@);
    lemma_head(s, "b:URL"@);
    lemma_fields(s, "b:URL"@);
    lemma_bare(s, "b:URL"@);
}

proof fn lemma_bare(s: WordSource, n: Seq<char>)
    ensures
        ({
            let e = el("b:Source"@).elem(text_xml("b:Tag"@, s.tag@)).elem(
                text_xml("b:SourceType"@, s.source_type@),
            ).elem(text_xml("b:Guid"@, s.guid@));
            &&& n == "b:Tag"@ ==> holds_text(e, n, Some(s.tag@))
            &&& n == "b:SourceType"@ ==> holds_text(e, n, Some(s.source_type@))
            &&& n == "b:Guid"@ ==> holds_text(e, n, Some(s.guid@))
            &&& n != "b:Tag"@ && n != "b:SourceType"@ && n != "b:Guid"@ ==> part(e, n) is None
        }),
{
    broadcast use reading;

    source_words();
}

/// A source names its authors: people one by one in order, an organization by its
/// name, and nobody where there is nobody.
pub proof fn authors_read_back(s: WordSource)
    ensures
        s.author is Absent <==> part(source_xml(s), "b:Author"@) is None,
        !(s.author is Absent) ==> part(
            part(source_xml(s), "b:Author"@).unwrap(),
            "b:Author"@,
        ) is Some,
        s.author is Corporate ==> text_under(
            part(part(source_xml(s), "b:Author"@).unwrap(), "b:Author"@).unwrap(),
            "b:Corporate"@,
        ) == Some(s.author->Corporate_0@),
        s.author is Persons ==> {
            let author = part(part(source_xml(s), "b:Author"@).unwrap(), "b:Author"@).unwrap();
            let people = s.author->Persons_0@;
            &&& part(author, "b:NameList"@) is Some
            &&& part(author, "b:NameList"@).unwrap().children.len() == people.len()
            &&& forall|i: int|
                #![trigger people[i]]
                0 <= i < people.len() ==> part(author, "b:NameList"@).unwrap().children[i]
                    == Xml::El(person_xml(people[i]))
        },
{
    source_words();
    lemma_fields(s, "b:Author"@);
    lemma_bare(s, "b:Author"@);
    lemma_author(s);
}

proof fn lemma_author(s: WordSource)
    requires
        part(
            el("b:Source"@).elem(text_xml("b:Tag"@, s.tag@)).elem(
                text_xml("b:SourceType"@, s.source_type@),
            ).elem(text_xml("b:Guid"@, s.guid@)),
            "b:Author"@,
        ) is None,
    ensures
        s.author is Absent <==> part(source_head(s), "b:Author"@) is None,
        s.author is Corporate ==> part(source_head(s), "b:Author"@) == Some(
            nested_author(text_xml("b:Corporate"@, s.author->Corporate_0@)),
        ),
        s.author is Persons ==> part(source_head(s), "b:Author"@) == Some(
            nested_author(
                el("b:NameList"@).all(
                    s.author->Persons_0@.map_values(|p: WordPerson| Xml::El(person_xml(p))),
                ),
            ),
        ),
        s.author is Corporate ==> part(
            nested_author(text_xml("b:Corporate"@, s.author->Corporate_0@)),
            "b:Author"@,
        ) == Some(el("b:Author"@).elem(text_xml("b:Corporate"@, s.author->Corporate_0@))),
        s.author is Corporate ==> text_under(
            el("b:Author"@).elem(text_xml("b:Corporate"@, s.author->Corporate_0@)),
            "b:Corporate"@,
        ) == Some(s.author->Corporate_0@),
        s.author is Persons ==> {
            let list = el("b:NameList"@).all(
                s.author->Persons_0@.map_values(|p: WordPerson| Xml::El(person_xml(p))),
            );
            &&& part(nested_author(list), "b:Author"@) == Some(el("b:Author"@).elem(list))
            &&& part(el("b:Author"@).elem(list), "b:NameList"@) == Some(list)
            &&& list.children =~= s.author->Persons_0@.map_values(
                |p: WordPerson| Xml::El(person_xml(p)),
            )
        },
{
    broadcast use reading;

    source_words();
}

/// A person is stated by family name and, where there is one, given name.
pub proof fn persons_read_back(p: WordPerson)
    ensures
        person_xml(p).name == "b:Person"@,
        text_under(person_xml(p), "b:Last"@) == Some(p.last@),
        text_under(person_xml(p), "b:First"@) == (match p.first {
            Some(t) => Some(t@),
            None => None,
        }),
{
    broadcast use reading;

    source_words();
}

/// All sources are written, in order.
pub proof fn all_sources_are_written(sources: Seq<WordSource>)
    ensures
        sources_xml(sources).name == "b:Sources"@,
        sources_xml(sources).children.len() == sources.len(),
        forall|i: int|
            #![trigger sources[i]]
            0 <= i < sources.len() ==> sources_xml(sources).children[i] == Xml::El(
                source_xml(sources[i]),
            ),
{
}

// -- Properties --------------------------------------------------------------

/// The properties of a document state its title, its description, its authors and
/// its keywords, each where there are any, and its date as both of its moments.
pub proof fn document_properties_read_back(info: DocumentInfo)
    ensures
        core_xml(info).name == "cp:coreProperties"@,
        text_under(core_xml(info), "dc:title"@) == (match info.title {
            Some(t) => Some(t@),
            None => None,
        }),
        text_under(core_xml(info), "dc:description"@) == (match info.description {
            Some(t) => Some(t@),
            None => None,
        }),
        info.author@.len() == 0 ==> part(core_xml(info), "dc:creator"@) is None && part(
            core_xml(info),
            "cp:lastModifiedBy"@,
        ) is None,
        info.author@.len() > 0 ==> text_under(core_xml(info), "dc:creator"@) == Some(
            joined(info.author@, "; "@),
        ) && text_under(core_xml(info), "cp:lastModifiedBy"@) == Some(
            joined(info.author@, "; "@),
        ),
        info.keywords@.len() == 0 ==> part(core_xml(info), "cp:keywords"@) is None,
        info.keywords@.len() > 0 ==> text_under(core_xml(info), "cp:keywords"@) == Some(
            joined(info.keywords@, ", "@),
        ),
        info.date is Some && info.date.unwrap().year is Some ==> {
            let at = timestamp(info.date.unwrap(), info.date.unwrap().year.unwrap() as int);
            &&& text_under(core_xml(info), "dcterms:created"@) == Some(at)
            &&& text_under(core_xml(info), "dcterms:modified"@) == Some(at)
        },
        info.date is None ==> part(core_xml(info), "dcterms:created"@) is None,
{
    broadcast use reading;

    core_words();
    assert(crate::encode::metadata::moment_xml("dcterms:created"@, Seq::empty()).name
        == "dcterms:created"@);
}

/// Texts are joined in order with the separator between each two of them.
pub proof fn joining_separates(texts: Seq<String>, separator: Seq<char>)
    requires
        texts.len() >= 2,
    ensures
        joined(texts, separator) == joined(texts.drop_last(), separator) + separator
            + texts.last()@,
        joined(texts.take(1), separator) == texts[0]@,
{
}

/// A padded number is at least as wide as asked, and reads back as the number.
pub proof fn padded_numbers_read_back(n: nat, width: nat)
    ensures
        padded(n, width).len() >= width,
        decimal_value(padded(n, width)) == Some(n),
{
    decimal_reads_back(n);
    let digits = dec_nat(n);
    if digits.len() < width {
        lemma_leading_zeros((width - digits.len()) as nat, digits);
    }
}

proof fn lemma_leading_zeros(k: nat, digits: Seq<char>)
    ensures
        decimal_value(Seq::new(k, |i: int| '0') + digits) == decimal_value(digits),
    decreases digits.len(),
{
    let zeros = Seq::new(k, |i: int| '0');
    if digits.len() > 0 {
        lemma_leading_zeros(k, digits.drop_last());
        assert((zeros + digits).drop_last() =~= zeros + digits.drop_last());
        assert((zeros + digits).last() == digits.last());
    } else {
        assert(zeros + digits =~= zeros);
        lemma_zeros(k);
    }
}

proof fn lemma_zeros(k: nat)
    ensures
        decimal_value(Seq::new(k, |i: int| '0')) == Some(0nat),
    decreases k,
{
    if k > 0 {
        lemma_zeros((k - 1) as nat);
        let zeros = Seq::new(k, |i: int| '0');
        assert(zeros.drop_last() =~= Seq::new((k - 1) as nat, |i: int| '0'));
        assert(zeros.last() == '0');
    }
}

/// A part of a date that is not known is the one given instead.
pub proof fn unknown_parts_have_a_default(part: Option<u8>, otherwise: u8)
    ensures
        part is Some ==> known(part, otherwise) == part.unwrap(),
        part is None ==> known(part, otherwise) == otherwise,
{
}

// -- Settings ----------------------------------------------------------------

/// The settings say whether margins alternate, whether the gutter is on the right,
/// whether text is hyphenated, and whether headers differ between even and odd
/// pages.
pub proof fn settings_read_back(d: DocxDocument)
    ensures
        settings_xml(d).name == "w:settings"@,
        d.mirror_margins <==> part(settings_xml(d), "w:mirrorMargins"@) is Some,
        d.rtl_gutter <==> part(settings_xml(d), "w:rtlGutter"@) is Some,
        d.hyphenate <==> part(settings_xml(d), "w:autoHyphenation"@) is Some,
        d.even_and_odd_headers <==> part(settings_xml(d), "w:evenAndOddHeaders"@) is Some,
{
    broadcast use {reading, part_of_raw};

    setting_words();
    lemma_page_settings(d);
    assert(crate::encode::settings::compats_xml().name == "w:compat"@);
    assert(crate::encode::settings::math_props_xml().name == "m:mathPr"@);
    assert(crate::encode::settings::color_mapping_xml().name == "w:clrSchemeMapping"@);
}

proof fn lemma_raw(e: El, raw: Seq<char>, n: Seq<char>)
    ensures
        part(e.child(Xml::Raw(raw)), n) == part(e, n),
{
    assert(e.child(Xml::Raw(raw)).children.drop_last() =~= e.children);
}

proof fn lemma_page_settings(d: DocxDocument)
    ensures
        page_settings_xml(d).name == "w:settings"@,
        d.mirror_margins <==> part(page_settings_xml(d), "w:mirrorMargins"@) is Some,
        d.rtl_gutter <==> part(page_settings_xml(d), "w:rtlGutter"@) is Some,
        d.hyphenate <==> part(page_settings_xml(d), "w:autoHyphenation"@) is Some,
        d.even_and_odd_headers <==> part(page_settings_xml(d), "w:evenAndOddHeaders"@) is Some,
{
    broadcast use {reading, part_of_raw};

    setting_words();
    assert(crate::encode::settings::note_props_xml("w:footnotePr"@, "w:footnote"@).name
        == "w:footnotePr"@);
    assert(crate::encode::settings::note_props_xml("w:endnotePr"@, "w:endnote"@).name
        == "w:endnotePr"@);
}

pub broadcast proof fn part_of_raw(e: El, raw: Seq<char>, n: Seq<char>)
    ensures
        #[trigger] part(e.child(Xml::Raw(raw)), n) == part(e, n),
{
    lemma_raw(e, raw, n);
}

} // verus!
