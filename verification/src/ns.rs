//! Namespaces, relationship types and content types of the file format.

use vstd::prelude::*;

verus! {

pub const W: &'static str = "http://schemas.openxmlformats.org/wordprocessingml/2006/main";

pub const R: &'static str = "http://schemas.openxmlformats.org/officeDocument/2006/relationships";

pub const M: &'static str = "http://schemas.openxmlformats.org/officeDocument/2006/math";

pub const WP: &'static str = "http://schemas.openxmlformats.org/drawingml/2006/wordprocessingDrawing";

pub const A: &'static str = "http://schemas.openxmlformats.org/drawingml/2006/main";

pub const PIC: &'static str = "http://schemas.openxmlformats.org/drawingml/2006/picture";

pub const MC: &'static str = "http://schemas.openxmlformats.org/markup-compatibility/2006";

pub const W14: &'static str = "http://schemas.microsoft.com/office/word/2010/wordml";

pub const WP14: &'static str = "http://schemas.microsoft.com/office/word/2010/wordprocessingDrawing";

pub const WPS: &'static str = "http://schemas.microsoft.com/office/word/2010/wordprocessingShape";

pub const WPG: &'static str = "http://schemas.microsoft.com/office/word/2010/wordprocessingGroup";

pub const V: &'static str = "urn:schemas-microsoft-com:vml";

pub const O: &'static str = "urn:schemas-microsoft-com:office:office";

pub const ADEC: &'static str = "http://schemas.microsoft.com/office/drawing/2017/decorative";

/// Bibliography sources.
pub const B: &'static str = "http://schemas.openxmlformats.org/officeDocument/2006/bibliography";

/// Custom XML data stores.
pub const DS: &'static str = "http://schemas.openxmlformats.org/officeDocument/2006/customXml";

pub const CP: &'static str = "http://schemas.openxmlformats.org/package/2006/metadata/core-properties";

pub const DC: &'static str = "http://purl.org/dc/elements/1.1/";

pub const DCTERMS: &'static str = "http://purl.org/dc/terms/";

pub const DCMITYPE: &'static str = "http://purl.org/dc/dcmitype/";

pub const XSI: &'static str = "http://www.w3.org/2001/XMLSchema-instance";

pub const CUSTOM_PROPERTIES: &'static str = "http://schemas.openxmlformats.org/officeDocument/2006/custom-properties";

pub const DOC_PROPS_VTYPES: &'static str = "http://schemas.openxmlformats.org/officeDocument/2006/docPropsVTypes";

pub const EXTENDED_PROPS: &'static str = "http://schemas.openxmlformats.org/officeDocument/2006/extended-properties";

pub const TYPST_BIBLIOGRAPHY: &'static str = "https://typst.app/schema/2026/docx-bibliography";

pub const REL_OFFICE_DOCUMENT: &'static str = "http://schemas.openxmlformats.org/officeDocument/2006/relationships/officeDocument";

pub const REL_CORE_PROPS: &'static str = "http://schemas.openxmlformats.org/package/2006/relationships/metadata/core-properties";

pub const REL_EXTENDED_PROPS: &'static str = "http://schemas.openxmlformats.org/officeDocument/2006/relationships/extended-properties";

pub const REL_CUSTOM_PROPERTIES: &'static str = "http://schemas.openxmlformats.org/officeDocument/2006/relationships/custom-properties";

pub const REL_STYLES: &'static str = "http://schemas.openxmlformats.org/officeDocument/2006/relationships/styles";

pub const REL_NUMBERING: &'static str = "http://schemas.openxmlformats.org/officeDocument/2006/relationships/numbering";

pub const REL_FOOTNOTES: &'static str = "http://schemas.openxmlformats.org/officeDocument/2006/relationships/footnotes";

pub const REL_ENDNOTES: &'static str = "http://schemas.openxmlformats.org/officeDocument/2006/relationships/endnotes";

pub const REL_COMMENTS: &'static str = "http://schemas.openxmlformats.org/officeDocument/2006/relationships/comments";

pub const REL_SETTINGS: &'static str = "http://schemas.openxmlformats.org/officeDocument/2006/relationships/settings";

pub const REL_THEME: &'static str = "http://schemas.openxmlformats.org/officeDocument/2006/relationships/theme";

pub const REL_FONT_TABLE: &'static str = "http://schemas.openxmlformats.org/officeDocument/2006/relationships/fontTable";

pub const REL_FONT: &'static str = "http://schemas.openxmlformats.org/officeDocument/2006/relationships/font";

pub const REL_WEB_SETTINGS: &'static str = "http://schemas.openxmlformats.org/officeDocument/2006/relationships/webSettings";

pub const REL_CUSTOM_XML: &'static str = "http://schemas.openxmlformats.org/officeDocument/2006/relationships/customXml";

pub const REL_CUSTOM_XML_PROPS: &'static str = "http://schemas.openxmlformats.org/officeDocument/2006/relationships/customXmlProps";

pub const REL_BIBLIOGRAPHY: &'static str = "https://typst.app/schema/2026/relationships/bibliography";

pub const CT_XML: &'static str = "application/xml";

pub const CT_DOCUMENT: &'static str = "application/vnd.openxmlformats-officedocument.wordprocessingml.document.main+xml";

pub const CT_STYLES: &'static str = "application/vnd.openxmlformats-officedocument.wordprocessingml.styles+xml";

pub const CT_NUMBERING: &'static str = "application/vnd.openxmlformats-officedocument.wordprocessingml.numbering+xml";

pub const CT_FOOTNOTES: &'static str = "application/vnd.openxmlformats-officedocument.wordprocessingml.footnotes+xml";

pub const CT_ENDNOTES: &'static str = "application/vnd.openxmlformats-officedocument.wordprocessingml.endnotes+xml";

pub const CT_COMMENTS: &'static str = "application/vnd.openxmlformats-officedocument.wordprocessingml.comments+xml";

pub const CT_SETTINGS: &'static str = "application/vnd.openxmlformats-officedocument.wordprocessingml.settings+xml";

pub const CT_HEADER: &'static str = "application/vnd.openxmlformats-officedocument.wordprocessingml.header+xml";

pub const CT_FOOTER: &'static str = "application/vnd.openxmlformats-officedocument.wordprocessingml.footer+xml";

pub const CT_FONT_TABLE: &'static str = "application/vnd.openxmlformats-officedocument.wordprocessingml.fontTable+xml";

pub const CT_FONT: &'static str = "application/vnd.openxmlformats-officedocument.obfuscatedFont";

pub const CT_WEB_SETTINGS: &'static str = "application/vnd.openxmlformats-officedocument.wordprocessingml.webSettings+xml";

pub const CT_THEME: &'static str = "application/vnd.openxmlformats-officedocument.theme+xml";

pub const CT_CORE: &'static str = "application/vnd.openxmlformats-package.core-properties+xml";

pub const CT_EXTENDED: &'static str = "application/vnd.openxmlformats-officedocument.extended-properties+xml";

pub const CT_CUSTOM_PROPERTIES: &'static str = "application/vnd.openxmlformats-officedocument.custom-properties+xml";

pub const CT_CUSTOM_XML_PROPS: &'static str = "application/vnd.openxmlformats-officedocument.customXmlProperties+xml";

} // verus!
