//! The parts of the package.

use typst_docx::bibliography::{WordAuthor, WordPerson, WordSource};
use typst_docx::dom::{
    AbstractNum, Anchor, AnchorPos, AnchorWrap, Block, Border, BreakKind, Cell, CellBorders,
    CellMargins, Comment, Datetime, DocumentInfo, DocxDocument, Drawing, EmbeddedFontProgram,
    EmbeddedFontStyle, Field, FieldCacheStatus,
    FieldDisplay, FieldMode, Footnote, GradientStop, GroupChild, GroupSpec, HdrFtrPart, HdrFtrRef,
    LineNumbering, ListLevel, MultiLevelType, NumFmt, NumInstance, NumberingTable, Para,
    ParaChild, ParaProps, PgNumType, PicClip, PicGeom, Row, RowHeight, Run, RunProps, SectPr,
    SectType, ShapeFill, ShapeGeom, ShapeSpec, ShapeStroke, Tag, Tbl, TblProps, TextBox,
    TextBoxWrap, TextDefaults, Toc, VAlign, VMerge,
};
use typst_docx::encode::body::{
    write_block, write_content, write_drawing, write_para_child, write_run,
};
use typst_docx::encode::metadata::{
    build_app, build_core, build_custom_properties, build_item_props, build_typst_bibliography,
    build_word_sources, w3cdtf,
};
use typst_docx::encode::fonts::obfuscate;
use typst_docx::encode::package::{
    DocxOptions, Outside, PackagePlan, PartBody, checked_parts, docx, finished_package,
    registered_rels,
};
use typst_docx::encode::parts::{
    build_comments, build_document, build_endnotes, build_footnotes, build_hdrftr,
    build_numbering,
};
use typst_docx::encode::section::write_sectpr;
use typst_docx::encode::settings::{build_settings, doc_fingerprint};
use typst_docx::ns;
use typst_docx::rels::{RelMode, Rels};
use typst_docx::xml::{Elem, Node, Owed};

fn show_elem(e: &Elem, out: &mut String) {
    out.push_str(&format!("<{}", e.name));
    for a in &e.attrs {
        out.push_str(&format!(" {}={:?}", a.name, a.value));
    }
    if e.children.is_empty() {
        out.push_str("/>");
        return;
    }
    out.push('>');
    for c in &e.children {
        show_node(c, out);
    }
    out.push_str(&format!("</{}>", e.name));
}

fn show_node(n: &Node, out: &mut String) {
    match n {
        Node::Elem(e) => show_elem(e, out),
        Node::Para(children) => {
            out.push_str("<P>");
            for c in children {
                show_node(c, out);
            }
            out.push_str("</P>");
        }
        Node::Text(s) => out.push_str(s),
        Node::Raw(s) => out.push_str(&format!("[{s}]")),
        Node::Owed(o) => out.push_str(match o {
            Owed::ParaProps(_) => "{pPr}",
            Owed::Spacer(_) => "{spacer}",
            Owed::RunProps(_) => "{rPr}",
            Owed::Blip { .. } => "{blip}",
            Owed::PresetGeom { .. } => "{preset}",
            Owed::CustomGeom { .. } => "{custom}",
            Owed::Fill(_) => "{fill}",
            Owed::Stroke(_) => "{stroke}",
            Owed::Language { .. } => "{lang}",
        }),
    }
}

fn show(nodes: &Vec<Node>) -> String {
    let mut out = String::new();
    for n in nodes {
        show_node(n, &mut out);
    }
    out
}

fn shown(e: Elem) -> String {
    let mut out = String::new();
    show_elem(&e, &mut out);
    out
}

fn text(s: &str) -> Run {
    Run::Text { props: RunProps::default(), text: s.into() }
}

fn para(runs: Vec<Run>) -> Block {
    Block::Para(Para {
        props: ParaProps::default(),
        content: runs.into_iter().map(ParaChild::Run).collect(),
    })
}

const TEXT_X: &str = "<w:r>{rPr}<w:t xml:space=\"preserve\">x</w:t></w:r>";

#[test]
fn runs_have_their_markup() {
    assert_eq!(show(&write_run(&text("x"))), TEXT_X);
    let br = Run::Break { kind: BreakKind::Authored };
    assert_eq!(show(&write_run(&br)), "<w:r><w:br/></w:r>");
    assert_eq!(show(&write_run(&Run::PageBreak)), "<w:r><w:br w:type=\"page\"/></w:r>");
    assert_eq!(show(&write_run(&Run::ColumnBreak)), "<w:r><w:br w:type=\"column\"/></w:r>");
    assert_eq!(show(&write_run(&Run::Tab)), "<w:r><w:tab/></w:r>");
    assert_eq!(show(&write_run(&Run::FillTab)), "<w:r><w:tab/></w:r>");
    assert_eq!(show(&write_run(&Run::OmmlInline("<m/>".into()))), "[<m/>]");
    assert_eq!(
        show(&write_run(&Run::FootnoteRefMark)),
        "<w:r><w:rPr><w:rStyle w:val=\"FootnoteReference\"/></w:rPr><w:footnoteRef/></w:r>"
    );
    let note = Run::FootnoteRef {
        props: RunProps::default(),
        id: 2,
        bookmark: Some((5, "_Ref5".into())),
    };
    assert_eq!(
        show(&write_run(&note)),
        "<w:bookmarkStart w:id=\"5\" w:name=\"_Ref5\"/>\
         <w:r>{rPr}<w:footnoteReference w:id=\"2\"/></w:r><w:bookmarkEnd w:id=\"5\"/>"
    );
}

fn field(display: FieldDisplay, mode: FieldMode, result: Vec<Run>) -> Run {
    Run::Field(Field {
        instr: " PAGE ".into(),
        result,
        mode,
        display,
        cache_status: FieldCacheStatus::Resolved,
    })
}

#[test]
fn fields_open_and_close() {
    assert_eq!(
        show(&write_run(&field(FieldDisplay::Visible, FieldMode::Static, vec![text("x")]))),
        format!(
            "<w:r><w:fldChar w:fldCharType=\"begin\" w:fldLock=\"true\"/></w:r>\
             <w:r><w:instrText xml:space=\"preserve\"> PAGE </w:instrText></w:r>\
             <w:r><w:fldChar w:fldCharType=\"separate\"/></w:r>{TEXT_X}\
             <w:r><w:fldChar w:fldCharType=\"end\"/></w:r>"
        )
    );
    let hidden = "<w:r><w:rPr><w:vanish/></w:rPr>";
    assert_eq!(
        show(&write_run(&field(FieldDisplay::Hidden, FieldMode::Live, vec![]))),
        format!(
            "{hidden}<w:fldChar w:fldCharType=\"begin\"/></w:r>\
             {hidden}<w:instrText xml:space=\"preserve\"> PAGE </w:instrText></w:r>\
             {hidden}<w:fldChar w:fldCharType=\"separate\"/></w:r>\
             {hidden}<w:t xml:space=\"preserve\">\u{200b}</w:t></w:r>\
             {hidden}<w:fldChar w:fldCharType=\"end\"/></w:r>"
        )
    );
}

#[test]
fn paragraph_children_have_their_markup() {
    let link = ParaChild::Hyperlink {
        rel: Some("rId3".into()),
        anchor: Some("top".into()),
        runs: vec![text("x")],
    };
    assert_eq!(
        show(&write_para_child(&link)),
        format!(
            "<w:hyperlink r:id=\"rId3\" w:anchor=\"top\" w:history=\"1\">{TEXT_X}</w:hyperlink>"
        )
    );
    let range = ParaChild::CommentRangeStart { id: 4 };
    assert_eq!(show(&write_para_child(&range)), "<w:commentRangeStart w:id=\"4\"/>");
    let math = ParaChild::OmmlPara("<m/>".into());
    assert_eq!(show(&write_para_child(&math)), "[<m/>]");
    let tag = ParaChild::Tag(Tag::End { location: typst_docx::dom::Location(1) });
    assert_eq!(show(&write_para_child(&tag)), "");
}

#[test]
fn containers_end_in_a_paragraph() {
    assert_eq!(show(&write_content(&vec![])), "<w:p/>");
    assert_eq!(show(&write_content(&vec![para(vec![])])), "<P>{pPr}</P>");
    let tag = Block::Tag(Tag::End { location: typst_docx::dom::Location(1) });
    assert_eq!(show(&write_content(&vec![para(vec![]), tag])), "<P>{pPr}</P><w:p/>");
    assert_eq!(
        show(&write_content(&vec![Block::FlowSpace { dxa: 0 }])),
        "<P>{spacer}</P>"
    );
    let table = Block::Table(Tbl { props: TblProps::default(), grid: vec![], rows: vec![] });
    assert!(show(&write_content(&vec![table])).ends_with("</w:tbl><w:p/>"));
}

#[test]
fn spacers_are_at_least_one_twip_high() {
    for (dxa, line) in [(0, 1), (1, 1), (300, 300), (-5, 1)] {
        let block = Block::FlowSpace { dxa };
        let nodes = write_block(&block);
        match &nodes[0] {
            Node::Para(children) => match &children[0] {
                Node::Owed(Owed::Spacer(props)) => {
                    assert_eq!(props.spacing.unwrap().line, Some(line));
                }
                _ => panic!("a spacer"),
            },
            _ => panic!("a paragraph"),
        }
    }
}

fn cell(blocks: Vec<Block>) -> Cell {
    Cell {
        w_dxa: Some(900),
        grid_span: 2,
        v_merge: Some(VMerge::Restart),
        borders: CellBorders {
            top: Some(Border { sz: 4, color: [255, 0, 16] }),
            ..CellBorders::default()
        },
        shd_fill: Some([1, 2, 3]),
        margins: CellMargins::default(),
        valign: Some(VAlign::Center),
        blocks,
    }
}

#[test]
fn tables_state_their_geometry() {
    let row = Row {
        header: true,
        cant_split: true,
        height: Some(RowHeight { val: 240, exact: false }),
        cells: vec![cell(vec![para(vec![])])],
    };
    let mut props = TblProps::default();
    props.ind_dxa = Some(-30);
    let table = Block::Table(Tbl { props, grid: vec![400, 500], rows: vec![row] });
    let xml = show(&write_block(&table));
    assert!(xml.starts_with(
        "<w:tbl><w:tblPr><w:tblW w:w=\"0\" w:type=\"auto\"/>\
         <w:tblInd w:w=\"-30\" w:type=\"dxa\"/><w:tblBorders><w:top w:val=\"single\" w:sz=\"4\" \
         w:space=\"0\" w:color=\"auto\"/>"
    ));
    assert!(xml.contains("<w:tblGrid><w:gridCol w:w=\"400\"/><w:gridCol w:w=\"500\"/></w:tblGrid>"));
    assert!(xml.contains(
        "<w:tr><w:trPr><w:trHeight w:val=\"240\" w:hRule=\"atLeast\"/><w:tblHeader/>\
         <w:cantSplit/></w:trPr><w:tc><w:tcPr><w:tcW w:w=\"900\" w:type=\"dxa\"/>\
         <w:gridSpan w:val=\"2\"/><w:vMerge w:val=\"restart\"/><w:tcBorders>\
         <w:top w:val=\"single\" w:sz=\"4\" w:space=\"0\" w:color=\"FF0010\"/>\
         <w:left w:val=\"nil\"/><w:bottom w:val=\"nil\"/><w:right w:val=\"nil\"/></w:tcBorders>\
         <w:shd w:val=\"clear\" w:color=\"auto\" w:fill=\"010203\"/>\
         <w:vAlign w:val=\"center\"/></w:tcPr><P>{pPr}</P></w:tc></w:tr>"
    ));
}

#[test]
fn section_properties_keep_their_order() {
    let mut sect = SectPr::default();
    sect.landscape = true;
    sect.columns = 2;
    sect.title_pg = true;
    sect.vertical_align = Some(VAlign::Bottom);
    sect.sect_type = Some(SectType::OddPage);
    sect.headers = vec![HdrFtrRef { kind: "first", rel: "rId1".into() }];
    sect.footers = vec![HdrFtrRef { kind: "default", rel: "rId2".into() }];
    sect.line_numbers =
        Some(LineNumbering { count_by: 5, start: 0, restart: "newPage", distance: 200 });
    sect.pg_num = Some(PgNumType { fmt: "lowerRoman", start: Some(3) });
    assert_eq!(
        shown(write_sectpr(&sect)),
        "<w:sectPr><w:headerReference w:type=\"first\" r:id=\"rId1\"/>\
         <w:footerReference w:type=\"default\" r:id=\"rId2\"/><w:type w:val=\"oddPage\"/>\
         <w:pgSz w:w=\"12240\" w:h=\"15840\" w:orient=\"landscape\"/>\
         <w:pgMar w:top=\"1440\" w:right=\"1440\" w:bottom=\"1440\" w:left=\"1440\" \
         w:header=\"720\" w:footer=\"720\" w:gutter=\"0\"/>\
         <w:lnNumType w:countBy=\"5\" w:start=\"0\" w:restart=\"newPage\" w:distance=\"200\"/>\
         <w:pgNumType w:fmt=\"lowerRoman\" w:start=\"3\"/>\
         <w:cols w:num=\"2\" w:space=\"720\" w:equalWidth=\"1\"/><w:vAlign w:val=\"bottom\"/>\
         <w:titlePg/><w:docGrid w:linePitch=\"360\"/></w:sectPr>"
    );
    assert_eq!(
        show(&write_block(&Block::SectionBreak(SectPr::default()))),
        format!("<P><w:pPr>{}</w:pPr></P>", shown(write_sectpr(&SectPr::default())))
    );
}

fn drawing() -> Drawing {
    Drawing {
        rel: "rId7".into(),
        svg_rel: None,
        compatibility_split_ids: None,
        w_emu: 12700,
        h_emu: 25400,
        source_offset_emu: [0, 0],
        alt: Some("a map".into()),
        decorative: false,
        docpr_id: 3,
        name: "Picture 3".into(),
        anchor: None,
        shape: None,
        group: None,
        pic_clip: PicClip::default(),
    }
}

#[test]
fn pictures_are_inline_or_floating() {
    let xml = shown(write_drawing(&drawing()));
    assert!(xml.starts_with(
        "<w:r><w:drawing><wp:inline distT=\"0\" distB=\"0\" distL=\"0\" distR=\"0\">\
         <wp:extent cx=\"12700\" cy=\"25400\"/>\
         <wp:effectExtent l=\"0\" t=\"0\" r=\"0\" b=\"0\"/>\
         <wp:docPr id=\"3\" name=\"Picture 3\" descr=\"a map\"/>"
    ));
    assert!(xml.contains(
        "<pic:blipFill>{blip}<a:stretch><a:fillRect/></a:stretch></pic:blipFill>\
         <pic:spPr><a:xfrm><a:off x=\"0\" y=\"0\"/><a:ext cx=\"12700\" cy=\"25400\"/></a:xfrm>\
         <a:prstGeom prst=\"rect\"><a:avLst/></a:prstGeom></pic:spPr>"
    ));
    let mut d = drawing();
    d.decorative = true;
    d.pic_clip =
        PicClip { geom: PicGeom::RoundRect { adj_100k: 50000 }, src_rect: Some([1, 2, 3, 4]) };
    d.anchor = Some(Anchor {
        z: 9,
        pos_h: AnchorPos { rel_from: "page", align: Some("center"), offset: None },
        pos_v: AnchorPos { rel_from: "margin", align: None, offset: Some(-40) },
        wrap: AnchorWrap::Square("bothSides"),
        dist: [1, 2, 3, 4],
        behind: true,
    });
    let xml = shown(write_drawing(&d));
    assert!(xml.contains(
        "<wp:anchor distT=\"1\" distB=\"2\" distL=\"3\" distR=\"4\" simplePos=\"0\" \
         relativeHeight=\"9\" behindDoc=\"1\" locked=\"0\" layoutInCell=\"1\" \
         allowOverlap=\"1\"><wp:simplePos x=\"0\" y=\"0\"/>\
         <wp:positionH relativeFrom=\"page\"><wp:align>center</wp:align></wp:positionH>\
         <wp:positionV relativeFrom=\"margin\"><wp:posOffset>-40</wp:posOffset></wp:positionV>"
    ));
    assert!(xml.contains("<wp:wrapSquare wrapText=\"bothSides\"/>"));
    assert!(xml.contains("val=\"1\"/></a:ext></a:extLst></wp:docPr>"));
    assert!(xml.contains("{blip}<a:srcRect l=\"1\" t=\"2\" r=\"3\" b=\"4\"/><a:stretch>"));
    assert!(xml.contains("<a:gd name=\"adj\" fmla=\"val 50000\"/>"));
}

fn shape(txbx: Option<TextBox>) -> ShapeSpec {
    ShapeSpec {
        geom: ShapeGeom::Ellipse,
        fill: Some(ShapeFill::LinearGradient {
            angle_60k: 0,
            stops: vec![GradientStop { pos_100k: 0, color: [16, 32, 48, 255] }],
        }),
        stroke: Some(ShapeStroke { color: [0, 0, 255, 9], w_emu: -1, cap: "flat", dash: None }),
        txbx,
    }
}

fn text_box(blocks: Vec<Block>, autofit: bool) -> TextBox {
    TextBox { ins: [12700, -6350, 127, 0], blocks, wrap: TextBoxWrap::Square, autofit }
}

#[test]
fn text_boxes_have_an_older_form() {
    let mut d = drawing();
    d.shape = Some(shape(Some(text_box(vec![para(vec![text("x")])], true))));
    let xml = shown(write_drawing(&d));
    let inner = format!("<w:txbxContent><P>{{pPr}}{TEXT_X}</P></w:txbxContent>");
    assert!(xml.starts_with("<w:r><mc:AlternateContent><mc:Choice Requires=\"wps\"><w:drawing>"));
    assert!(xml.contains(&format!(
        "{{preset}}{{fill}}{{stroke}}</wps:spPr><wps:txbx>{inner}</wps:txbx>\
         <wps:bodyPr wrap=\"square\" lIns=\"12700\" tIns=\"-6350\" rIns=\"127\" bIns=\"0\" \
         anchor=\"t\"><a:spAutoFit/></wps:bodyPr></wps:wsp>"
    )));
    assert!(xml.contains(&format!(
        "<mc:Fallback><w:pict><v:rect style=\"width:1.00pt;height:2.00pt\" \
         fillcolor=\"#102030\" strokecolor=\"#0000FF\" strokeweight=\"-0.00pt\">\
         <v:textbox inset=\"1.00pt,-0.50pt,0.01pt,0.00pt\">{inner}</v:textbox></v:rect></w:pict>\
         </mc:Fallback>"
    )));
    d.shape = Some(shape(Some(text_box(vec![], false))));
    let xml = shown(write_drawing(&d));
    assert!(!xml.contains("a:spAutoFit"));
    assert!(xml.contains("<w:txbxContent><w:p/></w:txbxContent>"));
}

#[test]
fn groups_take_precedence_over_shapes() {
    let mut d = drawing();
    d.group = Some(GroupSpec {
        children: vec![GroupChild { x_emu: 5, y_emu: 6, w_emu: 7, h_emu: 8, shape: shape(None) }],
    });
    let xml = shown(write_drawing(&d));
    assert!(xml.contains(
        "<a:chOff x=\"0\" y=\"0\"/><a:chExt cx=\"12700\" cy=\"25400\"/></a:xfrm></wpg:grpSpPr>"
    ));
    assert!(xml.contains("<a:off x=\"5\" y=\"6\"/><a:ext cx=\"7\" cy=\"8\"/>"));
    assert!(xml.contains("</wps:spPr><wps:bodyPr/></wps:wsp></wpg:wgp>"));
    assert!(!xml.contains("{blip}"));
}

fn toc(depth: Option<usize>, entries: Vec<Para>) -> Block {
    Block::Toc(Toc {
        instr: "TOC".into(),
        mode: FieldMode::Live,
        depth,
        caption_category: None,
        semantic_headings: vec![],
        tab_pos: 9000,
        entry_indents: vec![],
        entries,
        fallback: vec![text("x")],
    })
}

fn entry() -> Para {
    Para { props: ParaProps::default(), content: vec![] }
}

#[test]
fn a_table_of_contents_spans_its_entries() {
    let xml = show(&write_block(&toc(None, vec![])));
    assert!(xml.starts_with("<w:p><w:r><w:fldChar w:fldCharType=\"begin\"/></w:r>"));
    assert!(xml.ends_with("<w:r><w:fldChar w:fldCharType=\"end\"/></w:r></w:p>"));
    let xml = show(&write_block(&toc(Some(3), vec![entry(), entry(), entry()])));
    assert!(xml.starts_with("<w:sdt><w:sdtPr><w:docPartObj><w:docPartGallery w:val=\"Table of Contents\"/>"));
    assert_eq!(xml.matches("w:fldCharType=\"begin\"").count(), 1);
    assert_eq!(xml.matches("w:fldCharType=\"end\"").count(), 1);
    assert!(xml.contains("<w:sdtContent><w:p>{pPr}<w:r><w:fldChar w:fldCharType=\"begin\"/>"));
    assert!(xml.ends_with(
        "<w:p>{pPr}<w:r><w:fldChar w:fldCharType=\"end\"/></w:r></w:p></w:sdtContent></w:sdt>"
    ));
}

fn level() -> ListLevel {
    ListLevel {
        num_fmt: NumFmt::Bullet,
        lvl_text: "\u{2022}".into(),
        start: 1,
        ind_left: 720,
        ind_hanging: 360,
        bullet_font: Some("Symbol".into()),
        pstyle: Some("Heading1".into()),
    }
}

fn numbering() -> NumberingTable {
    NumberingTable {
        abstracts: vec![AbstractNum {
            id: 0,
            levels: vec![level()],
            multilevel: MultiLevelType::HybridMultilevel,
        }],
        nums: vec![NumInstance { num_id: 1, abstract_id: 0, start_override: Some(4) }],
    }
}

#[test]
fn numbering_lists_definitions_then_instances() {
    let xml = shown(build_numbering(&numbering()));
    assert!(xml.contains(
        "<w:abstractNum w:abstractNumId=\"0\"><w:multiLevelType w:val=\"hybridMultilevel\"/>\
         <w:lvl w:ilvl=\"0\"><w:start w:val=\"1\"/><w:numFmt w:val=\"bullet\"/>\
         <w:pStyle w:val=\"Heading1\"/><w:lvlText w:val=\"\u{2022}\"/><w:lvlJc w:val=\"left\"/>\
         <w:pPr><w:ind w:left=\"720\" w:hanging=\"360\"/></w:pPr>\
         <w:rPr><w:rFonts w:ascii=\"Symbol\" w:hAnsi=\"Symbol\" w:cs=\"Symbol\"/></w:rPr></w:lvl>\
         </w:abstractNum><w:num w:numId=\"1\"><w:abstractNumId w:val=\"0\"/>\
         <w:lvlOverride w:ilvl=\"0\"><w:startOverride w:val=\"4\"/></w:lvlOverride></w:num>"
    ));
}

#[test]
fn notes_have_separators() {
    let notes = vec![Footnote { id: 1, blocks: vec![] }];
    let xml = shown(build_footnotes(&notes));
    assert!(xml.contains(
        "<w:footnote w:type=\"separator\" w:id=\"-1\"><w:p><w:r><w:separator/></w:r></w:p>\
         </w:footnote><w:footnote w:type=\"continuationSeparator\" w:id=\"0\"><w:p><w:r>\
         <w:continuationSeparator/></w:r></w:p></w:footnote><w:footnote w:id=\"1\"><w:p/>\
         </w:footnote></w:footnotes>"
    ));
    assert!(shown(build_endnotes()).contains("<w:endnote w:type=\"separator\" w:id=\"-1\">"));
}

#[test]
fn comments_state_their_author() {
    let comments = vec![Comment {
        id: 0,
        author: None,
        initials: Some("ab".into()),
        date: Some("2024-01-02T03:04:05Z".into()),
        blocks: vec![para(vec![])],
    }];
    assert!(shown(build_comments(&comments)).contains(
        "<w:comment w:id=\"0\" w:author=\"\" w:date=\"2024-01-02T03:04:05Z\" w:initials=\"ab\">\
         <P>{pPr}</P></w:comment>"
    ));
}

fn info() -> DocumentInfo {
    DocumentInfo {
        title: Some("T".into()),
        author: vec!["A".into(), "B".into()],
        description: None,
        keywords: vec!["k".into(), "l".into()],
        date: Some(Datetime {
            year: Some(2024),
            month: Some(2),
            day: None,
            hour: Some(7),
            minute: None,
            second: None,
        }),
    }
}

#[test]
fn core_properties_join_authors_and_keywords() {
    let xml = shown(build_core(&info()));
    assert!(xml.ends_with(
        "<dc:title>T</dc:title><dc:creator>A; B</dc:creator>\
         <cp:lastModifiedBy>A; B</cp:lastModifiedBy><cp:keywords>k, l</cp:keywords>\
         <cp:revision>1</cp:revision>\
         <dcterms:created xsi:type=\"dcterms:W3CDTF\">2024-02-01T07:00:00Z</dcterms:created>\
         <dcterms:modified xsi:type=\"dcterms:W3CDTF\">2024-02-01T07:00:00Z</dcterms:modified>\
         </cp:coreProperties>"
    ));
    assert!(shown(build_app()).contains("<Application>Typst</Application>"));
    assert!(shown(build_custom_properties("<m/>")).contains(
        "pid=\"2\" name=\"TypstFidelityManifestV1\"><vt:lpwstr><m/></vt:lpwstr></property>"
    ));
}

#[test]
fn timestamps_need_a_year() {
    let date = |year| Datetime { year, month: None, day: None, hour: None, minute: None, second: None };
    assert_eq!(w3cdtf(&date(None)), None);
    assert_eq!(w3cdtf(&date(Some(7))).unwrap(), "0007-01-01T00:00:00Z");
    assert_eq!(w3cdtf(&date(Some(-7))).unwrap(), format!("{:04}-01-01T00:00:00Z", -7));
    assert_eq!(w3cdtf(&date(Some(12345))).unwrap(), "12345-01-01T00:00:00Z");
}

fn source() -> WordSource {
    WordSource {
        tag: "key".into(),
        guid: "{0}".into(),
        source_type: "Book",
        author: WordAuthor::Persons(vec![WordPerson { last: "L".into(), first: Some("F".into()) }]),
        title: Some("T".into()),
        year: None,
        publisher: None,
        city: None,
        journal_name: None,
        volume: None,
        issue: None,
        pages: None,
        url: Some("u".into()),
    }
}

#[test]
fn sources_nest_their_authors() {
    let xml = shown(build_word_sources(&vec![source()]));
    assert!(xml.contains(
        "<b:Source><b:Tag>key</b:Tag><b:SourceType>Book</b:SourceType><b:Guid>{0}</b:Guid>\
         <b:Author><b:Author><b:NameList><b:Person><b:Last>L</b:Last><b:First>F</b:First>\
         </b:Person></b:NameList></b:Author></b:Author><b:Title>T</b:Title><b:URL>u</b:URL>\
         </b:Source>"
    ));
    let mut corporate = source();
    corporate.author = WordAuthor::Corporate("C".into());
    assert!(shown(build_word_sources(&vec![corporate]))
        .contains("<b:Author><b:Author><b:Corporate>C</b:Corporate></b:Author></b:Author>"));
    assert!(shown(build_item_props("{1}")).starts_with("<ds:datastoreItem ds:itemID=\"{1}\""));
    assert!(shown(build_typst_bibliography("@book")).contains("<biblatex>@book</biblatex>"));
}

fn document() -> DocxDocument {
    DocxDocument {
        info: info(),
        body: vec![para(vec![text("x")])],
        sect: SectPr::default(),
        footnotes: vec![],
        comments: vec![],
        numbering: NumberingTable::default(),
        media: vec![],
        embedded_fonts: vec![],
        doc_rels: Rels::new(),
        footnote_rels: Rels::new(),
        comment_rels: Rels::new(),
        max_heading_level: 2,
        text_defaults: TextDefaults::default(),
        heading_styles: vec![],
        uses_math: false,
        header_parts: vec![],
        footer_parts: vec![],
        background_color: None,
        hyphenate: false,
        even_and_odd_headers: false,
        mirror_margins: false,
        rtl_gutter: false,
        bibliography: None,
        word_sources: vec![],
        fonts: vec!["Libertinus".into(), "Symbol".into()],
        review_candidates: vec![],
    }
}

#[test]
fn the_main_part_ends_with_its_section() {
    let mut d = document();
    d.background_color = Some([255, 254, 0]);
    let xml = shown(build_document(&d));
    assert!(xml.contains("mc:Ignorable=\"w14 wp14\"><w:background w:color=\"FFFE00\"/><w:body>"));
    assert!(xml.ends_with(&format!(
        "<w:body><P>{{pPr}}{TEXT_X}</P>{}</w:body></w:document>",
        shown(write_sectpr(&SectPr::default()))
    )));
    assert_eq!(d.info().title.as_deref(), Some("T"));
    assert!(d.review_candidates().is_empty());
}

#[test]
fn settings_state_what_the_sections_use() {
    let mut d = document();
    d.mirror_margins = true;
    d.even_and_odd_headers = true;
    let xml = shown(build_settings(&d));
    assert!(xml.contains("<w:mirrorMargins/><w:defaultTabStop w:val=\"720\"/><w:evenAndOddHeaders/>"));
    assert!(!xml.contains("w:autoHyphenation") && !xml.contains("w:rtlGutter"));
    d.hyphenate = true;
    d.rtl_gutter = true;
    let xml = shown(build_settings(&d));
    assert!(xml.contains(
        "<w:rtlGutter/><w:defaultTabStop w:val=\"720\"/><w:autoHyphenation/><w:evenAndOddHeaders/>"
    ));
}

/// The fingerprint as it is usually computed.
fn fnv(bytes: &[u8]) -> u32 {
    bytes.iter().fold(0x811C_9DC5, |h: u32, b| (h ^ *b as u32).wrapping_mul(0x0100_0193))
}

#[test]
fn the_fingerprint_depends_on_the_title() {
    let mut d = document();
    d.info.title = Some("Títle".into());
    let mut bytes = "Títle".as_bytes().to_vec();
    bytes.extend([1, 0, 0, 0, 2]);
    assert_eq!(doc_fingerprint(&d), fnv(&bytes));
    let id = format!("{:08X}", fnv(&bytes));
    assert!(shown(build_settings(&d)).contains(&format!("<w:rsidRoot w:val=\"{id}\"/>")));
    d.info.title = None;
    assert_eq!(doc_fingerprint(&d), fnv(&[1, 0, 0, 0, 2]));
}

fn outside() -> Outside<'static> {
    let mut font_key = [0; 16];
    font_key[0] = 0xA0;
    font_key[15] = 0x0F;
    Outside {
        sources_guid: "{g}",
        font_key,
        manifest: "<manifest/>",
        manifest_rel: "urn:manifest",
    }
}

fn paths(plan: &PackagePlan) -> Vec<String> {
    plan.parts.iter().map(|p| p.path.clone()).collect()
}

#[test]
fn a_plain_document_has_the_common_parts() {
    let d = document();
    let plan = docx(&d, &outside(), Ok(())).unwrap();
    assert_eq!(
        paths(&plan),
        vec![
            "word/styles.xml",
            "word/settings.xml",
            "word/theme/theme1.xml",
            "word/fontTable.xml",
            "word/webSettings.xml",
            "word/footnotes.xml",
            "word/endnotes.xml",
            "customXml/typstFidelity.xml",
            "word/document.xml",
            "docProps/core.xml",
            "docProps/app.xml",
            "docProps/custom.xml",
        ]
    );
    match &plan.parts[3].body {
        PartBody::FontTable { fonts, embedded } => {
            assert_eq!(*fonts, vec!["Libertinus", "Symbol", "Courier New"]);
            assert!(embedded.is_empty());
        }
        _ => panic!("a font table"),
    }
    assert_eq!(plan.part_rels.len(), 1);
    assert_eq!(plan.part_rels[0].path, "word/document.xml");
    assert_eq!(plan.part_rels[0].rels.entries.len(), 8);
    assert_eq!(plan.root_rels.entries.len(), 4);
    assert!(!DocxOptions::default().pretty);
}

#[test]
fn plans_are_repeatable() {
    let d = document();
    let first = docx(&d, &outside(), Ok(())).unwrap();
    let again = docx(&d, &outside(), Ok(())).unwrap();
    assert_eq!(paths(&first), paths(&again));
    assert_eq!(first.root_rels, again.root_rels);
    assert_eq!(first.part_rels.len(), again.part_rels.len());
    for (a, b) in first.part_rels.iter().zip(&again.part_rels) {
        assert_eq!((&a.path, &a.rels), (&b.path, &b.rels));
    }
    for (a, b) in first.parts.into_iter().zip(again.parts) {
        assert_eq!(a.content_type, b.content_type);
        if let (PartBody::Tree { root: x, para_base: m }, PartBody::Tree { root: y, para_base: n }) =
            (a.body, b.body)
        {
            assert_eq!((shown(x), m), (shown(y), n));
        }
    }
}

#[test]
fn invalid_documents_are_refused() {
    let d = document();
    let refused = docx(&d, &outside(), Err("no body".into())).err();
    assert_eq!(refused.as_deref(), Some("invalid finalized DOCX IR: no body"));
    let plan = docx(&d, &outside(), Ok(())).unwrap();
    let n = plan.parts.len();
    let plan = checked_parts(plan, Ok(())).unwrap();
    assert_eq!(plan.parts.len(), n);
    let refused = checked_parts(plan, Err("order".into())).err();
    assert_eq!(refused.as_deref(), Some("invalid finalized DOCX XML sequence: order"));
    assert_eq!(registered_rels(Ok(())), Ok(()));
    let failed = registered_rels(Err("twice".into()));
    assert_eq!(failed, Err("failed to register relationships: twice".into()));
    assert_eq!(finished_package(Ok(vec![1])), Ok(vec![1]));
    let failed = finished_package(Err("full".into()));
    assert_eq!(failed, Err("failed to finalize DOCX package: full".into()));
}

#[test]
fn embedded_fonts_are_packaged() {
    let mut d = document();
    let data: Vec<u8> = (0..40).collect();
    let program = |family: &str, style| EmbeddedFontProgram {
        family: family.into(),
        style,
        data: data.clone(),
    };
    d.embedded_fonts = vec![
        program("A", EmbeddedFontStyle::Regular),
        program("A", EmbeddedFontStyle::Bold),
    ];
    let plan = docx(&d, &outside(), Ok(())).unwrap();
    let paths = paths(&plan);
    assert_eq!(paths[7..9], ["word/fonts/font1.odttf", "word/fonts/font2.odttf"]);
    match &plan.parts[3].body {
        PartBody::FontTable { embedded, .. } => {
            assert_eq!((embedded.len(), embedded[1].rel.as_str()), (2, "rId2"));
            assert_eq!(embedded[1].style, EmbeddedFontStyle::Bold);
        }
        _ => panic!("a font table"),
    }
    assert_eq!(plan.part_rels[0].path, "word/fontTable.xml");
    let targets: Vec<&str> =
        plan.part_rels[0].rels.entries.iter().map(|r| r.target.as_str()).collect();
    assert_eq!(targets, vec!["fonts/font1.odttf", "fonts/font2.odttf"]);
    match &plan.parts[7].body {
        PartBody::Font(hidden) => {
            assert_eq!(plan.parts[7].content_type, ns::CT_FONT);
            assert_eq!(hidden[0], 0x0F);
            assert_eq!(hidden[1], 1);
            assert_eq!(hidden[15], 15 ^ 0xA0);
            assert_eq!(hidden[16], 16 ^ 0x0F);
            assert_eq!(hidden[31], 31 ^ 0xA0);
            assert_eq!(hidden[32..], data[32..]);
            assert_eq!(obfuscate(hidden, &outside().font_key), data);
        }
        _ => panic!("a font"),
    }
}

fn furniture(name: &str, is_header: bool) -> HdrFtrPart {
    let mut rels = Rels::new();
    rels.add_rel("urn:image", "media/a.png", RelMode::Internal);
    HdrFtrPart { part_name: name.into(), is_header, blocks: vec![], rels }
}

/// Where a relationship of the main part leads.
fn resolve(target: &str) -> String {
    match target.strip_prefix("../") {
        Some(rest) => rest.into(),
        None => format!("word/{target}"),
    }
}

#[test]
fn every_relationship_has_its_part() {
    let mut d = document();
    d.numbering = numbering();
    d.comments =
        vec![Comment { id: 0, author: None, initials: None, date: None, blocks: vec![] }];
    d.bibliography = Some("@book".into());
    d.word_sources = vec![source()];
    d.uses_math = true;
    d.header_parts = vec![furniture("header1.xml", true), furniture("header3.xml", true)];
    d.footer_parts = vec![furniture("footer2.xml", false)];
    let plan = docx(&d, &outside(), Ok(())).unwrap();
    let paths = paths(&plan);
    let main = plan.part_rels.last().unwrap();
    assert_eq!(main.path, "word/document.xml");
    assert_eq!(main.rels.entries.len(), 12);
    for rel in &main.rels.entries {
        assert!(paths.contains(&resolve(&rel.target)), "{}", rel.target);
    }
    for rel in &plan.root_rels.entries {
        assert!(paths.contains(&rel.target));
    }
    let rel_paths: Vec<&str> = plan.part_rels.iter().map(|p| p.path.as_str()).collect();
    assert_eq!(
        rel_paths,
        vec![
            "word/header1.xml",
            "word/header3.xml",
            "word/footer2.xml",
            "customXml/item1.xml",
            "word/document.xml"
        ]
    );
    let mut bases = Vec::new();
    for part in &plan.parts {
        if part.path.starts_with("word/header") || part.path.starts_with("word/footer") {
            match &part.body {
                PartBody::Tree { para_base, .. } => bases.push(*para_base),
                _ => panic!("a tree"),
            }
        }
    }
    assert_eq!(bases, vec![0x1000_0000, 0x1010_0000, 0x4000_0000]);
    let header = shown(build_hdrftr(&d.header_parts[0]));
    assert!(header.starts_with("<w:hdr ") && header.ends_with("><w:p/></w:hdr>"));
    assert!(shown(build_hdrftr(&d.footer_parts[0])).starts_with("<w:ftr "));
}

/// The depth of open fields after each mark of a text.
fn depths(xml: &str) -> Vec<i32> {
    let mut depth = 0;
    let mut out = Vec::new();
    for piece in xml.split("w:fldCharType=\"").skip(1) {
        if piece.starts_with("begin") {
            depth += 1;
        } else if piece.starts_with("end") {
            depth -= 1;
        }
        out.push(depth);
    }
    out
}

#[test]
fn nested_fields_close_in_order() {
    let inner = field(FieldDisplay::Hidden, FieldMode::Live, vec![]);
    let outer = field(FieldDisplay::Visible, FieldMode::Live, vec![inner, text("x")]);
    assert_eq!(depths(&show(&write_run(&outer))), vec![1, 1, 2, 2, 1, 0]);
}
