//! What the markup of drawings says, read back from what is written.

use vstd::prelude::*;

use crate::dom::{Anchor, AnchorPos, Drawing, PicGeom, ShapeSpec, TextBox};
use crate::encode::body::drawing_xml;
use crate::encode::drawing::{
    anchor_pos_xml, anchor_xml, body_props_xml, docpr_xml, effect_extent_xml, envelope_xml,
    extent_xml, frame_locks_xml, identity_xml, inline_xml, pic_geom_xml, pic_xml, point_xml,
    points, pt, wrap_xml, wsp_xml,
};
use crate::encode::reading::{part, part_says, reading, says};
use crate::text::{dec, dec_nat, decimal_reads_back, decimal_value, digit};
use crate::xml::{El, OwedXml, Xml, el};

verus! {

proof fn drawing_words()
    ensures
        "wp:extent"@ != "wp:effectExtent"@,
        "wp:extent"@ != "wp:docPr"@,
        "wp:extent"@ != "wp:cNvGraphicFramePr"@,
        "wp:extent"@ != "a:graphic"@,
        "wp:extent"@ != "wp:simplePos"@,
        "wp:extent"@ != "wp:positionH"@,
        "wp:extent"@ != "wp:positionV"@,
        "wp:extent"@ != "wp:wrapTopAndBottom"@,
        "wp:extent"@ != "wp:wrapSquare"@,
        "wp:extent"@ != "wp:wrapNone"@,
        "wp:effectExtent"@ != "wp:docPr"@,
        "wp:effectExtent"@ != "wp:cNvGraphicFramePr"@,
        "wp:effectExtent"@ != "a:graphic"@,
        "wp:effectExtent"@ != "wp:simplePos"@,
        "wp:effectExtent"@ != "wp:positionH"@,
        "wp:effectExtent"@ != "wp:positionV"@,
        "wp:effectExtent"@ != "wp:wrapTopAndBottom"@,
        "wp:effectExtent"@ != "wp:wrapSquare"@,
        "wp:effectExtent"@ != "wp:wrapNone"@,
        "wp:docPr"@ != "wp:cNvGraphicFramePr"@,
        "wp:docPr"@ != "a:graphic"@,
        "wp:docPr"@ != "wp:simplePos"@,
        "wp:docPr"@ != "wp:positionH"@,
        "wp:docPr"@ != "wp:positionV"@,
        "wp:docPr"@ != "wp:wrapTopAndBottom"@,
        "wp:docPr"@ != "wp:wrapSquare"@,
        "wp:docPr"@ != "wp:wrapNone"@,
        "wp:cNvGraphicFramePr"@ != "a:graphic"@,
        "wp:cNvGraphicFramePr"@ != "wp:simplePos"@,
        "wp:cNvGraphicFramePr"@ != "wp:positionH"@,
        "wp:cNvGraphicFramePr"@ != "wp:positionV"@,
        "wp:cNvGraphicFramePr"@ != "wp:wrapTopAndBottom"@,
        "wp:cNvGraphicFramePr"@ != "wp:wrapSquare"@,
        "wp:cNvGraphicFramePr"@ != "wp:wrapNone"@,
        "a:graphic"@ != "wp:simplePos"@,
        "a:graphic"@ != "wp:positionH"@,
        "a:graphic"@ != "wp:positionV"@,
        "a:graphic"@ != "wp:wrapTopAndBottom"@,
        "a:graphic"@ != "wp:wrapSquare"@,
        "a:graphic"@ != "wp:wrapNone"@,
        "wp:simplePos"@ != "wp:positionH"@,
        "wp:simplePos"@ != "wp:positionV"@,
        "wp:simplePos"@ != "wp:wrapTopAndBottom"@,
        "wp:simplePos"@ != "wp:wrapSquare"@,
        "wp:simplePos"@ != "wp:wrapNone"@,
        "wp:positionH"@ != "wp:positionV"@,
        "wp:positionH"@ != "wp:wrapTopAndBottom"@,
        "wp:positionH"@ != "wp:wrapSquare"@,
        "wp:positionH"@ != "wp:wrapNone"@,
        "wp:positionV"@ != "wp:wrapTopAndBottom"@,
        "wp:positionV"@ != "wp:wrapSquare"@,
        "wp:positionV"@ != "wp:wrapNone"@,
        "wp:wrapTopAndBottom"@ != "wp:wrapSquare"@,
        "wp:wrapTopAndBottom"@ != "wp:wrapNone"@,
        "wp:wrapSquare"@ != "wp:wrapNone"@,
        "wp:inline"@ != "wp:anchor"@,
        "cx"@ != "cy"@,
        "x"@ != "y"@,
        "id"@ != "name"@,
        "id"@ != "descr"@,
        "name"@ != "descr"@,
        "distT"@ != "distB"@,
        "distT"@ != "distL"@,
        "distT"@ != "distR"@,
        "distT"@ != "simplePos"@,
        "distT"@ != "relativeHeight"@,
        "distT"@ != "behindDoc"@,
        "distT"@ != "locked"@,
        "distT"@ != "layoutInCell"@,
        "distT"@ != "allowOverlap"@,
        "distB"@ != "distL"@,
        "distB"@ != "distR"@,
        "distB"@ != "simplePos"@,
        "distB"@ != "relativeHeight"@,
        "distB"@ != "behindDoc"@,
        "distB"@ != "locked"@,
        "distB"@ != "layoutInCell"@,
        "distB"@ != "allowOverlap"@,
        "distL"@ != "distR"@,
        "distL"@ != "simplePos"@,
        "distL"@ != "relativeHeight"@,
        "distL"@ != "behindDoc"@,
        "distL"@ != "locked"@,
        "distL"@ != "layoutInCell"@,
        "distL"@ != "allowOverlap"@,
        "distR"@ != "simplePos"@,
        "distR"@ != "relativeHeight"@,
        "distR"@ != "behindDoc"@,
        "distR"@ != "locked"@,
        "distR"@ != "layoutInCell"@,
        "distR"@ != "allowOverlap"@,
        "simplePos"@ != "relativeHeight"@,
        "simplePos"@ != "behindDoc"@,
        "simplePos"@ != "locked"@,
        "simplePos"@ != "layoutInCell"@,
        "simplePos"@ != "allowOverlap"@,
        "relativeHeight"@ != "behindDoc"@,
        "relativeHeight"@ != "locked"@,
        "relativeHeight"@ != "layoutInCell"@,
        "relativeHeight"@ != "allowOverlap"@,
        "behindDoc"@ != "locked"@,
        "behindDoc"@ != "layoutInCell"@,
        "behindDoc"@ != "allowOverlap"@,
        "locked"@ != "layoutInCell"@,
        "locked"@ != "allowOverlap"@,
        "layoutInCell"@ != "allowOverlap"@,
        "wp:align"@ != "wp:posOffset"@,
        "1"@ != "0"@,
        "l"@ != "t"@,
        "l"@ != "r"@,
        "l"@ != "b"@,
        "t"@ != "r"@,
        "t"@ != "b"@,
        "r"@ != "b"@,
        "a:srcRect"@ != "a:stretch"@,
        "pic:nvPicPr"@ != "pic:blipFill"@,
        "pic:nvPicPr"@ != "pic:spPr"@,
        "pic:blipFill"@ != "pic:spPr"@,
        "pic:cNvPr"@ != "pic:cNvPicPr"@,
        "a:xfrm"@ != "a:prstGeom"@,
        "a:off"@ != "a:ext"@,
        "prst"@ != "name"@,
        "prst"@ != "fmla"@,
        "name"@ != "fmla"@,
        "rect"@ != "roundRect"@,
        "wrap"@ != "lIns"@,
        "wrap"@ != "tIns"@,
        "wrap"@ != "rIns"@,
        "wrap"@ != "bIns"@,
        "wrap"@ != "anchor"@,
        "lIns"@ != "tIns"@,
        "lIns"@ != "rIns"@,
        "lIns"@ != "bIns"@,
        "lIns"@ != "anchor"@,
        "tIns"@ != "rIns"@,
        "tIns"@ != "bIns"@,
        "tIns"@ != "anchor"@,
        "rIns"@ != "bIns"@,
        "rIns"@ != "anchor"@,
        "bIns"@ != "anchor"@,
        "square"@ != "none"@,
        "wps:cNvSpPr"@ != "wps:spPr"@,
        "wps:cNvSpPr"@ != "wps:txbx"@,
        "wps:cNvSpPr"@ != "wps:bodyPr"@,
        "wps:spPr"@ != "wps:txbx"@,
        "wps:spPr"@ != "wps:bodyPr"@,
        "wps:txbx"@ != "wps:bodyPr"@,
        "w:drawing"@ != "mc:AlternateContent"@,
        "xmlns:a"@ != "uri"@,
{
    reveal_strlit("wp:extent");
    reveal_strlit("wp:effectExtent");
    reveal_strlit("wp:docPr");
    reveal_strlit("wp:cNvGraphicFramePr");
    reveal_strlit("a:graphic");
    reveal_strlit("wp:simplePos");
    reveal_strlit("wp:positionH");
    reveal_strlit("wp:positionV");
    reveal_strlit("wp:wrapTopAndBottom");
    reveal_strlit("wp:wrapSquare");
    reveal_strlit("wp:wrapNone");
    reveal_strlit("wp:inline");
    reveal_strlit("wp:anchor");
    reveal_strlit("cx");
    reveal_strlit("cy");
    reveal_strlit("x");
    reveal_strlit("y");
    reveal_strlit("id");
    reveal_strlit("name");
    reveal_strlit("descr");
    reveal_strlit("distT");
    reveal_strlit("distB");
    reveal_strlit("distL");
    reveal_strlit("distR");
    reveal_strlit("simplePos");
    reveal_strlit("relativeHeight");
    reveal_strlit("behindDoc");
    reveal_strlit("locked");
    reveal_strlit("layoutInCell");
    reveal_strlit("allowOverlap");
    reveal_strlit("wp:align");
    reveal_strlit("wp:posOffset");
    reveal_strlit("1");
    reveal_strlit("0");
    reveal_strlit("l");
    reveal_strlit("t");
    reveal_strlit("r");
    reveal_strlit("b");
    reveal_strlit("a:srcRect");
    reveal_strlit("a:stretch");
    reveal_strlit("pic:nvPicPr");
    reveal_strlit("pic:blipFill");
    reveal_strlit("pic:spPr");
    reveal_strlit("pic:cNvPr");
    reveal_strlit("pic:cNvPicPr");
    reveal_strlit("a:xfrm");
    reveal_strlit("a:prstGeom");
    reveal_strlit("a:off");
    reveal_strlit("a:ext");
    reveal_strlit("prst");
    reveal_strlit("fmla");
    reveal_strlit("rect");
    reveal_strlit("roundRect");
    reveal_strlit("wrap");
    reveal_strlit("lIns");
    reveal_strlit("tIns");
    reveal_strlit("rIns");
    reveal_strlit("bIns");
    reveal_strlit("anchor");
    reveal_strlit("square");
    reveal_strlit("none");
    reveal_strlit("wps:cNvSpPr");
    reveal_strlit("wps:spPr");
    reveal_strlit("wps:txbx");
    reveal_strlit("wps:bodyPr");
    reveal_strlit("w:drawing");
    reveal_strlit("mc:AlternateContent");
    reveal_strlit("xmlns:a");
    reveal_strlit("uri");
    assert("wp:extent"@.len() == 9);
    assert("wp:effectExtent"@.len() == 15);
    assert("wp:docPr"@.len() == 8);
    assert("wp:cNvGraphicFramePr"@.len() == 20);
    assert("a:graphic"@.len() == 9);
    assert("wp:simplePos"@.len() == 12);
    assert("wp:positionH"@.len() == 12);
    assert("wp:positionV"@.len() == 12);
    assert("wp:wrapTopAndBottom"@.len() == 19);
    assert("wp:wrapSquare"@.len() == 13);
    assert("wp:wrapNone"@.len() == 11);
    assert("wp:inline"@.len() == 9);
    assert("wp:anchor"@.len() == 9);
    assert("cx"@.len() == 2);
    assert("cy"@.len() == 2);
    assert("x"@.len() == 1);
    assert("y"@.len() == 1);
    assert("id"@.len() == 2);
    assert("name"@.len() == 4);
    assert("descr"@.len() == 5);
    assert("distT"@.len() == 5);
    assert("distB"@.len() == 5);
    assert("distL"@.len() == 5);
    assert("distR"@.len() == 5);
    assert("simplePos"@.len() == 9);
    assert("relativeHeight"@.len() == 14);
    assert("behindDoc"@.len() == 9);
    assert("locked"@.len() == 6);
    assert("layoutInCell"@.len() == 12);
    assert("allowOverlap"@.len() == 12);
    assert("wp:align"@.len() == 8);
    assert("wp:posOffset"@.len() == 12);
    assert("1"@.len() == 1);
    assert("0"@.len() == 1);
    assert("l"@.len() == 1);
    assert("t"@.len() == 1);
    assert("r"@.len() == 1);
    assert("b"@.len() == 1);
    assert("a:srcRect"@.len() == 9);
    assert("a:stretch"@.len() == 9);
    assert("pic:nvPicPr"@.len() == 11);
    assert("pic:blipFill"@.len() == 12);
    assert("pic:spPr"@.len() == 8);
    assert("pic:cNvPr"@.len() == 9);
    assert("pic:cNvPicPr"@.len() == 12);
    assert("a:xfrm"@.len() == 6);
    assert("a:prstGeom"@.len() == 10);
    assert("a:off"@.len() == 5);
    assert("a:ext"@.len() == 5);
    assert("prst"@.len() == 4);
    assert("fmla"@.len() == 4);
    assert("rect"@.len() == 4);
    assert("roundRect"@.len() == 9);
    assert("wrap"@.len() == 4);
    assert("lIns"@.len() == 4);
    assert("tIns"@.len() == 4);
    assert("rIns"@.len() == 4);
    assert("bIns"@.len() == 4);
    assert("anchor"@.len() == 6);
    assert("square"@.len() == 6);
    assert("none"@.len() == 4);
    assert("wps:cNvSpPr"@.len() == 11);
    assert("wps:spPr"@.len() == 8);
    assert("wps:txbx"@.len() == 8);
    assert("wps:bodyPr"@.len() == 10);
    assert("w:drawing"@.len() == 9);
    assert("mc:AlternateContent"@.len() == 19);
    assert("xmlns:a"@.len() == 7);
    assert("uri"@.len() == 3);
    assert("wp:extent"@[0] != "a:graphic"@[0]);
    assert("wp:simplePos"@[3] != "wp:positionH"@[3]);
    assert("wp:simplePos"@[3] != "wp:positionV"@[3]);
    assert("wp:positionH"@[11] != "wp:positionV"@[11]);
    assert("wp:inline"@[3] != "wp:anchor"@[3]);
    assert("cx"@[1] != "cy"@[1]);
    assert("x"@[0] != "y"@[0]);
    assert("distT"@[4] != "distB"@[4]);
    assert("distT"@[4] != "distL"@[4]);
    assert("distT"@[4] != "distR"@[4]);
    assert("distB"@[4] != "distL"@[4]);
    assert("distB"@[4] != "distR"@[4]);
    assert("distL"@[4] != "distR"@[4]);
    assert("simplePos"@[0] != "behindDoc"@[0]);
    assert("layoutInCell"@[0] != "allowOverlap"@[0]);
    assert("1"@[0] != "0"@[0]);
    assert("l"@[0] != "t"@[0]);
    assert("l"@[0] != "r"@[0]);
    assert("l"@[0] != "b"@[0]);
    assert("t"@[0] != "r"@[0]);
    assert("t"@[0] != "b"@[0]);
    assert("r"@[0] != "b"@[0]);
    assert("a:srcRect"@[3] != "a:stretch"@[3]);
    assert("a:off"@[2] != "a:ext"@[2]);
    assert("prst"@[0] != "name"@[0]);
    assert("prst"@[0] != "fmla"@[0]);
    assert("name"@[0] != "fmla"@[0]);
    assert("wrap"@[0] != "lIns"@[0]);
    assert("wrap"@[0] != "tIns"@[0]);
    assert("wrap"@[0] != "rIns"@[0]);
    assert("wrap"@[0] != "bIns"@[0]);
    assert("lIns"@[0] != "tIns"@[0]);
    assert("lIns"@[0] != "rIns"@[0]);
    assert("lIns"@[0] != "bIns"@[0]);
    assert("tIns"@[0] != "rIns"@[0]);
    assert("tIns"@[0] != "bIns"@[0]);
    assert("rIns"@[0] != "bIns"@[0]);
    assert("wps:spPr"@[4] != "wps:txbx"@[4]);
}

proof fn lemma_drawing_names(d: Drawing)
    ensures
        extent_xml("wp:extent"@, d.w_emu, d.h_emu).name == "wp:extent"@,
        effect_extent_xml().name == "wp:effectExtent"@,
        docpr_xml(d).name == "wp:docPr"@,
        frame_locks_xml().name == "wp:cNvGraphicFramePr"@,
        point_xml("wp:simplePos"@, 0, 0).name == "wp:simplePos"@,
        d.anchor is Some ==> anchor_pos_xml("wp:positionH"@, d.anchor.unwrap().pos_h).name
            == "wp:positionH"@,
        d.anchor is Some ==> anchor_pos_xml("wp:positionV"@, d.anchor.unwrap().pos_v).name
            == "wp:positionV"@,
        d.anchor is Some && d.anchor.unwrap().wrap is TopAndBottom ==> wrap_xml(
            d.anchor.unwrap().wrap,
        ).name == "wp:wrapTopAndBottom"@,
        d.anchor is Some && d.anchor.unwrap().wrap is Square ==> wrap_xml(
            d.anchor.unwrap().wrap,
        ).name == "wp:wrapSquare"@,
        d.anchor is Some && d.anchor.unwrap().wrap is Off ==> wrap_xml(
            d.anchor.unwrap().wrap,
        ).name == "wp:wrapNone"@,
{
}

/// A drawing floats exactly where it is anchored. Either way it states its width
/// and its height, its number, its name and its description, and holds its graphic.
pub proof fn drawings_read_back(d: Drawing, payload: El)
    requires
        payload.name == "a:graphic"@,
    ensures
        d.anchor is Some <==> envelope_xml(d, payload).name == "wp:anchor"@,
        d.anchor is None <==> envelope_xml(d, payload).name == "wp:inline"@,
        part_says(envelope_xml(d, payload), "wp:extent"@, "cx"@) == Some(dec(d.w_emu as int)),
        part_says(envelope_xml(d, payload), "wp:extent"@, "cy"@) == Some(dec(d.h_emu as int)),
        part_says(envelope_xml(d, payload), "wp:docPr"@, "id"@) == Some(dec(d.docpr_id as int)),
        part_says(envelope_xml(d, payload), "wp:docPr"@, "name"@) == Some(d.name@),
        part_says(envelope_xml(d, payload), "wp:docPr"@, "descr"@) == (match d.alt {
            Some(alt) => Some(alt@),
            None => None,
        }),
        part(envelope_xml(d, payload), "a:graphic"@) == Some(payload),
{
    broadcast use reading;

    drawing_words();
    lemma_drawing_names(d);
    assert(identity_xml("wp:docPr"@, d).name == "wp:docPr"@);
    match d.anchor {
        Some(a) => {
            assert(anchor_xml(d, a, payload).name == "wp:anchor"@);
            assert(wrap_xml(a.wrap).name != "wp:docPr"@);
        },
        None => {
            assert(inline_xml(d, payload).name == "wp:inline"@);
        },
    }
}

/// A drawing says that it is decorative exactly where it is.
pub proof fn decorative_drawings_say_so(d: Drawing)
    ensures
        d.decorative <==> part(docpr_xml(d), "a:extLst"@) is Some,
        d.decorative ==> {
            let list = part(docpr_xml(d), "a:extLst"@).unwrap();
            &&& part(list, "a:ext"@) is Some
            &&& part_says(part(list, "a:ext"@).unwrap(), "adec:decorative"@, "val"@) == Some("1"@)
        },
{
    broadcast use reading;

    drawing_words();
    reveal_strlit("xmlns:adec");
    reveal_strlit("val");
    assert("xmlns:adec"@.len() == 10 && "val"@.len() == 3);
    assert(identity_xml("wp:docPr"@, d).children.len() == 0);
}

/// Whether a position element states a position: what it is relative to, and its
/// alignment or else its offset.
pub open spec fn states_position(e: El, pos: AnchorPos) -> bool {
    &&& says(e, "relativeFrom"@) == Some(pos.rel_from@)
    &&& pos.align is Some ==> {
        &&& part(e, "wp:align"@) is Some
        &&& part(e, "wp:align"@).unwrap().children =~= seq![Xml::Text(pos.align.unwrap()@)]
        &&& part(e, "wp:posOffset"@) is None
    }
    &&& pos.align is None ==> {
        &&& part(e, "wp:align"@) is None
        &&& part(e, "wp:posOffset"@) is Some
        &&& pos.offset is Some ==> part(e, "wp:posOffset"@).unwrap().children =~= seq![
            Xml::Text(dec(pos.offset.unwrap() as int)),
        ]
        &&& pos.offset is None ==> part(e, "wp:posOffset"@).unwrap().children =~= seq![
            Xml::Text(dec(0)),
        ]
    }
}

proof fn lemma_position(name: Seq<char>, pos: AnchorPos)
    ensures
        anchor_pos_xml(name, pos).name == name,
        states_position(anchor_pos_xml(name, pos), pos),
{
    broadcast use reading;

    drawing_words();
}

/// A floating drawing states its distances from text, its height above others,
/// whether it lies behind the text, both axes of its position, and how text wraps
/// around it.
pub proof fn anchors_read_back(d: Drawing, a: Anchor, payload: El)
    requires
        payload.name == "a:graphic"@,
    ensures
        says(anchor_xml(d, a, payload), "distT"@) == Some(dec(a.dist[0] as int)),
        says(anchor_xml(d, a, payload), "distB"@) == Some(dec(a.dist[1] as int)),
        says(anchor_xml(d, a, payload), "distL"@) == Some(dec(a.dist[2] as int)),
        says(anchor_xml(d, a, payload), "distR"@) == Some(dec(a.dist[3] as int)),
        says(anchor_xml(d, a, payload), "relativeHeight"@) == Some(dec(a.z as int)),
        a.behind ==> says(anchor_xml(d, a, payload), "behindDoc"@) == Some("1"@),
        !a.behind ==> says(anchor_xml(d, a, payload), "behindDoc"@) == Some("0"@),
        part(anchor_xml(d, a, payload), "wp:positionH"@) is Some,
        part(anchor_xml(d, a, payload), "wp:positionV"@) is Some,
        states_position(part(anchor_xml(d, a, payload), "wp:positionH"@).unwrap(), a.pos_h),
        states_position(part(anchor_xml(d, a, payload), "wp:positionV"@).unwrap(), a.pos_v),
        a.wrap is TopAndBottom <==> part(
            anchor_xml(d, a, payload),
            "wp:wrapTopAndBottom"@,
        ) is Some,
        a.wrap is Square <==> part(anchor_xml(d, a, payload), "wp:wrapSquare"@) is Some,
        a.wrap is Off <==> part(anchor_xml(d, a, payload), "wp:wrapNone"@) is Some,
        a.wrap is Square ==> part_says(anchor_xml(d, a, payload), "wp:wrapSquare"@, "wrapText"@)
            == Some(a.wrap->Square_0@),
        "1"@ != "0"@,
{
    broadcast use reading;

    drawing_words();
    lemma_drawing_names(d);
    lemma_position("wp:positionH"@, a.pos_h);
    lemma_position("wp:positionV"@, a.pos_v);
    assert(a.wrap is TopAndBottom ==> wrap_xml(a.wrap).name == "wp:wrapTopAndBottom"@);
    assert(a.wrap is Square ==> wrap_xml(a.wrap).name == "wp:wrapSquare"@);
    assert(a.wrap is Off ==> wrap_xml(a.wrap).name == "wp:wrapNone"@);
}

/// The outline of a picture is a rectangle, rounded exactly where the picture's
/// corners are.
pub proof fn picture_outlines_read_back(geom: PicGeom)
    ensures
        pic_geom_xml(geom).name == "a:prstGeom"@,
        geom is Rect <==> says(pic_geom_xml(geom), "prst"@) == Some("rect"@),
        geom is RoundRect <==> says(pic_geom_xml(geom), "prst"@) == Some("roundRect"@),
        geom is RoundRect ==> {
            &&& part(pic_geom_xml(geom), "a:avLst"@) is Some
            &&& part_says(part(pic_geom_xml(geom), "a:avLst"@).unwrap(), "a:gd"@, "fmla"@) == Some(
                "val "@ + dec(geom->adj_100k as int),
            )
        },
{
    broadcast use reading;

    drawing_words();
}

/// A picture names its image, the part of it that shows, its size and its outline.
pub proof fn pictures_read_back(d: Drawing)
    ensures
        pic_xml(d).name == "a:graphic"@,
        part(pic_xml(d), "a:graphicData"@) is Some,
        part(part(pic_xml(d), "a:graphicData"@).unwrap(), "pic:pic"@) is Some,
        ({
            let p = part(part(pic_xml(d), "a:graphicData"@).unwrap(), "pic:pic"@).unwrap();
            &&& part(p, "pic:nvPicPr"@) is Some
            &&& part_says(part(p, "pic:nvPicPr"@).unwrap(), "pic:cNvPr"@, "id"@) == Some(
                dec(d.docpr_id as int),
            )
            &&& part_says(part(p, "pic:nvPicPr"@).unwrap(), "pic:cNvPr"@, "name"@) == Some(d.name@)
            &&& part(p, "pic:blipFill"@) is Some
            &&& part(p, "pic:blipFill"@).unwrap().children[0] == Xml::Owed(
                OwedXml::Blip {
                    rel: d.rel@,
                    svg_rel: match d.svg_rel {
                        Some(s) => Some(s@),
                        None => None,
                    },
                },
            )
            &&& part(part(p, "pic:blipFill"@).unwrap(), "a:srcRect"@) is Some
                <==> d.pic_clip.src_rect is Some
            &&& d.pic_clip.src_rect is Some ==> {
                let rect = d.pic_clip.src_rect.unwrap();
                let fill = part(p, "pic:blipFill"@).unwrap();
                &&& part_says(fill, "a:srcRect"@, "l"@) == Some(dec(rect[0] as int))
                &&& part_says(fill, "a:srcRect"@, "t"@) == Some(dec(rect[1] as int))
                &&& part_says(fill, "a:srcRect"@, "r"@) == Some(dec(rect[2] as int))
                &&& part_says(fill, "a:srcRect"@, "b"@) == Some(dec(rect[3] as int))
            }
            &&& part(p, "pic:spPr"@) is Some
            &&& part(part(p, "pic:spPr"@).unwrap(), "a:prstGeom"@) == Some(
                pic_geom_xml(d.pic_clip.geom),
            )
            &&& part(part(p, "pic:spPr"@).unwrap(), "a:xfrm"@) is Some
            &&& part_says(
                part(part(p, "pic:spPr"@).unwrap(), "a:xfrm"@).unwrap(),
                "a:ext"@,
                "cx"@,
            ) == Some(dec(d.w_emu as int))
            &&& part_says(
                part(part(p, "pic:spPr"@).unwrap(), "a:xfrm"@).unwrap(),
                "a:ext"@,
                "cy"@,
            ) == Some(dec(d.h_emu as int))
        }),
{
    broadcast use reading;

    drawing_words();
    picture_outlines_read_back(d.pic_clip.geom);
    assert(identity_xml("pic:cNvPr"@, d).name == "pic:cNvPr"@);
    assert(point_xml("a:off"@, 0, 0).name == "a:off"@);
    assert(extent_xml("a:ext"@, d.w_emu, d.h_emu).name == "a:ext"@);
}

/// The text box of a shape states its insets, whether its text wraps, and whether
/// it resizes with it.
pub proof fn text_boxes_read_back(tb: TextBox)
    ensures
        body_props_xml(tb).name == "wps:bodyPr"@,
        tb.wrap is Square <==> says(body_props_xml(tb), "wrap"@) == Some("square"@),
        tb.wrap is Off <==> says(body_props_xml(tb), "wrap"@) == Some("none"@),
        says(body_props_xml(tb), "lIns"@) == Some(dec(tb.ins[0] as int)),
        says(body_props_xml(tb), "tIns"@) == Some(dec(tb.ins[1] as int)),
        says(body_props_xml(tb), "rIns"@) == Some(dec(tb.ins[2] as int)),
        says(body_props_xml(tb), "bIns"@) == Some(dec(tb.ins[3] as int)),
        part(body_props_xml(tb), "a:spAutoFit"@) is Some <==> tb.autofit,
{
    broadcast use reading;

    drawing_words();
}

/// A shape states its place, its size, its outline, its fill and its stroke, and
/// holds its text exactly where it frames some.
pub proof fn shapes_read_back(
    place: (i64, i64),
    size: (i64, i64),
    shape: ShapeSpec,
    text: Seq<Xml>,
)
    ensures
        ({
            let e = wsp_xml(place, size, shape, text);
            &&& e.name == "wps:wsp"@
            &&& part(e, "wps:spPr"@) is Some
            &&& part(part(e, "wps:spPr"@).unwrap(), "a:xfrm"@) is Some
            &&& part_says(
                part(part(e, "wps:spPr"@).unwrap(), "a:xfrm"@).unwrap(),
                "a:off"@,
                "x"@,
            ) == Some(dec(place.0 as int))
            &&& part_says(
                part(part(e, "wps:spPr"@).unwrap(), "a:xfrm"@).unwrap(),
                "a:off"@,
                "y"@,
            ) == Some(dec(place.1 as int))
            &&& part_says(
                part(part(e, "wps:spPr"@).unwrap(), "a:xfrm"@).unwrap(),
                "a:ext"@,
                "cx"@,
            ) == Some(dec(size.0 as int))
            &&& part_says(
                part(part(e, "wps:spPr"@).unwrap(), "a:xfrm"@).unwrap(),
                "a:ext"@,
                "cy"@,
            ) == Some(dec(size.1 as int))
            &&& part(e, "wps:spPr"@).unwrap().children.len() == 4
            &&& part(e, "wps:spPr"@).unwrap().children[2] == Xml::Owed(OwedXml::Fill(shape.fill))
            &&& part(e, "wps:spPr"@).unwrap().children[3] == Xml::Owed(
                OwedXml::Stroke(shape.stroke),
            )
            &&& part(e, "wps:txbx"@) is Some <==> shape.txbx is Some
            &&& shape.txbx is Some ==> {
                &&& part(part(e, "wps:txbx"@).unwrap(), "w:txbxContent"@) is Some
                &&& part(part(e, "wps:txbx"@).unwrap(), "w:txbxContent"@).unwrap().children
                    == text
                &&& part(e, "wps:bodyPr"@) == Some(body_props_xml(shape.txbx.unwrap()))
            }
            &&& shape.geom is Rect ==> part(e, "wps:spPr"@).unwrap().children[1] == Xml::Owed(
                OwedXml::PresetGeom { name: "rect"@, adj_100k: None },
            )
            &&& shape.geom is Ellipse ==> part(e, "wps:spPr"@).unwrap().children[1] == Xml::Owed(
                OwedXml::PresetGeom { name: "ellipse"@, adj_100k: None },
            )
            &&& shape.geom is RoundRect ==> part(e, "wps:spPr"@).unwrap().children[1]
                == Xml::Owed(
                OwedXml::PresetGeom {
                    name: "roundRect"@,
                    adj_100k: Some(shape.geom->adj_100k),
                },
            )
            &&& shape.geom is Path ==> part(e, "wps:spPr"@).unwrap().children[1] == Xml::Owed(
                OwedXml::CustomGeom {
                    segments: shape.geom->Path_0@,
                    w_emu: size.0,
                    h_emu: size.1,
                },
            )
        }),
{
    broadcast use reading;

    drawing_words();
    assert(point_xml("a:off"@, place.0, place.1).name == "a:off"@);
    assert(extent_xml("a:ext"@, size.0, size.1).name == "a:ext"@);
    assert(el("w:txbxContent"@).all(text).children =~= text);
    if shape.txbx is Some {
        text_boxes_read_back(shape.txbx.unwrap());
    }
}

/// A drawing is one run: a plain drawing, or for a text box the newer markup next
/// to the older one.
pub proof fn drawings_are_one_run(d: Drawing)
    ensures
        drawing_xml(d).name == "w:r"@,
        drawing_xml(d).children.len() == 1,
        d.shape is Some && d.shape.unwrap().txbx is Some <==> part(
            drawing_xml(d),
            "mc:AlternateContent"@,
        ) is Some,
        !(d.shape is Some && d.shape.unwrap().txbx is Some) <==> part(
            drawing_xml(d),
            "w:drawing"@,
        ) is Some,
{
    broadcast use reading;

    drawing_words();
}

/// A length in points is written in hundredths of a point, two digits behind the
/// point, and comes nearest to the length.
pub proof fn lengths_in_points_read_back(emu: i64)
    requires
        emu >= 0,
    ensures
        points(emu).len() >= 4,
        points(emu)[points(emu).len() - 3] == '.',
        decimal_value(points(emu).remove(points(emu).len() - 3)) is Some,
        ({
            let h = decimal_value(points(emu).remove(points(emu).len() - 3)).unwrap();
            -127 <= 2 * (127 * h - emu) <= 127
        }),
        pt(emu) == points(emu) + "pt"@,
{
    reveal_strlit(".");
    reveal_strlit("");
    let h = (2 * emu + 127) / 254;
    let whole = dec_nat((h / 100) as nat);
    let d1 = digit((h / 10) % 10);
    let d2 = digit(h % 10);
    let p = points(emu);
    assert(p =~= whole + seq!['.', d1, d2]);
    decimal_reads_back((h / 100) as nat);
    let q = p.remove(p.len() - 3);
    assert(q =~= whole + seq![d1, d2]);
    assert(q.drop_last() =~= whole + seq![d1]);
    assert(q.drop_last().drop_last() =~= whole);
    assert(q.last() == d2);
    assert(q.drop_last().last() == d1);
    let v = h / 100;
    assert(decimal_value(q.drop_last()) == Some((v * 10 + (h / 10) % 10) as nat));
    assert(decimal_value(q) == Some(((v * 10 + (h / 10) % 10) * 10 + h % 10) as nat));
    assert((v * 10 + (h / 10) % 10) * 10 + h % 10 == h);
}

} // verus!
