//! Drawings: pictures, shapes, groups and text boxes.

use vstd::prelude::*;

use crate::dom::{
    Anchor, AnchorPos, AnchorWrap, Drawing, PicGeom, ShapeFill, ShapeGeom, ShapeSpec, ShapeStroke,
    TextBox, TextBoxWrap,
};
use crate::ns;
use crate::text::{concat2, dec, dec_i64, dec_nat, dec_u64, digit, hex, hex_rgb, push_u64};
use crate::xml::{El, Elem, Node, Owed, OwedXml, Xml, el, open, xmls};

verus! {

/// The size of a drawing.
pub open spec fn extent_xml(name: Seq<char>, w_emu: i64, h_emu: i64) -> El {
    el(name).attr("cx"@, dec(w_emu as int)).attr("cy"@, dec(h_emu as int))
}

/// A point.
pub open spec fn point_xml(name: Seq<char>, x: i64, y: i64) -> El {
    el(name).attr("x"@, dec(x as int)).attr("y"@, dec(y as int))
}

/// No room beyond the size of a drawing.
pub open spec fn effect_extent_xml() -> El {
    el("wp:effectExtent"@).attr("l"@, "0"@).attr("t"@, "0"@).attr("r"@, "0"@).attr("b"@, "0"@)
}

/// A locked aspect ratio.
pub open spec fn frame_locks_xml() -> El {
    el("wp:cNvGraphicFramePr"@).elem(
        el("a:graphicFrameLocks"@).attr("xmlns:a"@, ns::A@).attr("noChangeAspect"@, "1"@),
    )
}

/// An element with the identity, the name and the description of a drawing.
pub open spec fn identity_xml(elem: Seq<char>, d: Drawing) -> El {
    let e = el(elem).attr("id"@, dec(d.docpr_id as int)).attr("name"@, d.name@);
    match d.alt {
        Some(alt) => e.attr("descr"@, alt@),
        None => e,
    }
}

/// The document properties of a drawing. A decorative drawing says so in an
/// extension.
pub open spec fn docpr_xml(d: Drawing) -> El {
    let e = identity_xml("wp:docPr"@, d);
    if d.decorative {
        e.elem(
            el("a:extLst"@).attr("xmlns:a"@, ns::A@).elem(
                el("a:ext"@).attr("uri"@, "{C183D7F6-B498-43B3-948B-1728B52AA6E4}"@).elem(
                    el("adec:decorative"@).attr("xmlns:adec"@, ns::ADEC@).attr("val"@, "1"@),
                ),
            ),
        )
    } else {
        e
    }
}

/// An inline drawing.
pub open spec fn inline_xml(d: Drawing, payload: El) -> El {
    el("wp:inline"@).attr("distT"@, "0"@).attr("distB"@, "0"@).attr("distL"@, "0"@).attr(
        "distR"@,
        "0"@,
    ).elem(extent_xml("wp:extent"@, d.w_emu, d.h_emu)).elem(effect_extent_xml()).elem(
        docpr_xml(d),
    ).elem(frame_locks_xml()).elem(payload)
}

/// One axis of a position: an alignment, or else an offset.
pub open spec fn anchor_pos_xml(name: Seq<char>, pos: AnchorPos) -> El {
    let e = el(name).attr("relativeFrom"@, pos.rel_from@);
    match pos.align {
        Some(align) => e.elem(el("wp:align"@).text(align@)),
        None => e.elem(
            el("wp:posOffset"@).text(
                dec(
                    match pos.offset {
                        Some(offset) => offset as int,
                        None => 0,
                    },
                ),
            ),
        ),
    }
}

/// How text wraps around a floating drawing.
pub open spec fn wrap_xml(wrap: AnchorWrap) -> El {
    match wrap {
        AnchorWrap::TopAndBottom => el("wp:wrapTopAndBottom"@),
        AnchorWrap::Square(text) => el("wp:wrapSquare"@).attr("wrapText"@, text@),
        AnchorWrap::Off => el("wp:wrapNone"@),
    }
}

/// A floating drawing. All attributes of the envelope are required.
pub open spec fn anchor_xml(d: Drawing, a: Anchor, payload: El) -> El {
    el("wp:anchor"@).attr("distT"@, dec(a.dist[0] as int)).attr(
        "distB"@,
        dec(a.dist[1] as int),
    ).attr("distL"@, dec(a.dist[2] as int)).attr("distR"@, dec(a.dist[3] as int)).attr(
        "simplePos"@,
        "0"@,
    ).attr("relativeHeight"@, dec(a.z as int)).attr(
        "behindDoc"@,
        if a.behind {
            "1"@
        } else {
            "0"@
        },
    ).attr("locked"@, "0"@).attr("layoutInCell"@, "1"@).attr("allowOverlap"@, "1"@).elem(
        point_xml("wp:simplePos"@, 0, 0),
    ).elem(anchor_pos_xml("wp:positionH"@, a.pos_h)).elem(
        anchor_pos_xml("wp:positionV"@, a.pos_v),
    ).elem(extent_xml("wp:extent"@, d.w_emu, d.h_emu)).elem(effect_extent_xml()).elem(
        wrap_xml(a.wrap),
    ).elem(docpr_xml(d)).elem(frame_locks_xml()).elem(payload)
}

/// A drawing in its envelope.
pub open spec fn envelope_xml(d: Drawing, payload: El) -> El {
    match d.anchor {
        Some(a) => anchor_xml(d, a, payload),
        None => inline_xml(d, payload),
    }
}

/// Graphic data of the kind that `uri` names.
pub open spec fn graphic_xml(uri: Seq<char>, data: El) -> El {
    el("a:graphic"@).attr("xmlns:a"@, ns::A@).elem(el("a:graphicData"@).attr("uri"@, uri).elem(data))
}

/// The outline of a picture.
pub open spec fn pic_geom_xml(geom: PicGeom) -> El {
    match geom {
        PicGeom::Rect => el("a:prstGeom"@).attr("prst"@, "rect"@).elem(el("a:avLst"@)),
        PicGeom::RoundRect { adj_100k } => el("a:prstGeom"@).attr("prst"@, "roundRect"@).elem(
            el("a:avLst"@).elem(
                el("a:gd"@).attr("name"@, "adj"@).attr("fmla"@, "val "@ + dec(adj_100k as int)),
            ),
        ),
    }
}

/// A picture: its identity, its image and its outline.
pub open spec fn pic_xml(d: Drawing) -> El {
    let fill = el("pic:blipFill"@).owed(
        OwedXml::Blip {
            rel: d.rel@,
            svg_rel: match d.svg_rel {
                Some(s) => Some(s@),
                None => None,
            },
        },
    );
    let fill = match d.pic_clip.src_rect {
        Some(rect) => fill.elem(
            el("a:srcRect"@).attr("l"@, dec(rect[0] as int)).attr("t"@, dec(rect[1] as int)).attr(
                "r"@,
                dec(rect[2] as int),
            ).attr("b"@, dec(rect[3] as int)),
        ),
        None => fill,
    };
    graphic_xml(
        ns::PIC@,
        el("pic:pic"@).attr("xmlns:pic"@, ns::PIC@).elem(
            el("pic:nvPicPr"@).elem(identity_xml("pic:cNvPr"@, d)).elem(el("pic:cNvPicPr"@)),
        ).elem(fill.elem(el("a:stretch"@).elem(el("a:fillRect"@)))).elem(
            el("pic:spPr"@).elem(
                el("a:xfrm"@).elem(point_xml("a:off"@, 0, 0)).elem(
                    extent_xml("a:ext"@, d.w_emu, d.h_emu),
                ),
            ).elem(pic_geom_xml(d.pic_clip.geom)),
        ),
    )
}

/// The outline of a shape.
pub open spec fn shape_geom(geom: ShapeGeom, w_emu: i64, h_emu: i64) -> OwedXml {
    match geom {
        ShapeGeom::Rect => OwedXml::PresetGeom { name: "rect"@, adj_100k: None },
        ShapeGeom::RoundRect { adj_100k } => OwedXml::PresetGeom {
            name: "roundRect"@,
            adj_100k: Some(adj_100k),
        },
        ShapeGeom::Ellipse => OwedXml::PresetGeom { name: "ellipse"@, adj_100k: None },
        ShapeGeom::Path(segments) => OwedXml::CustomGeom { segments: segments@, w_emu, h_emu },
    }
}

/// The body properties of a text box: its insets, and whether it resizes.
pub open spec fn body_props_xml(tb: TextBox) -> El {
    let e = el("wps:bodyPr"@).attr(
        "wrap"@,
        match tb.wrap {
            TextBoxWrap::Square => "square"@,
            TextBoxWrap::Off => "none"@,
        },
    ).attr("lIns"@, dec(tb.ins[0] as int)).attr("tIns"@, dec(tb.ins[1] as int)).attr(
        "rIns"@,
        dec(tb.ins[2] as int),
    ).attr("bIns"@, dec(tb.ins[3] as int)).attr("anchor"@, "t"@);
    if tb.autofit {
        e.elem(el("a:spAutoFit"@))
    } else {
        e
    }
}

/// A shape at a place, with the text it frames.
pub open spec fn wsp_xml(
    place: (i64, i64),
    size: (i64, i64),
    shape: ShapeSpec,
    text: Seq<Xml>,
) -> El {
    let e = el("wps:wsp"@).attr("xmlns:wps"@, ns::WPS@).elem(el("wps:cNvSpPr"@)).elem(
        el("wps:spPr"@).elem(
            el("a:xfrm"@).elem(point_xml("a:off"@, place.0, place.1)).elem(
                extent_xml("a:ext"@, size.0, size.1),
            ),
        ).owed(shape_geom(shape.geom, size.0, size.1)).owed(OwedXml::Fill(shape.fill)).owed(
            OwedXml::Stroke(shape.stroke),
        ),
    );
    match shape.txbx {
        Some(tb) => e.elem(el("wps:txbx"@).elem(el("w:txbxContent"@).all(text))).elem(
            body_props_xml(tb),
        ),
        None => e.elem(el("wps:bodyPr"@)),
    }
}

/// Several shapes in one coordinate space, which is that of the group itself.
pub open spec fn group_xml(d: Drawing, shapes: Seq<Xml>) -> El {
    graphic_xml(
        ns::WPG@,
        el("wpg:wgp"@).attr("xmlns:wpg"@, ns::WPG@).attr("xmlns:wps"@, ns::WPS@).elem(
            el("wpg:cNvGrpSpPr"@),
        ).elem(
            el("wpg:grpSpPr"@).elem(
                el("a:xfrm"@).elem(point_xml("a:off"@, 0, 0)).elem(
                    extent_xml("a:ext"@, d.w_emu, d.h_emu),
                ).elem(point_xml("a:chOff"@, 0, 0)).elem(
                    extent_xml("a:chExt"@, d.w_emu, d.h_emu),
                ),
            ),
        ).all(shapes),
    )
}

/// A length in points with two decimals, rounded to the nearest.
pub open spec fn points(emu: i64) -> Seq<char> {
    let size = if emu < 0 {
        -(emu as int)
    } else {
        emu as int
    };
    let hundredths = (2 * size + 127) / 254;
    (if emu < 0 {
        "-"@
    } else {
        ""@
    }) + dec_nat((hundredths / 100) as nat) + "."@ + seq![
        digit((hundredths / 10) % 10),
        digit(hundredths % 10),
    ]
}

/// A length in points, with its unit.
pub open spec fn pt(emu: i64) -> Seq<char> {
    points(emu) + "pt"@
}

/// A color without its opacity, as older drawing markup writes it.
pub open spec fn vml_color(c: [u8; 4]) -> Seq<char> {
    "#"@ + hex_rgb([c[0], c[1], c[2]])
}

/// A text box in older drawing markup, for consumers that know nothing newer.
/// A gradient is approximated by its first color.
pub open spec fn vml_xml(d: Drawing, shape: ShapeSpec, tb: TextBox, text: Seq<Xml>) -> El {
    let e = el("v:rect"@).attr(
        "style"@,
        "width:"@ + pt(d.w_emu) + ";height:"@ + pt(d.h_emu),
    );
    let e = match shape.fill {
        Some(ShapeFill::Solid(c)) => e.attr("fillcolor"@, vml_color(c)),
        Some(ShapeFill::LinearGradient { angle_60k: _, stops }) => if stops@.len() > 0 {
            e.attr("fillcolor"@, vml_color(stops@[0].color))
        } else {
            e
        },
        Some(
            ShapeFill::RadialGradient {
                stops,
                center_100k: _,
                radius_100k: _,
                focal_center_100k: _,
                focal_radius_100k: _,
            },
        ) => if stops@.len() > 0 {
            e.attr("fillcolor"@, vml_color(stops@[0].color))
        } else {
            e
        },
        Some(ShapeFill::Tile { .. }) => e,
        None => e.attr("filled"@, "f"@),
    };
    let e = match shape.stroke {
        Some(s) => e.attr("strokecolor"@, vml_color(s.color)).attr("strokeweight"@, pt(s.w_emu)),
        None => e.attr("stroked"@, "f"@),
    };
    el("w:pict"@).elem(
        e.elem(
            el("v:textbox"@).attr(
                "inset"@,
                pt(tb.ins[0]) + ","@ + pt(tb.ins[1]) + ","@ + pt(tb.ins[2]) + ","@ + pt(
                    tb.ins[3],
                ),
            ).elem(el("w:txbxContent"@).all(text)),
        ),
    )
}

/// A run with a drawing.
pub open spec fn drawing_run_xml(envelope: El) -> El {
    el("w:r"@).elem(el("w:drawing"@).elem(envelope))
}

/// A run with a text box, and the same text box in older markup for consumers
/// that do not know the newer one.
pub open spec fn text_box_run_xml(envelope: El, vml: El) -> El {
    el("w:r"@).elem(
        el("mc:AlternateContent"@).elem(
            el("mc:Choice"@).attr("Requires"@, "wps"@).elem(el("w:drawing"@).elem(envelope)),
        ).elem(el("mc:Fallback"@).elem(vml)),
    )
}

fn write_extent<'a>(name: &'static str, w_emu: i64, h_emu: i64) -> (r: Elem<'a>)
    ensures
        r@ == extent_xml(name@, w_emu, h_emu),
{
    open(name).attr("cx", dec_i64(w_emu).as_str()).attr("cy", dec_i64(h_emu).as_str())
}

fn write_point<'a>(name: &'static str, x: i64, y: i64) -> (r: Elem<'a>)
    ensures
        r@ == point_xml(name@, x, y),
{
    open(name).attr("x", dec_i64(x).as_str()).attr("y", dec_i64(y).as_str())
}

fn write_effect_extent<'a>() -> (r: Elem<'a>)
    ensures
        r@ == effect_extent_xml(),
{
    open("wp:effectExtent").attr("l", "0").attr("t", "0").attr("r", "0").attr("b", "0")
}

fn write_frame_locks<'a>() -> (r: Elem<'a>)
    ensures
        r@ == frame_locks_xml(),
{
    open("wp:cNvGraphicFramePr").elem(
        open("a:graphicFrameLocks").attr("xmlns:a", ns::A).attr("noChangeAspect", "1"),
    )
}

fn write_identity<'a>(elem: &'static str, d: &Drawing) -> (r: Elem<'a>)
    ensures
        r@ == identity_xml(elem@, *d),
{
    let e: Elem<'a> = open(elem).attr("id", dec_u64(d.docpr_id as u64).as_str()).attr(
        "name",
        d.name.as_str(),
    );
    match &d.alt {
        Some(alt) => e.attr("descr", alt.as_str()),
        None => e,
    }
}

fn write_drawing_doc_properties<'a>(d: &Drawing) -> (r: Elem<'a>)
    ensures
        r@ == docpr_xml(*d),
{
    let e: Elem<'a> = write_identity("wp:docPr", d);
    if d.decorative {
        e.elem(
            open("a:extLst").attr("xmlns:a", ns::A).elem(
                open("a:ext").attr("uri", "{C183D7F6-B498-43B3-948B-1728B52AA6E4}").elem(
                    open("adec:decorative").attr("xmlns:adec", ns::ADEC).attr("val", "1"),
                ),
            ),
        )
    } else {
        e
    }
}

fn write_inline_envelope<'a>(d: &Drawing, payload: Elem<'a>) -> (r: Elem<'a>)
    ensures
        r@ == inline_xml(*d, payload@),
{
    open("wp:inline").attr("distT", "0").attr("distB", "0").attr("distL", "0").attr(
        "distR",
        "0",
    ).elem(write_extent("wp:extent", d.w_emu, d.h_emu)).elem(write_effect_extent()).elem(
        write_drawing_doc_properties(d),
    ).elem(write_frame_locks()).elem(payload)
}

fn write_anchor_pos<'a>(name: &'static str, pos: &AnchorPos) -> (r: Elem<'a>)
    ensures
        r@ == anchor_pos_xml(name@, *pos),
{
    let e: Elem<'a> = open(name).attr("relativeFrom", pos.rel_from);
    match pos.align {
        Some(align) => e.elem(open("wp:align").text(align)),
        None => {
            let offset: i64 = match pos.offset {
                Some(offset) => offset,
                None => 0,
            };
            e.elem(open("wp:posOffset").text(dec_i64(offset).as_str()))
        }
    }
}

fn write_wrap<'a>(wrap: &AnchorWrap) -> (r: Elem<'a>)
    ensures
        r@ == wrap_xml(*wrap),
{
    match wrap {
        AnchorWrap::TopAndBottom => open("wp:wrapTopAndBottom"),
        AnchorWrap::Square(text) => open("wp:wrapSquare").attr("wrapText", text),
        AnchorWrap::Off => open("wp:wrapNone"),
    }
}

fn write_anchor_envelope<'a>(d: &Drawing, a: &Anchor, payload: Elem<'a>) -> (r: Elem<'a>)
    ensures
        r@ == anchor_xml(*d, *a, payload@),
{
    let behind: &str = if a.behind {
        "1"
    } else {
        "0"
    };
    open("wp:anchor").attr("distT", dec_i64(a.dist[0]).as_str()).attr(
        "distB",
        dec_i64(a.dist[1]).as_str(),
    ).attr("distL", dec_i64(a.dist[2]).as_str()).attr("distR", dec_i64(a.dist[3]).as_str()).attr(
        "simplePos",
        "0",
    ).attr("relativeHeight", dec_u64(a.z as u64).as_str()).attr("behindDoc", behind).attr(
        "locked",
        "0",
    ).attr("layoutInCell", "1").attr("allowOverlap", "1").elem(
        write_point("wp:simplePos", 0, 0),
    ).elem(write_anchor_pos("wp:positionH", &a.pos_h)).elem(
        write_anchor_pos("wp:positionV", &a.pos_v),
    ).elem(write_extent("wp:extent", d.w_emu, d.h_emu)).elem(write_effect_extent()).elem(
        write_wrap(&a.wrap),
    ).elem(write_drawing_doc_properties(d)).elem(write_frame_locks()).elem(payload)
}

/// Builds a drawing in its envelope.
pub fn write_envelope<'a>(d: &Drawing, payload: Elem<'a>) -> (r: Elem<'a>)
    ensures
        r@ == envelope_xml(*d, payload@),
{
    match &d.anchor {
        Some(a) => write_anchor_envelope(d, a, payload),
        None => write_inline_envelope(d, payload),
    }
}

/// Builds graphic data of the kind that `uri` names.
pub fn write_graphic<'a>(uri: &str, data: Elem<'a>) -> (r: Elem<'a>)
    ensures
        r@ == graphic_xml(uri@, data@),
{
    open("a:graphic").attr("xmlns:a", ns::A).elem(open("a:graphicData").attr("uri", uri).elem(data))
}

fn write_pic_geom<'a>(geom: &PicGeom) -> (r: Elem<'a>)
    ensures
        r@ == pic_geom_xml(*geom),
{
    match geom {
        PicGeom::Rect => open("a:prstGeom").attr("prst", "rect").elem(open("a:avLst")),
        PicGeom::RoundRect { adj_100k } => open("a:prstGeom").attr("prst", "roundRect").elem(
            open("a:avLst").elem(
                open("a:gd").attr("name", "adj").attr(
                    "fmla",
                    concat2("val ", dec_i64(*adj_100k as i64).as_str()).as_str(),
                ),
            ),
        ),
    }
}

/// Builds a picture.
pub fn write_pic_payload<'a>(d: &'a Drawing) -> (r: Elem<'a>)
    ensures
        r@ == pic_xml(*d),
{
    let svg_rel: Option<&'a str> = match &d.svg_rel {
        Some(s) => Some(s.as_str()),
        None => None,
    };
    let fill: Elem<'a> = open("pic:blipFill").owed(Owed::Blip { rel: d.rel.as_str(), svg_rel });
    let fill: Elem<'a> = match &d.pic_clip.src_rect {
        Some(rect) => fill.elem(
            open("a:srcRect").attr("l", dec_i64(rect[0] as i64).as_str()).attr(
                "t",
                dec_i64(rect[1] as i64).as_str(),
            ).attr("r", dec_i64(rect[2] as i64).as_str()).attr(
                "b",
                dec_i64(rect[3] as i64).as_str(),
            ),
        ),
        None => fill,
    };
    write_graphic(
        ns::PIC,
        open("pic:pic").attr("xmlns:pic", ns::PIC).elem(
            open("pic:nvPicPr").elem(write_identity("pic:cNvPr", d)).elem(open("pic:cNvPicPr")),
        ).elem(fill.elem(open("a:stretch").elem(open("a:fillRect")))).elem(
            open("pic:spPr").elem(
                open("a:xfrm").elem(write_point("a:off", 0, 0)).elem(
                    write_extent("a:ext", d.w_emu, d.h_emu),
                ),
            ).elem(write_pic_geom(&d.pic_clip.geom)),
        ),
    )
}

fn shape_outline<'a>(geom: &'a ShapeGeom, w_emu: i64, h_emu: i64) -> (r: Owed<'a>)
    ensures
        r@ == shape_geom(*geom, w_emu, h_emu),
{
    match geom {
        ShapeGeom::Rect => Owed::PresetGeom { name: "rect", adj_100k: None },
        ShapeGeom::RoundRect { adj_100k } => Owed::PresetGeom {
            name: "roundRect",
            adj_100k: Some(*adj_100k),
        },
        ShapeGeom::Ellipse => Owed::PresetGeom { name: "ellipse", adj_100k: None },
        ShapeGeom::Path(segments) => Owed::CustomGeom { segments, w_emu, h_emu },
    }
}

fn write_body_props<'a>(tb: &TextBox) -> (r: Elem<'a>)
    ensures
        r@ == body_props_xml(*tb),
{
    let wrap: &str = match tb.wrap {
        TextBoxWrap::Square => "square",
        TextBoxWrap::Off => "none",
    };
    let e: Elem<'a> = open("wps:bodyPr").attr("wrap", wrap).attr(
        "lIns",
        dec_i64(tb.ins[0]).as_str(),
    ).attr("tIns", dec_i64(tb.ins[1]).as_str()).attr("rIns", dec_i64(tb.ins[2]).as_str()).attr(
        "bIns",
        dec_i64(tb.ins[3]).as_str(),
    ).attr("anchor", "t");
    if tb.autofit {
        e.elem(open("a:spAutoFit"))
    } else {
        e
    }
}

/// Builds a shape at a place, with the text it frames.
pub fn write_wsp<'a>(
    place: (i64, i64),
    size: (i64, i64),
    shape: &'a ShapeSpec,
    text: Vec<Node<'a>>,
) -> (r: Elem<'a>)
    ensures
        r@ == wsp_xml(place, size, *shape, xmls(text@)),
{
    let fill: Option<&'a ShapeFill> = match &shape.fill {
        Some(f) => Some(f),
        None => None,
    };
    let stroke: Option<&'a ShapeStroke> = match &shape.stroke {
        Some(s) => Some(s),
        None => None,
    };
    let e: Elem<'a> = open("wps:wsp").attr("xmlns:wps", ns::WPS).elem(open("wps:cNvSpPr")).elem(
        open("wps:spPr").elem(
            open("a:xfrm").elem(write_point("a:off", place.0, place.1)).elem(
                write_extent("a:ext", size.0, size.1),
            ),
        ).owed(shape_outline(&shape.geom, size.0, size.1)).owed(Owed::Fill(fill)).owed(
            Owed::Stroke(stroke),
        ),
    );
    match &shape.txbx {
        Some(tb) => e.elem(open("wps:txbx").elem(open("w:txbxContent").all(text))).elem(
            write_body_props(tb),
        ),
        None => e.elem(open("wps:bodyPr")),
    }
}

/// Builds a group of shapes.
pub fn write_group_payload<'a>(d: &Drawing, shapes: Vec<Node<'a>>) -> (r: Elem<'a>)
    ensures
        r@ == group_xml(*d, xmls(shapes@)),
{
    write_graphic(
        ns::WPG,
        open("wpg:wgp").attr("xmlns:wpg", ns::WPG).attr("xmlns:wps", ns::WPS).elem(
            open("wpg:cNvGrpSpPr"),
        ).elem(
            open("wpg:grpSpPr").elem(
                open("a:xfrm").elem(write_point("a:off", 0, 0)).elem(
                    write_extent("a:ext", d.w_emu, d.h_emu),
                ).elem(write_point("a:chOff", 0, 0)).elem(
                    write_extent("a:chExt", d.w_emu, d.h_emu),
                ),
            ),
        ).all(shapes),
    )
}

fn push_points(s: &mut String, emu: i64)
    ensures
        final(s)@ == old(s)@ + pt(emu),
{
    let size: u64 = if emu < 0 {
        s.append("-");
        (-(emu as i128)) as u64
    } else {
        s.append("");
        emu as u64
    };
    let hundredths: u64 = ((2 * size as u128 + 127) / 254) as u64;
    push_u64(s, hundredths / 100);
    s.append(".");
    push_u64(s, (hundredths / 10) % 10);
    push_u64(s, hundredths % 10);
    s.append("pt");
    proof {
        let h = hundredths as int;
        reveal_with_fuel(dec_nat, 2);
        assert(dec_nat(((hundredths / 10) % 10) as nat) =~= seq![digit((h / 10) % 10)]);
        assert(dec_nat((hundredths % 10) as nat) =~= seq![digit(h % 10)]);
        assert(s@ =~= old(s)@ + pt(emu));
    }
}

fn vml_hex(c: [u8; 4]) -> (r: String)
    ensures
        r@ == vml_color(c),
{
    concat2("#", hex([c[0], c[1], c[2]]).as_str())
}

fn vml_size(w_emu: i64, h_emu: i64) -> (r: String)
    ensures
        r@ == "width:"@ + pt(w_emu) + ";height:"@ + pt(h_emu),
{
    let mut s: String = "width:".to_owned();
    push_points(&mut s, w_emu);
    s.append(";height:");
    push_points(&mut s, h_emu);
    s
}

fn vml_inset(ins: &[i64; 4]) -> (r: String)
    ensures
        r@ == pt(ins[0]) + ","@ + pt(ins[1]) + ","@ + pt(ins[2]) + ","@ + pt(ins[3]),
{
    let mut s: String = String::new();
    push_points(&mut s, ins[0]);
    s.append(",");
    push_points(&mut s, ins[1]);
    s.append(",");
    push_points(&mut s, ins[2]);
    s.append(",");
    push_points(&mut s, ins[3]);
    assert(s@ =~= pt(ins[0]) + ","@ + pt(ins[1]) + ","@ + pt(ins[2]) + ","@ + pt(ins[3]));
    s
}

/// Builds a text box in older drawing markup.
pub fn write_vml_textbox<'a>(
    d: &Drawing,
    shape: &ShapeSpec,
    tb: &TextBox,
    text: Vec<Node<'a>>,
) -> (r: Elem<'a>)
    ensures
        r@ == vml_xml(*d, *shape, *tb, xmls(text@)),
{
    let e: Elem<'a> = open("v:rect").attr("style", vml_size(d.w_emu, d.h_emu).as_str());
    let e: Elem<'a> = match &shape.fill {
        Some(ShapeFill::Solid(c)) => e.attr("fillcolor", vml_hex(*c).as_str()),
        Some(ShapeFill::LinearGradient { stops, .. }) => {
            if stops.len() > 0 {
                e.attr("fillcolor", vml_hex(stops[0].color).as_str())
            } else {
                e
            }
        }
        Some(ShapeFill::RadialGradient { stops, .. }) => {
            if stops.len() > 0 {
                e.attr("fillcolor", vml_hex(stops[0].color).as_str())
            } else {
                e
            }
        }
        Some(ShapeFill::Tile { .. }) => e,
        None => e.attr("filled", "f"),
    };
    let e: Elem<'a> = match &shape.stroke {
        Some(s) => {
            let mut weight: String = String::new();
            push_points(&mut weight, s.w_emu);
            assert(weight@ =~= pt(s.w_emu));
            e.attr("strokecolor", vml_hex(s.color).as_str()).attr("strokeweight", weight.as_str())
        }
        None => e.attr("stroked", "f"),
    };
    open("w:pict").elem(
        e.elem(
            open("v:textbox").attr("inset", vml_inset(&tb.ins).as_str()).elem(
                open("w:txbxContent").all(text),
            ),
        ),
    )
}

/// Builds a run with a drawing.
pub fn write_drawing_run<'a>(envelope: Elem<'a>) -> (r: Elem<'a>)
    ensures
        r@ == drawing_run_xml(envelope@),
{
    open("w:r").elem(open("w:drawing").elem(envelope))
}

/// Builds a run with a text box and its older form.
pub fn write_text_box_run<'a>(envelope: Elem<'a>, vml: Elem<'a>) -> (r: Elem<'a>)
    ensures
        r@ == text_box_run_xml(envelope@, vml@),
{
    open("w:r").elem(
        open("mc:AlternateContent").elem(
            open("mc:Choice").attr("Requires", "wps").elem(open("w:drawing").elem(envelope)),
        ).elem(open("mc:Fallback").elem(vml)),
    )
}

} // verus!
