//! What the inventories of a document list.

use vstd::prelude::*;

use crate::document::inventory::{
    FieldOwner, FieldVisibility, drawing_record, drawings_at, fields_at, font_names, fonts_at,
    node_field, node_font, owner_of, text_chars_at,
};
use crate::dom::{Drawing, FieldMode, HeadingStyle, Run, TextDefaults};
use crate::text::opt_str;
use crate::walk::Node;

verus! {

/// Fields whose value the exporter fixed belong to it, and live ones to whoever
/// opens the document.
pub proof fn fields_have_their_owner()
    ensures
        owner_of(FieldMode::Static) == FieldOwner::Typst,
        owner_of(FieldMode::Live) == FieldOwner::Consumer,
{
}

/// Every field is listed with its instruction, its owner, whether it shows and how
/// current its result is; a table of contents is a visible field; other nodes are
/// none.
pub proof fn fields_are_listed(node: Node)
    ensures
        node is Run && node->Run_0 is Field ==> {
            let field = node->Run_0->Field_0;
            &&& node_field(node) is Some
            &&& node_field(node).unwrap().instr == field.instr@
            &&& node_field(node).unwrap().owner == owner_of(field.mode)
            &&& node_field(node).unwrap().cache_status == field.cache_status
            &&& field.display is Visible <==> node_field(node).unwrap().visibility
                == FieldVisibility::Visible
            &&& field.display is Hidden <==> node_field(node).unwrap().visibility
                == FieldVisibility::Hidden
        },
        node is Toc ==> {
            &&& node_field(node) is Some
            &&& node_field(node).unwrap().instr == node->Toc_0.instr@
            &&& node_field(node).unwrap().owner == owner_of(node->Toc_0.mode)
            &&& node_field(node).unwrap().visibility == FieldVisibility::Visible
        },
        node is Run && !(node->Run_0 is Field) ==> node_field(node) is None,
{
}

/// Fields, drawings and fonts are listed in order, and text is counted once.
pub proof fn inventories_are_in_order(a: Seq<Node>, b: Seq<Node>)
    ensures
        fields_at(a + b) == fields_at(a) + fields_at(b),
        drawings_at(a + b) == drawings_at(a) + drawings_at(b),
        fonts_at(a + b) == fonts_at(a) + fonts_at(b),
        text_chars_at(a + b) == text_chars_at(a) + text_chars_at(b),
    decreases b.len(),
{
    if b.len() == 0 {
        assert(a + b =~= a);
        assert(fields_at(a) + fields_at(b) =~= fields_at(a));
        assert(drawings_at(a) + drawings_at(b) =~= drawings_at(a));
        assert(fonts_at(a) + fonts_at(b) =~= fonts_at(a));
    } else {
        inventories_are_in_order(a, b.drop_last());
        assert((a + b).drop_last() =~= a + b.drop_last());
        assert((a + b).last() == b.last());
        assert(fields_at(a + b) =~= fields_at(a) + fields_at(b));
        assert(drawings_at(a + b) =~= drawings_at(a) + drawings_at(b));
        assert(fonts_at(a) + fonts_at(b.drop_last()) + node_font(b.last()) =~= fonts_at(a) + (
        fonts_at(b.drop_last()) + node_font(b.last())));
    }
}

/// A node counts its text, lists its font where it names one, and is listed as a
/// drawing where it is one.
pub proof fn nodes_are_listed_as_what_they_are(node: Node)
    ensures
        node is Run && node->Run_0 is Text ==> text_chars_at(seq![node])
            == node->Run_0->text@.len(),
        node is Toc || (node is Run && !(node->Run_0 is Text)) ==> text_chars_at(seq![node]) == 0,
        node is Run && node->Run_0 is Text && node->Run_0->Text_props.font is Some ==> node_font(
            node,
        ) =~= seq![node->Run_0->Text_props.font.unwrap()@],
        node is Run && node->Run_0 is Drawing ==> drawings_at(seq![node]) =~= seq![
            drawing_record(node->Run_0->Drawing_0),
        ],
        node is Toc || (node is Run && !(node->Run_0 is Drawing)) ==> drawings_at(
            seq![node],
        ).len() == 0,
{
    assert(seq![node].drop_last() =~= Seq::empty());
    assert(drawings_at(Seq::<Node>::empty()) =~= Seq::empty());
    assert(text_chars_at(Seq::<Node>::empty()) == 0);
}

/// A drawing is listed with its number, its name, its description and whether it is
/// decorative.
pub proof fn drawings_are_listed(d: Drawing)
    ensures
        drawing_record(d).docpr_id == d.docpr_id,
        drawing_record(d).name == d.name@,
        drawing_record(d).alt == opt_str(d.alt),
        drawing_record(d).decorative == d.decorative,
{
}

/// The default font comes first among the fonts of a document, and a document with
/// equations has their font too.
pub proof fn the_default_font_comes_first(
    defaults: TextDefaults,
    styles: Seq<HeadingStyle>,
    uses_math: bool,
    all: Seq<Node>,
)
    ensures
        defaults.font is Some ==> font_names(defaults, styles, uses_math, all).len() > 0
            && font_names(defaults, styles, uses_math, all)[0] == defaults.font.unwrap()@,
        uses_math ==> font_names(defaults, styles, uses_math, all).contains("Cambria Math"@),
        forall|i: int|
            #![trigger fonts_at(all)[i]]
            0 <= i < fonts_at(all).len() ==> font_names(defaults, styles, uses_math, all).contains(
                fonts_at(all)[i],
            ),
{
    let names = font_names(defaults, styles, uses_math, all);
    let own = match opt_str(defaults.font) {
        Some(f) => seq![f],
        None => Seq::empty(),
    };
    let styled = crate::document::inventory::style_fonts(styles);
    let math = if uses_math {
        seq!["Cambria Math"@]
    } else {
        Seq::empty()
    };
    assert(names == own + styled + math + fonts_at(all));
    if uses_math {
        assert(names[(own + styled).len() as int] == "Cambria Math"@);
    }
    assert forall|i: int|
        #![trigger fonts_at(all)[i]]
        0 <= i < fonts_at(all).len() implies names.contains(fonts_at(all)[i]) by {
        assert(names[(own + styled + math).len() + i] == fonts_at(all)[i]);
    }
}

} // verus!
