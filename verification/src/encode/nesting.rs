//! What holds of every tree that blocks and runs make.

use vstd::prelude::*;

use crate::dom::{Block, Field, ParaChild, Run, Toc};
use crate::encode::body::{
    blocks_xml, child_xml, children_xml, content_xml, ends_with_para, entries_xml, field_xml,
    run_xml, runs_xml, toc_body_xml, toc_xml,
};
use crate::encode::field::{field_begin, field_end, hidden_result};
use crate::xml::{El, Xml, el};

verus! {

/// Whether a node is a paragraph.
pub open spec fn is_paragraph(x: Xml) -> bool {
    match x {
        Xml::Para(_) => true,
        Xml::El(e) => e.name == "w:p"@,
        _ => false,
    }
}

/// Whether a node is a paragraph, or a content control that ends in one.
pub open spec fn closes_with_paragraph(x: Xml) -> bool {
    is_paragraph(x) || match x {
        Xml::El(e) => e.name == "w:sdt"@ && e.children.len() > 0 && match e.children.last() {
            Xml::El(content) => content.name == "w:sdtContent"@ && content.children.len() > 0
                && is_paragraph(content.children.last()),
            _ => false,
        },
        _ => false,
    }
}

proof fn lemma_toc_body_ends(toc: Toc)
    ensures
        toc_body_xml(toc).len() > 0,
        is_paragraph(toc_body_xml(toc).last()),
{
    if toc.entries@.len() > 0 {
        assert(entries_xml(toc, toc.entries@).len() > 0);
    }
}

/// The content of every container ends in a paragraph: the body, a header or
/// footer, a note, a comment and a text box are never empty and never end in a
/// table.
pub proof fn containers_end_in_a_paragraph(blocks: Seq<Block>)
    ensures
        content_xml(blocks).len() > 0,
        closes_with_paragraph(content_xml(blocks).last()),
{
    if blocks.len() > 0 && ends_with_para(blocks.last()) {
        match blocks.last() {
            Block::Toc(toc) => {
                lemma_toc_body_ends(toc);
                assert(toc_xml(toc).len() > 0);
                if toc.depth is Some {
                    let control = toc_xml(toc).last();
                    match control {
                        Xml::El(e) => {
                            assert(e.children.last() == Xml::El(
                                el("w:sdtContent"@).all(toc_body_xml(toc)),
                            ));
                            assert(el("w:sdtContent"@).all(toc_body_xml(toc)).children
                                =~= toc_body_xml(toc));
                        },
                        _ => {},
                    }
                }
                assert(blocks_xml(blocks).last() == toc_xml(toc).last());
            },
            _ => {},
        }
    }
}

/// What a node does to the depth of open fields: a run with the first mark of a
/// field opens one, and a run with its last mark closes one.
pub open spec fn mark(x: Xml) -> int {
    match x {
        Xml::El(run) => if run.name == "w:r"@ && run.children.len() > 0 {
            match run.children.last() {
                Xml::El(c) => if c.name == "w:fldChar"@ && c.attrs.len() > 0 {
                    if c.attrs[0] == ("w:fldCharType"@, "begin"@) {
                        1
                    } else if c.attrs[0] == ("w:fldCharType"@, "end"@) {
                        -1
                    } else {
                        0
                    }
                } else {
                    0
                },
                _ => 0,
            }
        } else {
            0
        },
        _ => 0,
    }
}

/// The depth of open fields after nodes.
pub open spec fn depth(nodes: Seq<Xml>) -> int
    decreases nodes.len(),
{
    if nodes.len() == 0 {
        0
    } else {
        depth(nodes.drop_last()) + mark(nodes.last())
    }
}

/// Whether fields nest: none is closed that was not opened, and all are closed
/// in the end.
pub open spec fn nested(nodes: Seq<Xml>) -> bool {
    &&& depth(nodes) == 0
    &&& forall|k: int| 0 <= k <= nodes.len() ==> depth(#[trigger] nodes.take(k)) >= 0
}

proof fn lemma_depth_add(a: Seq<Xml>, b: Seq<Xml>)
    ensures
        depth(a + b) == depth(a) + depth(b),
    decreases b.len(),
{
    if b.len() == 0 {
        assert(a + b =~= a);
    } else {
        assert((a + b).drop_last() =~= a + b.drop_last());
        lemma_depth_add(a, b.drop_last());
    }
}

proof fn lemma_nested_empty()
    ensures
        nested(Seq::empty()),
{
    assert forall|k: int| 0 <= k <= 0 implies depth(#[trigger] Seq::<Xml>::empty().take(k))
        >= 0 by {
        assert(Seq::<Xml>::empty().take(k) =~= Seq::empty());
    }
}

proof fn lemma_nested_add(a: Seq<Xml>, b: Seq<Xml>)
    requires
        nested(a),
        nested(b),
    ensures
        nested(a + b),
{
    lemma_depth_add(a, b);
    assert forall|k: int| 0 <= k <= (a + b).len() implies depth(#[trigger] (a + b).take(k))
        >= 0 by {
        if k <= a.len() {
            assert((a + b).take(k) =~= a.take(k));
        } else {
            assert((a + b).take(k) =~= a + b.take(k - a.len()));
            lemma_depth_add(a, b.take(k - a.len()));
        }
    }
}

proof fn lemma_nested_one(x: Xml)
    requires
        mark(x) == 0,
    ensures
        nested(seq![x]),
{
    let one = seq![x];
    assert(one.drop_last() =~= Seq::empty());
    assert(depth(one.drop_last()) == 0);
    assert(depth(one) == mark(x));
    assert forall|k: int| 0 <= k <= one.len() implies depth(#[trigger] one.take(k)) >= 0 by {
        if k == 0 {
            assert(one.take(0) =~= Seq::empty());
        } else {
            assert(one.take(1) =~= one);
        }
    }
}

proof fn lemma_marks()
    ensures
        "w:r"@ != "w:hyperlink"@,
        "w:r"@ != "w:bookmarkStart"@,
        "w:r"@ != "w:bookmarkEnd"@,
        "w:r"@ != "w:commentRangeStart"@,
        "w:r"@ != "w:commentRangeEnd"@,
        "w:fldChar"@ != "w:t"@,
        "w:fldChar"@ != "w:br"@,
        "w:fldChar"@ != "w:tab"@,
        "w:fldChar"@ != "w:instrText"@,
        "w:fldChar"@ != "w:footnoteReference"@,
        "w:fldChar"@ != "w:footnoteRef"@,
        "w:fldChar"@ != "w:commentReference"@,
        "w:fldChar"@ != "w:drawing"@,
        "w:fldChar"@ != "mc:AlternateContent"@,
        "begin"@ != "end"@,
        "begin"@ != "separate"@,
        "end"@ != "separate"@,
{
    reveal_strlit("w:r");
    reveal_strlit("w:hyperlink");
    reveal_strlit("w:bookmarkStart");
    reveal_strlit("w:bookmarkEnd");
    reveal_strlit("w:commentRangeStart");
    reveal_strlit("w:commentRangeEnd");
    reveal_strlit("w:fldChar");
    reveal_strlit("w:t");
    reveal_strlit("w:br");
    reveal_strlit("w:tab");
    reveal_strlit("w:instrText");
    reveal_strlit("w:footnoteReference");
    reveal_strlit("w:footnoteRef");
    reveal_strlit("w:commentReference");
    reveal_strlit("w:drawing");
    reveal_strlit("mc:AlternateContent");
    reveal_strlit("begin");
    reveal_strlit("end");
    reveal_strlit("separate");
    assert("w:r"@.len() == 3);
    assert("w:hyperlink"@.len() == 11);
    assert("w:bookmarkStart"@.len() == 15);
    assert("w:bookmarkEnd"@.len() == 13);
    assert("w:commentRangeStart"@.len() == 19);
    assert("w:commentRangeEnd"@.len() == 17);
    assert("w:fldChar"@.len() == 9);
    assert("w:t"@.len() == 3);
    assert("w:br"@.len() == 4);
    assert("w:tab"@.len() == 5);
    assert("w:instrText"@.len() == 11);
    assert("w:footnoteReference"@.len() == 19);
    assert("w:footnoteRef"@.len() == 13);
    assert("w:commentReference"@.len() == 18);
    assert("w:drawing"@.len() == 9);
    assert("mc:AlternateContent"@.len() == 19);
    assert("begin"@.len() == 5);
    assert("end"@.len() == 3);
    assert("separate"@.len() == 8);
    assert("w:fldChar"@[2] == 'f' && "w:drawing"@[2] == 'd');
}

proof fn lemma_field_nested(field: Field)
    requires
        field.display == crate::dom::FieldDisplay::Hidden || nested(runs_xml(field.result@)),
    ensures
        nested(field_xml(field)),
{
    lemma_marks();
    let begin = field_begin(field.instr@, field.mode, field.display);
    let end = field_end(field.display);
    let inner = if field.display == crate::dom::FieldDisplay::Hidden {
        hidden_result()
    } else {
        runs_xml(field.result@)
    };
    assert(nested(inner)) by {
        if field.display == crate::dom::FieldDisplay::Hidden {
            lemma_nested_one(hidden_result()[0]);
            assert(hidden_result() =~= seq![hidden_result()[0]]);
        }
    }
    assert(mark(begin[0]) == 1);
    assert(mark(begin[1]) == 0);
    assert(mark(begin[2]) == 0);
    assert(mark(end[0]) == -1);
    let opened = seq![begin[0]];
    assert(opened.drop_last() =~= Seq::empty());
    assert(depth(opened.drop_last()) == 0);
    assert(opened.last() == begin[0]);
    assert(depth(opened) == 1);
    assert(begin.take(1) =~= opened);
    assert(begin.take(2).drop_last() =~= opened);
    assert(begin.drop_last() =~= begin.take(2));
    assert(depth(begin.take(2)) == 1);
    assert(depth(begin) == 1);
    assert(end.drop_last() =~= Seq::empty());
    assert(depth(end.drop_last()) == 0);
    assert(depth(end) == -1);
    let all = field_xml(field);
    assert(all == begin + inner + end);
    lemma_depth_add(begin, inner);
    lemma_depth_add(begin + inner, end);
    assert forall|k: int| 0 <= k <= all.len() implies depth(#[trigger] all.take(k)) >= 0 by {
        if k == 0 {
            assert(all.take(k) =~= Seq::empty());
        } else if k <= 3 {
            assert(all.take(k) =~= begin.take(k));
            assert(begin.take(3) =~= begin);
        } else if k <= 3 + inner.len() {
            assert(all.take(k) =~= begin + inner.take(k - 3));
            lemma_depth_add(begin, inner.take(k - 3));
        } else {
            assert(all.take(k) =~= all);
        }
    }
}

/// The fields among runs nest, whatever the results of fields hold.
pub proof fn fields_nest_in_runs(runs: Seq<Run>)
    ensures
        nested(runs_xml(runs)),
    decreases runs, 1int,
{
    if runs.len() == 0 {
        lemma_nested_empty();
    } else {
        fields_nest_in_runs(runs.drop_last());
        fields_nest_in_run(runs.last());
        lemma_nested_add(runs_xml(runs.drop_last()), run_xml(runs.last()));
    }
}

proof fn fields_nest_in_run(run: Run)
    ensures
        nested(run_xml(run)),
    decreases run, 0int,
{
    lemma_marks();
    match run {
        Run::Field(field) => {
            fields_nest_in_runs(field.result@);
            lemma_field_nested(field);
        },
        Run::FootnoteRef { props, id, bookmark } => {
            let nodes = run_xml(run);
            match bookmark {
                Some((bookmark_id, name)) => {
                    lemma_nested_one(nodes[0]);
                    lemma_nested_one(nodes[1]);
                    lemma_nested_one(nodes[2]);
                    lemma_nested_add(seq![nodes[0]], seq![nodes[1]]);
                    lemma_nested_add(seq![nodes[0]] + seq![nodes[1]], seq![nodes[2]]);
                    assert(nodes =~= seq![nodes[0]] + seq![nodes[1]] + seq![nodes[2]]);
                },
                None => {
                    lemma_nested_one(nodes[0]);
                    assert(nodes =~= seq![nodes[0]]);
                },
            }
        },
        _ => {
            let nodes = run_xml(run);
            lemma_nested_one(nodes[0]);
            assert(nodes =~= seq![nodes[0]]);
        },
    }
}

/// The fields of a paragraph nest: every field that the paragraph opens is closed
/// in it, and those inside a hyperlink are closed inside the hyperlink.
pub proof fn fields_nest_in_paragraphs(content: Seq<ParaChild>)
    ensures
        nested(children_xml(content)),
        forall|i: int|
            #![trigger content[i]]
            0 <= i < content.len() ==> (content[i] matches ParaChild::Hyperlink {
                rel: _,
                anchor: _,
                runs,
            } ==> nested(runs_xml(runs@))),
    decreases content.len(),
{
    if content.len() == 0 {
        lemma_nested_empty();
    } else {
        fields_nest_in_paragraphs(content.drop_last());
        let child = content.last();
        lemma_marks();
        assert(nested(child_xml(child))) by {
            match child {
                ParaChild::Run(run) => {
                    fields_nest_in_run(run);
                },
                ParaChild::Tag(_) => {
                    lemma_nested_empty();
                },
                _ => {
                    let nodes = child_xml(child);
                    lemma_nested_one(nodes[0]);
                    assert(nodes =~= seq![nodes[0]]);
                },
            }
        }
        lemma_nested_add(children_xml(content.drop_last()), child_xml(child));
        assert forall|i: int|
            #![trigger content[i]]
            0 <= i < content.len() implies (content[i] matches ParaChild::Hyperlink {
            rel: _,
            anchor: _,
            runs,
        } ==> nested(runs_xml(runs@))) by {
            match content[i] {
                ParaChild::Hyperlink { rel, anchor, runs } => {
                    fields_nest_in_runs(runs@);
                },
                _ => {},
            }
        }
    }
}

} // verus!
