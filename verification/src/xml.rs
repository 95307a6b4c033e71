//! XML trees of package parts.

use vstd::prelude::*;

use crate::dom::{ParaProps, PathSegment, RunProps, ShapeFill, ShapeStroke};
use crate::props::{ParaLook, RunLook};

verus! {

/// An attribute.
pub struct Attr {
    pub name: &'static str,
    pub value: String,
}

/// Markup that a writer derives from a value of the document.
pub enum Owed<'a> {
    /// The properties element of a paragraph.
    ParaProps(&'a ParaProps),
    /// The properties element of a paragraph that only takes up space.
    Spacer(ParaProps),
    /// The properties element of a run.
    RunProps(&'a RunProps),
    /// The image of a picture, and the vector image beside it.
    Blip { rel: &'a str, svg_rel: Option<&'a str> },
    /// A preset outline; `adj_100k` is its adjustment, where it has one.
    PresetGeom { name: &'static str, adj_100k: Option<i32> },
    /// An outline of its own, inside a box of the given size.
    CustomGeom { segments: &'a Vec<PathSegment>, w_emu: i64, h_emu: i64 },
    /// A fill, or none.
    Fill(Option<&'a ShapeFill>),
    /// An outline, or none.
    Stroke(Option<&'a ShapeStroke>),
    /// The languages of an element.
    Language { elem: &'static str, lang: &'a str },
}

/// What is owed, by value.
pub enum OwedXml {
    ParaProps(ParaLook),
    RunProps(RunLook),
    Blip { rel: Seq<char>, svg_rel: Option<Seq<char>> },
    PresetGeom { name: Seq<char>, adj_100k: Option<i32> },
    CustomGeom { segments: Seq<PathSegment>, w_emu: i64, h_emu: i64 },
    Fill(Option<ShapeFill>),
    Stroke(Option<ShapeStroke>),
    Language { elem: Seq<char>, lang: Seq<char> },
}

impl<'a> Owed<'a> {
    pub open spec fn view(self) -> OwedXml {
        match self {
            Owed::ParaProps(p) => OwedXml::ParaProps(p@),
            Owed::Spacer(p) => OwedXml::ParaProps(p@),
            Owed::RunProps(p) => OwedXml::RunProps(p@),
            Owed::Blip { rel, svg_rel } => OwedXml::Blip {
                rel: rel@,
                svg_rel: match svg_rel {
                    Some(s) => Some(s@),
                    None => None,
                },
            },
            Owed::PresetGeom { name, adj_100k } => OwedXml::PresetGeom { name: name@, adj_100k },
            Owed::CustomGeom { segments, w_emu, h_emu } => OwedXml::CustomGeom {
                segments: segments@,
                w_emu,
                h_emu,
            },
            Owed::Fill(f) => OwedXml::Fill(
                match f {
                    Some(f) => Some(*f),
                    None => None,
                },
            ),
            Owed::Stroke(s) => OwedXml::Stroke(
                match s {
                    Some(s) => Some(*s),
                    None => None,
                },
            ),
            Owed::Language { elem, lang } => OwedXml::Language { elem: elem@, lang: lang@ },
        }
    }
}

/// An element.
pub struct Elem<'a> {
    pub name: &'static str,
    pub attrs: Vec<Attr>,
    pub children: Vec<Node<'a>>,
}

/// A node of a part.
pub enum Node<'a> {
    Elem(Elem<'a>),
    /// A paragraph element that gets an identity of its own within the part.
    Para(Vec<Node<'a>>),
    /// Text, to be escaped.
    Text(String),
    /// Markup, as it is.
    Raw(String),
    Owed(Owed<'a>),
}

/// An element: its name, its attributes in order, and its children.
pub struct El {
    pub name: Seq<char>,
    pub attrs: Seq<(Seq<char>, Seq<char>)>,
    pub children: Seq<Xml>,
}

/// A node, by value.
pub enum Xml {
    El(El),
    Para(Seq<Xml>),
    Text(Seq<char>),
    Raw(Seq<char>),
    Owed(OwedXml),
}

/// An element with neither attributes nor children.
pub open spec fn el(name: Seq<char>) -> El {
    El { name, attrs: Seq::empty(), children: Seq::empty() }
}

impl El {
    /// The element with one more attribute.
    pub open spec fn attr(self, name: Seq<char>, value: Seq<char>) -> El {
        El { attrs: self.attrs.push((name, value)), ..self }
    }

    /// The element with one more child.
    pub open spec fn child(self, node: Xml) -> El {
        El { children: self.children.push(node), ..self }
    }

    /// The element with one more child element.
    pub open spec fn elem(self, e: El) -> El {
        self.child(Xml::El(e))
    }

    /// The element with more children.
    pub open spec fn all(self, nodes: Seq<Xml>) -> El {
        El { children: self.children + nodes, ..self }
    }

    /// The element with text in it.
    pub open spec fn text(self, text: Seq<char>) -> El {
        self.child(Xml::Text(text))
    }

    /// The element with what is owed in it.
    pub open spec fn owed(self, o: OwedXml) -> El {
        self.child(Xml::Owed(o))
    }
}

/// What attributes say.
pub open spec fn attr_texts(attrs: Seq<Attr>) -> Seq<(Seq<char>, Seq<char>)> {
    attrs.map_values(|a: Attr| (a.name@, a.value@))
}

/// Nodes, one by one.
pub open spec fn xmls(nodes: Seq<Node>) -> Seq<Xml>
    decreases nodes,
{
    if nodes.len() == 0 {
        Seq::empty()
    } else {
        xmls(nodes.drop_last()).push(nodes.last()@)
    }
}

impl<'a> Node<'a> {
    pub open spec fn view(self) -> Xml
        decreases self,
    {
        match self {
            Node::Elem(e) => Xml::El(e@),
            Node::Para(children) => Xml::Para(xmls(children@)),
            Node::Text(s) => Xml::Text(s@),
            Node::Raw(s) => Xml::Raw(s@),
            Node::Owed(o) => Xml::Owed(o@),
        }
    }
}

impl<'a> Elem<'a> {
    pub open spec fn view(self) -> El
        decreases self,
    {
        El { name: self.name@, attrs: attr_texts(self.attrs@), children: xmls(self.children@) }
    }
}

/// Adding a node to nodes.
pub proof fn lemma_xmls_push(nodes: Seq<Node>, node: Node)
    ensures
        xmls(nodes.push(node)) == xmls(nodes).push(node@),
{
    assert(nodes.push(node).drop_last() =~= nodes);
}

/// Adding nodes to nodes.
pub proof fn lemma_xmls_add(a: Seq<Node>, b: Seq<Node>)
    ensures
        xmls(a + b) == xmls(a) + xmls(b),
    decreases b.len(),
{
    if b.len() == 0 {
        assert(a + b =~= a);
        assert(xmls(a) + xmls(b) =~= xmls(a));
    } else {
        lemma_xmls_add(a, b.drop_last());
        assert((a + b).drop_last() =~= a + b.drop_last());
        assert(xmls(a) + xmls(b) =~= (xmls(a) + xmls(b.drop_last())).push(b.last()@));
    }
}

/// Adds a node.
pub fn put<'a>(out: &mut Vec<Node<'a>>, node: Node<'a>)
    ensures
        xmls(final(out)@) == xmls(old(out)@).push(node@),
{
    proof {
        lemma_xmls_push(out@, node);
    }
    out.push(node);
}

/// Adds an element.
pub fn put_elem<'a>(out: &mut Vec<Node<'a>>, e: Elem<'a>)
    ensures
        xmls(final(out)@) == xmls(old(out)@).push(Xml::El(e@)),
{
    put(out, Node::Elem(e));
}

/// Adds nodes.
pub fn put_all<'a>(out: &mut Vec<Node<'a>>, nodes: Vec<Node<'a>>)
    ensures
        xmls(final(out)@) == xmls(old(out)@) + xmls(nodes@),
{
    proof {
        lemma_xmls_add(out@, nodes@);
    }
    let mut nodes: Vec<Node<'a>> = nodes;
    out.append(&mut nodes);
}

/// No nodes.
pub fn nothing<'a>() -> (r: Vec<Node<'a>>)
    ensures
        xmls(r@) == Seq::<Xml>::empty(),
{
    Vec::new()
}

/// An element with neither attributes nor children.
pub fn open<'a>(name: &'static str) -> (r: Elem<'a>)
    ensures
        r@ == el(name@),
{
    let r = Elem { name, attrs: Vec::new(), children: Vec::new() };
    assert(r@.attrs =~= el(name@).attrs);
    r
}

impl<'a> Elem<'a> {
    /// Adds an attribute.
    pub fn attr(self, name: &'static str, value: &str) -> (r: Self)
        ensures
            r@ == self@.attr(name@, value@),
    {
        let mut r = self;
        r.attrs.push(Attr { name, value: value.to_owned() });
        assert(attr_texts(r.attrs@) =~= attr_texts(self.attrs@).push((name@, value@)));
        r
    }

    /// Adds a child.
    pub fn child(self, node: Node<'a>) -> (r: Self)
        ensures
            r@ == self@.child(node@),
    {
        let mut r = self;
        put(&mut r.children, node);
        r
    }

    /// Adds a child element.
    pub fn elem(self, e: Elem<'a>) -> (r: Self)
        ensures
            r@ == self@.elem(e@),
    {
        self.child(Node::Elem(e))
    }

    /// Adds children.
    pub fn all(self, nodes: Vec<Node<'a>>) -> (r: Self)
        ensures
            r@ == self@.all(xmls(nodes@)),
    {
        let mut r = self;
        put_all(&mut r.children, nodes);
        r
    }

    /// Adds text.
    pub fn text(self, text: &str) -> (r: Self)
        ensures
            r@ == self@.text(text@),
    {
        self.child(Node::Text(text.to_owned()))
    }

    /// Adds what is owed.
    pub fn owed(self, o: Owed<'a>) -> (r: Self)
        ensures
            r@ == self@.owed(o@),
    {
        self.child(Node::Owed(o))
    }
}

} // verus!
