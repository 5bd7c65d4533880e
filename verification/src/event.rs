//! The events of an XML document, as plain values: what a tokenizer hands
//! to the parser.

use crate::error::AttrError;
use vstd::prelude::*;

verus! {

/// An attribute of a tag: key and value as they stand in the document.
#[derive(Clone, Debug)]
pub struct Attribute {
    /// The key, not decoded.
    pub key: Vec<u8>,
    /// The value without its quotes, neither decoded nor unescaped.
    pub value: Vec<u8>,
}

/// What an [`Attribute`] holds.
pub struct AttributeView {
    pub key: Seq<u8>,
    pub value: Seq<u8>,
}

impl DeepView for Attribute {
    type V = AttributeView;

    open spec fn deep_view(&self) -> AttributeView {
        AttributeView { key: self.key@, value: self.value@ }
    }
}

impl View for Attribute {
    type V = AttributeView;

    open spec fn view(&self) -> AttributeView {
        self.deep_view()
    }
}

/// One step through the attributes of a tag: an attribute, or the reason
/// why none could be read at that place.
#[derive(Clone, Debug)]
pub enum AttrItem {
    Pair(Attribute),
    Malformed(AttrError),
}

/// What an [`AttrItem`] holds.
pub enum AttrItemView {
    Pair(AttributeView),
    Malformed(AttrError),
}

impl DeepView for AttrItem {
    type V = AttrItemView;

    open spec fn deep_view(&self) -> AttrItemView {
        match self {
            AttrItem::Pair(a) => AttrItemView::Pair(a@),
            AttrItem::Malformed(e) => AttrItemView::Malformed(*e),
        }
    }
}

impl View for AttrItem {
    type V = AttrItemView;

    open spec fn view(&self) -> AttrItemView {
        self.deep_view()
    }
}

/// An opening or self-closing tag.
#[derive(Clone, Debug)]
pub struct Tag {
    /// The name of the element, not decoded.
    pub name: Vec<u8>,
    /// The attributes in document order.
    pub attributes: Vec<AttrItem>,
}

/// What a [`Tag`] holds.
pub struct TagView {
    pub name: Seq<u8>,
    pub attributes: Seq<AttrItemView>,
}

impl DeepView for Tag {
    type V = TagView;

    open spec fn deep_view(&self) -> TagView {
        TagView { name: self.name@, attributes: self.attributes.deep_view() }
    }
}

impl View for Tag {
    type V = TagView;

    open spec fn view(&self) -> TagView {
        self.deep_view()
    }
}

/// An event of an XML document.
#[derive(Clone, Debug)]
pub enum XmlEvent {
    /// An opening tag.
    Start(Tag),
    /// A closing tag, with the name of the element.
    End(Vec<u8>),
    /// A self-closing tag.
    Empty(Tag),
    /// Character data between tags, neither decoded nor unescaped.
    Text(Vec<u8>),
    /// The XML declaration.
    Decl,
    /// A CDATA section.
    CData,
    /// A comment.
    Comment,
    /// A processing instruction.
    PI,
    /// A document type definition.
    DocType,
    /// The end of the document.
    Eof,
}

/// What an [`XmlEvent`] holds.
pub enum XmlEventView {
    Start(TagView),
    End(Seq<u8>),
    Empty(TagView),
    Text(Seq<u8>),
    Decl,
    CData,
    Comment,
    PI,
    DocType,
    Eof,
}

impl DeepView for XmlEvent {
    type V = XmlEventView;

    open spec fn deep_view(&self) -> XmlEventView {
        match self {
            XmlEvent::Start(tag) => XmlEventView::Start(tag@),
            XmlEvent::End(name) => XmlEventView::End(name@),
            XmlEvent::Empty(tag) => XmlEventView::Empty(tag@),
            XmlEvent::Text(raw) => XmlEventView::Text(raw@),
            XmlEvent::Decl => XmlEventView::Decl,
            XmlEvent::CData => XmlEventView::CData,
            XmlEvent::Comment => XmlEventView::Comment,
            XmlEvent::PI => XmlEventView::PI,
            XmlEvent::DocType => XmlEventView::DocType,
            XmlEvent::Eof => XmlEventView::Eof,
        }
    }
}

impl View for XmlEvent {
    type V = XmlEventView;

    open spec fn view(&self) -> XmlEventView {
        self.deep_view()
    }
}

} // verus!
