//! The tokenizer: `quick_xml` reading a document that is held in memory.
//! What it does is not proved here; this file states what is relied on.

use crate::error::AttrError;
use crate::event::{AttrItem, AttrItemView, Attribute, Tag, TagView, XmlEvent, XmlEventView};
use quick_xml::events::attributes;
use quick_xml::events::{BytesStart, Event};
use quick_xml::reader::Reader;
use vstd::prelude::*;

verus! {

/// `quick_xml::reader::Reader`, the pull tokenizer. A value is opaque; what
/// it has yet to deliver is named by [`pending`].
#[verifier::external_type_specification]
#[verifier::external_body]
#[verifier::reject_recursive_types(R)]
pub struct ExReader<R>(Reader<R>);

/// `quick_xml::events::BytesStart`, the content of an opening or
/// self-closing tag. A value is opaque; the attributes it holds are named
/// by [`tag_attributes`].
#[verifier::external_type_specification]
#[verifier::external_body]
pub struct ExBytesStart<'a>(BytesStart<'a>);

/// What the tokenizer delivers at one step: an event, or a failure to read
/// the markup.
pub enum TokenView {
    Event(XmlEventView),
    Failure,
}

/// What `quick_xml` makes of a document: the tokens that a fresh reader
/// over these bytes delivers, in order, before the end of the document.
pub uninterp spec fn document_tokens(bytes: Seq<u8>) -> Seq<TokenView>;

/// The tokens that a reader has yet to deliver, in order, before the end
/// of the document.
pub uninterp spec fn pending(reader: Reader<&[u8]>) -> Seq<TokenView>;

/// What iterating `BytesStart::attributes` yields for a tag, in order.
pub uninterp spec fn tag_attributes(tag: BytesStart) -> Seq<AttrItemView>;

/// An event as the tokenizer hands it out: the tags still hold their
/// attributes unread.
pub(crate) enum RawEvent<'a> {
    Start(Vec<u8>, BytesStart<'a>),
    Empty(Vec<u8>, BytesStart<'a>),
    End(Vec<u8>),
    Text(Vec<u8>),
    Decl,
    CData,
    Comment,
    PI,
    DocType,
    Eof,
}

impl<'a> View for RawEvent<'a> {
    type V = XmlEventView;

    closed spec fn view(&self) -> XmlEventView {
        match self {
            RawEvent::Start(name, tag) => XmlEventView::Start(
                TagView { name: name@, attributes: tag_attributes(*tag) },
            ),
            RawEvent::Empty(name, tag) => XmlEventView::Empty(
                TagView { name: name@, attributes: tag_attributes(*tag) },
            ),
            RawEvent::End(name) => XmlEventView::End(name@),
            RawEvent::Text(raw) => XmlEventView::Text(raw@),
            RawEvent::Decl => XmlEventView::Decl,
            RawEvent::CData => XmlEventView::CData,
            RawEvent::Comment => XmlEventView::Comment,
            RawEvent::PI => XmlEventView::PI,
            RawEvent::DocType => XmlEventView::DocType,
            RawEvent::Eof => XmlEventView::Eof,
        }
    }
}

/// The token that a result of the tokenizer stands for.
pub(crate) open spec fn token_of(r: Result<RawEvent, quick_xml::Error>) -> TokenView {
    match r {
        Ok(raw) => TokenView::Event(raw@),
        Err(_) => TokenView::Failure,
    }
}

/// Calls `Reader::from_reader` on a byte slice. The new reader has the
/// whole document before it.
#[verifier::external_body]
pub(crate) fn open_reader(bytes: &[u8]) -> (reader: Reader<&[u8]>)
    ensures
        pending(reader) == document_tokens(bytes@),
{
    Reader::from_reader(bytes)
}

/// Calls `Reader::read_event`, which delivers the next token and moves
/// past it. Once nothing is pending it delivers the end of the document,
/// again and again. The names of tags and the character data are copied
/// out of the event as they stand.
#[verifier::external_body]
pub(crate) fn next_event<'a>(reader: &mut Reader<&'a [u8]>) -> (r: Result<RawEvent<'a>, quick_xml::Error>)
    ensures
        pending(*old(reader)).len() > 0 ==> token_of(r) == pending(*old(reader))[0],
        pending(*old(reader)).len() == 0 ==> token_of(r) == TokenView::Event(XmlEventView::Eof),
        pending(*final(reader)) == if pending(*old(reader)).len() > 0 {
            pending(*old(reader)).drop_first()
        } else {
            pending(*old(reader))
        },
{
    Ok(match reader.read_event()? {
        Event::Start(e) => RawEvent::Start(e.name().0.to_vec(), e),
        Event::Empty(e) => RawEvent::Empty(e.name().0.to_vec(), e),
        Event::End(e) => RawEvent::End(e.name().0.to_vec()),
        Event::Text(e) => RawEvent::Text(e.into_inner().into_owned()),
        Event::Decl(_) => RawEvent::Decl,
        Event::CData(_) => RawEvent::CData,
        Event::Comment(_) => RawEvent::Comment,
        Event::PI(_) => RawEvent::PI,
        Event::DocType(_) => RawEvent::DocType,
        Event::Eof => RawEvent::Eof,
    })
}

/// Calls `BytesStart::attributes` and walks the iterator to its end. Each
/// item is copied out as it stands: key and value of an attribute, or the
/// kind and positions of the error.
#[verifier::external_body]
pub(crate) fn attributes_of(tag: &BytesStart) -> (r: Vec<AttrItem>)
    ensures
        r.deep_view() == tag_attributes(*tag),
{
    tag.attributes().map(|a| match a {
        Ok(a) => AttrItem::Pair(Attribute { key: a.key.0.to_vec(), value: a.value.into_owned() }),
        Err(attributes::AttrError::ExpectedEq(p)) => AttrItem::Malformed(AttrError::ExpectedEq(p)),
        Err(attributes::AttrError::ExpectedValue(p)) => AttrItem::Malformed(AttrError::ExpectedValue(p)),
        Err(attributes::AttrError::UnquotedValue(p)) => AttrItem::Malformed(AttrError::UnquotedValue(p)),
        Err(attributes::AttrError::ExpectedQuote(p, q)) => AttrItem::Malformed(AttrError::ExpectedQuote(p, q)),
        Err(attributes::AttrError::Duplicated(p, q)) => AttrItem::Malformed(AttrError::Duplicated(p, q)),
    }).collect()
}

/// Reads the attributes of the tags, which makes the event a plain value.
pub(crate) fn event_from_raw(raw: RawEvent) -> (event: XmlEvent)
    ensures
        event@ == raw@,
{
    match raw {
        RawEvent::Start(name, tag) => {
            let attributes = attributes_of(&tag);
            XmlEvent::Start(Tag { name, attributes })
        },
        RawEvent::Empty(name, tag) => {
            let attributes = attributes_of(&tag);
            XmlEvent::Empty(Tag { name, attributes })
        },
        RawEvent::End(name) => XmlEvent::End(name),
        RawEvent::Text(raw) => XmlEvent::Text(raw),
        RawEvent::Decl => XmlEvent::Decl,
        RawEvent::CData => XmlEvent::CData,
        RawEvent::Comment => XmlEvent::Comment,
        RawEvent::PI => XmlEvent::PI,
        RawEvent::DocType => XmlEvent::DocType,
        RawEvent::Eof => XmlEvent::Eof,
    }
}

} // verus!
