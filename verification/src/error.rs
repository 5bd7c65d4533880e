//! The ways in which reading a dictionary fails.

use vstd::prelude::*;
use vstd::string::*;

verus! {

/// `quick_xml::Error`, the error of the XML tokenizer. Nothing is claimed of
/// what a value holds: it is carried from the tokenizer to the caller.
#[verifier::external_type_specification]
#[verifier::external_body]
pub struct ExXmlError(quick_xml::Error);

/// `std::str::Utf8Error`, the error of `std::str::from_utf8`. Nothing is
/// claimed of what a value holds.
#[verifier::external_type_specification]
#[verifier::external_body]
pub struct ExUtf8Error(std::str::Utf8Error);

/// `std::num::ParseIntError`, the error of `str::parse` for integers.
/// Nothing is claimed of what a value holds.
#[verifier::external_type_specification]
#[verifier::external_body]
pub struct ExParseIntError(std::num::ParseIntError);

/// Why an attribute of a tag could not be read. Positions count bytes from
/// the start of the tag.
#[derive(Clone, Copy, Debug, PartialEq, Eq, Structural)]
pub enum AttrError {
    /// The key at this position is not followed by `=`.
    ExpectedEq(usize),
    /// No value follows the `=` before this position.
    ExpectedValue(usize),
    /// The value at this position is not quoted.
    UnquotedValue(usize),
    /// The value that ends at this position lacks its closing quote, which
    /// is the given byte.
    ExpectedQuote(usize, u8),
    /// The key at the first position was already used at the second.
    Duplicated(usize, usize),
}

/// An error met while a dictionary is read.
#[derive(Debug)]
#[allow(inconsistent_fields)]
pub enum DictError {
    /// The tokenizer could not read the markup.
    Xml { source: quick_xml::Error },
    /// An attribute of a tag is malformed.
    XmlAttr { source: AttrError },
    /// A text or an attribute value is not UTF-8.
    Utf8 { source: std::str::Utf8Error },
    /// A numeric attribute is not a non-negative integer that fits `usize`.
    ParseIntError { source: std::num::ParseIntError },
    /// The document does not follow the structure of a dictionary; the
    /// message says how.
    Parsing(String),
}

/// What an [`DictError`] says, without the values that only the outside code
/// can read.
pub enum ErrorView {
    Xml,
    XmlAttr(AttrError),
    Utf8,
    ParseInt,
    Parsing(Seq<char>),
}

impl ErrorView {
    /// The text that [`DictError::message`] gives for this error.
    pub open spec fn message(self) -> Seq<char> {
        match self {
            ErrorView::Xml => "XML parser error"@,
            ErrorView::XmlAttr(_) => "XML attribute parser error"@,
            ErrorView::Utf8 => "UTF-8 encoding error"@,
            ErrorView::ParseInt => "Integer parsing error"@,
            ErrorView::Parsing(m) => "XML dictionary parsing error: "@ + m,
        }
    }
}

impl View for DictError {
    type V = ErrorView;

    open spec fn view(&self) -> ErrorView {
        match self {
            DictError::Xml { .. } => ErrorView::Xml,
            DictError::XmlAttr { source } => ErrorView::XmlAttr(*source),
            DictError::Utf8 { .. } => ErrorView::Utf8,
            DictError::ParseIntError { .. } => ErrorView::ParseInt,
            DictError::Parsing(m) => ErrorView::Parsing(m@),
        }
    }
}

impl DictError {
    /// A line of text that describes the error.
    pub fn message(&self) -> (r: String)
        ensures
            r@ == self@.message(),
    {
        match self {
            DictError::Xml { .. } => String::from_str("XML parser error"),
            DictError::XmlAttr { .. } => String::from_str("XML attribute parser error"),
            DictError::Utf8 { .. } => String::from_str("UTF-8 encoding error"),
            DictError::ParseIntError { .. } => String::from_str("Integer parsing error"),
            DictError::Parsing(m) => {
                let mut r = String::from_str("XML dictionary parsing error: ");
                r.append(m.as_str());
                r
            },
        }
    }
}

} // verus!
