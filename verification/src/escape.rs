//! Character data of the document: decoding and the resolution of escapes.

use crate::decode::{string_from_bytes, utf8_text};
use crate::error::{DictError, ErrorView};
use vstd::prelude::*;

verus! {

/// What `quick_xml::escape::unescape` makes of a text: the text with each
/// escape (`&...;`) replaced by what it stands for, or `None` where the
/// text holds an escape that cannot be resolved.
pub uninterp spec fn unescaped(text: Seq<char>) -> Option<Seq<char>>;

/// Whether a text holds the character that starts an escape.
pub open spec fn has_escape(text: Seq<char>) -> bool {
    text.contains('&')
}

/// Calls `quick_xml::escape::unescape`. The result is the named one; a
/// text without `&` holds no escape and comes back as it is.
#[verifier::external_body]
fn unescape(text: &str) -> (r: Result<String, quick_xml::Error>)
    ensures
        match r {
            Ok(s) => unescaped(text@) == Some(s@),
            Err(_) => unescaped(text@) is None,
        },
        r is Err ==> has_escape(text@),
        r matches Ok(s) ==> has_escape(text@) || s@ == text@,
{
    match quick_xml::escape::unescape(text) {
        Ok(s) => Ok(s.into_owned()),
        Err(e) => Err(quick_xml::Error::from(e)),
    }
}

/// The text that the character data `raw` stands for: it must be UTF-8,
/// and its escapes must resolve. Data without an escape stands for
/// itself.
pub open spec fn text_of(raw: Seq<u8>) -> Result<Seq<char>, ErrorView> {
    match utf8_text(raw) {
        None => Err(ErrorView::Utf8),
        Some(s) => if has_escape(s) {
            match unescaped(s) {
                None => Err(ErrorView::Xml),
                Some(t) => Ok(t),
            }
        } else {
            Ok(s)
        },
    }
}

/// Decodes character data and resolves its escapes.
pub fn text_from_bytes(raw: &[u8]) -> (r: Result<String, DictError>)
    ensures
        match r {
            Ok(s) => text_of(raw@) == Ok::<Seq<char>, ErrorView>(s@),
            Err(e) => text_of(raw@) == Err::<Seq<char>, ErrorView>(e@),
        },
{
    match string_from_bytes(raw) {
        Err(e) => Err(DictError::Utf8 { source: e }),
        Ok(s) => match unescape(s.as_str()) {
            Err(e) => Err(DictError::Xml { source: e }),
            Ok(t) => Ok(t),
        },
    }
}

} // verus!
