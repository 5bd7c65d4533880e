//! The fixed vocabulary of the dictionary format: the names of its
//! elements and attributes, and the values of the attributes that take one
//! of a few words.

use crate::decode::bytes_eq;
use crate::dict::{RestrictionKind, RestrictionScope};
use vstd::prelude::*;
use vstd::string::*;
use vstd::utf8::*;

verus! {

/// The bytes of a text made of ASCII characters.
pub open spec fn ascii(s: Seq<char>) -> Seq<u8> {
    Seq::new(s.len(), |i: int| s[i] as u8)
}

/// Whether `bytes` spell the ASCII text `text`.
fn spells(bytes: &[u8], text: &str) -> (r: bool)
    requires
        is_ascii_chars(text@),
    ensures
        r == (bytes@ == ascii(text@)),
{
    proof {
        is_ascii_spec_bytes(text);
    }
    bytes_eq(bytes, text.as_bytes())
}

/// The elements of the format.
#[derive(Clone, Copy, Debug, PartialEq, Eq, Structural)]
pub enum Element {
    Dictionary,
    Grammemes,
    Grammeme,
    Name,
    Alias,
    Description,
    Restrictions,
    Restr,
    Left,
    Right,
    Lemmata,
    Lemma,
    L,
    F,
    G,
    LinkTypes,
    Type,
    Links,
    Link,
    /// Any other name.
    Other,
}

/// The element that a tag name stands for. Names are case-sensitive.
pub open spec fn element_of(name: Seq<u8>) -> Element {
    if name == ascii("dictionary"@) {
        Element::Dictionary
    } else if name == ascii("grammemes"@) {
        Element::Grammemes
    } else if name == ascii("grammeme"@) {
        Element::Grammeme
    } else if name == ascii("name"@) {
        Element::Name
    } else if name == ascii("alias"@) {
        Element::Alias
    } else if name == ascii("description"@) {
        Element::Description
    } else if name == ascii("restrictions"@) {
        Element::Restrictions
    } else if name == ascii("restr"@) {
        Element::Restr
    } else if name == ascii("left"@) {
        Element::Left
    } else if name == ascii("right"@) {
        Element::Right
    } else if name == ascii("lemmata"@) {
        Element::Lemmata
    } else if name == ascii("lemma"@) {
        Element::Lemma
    } else if name == ascii("l"@) {
        Element::L
    } else if name == ascii("f"@) {
        Element::F
    } else if name == ascii("g"@) {
        Element::G
    } else if name == ascii("link_types"@) {
        Element::LinkTypes
    } else if name == ascii("type"@) {
        Element::Type
    } else if name == ascii("links"@) {
        Element::Links
    } else if name == ascii("link"@) {
        Element::Link
    } else {
        Element::Other
    }
}

/// Tells which element a tag name stands for.
pub fn element(name: &[u8]) -> (r: Element)
    ensures
        r == element_of(name@),
{
    proof {
        reveal_strlit("dictionary");
        reveal_strlit("grammemes");
        reveal_strlit("grammeme");
        reveal_strlit("name");
        reveal_strlit("alias");
        reveal_strlit("description");
        reveal_strlit("restrictions");
        reveal_strlit("restr");
        reveal_strlit("left");
        reveal_strlit("right");
        reveal_strlit("lemmata");
        reveal_strlit("lemma");
        reveal_strlit("l");
        reveal_strlit("f");
        reveal_strlit("g");
        reveal_strlit("link_types");
        reveal_strlit("type");
        reveal_strlit("links");
        reveal_strlit("link");
    }
    if spells(name, "dictionary") {
        Element::Dictionary
    } else if spells(name, "grammemes") {
        Element::Grammemes
    } else if spells(name, "grammeme") {
        Element::Grammeme
    } else if spells(name, "name") {
        Element::Name
    } else if spells(name, "alias") {
        Element::Alias
    } else if spells(name, "description") {
        Element::Description
    } else if spells(name, "restrictions") {
        Element::Restrictions
    } else if spells(name, "restr") {
        Element::Restr
    } else if spells(name, "left") {
        Element::Left
    } else if spells(name, "right") {
        Element::Right
    } else if spells(name, "lemmata") {
        Element::Lemmata
    } else if spells(name, "lemma") {
        Element::Lemma
    } else if spells(name, "l") {
        Element::L
    } else if spells(name, "f") {
        Element::F
    } else if spells(name, "g") {
        Element::G
    } else if spells(name, "link_types") {
        Element::LinkTypes
    } else if spells(name, "type") {
        Element::Type
    } else if spells(name, "links") {
        Element::Links
    } else if spells(name, "link") {
        Element::Link
    } else {
        Element::Other
    }
}

/// The attributes of the format.
#[derive(Clone, Copy, Debug, PartialEq, Eq, Structural)]
pub enum AttrName {
    Version,
    Revision,
    Parent,
    Type,
    Auto,
    Id,
    Rev,
    T,
    V,
    From,
    To,
    /// Any other key.
    Other,
}

/// The attribute that a key stands for. Keys are case-sensitive.
pub open spec fn attr_name_of(key: Seq<u8>) -> AttrName {
    if key == ascii("version"@) {
        AttrName::Version
    } else if key == ascii("revision"@) {
        AttrName::Revision
    } else if key == ascii("parent"@) {
        AttrName::Parent
    } else if key == ascii("type"@) {
        AttrName::Type
    } else if key == ascii("auto"@) {
        AttrName::Auto
    } else if key == ascii("id"@) {
        AttrName::Id
    } else if key == ascii("rev"@) {
        AttrName::Rev
    } else if key == ascii("t"@) {
        AttrName::T
    } else if key == ascii("v"@) {
        AttrName::V
    } else if key == ascii("from"@) {
        AttrName::From
    } else if key == ascii("to"@) {
        AttrName::To
    } else {
        AttrName::Other
    }
}

/// Tells which attribute a key stands for.
pub fn attr_name(key: &[u8]) -> (r: AttrName)
    ensures
        r == attr_name_of(key@),
{
    proof {
        reveal_strlit("version");
        reveal_strlit("revision");
        reveal_strlit("parent");
        reveal_strlit("type");
        reveal_strlit("auto");
        reveal_strlit("id");
        reveal_strlit("rev");
        reveal_strlit("t");
        reveal_strlit("v");
        reveal_strlit("from");
        reveal_strlit("to");
    }
    if spells(key, "version") {
        AttrName::Version
    } else if spells(key, "revision") {
        AttrName::Revision
    } else if spells(key, "parent") {
        AttrName::Parent
    } else if spells(key, "type") {
        AttrName::Type
    } else if spells(key, "auto") {
        AttrName::Auto
    } else if spells(key, "id") {
        AttrName::Id
    } else if spells(key, "rev") {
        AttrName::Rev
    } else if spells(key, "t") {
        AttrName::T
    } else if spells(key, "v") {
        AttrName::V
    } else if spells(key, "from") {
        AttrName::From
    } else if spells(key, "to") {
        AttrName::To
    } else {
        AttrName::Other
    }
}

/// The kind of restriction that a value names, if it names one.
pub open spec fn restriction_kind_of(value: Seq<u8>) -> Option<RestrictionKind> {
    if value == ascii("maybe"@) {
        Some(RestrictionKind::Maybe)
    } else if value == ascii("obligatory"@) {
        Some(RestrictionKind::Obligatory)
    } else if value == ascii("forbidden"@) {
        Some(RestrictionKind::Forbidden)
    } else {
        None
    }
}

/// Tells which kind of restriction a value names.
pub fn restriction_kind(value: &[u8]) -> (r: Option<RestrictionKind>)
    ensures
        r == restriction_kind_of(value@),
{
    proof {
        reveal_strlit("maybe");
        reveal_strlit("obligatory");
        reveal_strlit("forbidden");
    }
    if spells(value, "maybe") {
        Some(RestrictionKind::Maybe)
    } else if spells(value, "obligatory") {
        Some(RestrictionKind::Obligatory)
    } else if spells(value, "forbidden") {
        Some(RestrictionKind::Forbidden)
    } else {
        None
    }
}

/// The scope that a value names, if it names one.
pub open spec fn restriction_scope_of(value: Seq<u8>) -> Option<RestrictionScope> {
    if value == ascii("lemma"@) {
        Some(RestrictionScope::Lemma)
    } else if value == ascii("form"@) {
        Some(RestrictionScope::Form)
    } else {
        None
    }
}

/// Tells which scope a value names.
pub fn restriction_scope(value: &[u8]) -> (r: Option<RestrictionScope>)
    ensures
        r == restriction_scope_of(value@),
{
    proof {
        reveal_strlit("lemma");
        reveal_strlit("form");
    }
    if spells(value, "lemma") {
        Some(RestrictionScope::Lemma)
    } else if spells(value, "form") {
        Some(RestrictionScope::Form)
    } else {
        None
    }
}

/// Each element is known by its own name.
pub proof fn lemma_element_names()
    ensures
        element_of(ascii("dictionary"@)) == Element::Dictionary,
        element_of(ascii("grammemes"@)) == Element::Grammemes,
        element_of(ascii("grammeme"@)) == Element::Grammeme,
        element_of(ascii("name"@)) == Element::Name,
        element_of(ascii("alias"@)) == Element::Alias,
        element_of(ascii("description"@)) == Element::Description,
        element_of(ascii("restrictions"@)) == Element::Restrictions,
        element_of(ascii("restr"@)) == Element::Restr,
        element_of(ascii("left"@)) == Element::Left,
        element_of(ascii("right"@)) == Element::Right,
        element_of(ascii("lemmata"@)) == Element::Lemmata,
        element_of(ascii("lemma"@)) == Element::Lemma,
        element_of(ascii("l"@)) == Element::L,
        element_of(ascii("f"@)) == Element::F,
        element_of(ascii("g"@)) == Element::G,
        element_of(ascii("link_types"@)) == Element::LinkTypes,
        element_of(ascii("type"@)) == Element::Type,
        element_of(ascii("links"@)) == Element::Links,
        element_of(ascii("link"@)) == Element::Link,
{
    // The words are told apart by their lengths and, where these agree,
    // by their bytes.
    reveal_strlit("dictionary");
    reveal_strlit("grammemes");
    reveal_strlit("grammeme");
    reveal_strlit("name");
    reveal_strlit("alias");
    reveal_strlit("description");
    reveal_strlit("restrictions");
    reveal_strlit("restr");
    reveal_strlit("left");
    reveal_strlit("right");
    reveal_strlit("lemmata");
    reveal_strlit("lemma");
    reveal_strlit("l");
    reveal_strlit("f");
    reveal_strlit("g");
    reveal_strlit("link_types");
    reveal_strlit("type");
    reveal_strlit("links");
    reveal_strlit("link");
    assert(ascii("dictionary"@).len() == 10);
    assert(ascii("dictionary"@)[0] == 100u8);
    assert(ascii("dictionary"@)[1] == 105u8);
    assert(ascii("dictionary"@)[2] == 99u8);
    assert(ascii("dictionary"@)[3] == 116u8);
    assert(ascii("dictionary"@)[4] == 105u8);
    assert(ascii("dictionary"@)[5] == 111u8);
    assert(ascii("dictionary"@)[6] == 110u8);
    assert(ascii("dictionary"@)[7] == 97u8);
    assert(ascii("dictionary"@)[8] == 114u8);
    assert(ascii("dictionary"@)[9] == 121u8);
    assert(ascii("grammemes"@).len() == 9);
    assert(ascii("grammemes"@)[0] == 103u8);
    assert(ascii("grammemes"@)[1] == 114u8);
    assert(ascii("grammemes"@)[2] == 97u8);
    assert(ascii("grammemes"@)[3] == 109u8);
    assert(ascii("grammemes"@)[4] == 109u8);
    assert(ascii("grammemes"@)[5] == 101u8);
    assert(ascii("grammemes"@)[6] == 109u8);
    assert(ascii("grammemes"@)[7] == 101u8);
    assert(ascii("grammemes"@)[8] == 115u8);
    assert(ascii("grammeme"@).len() == 8);
    assert(ascii("grammeme"@)[0] == 103u8);
    assert(ascii("grammeme"@)[1] == 114u8);
    assert(ascii("grammeme"@)[2] == 97u8);
    assert(ascii("grammeme"@)[3] == 109u8);
    assert(ascii("grammeme"@)[4] == 109u8);
    assert(ascii("grammeme"@)[5] == 101u8);
    assert(ascii("grammeme"@)[6] == 109u8);
    assert(ascii("grammeme"@)[7] == 101u8);
    assert(ascii("name"@).len() == 4);
    assert(ascii("name"@)[0] == 110u8);
    assert(ascii("name"@)[1] == 97u8);
    assert(ascii("name"@)[2] == 109u8);
    assert(ascii("name"@)[3] == 101u8);
    assert(ascii("alias"@).len() == 5);
    assert(ascii("alias"@)[0] == 97u8);
    assert(ascii("alias"@)[1] == 108u8);
    assert(ascii("alias"@)[2] == 105u8);
    assert(ascii("alias"@)[3] == 97u8);
    assert(ascii("alias"@)[4] == 115u8);
    assert(ascii("description"@).len() == 11);
    assert(ascii("description"@)[0] == 100u8);
    assert(ascii("description"@)[1] == 101u8);
    assert(ascii("description"@)[2] == 115u8);
    assert(ascii("description"@)[3] == 99u8);
    assert(ascii("description"@)[4] == 114u8);
    assert(ascii("description"@)[5] == 105u8);
    assert(ascii("description"@)[6] == 112u8);
    assert(ascii("description"@)[7] == 116u8);
    assert(ascii("description"@)[8] == 105u8);
    assert(ascii("description"@)[9] == 111u8);
    assert(ascii("description"@)[10] == 110u8);
    assert(ascii("restrictions"@).len() == 12);
    assert(ascii("restrictions"@)[0] == 114u8);
    assert(ascii("restrictions"@)[1] == 101u8);
    assert(ascii("restrictions"@)[2] == 115u8);
    assert(ascii("restrictions"@)[3] == 116u8);
    assert(ascii("restrictions"@)[4] == 114u8);
    assert(ascii("restrictions"@)[5] == 105u8);
    assert(ascii("restrictions"@)[6] == 99u8);
    assert(ascii("restrictions"@)[7] == 116u8);
    assert(ascii("restrictions"@)[8] == 105u8);
    assert(ascii("restrictions"@)[9] == 111u8);
    assert(ascii("restrictions"@)[10] == 110u8);
    assert(ascii("restrictions"@)[11] == 115u8);
    assert(ascii("restr"@).len() == 5);
    assert(ascii("restr"@)[0] == 114u8);
    assert(ascii("restr"@)[1] == 101u8);
    assert(ascii("restr"@)[2] == 115u8);
    assert(ascii("restr"@)[3] == 116u8);
    assert(ascii("restr"@)[4] == 114u8);
    assert(ascii("left"@).len() == 4);
    assert(ascii("left"@)[0] == 108u8);
    assert(ascii("left"@)[1] == 101u8);
    assert(ascii("left"@)[2] == 102u8);
    assert(ascii("left"@)[3] == 116u8);
    assert(ascii("right"@).len() == 5);
    assert(ascii("right"@)[0] == 114u8);
    assert(ascii("right"@)[1] == 105u8);
    assert(ascii("right"@)[2] == 103u8);
    assert(ascii("right"@)[3] == 104u8);
    assert(ascii("right"@)[4] == 116u8);
    assert(ascii("lemmata"@).len() == 7);
    assert(ascii("lemmata"@)[0] == 108u8);
    assert(ascii("lemmata"@)[1] == 101u8);
    assert(ascii("lemmata"@)[2] == 109u8);
    assert(ascii("lemmata"@)[3] == 109u8);
    assert(ascii("lemmata"@)[4] == 97u8);
    assert(ascii("lemmata"@)[5] == 116u8);
    assert(ascii("lemmata"@)[6] == 97u8);
    assert(ascii("lemma"@).len() == 5);
    assert(ascii("lemma"@)[0] == 108u8);
    assert(ascii("lemma"@)[1] == 101u8);
    assert(ascii("lemma"@)[2] == 109u8);
    assert(ascii("lemma"@)[3] == 109u8);
    assert(ascii("lemma"@)[4] == 97u8);
    assert(ascii("l"@).len() == 1);
    assert(ascii("l"@)[0] == 108u8);
    assert(ascii("f"@).len() == 1);
    assert(ascii("f"@)[0] == 102u8);
    assert(ascii("g"@).len() == 1);
    assert(ascii("g"@)[0] == 103u8);
    assert(ascii("link_types"@).len() == 10);
    assert(ascii("link_types"@)[0] == 108u8);
    assert(ascii("link_types"@)[1] == 105u8);
    assert(ascii("link_types"@)[2] == 110u8);
    assert(ascii("link_types"@)[3] == 107u8);
    assert(ascii("link_types"@)[4] == 95u8);
    assert(ascii("link_types"@)[5] == 116u8);
    assert(ascii("link_types"@)[6] == 121u8);
    assert(ascii("link_types"@)[7] == 112u8);
    assert(ascii("link_types"@)[8] == 101u8);
    assert(ascii("link_types"@)[9] == 115u8);
    assert(ascii("type"@).len() == 4);
    assert(ascii("type"@)[0] == 116u8);
    assert(ascii("type"@)[1] == 121u8);
    assert(ascii("type"@)[2] == 112u8);
    assert(ascii("type"@)[3] == 101u8);
    assert(ascii("links"@).len() == 5);
    assert(ascii("links"@)[0] == 108u8);
    assert(ascii("links"@)[1] == 105u8);
    assert(ascii("links"@)[2] == 110u8);
    assert(ascii("links"@)[3] == 107u8);
    assert(ascii("links"@)[4] == 115u8);
    assert(ascii("link"@).len() == 4);
    assert(ascii("link"@)[0] == 108u8);
    assert(ascii("link"@)[1] == 105u8);
    assert(ascii("link"@)[2] == 110u8);
    assert(ascii("link"@)[3] == 107u8);
}

/// Each attribute is known by its own key.
pub proof fn lemma_attr_names()
    ensures
        attr_name_of(ascii("version"@)) == AttrName::Version,
        attr_name_of(ascii("revision"@)) == AttrName::Revision,
        attr_name_of(ascii("parent"@)) == AttrName::Parent,
        attr_name_of(ascii("type"@)) == AttrName::Type,
        attr_name_of(ascii("auto"@)) == AttrName::Auto,
        attr_name_of(ascii("id"@)) == AttrName::Id,
        attr_name_of(ascii("rev"@)) == AttrName::Rev,
        attr_name_of(ascii("t"@)) == AttrName::T,
        attr_name_of(ascii("v"@)) == AttrName::V,
        attr_name_of(ascii("from"@)) == AttrName::From,
        attr_name_of(ascii("to"@)) == AttrName::To,
{
    // The words are told apart by their lengths and, where these agree,
    // by their bytes.
    reveal_strlit("version");
    reveal_strlit("revision");
    reveal_strlit("parent");
    reveal_strlit("type");
    reveal_strlit("auto");
    reveal_strlit("id");
    reveal_strlit("rev");
    reveal_strlit("t");
    reveal_strlit("v");
    reveal_strlit("from");
    reveal_strlit("to");
    assert(ascii("version"@).len() == 7);
    assert(ascii("version"@)[0] == 118u8);
    assert(ascii("version"@)[1] == 101u8);
    assert(ascii("version"@)[2] == 114u8);
    assert(ascii("version"@)[3] == 115u8);
    assert(ascii("version"@)[4] == 105u8);
    assert(ascii("version"@)[5] == 111u8);
    assert(ascii("version"@)[6] == 110u8);
    assert(ascii("revision"@).len() == 8);
    assert(ascii("revision"@)[0] == 114u8);
    assert(ascii("revision"@)[1] == 101u8);
    assert(ascii("revision"@)[2] == 118u8);
    assert(ascii("revision"@)[3] == 105u8);
    assert(ascii("revision"@)[4] == 115u8);
    assert(ascii("revision"@)[5] == 105u8);
    assert(ascii("revision"@)[6] == 111u8);
    assert(ascii("revision"@)[7] == 110u8);
    assert(ascii("parent"@).len() == 6);
    assert(ascii("parent"@)[0] == 112u8);
    assert(ascii("parent"@)[1] == 97u8);
    assert(ascii("parent"@)[2] == 114u8);
    assert(ascii("parent"@)[3] == 101u8);
    assert(ascii("parent"@)[4] == 110u8);
    assert(ascii("parent"@)[5] == 116u8);
    assert(ascii("type"@).len() == 4);
    assert(ascii("type"@)[0] == 116u8);
    assert(ascii("type"@)[1] == 121u8);
    assert(ascii("type"@)[2] == 112u8);
    assert(ascii("type"@)[3] == 101u8);
    assert(ascii("auto"@).len() == 4);
    assert(ascii("auto"@)[0] == 97u8);
    assert(ascii("auto"@)[1] == 117u8);
    assert(ascii("auto"@)[2] == 116u8);
    assert(ascii("auto"@)[3] == 111u8);
    assert(ascii("id"@).len() == 2);
    assert(ascii("id"@)[0] == 105u8);
    assert(ascii("id"@)[1] == 100u8);
    assert(ascii("rev"@).len() == 3);
    assert(ascii("rev"@)[0] == 114u8);
    assert(ascii("rev"@)[1] == 101u8);
    assert(ascii("rev"@)[2] == 118u8);
    assert(ascii("t"@).len() == 1);
    assert(ascii("t"@)[0] == 116u8);
    assert(ascii("v"@).len() == 1);
    assert(ascii("v"@)[0] == 118u8);
    assert(ascii("from"@).len() == 4);
    assert(ascii("from"@)[0] == 102u8);
    assert(ascii("from"@)[1] == 114u8);
    assert(ascii("from"@)[2] == 111u8);
    assert(ascii("from"@)[3] == 109u8);
    assert(ascii("to"@).len() == 2);
    assert(ascii("to"@)[0] == 116u8);
    assert(ascii("to"@)[1] == 111u8);
}

/// Each kind of restriction is named by its own word.
pub proof fn lemma_restriction_kinds()
    ensures
        restriction_kind_of(ascii("maybe"@)) == Some(RestrictionKind::Maybe),
        restriction_kind_of(ascii("obligatory"@)) == Some(RestrictionKind::Obligatory),
        restriction_kind_of(ascii("forbidden"@)) == Some(RestrictionKind::Forbidden),
{
    // The words are told apart by their lengths and, where these agree,
    // by their bytes.
    reveal_strlit("maybe");
    reveal_strlit("obligatory");
    reveal_strlit("forbidden");
    assert(ascii("maybe"@).len() == 5);
    assert(ascii("maybe"@)[0] == 109u8);
    assert(ascii("maybe"@)[1] == 97u8);
    assert(ascii("maybe"@)[2] == 121u8);
    assert(ascii("maybe"@)[3] == 98u8);
    assert(ascii("maybe"@)[4] == 101u8);
    assert(ascii("obligatory"@).len() == 10);
    assert(ascii("obligatory"@)[0] == 111u8);
    assert(ascii("obligatory"@)[1] == 98u8);
    assert(ascii("obligatory"@)[2] == 108u8);
    assert(ascii("obligatory"@)[3] == 105u8);
    assert(ascii("obligatory"@)[4] == 103u8);
    assert(ascii("obligatory"@)[5] == 97u8);
    assert(ascii("obligatory"@)[6] == 116u8);
    assert(ascii("obligatory"@)[7] == 111u8);
    assert(ascii("obligatory"@)[8] == 114u8);
    assert(ascii("obligatory"@)[9] == 121u8);
    assert(ascii("forbidden"@).len() == 9);
    assert(ascii("forbidden"@)[0] == 102u8);
    assert(ascii("forbidden"@)[1] == 111u8);
    assert(ascii("forbidden"@)[2] == 114u8);
    assert(ascii("forbidden"@)[3] == 98u8);
    assert(ascii("forbidden"@)[4] == 105u8);
    assert(ascii("forbidden"@)[5] == 100u8);
    assert(ascii("forbidden"@)[6] == 100u8);
    assert(ascii("forbidden"@)[7] == 101u8);
    assert(ascii("forbidden"@)[8] == 110u8);
}

/// Each scope is named by its own word.
pub proof fn lemma_restriction_scopes()
    ensures
        restriction_scope_of(ascii("lemma"@)) == Some(RestrictionScope::Lemma),
        restriction_scope_of(ascii("form"@)) == Some(RestrictionScope::Form),
{
    // The words are told apart by their lengths and, where these agree,
    // by their bytes.
    reveal_strlit("lemma");
    reveal_strlit("form");
    assert(ascii("lemma"@).len() == 5);
    assert(ascii("lemma"@)[0] == 108u8);
    assert(ascii("lemma"@)[1] == 101u8);
    assert(ascii("lemma"@)[2] == 109u8);
    assert(ascii("lemma"@)[3] == 109u8);
    assert(ascii("lemma"@)[4] == 97u8);
    assert(ascii("form"@).len() == 4);
    assert(ascii("form"@)[0] == 102u8);
    assert(ascii("form"@)[1] == 111u8);
    assert(ascii("form"@)[2] == 114u8);
    assert(ascii("form"@)[3] == 109u8);
}

} // verus!
