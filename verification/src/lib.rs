//! Reader for the OpenCorpora morphological dictionary.
//!
//! The dictionary is an XML document that declares grammemes, restrictions on
//! their use, lemmata with their word forms, link kinds and links between
//! lemmata. This crate turns the events of such a document into a [`Dict`],
//! resolving every reference to a grammeme or a lemma while it reads.

pub mod decode;
pub mod dict;
pub mod error;
pub mod escape;
pub mod event;
pub mod index;
pub mod laws;
pub mod minimal;
pub mod model;
pub mod names;
pub mod parser;
pub mod reader;
pub mod tokenizer;

pub use decode::{integer_from_bytes, string_from_bytes};
pub use dict::{
    Dict, DictView, Form, FormView, Grammeme, GrammemeView, Lemma, LemmaView, Link, LinkKind,
    LinkKindView, LinkView, Restriction, RestrictionKind, RestrictionScope, RestrictionView,
};
pub use error::{AttrError, DictError, ErrorView};
pub use event::{AttrItem, Attribute, Tag, XmlEvent};
pub use index::{get_grammeme, get_lemma, GrammemeIndex};
pub use model::ParsingState;
pub use parser::{get_restriction_scope, Parser};
