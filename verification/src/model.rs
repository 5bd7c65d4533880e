//! The parser as mathematics: its state, and what each event makes of it.

use crate::decode::{integer_of, quoted, utf8_text};
use crate::dict::{
    DictView, FormView, GrammemeView, LemmaView, LinkKindView, LinkView, RestrictionScope,
    RestrictionView,
};
use crate::error::ErrorView;
use crate::escape::text_of;
use crate::event::{AttrItemView, AttributeView, TagView, XmlEventView};
use crate::index::{grammeme_called, grammeme_named, lemma_numbered};
use crate::names::{
    attr_name_of, element_of, restriction_kind_of, restriction_scope_of, AttrName, Element,
};
use vstd::prelude::*;

verus! {

/// Where in the document the parser stands.
#[derive(Clone, Copy, Debug, PartialEq, Eq, Structural)]
pub enum ParsingState {
    /// Nothing was read yet.
    Start,
    Dictionary,
    Grammemes,
    Grammeme,
    GrammemeName,
    GrammemeAlias,
    GrammemeDescription,
    Restrictions,
    Restriction,
    RestrictionLeft,
    RestrictionRight,
    Lemmata,
    Lemma,
    LemmaL,
    LemmaF,
    LinkTypes,
    LinkType,
    Links,
    /// The root element was closed.
    End,
}

impl ParsingState {
    /// The name of the state, as error messages print it.
    pub open spec fn name(self) -> Seq<char> {
        match self {
            ParsingState::Start => "Start"@,
            ParsingState::Dictionary => "Dictionary"@,
            ParsingState::Grammemes => "Grammemes"@,
            ParsingState::Grammeme => "Grammeme"@,
            ParsingState::GrammemeName => "GrammemeName"@,
            ParsingState::GrammemeAlias => "GrammemeAlias"@,
            ParsingState::GrammemeDescription => "GrammemeDescription"@,
            ParsingState::Restrictions => "Restrictions"@,
            ParsingState::Restriction => "Restriction"@,
            ParsingState::RestrictionLeft => "RestrictionLeft"@,
            ParsingState::RestrictionRight => "RestrictionRight"@,
            ParsingState::Lemmata => "Lemmata"@,
            ParsingState::Lemma => "Lemma"@,
            ParsingState::LemmaL => "LemmaL"@,
            ParsingState::LemmaF => "LemmaF"@,
            ParsingState::LinkTypes => "LinkTypes"@,
            ParsingState::LinkType => "LinkType"@,
            ParsingState::Links => "Links"@,
            ParsingState::End => "End"@,
        }
    }
}

/// The state of a parse: the position in the document, the dictionary read
/// so far, the entities under construction and the two indices.
pub struct ParserView {
    pub state: ParsingState,
    pub dict: DictView,
    pub grammeme: GrammemeView,
    pub restriction: RestrictionView,
    pub lemma: LemmaView,
    pub form: FormView,
    pub link_kind: LinkKindView,
    pub link: LinkView,
    pub grammemes_by_name: Map<Seq<char>, GrammemeView>,
    pub lemmata_by_id: Map<usize, LemmaView>,
}

impl ParserView {
    /// The state before the first event.
    pub open spec fn initial() -> ParserView {
        ParserView {
            state: ParsingState::Start,
            dict: DictView::empty(),
            grammeme: GrammemeView::empty(),
            restriction: RestrictionView::empty(),
            lemma: LemmaView::empty(),
            form: FormView::empty(),
            link_kind: LinkKindView::empty(),
            link: LinkView::empty(),
            grammemes_by_name: Map::empty(),
            lemmata_by_id: Map::empty(),
        }
    }

    /// The same state at another position.
    pub open spec fn at(self, state: ParsingState) -> ParserView {
        ParserView { state, ..self }
    }
}

/// The tag whose attributes are being read: it decides what an attribute
/// means.
#[derive(Clone, Copy, Debug, PartialEq, Eq, Structural)]
pub enum AttrTarget {
    /// `<dictionary>`
    Dictionary,
    /// `<grammeme>`
    Grammeme,
    /// `<restr>`
    Restr,
    /// `<lemma>`
    Lemma,
    /// `<l>`
    L,
    /// `<f>`
    F,
    /// `<type>`
    LinkType,
    /// `<g/>` inside `<l>`
    LemmaGrammeme,
    /// `<g/>` inside `<f>`
    FormGrammeme,
    /// `<link/>`
    Link,
}

/// The error for a tag that may not stand where it does: the message
/// quotes its name, which must be UTF-8.
pub open spec fn unexpected(prefix: Seq<char>, name: Seq<u8>) -> ErrorView {
    match utf8_text(name) {
        None => ErrorView::Utf8,
        Some(s) => ErrorView::Parsing(quoted(prefix, s)),
    }
}

/// The last kind in `kinds` whose id is `id`, or `otherwise` where there
/// is none.
pub open spec fn kind_with_id(
    kinds: Seq<LinkKindView>,
    id: usize,
    otherwise: LinkKindView,
) -> LinkKindView
    decreases kinds.len(),
{
    if kinds.len() == 0 {
        otherwise
    } else if kinds.last().id == id {
        kinds.last()
    } else {
        kind_with_id(kinds.drop_last(), id, otherwise)
    }
}

/// What one attribute of a tag makes of the state.
pub open spec fn apply_attribute(target: AttrTarget, p: ParserView, a: AttributeView) -> Result<
    ParserView,
    ErrorView,
> {
    match (target, attr_name_of(a.key)) {
        (AttrTarget::Dictionary, AttrName::Version) => match utf8_text(a.value) {
            None => Err(ErrorView::Utf8),
            Some(s) => Ok(ParserView { dict: DictView { version: s, ..p.dict }, ..p }),
        },
        (AttrTarget::Dictionary, AttrName::Revision) => match integer_of(a.value) {
            Err(e) => Err(e),
            Ok(n) => Ok(ParserView { dict: DictView { revision: n, ..p.dict }, ..p }),
        },
        (AttrTarget::Grammeme, AttrName::Parent) => if a.value.len() == 0 {
            Ok(ParserView { grammeme: GrammemeView { parent: None, ..p.grammeme }, ..p })
        } else {
            match utf8_text(a.value) {
                None => Err(ErrorView::Utf8),
                Some(s) => Ok(
                    ParserView { grammeme: GrammemeView { parent: Some(s), ..p.grammeme }, ..p },
                ),
            }
        },
        (AttrTarget::Restr, AttrName::Type) => match restriction_kind_of(a.value) {
            Some(kind) => Ok(
                ParserView { restriction: RestrictionView { kind, ..p.restriction }, ..p },
            ),
            None => Err(unexpected("invalid restriction kind: '"@, a.value)),
        },
        (AttrTarget::Restr, AttrName::Auto) => match integer_of(a.value) {
            Err(e) => Err(e),
            Ok(n) => Ok(
                ParserView { restriction: RestrictionView { auto: n, ..p.restriction }, ..p },
            ),
        },
        (AttrTarget::Lemma, AttrName::Id) => match integer_of(a.value) {
            Err(e) => Err(e),
            Ok(n) => Ok(ParserView { lemma: LemmaView { id: n, ..p.lemma }, ..p }),
        },
        (AttrTarget::Lemma, AttrName::Rev) => match integer_of(a.value) {
            Err(e) => Err(e),
            Ok(n) => Ok(ParserView { lemma: LemmaView { revision: n, ..p.lemma }, ..p }),
        },
        (AttrTarget::L, AttrName::T) => match utf8_text(a.value) {
            None => Err(ErrorView::Utf8),
            Some(s) => Ok(ParserView { lemma: LemmaView { word: s, ..p.lemma }, ..p }),
        },
        (AttrTarget::F, AttrName::T) => match utf8_text(a.value) {
            None => Err(ErrorView::Utf8),
            Some(s) => Ok(ParserView { form: FormView { word: s, ..p.form }, ..p }),
        },
        (AttrTarget::LinkType, AttrName::Id) => match integer_of(a.value) {
            Err(e) => Err(e),
            Ok(n) => Ok(ParserView { link_kind: LinkKindView { id: n, ..p.link_kind }, ..p }),
        },
        (AttrTarget::LemmaGrammeme, AttrName::V) => match grammeme_named(
            p.grammemes_by_name,
            a.value,
        ) {
            Err(e) => Err(e),
            Ok(g) => Ok(
                ParserView {
                    lemma: LemmaView { grammemes: p.lemma.grammemes.push(g), ..p.lemma },
                    ..p
                },
            ),
        },
        (AttrTarget::FormGrammeme, AttrName::V) => match grammeme_named(
            p.grammemes_by_name,
            a.value,
        ) {
            Err(e) => Err(e),
            Ok(g) => Ok(
                ParserView {
                    form: FormView { grammemes: p.form.grammemes.push(g), ..p.form },
                    ..p
                },
            ),
        },
        (AttrTarget::Link, AttrName::Id) => match integer_of(a.value) {
            Err(e) => Err(e),
            Ok(n) => Ok(ParserView { link: LinkView { id: n, ..p.link }, ..p }),
        },
        (AttrTarget::Link, AttrName::From) => match lemma_numbered(p.lemmata_by_id, a.value) {
            Err(e) => Err(e),
            Ok(l) => Ok(ParserView { link: LinkView { from: l, ..p.link }, ..p }),
        },
        (AttrTarget::Link, AttrName::To) => match lemma_numbered(p.lemmata_by_id, a.value) {
            Err(e) => Err(e),
            Ok(l) => Ok(ParserView { link: LinkView { to: l, ..p.link }, ..p }),
        },
        (AttrTarget::Link, AttrName::Type) => match integer_of(a.value) {
            Err(e) => Err(e),
            Ok(n) => Ok(
                ParserView {
                    link: LinkView {
                        kind: kind_with_id(p.dict.link_kinds, n, p.link.kind),
                        ..p.link
                    },
                    ..p
                },
            ),
        },
        _ => Ok(p),
    }
}

/// What the attributes of a tag make of the state, one after the other.
/// The first malformed attribute, or the first that cannot be applied,
/// ends it with an error.
pub open spec fn apply_attributes(
    target: AttrTarget,
    p: ParserView,
    items: Seq<AttrItemView>,
) -> Result<ParserView, ErrorView>
    decreases items.len(),
{
    if items.len() == 0 {
        Ok(p)
    } else {
        match items[0] {
            AttrItemView::Malformed(e) => Err(ErrorView::XmlAttr(e)),
            AttrItemView::Pair(a) => match apply_attribute(target, p, a) {
                Err(e) => Err(e),
                Ok(q) => apply_attributes(target, q, items.drop_first()),
            },
        }
    }
}

/// The scope that a side of a restriction declares: the value of its first
/// `type` attribute, which must be `lemma` or `form`. Attributes after it
/// are not looked at.
pub open spec fn scope_of(items: Seq<AttrItemView>) -> Result<RestrictionScope, ErrorView>
    decreases items.len(),
{
    if items.len() == 0 {
        Err(ErrorView::Parsing("restriction scope isn't found"@))
    } else {
        match items[0] {
            AttrItemView::Malformed(e) => Err(ErrorView::XmlAttr(e)),
            AttrItemView::Pair(a) => if attr_name_of(a.key) == AttrName::Type {
                match restriction_scope_of(a.value) {
                    Some(scope) => Ok(scope),
                    None => Err(unexpected("invalid restriction scope: '"@, a.value)),
                }
            } else {
                scope_of(items.drop_first())
            },
        }
    }
}

/// What an opening tag makes of the state.
pub open spec fn on_start(p: ParserView, tag: TagView) -> Result<ParserView, ErrorView> {
    match (element_of(tag.name), p.state) {
        (Element::Dictionary, ParsingState::Start) => apply_attributes(
            AttrTarget::Dictionary,
            p.at(ParsingState::Dictionary),
            tag.attributes,
        ),
        (Element::Grammemes, ParsingState::Dictionary) => Ok(
            ParserView {
                state: ParsingState::Grammemes,
                dict: DictView { grammemes: Seq::empty(), ..p.dict },
                grammemes_by_name: Map::empty(),
                ..p
            },
        ),
        (Element::Grammeme, ParsingState::Grammemes) => apply_attributes(
            AttrTarget::Grammeme,
            ParserView { state: ParsingState::Grammeme, grammeme: GrammemeView::empty(), ..p },
            tag.attributes,
        ),
        (Element::Name, ParsingState::Grammeme) => Ok(p.at(ParsingState::GrammemeName)),
        (Element::Alias, ParsingState::Grammeme) => Ok(p.at(ParsingState::GrammemeAlias)),
        (Element::Description, ParsingState::Grammeme) => Ok(
            p.at(ParsingState::GrammemeDescription),
        ),
        (Element::Restrictions, ParsingState::Dictionary) => Ok(
            ParserView {
                state: ParsingState::Restrictions,
                dict: DictView { restrictions: Seq::empty(), ..p.dict },
                ..p
            },
        ),
        (Element::Restr, ParsingState::Restrictions) => apply_attributes(
            AttrTarget::Restr,
            ParserView {
                state: ParsingState::Restriction,
                restriction: RestrictionView::empty(),
                ..p
            },
            tag.attributes,
        ),
        (Element::Left, ParsingState::Restriction) => match scope_of(tag.attributes) {
            Err(e) => Err(e),
            Ok(scope) => Ok(
                ParserView {
                    state: ParsingState::RestrictionLeft,
                    restriction: RestrictionView { left_scope: scope, ..p.restriction },
                    ..p
                },
            ),
        },
        (Element::Right, ParsingState::Restriction) => match scope_of(tag.attributes) {
            Err(e) => Err(e),
            Ok(scope) => Ok(
                ParserView {
                    state: ParsingState::RestrictionRight,
                    restriction: RestrictionView { right_scope: scope, ..p.restriction },
                    ..p
                },
            ),
        },
        (Element::Lemmata, ParsingState::Dictionary) => Ok(
            ParserView {
                state: ParsingState::Lemmata,
                dict: DictView { lemmata: Seq::empty(), ..p.dict },
                ..p
            },
        ),
        (Element::Lemma, ParsingState::Lemmata) => apply_attributes(
            AttrTarget::Lemma,
            ParserView { state: ParsingState::Lemma, lemma: LemmaView::empty(), ..p },
            tag.attributes,
        ),
        (Element::L, ParsingState::Lemma) => apply_attributes(
            AttrTarget::L,
            ParserView {
                state: ParsingState::LemmaL,
                lemma: LemmaView { grammemes: Seq::empty(), ..p.lemma },
                ..p
            },
            tag.attributes,
        ),
        (Element::F, ParsingState::Lemma) => apply_attributes(
            AttrTarget::F,
            ParserView { state: ParsingState::LemmaF, form: FormView::empty(), ..p },
            tag.attributes,
        ),
        (Element::LinkTypes, ParsingState::Dictionary) => Ok(
            ParserView {
                state: ParsingState::LinkTypes,
                dict: DictView { link_kinds: Seq::empty(), ..p.dict },
                ..p
            },
        ),
        (Element::Type, ParsingState::LinkTypes) => apply_attributes(
            AttrTarget::LinkType,
            ParserView { state: ParsingState::LinkType, link_kind: LinkKindView::empty(), ..p },
            tag.attributes,
        ),
        (Element::Links, ParsingState::Dictionary) => Ok(
            ParserView {
                state: ParsingState::Links,
                dict: DictView { links: Seq::empty(), ..p.dict },
                ..p
            },
        ),
        _ => Err(unexpected("unexpected opening tag: '"@, tag.name)),
    }
}

/// What a self-closing tag makes of the state.
pub open spec fn on_empty(p: ParserView, tag: TagView) -> Result<ParserView, ErrorView> {
    match (element_of(tag.name), p.state) {
        (Element::G, ParsingState::LemmaL) => apply_attributes(
            AttrTarget::LemmaGrammeme,
            p,
            tag.attributes,
        ),
        (Element::G, ParsingState::LemmaF) => apply_attributes(
            AttrTarget::FormGrammeme,
            p,
            tag.attributes,
        ),
        (Element::Link, ParsingState::Links) => match apply_attributes(
            AttrTarget::Link,
            ParserView { link: LinkView::empty(), ..p },
            tag.attributes,
        ) {
            Err(e) => Err(e),
            Ok(q) => Ok(
                ParserView {
                    dict: DictView { links: q.dict.links.push(q.link), ..q.dict },
                    link: LinkView::empty(),
                    ..q
                },
            ),
        },
        _ => Err(unexpected("unexpected single tag: '"@, tag.name)),
    }
}

/// What a closing tag makes of the state. The closing tags of a grammeme,
/// a restriction, a form, a lemma and a link kind put the finished entity
/// at the end of its collection, and a grammeme or a lemma into its index.
pub open spec fn on_end(p: ParserView, name: Seq<u8>) -> Result<ParserView, ErrorView> {
    match (element_of(name), p.state) {
        (Element::Dictionary, ParsingState::Dictionary) => Ok(p.at(ParsingState::End)),
        (Element::Grammemes, ParsingState::Grammemes) => Ok(p.at(ParsingState::Dictionary)),
        (Element::Grammeme, ParsingState::Grammeme) => Ok(
            ParserView {
                state: ParsingState::Grammemes,
                dict: DictView { grammemes: p.dict.grammemes.push(p.grammeme), ..p.dict },
                grammemes_by_name: p.grammemes_by_name.insert(p.grammeme.name, p.grammeme),
                grammeme: GrammemeView::empty(),
                ..p
            },
        ),
        (Element::Name, ParsingState::GrammemeName) => Ok(p.at(ParsingState::Grammeme)),
        (Element::Alias, ParsingState::GrammemeAlias) => Ok(p.at(ParsingState::Grammeme)),
        (Element::Description, ParsingState::GrammemeDescription) => Ok(
            p.at(ParsingState::Grammeme),
        ),
        (Element::Restrictions, ParsingState::Restrictions) => Ok(p.at(ParsingState::Dictionary)),
        (Element::Restr, ParsingState::Restriction) => Ok(
            ParserView {
                state: ParsingState::Restrictions,
                dict: DictView {
                    restrictions: p.dict.restrictions.push(p.restriction),
                    ..p.dict
                },
                restriction: RestrictionView::empty(),
                ..p
            },
        ),
        (Element::Left, ParsingState::RestrictionLeft) => Ok(p.at(ParsingState::Restriction)),
        (Element::Right, ParsingState::RestrictionRight) => Ok(p.at(ParsingState::Restriction)),
        (Element::Lemmata, ParsingState::Lemmata) => Ok(p.at(ParsingState::Dictionary)),
        (Element::Lemma, ParsingState::Lemma) => Ok(
            ParserView {
                state: ParsingState::Lemmata,
                dict: DictView { lemmata: p.dict.lemmata.push(p.lemma), ..p.dict },
                lemmata_by_id: p.lemmata_by_id.insert(p.lemma.id, p.lemma),
                lemma: LemmaView::empty(),
                ..p
            },
        ),
        (Element::L, ParsingState::LemmaL) => Ok(p.at(ParsingState::Lemma)),
        (Element::F, ParsingState::LemmaF) => Ok(
            ParserView {
                state: ParsingState::Lemma,
                lemma: LemmaView { forms: p.lemma.forms.push(p.form), ..p.lemma },
                form: FormView::empty(),
                ..p
            },
        ),
        (Element::LinkTypes, ParsingState::LinkTypes) => Ok(p.at(ParsingState::Dictionary)),
        (Element::Type, ParsingState::LinkType) => Ok(
            ParserView {
                state: ParsingState::LinkTypes,
                dict: DictView { link_kinds: p.dict.link_kinds.push(p.link_kind), ..p.dict },
                link_kind: LinkKindView::empty(),
                ..p
            },
        ),
        (Element::Links, ParsingState::Links) => Ok(p.at(ParsingState::Dictionary)),
        _ => Err(unexpected("unexpected closing tag: '"@, name)),
    }
}

/// The grammeme that the character data on one side of a restriction
/// refers to: none where the data is empty.
pub open spec fn side_grammeme(index: Map<Seq<char>, GrammemeView>, raw: Seq<u8>) -> Result<
    Option<GrammemeView>,
    ErrorView,
> {
    if raw.len() == 0 {
        Ok(None)
    } else {
        match text_of(raw) {
            Err(e) => Err(e),
            Ok(s) => match grammeme_called(index, s) {
                Err(e) => Err(e),
                Ok(g) => Ok(Some(g)),
            },
        }
    }
}

/// What character data makes of the state. Outside the elements that hold
/// text it is passed over.
pub open spec fn on_text(p: ParserView, raw: Seq<u8>) -> Result<ParserView, ErrorView> {
    match p.state {
        ParsingState::GrammemeName => match text_of(raw) {
            Err(e) => Err(e),
            Ok(s) => Ok(ParserView { grammeme: GrammemeView { name: s, ..p.grammeme }, ..p }),
        },
        ParsingState::GrammemeAlias => match text_of(raw) {
            Err(e) => Err(e),
            Ok(s) => Ok(ParserView { grammeme: GrammemeView { alias: s, ..p.grammeme }, ..p }),
        },
        ParsingState::GrammemeDescription => match text_of(raw) {
            Err(e) => Err(e),
            Ok(s) => Ok(
                ParserView { grammeme: GrammemeView { description: s, ..p.grammeme }, ..p },
            ),
        },
        ParsingState::RestrictionLeft => match side_grammeme(p.grammemes_by_name, raw) {
            Err(e) => Err(e),
            Ok(g) => Ok(
                ParserView {
                    restriction: RestrictionView { left_grammeme: g, ..p.restriction },
                    ..p
                },
            ),
        },
        ParsingState::RestrictionRight => match side_grammeme(p.grammemes_by_name, raw) {
            Err(e) => Err(e),
            Ok(g) => Ok(
                ParserView {
                    restriction: RestrictionView { right_grammeme: g, ..p.restriction },
                    ..p
                },
            ),
        },
        ParsingState::LinkType => match text_of(raw) {
            Err(e) => Err(e),
            Ok(s) => Ok(ParserView { link_kind: LinkKindView { name: s, ..p.link_kind }, ..p }),
        },
        _ => Ok(p),
    }
}

/// The name of markup that a dictionary may not hold, if the event is
/// such markup.
pub open spec fn unsupported(event: XmlEventView) -> Option<Seq<char>> {
    match event {
        XmlEventView::CData => Some("CDATA section"@),
        XmlEventView::Comment => Some("comment"@),
        XmlEventView::PI => Some("processing instruction"@),
        XmlEventView::DocType => Some("document type definition"@),
        _ => None,
    }
}

/// What one event makes of the state: the next state, or the error that
/// ends the parse.
pub open spec fn step(p: ParserView, event: XmlEventView) -> Result<ParserView, ErrorView> {
    match event {
        XmlEventView::Start(tag) => on_start(p, tag),
        XmlEventView::Empty(tag) => on_empty(p, tag),
        XmlEventView::End(name) => on_end(p, name),
        XmlEventView::Text(raw) => on_text(p, raw),
        XmlEventView::Decl => Ok(p),
        XmlEventView::Eof => Ok(p),
        _ => Err(ErrorView::Parsing("unsupported markup: "@ + unsupported(event).unwrap())),
    }
}

/// What the end of the document makes of the state: the dictionary, if
/// the root element was closed.
pub open spec fn finish(p: ParserView) -> Result<DictView, ErrorView> {
    if p.state == ParsingState::End {
        Ok(p.dict)
    } else {
        Err(ErrorView::Parsing("invalid state after parsing: "@ + p.state.name()))
    }
}

/// What a sequence of events makes of the state, up to the first
/// end-of-document event or, where there is none, the end of the sequence.
pub open spec fn run(p: ParserView, events: Seq<XmlEventView>) -> Result<DictView, ErrorView>
    decreases events.len(),
{
    if events.len() == 0 {
        finish(p)
    } else if events[0] == XmlEventView::Eof {
        finish(p)
    } else {
        match step(p, events[0]) {
            Err(e) => Err(e),
            Ok(q) => run(q, events.drop_first()),
        }
    }
}

/// The dictionary that a sequence of events describes.
pub open spec fn parse(events: Seq<XmlEventView>) -> Result<DictView, ErrorView> {
    run(ParserView::initial(), events)
}

} // verus!
