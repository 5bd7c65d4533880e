//! What holds of every parse.

use crate::decode::{integer_of, quoted, utf8_text};
use crate::dict::{
    Dict, DictView, FormView, GrammemeView, LemmaView, LinkKindView, LinkView, RestrictionView,
};
use crate::error::{DictError, ErrorView};
use crate::event::{AttrItemView, AttributeView, TagView, XmlEventView};
use crate::model::{
    apply_attribute, apply_attributes, kind_with_id, parse, run, step, unexpected, AttrTarget,
    ParserView, ParsingState,
};
use crate::names::{ascii, element_of, lemma_attr_names, lemma_element_names, Element};
use crate::reader::{outcome, read};
use crate::tokenizer::{document_tokens, TokenView};
use vstd::prelude::*;

verus! {

/// The state that a sequence of events leads to, where no event fails.
/// Unlike [`run`] it does not stop at the end of the document.
pub open spec fn advance(p: ParserView, events: Seq<XmlEventView>) -> Result<ParserView, ErrorView>
    decreases events.len(),
{
    if events.len() == 0 {
        Ok(p)
    } else {
        match step(p, events[0]) {
            Err(e) => Err(e),
            Ok(q) => advance(q, events.drop_first()),
        }
    }
}

/// Whether no event of the sequence is the end of the document.
pub open spec fn no_eof(events: Seq<XmlEventView>) -> bool {
    forall|i: int| 0 <= i < events.len() ==> events[i] != XmlEventView::Eof
}

/// Whether an event closes the root element.
pub open spec fn closes_root(event: XmlEventView) -> bool {
    event matches XmlEventView::End(name) && element_of(name) == Element::Dictionary
}

/// A parse goes event by event: the first event is applied, and the parse
/// goes on with the rest or ends with the error of that event.
pub proof fn lemma_run_first(p: ParserView, events: Seq<XmlEventView>)
    requires
        events.len() > 0,
        events[0] != XmlEventView::Eof,
    ensures
        run(p, events) == match step(p, events[0]) {
            Err(e) => Err(e),
            Ok(q) => run(q, events.drop_first()),
        },
{
}

/// A document read in two parts: the parse of the whole is the parse of
/// the second part from the state that the first part leads to, and the
/// first error of the first part ends it.
pub proof fn lemma_run_append(p: ParserView, a: Seq<XmlEventView>, b: Seq<XmlEventView>)
    requires
        no_eof(a),
    ensures
        run(p, a + b) == match advance(p, a) {
            Err(e) => Err(e),
            Ok(q) => run(q, b),
        },
    decreases a.len(),
{
    if a.len() == 0 {
        assert(a + b =~= b);
    } else {
        assert((a + b)[0] == a[0]);
        assert((a + b).drop_first() =~= a.drop_first() + b);
        match step(p, a[0]) {
            Err(e) => {},
            Ok(q) => {
                assert(no_eof(a.drop_first())) by {
                    assert forall|i: int| 0 <= i < a.drop_first().len() implies a.drop_first()[i]
                        != XmlEventView::Eof by {
                        assert(a.drop_first()[i] == a[i + 1]);
                    }
                }
                lemma_run_append(q, a.drop_first(), b);
            },
        }
    }
}

/// An attribute never moves the parser to another place in the document.
pub proof fn lemma_attribute_keeps_state(target: AttrTarget, p: ParserView, a: AttributeView)
    ensures
        apply_attribute(target, p, a) matches Ok(q) ==> q.state == p.state,
{
}

/// The attributes of a tag never move the parser to another place in the
/// document.
pub proof fn lemma_attributes_keep_state(
    target: AttrTarget,
    p: ParserView,
    items: Seq<AttrItemView>,
)
    ensures
        apply_attributes(target, p, items) matches Ok(q) ==> q.state == p.state,
    decreases items.len(),
{
    if items.len() > 0 {
        match items[0] {
            AttrItemView::Malformed(_) => {},
            AttrItemView::Pair(a) => {
                lemma_attribute_keeps_state(target, p, a);
                match apply_attribute(target, p, a) {
                    Err(_) => {},
                    Ok(q) => {
                        lemma_attributes_keep_state(target, q, items.drop_first());
                    },
                }
            },
        }
    }
}

/// The terminal state has one way in: the closing tag of the root element,
/// met right inside the root element.
pub proof fn lemma_end_only_by_closing_root(p: ParserView, event: XmlEventView)
    requires
        p.state != ParsingState::End,
        step(p, event) matches Ok(q) && q.state == ParsingState::End,
    ensures
        closes_root(event),
        p.state == ParsingState::Dictionary,
{
    match event {
        XmlEventView::Start(tag) => {
            lemma_attributes_keep_state(
                AttrTarget::Dictionary,
                p.at(ParsingState::Dictionary),
                tag.attributes,
            );
            lemma_attributes_keep_state(
                AttrTarget::Grammeme,
                ParserView {
                    state: ParsingState::Grammeme,
                    grammeme: GrammemeView::empty(),
                    ..p
                },
                tag.attributes,
            );
            lemma_attributes_keep_state(
                AttrTarget::Restr,
                ParserView {
                    state: ParsingState::Restriction,
                    restriction: RestrictionView::empty(),
                    ..p
                },
                tag.attributes,
            );
            lemma_attributes_keep_state(
                AttrTarget::Lemma,
                ParserView { state: ParsingState::Lemma, lemma: LemmaView::empty(), ..p },
                tag.attributes,
            );
            lemma_attributes_keep_state(
                AttrTarget::L,
                ParserView {
                    state: ParsingState::LemmaL,
                    lemma: LemmaView { grammemes: Seq::empty(), ..p.lemma },
                    ..p
                },
                tag.attributes,
            );
            lemma_attributes_keep_state(
                AttrTarget::F,
                ParserView { state: ParsingState::LemmaF, form: FormView::empty(), ..p },
                tag.attributes,
            );
            lemma_attributes_keep_state(
                AttrTarget::LinkType,
                ParserView {
                    state: ParsingState::LinkType,
                    link_kind: LinkKindView::empty(),
                    ..p
                },
                tag.attributes,
            );
        },
        XmlEventView::Empty(tag) => {
            lemma_attributes_keep_state(AttrTarget::LemmaGrammeme, p, tag.attributes);
            lemma_attributes_keep_state(AttrTarget::FormGrammeme, p, tag.attributes);
            lemma_attributes_keep_state(
                AttrTarget::Link,
                ParserView { link: LinkView::empty(), ..p },
                tag.attributes,
            );
        },
        _ => {},
    }
}

/// A document in which the root element is never closed does not parse,
/// whatever state the parse starts from short of the terminal one.
pub proof fn lemma_unclosed_root_fails(p: ParserView, events: Seq<XmlEventView>)
    requires
        p.state != ParsingState::End,
        forall|i: int| 0 <= i < events.len() ==> !closes_root(#[trigger] events[i]),
    ensures
        run(p, events) is Err,
    decreases events.len(),
{
    if events.len() > 0 && events[0] != XmlEventView::Eof {
        match step(p, events[0]) {
            Err(_) => {},
            Ok(q) => {
                if q.state == ParsingState::End {
                    lemma_end_only_by_closing_root(p, events[0]);
                }
                assert forall|i: int| 0 <= i < events.drop_first().len() implies !closes_root(
                    #[trigger] events.drop_first()[i],
                ) by {
                    assert(events.drop_first()[i] == events[i + 1]);
                }
                lemma_unclosed_root_fails(q, events.drop_first());
            },
        }
    }
}

/// A document that ends while an element is open fails with an error that
/// names the place where it ended.
pub proof fn lemma_truncated_document(events: Seq<XmlEventView>, p: ParserView)
    requires
        no_eof(events),
        advance(ParserView::initial(), events) == Ok::<ParserView, ErrorView>(p),
        p.state != ParsingState::End,
    ensures
        parse(events) == Err::<DictView, ErrorView>(
            ErrorView::Parsing("invalid state after parsing: "@ + p.state.name()),
        ),
{
    lemma_run_append(ParserView::initial(), events, Seq::empty());
    assert(events + Seq::<XmlEventView>::empty() =~= events);
}

/// A document whose first tag is not the root element fails at that tag,
/// with an error that names it.
pub proof fn lemma_root_must_come_first(events: Seq<XmlEventView>, tag: TagView)
    requires
        events.len() > 0,
        events[0] == XmlEventView::Start(tag),
        element_of(tag.name) != Element::Dictionary,
    ensures
        parse(events) == Err::<DictView, ErrorView>(
            unexpected("unexpected opening tag: '"@, tag.name),
        ),
{
}

/// The self-closing tag by which a lexeme or a word form refers to a
/// grammeme.
pub open spec fn grammeme_reference(value: Seq<u8>) -> XmlEventView {
    XmlEventView::Empty(
        TagView {
            name: ascii("g"@),
            attributes: seq![AttrItemView::Pair(AttributeView { key: ascii("v"@), value })],
        },
    )
}

/// A reference to a grammeme that was not declared fails with an error
/// that quotes the name, in a lexeme and in a word form alike.
pub proof fn lemma_undeclared_grammeme(p: ParserView, value: Seq<u8>, name: Seq<char>)
    requires
        p.state == ParsingState::LemmaL || p.state == ParsingState::LemmaF,
        utf8_text(value) == Some(name),
        !p.grammemes_by_name.contains_key(name),
    ensures
        step(p, grammeme_reference(value)) == Err::<ParserView, ErrorView>(
            ErrorView::Parsing(quoted("invalid grammeme name: '"@, name)),
        ),
{
    lemma_element_names();
    lemma_attr_names();
    let items = seq![AttrItemView::Pair(AttributeView { key: ascii("v"@), value })];
    assert(items[0] == AttrItemView::Pair(AttributeView { key: ascii("v"@), value }));
}

/// A document in which a lexeme or a word form refers to a grammeme that
/// was not declared before fails with an error that quotes the name,
/// whatever follows the reference.
pub proof fn lemma_undeclared_grammeme_fails_document(
    before: Seq<XmlEventView>,
    value: Seq<u8>,
    name: Seq<char>,
    after: Seq<XmlEventView>,
    p: ParserView,
)
    requires
        no_eof(before),
        advance(ParserView::initial(), before) == Ok::<ParserView, ErrorView>(p),
        p.state == ParsingState::LemmaL || p.state == ParsingState::LemmaF,
        utf8_text(value) == Some(name),
        !p.grammemes_by_name.contains_key(name),
    ensures
        parse(before + (seq![grammeme_reference(value)] + after)) == Err::<DictView, ErrorView>(
            ErrorView::Parsing(quoted("invalid grammeme name: '"@, name)),
        ),
{
    let rest = seq![grammeme_reference(value)] + after;
    lemma_undeclared_grammeme(p, value, name);
    lemma_run_append(ParserView::initial(), before, rest);
    assert(rest[0] == grammeme_reference(value));
    lemma_run_first(p, rest);
}

/// The kind of a link: where no declared kind has the id, it is the kind
/// the link had; otherwise it is a declared kind with that id.
pub proof fn lemma_kind_with_id(kinds: Seq<LinkKindView>, id: usize, otherwise: LinkKindView)
    ensures
        (forall|i: int| 0 <= i < kinds.len() ==> kinds[i].id != id) ==> kind_with_id(
            kinds,
            id,
            otherwise,
        ) == otherwise,
        (exists|i: int| 0 <= i < kinds.len() && kinds[i].id == id) ==> kinds.contains(
            kind_with_id(kinds, id, otherwise),
        ) && kind_with_id(kinds, id, otherwise).id == id,
    decreases kinds.len(),
{
    if kinds.len() > 0 {
        let front = kinds.drop_last();
        lemma_kind_with_id(front, id, otherwise);
        if kinds.last().id == id {
            assert(kinds[kinds.len() - 1] == kinds.last());
        } else if exists|i: int| 0 <= i < kinds.len() && kinds[i].id == id {
            let i = choose|i: int| 0 <= i < kinds.len() && kinds[i].id == id;
            assert(front[i].id == id);
            let found = kind_with_id(front, id, otherwise);
            let j = choose|j: int| 0 <= j < front.len() && front[j] == found;
            assert(kinds[j] == found);
        } else {
            assert forall|i: int| 0 <= i < front.len() implies front[i].id != id by {
                assert(front[i] == kinds[i]);
            }
        }
    }
}

/// A link that names a kind which was not declared is no error: the link
/// is kept, with the empty kind.
pub proof fn lemma_unknown_link_kind(p: ParserView, value: Seq<u8>, id: usize)
    requires
        p.state == ParsingState::Links,
        integer_of(value) == Ok::<usize, ErrorView>(id),
        forall|i: int| 0 <= i < p.dict.link_kinds.len() ==> p.dict.link_kinds[i].id != id,
    ensures
        step(
            p,
            XmlEventView::Empty(
                TagView {
                    name: ascii("link"@),
                    attributes: seq![
                        AttrItemView::Pair(AttributeView { key: ascii("type"@), value }),
                    ],
                },
            ),
        ) == Ok::<ParserView, ErrorView>(
            ParserView {
                dict: DictView { links: p.dict.links.push(LinkView::empty()), ..p.dict },
                link: LinkView::empty(),
                ..p
            },
        ),
{
    lemma_element_names();
    lemma_attr_names();
    lemma_kind_with_id(p.dict.link_kinds, id, LinkKindView::empty());
    let items = seq![AttrItemView::Pair(AttributeView { key: ascii("type"@), value })];
    assert(items.len() == 1);
    assert(items[0] == AttrItemView::Pair(AttributeView { key: ascii("type"@), value }));
    let fresh = ParserView { link: LinkView::empty(), ..p };
    assert(apply_attribute(
        AttrTarget::Link,
        fresh,
        AttributeView { key: ascii("type"@), value },
    ) == Ok::<ParserView, ErrorView>(fresh));
    assert(apply_attributes(AttrTarget::Link, fresh, items.drop_first()) == Ok::<
        ParserView,
        ErrorView,
    >(fresh));
}

/// A link that names a lexeme which was not declared is an error, unlike
/// one that names an undeclared kind.
pub proof fn lemma_unknown_link_lemma(p: ParserView, value: Seq<u8>, id: usize)
    requires
        p.state == ParsingState::Links,
        integer_of(value) == Ok::<usize, ErrorView>(id),
        !p.lemmata_by_id.contains_key(id),
    ensures
        step(
            p,
            XmlEventView::Empty(
                TagView {
                    name: ascii("link"@),
                    attributes: seq![
                        AttrItemView::Pair(AttributeView { key: ascii("from"@), value }),
                    ],
                },
            ),
        ) is Err,
        step(
            p,
            XmlEventView::Empty(
                TagView {
                    name: ascii("link"@),
                    attributes: seq![
                        AttrItemView::Pair(AttributeView { key: ascii("to"@), value }),
                    ],
                },
            ),
        ) is Err,
{
    lemma_element_names();
    lemma_attr_names();
    let from = seq![AttrItemView::Pair(AttributeView { key: ascii("from"@), value })];
    assert(from[0] == AttrItemView::Pair(AttributeView { key: ascii("from"@), value }));
    let to = seq![AttrItemView::Pair(AttributeView { key: ascii("to"@), value })];
    assert(to[0] == AttrItemView::Pair(AttributeView { key: ascii("to"@), value }));
}

/// A side of a restriction whose text is empty names no grammeme, and
/// that is no error.
pub proof fn lemma_empty_side(p: ParserView)
    ensures
        p.state == ParsingState::RestrictionLeft ==> step(p, XmlEventView::Text(Seq::empty()))
            == Ok::<ParserView, ErrorView>(
            ParserView {
                restriction: RestrictionView { left_grammeme: None, ..p.restriction },
                ..p
            },
        ),
        p.state == ParsingState::RestrictionRight ==> step(p, XmlEventView::Text(Seq::empty()))
            == Ok::<ParserView, ErrorView>(
            ParserView {
                restriction: RestrictionView { right_grammeme: None, ..p.restriction },
                ..p
            },
        ),
{
}

/// Two parses of the same document end alike: with dictionaries that hold
/// the same entries in the same order and refer to the same grammemes,
/// lexemes and kinds by value, or with the same error.
pub proof fn lemma_same_document_same_outcome(
    first: Seq<u8>,
    second: Seq<u8>,
    r1: Result<Dict, DictError>,
    r2: Result<Dict, DictError>,
)
    requires
        first == second,
        outcome(r1) == read(ParserView::initial(), document_tokens(first)),
        outcome(r2) == read(ParserView::initial(), document_tokens(second)),
    ensures
        outcome(r1) == outcome(r2),
{
}

/// Two parses of the same events end alike, as two parses of the same
/// document do.
pub proof fn lemma_same_events_same_outcome(
    first: Seq<XmlEventView>,
    second: Seq<XmlEventView>,
    r1: Result<Dict, DictError>,
    r2: Result<Dict, DictError>,
)
    requires
        first == second,
        outcome(r1) == parse(first),
        outcome(r2) == parse(second),
    ensures
        outcome(r1) == outcome(r2),
{
}

/// Whether a collection of the dictionary went on as collections do: it
/// stayed as it was, took one entry at its end, or was started anew.
pub open spec fn grown<T>(before: Seq<T>, after: Seq<T>) -> bool {
    ||| after == before
    ||| after.len() == before.len() + 1 && after.drop_last() == before
    ||| after.len() == 0
}

/// Whether two states hold the same finished entities: the collections of
/// the dictionary and the two indices.
pub open spec fn same_finished(p: ParserView, q: ParserView) -> bool {
    &&& q.dict.grammemes == p.dict.grammemes
    &&& q.dict.restrictions == p.dict.restrictions
    &&& q.dict.lemmata == p.dict.lemmata
    &&& q.dict.link_kinds == p.dict.link_kinds
    &&& q.dict.links == p.dict.links
    &&& q.grammemes_by_name == p.grammemes_by_name
    &&& q.lemmata_by_id == p.lemmata_by_id
}

/// Whether the indices are sound: every grammeme stands under its own
/// name and is one of the grammemes of the dictionary, and every lexeme
/// stands under its own id.
pub open spec fn indices_sound(p: ParserView) -> bool {
    &&& forall|name: Seq<char>| #[trigger]
        p.grammemes_by_name.contains_key(name) ==> p.grammemes_by_name[name].name == name
            && p.dict.grammemes.contains(p.grammemes_by_name[name])
    &&& forall|id: usize| #[trigger]
        p.lemmata_by_id.contains_key(id) ==> p.lemmata_by_id[id].id == id
}

/// The attributes of a tag change the entities under construction and the
/// header of the dictionary only: what is finished stays as it is.
pub proof fn lemma_attributes_keep_finished(
    target: AttrTarget,
    p: ParserView,
    items: Seq<AttrItemView>,
)
    ensures
        apply_attributes(target, p, items) matches Ok(q) ==> same_finished(p, q),
    decreases items.len(),
{
    if items.len() > 0 {
        match items[0] {
            AttrItemView::Malformed(_) => {},
            AttrItemView::Pair(a) => {
                match apply_attribute(target, p, a) {
                    Err(_) => {},
                    Ok(q) => {
                        lemma_attributes_keep_finished(target, q, items.drop_first());
                    },
                }
            },
        }
    }
}

/// What the attributes of the tags do to the finished entities, for every
/// tag that has its attributes read: nothing.
proof fn lemma_tags_keep_finished(p: ParserView, tag: TagView)
    ensures
        forall|target: AttrTarget, q: ParserView|
            same_finished(p, q) ==> (#[trigger] apply_attributes(target, q, tag.attributes)
                matches Ok(r) ==> same_finished(p, r)),
{
    assert forall|target: AttrTarget, q: ParserView| same_finished(p, q) implies (
    #[trigger] apply_attributes(target, q, tag.attributes) matches Ok(r) ==> same_finished(
        p,
        r,
    )) by {
        lemma_attributes_keep_finished(target, q, tag.attributes);
    }
}

/// Finished entities are never changed: an event leaves each collection
/// of the dictionary as it was, puts one entity at its end, or starts it
/// anew.
pub proof fn lemma_step_keeps_finished(p: ParserView, event: XmlEventView)
    ensures
        step(p, event) matches Ok(q) ==> {
            &&& grown(p.dict.grammemes, q.dict.grammemes)
            &&& grown(p.dict.restrictions, q.dict.restrictions)
            &&& grown(p.dict.lemmata, q.dict.lemmata)
            &&& grown(p.dict.link_kinds, q.dict.link_kinds)
            &&& grown(p.dict.links, q.dict.links)
        },
{
    match event {
        XmlEventView::Start(tag) => {
            lemma_tags_keep_finished(p, tag);
        },
        XmlEventView::Empty(tag) => {
            lemma_tags_keep_finished(p, tag);
            match apply_attributes(
                AttrTarget::Link,
                ParserView { link: LinkView::empty(), ..p },
                tag.attributes,
            ) {
                Ok(q) => {
                    assert(q.dict.links.push(q.link).drop_last() =~= q.dict.links);
                },
                Err(_) => {},
            }
        },
        XmlEventView::End(name) => {
            assert(p.dict.grammemes.push(p.grammeme).drop_last() =~= p.dict.grammemes);
            assert(p.dict.restrictions.push(p.restriction).drop_last() =~= p.dict.restrictions);
            assert(p.dict.lemmata.push(p.lemma).drop_last() =~= p.dict.lemmata);
            assert(p.dict.link_kinds.push(p.link_kind).drop_last() =~= p.dict.link_kinds);
        },
        _ => {},
    }
}

/// The indices stay sound from event to event: a reference is always
/// resolved to an entity that was declared under the key it is asked for.
pub proof fn lemma_step_keeps_indices_sound(p: ParserView, event: XmlEventView)
    requires
        indices_sound(p),
    ensures
        step(p, event) matches Ok(q) ==> indices_sound(q),
{
    match event {
        XmlEventView::Start(tag) => {
            lemma_tags_keep_finished(p, tag);
        },
        XmlEventView::Empty(tag) => {
            lemma_tags_keep_finished(p, tag);
        },
        XmlEventView::End(name) => {
            match step(p, event) {
                Ok(q) => {
                    if element_of(name) == Element::Grammeme && p.state
                        == ParsingState::Grammeme {
                        let added = p.dict.grammemes.push(p.grammeme);
                        assert(added[added.len() - 1] == p.grammeme);
                        assert forall|name: Seq<char>| #[trigger]
                            q.grammemes_by_name.contains_key(name) implies q.dict.grammemes.contains(
                            q.grammemes_by_name[name],
                        ) by {
                            if name != p.grammeme.name {
                                let g = p.grammemes_by_name[name];
                                let i = choose|i: int|
                                    0 <= i < p.dict.grammemes.len() && p.dict.grammemes[i] == g;
                                assert(added[i] == g);
                            }
                        }
                    }
                },
                Err(_) => {},
            }
        },
        _ => {},
    }
}

/// The indices are sound at every point of every parse.
pub proof fn lemma_indices_sound_throughout(events: Seq<XmlEventView>)
    ensures
        advance(ParserView::initial(), events) matches Ok(q) ==> indices_sound(q),
{
    lemma_indices_sound_from(ParserView::initial(), events);
}

/// The indices are sound after any events, where they were sound before.
pub proof fn lemma_indices_sound_from(p: ParserView, events: Seq<XmlEventView>)
    requires
        indices_sound(p),
    ensures
        advance(p, events) matches Ok(q) ==> indices_sound(q),
    decreases events.len(),
{
    if events.len() > 0 {
        lemma_step_keeps_indices_sound(p, events[0]);
        match step(p, events[0]) {
            Ok(q) => {
                lemma_indices_sound_from(q, events.drop_first());
            },
            Err(_) => {},
        }
    }
}

/// The tokens of a tokenizer that never fails: the events, each as a
/// token.
pub open spec fn delivered(events: Seq<XmlEventView>) -> Seq<TokenView> {
    events.map_values(|event: XmlEventView| TokenView::Event(event))
}

/// Where the tokenizer does not fail, a document is read as its events
/// are.
pub proof fn lemma_read_delivered(p: ParserView, events: Seq<XmlEventView>)
    ensures
        read(p, delivered(events)) == run(p, events),
    decreases events.len(),
{
    if events.len() > 0 && events[0] != XmlEventView::Eof {
        assert(delivered(events)[0] == TokenView::Event(events[0]));
        assert(delivered(events).drop_first() =~= delivered(events.drop_first()));
        match step(p, events[0]) {
            Ok(q) => {
                lemma_read_delivered(q, events.drop_first());
            },
            Err(_) => {},
        }
    }
}

/// Where the tokenizer fails, the parse ends with the error of the
/// tokenizer, unless an event before the failure has ended it already.
pub proof fn lemma_read_failure(
    p: ParserView,
    events: Seq<XmlEventView>,
    rest: Seq<TokenView>,
    q: ParserView,
)
    requires
        no_eof(events),
        advance(p, events) == Ok::<ParserView, ErrorView>(q),
    ensures
        read(p, delivered(events) + seq![TokenView::Failure] + rest) == Err::<
            DictView,
            ErrorView,
        >(ErrorView::Xml),
    decreases events.len(),
{
    let tokens = delivered(events) + seq![TokenView::Failure] + rest;
    if events.len() == 0 {
        assert(tokens[0] == TokenView::Failure);
    } else {
        assert(tokens[0] == TokenView::Event(events[0]));
        assert(tokens.drop_first() =~= delivered(events.drop_first()) + seq![
            TokenView::Failure,
        ] + rest);
        match step(p, events[0]) {
            Ok(next) => {
                assert(no_eof(events.drop_first())) by {
                    assert forall|i: int| 0 <= i < events.drop_first().len() implies events.drop_first()[i]
                        != XmlEventView::Eof by {
                        assert(events.drop_first()[i] == events[i + 1]);
                    }
                }
                lemma_read_failure(next, events.drop_first(), rest, q);
            },
            Err(_) => {},
        }
    }
}

} // verus!
