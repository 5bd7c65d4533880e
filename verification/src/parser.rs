//! The parser: a state machine that is fed the events of a document one by
//! one and builds the dictionary as it goes.

use crate::decode::{integer_from_bytes, quote, string_from_bytes};
use crate::dict::{
    Dict, DictView, Form, Grammeme, GrammemeView, Lemma, LemmaView, Link, LinkKind, Restriction,
    RestrictionScope,
};
use crate::error::{DictError, ErrorView};
use crate::escape::text_from_bytes;
use crate::event::{AttrItem, Attribute, Tag, XmlEvent};
use crate::index::{find_grammeme, get_grammeme, get_lemma, lemma_views, share, GrammemeIndex};
use crate::model::{
    apply_attribute, apply_attributes, finish, kind_with_id, on_empty, on_end, on_start, on_text,
    scope_of, side_grammeme, step, unexpected, AttrTarget, ParserView, ParsingState,
};
use crate::names::{attr_name, element, restriction_kind, restriction_scope, AttrName, Element};
use std::collections::HashMap;
use std::rc::Rc;
use vstd::prelude::*;
use vstd::string::*;

verus! {

/// A parse in progress.
pub struct Parser {
    state: ParsingState,
    dict: Dict,
    grammeme: Grammeme,
    restriction: Restriction,
    lemma: Lemma,
    form: Form,
    link_kind: LinkKind,
    link: Link,
    grammemes_by_name: GrammemeIndex,
    lemmata_by_id: HashMap<usize, Rc<Lemma>>,
}

impl View for Parser {
    type V = ParserView;

    closed spec fn view(&self) -> ParserView {
        ParserView {
            state: self.state,
            dict: self.dict@,
            grammeme: self.grammeme@,
            restriction: self.restriction@,
            lemma: self.lemma@,
            form: self.form@,
            link_kind: self.link_kind@,
            link: self.link@,
            grammemes_by_name: self.grammemes_by_name@,
            lemmata_by_id: lemma_views(self.lemmata_by_id@),
        }
    }
}

/// Builds the error for a tag that may not stand where it does.
fn unexpected_tag(prefix: &str, name: &[u8]) -> (r: DictError)
    ensures
        r@ == unexpected(prefix@, name@),
{
    match string_from_bytes(name) {
        Ok(s) => DictError::Parsing(quote(prefix, s.as_str())),
        Err(e) => DictError::Utf8 { source: e },
    }
}

/// Picks the last kind in `kinds` whose id is `id`, or `otherwise` where
/// there is none.
fn find_kind(kinds: &Vec<Rc<LinkKind>>, id: usize, otherwise: Rc<LinkKind>) -> (r: Rc<LinkKind>)
    ensures
        r@ == kind_with_id(kinds.deep_view(), id, otherwise@),
{
    let mut found = otherwise;
    let mut i: usize = 0;
    while i < kinds.len()
        invariant
            i <= kinds.len(),
            found@ == kind_with_id(kinds.deep_view().take(i as int), id, otherwise@),
        decreases kinds.len() - i,
    {
        proof {
            let next = kinds.deep_view().take(i + 1);
            assert(next.drop_last() =~= kinds.deep_view().take(i as int));
            assert(next.last() == kinds[i as int]@);
        }
        if kinds[i].id == id {
            found = share(&kinds[i]);
        }
        i = i + 1;
    }
    assert(kinds.deep_view().take(i as int) =~= kinds.deep_view());
    found
}

/// Reads the scope of one side of a restriction from the attributes of its
/// tag.
pub fn get_restriction_scope(el: &Tag) -> (r: Result<RestrictionScope, DictError>)
    ensures
        match r {
            Ok(scope) => scope_of(el@.attributes) == Ok::<RestrictionScope, ErrorView>(scope),
            Err(e) => scope_of(el@.attributes) == Err::<RestrictionScope, ErrorView>(e@),
        },
{
    let ghost items = el@.attributes;
    let mut i: usize = 0;
    assert(items.skip(0) =~= items);
    while i < el.attributes.len()
        invariant
            i <= el.attributes.len(),
            items == el.attributes.deep_view(),
            scope_of(items.skip(i as int)) == scope_of(items),
        decreases el.attributes.len() - i,
    {
        proof {
            assert(items.skip(i as int)[0] == el.attributes[i as int]@);
            assert(items.skip(i as int).drop_first() =~= items.skip(i + 1));
        }
        match &el.attributes[i] {
            AttrItem::Malformed(e) => {
                return Err(DictError::XmlAttr { source: *e });
            },
            AttrItem::Pair(a) => {
                match attr_name(a.key.as_slice()) {
                    AttrName::Type => {
                        return match restriction_scope(a.value.as_slice()) {
                            Some(scope) => Ok(scope),
                            None => Err(
                                unexpected_tag("invalid restriction scope: '", a.value.as_slice()),
                            ),
                        };
                    },
                    _ => {},
                }
            },
        }
        i = i + 1;
    }
    assert(items.skip(i as int).len() == 0);
    Err(DictError::Parsing(String::from_str("restriction scope isn't found")))
}

impl Parser {
    /// A parser that has read nothing yet.
    pub fn new() -> (r: Parser)
        ensures
            r@ == ParserView::initial(),
    {
        broadcast use vstd::std_specs::hash::group_hash_axioms;

        let r = Parser {
            state: ParsingState::Start,
            dict: Dict::default(),
            grammeme: Grammeme::default(),
            restriction: Restriction::default(),
            lemma: Lemma::default(),
            form: Form::default(),
            link_kind: LinkKind::default(),
            link: Link::default(),
            grammemes_by_name: GrammemeIndex::new(),
            lemmata_by_id: HashMap::new(),
        };
        assert(lemma_views(r.lemmata_by_id@) =~= Map::<usize, LemmaView>::empty());
        r
    }

    /// Where in the document the parser stands.
    pub fn state(&self) -> (r: ParsingState)
        ensures
            r == self@.state,
    {
        self.state
    }

    /// Applies one attribute of the tag `target`.
    fn apply_attribute(self, target: AttrTarget, a: &Attribute) -> (r: Result<
        Parser,
        DictError,
    >)
        ensures
            match r {
                Ok(q) => apply_attribute(target, self@, a@) == Ok::<ParserView, ErrorView>(q@),
                Err(e) => apply_attribute(target, self@, a@) == Err::<ParserView, ErrorView>(e@),
            },
    {
        let ghost before = self@;
        let mut p = self;
        let value = a.value.as_slice();
        match (target, attr_name(a.key.as_slice())) {
            (AttrTarget::Dictionary, AttrName::Version) => match string_from_bytes(value) {
                Ok(s) => {
                    p.dict.version = s;
                    Ok(p)
                },
                Err(e) => Err(DictError::Utf8 { source: e }),
            },
            (AttrTarget::Dictionary, AttrName::Revision) => match integer_from_bytes(value) {
                Ok(n) => {
                    p.dict.revision = n;
                    Ok(p)
                },
                Err(e) => Err(e),
            },
            (AttrTarget::Grammeme, AttrName::Parent) => {
                if value.len() == 0 {
                    p.grammeme.parent = None;
                    Ok(p)
                } else {
                    match string_from_bytes(value) {
                        Ok(s) => {
                            p.grammeme.parent = Some(s);
                            Ok(p)
                        },
                        Err(e) => Err(DictError::Utf8 { source: e }),
                    }
                }
            },
            (AttrTarget::Restr, AttrName::Type) => match restriction_kind(value) {
                Some(kind) => {
                    p.restriction.kind = kind;
                    Ok(p)
                },
                None => Err(unexpected_tag("invalid restriction kind: '", value)),
            },
            (AttrTarget::Restr, AttrName::Auto) => match integer_from_bytes(value) {
                Ok(n) => {
                    p.restriction.auto = n;
                    Ok(p)
                },
                Err(e) => Err(e),
            },
            (AttrTarget::Lemma, AttrName::Id) => match integer_from_bytes(value) {
                Ok(n) => {
                    p.lemma.id = n;
                    Ok(p)
                },
                Err(e) => Err(e),
            },
            (AttrTarget::Lemma, AttrName::Rev) => match integer_from_bytes(value) {
                Ok(n) => {
                    p.lemma.revision = n;
                    Ok(p)
                },
                Err(e) => Err(e),
            },
            (AttrTarget::L, AttrName::T) => match string_from_bytes(value) {
                Ok(s) => {
                    p.lemma.word = s;
                    Ok(p)
                },
                Err(e) => Err(DictError::Utf8 { source: e }),
            },
            (AttrTarget::F, AttrName::T) => match string_from_bytes(value) {
                Ok(s) => {
                    p.form.word = s;
                    Ok(p)
                },
                Err(e) => Err(DictError::Utf8 { source: e }),
            },
            (AttrTarget::LinkType, AttrName::Id) => match integer_from_bytes(value) {
                Ok(n) => {
                    p.link_kind.id = n;
                    Ok(p)
                },
                Err(e) => Err(e),
            },
            (AttrTarget::LemmaGrammeme, AttrName::V) => match get_grammeme(
                &p.grammemes_by_name,
                value,
            ) {
                Ok(g) => {
                    p.lemma.grammemes.push(g);
                    assert(p.lemma.grammemes.deep_view() =~= before.lemma.grammemes.push(g@));
                    Ok(p)
                },
                Err(e) => Err(e),
            },
            (AttrTarget::FormGrammeme, AttrName::V) => match get_grammeme(
                &p.grammemes_by_name,
                value,
            ) {
                Ok(g) => {
                    p.form.grammemes.push(g);
                    assert(p.form.grammemes.deep_view() =~= before.form.grammemes.push(g@));
                    Ok(p)
                },
                Err(e) => Err(e),
            },
            (AttrTarget::Link, AttrName::Id) => match integer_from_bytes(value) {
                Ok(n) => {
                    p.link.id = n;
                    Ok(p)
                },
                Err(e) => Err(e),
            },
            (AttrTarget::Link, AttrName::From) => match get_lemma(&p.lemmata_by_id, value) {
                Ok(l) => {
                    p.link.from = l;
                    Ok(p)
                },
                Err(e) => Err(e),
            },
            (AttrTarget::Link, AttrName::To) => match get_lemma(&p.lemmata_by_id, value) {
                Ok(l) => {
                    p.link.to = l;
                    Ok(p)
                },
                Err(e) => Err(e),
            },
            (AttrTarget::Link, AttrName::Type) => match integer_from_bytes(value) {
                Ok(n) => {
                    let otherwise = share(&p.link.kind);
                    p.link.kind = find_kind(&p.dict.link_kinds, n, otherwise);
                    Ok(p)
                },
                Err(e) => Err(e),
            },
            _ => Ok(p),
        }
    }

    /// Applies the attributes of the tag `target`, in document order.
    fn apply_attributes(self, target: AttrTarget, items: &Vec<AttrItem>) -> (r: Result<
        Parser,
        DictError,
    >)
        ensures
            match r {
                Ok(q) => apply_attributes(target, self@, items.deep_view()) == Ok::<
                    ParserView,
                    ErrorView,
                >(q@),
                Err(e) => apply_attributes(target, self@, items.deep_view()) == Err::<
                    ParserView,
                    ErrorView,
                >(e@),
            },
    {
        let ghost all = items.deep_view();
        let ghost first = self@;
        let mut parser = self;
        let mut i: usize = 0;
        assert(all.skip(0) =~= all);
        while i < items.len()
            invariant
                i <= items.len(),
                all == items.deep_view(),
                first == self@,
                apply_attributes(target, parser@, all.skip(i as int)) == apply_attributes(
                    target,
                    first,
                    all,
                ),
            decreases items.len() - i,
        {
            proof {
                assert(all.skip(i as int)[0] == items[i as int]@);
                assert(all.skip(i as int).drop_first() =~= all.skip(i + 1));
            }
            match &items[i] {
                AttrItem::Malformed(e) => {
                    return Err(DictError::XmlAttr { source: *e });
                },
                AttrItem::Pair(a) => {
                    match parser.apply_attribute(target, a) {
                        Ok(q) => {
                            parser = q;
                        },
                        Err(e) => {
                            return Err(e);
                        },
                    }
                },
            }
            i = i + 1;
        }
        assert(all.skip(i as int).len() == 0);
        Ok(parser)
    }

    /// Takes an opening tag.
    fn on_start(self, tag: &Tag) -> (r: Result<Parser, DictError>)
        ensures
            match r {
                Ok(q) => on_start(self@, tag@) == Ok::<ParserView, ErrorView>(q@),
                Err(e) => on_start(self@, tag@) == Err::<ParserView, ErrorView>(e@),
            },
    {
        let mut p = self;
        match (element(tag.name.as_slice()), p.state) {
            (Element::Dictionary, ParsingState::Start) => {
                p.state = ParsingState::Dictionary;
                p.apply_attributes(AttrTarget::Dictionary, &tag.attributes)
            },
            (Element::Grammemes, ParsingState::Dictionary) => {
                p.state = ParsingState::Grammemes;
                p.dict.grammemes = Vec::new();
                p.grammemes_by_name = GrammemeIndex::new();
                assert(p.dict.grammemes.deep_view() =~= Seq::empty());
                Ok(p)
            },
            (Element::Grammeme, ParsingState::Grammemes) => {
                p.state = ParsingState::Grammeme;
                p.grammeme = Grammeme::default();
                p.apply_attributes(AttrTarget::Grammeme, &tag.attributes)
            },
            (Element::Name, ParsingState::Grammeme) => {
                p.state = ParsingState::GrammemeName;
                Ok(p)
            },
            (Element::Alias, ParsingState::Grammeme) => {
                p.state = ParsingState::GrammemeAlias;
                Ok(p)
            },
            (Element::Description, ParsingState::Grammeme) => {
                p.state = ParsingState::GrammemeDescription;
                Ok(p)
            },
            (Element::Restrictions, ParsingState::Dictionary) => {
                p.state = ParsingState::Restrictions;
                p.dict.restrictions = Vec::new();
                assert(p.dict.restrictions.deep_view() =~= Seq::empty());
                Ok(p)
            },
            (Element::Restr, ParsingState::Restrictions) => {
                p.state = ParsingState::Restriction;
                p.restriction = Restriction::default();
                p.apply_attributes(AttrTarget::Restr, &tag.attributes)
            },
            (Element::Left, ParsingState::Restriction) => match get_restriction_scope(tag) {
                Ok(scope) => {
                    p.state = ParsingState::RestrictionLeft;
                    p.restriction.left_scope = scope;
                    Ok(p)
                },
                Err(e) => Err(e),
            },
            (Element::Right, ParsingState::Restriction) => match get_restriction_scope(tag) {
                Ok(scope) => {
                    p.state = ParsingState::RestrictionRight;
                    p.restriction.right_scope = scope;
                    Ok(p)
                },
                Err(e) => Err(e),
            },
            (Element::Lemmata, ParsingState::Dictionary) => {
                p.state = ParsingState::Lemmata;
                p.dict.lemmata = Vec::new();
                assert(p.dict.lemmata.deep_view() =~= Seq::empty());
                Ok(p)
            },
            (Element::Lemma, ParsingState::Lemmata) => {
                p.state = ParsingState::Lemma;
                p.lemma = Lemma::default();
                p.apply_attributes(AttrTarget::Lemma, &tag.attributes)
            },
            (Element::L, ParsingState::Lemma) => {
                p.state = ParsingState::LemmaL;
                p.lemma.grammemes = Vec::new();
                assert(p.lemma.grammemes.deep_view() =~= Seq::empty());
                p.apply_attributes(AttrTarget::L, &tag.attributes)
            },
            (Element::F, ParsingState::Lemma) => {
                p.state = ParsingState::LemmaF;
                p.form = Form::default();
                p.apply_attributes(AttrTarget::F, &tag.attributes)
            },
            (Element::LinkTypes, ParsingState::Dictionary) => {
                p.state = ParsingState::LinkTypes;
                p.dict.link_kinds = Vec::new();
                assert(p.dict.link_kinds.deep_view() =~= Seq::empty());
                Ok(p)
            },
            (Element::Type, ParsingState::LinkTypes) => {
                p.state = ParsingState::LinkType;
                p.link_kind = LinkKind::default();
                p.apply_attributes(AttrTarget::LinkType, &tag.attributes)
            },
            (Element::Links, ParsingState::Dictionary) => {
                p.state = ParsingState::Links;
                p.dict.links = Vec::new();
                assert(p.dict.links.deep_view() =~= Seq::empty());
                Ok(p)
            },
            _ => Err(unexpected_tag("unexpected opening tag: '", tag.name.as_slice())),
        }
    }

    /// Takes a self-closing tag.
    fn on_empty(self, tag: &Tag) -> (r: Result<Parser, DictError>)
        ensures
            match r {
                Ok(q) => on_empty(self@, tag@) == Ok::<ParserView, ErrorView>(q@),
                Err(e) => on_empty(self@, tag@) == Err::<ParserView, ErrorView>(e@),
            },
    {
        let mut p = self;
        match (element(tag.name.as_slice()), p.state) {
            (Element::G, ParsingState::LemmaL) => p.apply_attributes(
                AttrTarget::LemmaGrammeme,
                &tag.attributes,
            ),
            (Element::G, ParsingState::LemmaF) => p.apply_attributes(
                AttrTarget::FormGrammeme,
                &tag.attributes,
            ),
            (Element::Link, ParsingState::Links) => {
                p.link = Link::default();
                match p.apply_attributes(AttrTarget::Link, &tag.attributes) {
                    Ok(q) => {
                        let ghost links = q@.dict.links;
                        let mut q = q;
                        let link = q.link;
                        q.link = Link::default();
                        q.dict.links.push(link);
                        assert(q.dict.links.deep_view() =~= links.push(link@));
                        Ok(q)
                    },
                    Err(e) => Err(e),
                }
            },
            _ => Err(unexpected_tag("unexpected single tag: '", tag.name.as_slice())),
        }
    }

    /// Takes a closing tag.
    fn on_end(self, name: &[u8]) -> (r: Result<Parser, DictError>)
        ensures
            match r {
                Ok(q) => on_end(self@, name@) == Ok::<ParserView, ErrorView>(q@),
                Err(e) => on_end(self@, name@) == Err::<ParserView, ErrorView>(e@),
            },
    {
        broadcast use vstd::std_specs::hash::group_hash_axioms;

        let ghost before = self@;
        let mut p = self;
        match (element(name), p.state) {
            (Element::Dictionary, ParsingState::Dictionary) => {
                p.state = ParsingState::End;
                Ok(p)
            },
            (Element::Grammemes, ParsingState::Grammemes) => {
                p.state = ParsingState::Dictionary;
                Ok(p)
            },
            (Element::Grammeme, ParsingState::Grammeme) => {
                p.state = ParsingState::Grammemes;
                let grammeme = Rc::new(p.grammeme);
                p.grammeme = Grammeme::default();
                p.dict.grammemes.push(share(&grammeme));
                p.grammemes_by_name.insert(grammeme);
                assert(p.dict.grammemes.deep_view() =~= before.dict.grammemes.push(
                    before.grammeme,
                ));
                Ok(p)
            },
            (Element::Name, ParsingState::GrammemeName) => {
                p.state = ParsingState::Grammeme;
                Ok(p)
            },
            (Element::Alias, ParsingState::GrammemeAlias) => {
                p.state = ParsingState::Grammeme;
                Ok(p)
            },
            (Element::Description, ParsingState::GrammemeDescription) => {
                p.state = ParsingState::Grammeme;
                Ok(p)
            },
            (Element::Restrictions, ParsingState::Restrictions) => {
                p.state = ParsingState::Dictionary;
                Ok(p)
            },
            (Element::Restr, ParsingState::Restriction) => {
                p.state = ParsingState::Restrictions;
                let restriction = p.restriction;
                p.restriction = Restriction::default();
                p.dict.restrictions.push(restriction);
                assert(p.dict.restrictions.deep_view() =~= before.dict.restrictions.push(
                    before.restriction,
                ));
                Ok(p)
            },
            (Element::Left, ParsingState::RestrictionLeft) => {
                p.state = ParsingState::Restriction;
                Ok(p)
            },
            (Element::Right, ParsingState::RestrictionRight) => {
                p.state = ParsingState::Restriction;
                Ok(p)
            },
            (Element::Lemmata, ParsingState::Lemmata) => {
                p.state = ParsingState::Dictionary;
                Ok(p)
            },
            (Element::Lemma, ParsingState::Lemma) => {
                p.state = ParsingState::Lemmata;
                let lemma = Rc::new(p.lemma);
                p.lemma = Lemma::default();
                p.dict.lemmata.push(share(&lemma));
                p.lemmata_by_id.insert(lemma.id, lemma);
                assert(p.dict.lemmata.deep_view() =~= before.dict.lemmata.push(before.lemma));
                assert(lemma_views(p.lemmata_by_id@) =~= before.lemmata_by_id.insert(
                    before.lemma.id,
                    before.lemma,
                ));
                Ok(p)
            },
            (Element::L, ParsingState::LemmaL) => {
                p.state = ParsingState::Lemma;
                Ok(p)
            },
            (Element::F, ParsingState::LemmaF) => {
                p.state = ParsingState::Lemma;
                let form = p.form;
                p.form = Form::default();
                p.lemma.forms.push(form);
                assert(p.lemma.forms.deep_view() =~= before.lemma.forms.push(before.form));
                Ok(p)
            },
            (Element::LinkTypes, ParsingState::LinkTypes) => {
                p.state = ParsingState::Dictionary;
                Ok(p)
            },
            (Element::Type, ParsingState::LinkType) => {
                p.state = ParsingState::LinkTypes;
                let kind = p.link_kind;
                p.link_kind = LinkKind::default();
                p.dict.link_kinds.push(Rc::new(kind));
                assert(p.dict.link_kinds.deep_view() =~= before.dict.link_kinds.push(
                    before.link_kind,
                ));
                Ok(p)
            },
            (Element::Links, ParsingState::Links) => {
                p.state = ParsingState::Dictionary;
                Ok(p)
            },
            _ => Err(unexpected_tag("unexpected closing tag: '", name)),
        }
    }

    /// Reads the grammeme that one side of a restriction refers to.
    fn side_grammeme(&self, raw: &[u8]) -> (r: Result<Option<Rc<Grammeme>>, DictError>)
        ensures
            match r {
                Ok(g) => side_grammeme(self@.grammemes_by_name, raw@) == Ok::<
                    Option<GrammemeView>,
                    ErrorView,
                >(g.deep_view()),
                Err(e) => side_grammeme(self@.grammemes_by_name, raw@) == Err::<
                    Option<GrammemeView>,
                    ErrorView,
                >(e@),
            },
    {
        if raw.len() == 0 {
            Ok(None)
        } else {
            match text_from_bytes(raw) {
                Ok(s) => match find_grammeme(&self.grammemes_by_name, s.as_str()) {
                    Ok(g) => Ok(Some(g)),
                    Err(e) => Err(e),
                },
                Err(e) => Err(e),
            }
        }
    }

    /// Takes character data.
    fn on_text(self, raw: &[u8]) -> (r: Result<Parser, DictError>)
        ensures
            match r {
                Ok(q) => on_text(self@, raw@) == Ok::<ParserView, ErrorView>(q@),
                Err(e) => on_text(self@, raw@) == Err::<ParserView, ErrorView>(e@),
            },
    {
        let mut p = self;
        match p.state {
            ParsingState::GrammemeName => match text_from_bytes(raw) {
                Ok(s) => {
                    p.grammeme.name = s;
                    Ok(p)
                },
                Err(e) => Err(e),
            },
            ParsingState::GrammemeAlias => match text_from_bytes(raw) {
                Ok(s) => {
                    p.grammeme.alias = s;
                    Ok(p)
                },
                Err(e) => Err(e),
            },
            ParsingState::GrammemeDescription => match text_from_bytes(raw) {
                Ok(s) => {
                    p.grammeme.description = s;
                    Ok(p)
                },
                Err(e) => Err(e),
            },
            ParsingState::RestrictionLeft => match p.side_grammeme(raw) {
                Ok(g) => {
                    p.restriction.left_grammeme = g;
                    Ok(p)
                },
                Err(e) => Err(e),
            },
            ParsingState::RestrictionRight => match p.side_grammeme(raw) {
                Ok(g) => {
                    p.restriction.right_grammeme = g;
                    Ok(p)
                },
                Err(e) => Err(e),
            },
            ParsingState::LinkType => match text_from_bytes(raw) {
                Ok(s) => {
                    p.link_kind.name = s;
                    Ok(p)
                },
                Err(e) => Err(e),
            },
            _ => Ok(p),
        }
    }

    /// Takes the next event of the document. An error ends the parse: the
    /// parser is used up either way, and what it had built is dropped.
    pub fn feed(self, event: &XmlEvent) -> (r: Result<Parser, DictError>)
        ensures
            match r {
                Ok(q) => step(self@, event@) == Ok::<ParserView, ErrorView>(q@),
                Err(e) => step(self@, event@) == Err::<ParserView, ErrorView>(e@),
            },
    {
        match event {
            XmlEvent::Start(tag) => self.on_start(tag),
            XmlEvent::Empty(tag) => self.on_empty(tag),
            XmlEvent::End(name) => self.on_end(name.as_slice()),
            XmlEvent::Text(raw) => self.on_text(raw.as_slice()),
            XmlEvent::Decl => Ok(self),
            XmlEvent::Eof => Ok(self),
            XmlEvent::CData => Err(unsupported_markup("CDATA section")),
            XmlEvent::Comment => Err(unsupported_markup("comment")),
            XmlEvent::PI => Err(unsupported_markup("processing instruction")),
            XmlEvent::DocType => Err(unsupported_markup("document type definition")),
        }
    }

    /// Ends the parse: hands out the dictionary if the root element was
    /// closed, and fails otherwise.
    pub fn finish(self) -> (r: Result<Dict, DictError>)
        ensures
            match r {
                Ok(d) => finish(self@) == Ok::<DictView, ErrorView>(d@),
                Err(e) => finish(self@) == Err::<DictView, ErrorView>(e@),
            },
    {
        match self.state {
            ParsingState::End => Ok(self.dict),
            _ => {
                let mut message = String::from_str("invalid state after parsing: ");
                message.append(state_name(self.state));
                Err(DictError::Parsing(message))
            },
        }
    }
}

/// Builds the error for markup that a dictionary may not hold.
fn unsupported_markup(what: &str) -> (r: DictError)
    ensures
        r@ == ErrorView::Parsing("unsupported markup: "@ + what@),
{
    let mut message = String::from_str("unsupported markup: ");
    message.append(what);
    DictError::Parsing(message)
}

/// The name of a state, as error messages print it.
fn state_name(state: ParsingState) -> (r: &'static str)
    ensures
        r@ == state.name(),
{
    match state {
        ParsingState::Start => "Start",
        ParsingState::Dictionary => "Dictionary",
        ParsingState::Grammemes => "Grammemes",
        ParsingState::Grammeme => "Grammeme",
        ParsingState::GrammemeName => "GrammemeName",
        ParsingState::GrammemeAlias => "GrammemeAlias",
        ParsingState::GrammemeDescription => "GrammemeDescription",
        ParsingState::Restrictions => "Restrictions",
        ParsingState::Restriction => "Restriction",
        ParsingState::RestrictionLeft => "RestrictionLeft",
        ParsingState::RestrictionRight => "RestrictionRight",
        ParsingState::Lemmata => "Lemmata",
        ParsingState::Lemma => "Lemma",
        ParsingState::LemmaL => "LemmaL",
        ParsingState::LemmaF => "LemmaF",
        ParsingState::LinkTypes => "LinkTypes",
        ParsingState::LinkType => "LinkType",
        ParsingState::Links => "Links",
        ParsingState::End => "End",
    }
}

} // verus!
