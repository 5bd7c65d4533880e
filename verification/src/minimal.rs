//! The smallest document that uses every part of the format, and the
//! dictionary it describes.

use crate::decode::{integer_of, utf8_text};
use crate::dict::{
    DictView, FormView, GrammemeView, LemmaView, LinkKindView, LinkView, RestrictionKind,
    RestrictionScope, RestrictionView,
};
use crate::error::ErrorView;
use crate::escape::text_of;
use crate::event::{AttrItemView, AttributeView, TagView, XmlEventView};
use crate::laws::{advance, lemma_run_append, no_eof};
use crate::model::{
    apply_attribute, apply_attributes, kind_with_id, parse, step, AttrTarget, ParserView,
    ParsingState,
};
use crate::names::{ascii, lemma_attr_names, lemma_element_names, lemma_restriction_scopes};
use vstd::prelude::*;

verus! {

/// The opening tag of an element.
pub open spec fn opening(name: Seq<char>, attributes: Seq<AttrItemView>) -> XmlEventView {
    XmlEventView::Start(TagView { name: ascii(name), attributes })
}

/// The self-closing tag of an element.
pub open spec fn single(name: Seq<char>, attributes: Seq<AttrItemView>) -> XmlEventView {
    XmlEventView::Empty(TagView { name: ascii(name), attributes })
}

/// The closing tag of an element.
pub open spec fn closing(name: Seq<char>) -> XmlEventView {
    XmlEventView::End(ascii(name))
}

/// An attribute with an ASCII key.
pub open spec fn attribute(key: Seq<char>, value: Seq<u8>) -> AttrItemView {
    AttrItemView::Pair(AttributeView { key: ascii(key), value })
}

/// The event `first`, then the events `rest`.
pub open spec fn then(first: XmlEventView, rest: Seq<XmlEventView>) -> Seq<XmlEventView> {
    seq![first] + rest
}

/// The texts and numbers of a minimal document, as they stand in it.
pub struct Minimal {
    /// The name of the grammeme, as its declaration and the sides of the
    /// restriction write it.
    pub grammeme: Seq<u8>,
    /// The name of the grammeme, as the lexeme refers to it.
    pub reference: Seq<u8>,
    /// The headword of the first lexeme, which is its only form too.
    pub word: Seq<u8>,
    /// The id of the first lexeme.
    pub first: Seq<u8>,
    /// The id of the second lexeme.
    pub second: Seq<u8>,
    /// The id of the link kind.
    pub kind: Seq<u8>,
    /// The name of the link kind.
    pub kind_name: Seq<u8>,
    /// The id of the link.
    pub link: Seq<u8>,
}

impl Minimal {
    /// Whether the texts decode, the numbers are numbers, the reference
    /// names the grammeme, and the two lexemes differ in their id.
    pub open spec fn well_formed(self) -> bool {
        &&& self.grammeme.len() > 0
        &&& text_of(self.grammeme) is Ok
        &&& utf8_text(self.reference) == Some(text_of(self.grammeme)->Ok_0)
        &&& utf8_text(self.word) is Some
        &&& integer_of(self.first) is Ok
        &&& integer_of(self.second) is Ok
        &&& integer_of(self.first) != integer_of(self.second)
        &&& integer_of(self.kind) is Ok
        &&& text_of(self.kind_name) is Ok
        &&& integer_of(self.link) is Ok
    }

    /// The grammeme that the document declares.
    pub open spec fn the_grammeme(self) -> GrammemeView {
        GrammemeView { name: text_of(self.grammeme)->Ok_0, ..GrammemeView::empty() }
    }

    /// The restriction that the document declares: the grammeme on both
    /// sides, for the lexeme on the left and the form on the right.
    pub open spec fn the_restriction(self) -> RestrictionView {
        RestrictionView {
            kind: RestrictionKind::Maybe,
            auto: 0,
            left_scope: RestrictionScope::Lemma,
            left_grammeme: Some(self.the_grammeme()),
            right_scope: RestrictionScope::Form,
            right_grammeme: Some(self.the_grammeme()),
        }
    }

    /// The first lexeme: it refers to the grammeme and has one form.
    pub open spec fn first_lemma(self) -> LemmaView {
        LemmaView {
            id: integer_of(self.first)->Ok_0,
            revision: 0,
            word: utf8_text(self.word)->0,
            grammemes: seq![self.the_grammeme()],
            forms: seq![FormView { word: utf8_text(self.word)->0, grammemes: Seq::empty() }],
        }
    }

    /// The second lexeme, which has an id and nothing else.
    pub open spec fn second_lemma(self) -> LemmaView {
        LemmaView { id: integer_of(self.second)->Ok_0, ..LemmaView::empty() }
    }

    /// The link kind that the document declares.
    pub open spec fn the_kind(self) -> LinkKindView {
        LinkKindView { id: integer_of(self.kind)->Ok_0, name: text_of(self.kind_name)->Ok_0 }
    }

    /// The link from the first lexeme to the second.
    pub open spec fn the_link(self) -> LinkView {
        LinkView {
            id: integer_of(self.link)->Ok_0,
            from: self.first_lemma(),
            to: self.second_lemma(),
            kind: self.the_kind(),
        }
    }

    /// The dictionary that the document describes.
    pub open spec fn dictionary(self) -> DictView {
        DictView {
            version: Seq::empty(),
            revision: 0,
            grammemes: seq![self.the_grammeme()],
            restrictions: seq![self.the_restriction()],
            lemmata: seq![self.first_lemma(), self.second_lemma()],
            link_kinds: seq![self.the_kind()],
            links: seq![self.the_link()],
        }
    }

    /// The section that declares the grammeme.
    pub open spec fn grammemes(self) -> Seq<XmlEventView> {
        then(
            opening("grammemes"@, Seq::empty()),
            then(
                opening("grammeme"@, Seq::empty()),
                then(
                    opening("name"@, Seq::empty()),
                    then(
                        XmlEventView::Text(self.grammeme),
                        then(
                            closing("name"@),
                            then(
                                closing("grammeme"@),
                                then(closing("grammemes"@), Seq::empty()),
                            ),
                        ),
                    ),
                ),
            ),
        )
    }

    /// The section that declares the restriction.
    pub open spec fn restrictions(self) -> Seq<XmlEventView> {
        then(
            opening("restrictions"@, Seq::empty()),
            then(
                opening("restr"@, Seq::empty()),
                then(
                    opening("left"@, seq![attribute("type"@, ascii("lemma"@))]),
                    then(
                        XmlEventView::Text(self.grammeme),
                        then(
                            closing("left"@),
                            then(
                                opening("right"@, seq![attribute("type"@, ascii("form"@))]),
                                then(
                                    XmlEventView::Text(self.grammeme),
                                    then(
                                        closing("right"@),
                                        then(
                                            closing("restr"@),
                                            then(closing("restrictions"@), Seq::empty()),
                                        ),
                                    ),
                                ),
                            ),
                        ),
                    ),
                ),
            ),
        )
    }

    /// The section that declares the two lexemes.
    pub open spec fn lemmata(self) -> Seq<XmlEventView> {
        then(
            opening("lemmata"@, Seq::empty()),
            then(
                opening("lemma"@, seq![attribute("id"@, self.first)]),
                then(
                    opening("l"@, seq![attribute("t"@, self.word)]),
                    then(
                        single("g"@, seq![attribute("v"@, self.reference)]),
                        then(
                            closing("l"@),
                            then(
                                opening("f"@, seq![attribute("t"@, self.word)]),
                                then(
                                    closing("f"@),
                                    then(
                                        closing("lemma"@),
                                        then(
                                            opening(
                                                "lemma"@,
                                                seq![attribute("id"@, self.second)],
                                            ),
                                            then(
                                                closing("lemma"@),
                                                then(closing("lemmata"@), Seq::empty()),
                                            ),
                                        ),
                                    ),
                                ),
                            ),
                        ),
                    ),
                ),
            ),
        )
    }

    /// The section that declares the link kind.
    pub open spec fn link_types(self) -> Seq<XmlEventView> {
        then(
            opening("link_types"@, Seq::empty()),
            then(
                opening("type"@, seq![attribute("id"@, self.kind)]),
                then(
                    XmlEventView::Text(self.kind_name),
                    then(closing("type"@), then(closing("link_types"@), Seq::empty())),
                ),
            ),
        )
    }

    /// The section that declares the link.
    pub open spec fn links(self) -> Seq<XmlEventView> {
        then(
            opening("links"@, Seq::empty()),
            then(
                single(
                    "link"@,
                    seq![
                        attribute("id"@, self.link),
                        attribute("from"@, self.first),
                        attribute("to"@, self.second),
                        attribute("type"@, self.kind),
                    ],
                ),
                then(closing("links"@), Seq::empty()),
            ),
        )
    }

    /// The whole document: the root element around the five sections.
    pub open spec fn document(self) -> Seq<XmlEventView> {
        then(opening("dictionary"@, Seq::empty()), Seq::empty()) + self.grammemes()
            + self.restrictions() + self.lemmata() + self.link_types() + self.links() + then(
            closing("dictionary"@),
            Seq::empty(),
        )
    }
}

/// The state after an event and then others is the state after the others,
/// taken from the state after the event.
pub proof fn lemma_advance_then(p: ParserView, first: XmlEventView, rest: Seq<XmlEventView>)
    ensures
        advance(p, then(first, rest)) == match step(p, first) {
            Err(e) => Err(e),
            Ok(q) => advance(q, rest),
        },
        no_eof(rest) && first != XmlEventView::Eof ==> no_eof(then(first, rest)),
{
    assert(then(first, rest)[0] == first);
    assert(then(first, rest).drop_first() =~= rest);
    if no_eof(rest) && first != XmlEventView::Eof {
        assert forall|i: int| 0 <= i < then(first, rest).len() implies then(first, rest)[i]
            != XmlEventView::Eof by {
            if i > 0 {
                assert(then(first, rest)[i] == rest[i - 1]);
            }
        }
    }
}

/// The state after two runs of events is the state after the second,
/// taken from the state after the first.
pub proof fn lemma_advance_append(p: ParserView, a: Seq<XmlEventView>, b: Seq<XmlEventView>)
    ensures
        advance(p, a + b) == match advance(p, a) {
            Err(e) => Err(e),
            Ok(q) => advance(q, b),
        },
        no_eof(a) && no_eof(b) ==> no_eof(a + b),
    decreases a.len(),
{
    if a.len() == 0 {
        assert(a + b =~= b);
    } else {
        assert((a + b)[0] == a[0]);
        assert((a + b).drop_first() =~= a.drop_first() + b);
        match step(p, a[0]) {
            Err(_) => {},
            Ok(q) => {
                lemma_advance_append(q, a.drop_first(), b);
            },
        }
    }
}

/// The grammemes section leaves the one grammeme in the dictionary and in the index, and nothing else.
pub proof fn lemma_minimal_grammemes(m: Minimal, p: ParserView)
    requires
        m.well_formed(),
        p.state == ParsingState::Dictionary,
    ensures
        advance(p, m.grammemes()) == Ok::<ParserView, ErrorView>(
            ParserView {
                dict: DictView { grammemes: seq![m.the_grammeme()], ..p.dict },
                grammemes_by_name: Map::empty().insert(
                    m.the_grammeme().name,
                    m.the_grammeme(),
                ),
                grammeme: GrammemeView::empty(),
                ..p
            },
        ),
        no_eof(m.grammemes()),
{
    lemma_element_names();
    lemma_attr_names();
    reveal_with_fuel(apply_attributes, 3);
    assert(Seq::<GrammemeView>::empty().push(m.the_grammeme()) =~= seq![m.the_grammeme()]);
    let e0 = opening("grammemes"@, Seq::empty());
    let e1 = opening("grammeme"@, Seq::empty());
    let e2 = opening("name"@, Seq::empty());
    let e3 = XmlEventView::Text(m.grammeme);
    let e4 = closing("name"@);
    let e5 = closing("grammeme"@);
    let e6 = closing("grammemes"@);
    let t7 = Seq::<XmlEventView>::empty();
    let t6 = then(e6, t7);
    let t5 = then(e5, t6);
    let t4 = then(e4, t5);
    let t3 = then(e3, t4);
    let t2 = then(e2, t3);
    let t1 = then(e1, t2);
    let t0 = then(e0, t1);
    assert(t0 == m.grammemes());
    let s0 = p;
    let s1 = ParserView { state: ParsingState::Grammemes, dict: DictView { grammemes: Seq::empty(), ..s0.dict }, grammemes_by_name: Map::empty(), ..s0 };
    assert(step(s0, e0) == Ok::<ParserView, ErrorView>(s1));
    let s2 = ParserView { state: ParsingState::Grammeme, grammeme: GrammemeView::empty(), ..s1 };
    assert(step(s1, e1) == Ok::<ParserView, ErrorView>(s2));
    let s3 = s2.at(ParsingState::GrammemeName);
    assert(step(s2, e2) == Ok::<ParserView, ErrorView>(s3));
    let s4 = ParserView { grammeme: m.the_grammeme(), ..s3 };
    assert(step(s3, e3) == Ok::<ParserView, ErrorView>(s4));
    let s5 = s4.at(ParsingState::Grammeme);
    assert(step(s4, e4) == Ok::<ParserView, ErrorView>(s5));
    let s6 = ParserView { state: ParsingState::Grammemes, dict: DictView { grammemes: seq![m.the_grammeme()], ..s5.dict }, grammemes_by_name: Map::empty().insert(m.the_grammeme().name, m.the_grammeme()), grammeme: GrammemeView::empty(), ..s5 };
    assert(step(s5, e5) == Ok::<ParserView, ErrorView>(s6));
    let s7 = s6.at(ParsingState::Dictionary);
    assert(step(s6, e6) == Ok::<ParserView, ErrorView>(s7));
    lemma_advance_then(s6, e6, t7);
    lemma_advance_then(s5, e5, t6);
    lemma_advance_then(s4, e4, t5);
    lemma_advance_then(s3, e3, t4);
    lemma_advance_then(s2, e2, t3);
    lemma_advance_then(s1, e1, t2);
    lemma_advance_then(s0, e0, t1);
    assert(s7 == ParserView {
            dict: DictView { grammemes: seq![m.the_grammeme()], ..p.dict },
            grammemes_by_name: Map::empty().insert(
                m.the_grammeme().name,
                m.the_grammeme(),
            ),
            grammeme: GrammemeView::empty(),
            ..p
        });
}

/// The restrictions section leaves the one restriction in the dictionary, with the grammeme on both sides.
pub proof fn lemma_minimal_restrictions(m: Minimal, p: ParserView)
    requires
        m.well_formed(),
        p.state == ParsingState::Dictionary,
        p.grammemes_by_name.contains_key(m.the_grammeme().name),
        p.grammemes_by_name[m.the_grammeme().name] == m.the_grammeme(),
    ensures
        advance(p, m.restrictions()) == Ok::<ParserView, ErrorView>(
            ParserView {
                dict: DictView { restrictions: seq![m.the_restriction()], ..p.dict },
                restriction: RestrictionView::empty(),
                ..p
            },
        ),
        no_eof(m.restrictions()),
{
    lemma_element_names();
    lemma_attr_names();
    reveal_with_fuel(apply_attributes, 3);
    lemma_restriction_scopes();
    assert(Seq::<RestrictionView>::empty().push(m.the_restriction()) =~= seq![m.the_restriction()]);
    assert(seq![attribute("type"@, ascii("lemma"@))][0] == attribute("type"@, ascii("lemma"@)));
    assert(seq![attribute("type"@, ascii("form"@))][0] == attribute("type"@, ascii("form"@)));
    let e0 = opening("restrictions"@, Seq::empty());
    let e1 = opening("restr"@, Seq::empty());
    let e2 = opening("left"@, seq![attribute("type"@, ascii("lemma"@))]);
    let e3 = XmlEventView::Text(m.grammeme);
    let e4 = closing("left"@);
    let e5 = opening("right"@, seq![attribute("type"@, ascii("form"@))]);
    let e6 = XmlEventView::Text(m.grammeme);
    let e7 = closing("right"@);
    let e8 = closing("restr"@);
    let e9 = closing("restrictions"@);
    let t10 = Seq::<XmlEventView>::empty();
    let t9 = then(e9, t10);
    let t8 = then(e8, t9);
    let t7 = then(e7, t8);
    let t6 = then(e6, t7);
    let t5 = then(e5, t6);
    let t4 = then(e4, t5);
    let t3 = then(e3, t4);
    let t2 = then(e2, t3);
    let t1 = then(e1, t2);
    let t0 = then(e0, t1);
    assert(t0 == m.restrictions());
    let s0 = p;
    let s1 = ParserView { state: ParsingState::Restrictions, dict: DictView { restrictions: Seq::empty(), ..s0.dict }, ..s0 };
    assert(step(s0, e0) == Ok::<ParserView, ErrorView>(s1));
    let s2 = ParserView { state: ParsingState::Restriction, restriction: RestrictionView::empty(), ..s1 };
    assert(step(s1, e1) == Ok::<ParserView, ErrorView>(s2));
    let s3 = ParserView { state: ParsingState::RestrictionLeft, restriction: RestrictionView { left_scope: RestrictionScope::Lemma, ..s2.restriction }, ..s2 };
    assert(step(s2, e2) == Ok::<ParserView, ErrorView>(s3));
    let s4 = ParserView { restriction: RestrictionView { left_grammeme: Some(m.the_grammeme()), ..s3.restriction }, ..s3 };
    assert(step(s3, e3) == Ok::<ParserView, ErrorView>(s4));
    let s5 = s4.at(ParsingState::Restriction);
    assert(step(s4, e4) == Ok::<ParserView, ErrorView>(s5));
    let s6 = ParserView { state: ParsingState::RestrictionRight, restriction: RestrictionView { right_scope: RestrictionScope::Form, ..s5.restriction }, ..s5 };
    assert(step(s5, e5) == Ok::<ParserView, ErrorView>(s6));
    let s7 = ParserView { restriction: RestrictionView { right_grammeme: Some(m.the_grammeme()), ..s6.restriction }, ..s6 };
    assert(step(s6, e6) == Ok::<ParserView, ErrorView>(s7));
    let s8 = s7.at(ParsingState::Restriction);
    assert(step(s7, e7) == Ok::<ParserView, ErrorView>(s8));
    let s9 = ParserView { state: ParsingState::Restrictions, dict: DictView { restrictions: seq![m.the_restriction()], ..s8.dict }, restriction: RestrictionView::empty(), ..s8 };
    assert(step(s8, e8) == Ok::<ParserView, ErrorView>(s9));
    let s10 = s9.at(ParsingState::Dictionary);
    assert(step(s9, e9) == Ok::<ParserView, ErrorView>(s10));
    lemma_advance_then(s9, e9, t10);
    lemma_advance_then(s8, e8, t9);
    lemma_advance_then(s7, e7, t8);
    lemma_advance_then(s6, e6, t7);
    lemma_advance_then(s5, e5, t6);
    lemma_advance_then(s4, e4, t5);
    lemma_advance_then(s3, e3, t4);
    lemma_advance_then(s2, e2, t3);
    lemma_advance_then(s1, e1, t2);
    lemma_advance_then(s0, e0, t1);
    assert(s10 == ParserView {
            dict: DictView { restrictions: seq![m.the_restriction()], ..p.dict },
            restriction: RestrictionView::empty(),
            ..p
        });
}

/// The lemmata section leaves the two lexemes in the dictionary and in the index.
pub proof fn lemma_minimal_lemmata(m: Minimal, p: ParserView)
    requires
        m.well_formed(),
        p.state == ParsingState::Dictionary,
        p.grammemes_by_name.contains_key(m.the_grammeme().name),
        p.grammemes_by_name[m.the_grammeme().name] == m.the_grammeme(),
    ensures
        advance(p, m.lemmata()) == Ok::<ParserView, ErrorView>(
            ParserView {
                dict: DictView { lemmata: seq![m.first_lemma(), m.second_lemma()], ..p.dict },
                lemmata_by_id: p.lemmata_by_id.insert(m.first_lemma().id, m.first_lemma()).insert(
                    m.second_lemma().id,
                    m.second_lemma(),
                ),
                lemma: LemmaView::empty(),
                form: FormView::empty(),
                ..p
            },
        ),
        no_eof(m.lemmata()),
{
    lemma_element_names();
    lemma_attr_names();
    reveal_with_fuel(apply_attributes, 3);
    assert(Seq::<GrammemeView>::empty().push(m.the_grammeme()) =~= seq![m.the_grammeme()]);
    assert(Seq::<FormView>::empty().push(
        FormView { word: utf8_text(m.word)->0, grammemes: Seq::empty() },
    ) =~= seq![FormView { word: utf8_text(m.word)->0, grammemes: Seq::empty() }]);
    assert(Seq::<LemmaView>::empty().push(m.first_lemma()) =~= seq![m.first_lemma()]);
    assert(seq![m.first_lemma()].push(m.second_lemma()) =~= seq![
        m.first_lemma(),
        m.second_lemma(),
    ]);
    assert(seq![attribute("id"@, m.first)][0] == attribute("id"@, m.first));
    assert(seq![attribute("id"@, m.second)][0] == attribute("id"@, m.second));
    assert(seq![attribute("t"@, m.word)][0] == attribute("t"@, m.word));
    assert(seq![attribute("v"@, m.reference)][0] == attribute("v"@, m.reference));
    let e0 = opening("lemmata"@, Seq::empty());
    let e1 = opening("lemma"@, seq![attribute("id"@, m.first)]);
    let e2 = opening("l"@, seq![attribute("t"@, m.word)]);
    let e3 = single("g"@, seq![attribute("v"@, m.reference)]);
    let e4 = closing("l"@);
    let e5 = opening("f"@, seq![attribute("t"@, m.word)]);
    let e6 = closing("f"@);
    let e7 = closing("lemma"@);
    let e8 = opening("lemma"@, seq![attribute("id"@, m.second)]);
    let e9 = closing("lemma"@);
    let e10 = closing("lemmata"@);
    let t11 = Seq::<XmlEventView>::empty();
    let t10 = then(e10, t11);
    let t9 = then(e9, t10);
    let t8 = then(e8, t9);
    let t7 = then(e7, t8);
    let t6 = then(e6, t7);
    let t5 = then(e5, t6);
    let t4 = then(e4, t5);
    let t3 = then(e3, t4);
    let t2 = then(e2, t3);
    let t1 = then(e1, t2);
    let t0 = then(e0, t1);
    assert(t0 == m.lemmata());
    let s0 = p;
    let s1 = ParserView { state: ParsingState::Lemmata, dict: DictView { lemmata: Seq::empty(), ..s0.dict }, ..s0 };
    assert(step(s0, e0) == Ok::<ParserView, ErrorView>(s1));
    let s2 = ParserView { state: ParsingState::Lemma, lemma: LemmaView { id: m.first_lemma().id, ..LemmaView::empty() }, ..s1 };
    assert(step(s1, e1) == Ok::<ParserView, ErrorView>(s2));
    let s3 = ParserView { state: ParsingState::LemmaL, lemma: LemmaView { word: utf8_text(m.word)->0, grammemes: Seq::empty(), ..s2.lemma }, ..s2 };
    assert(step(s2, e2) == Ok::<ParserView, ErrorView>(s3));
    let s4 = ParserView { lemma: LemmaView { grammemes: seq![m.the_grammeme()], ..s3.lemma }, ..s3 };
    assert(step(s3, e3) == Ok::<ParserView, ErrorView>(s4));
    let s5 = s4.at(ParsingState::Lemma);
    assert(step(s4, e4) == Ok::<ParserView, ErrorView>(s5));
    let s6 = ParserView { state: ParsingState::LemmaF, form: FormView { word: utf8_text(m.word)->0, grammemes: Seq::empty() }, ..s5 };
    assert(step(s5, e5) == Ok::<ParserView, ErrorView>(s6));
    let s7 = ParserView { state: ParsingState::Lemma, lemma: m.first_lemma(), form: FormView::empty(), ..s6 };
    assert(step(s6, e6) == Ok::<ParserView, ErrorView>(s7));
    let s8 = ParserView { state: ParsingState::Lemmata, dict: DictView { lemmata: seq![m.first_lemma()], ..s7.dict }, lemmata_by_id: p.lemmata_by_id.insert(m.first_lemma().id, m.first_lemma()), lemma: LemmaView::empty(), ..s7 };
    assert(step(s7, e7) == Ok::<ParserView, ErrorView>(s8));
    let s9 = ParserView { state: ParsingState::Lemma, lemma: m.second_lemma(), ..s8 };
    assert(step(s8, e8) == Ok::<ParserView, ErrorView>(s9));
    let s10 = ParserView { state: ParsingState::Lemmata, dict: DictView { lemmata: seq![m.first_lemma(), m.second_lemma()], ..s9.dict }, lemmata_by_id: p.lemmata_by_id.insert(m.first_lemma().id, m.first_lemma()).insert(m.second_lemma().id, m.second_lemma()), lemma: LemmaView::empty(), ..s9 };
    assert(step(s9, e9) == Ok::<ParserView, ErrorView>(s10));
    let s11 = s10.at(ParsingState::Dictionary);
    assert(step(s10, e10) == Ok::<ParserView, ErrorView>(s11));
    lemma_advance_then(s10, e10, t11);
    lemma_advance_then(s9, e9, t10);
    lemma_advance_then(s8, e8, t9);
    lemma_advance_then(s7, e7, t8);
    lemma_advance_then(s6, e6, t7);
    lemma_advance_then(s5, e5, t6);
    lemma_advance_then(s4, e4, t5);
    lemma_advance_then(s3, e3, t4);
    lemma_advance_then(s2, e2, t3);
    lemma_advance_then(s1, e1, t2);
    lemma_advance_then(s0, e0, t1);
    assert(s11 == ParserView {
            dict: DictView { lemmata: seq![m.first_lemma(), m.second_lemma()], ..p.dict },
            lemmata_by_id: p.lemmata_by_id.insert(m.first_lemma().id, m.first_lemma()).insert(
                m.second_lemma().id,
                m.second_lemma(),
            ),
            lemma: LemmaView::empty(),
            form: FormView::empty(),
            ..p
        });
}

/// The link types section leaves the one kind in the dictionary.
pub proof fn lemma_minimal_link_types(m: Minimal, p: ParserView)
    requires
        m.well_formed(),
        p.state == ParsingState::Dictionary,
    ensures
        advance(p, m.link_types()) == Ok::<ParserView, ErrorView>(
            ParserView {
                dict: DictView { link_kinds: seq![m.the_kind()], ..p.dict },
                link_kind: LinkKindView::empty(),
                ..p
            },
        ),
        no_eof(m.link_types()),
{
    lemma_element_names();
    lemma_attr_names();
    reveal_with_fuel(apply_attributes, 3);
    assert(Seq::<LinkKindView>::empty().push(m.the_kind()) =~= seq![m.the_kind()]);
    assert(seq![attribute("id"@, m.kind)][0] == attribute("id"@, m.kind));
    let e0 = opening("link_types"@, Seq::empty());
    let e1 = opening("type"@, seq![attribute("id"@, m.kind)]);
    let e2 = XmlEventView::Text(m.kind_name);
    let e3 = closing("type"@);
    let e4 = closing("link_types"@);
    let t5 = Seq::<XmlEventView>::empty();
    let t4 = then(e4, t5);
    let t3 = then(e3, t4);
    let t2 = then(e2, t3);
    let t1 = then(e1, t2);
    let t0 = then(e0, t1);
    assert(t0 == m.link_types());
    let s0 = p;
    let s1 = ParserView { state: ParsingState::LinkTypes, dict: DictView { link_kinds: Seq::empty(), ..s0.dict }, ..s0 };
    assert(step(s0, e0) == Ok::<ParserView, ErrorView>(s1));
    let s2 = ParserView { state: ParsingState::LinkType, link_kind: LinkKindView { id: m.the_kind().id, ..LinkKindView::empty() }, ..s1 };
    assert(step(s1, e1) == Ok::<ParserView, ErrorView>(s2));
    let s3 = ParserView { link_kind: m.the_kind(), ..s2 };
    assert(step(s2, e2) == Ok::<ParserView, ErrorView>(s3));
    let s4 = ParserView { state: ParsingState::LinkTypes, dict: DictView { link_kinds: seq![m.the_kind()], ..s3.dict }, link_kind: LinkKindView::empty(), ..s3 };
    assert(step(s3, e3) == Ok::<ParserView, ErrorView>(s4));
    let s5 = s4.at(ParsingState::Dictionary);
    assert(step(s4, e4) == Ok::<ParserView, ErrorView>(s5));
    lemma_advance_then(s4, e4, t5);
    lemma_advance_then(s3, e3, t4);
    lemma_advance_then(s2, e2, t3);
    lemma_advance_then(s1, e1, t2);
    lemma_advance_then(s0, e0, t1);
    assert(s5 == ParserView {
            dict: DictView { link_kinds: seq![m.the_kind()], ..p.dict },
            link_kind: LinkKindView::empty(),
            ..p
        });
}

/// The attributes of a tag are applied from the first on.
pub proof fn lemma_attributes_first(
    target: AttrTarget,
    p: ParserView,
    items: Seq<AttrItemView>,
    a: AttributeView,
)
    requires
        items.len() > 0,
        items[0] == AttrItemView::Pair(a),
    ensures
        apply_attributes(target, p, items) == match apply_attribute(target, p, a) {
            Err(e) => Err(e),
            Ok(q) => apply_attributes(target, q, items.drop_first()),
        },
{
}

/// The links section leaves the one link in the dictionary, from the
/// first lexeme to the second and of the declared kind.
pub proof fn lemma_minimal_links(m: Minimal, p: ParserView)
    requires
        m.well_formed(),
        p.state == ParsingState::Dictionary,
        p.lemmata_by_id.contains_key(m.first_lemma().id),
        p.lemmata_by_id[m.first_lemma().id] == m.first_lemma(),
        p.lemmata_by_id.contains_key(m.second_lemma().id),
        p.lemmata_by_id[m.second_lemma().id] == m.second_lemma(),
        p.dict.link_kinds == seq![m.the_kind()],
    ensures
        advance(p, m.links()) == Ok::<ParserView, ErrorView>(
            ParserView {
                dict: DictView { links: seq![m.the_link()], ..p.dict },
                link: LinkView::empty(),
                ..p
            },
        ),
        no_eof(m.links()),
{
    lemma_element_names();
    lemma_attr_names();
    let items = seq![
        attribute("id"@, m.link),
        attribute("from"@, m.first),
        attribute("to"@, m.second),
        attribute("type"@, m.kind),
    ];
    let e0 = opening("links"@, Seq::empty());
    let e1 = single("link"@, items);
    let e2 = closing("links"@);
    let t3 = Seq::<XmlEventView>::empty();
    let t2 = then(e2, t3);
    let t1 = then(e1, t2);
    let t0 = then(e0, t1);
    assert(t0 == m.links());
    let s0 = p;
    let s1 = ParserView {
        state: ParsingState::Links,
        dict: DictView { links: Seq::empty(), ..s0.dict },
        ..s0
    };
    assert(step(s0, e0) == Ok::<ParserView, ErrorView>(s1));

    let q0 = ParserView { link: LinkView::empty(), ..s1 };
    let q1 = ParserView { link: LinkView { id: m.the_link().id, ..q0.link }, ..q0 };
    let q2 = ParserView { link: LinkView { from: m.first_lemma(), ..q1.link }, ..q1 };
    let q3 = ParserView { link: LinkView { to: m.second_lemma(), ..q2.link }, ..q2 };
    let q4 = ParserView { link: m.the_link(), ..q3 };
    let a0 = AttributeView { key: ascii("id"@), value: m.link };
    let a1 = AttributeView { key: ascii("from"@), value: m.first };
    let a2 = AttributeView { key: ascii("to"@), value: m.second };
    let a3 = AttributeView { key: ascii("type"@), value: m.kind };
    let i1 = items.drop_first();
    let i2 = i1.drop_first();
    let i3 = i2.drop_first();
    let i4 = i3.drop_first();
    assert(items[0] == AttrItemView::Pair(a0));
    assert(i1[0] == AttrItemView::Pair(a1));
    assert(i2[0] == AttrItemView::Pair(a2));
    assert(i3[0] == AttrItemView::Pair(a3));
    assert(i4.len() == 0);
    assert(seq![m.the_kind()].last() == m.the_kind());
    assert(kind_with_id(seq![m.the_kind()], m.the_kind().id, LinkKindView::empty())
        == m.the_kind());
    assert(apply_attribute(AttrTarget::Link, q0, a0) == Ok::<ParserView, ErrorView>(q1));
    assert(apply_attribute(AttrTarget::Link, q1, a1) == Ok::<ParserView, ErrorView>(q2));
    assert(apply_attribute(AttrTarget::Link, q2, a2) == Ok::<ParserView, ErrorView>(q3));
    assert(apply_attribute(AttrTarget::Link, q3, a3) == Ok::<ParserView, ErrorView>(q4));
    lemma_attributes_first(AttrTarget::Link, q3, i3, a3);
    lemma_attributes_first(AttrTarget::Link, q2, i2, a2);
    lemma_attributes_first(AttrTarget::Link, q1, i1, a1);
    lemma_attributes_first(AttrTarget::Link, q0, items, a0);
    assert(apply_attributes(AttrTarget::Link, q0, items) == Ok::<ParserView, ErrorView>(q4));

    assert(Seq::<LinkView>::empty().push(m.the_link()) =~= seq![m.the_link()]);
    let s2 = ParserView {
        dict: DictView { links: seq![m.the_link()], ..s1.dict },
        link: LinkView::empty(),
        ..s1
    };
    assert(step(s1, e1) == Ok::<ParserView, ErrorView>(s2));
    let s3 = s2.at(ParsingState::Dictionary);
    assert(step(s2, e2) == Ok::<ParserView, ErrorView>(s3));
    lemma_advance_then(s2, e2, t3);
    lemma_advance_then(s1, e1, t2);
    lemma_advance_then(s0, e0, t1);
    assert(s3 == ParserView {
        dict: DictView { links: seq![m.the_link()], ..p.dict },
        link: LinkView::empty(),
        ..p
    });
}

/// A well-formed minimal document parses, and to exactly the dictionary
/// that it describes: one grammeme, one restriction with the grammeme on
/// both sides, two lexemes of which the first has one form, one link kind
/// and one link between the lexemes.
pub proof fn lemma_minimal_document(m: Minimal)
    requires
        m.well_formed(),
    ensures
        parse(m.document()) == Ok::<DictView, ErrorView>(m.dictionary()),
        m.dictionary().grammemes.len() == 1,
        m.dictionary().restrictions.len() == 1,
        m.dictionary().lemmata.len() == 2,
        m.dictionary().lemmata[0].forms.len() == 1,
        m.dictionary().lemmata[1].forms.len() == 0,
        m.dictionary().link_kinds.len() == 1,
        m.dictionary().links.len() == 1,
{
    lemma_element_names();
    let start = ParserView::initial();
    let open_root = opening("dictionary"@, Seq::empty());
    let close_root = closing("dictionary"@);
    let nothing = Seq::<XmlEventView>::empty();
    let head = then(open_root, nothing);
    let tail = then(close_root, nothing);

    let s1 = start.at(ParsingState::Dictionary);
    assert(step(start, open_root) == Ok::<ParserView, ErrorView>(s1));
    lemma_advance_then(start, open_root, nothing);

    lemma_minimal_grammemes(m, s1);
    let s2 = advance(s1, m.grammemes())->Ok_0;
    lemma_minimal_restrictions(m, s2);
    let s3 = advance(s2, m.restrictions())->Ok_0;
    lemma_minimal_lemmata(m, s3);
    let s4 = advance(s3, m.lemmata())->Ok_0;
    lemma_minimal_link_types(m, s4);
    let s5 = advance(s4, m.link_types())->Ok_0;
    lemma_minimal_links(m, s5);
    let s6 = advance(s5, m.links())->Ok_0;
    let s7 = s6.at(ParsingState::End);
    assert(step(s6, close_root) == Ok::<ParserView, ErrorView>(s7));
    lemma_advance_then(s6, close_root, nothing);

    let d1 = head + m.grammemes();
    let d2 = d1 + m.restrictions();
    let d3 = d2 + m.lemmata();
    let d4 = d3 + m.link_types();
    let d5 = d4 + m.links();
    let d6 = d5 + tail;
    assert(d6 == m.document());
    lemma_advance_append(start, head, m.grammemes());
    lemma_advance_append(start, d1, m.restrictions());
    lemma_advance_append(start, d2, m.lemmata());
    lemma_advance_append(start, d3, m.link_types());
    lemma_advance_append(start, d4, m.links());
    lemma_advance_append(start, d5, tail);
    assert(advance(start, d6) == Ok::<ParserView, ErrorView>(s7));
    lemma_run_append(start, d6, nothing);
    assert(d6 + nothing =~= d6);
    assert(s7.dict == m.dictionary());
}

} // verus!
