use opencorpora::{
    get_restriction_scope, AttrError, AttrItem, Attribute, Dict, DictError, Parser, ParsingState,
    RestrictionKind, RestrictionScope, Tag, XmlEvent,
};

fn attr(key: &str, value: &str) -> AttrItem {
    AttrItem::Pair(Attribute { key: key.as_bytes().to_vec(), value: value.as_bytes().to_vec() })
}

fn tag(name: &str, attributes: Vec<AttrItem>) -> Tag {
    Tag { name: name.as_bytes().to_vec(), attributes }
}

fn start(name: &str, attributes: Vec<AttrItem>) -> XmlEvent {
    XmlEvent::Start(tag(name, attributes))
}

fn empty(name: &str, attributes: Vec<AttrItem>) -> XmlEvent {
    XmlEvent::Empty(tag(name, attributes))
}

fn end(name: &str) -> XmlEvent {
    XmlEvent::End(name.as_bytes().to_vec())
}

fn text(s: &str) -> XmlEvent {
    XmlEvent::Text(s.as_bytes().to_vec())
}

fn feed_all(events: &[XmlEvent]) -> Result<Parser, DictError> {
    let mut parser = Parser::new();
    for e in events {
        parser = parser.feed(e)?;
    }
    Ok(parser)
}

fn message(r: Result<Parser, DictError>) -> String {
    match r {
        Err(DictError::Parsing(m)) => m,
        Err(e) => panic!("another error: {:?}", e),
        Ok(_) => panic!("the events were accepted"),
    }
}

fn minimal() -> Vec<XmlEvent> {
    vec![
        start("dictionary", vec![]),
        start("grammemes", vec![]),
        start("grammeme", vec![]),
        start("name", vec![]),
        text("NOUN"),
        end("name"),
        end("grammeme"),
        end("grammemes"),
        start("restrictions", vec![]),
        start("restr", vec![]),
        start("left", vec![attr("type", "lemma")]),
        text("NOUN"),
        end("left"),
        start("right", vec![attr("type", "form")]),
        text("NOUN"),
        end("right"),
        end("restr"),
        end("restrictions"),
        start("lemmata", vec![]),
        start("lemma", vec![attr("id", "3")]),
        start("l", vec![attr("t", "word")]),
        empty("g", vec![attr("v", "NOUN")]),
        end("l"),
        start("f", vec![attr("t", "word")]),
        end("f"),
        end("lemma"),
        start("lemma", vec![attr("id", "4")]),
        end("lemma"),
        end("lemmata"),
        start("link_types", vec![]),
        start("type", vec![attr("id", "8")]),
        text("kind"),
        end("type"),
        end("link_types"),
        start("links", vec![]),
        empty(
            "link",
            vec![attr("id", "1"), attr("from", "3"), attr("to", "4"), attr("type", "8")],
        ),
        end("links"),
        end("dictionary"),
    ]
}

#[test]
fn minimal_document_from_events() {
    let dict = Dict::from_events(&minimal()).unwrap();
    assert_eq!(dict.version, "");
    assert_eq!(dict.revision, 0);
    assert_eq!(dict.grammemes.len(), 1);
    assert_eq!(dict.grammemes[0].name, "NOUN");
    assert_eq!(dict.grammemes[0].parent, None);
    assert_eq!(dict.restrictions.len(), 1);
    assert_eq!(dict.restrictions[0].kind, RestrictionKind::Maybe);
    assert_eq!(dict.restrictions[0].auto, 0);
    assert_eq!(dict.restrictions[0].left_scope, RestrictionScope::Lemma);
    assert_eq!(dict.restrictions[0].right_scope, RestrictionScope::Form);
    assert_eq!(dict.restrictions[0].left_grammeme.as_ref().unwrap().name, "NOUN");
    assert_eq!(dict.restrictions[0].right_grammeme.as_ref().unwrap().name, "NOUN");
    assert_eq!(dict.lemmata.len(), 2);
    assert_eq!(dict.lemmata[0].id, 3);
    assert_eq!(dict.lemmata[0].word, "word");
    assert_eq!(dict.lemmata[0].grammemes.len(), 1);
    assert_eq!(dict.lemmata[0].forms.len(), 1);
    assert_eq!(dict.lemmata[0].forms[0].word, "word");
    assert_eq!(dict.lemmata[0].forms[0].grammemes.len(), 0);
    assert_eq!(dict.lemmata[1].id, 4);
    assert_eq!(dict.lemmata[1].forms.len(), 0);
    assert_eq!(dict.link_kinds.len(), 1);
    assert_eq!((dict.link_kinds[0].id, dict.link_kinds[0].name.as_str()), (8, "kind"));
    assert_eq!(dict.links.len(), 1);
    let link = &dict.links[0];
    assert_eq!((link.id, link.from.id, link.to.id, link.kind.id), (1, 3, 4, 8));
}

#[test]
fn states_follow_the_document() {
    let expected = [
        ParsingState::Dictionary,
        ParsingState::Grammemes,
        ParsingState::Grammeme,
        ParsingState::GrammemeName,
        ParsingState::GrammemeName,
        ParsingState::Grammeme,
        ParsingState::Grammemes,
        ParsingState::Dictionary,
        ParsingState::Restrictions,
        ParsingState::Restriction,
        ParsingState::RestrictionLeft,
        ParsingState::RestrictionLeft,
        ParsingState::Restriction,
        ParsingState::RestrictionRight,
        ParsingState::RestrictionRight,
        ParsingState::Restriction,
        ParsingState::Restrictions,
        ParsingState::Dictionary,
        ParsingState::Lemmata,
        ParsingState::Lemma,
        ParsingState::LemmaL,
        ParsingState::LemmaL,
        ParsingState::Lemma,
        ParsingState::LemmaF,
        ParsingState::Lemma,
        ParsingState::Lemmata,
        ParsingState::Lemma,
        ParsingState::Lemmata,
        ParsingState::Dictionary,
        ParsingState::LinkTypes,
        ParsingState::LinkType,
        ParsingState::LinkType,
        ParsingState::LinkTypes,
        ParsingState::Dictionary,
        ParsingState::Links,
        ParsingState::Links,
        ParsingState::Dictionary,
        ParsingState::End,
    ];
    let events = minimal();
    assert_eq!(events.len(), expected.len());
    let mut parser = Parser::new();
    assert_eq!(parser.state(), ParsingState::Start);
    for (event, state) in events.iter().zip(expected.iter()) {
        parser = parser.feed(event).unwrap();
        assert_eq!(parser.state(), *state);
    }
    assert!(parser.finish().is_ok());
}

#[test]
fn grammeme_texts_go_to_their_fields() {
    let events = vec![
        start("dictionary", vec![]),
        start("grammemes", vec![]),
        start("grammeme", vec![attr("parent", "POST")]),
        start("alias", vec![]),
        text("СУЩ"),
        end("alias"),
        start("description", vec![]),
        text("noun"),
        end("description"),
        start("name", vec![]),
        text("NOUN"),
        end("name"),
        end("grammeme"),
        start("grammeme", vec![attr("parent", "")]),
        end("grammeme"),
        end("grammemes"),
        end("dictionary"),
    ];
    let dict = Dict::from_events(&events).unwrap();
    assert_eq!(dict.grammemes.len(), 2);
    let g = &dict.grammemes[0];
    assert_eq!(g.parent, Some("POST".to_string()));
    assert_eq!((g.name.as_str(), g.alias.as_str(), g.description.as_str()), ("NOUN", "СУЩ", "noun"));
    let g = &dict.grammemes[1];
    assert_eq!(g.parent, None);
    assert_eq!((g.name.as_str(), g.alias.as_str(), g.description.as_str()), ("", "", ""));
}

#[test]
fn later_text_replaces_earlier_text() {
    let events = vec![
        start("dictionary", vec![]),
        start("grammemes", vec![]),
        start("grammeme", vec![]),
        start("name", vec![]),
        text("A"),
        text("B"),
        end("name"),
        end("grammeme"),
        end("grammemes"),
        end("dictionary"),
    ];
    let dict = Dict::from_events(&events).unwrap();
    assert_eq!(dict.grammemes[0].name, "B");
}

#[test]
fn empty_text_event_on_a_side_names_no_grammeme() {
    let events = vec![
        start("dictionary", vec![]),
        start("grammemes", vec![]),
        start("grammeme", vec![]),
        start("name", vec![]),
        text("N"),
        end("name"),
        end("grammeme"),
        end("grammemes"),
        start("restrictions", vec![]),
        start("restr", vec![attr("type", "forbidden"), attr("auto", "5")]),
        start("left", vec![attr("type", "lemma")]),
        text("N"),
        text(""),
        end("left"),
        start("right", vec![attr("type", "form")]),
        text(""),
        end("right"),
        end("restr"),
        end("restrictions"),
        end("dictionary"),
    ];
    let dict = Dict::from_events(&events).unwrap();
    let r = &dict.restrictions[0];
    assert_eq!(r.kind, RestrictionKind::Forbidden);
    assert_eq!(r.auto, 5);
    assert!(r.left_grammeme.is_none());
    assert!(r.right_grammeme.is_none());
}

#[test]
fn undeclared_grammeme_event_is_refused() {
    let prefix = vec![
        start("dictionary", vec![]),
        start("lemmata", vec![]),
        start("lemma", vec![attr("id", "1")]),
        start("l", vec![]),
    ];
    let parser = feed_all(&prefix).unwrap();
    let r = parser.feed(&empty("g", vec![attr("v", "Zzz")]));
    assert_eq!(message(r), "invalid grammeme name: 'Zzz'");

    let prefix = vec![
        start("dictionary", vec![]),
        start("lemmata", vec![]),
        start("lemma", vec![]),
        start("f", vec![]),
    ];
    let parser = feed_all(&prefix).unwrap();
    let r = parser.feed(&empty("g", vec![attr("other", "x"), attr("v", "")]));
    assert_eq!(message(r), "invalid grammeme name: ''");
}

#[test]
fn unknown_kind_event_leaves_the_default_kind() {
    let events = vec![
        start("dictionary", vec![]),
        start("links", vec![]),
        empty("link", vec![attr("type", "5")]),
        end("links"),
        end("dictionary"),
    ];
    let dict = Dict::from_events(&events).unwrap();
    assert_eq!(dict.links.len(), 1);
    assert_eq!(dict.links[0].kind.id, 0);
    assert_eq!(dict.links[0].kind.name, "");
    assert_eq!(dict.links[0].from.id, 0);

    let events = vec![
        start("dictionary", vec![]),
        start("links", vec![]),
        empty("link", vec![attr("to", "5")]),
    ];
    assert_eq!(message(feed_all(&events)), "invalid lemma id: '5'");
}

#[test]
fn first_event_must_open_the_root() {
    let r = Parser::new().feed(&start("lemmata", vec![]));
    assert_eq!(message(r), "unexpected opening tag: 'lemmata'");
    let r = Parser::new().feed(&end("dictionary"));
    assert_eq!(message(r), "unexpected closing tag: 'dictionary'");
    let r = Parser::new().feed(&empty("link", vec![]));
    assert_eq!(message(r), "unexpected single tag: 'link'");
    let parser = Parser::new().feed(&text("anything")).unwrap();
    assert_eq!(parser.state(), ParsingState::Start);
}

#[test]
fn finish_before_the_root_is_closed_fails() {
    let names = [
        (vec![], "Start"),
        (vec![start("dictionary", vec![])], "Dictionary"),
        (vec![start("dictionary", vec![]), start("grammemes", vec![])], "Grammemes"),
        (vec![start("dictionary", vec![]), start("restrictions", vec![])], "Restrictions"),
        (vec![start("dictionary", vec![]), start("lemmata", vec![])], "Lemmata"),
        (vec![start("dictionary", vec![]), start("link_types", vec![])], "LinkTypes"),
        (vec![start("dictionary", vec![]), start("links", vec![])], "Links"),
    ];
    for (events, name) in names {
        let r = feed_all(&events).unwrap().finish();
        match r {
            Err(DictError::Parsing(m)) => {
                assert_eq!(m, format!("invalid state after parsing: {}", name))
            }
            other => panic!("{:?}", other),
        }
        let r = Dict::from_events(&events);
        assert!(matches!(r, Err(DictError::Parsing(_))));
    }
}

#[test]
fn closing_tags_must_fit_the_state() {
    let r = feed_all(&[start("dictionary", vec![]), end("grammemes")]);
    assert_eq!(message(r), "unexpected closing tag: 'grammemes'");
    let r = feed_all(&[start("dictionary", vec![]), start("lemmata", vec![]), end("dictionary")]);
    assert_eq!(message(r), "unexpected closing tag: 'dictionary'");
    let r = feed_all(&[start("dictionary", vec![]), end("dictionary"), end("dictionary")]);
    assert_eq!(message(r), "unexpected closing tag: 'dictionary'");
    let r = feed_all(&[
        start("dictionary", vec![]),
        start("lemmata", vec![]),
        start("lemma", vec![]),
        start("l", vec![]),
        end("f"),
    ]);
    assert_eq!(message(r), "unexpected closing tag: 'f'");
    let r = feed_all(&[start("dictionary", vec![]), end("unknown")]);
    assert_eq!(message(r), "unexpected closing tag: 'unknown'");
}

#[test]
fn malformed_attribute_item_is_an_error_where_attributes_are_read() {
    let bad = AttrItem::Malformed(AttrError::ExpectedQuote(7, b'"'));
    let r = Parser::new().feed(&start("dictionary", vec![attr("version", "1"), bad.clone()]));
    match r {
        Err(DictError::XmlAttr { source }) => {
            assert_eq!(source, AttrError::ExpectedQuote(7, b'"'))
        }
        other => panic!("{:?}", other.map(|_| ())),
    }
    // the sections do not read their attributes
    let parser = feed_all(&[start("dictionary", vec![])]).unwrap();
    for name in ["grammemes", "restrictions", "lemmata", "link_types", "links"] {
        let parser = feed_all(&[start("dictionary", vec![])]).unwrap();
        assert!(parser.feed(&start(name, vec![bad.clone()])).is_ok());
    }
    assert!(parser.feed(&empty("link", vec![bad.clone()])).is_err());
}

#[test]
fn events_after_the_end_of_the_document_are_not_read() {
    let mut events = vec![start("dictionary", vec![]), end("dictionary"), XmlEvent::Eof];
    events.push(start("nonsense", vec![]));
    events.push(XmlEvent::Comment);
    assert!(Dict::from_events(&events).is_ok());
    let parser = feed_all(&[start("dictionary", vec![])]).unwrap();
    let parser = parser.feed(&XmlEvent::Eof).unwrap();
    assert_eq!(parser.state(), ParsingState::Dictionary);
    let parser = parser.feed(&XmlEvent::Decl).unwrap();
    assert_eq!(parser.state(), ParsingState::Dictionary);
}

#[test]
fn unsupported_events_are_refused() {
    assert_eq!(message(Parser::new().feed(&XmlEvent::CData)), "unsupported markup: CDATA section");
    assert_eq!(message(Parser::new().feed(&XmlEvent::Comment)), "unsupported markup: comment");
    assert_eq!(
        message(Parser::new().feed(&XmlEvent::PI)),
        "unsupported markup: processing instruction"
    );
    assert_eq!(
        message(Parser::new().feed(&XmlEvent::DocType)),
        "unsupported markup: document type definition"
    );
}

#[test]
fn restriction_scope_is_the_first_type_attribute() {
    let t = tag("left", vec![attr("a", "b"), attr("type", "form"), attr("type", "lemma")]);
    assert_eq!(get_restriction_scope(&t).unwrap(), RestrictionScope::Form);
    let t = tag("right", vec![attr("type", "lemma")]);
    assert_eq!(get_restriction_scope(&t).unwrap(), RestrictionScope::Lemma);
    let t = tag("left", vec![attr("type", "form"), AttrItem::Malformed(AttrError::ExpectedEq(3))]);
    assert_eq!(get_restriction_scope(&t).unwrap(), RestrictionScope::Form);
    let t = tag("left", vec![AttrItem::Malformed(AttrError::ExpectedEq(3)), attr("type", "form")]);
    assert!(matches!(get_restriction_scope(&t), Err(DictError::XmlAttr { .. })));
    let t = tag("left", vec![]);
    match get_restriction_scope(&t) {
        Err(DictError::Parsing(m)) => assert_eq!(m, "restriction scope isn't found"),
        other => panic!("{:?}", other),
    }
    let t = tag("left", vec![attr("type", "Lemma")]);
    match get_restriction_scope(&t) {
        Err(DictError::Parsing(m)) => assert_eq!(m, "invalid restriction scope: 'Lemma'"),
        other => panic!("{:?}", other),
    }
    let t = Tag {
        name: b"left".to_vec(),
        attributes: vec![AttrItem::Pair(Attribute { key: b"type".to_vec(), value: vec![0xff] })],
    };
    assert!(matches!(get_restriction_scope(&t), Err(DictError::Utf8 { .. })));
}

#[test]
fn events_and_document_give_the_same_dictionary() {
    let xml = "<dictionary><grammemes><grammeme><name>NOUN</name></grammeme></grammemes>\
<restrictions><restr><left type=\"lemma\">NOUN</left><right type=\"form\">NOUN</right></restr>\
</restrictions><lemmata><lemma id=\"3\"><l t=\"word\"><g v=\"NOUN\"/></l><f t=\"word\"></f></lemma>\
<lemma id=\"4\"></lemma></lemmata><link_types><type id=\"8\">kind</type></link_types>\
<links><link id=\"1\" from=\"3\" to=\"4\" type=\"8\"/></links></dictionary>";
    let a = Dict::read_from_xml(xml.as_bytes()).unwrap();
    let b = Dict::from_events(&minimal()).unwrap();
    assert_eq!(format!("{:?}", a), format!("{:?}", b));
}
