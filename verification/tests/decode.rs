use opencorpora::decode::{bytes_eq, quote, usize_to_string};
use opencorpora::escape::text_from_bytes;
use opencorpora::names::{
    attr_name, element, restriction_kind, restriction_scope, AttrName, Element,
};
use opencorpora::{
    get_grammeme, get_lemma, integer_from_bytes, string_from_bytes, Dict, DictError, Form,
    Grammeme, GrammemeIndex, Lemma, Link, LinkKind, Restriction, RestrictionKind,
    RestrictionScope,
};
use std::collections::HashMap;
use std::rc::Rc;

#[test]
fn string_from_bytes_decodes_utf8() {
    assert_eq!(string_from_bytes(b"").unwrap(), "");
    assert_eq!(string_from_bytes(b"NOUN").unwrap(), "NOUN");
    assert_eq!(string_from_bytes("имя существительное".as_bytes()).unwrap(), "имя существительное");
    assert_eq!(string_from_bytes(&[0xf0, 0x9f, 0x90, 0x88]).unwrap(), "🐈");
    assert!(string_from_bytes(&[0xff]).is_err());
    assert!(string_from_bytes(&[b'a', 0xc3]).is_err());
    assert!(string_from_bytes(&[0xed, 0xa0, 0x80]).is_err());
    assert!(string_from_bytes(&[0xc0, 0x80]).is_err());
}

#[test]
fn integer_from_bytes_reads_decimal_digits() {
    assert_eq!(integer_from_bytes(b"0").unwrap(), 0);
    assert_eq!(integer_from_bytes(b"5").unwrap(), 5);
    assert_eq!(integer_from_bytes(b"403268").unwrap(), 403268);
    assert_eq!(integer_from_bytes(b"+42").unwrap(), 42);
    assert_eq!(integer_from_bytes(b"000123").unwrap(), 123);
    let max = usize::MAX.to_string();
    assert_eq!(integer_from_bytes(max.as_bytes()).unwrap(), usize::MAX);
}

#[test]
fn integer_from_bytes_refuses_what_is_no_number() {
    for bad in ["", "+", "-", "-5", "+-5", "++5", "5+", "1 2", " 1", "1\n", "١٢", "1e3", "0x1f"] {
        let r = integer_from_bytes(bad.as_bytes());
        assert!(matches!(r, Err(DictError::ParseIntError { .. })), "{:?}", bad);
    }
    let too_large = format!("{}0", usize::MAX);
    assert!(matches!(
        integer_from_bytes(too_large.as_bytes()),
        Err(DictError::ParseIntError { .. })
    ));
    let next = "18446744073709551616";
    if usize::MAX as u128 == u64::MAX as u128 {
        assert!(matches!(integer_from_bytes(next.as_bytes()), Err(DictError::ParseIntError { .. })));
    }
    assert!(matches!(integer_from_bytes(&[b'1', 0xff]), Err(DictError::Utf8 { .. })));
}

#[test]
fn usize_to_string_writes_decimal_digits() {
    assert_eq!(usize_to_string(0), "0");
    assert_eq!(usize_to_string(7), "7");
    assert_eq!(usize_to_string(10), "10");
    assert_eq!(usize_to_string(1234567890), "1234567890");
    assert_eq!(usize_to_string(usize::MAX), usize::MAX.to_string());
    for n in [0usize, 9, 10, 99, 100, 101, 65535, 4294967295] {
        assert_eq!(integer_from_bytes(usize_to_string(n).as_bytes()).unwrap(), n);
    }
}

#[test]
fn quote_puts_the_text_in_single_quotes() {
    assert_eq!(quote("invalid grammeme name: '", "NOUN"), "invalid grammeme name: 'NOUN'");
    assert_eq!(quote("", ""), "'");
    assert_eq!(quote("x: '", "ё'"), "x: 'ё''");
}

#[test]
fn bytes_eq_compares_contents() {
    assert!(bytes_eq(b"", b""));
    assert!(bytes_eq(b"lemma", b"lemma"));
    assert!(!bytes_eq(b"lemma", b"lemmb"));
    assert!(!bytes_eq(b"lemma", b"lemmata"));
    assert!(!bytes_eq(b"lemmata", b"lemma"));
    assert!(!bytes_eq(b"a", b""));
}

#[test]
fn text_from_bytes_decodes_and_unescapes() {
    assert_eq!(text_from_bytes(b"plain").unwrap(), "plain");
    assert_eq!(text_from_bytes(b"").unwrap(), "");
    assert_eq!(text_from_bytes("ЧР".as_bytes()).unwrap(), "ЧР");
    assert_eq!(text_from_bytes(b"a &lt; b &amp;&amp; c &gt; d").unwrap(), "a < b && c > d");
    assert_eq!(text_from_bytes(b"&#x41;&#66;").unwrap(), "AB");
    assert!(matches!(text_from_bytes(b"&unknown;"), Err(DictError::Xml { .. })));
    assert!(matches!(text_from_bytes(b"a & b"), Err(DictError::Xml { .. })));
    assert!(matches!(text_from_bytes(b"&#0;"), Err(DictError::Xml { .. })));
    assert!(matches!(text_from_bytes(&[0xff, b'&']), Err(DictError::Utf8 { .. })));
}

#[test]
fn element_names_are_case_sensitive() {
    let names: [(&str, Element); 19] = [
        ("dictionary", Element::Dictionary),
        ("grammemes", Element::Grammemes),
        ("grammeme", Element::Grammeme),
        ("name", Element::Name),
        ("alias", Element::Alias),
        ("description", Element::Description),
        ("restrictions", Element::Restrictions),
        ("restr", Element::Restr),
        ("left", Element::Left),
        ("right", Element::Right),
        ("lemmata", Element::Lemmata),
        ("lemma", Element::Lemma),
        ("l", Element::L),
        ("f", Element::F),
        ("g", Element::G),
        ("link_types", Element::LinkTypes),
        ("type", Element::Type),
        ("links", Element::Links),
        ("link", Element::Link),
    ];
    for (name, e) in names {
        assert_eq!(element(name.as_bytes()), e);
        assert_eq!(element(name.to_uppercase().as_bytes()), Element::Other);
        assert_eq!(element(format!("{} ", name).as_bytes()), Element::Other);
    }
    assert_eq!(element(b""), Element::Other);
    assert_eq!(element(b"lemm"), Element::Other);
    assert_eq!(element(b"link-types"), Element::Other);
}

#[test]
fn attribute_keys_are_case_sensitive() {
    let names: [(&str, AttrName); 11] = [
        ("version", AttrName::Version),
        ("revision", AttrName::Revision),
        ("parent", AttrName::Parent),
        ("type", AttrName::Type),
        ("auto", AttrName::Auto),
        ("id", AttrName::Id),
        ("rev", AttrName::Rev),
        ("t", AttrName::T),
        ("v", AttrName::V),
        ("from", AttrName::From),
        ("to", AttrName::To),
    ];
    for (name, a) in names {
        assert_eq!(attr_name(name.as_bytes()), a);
        assert_eq!(attr_name(name.to_uppercase().as_bytes()), AttrName::Other);
    }
    assert_eq!(attr_name(b""), AttrName::Other);
    assert_eq!(attr_name(b"ids"), AttrName::Other);
}

#[test]
fn restriction_words() {
    assert_eq!(restriction_kind(b"maybe"), Some(RestrictionKind::Maybe));
    assert_eq!(restriction_kind(b"obligatory"), Some(RestrictionKind::Obligatory));
    assert_eq!(restriction_kind(b"forbidden"), Some(RestrictionKind::Forbidden));
    assert_eq!(restriction_kind(b"Forbidden"), None);
    assert_eq!(restriction_kind(b""), None);
    assert_eq!(restriction_scope(b"lemma"), Some(RestrictionScope::Lemma));
    assert_eq!(restriction_scope(b"form"), Some(RestrictionScope::Form));
    assert_eq!(restriction_scope(b"forms"), None);
    assert_eq!(restriction_scope(b""), None);
}

fn grammeme(name: &str, alias: &str) -> Rc<Grammeme> {
    Rc::new(Grammeme {
        parent: None,
        name: name.to_string(),
        alias: alias.to_string(),
        description: String::new(),
    })
}

#[test]
fn get_grammeme_resolves_by_exact_name() {
    let mut index = GrammemeIndex::new();
    assert!(index.find("NOUN").is_none());
    index.insert(grammeme("NOUN", "first"));
    index.insert(grammeme("ЧР", "cyrillic"));
    assert_eq!(get_grammeme(&index, b"NOUN").unwrap().alias, "first");
    assert_eq!(get_grammeme(&index, "ЧР".as_bytes()).unwrap().alias, "cyrillic");
    index.insert(grammeme("NOUN", "second"));
    let g = get_grammeme(&index, b"NOUN").unwrap();
    assert_eq!(g.alias, "second");
    assert_eq!(g.name, "NOUN");
    assert!(Rc::ptr_eq(&g, &index.find("NOUN").unwrap()));
    match get_grammeme(&index, b"noun") {
        Err(DictError::Parsing(m)) => assert_eq!(m, "invalid grammeme name: 'noun'"),
        other => panic!("{:?}", other),
    }
    match get_grammeme(&index, b"") {
        Err(DictError::Parsing(m)) => assert_eq!(m, "invalid grammeme name: ''"),
        other => panic!("{:?}", other),
    }
    assert!(matches!(get_grammeme(&index, &[0xff]), Err(DictError::Utf8 { .. })));
}

#[test]
fn get_lemma_resolves_by_id() {
    let mut map: HashMap<usize, Rc<Lemma>> = HashMap::new();
    let mut lemma = Lemma::default();
    lemma.id = 5;
    lemma.word = "кот".to_string();
    map.insert(5, Rc::new(lemma));
    assert_eq!(get_lemma(&map, b"5").unwrap().word, "кот");
    assert_eq!(get_lemma(&map, b"+005").unwrap().id, 5);
    match get_lemma(&map, b"50") {
        Err(DictError::Parsing(m)) => assert_eq!(m, "invalid lemma id: '50'"),
        other => panic!("{:?}", other),
    }
    match get_lemma(&map, b"007") {
        Err(DictError::Parsing(m)) => assert_eq!(m, "invalid lemma id: '7'"),
        other => panic!("{:?}", other),
    }
    assert!(matches!(get_lemma(&map, b"five"), Err(DictError::ParseIntError { .. })));
    assert!(matches!(get_lemma(&map, b""), Err(DictError::ParseIntError { .. })));
    assert!(matches!(get_lemma(&map, &[0x80]), Err(DictError::Utf8 { .. })));
}

#[test]
fn messages_of_errors() {
    let e = DictError::Parsing("unexpected opening tag: 'x'".to_string());
    assert_eq!(e.message(), "XML dictionary parsing error: unexpected opening tag: 'x'");
    let e = DictError::XmlAttr { source: opencorpora::AttrError::ExpectedValue(3) };
    assert_eq!(e.message(), "XML attribute parser error");
    let e = string_from_bytes(&[0xff]).map_err(|source| DictError::Utf8 { source }).unwrap_err();
    assert_eq!(e.message(), "UTF-8 encoding error");
    let e = integer_from_bytes(b"x").unwrap_err();
    assert_eq!(e.message(), "Integer parsing error");
    let e = text_from_bytes(b"&x;").unwrap_err();
    assert_eq!(e.message(), "XML parser error");
}

#[test]
fn defaults_are_empty() {
    let g = Grammeme::default();
    assert_eq!(g.parent, None);
    assert_eq!((g.name.as_str(), g.alias.as_str(), g.description.as_str()), ("", "", ""));
    let r = Restriction::default();
    assert_eq!(r.kind, RestrictionKind::Maybe);
    assert_eq!(r.auto, 0);
    assert_eq!(r.left_scope, RestrictionScope::Lemma);
    assert!(r.left_grammeme.is_none());
    assert_eq!(r.right_scope, RestrictionScope::Lemma);
    assert!(r.right_grammeme.is_none());
    let f = Form::default();
    assert_eq!(f.word, "");
    assert!(f.grammemes.is_empty());
    let l = Lemma::default();
    assert_eq!((l.id, l.revision, l.word.as_str()), (0, 0, ""));
    assert!(l.grammemes.is_empty() && l.forms.is_empty());
    let k = LinkKind::default();
    assert_eq!((k.id, k.name.as_str()), (0, ""));
    let link = Link::default();
    assert_eq!((link.id, link.from.id, link.to.id, link.kind.id), (0, 0, 0, 0));
    let d = Dict::default();
    assert_eq!((d.version.as_str(), d.revision), ("", 0));
    assert!(d.grammemes.is_empty() && d.restrictions.is_empty() && d.lemmata.is_empty());
    assert!(d.link_kinds.is_empty() && d.links.is_empty());
}
