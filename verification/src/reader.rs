//! Reading a whole dictionary: from a document held in memory, or from
//! events that another tokenizer has produced.

use crate::dict::{Dict, DictView};
use crate::error::{DictError, ErrorView};
use crate::event::{XmlEvent, XmlEventView};
use crate::model::{finish, parse, run, step, ParserView};
use crate::parser::Parser;
use crate::tokenizer::{
    document_tokens, event_from_raw, next_event, open_reader, pending, TokenView,
};
use vstd::prelude::*;

verus! {

/// What a sequence of tokens makes of the state: the events are taken in
/// order up to the end of the document, and a failure of the tokenizer
/// ends the parse.
pub open spec fn read(p: ParserView, tokens: Seq<TokenView>) -> Result<DictView, ErrorView>
    decreases tokens.len(),
{
    if tokens.len() == 0 {
        finish(p)
    } else {
        match tokens[0] {
            TokenView::Failure => Err(ErrorView::Xml),
            TokenView::Event(event) => if event == XmlEventView::Eof {
                finish(p)
            } else {
                match step(p, event) {
                    Err(e) => Err(e),
                    Ok(q) => read(q, tokens.drop_first()),
                }
            },
        }
    }
}

/// What a parse ends with, by value.
pub open spec fn outcome(r: Result<Dict, DictError>) -> Result<DictView, ErrorView> {
    match r {
        Ok(d) => Ok(d@),
        Err(e) => Err(e@),
    }
}

impl Dict {
    /// Reads a dictionary from an XML document: the document is cut into
    /// tokens by `quick_xml`, and the tokens are parsed in order.
    pub fn read_from_xml(bytes: &[u8]) -> (r: Result<Dict, DictError>)
        ensures
            outcome(r) == read(ParserView::initial(), document_tokens(bytes@)),
    {
        let ghost whole = read(ParserView::initial(), document_tokens(bytes@));
        let mut reader = open_reader(bytes);
        let mut parser = Parser::new();
        loop
            invariant
                read(parser@, pending(reader)) == whole,
                whole == read(ParserView::initial(), document_tokens(bytes@)),
            decreases pending(reader).len(),
        {
            match next_event(&mut reader) {
                Err(e) => {
                    return Err(DictError::Xml { source: e });
                },
                Ok(raw) => {
                    let event = event_from_raw(raw);
                    match event {
                        XmlEvent::Eof => {
                            return parser.finish();
                        },
                        _ => {},
                    }
                    match parser.feed(&event) {
                        Ok(q) => {
                            parser = q;
                        },
                        Err(e) => {
                            return Err(e);
                        },
                    }
                },
            }
        }
    }

    /// Reads a dictionary from the events of a document. Events after the
    /// first end-of-document event are not looked at.
    pub fn from_events(events: &Vec<XmlEvent>) -> (r: Result<Dict, DictError>)
        ensures
            outcome(r) == parse(events.deep_view()),
    {
        let ghost all = events.deep_view();
        let mut parser = Parser::new();
        let mut i: usize = 0;
        assert(all.skip(0) =~= all);
        while i < events.len()
            invariant
                i <= events.len(),
                all == events.deep_view(),
                run(parser@, all.skip(i as int)) == parse(all),
            decreases events.len() - i,
        {
            proof {
                assert(all.skip(i as int)[0] == events[i as int]@);
                assert(all.skip(i as int).drop_first() =~= all.skip(i + 1));
            }
            match &events[i] {
                XmlEvent::Eof => {
                    return parser.finish();
                },
                _ => {},
            }
            match parser.feed(&events[i]) {
                Ok(q) => {
                    parser = q;
                },
                Err(e) => {
                    return Err(e);
                },
            }
            i = i + 1;
        }
        assert(all.skip(i as int).len() == 0);
        parser.finish()
    }
}

} // verus!
