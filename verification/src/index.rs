//! The indices by which references are resolved while a dictionary is
//! read: grammemes by name, lemmata by id.

use crate::decode::{
    decimal_text, integer_from_bytes, integer_of, quote, quoted, string_from_bytes,
    usize_to_string, utf8_text,
};
use crate::dict::{Grammeme, GrammemeView, Lemma, LemmaView};
use crate::error::{DictError, ErrorView};
use std::collections::HashMap;
use std::rc::Rc;
use vstd::hash_map::StringHashMap;
use vstd::prelude::*;

verus! {

/// Calls `Rc::clone`, which makes another pointer to the same value.
#[verifier::external_body]
pub(crate) fn share<T>(rc: &Rc<T>) -> (r: Rc<T>)
    ensures
        r == *rc,
{
    Rc::clone(rc)
}

/// The grammemes that can be referred to, by name.
pub struct GrammemeIndex {
    map: StringHashMap<Rc<Grammeme>>,
}

impl View for GrammemeIndex {
    type V = Map<Seq<char>, GrammemeView>;

    closed spec fn view(&self) -> Map<Seq<char>, GrammemeView> {
        self.map@.map_values(|g: Rc<Grammeme>| g@)
    }
}

impl GrammemeIndex {
    /// Every grammeme stands under its own name.
    #[verifier::type_invariant]
    spec fn keyed_by_name(&self) -> bool {
        forall|name: Seq<char>| #[trigger]
            self.map@.contains_key(name) ==> self.map@[name].name@ == name
    }

    /// An index that holds no grammeme.
    pub fn new() -> (r: GrammemeIndex)
        ensures
            r@ == Map::<Seq<char>, GrammemeView>::empty(),
    {
        let r = GrammemeIndex { map: StringHashMap::new() };
        assert(r@ =~= Map::<Seq<char>, GrammemeView>::empty());
        r
    }

    /// Puts a grammeme under its name, in place of an earlier grammeme of
    /// that name.
    pub fn insert(&mut self, grammeme: Rc<Grammeme>)
        ensures
            final(self)@ == old(self)@.insert(grammeme.name@, grammeme@),
    {
        proof {
            use_type_invariant(&*self);
        }
        let name = grammeme.name.clone();
        // The map is taken out while it changes, so that the index is
        // never seen with a grammeme under a wrong name.
        let mut map = StringHashMap::new();
        std::mem::swap(&mut self.map, &mut map);
        map.insert(name, grammeme);
        std::mem::swap(&mut self.map, &mut map);
        assert(self@ =~= old(self)@.insert(grammeme.name@, grammeme@));
    }

    /// The grammeme of the given name, if the index holds one.
    pub fn find(&self, name: &str) -> (r: Option<Rc<Grammeme>>)
        ensures
            match r {
                Some(g) => self@.contains_key(name@) && g@ == self@[name@] && g.name@ == name@,
                None => !self@.contains_key(name@),
            },
    {
        proof {
            use_type_invariant(self);
        }
        match self.map.get(name) {
            Some(g) => Some(share(g)),
            None => None,
        }
    }
}

/// What an index of lemmata holds: each lemma by the number it stands
/// under.
pub open spec fn lemma_views(map: Map<usize, Rc<Lemma>>) -> Map<usize, LemmaView> {
    map.map_values(|l: Rc<Lemma>| l@)
}

/// The grammeme that the bytes `name` refer to: they must be UTF-8 and
/// name a grammeme of the index.
pub open spec fn grammeme_named(index: Map<Seq<char>, GrammemeView>, name: Seq<u8>) -> Result<
    GrammemeView,
    ErrorView,
> {
    match utf8_text(name) {
        None => Err(ErrorView::Utf8),
        Some(s) => grammeme_called(index, s),
    }
}

/// The grammeme of the index that is called `name`.
pub open spec fn grammeme_called(index: Map<Seq<char>, GrammemeView>, name: Seq<char>) -> Result<
    GrammemeView,
    ErrorView,
> {
    if index.contains_key(name) {
        Ok(index[name])
    } else {
        Err(ErrorView::Parsing(quoted("invalid grammeme name: '"@, name)))
    }
}

/// The lemma that the bytes `id` refer to: they must denote a non-negative
/// integer under which the index holds a lemma.
pub open spec fn lemma_numbered(index: Map<usize, LemmaView>, id: Seq<u8>) -> Result<
    LemmaView,
    ErrorView,
> {
    match integer_of(id) {
        Err(e) => Err(e),
        Ok(n) => if index.contains_key(n) {
            Ok(index[n])
        } else {
            Err(ErrorView::Parsing(quoted("invalid lemma id: '"@, decimal_text(n as nat))))
        },
    }
}

/// Resolves a grammeme name that is already decoded.
pub fn find_grammeme(index: &GrammemeIndex, name: &str) -> (r: Result<Rc<Grammeme>, DictError>)
    ensures
        match r {
            Ok(g) => grammeme_called(index@, name@) == Ok::<GrammemeView, ErrorView>(g@),
            Err(e) => grammeme_called(index@, name@) == Err::<GrammemeView, ErrorView>(e@),
        },
{
    match index.find(name) {
        Some(g) => Ok(g),
        None => Err(DictError::Parsing(quote("invalid grammeme name: '", name))),
    }
}

/// Resolves a reference to a grammeme by its name.
pub fn get_grammeme(map: &GrammemeIndex, name: &[u8]) -> (r: Result<Rc<Grammeme>, DictError>)
    ensures
        match r {
            Ok(g) => grammeme_named(map@, name@) == Ok::<GrammemeView, ErrorView>(g@),
            Err(e) => grammeme_named(map@, name@) == Err::<GrammemeView, ErrorView>(e@),
        },
{
    match string_from_bytes(name) {
        Ok(s) => find_grammeme(map, s.as_str()),
        Err(e) => Err(DictError::Utf8 { source: e }),
    }
}

/// Resolves a reference to a lemma by its id.
pub fn get_lemma(map: &HashMap<usize, Rc<Lemma>>, id_str: &[u8]) -> (r: Result<
    Rc<Lemma>,
    DictError,
>)
    ensures
        match r {
            Ok(l) => lemma_numbered(lemma_views(map@), id_str@) == Ok::<LemmaView, ErrorView>(l@),
            Err(e) => lemma_numbered(lemma_views(map@), id_str@) == Err::<LemmaView, ErrorView>(
                e@,
            ),
        },
{
    broadcast use vstd::std_specs::hash::group_hash_axioms;

    match integer_from_bytes(id_str) {
        Ok(id) => match map.get(&id) {
            Some(l) => Ok(share(l)),
            None => {
                let text = usize_to_string(id);
                Err(DictError::Parsing(quote("invalid lemma id: '", text.as_str())))
            },
        },
        Err(e) => Err(e),
    }
}

} // verus!
