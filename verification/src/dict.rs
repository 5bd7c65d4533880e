//! The data model of the dictionary, and the mathematical view of each type.

use std::rc::Rc;
use vstd::prelude::*;

verus! {

/// A grammatical category, known by its name.
#[derive(Clone, Debug)]
pub struct Grammeme {
    /// Name of the parent grammeme; `None` for a top-level grammeme.
    pub parent: Option<String>,
    /// Name of the grammeme, in Latin letters.
    pub name: String,
    /// Name of the grammeme, in Cyrillic letters.
    pub alias: String,
    /// Description of the grammeme.
    pub description: String,
}

/// What a [`Grammeme`] holds.
pub struct GrammemeView {
    pub parent: Option<Seq<char>>,
    pub name: Seq<char>,
    pub alias: Seq<char>,
    pub description: Seq<char>,
}

impl GrammemeView {
    /// The grammeme with no parent and empty texts.
    pub open spec fn empty() -> GrammemeView {
        GrammemeView {
            parent: None,
            name: Seq::empty(),
            alias: Seq::empty(),
            description: Seq::empty(),
        }
    }
}

impl DeepView for Grammeme {
    type V = GrammemeView;

    open spec fn deep_view(&self) -> GrammemeView {
        GrammemeView {
            parent: self.parent.deep_view(),
            name: self.name@,
            alias: self.alias@,
            description: self.description@,
        }
    }
}

impl View for Grammeme {
    type V = GrammemeView;

    open spec fn view(&self) -> GrammemeView {
        self.deep_view()
    }
}

impl Default for Grammeme {
    fn default() -> (r: Grammeme)
        ensures
            r@ == GrammemeView::empty(),
    {
        Grammeme {
            parent: None,
            name: String::new(),
            alias: String::new(),
            description: String::new(),
        }
    }
}

/// How binding a restriction is.
#[derive(Clone, Copy, Debug, PartialEq, Eq, Structural)]
pub enum RestrictionKind {
    /// The combination may occur.
    Maybe,
    /// The combination must occur.
    Obligatory,
    /// The combination must not occur.
    Forbidden,
}

/// What one side of a restriction applies to.
#[derive(Clone, Copy, Debug, PartialEq, Eq, Structural)]
pub enum RestrictionScope {
    /// The lexeme as a whole.
    Lemma,
    /// One word form of the lexeme.
    Form,
}

/// A rule on the grammemes that may occur together.
#[derive(Clone, Debug)]
pub struct Restriction {
    /// How binding the rule is.
    pub kind: RestrictionKind,
    /// Priority of the rule.
    pub auto: usize,
    /// What the left side applies to.
    pub left_scope: RestrictionScope,
    /// Grammeme on the left side, if any.
    pub left_grammeme: Option<Rc<Grammeme>>,
    /// What the right side applies to.
    pub right_scope: RestrictionScope,
    /// Grammeme on the right side, if any.
    pub right_grammeme: Option<Rc<Grammeme>>,
}

/// What a [`Restriction`] holds.
pub struct RestrictionView {
    pub kind: RestrictionKind,
    pub auto: usize,
    pub left_scope: RestrictionScope,
    pub left_grammeme: Option<GrammemeView>,
    pub right_scope: RestrictionScope,
    pub right_grammeme: Option<GrammemeView>,
}

impl RestrictionView {
    /// The rule of kind `Maybe` and priority 0, whose sides apply to the
    /// lexeme and name no grammeme.
    pub open spec fn empty() -> RestrictionView {
        RestrictionView {
            kind: RestrictionKind::Maybe,
            auto: 0,
            left_scope: RestrictionScope::Lemma,
            left_grammeme: None,
            right_scope: RestrictionScope::Lemma,
            right_grammeme: None,
        }
    }
}

impl DeepView for Restriction {
    type V = RestrictionView;

    open spec fn deep_view(&self) -> RestrictionView {
        RestrictionView {
            kind: self.kind,
            auto: self.auto,
            left_scope: self.left_scope,
            left_grammeme: self.left_grammeme.deep_view(),
            right_scope: self.right_scope,
            right_grammeme: self.right_grammeme.deep_view(),
        }
    }
}

impl View for Restriction {
    type V = RestrictionView;

    open spec fn view(&self) -> RestrictionView {
        self.deep_view()
    }
}

impl Default for Restriction {
    fn default() -> (r: Restriction)
        ensures
            r@ == RestrictionView::empty(),
    {
        Restriction {
            kind: RestrictionKind::Maybe,
            auto: 0,
            left_scope: RestrictionScope::Lemma,
            left_grammeme: None,
            right_scope: RestrictionScope::Lemma,
            right_grammeme: None,
        }
    }
}

/// One word form of a lexeme.
#[derive(Clone, Debug)]
pub struct Form {
    /// The word form as written.
    pub word: String,
    /// Grammemes that describe the word form, in document order.
    pub grammemes: Vec<Rc<Grammeme>>,
}

/// What a [`Form`] holds.
pub struct FormView {
    pub word: Seq<char>,
    pub grammemes: Seq<GrammemeView>,
}

impl FormView {
    /// The form with an empty word and no grammemes.
    pub open spec fn empty() -> FormView {
        FormView { word: Seq::empty(), grammemes: Seq::empty() }
    }
}

impl DeepView for Form {
    type V = FormView;

    open spec fn deep_view(&self) -> FormView {
        FormView { word: self.word@, grammemes: self.grammemes.deep_view() }
    }
}

impl View for Form {
    type V = FormView;

    open spec fn view(&self) -> FormView {
        self.deep_view()
    }
}

impl Default for Form {
    fn default() -> (r: Form)
        ensures
            r@ == FormView::empty(),
    {
        let r = Form { word: String::new(), grammemes: Vec::new() };
        assert(r.grammemes.deep_view() =~= Seq::empty());
        r
    }
}

/// A lexeme: a headword with its grammemes and word forms.
#[derive(Clone, Debug)]
pub struct Lemma {
    /// Number that identifies the lexeme.
    pub id: usize,
    /// Revision number.
    pub revision: usize,
    /// The headword.
    pub word: String,
    /// Grammemes that describe the lexeme, in document order.
    pub grammemes: Vec<Rc<Grammeme>>,
    /// Word forms of the lexeme, in document order.
    pub forms: Vec<Form>,
}

/// What a [`Lemma`] holds.
pub struct LemmaView {
    pub id: usize,
    pub revision: usize,
    pub word: Seq<char>,
    pub grammemes: Seq<GrammemeView>,
    pub forms: Seq<FormView>,
}

impl LemmaView {
    /// The lexeme with id 0, revision 0, an empty headword, no grammemes
    /// and no forms.
    pub open spec fn empty() -> LemmaView {
        LemmaView {
            id: 0,
            revision: 0,
            word: Seq::empty(),
            grammemes: Seq::empty(),
            forms: Seq::empty(),
        }
    }
}

impl DeepView for Lemma {
    type V = LemmaView;

    open spec fn deep_view(&self) -> LemmaView {
        LemmaView {
            id: self.id,
            revision: self.revision,
            word: self.word@,
            grammemes: self.grammemes.deep_view(),
            forms: self.forms.deep_view(),
        }
    }
}

impl View for Lemma {
    type V = LemmaView;

    open spec fn view(&self) -> LemmaView {
        self.deep_view()
    }
}

impl Default for Lemma {
    fn default() -> (r: Lemma)
        ensures
            r@ == LemmaView::empty(),
    {
        let r = Lemma {
            id: 0,
            revision: 0,
            word: String::new(),
            grammemes: Vec::new(),
            forms: Vec::new(),
        };
        assert(r.grammemes.deep_view() =~= Seq::empty());
        assert(r.forms.deep_view() =~= Seq::empty());
        r
    }
}

/// A kind of link between lexemes.
#[derive(Clone, Debug)]
pub struct LinkKind {
    /// Number that identifies the kind; a [`Link`] refers to it.
    pub id: usize,
    /// Name of the kind.
    pub name: String,
}

/// What a [`LinkKind`] holds.
pub struct LinkKindView {
    pub id: usize,
    pub name: Seq<char>,
}

impl LinkKindView {
    /// The kind with id 0 and an empty name.
    pub open spec fn empty() -> LinkKindView {
        LinkKindView { id: 0, name: Seq::empty() }
    }
}

impl DeepView for LinkKind {
    type V = LinkKindView;

    open spec fn deep_view(&self) -> LinkKindView {
        LinkKindView { id: self.id, name: self.name@ }
    }
}

impl View for LinkKind {
    type V = LinkKindView;

    open spec fn view(&self) -> LinkKindView {
        self.deep_view()
    }
}

impl Default for LinkKind {
    fn default() -> (r: LinkKind)
        ensures
            r@ == LinkKindView::empty(),
    {
        LinkKind { id: 0, name: String::new() }
    }
}

/// A link from one lexeme to another.
#[derive(Clone, Debug)]
pub struct Link {
    /// Number that identifies the link.
    pub id: usize,
    /// The lexeme the link starts from.
    pub from: Rc<Lemma>,
    /// The lexeme the link leads to.
    pub to: Rc<Lemma>,
    /// The kind of the link.
    pub kind: Rc<LinkKind>,
}

/// What a [`Link`] holds.
pub struct LinkView {
    pub id: usize,
    pub from: LemmaView,
    pub to: LemmaView,
    pub kind: LinkKindView,
}

impl LinkView {
    /// The link with id 0 between two empty lexemes, of the empty kind.
    pub open spec fn empty() -> LinkView {
        LinkView {
            id: 0,
            from: LemmaView::empty(),
            to: LemmaView::empty(),
            kind: LinkKindView::empty(),
        }
    }
}

impl DeepView for Link {
    type V = LinkView;

    open spec fn deep_view(&self) -> LinkView {
        LinkView { id: self.id, from: self.from@, to: self.to@, kind: self.kind@ }
    }
}

impl View for Link {
    type V = LinkView;

    open spec fn view(&self) -> LinkView {
        self.deep_view()
    }
}

impl Default for Link {
    fn default() -> (r: Link)
        ensures
            r@ == LinkView::empty(),
    {
        Link {
            id: 0,
            from: Rc::new(Lemma::default()),
            to: Rc::new(Lemma::default()),
            kind: Rc::new(LinkKind::default()),
        }
    }
}

/// The whole dictionary.
#[derive(Debug)]
pub struct Dict {
    /// Version of the dictionary.
    pub version: String,
    /// Revision number.
    pub revision: usize,
    /// The grammemes, in document order.
    pub grammemes: Vec<Rc<Grammeme>>,
    /// The restrictions, in document order.
    pub restrictions: Vec<Restriction>,
    /// The lexemes, in document order.
    pub lemmata: Vec<Rc<Lemma>>,
    /// The kinds of links, in document order.
    pub link_kinds: Vec<Rc<LinkKind>>,
    /// The links, in document order.
    pub links: Vec<Link>,
}

/// What a [`Dict`] holds.
pub struct DictView {
    pub version: Seq<char>,
    pub revision: usize,
    pub grammemes: Seq<GrammemeView>,
    pub restrictions: Seq<RestrictionView>,
    pub lemmata: Seq<LemmaView>,
    pub link_kinds: Seq<LinkKindView>,
    pub links: Seq<LinkView>,
}

impl DictView {
    /// The dictionary with an empty version, revision 0 and no entries.
    pub open spec fn empty() -> DictView {
        DictView {
            version: Seq::empty(),
            revision: 0,
            grammemes: Seq::empty(),
            restrictions: Seq::empty(),
            lemmata: Seq::empty(),
            link_kinds: Seq::empty(),
            links: Seq::empty(),
        }
    }
}

impl DeepView for Dict {
    type V = DictView;

    open spec fn deep_view(&self) -> DictView {
        DictView {
            version: self.version@,
            revision: self.revision,
            grammemes: self.grammemes.deep_view(),
            restrictions: self.restrictions.deep_view(),
            lemmata: self.lemmata.deep_view(),
            link_kinds: self.link_kinds.deep_view(),
            links: self.links.deep_view(),
        }
    }
}

impl View for Dict {
    type V = DictView;

    open spec fn view(&self) -> DictView {
        self.deep_view()
    }
}

impl Default for Dict {
    fn default() -> (r: Dict)
        ensures
            r@ == DictView::empty(),
    {
        let r = Dict {
            version: String::new(),
            revision: 0,
            grammemes: Vec::new(),
            restrictions: Vec::new(),
            lemmata: Vec::new(),
            link_kinds: Vec::new(),
            links: Vec::new(),
        };
        assert(r.grammemes.deep_view() =~= Seq::empty());
        assert(r.restrictions.deep_view() =~= Seq::empty());
        assert(r.lemmata.deep_view() =~= Seq::empty());
        assert(r.link_kinds.deep_view() =~= Seq::empty());
        assert(r.links.deep_view() =~= Seq::empty());
        r
    }
}

} // verus!
