use std::marker::PhantomData;
use vstd::prelude::*;

use crate::term::{anns_all, AnalysisTerm, Tm};

verus! {

/// A definition handed out by a definition table: borrowed from it or built
/// for the caller.
pub enum DefinitionResult<'a, T> {
    Borrowed(&'a T),
    Owned(T),
}

impl<'a, T> DefinitionResult<'a, T> {
    pub open spec fn spec_as_ref(&self) -> T {
        match self {
            DefinitionResult::Borrowed(a) => **a,
            DefinitionResult::Owned(a) => *a,
        }
    }

    /// The definition, whichever way it is held.
    pub fn as_ref<'b>(&'b self) -> (res: &'b T)
        ensures
            *res == self.spec_as_ref(),
    {
        match self {
            DefinitionResult::Borrowed(a) => a,
            DefinitionResult::Owned(a) => a,
        }
    }
}

/// Named definitions that references resolve to.
///
/// `names` is the finite set of defined names; `lookup` is the model of the
/// definition of a name.
pub trait Definitions<T> {
    spec fn lookup(&self, name: Seq<char>) -> Option<Tm>;

    spec fn names(&self) -> Set<Seq<char>>;

    /// The definition of a name as a whole term, annotations included.
    spec fn entry(&self, name: Seq<char>) -> Option<AnalysisTerm<T>>;

    proof fn lemma_names_finite(&self)
        ensures
            self.names().finite(),
            forall|name: Seq<char>| #[trigger] self.lookup(name) is Some ==> self.names().contains(
                name,
            ),
    ;

    fn get<'a>(&'a self, name: &str) -> (res: Option<DefinitionResult<'a, AnalysisTerm<T>>>)
        ensures
            match res {
                Some(r) => self.lookup(name@) == Some(r.spec_as_ref()@) && self.entry(name@) == Some(
                    r.spec_as_ref(),
                ),
                None => self.lookup(name@) is None,
            },
    ;
}

/// Named definitions with their types.
pub trait TypedDefinitions<T> {
    /// The model of the type and the value of a name.
    spec fn typed_lookup(&self, name: Seq<char>) -> Option<(Tm, Tm)>;

    spec fn typed_names(&self) -> Set<Seq<char>>;

    /// The type and the value of a name as whole terms, annotations included.
    spec fn typed_entry(&self, name: Seq<char>) -> Option<(AnalysisTerm<T>, AnalysisTerm<T>)>;

    proof fn lemma_typed_names_finite(&self)
        ensures
            self.typed_names().finite(),
            forall|name: Seq<char>| #[trigger] self.typed_lookup(name) is Some
                ==> self.typed_names().contains(name),
    ;

    fn get_typed<'a>(&'a self, name: &str) -> (res: Option<
        DefinitionResult<'a, (AnalysisTerm<T>, AnalysisTerm<T>)>,
    >)
        ensures
            match res {
                Some(r) => self.typed_lookup(name@) == Some(
                    (r.spec_as_ref().0@, r.spec_as_ref().1@),
                ) && self.typed_entry(name@) == Some(r.spec_as_ref()),
                None => self.typed_lookup(name@) is None,
            },
    ;
}

/// A name resolves to the value of its typed definition.
impl<T, U: TypedDefinitions<T>> Definitions<T> for U {
    open spec fn lookup(&self, name: Seq<char>) -> Option<Tm> {
        match self.typed_lookup(name) {
            Some(p) => Some(p.1),
            None => None,
        }
    }

    open spec fn names(&self) -> Set<Seq<char>> {
        self.typed_names()
    }

    open spec fn entry(&self, name: Seq<char>) -> Option<AnalysisTerm<T>> {
        match self.typed_entry(name) {
            Some(p) => Some(p.1),
            None => None,
        }
    }

    proof fn lemma_names_finite(&self) {
        self.lemma_typed_names_finite();
    }

    fn get<'a>(&'a self, name: &str) -> (res: Option<DefinitionResult<'a, AnalysisTerm<T>>>) {
        match self.get_typed(name) {
            Some(DefinitionResult::Borrowed(pair)) => Some(DefinitionResult::Borrowed(&pair.1)),
            Some(DefinitionResult::Owned(pair)) => Some(DefinitionResult::Owned(pair.1)),
            None => None,
        }
    }
}

/// Every definition of the table carries only the annotation `z`.
pub open spec fn defs_all<T, D: Definitions<T>>(d: &D, z: T) -> bool {
    forall|name: Seq<char>| #[trigger] d.entry(name) is Some ==> anns_all(d.entry(name).unwrap(), z)
}

/// The empty definition table.
pub struct Empty;

impl<T> TypedDefinitions<T> for Empty {
    open spec fn typed_lookup(&self, name: Seq<char>) -> Option<(Tm, Tm)> {
        None
    }

    open spec fn typed_names(&self) -> Set<Seq<char>> {
        Set::empty()
    }

    open spec fn typed_entry(&self, name: Seq<char>) -> Option<(AnalysisTerm<T>, AnalysisTerm<T>)> {
        None
    }

    proof fn lemma_typed_names_finite(&self) {
    }

    fn get_typed<'a>(&'a self, name: &str) -> (res: Option<
        DefinitionResult<'a, (AnalysisTerm<T>, AnalysisTerm<T>)>,
    >) {
        None
    }
}


/// Presents a typed definition table, whose annotations are `U`, to the
/// core calculus.
pub struct DefAdapter<'a, T, U>(&'a T, PhantomData<U>);

impl<'a, T, U> DefAdapter<'a, T, U> {
    /// The table that is presented.
    pub closed spec fn adapted(&self) -> T {
        *self.0
    }

    pub fn new(definitions: &'a T) -> (res: Self)
        ensures
            res.adapted() == *definitions,
    {
        DefAdapter(definitions, PhantomData)
    }
}

} // verus!
