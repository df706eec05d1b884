use vstd::prelude::*;

use crate::literal::{CompressedTerm, Lit};

verus! {

/// The mathematical model of an analysis term: the term without its
/// annotations, with names as character sequences and indices as integers.
pub enum Tm {
    Lam { erased: bool, name: Option<Seq<char>>, body: Box<Tm> },
    Var(int),
    App { erased: bool, function: Box<Tm>, argument: Box<Tm> },
    Put(Box<Tm>),
    Dup { binder: Option<Seq<char>>, expression: Box<Tm>, body: Box<Tm> },
    Ref(Seq<char>),
    Univ,
    Fun {
        erased: bool,
        name: Option<Seq<char>>,
        self_name: Option<Seq<char>>,
        argument_type: Box<Tm>,
        return_type: Box<Tm>,
    },
    Wrap(Box<Tm>),
    Hole,
    Ann { checked: bool, term: Box<Tm>, ty: Box<Tm> },
    Lit(Lit),
}

/// A term of the core calculus as the analyses see it, annotated with `T`.
#[derive(Debug, PartialEq)]
pub enum AnalysisTerm<T> {
    Lambda { erased: bool, name: Option<String>, body: Box<AnalysisTerm<T>>, annotation: T },
    Variable(usize, T),
    Application {
        erased: bool,
        function: Box<AnalysisTerm<T>>,
        argument: Box<AnalysisTerm<T>>,
        annotation: T,
    },
    Put(Box<AnalysisTerm<T>>, T),
    Duplication {
        binder: Option<String>,
        expression: Box<AnalysisTerm<T>>,
        body: Box<AnalysisTerm<T>>,
        annotation: T,
    },
    Reference(String, T),
    Universe(T),
    Function {
        erased: bool,
        name: Option<String>,
        self_name: Option<String>,
        argument_type: Box<AnalysisTerm<T>>,
        return_type: Box<AnalysisTerm<T>>,
        annotation: T,
    },
    Wrap(Box<AnalysisTerm<T>>, T),
    Hole(T),
    Annotation { checked: bool, term: Box<AnalysisTerm<T>>, ty: Box<AnalysisTerm<T>> },
    Compressed(CompressedTerm),
}

pub open spec fn name_view(n: Option<String>) -> Option<Seq<char>> {
    match n {
        Some(s) => Some(s@),
        None => None,
    }
}

pub open spec fn tm_of<T>(t: AnalysisTerm<T>) -> Tm
    decreases t,
{
    match t {
        AnalysisTerm::Lambda { erased, name, body, .. } => Tm::Lam {
            erased,
            name: name_view(name),
            body: Box::new(tm_of(*body)),
        },
        AnalysisTerm::Variable(i, _) => Tm::Var(i as int),
        AnalysisTerm::Application { erased, function, argument, .. } => Tm::App {
            erased,
            function: Box::new(tm_of(*function)),
            argument: Box::new(tm_of(*argument)),
        },
        AnalysisTerm::Put(t, _) => Tm::Put(Box::new(tm_of(*t))),
        AnalysisTerm::Duplication { binder, expression, body, .. } => Tm::Dup {
            binder: name_view(binder),
            expression: Box::new(tm_of(*expression)),
            body: Box::new(tm_of(*body)),
        },
        AnalysisTerm::Reference(r, _) => Tm::Ref(r@),
        AnalysisTerm::Universe(_) => Tm::Univ,
        AnalysisTerm::Function { erased, name, self_name, argument_type, return_type, .. } =>
            Tm::Fun {
                erased,
                name: name_view(name),
                self_name: name_view(self_name),
                argument_type: Box::new(tm_of(*argument_type)),
                return_type: Box::new(tm_of(*return_type)),
            },
        AnalysisTerm::Wrap(t, _) => Tm::Wrap(Box::new(tm_of(*t))),
        AnalysisTerm::Hole(_) => Tm::Hole,
        AnalysisTerm::Annotation { checked, term, ty } => Tm::Ann {
            checked,
            term: Box::new(tm_of(*term)),
            ty: Box::new(tm_of(*ty)),
        },
        AnalysisTerm::Compressed(c) => Tm::Lit(c@),
    }
}

/// `z` is kept by cloning: every clone of it equals it.
pub open spec fn clone_keeps<T: Clone>(z: T) -> bool {
    forall|x: T| #[trigger] cloned(z, x) ==> x == z
}

/// Every annotation in the term is `z`.
pub open spec fn anns_all<T>(t: AnalysisTerm<T>, z: T) -> bool
    decreases t,
{
    match t {
        AnalysisTerm::Lambda { body, annotation, .. } => annotation == z && anns_all(*body, z),
        AnalysisTerm::Variable(_, a) => a == z,
        AnalysisTerm::Application { function, argument, annotation, .. } => annotation == z
            && anns_all(*function, z) && anns_all(*argument, z),
        AnalysisTerm::Put(e, a) => a == z && anns_all(*e, z),
        AnalysisTerm::Duplication { expression, body, annotation, .. } => annotation == z
            && anns_all(*expression, z) && anns_all(*body, z),
        AnalysisTerm::Reference(_, a) => a == z,
        AnalysisTerm::Universe(a) => a == z,
        AnalysisTerm::Function { argument_type, return_type, annotation, .. } => annotation == z
            && anns_all(*argument_type, z) && anns_all(*return_type, z),
        AnalysisTerm::Wrap(e, a) => a == z && anns_all(*e, z),
        AnalysisTerm::Hole(a) => a == z,
        AnalysisTerm::Annotation { term, ty, .. } => anns_all(*term, z) && anns_all(*ty, z),
        AnalysisTerm::Compressed(_) => true,
    }
}

/// `None` is kept by cloning.
pub proof fn lemma_none_clone_keeps<U: Clone>()
    ensures
        clone_keeps::<Option<U>>(None),
{
    assert forall|x: Option<U>| #[trigger] cloned(None, x) implies x == None::<U> by {
        if vstd::pervasive::strictly_cloned(None::<U>, x) {
            let n = None::<U>;
            assert(call_ensures(<Option<U> as Clone>::clone, (&n,), x));
        }
    }
}

impl<T> View for AnalysisTerm<T> {
    type V = Tm;

    open spec fn view(&self) -> Tm {
        tm_of(*self)
    }
}

/// Puts `filler` in the place of the term in `slot` and returns that term.
pub fn replace_term<T>(slot: &mut AnalysisTerm<T>, filler: AnalysisTerm<T>) -> (res: AnalysisTerm<T>)
    ensures
        res == *old(slot),
        *final(slot) == filler,
{
    let mut filler = filler;
    std::mem::swap(slot, &mut filler);
    filler
}

pub fn clone_name(n: &Option<String>) -> (res: Option<String>)
    ensures
        name_view(res) == name_view(*n),
{
    match n {
        Some(s) => Some(s.clone()),
        None => None,
    }
}

/// `b` is a copy of `a`: the same term, each annotation a clone of the
/// one in its place.
pub open spec fn copied<T: Clone>(a: AnalysisTerm<T>, b: AnalysisTerm<T>) -> bool
    decreases a,
{
    match a {
        AnalysisTerm::Lambda { body, annotation, .. } => match b {
            AnalysisTerm::Lambda { body: b2, annotation: a2, .. } => cloned(annotation, a2)
                && copied(*body, *b2),
            _ => false,
        },
        AnalysisTerm::Variable(_, x) => match b {
            AnalysisTerm::Variable(_, y) => cloned(x, y),
            _ => false,
        },
        AnalysisTerm::Application { function, argument, annotation, .. } => match b {
            AnalysisTerm::Application { function: f2, argument: x2, annotation: a2, .. } => cloned(
                annotation,
                a2,
            ) && copied(*function, *f2) && copied(*argument, *x2),
            _ => false,
        },
        AnalysisTerm::Put(e, x) => match b {
            AnalysisTerm::Put(e2, y) => cloned(x, y) && copied(*e, *e2),
            _ => false,
        },
        AnalysisTerm::Duplication { expression, body, annotation, .. } => match b {
            AnalysisTerm::Duplication { expression: x2, body: b2, annotation: a2, .. } => cloned(
                annotation,
                a2,
            ) && copied(*expression, *x2) && copied(*body, *b2),
            _ => false,
        },
        AnalysisTerm::Reference(_, x) => match b {
            AnalysisTerm::Reference(_, y) => cloned(x, y),
            _ => false,
        },
        AnalysisTerm::Universe(x) => match b {
            AnalysisTerm::Universe(y) => cloned(x, y),
            _ => false,
        },
        AnalysisTerm::Function { argument_type, return_type, annotation, .. } => match b {
            AnalysisTerm::Function {
                argument_type: x2,
                return_type: y2,
                annotation: a2,
                ..
            } => cloned(annotation, a2) && copied(*argument_type, *x2) && copied(
                *return_type,
                *y2,
            ),
            _ => false,
        },
        AnalysisTerm::Wrap(e, x) => match b {
            AnalysisTerm::Wrap(e2, y) => cloned(x, y) && copied(*e, *e2),
            _ => false,
        },
        AnalysisTerm::Hole(x) => match b {
            AnalysisTerm::Hole(y) => cloned(x, y),
            _ => false,
        },
        AnalysisTerm::Annotation { term, ty, .. } => match b {
            AnalysisTerm::Annotation { term: t2, ty: y2, .. } => copied(*term, *t2) && copied(
                *ty,
                *y2,
            ),
            _ => false,
        },
        AnalysisTerm::Compressed(_) => b is Compressed,
    }
}

/// A copy of a term whose annotations are all `z` has only `z` as
/// annotation, where cloning keeps `z`.
pub proof fn lemma_copied_anns<T: Clone>(a: AnalysisTerm<T>, b: AnalysisTerm<T>, z: T)
    requires
        copied(a, b),
        clone_keeps(z),
        anns_all(a, z),
    ensures
        anns_all(b, z),
    decreases a,
{
    match a {
        AnalysisTerm::Lambda { body, annotation, .. } => match b {
            AnalysisTerm::Lambda { body: b2, annotation: a2, .. } => {
                assert(cloned(z, a2));
                lemma_copied_anns(*body, *b2, z);
            },
            _ => {},
        },
        AnalysisTerm::Variable(_, x) => match b {
            AnalysisTerm::Variable(_, y) => assert(cloned(z, y)),
            _ => {},
        },
        AnalysisTerm::Application { function, argument, .. } => match b {
            AnalysisTerm::Application { function: f2, argument: x2, annotation: a2, .. } => {
                assert(cloned(z, a2));
                lemma_copied_anns(*function, *f2, z);
                lemma_copied_anns(*argument, *x2, z);
            },
            _ => {},
        },
        AnalysisTerm::Put(e, _) => match b {
            AnalysisTerm::Put(e2, y) => {
                assert(cloned(z, y));
                lemma_copied_anns(*e, *e2, z);
            },
            _ => {},
        },
        AnalysisTerm::Duplication { expression, body, .. } => match b {
            AnalysisTerm::Duplication { expression: x2, body: b2, annotation: a2, .. } => {
                assert(cloned(z, a2));
                lemma_copied_anns(*expression, *x2, z);
                lemma_copied_anns(*body, *b2, z);
            },
            _ => {},
        },
        AnalysisTerm::Reference(_, _) => match b {
            AnalysisTerm::Reference(_, y) => assert(cloned(z, y)),
            _ => {},
        },
        AnalysisTerm::Universe(_) => match b {
            AnalysisTerm::Universe(y) => assert(cloned(z, y)),
            _ => {},
        },
        AnalysisTerm::Function { argument_type, return_type, .. } => match b {
            AnalysisTerm::Function {
                argument_type: x2,
                return_type: y2,
                annotation: a2,
                ..
            } => {
                assert(cloned(z, a2));
                lemma_copied_anns(*argument_type, *x2, z);
                lemma_copied_anns(*return_type, *y2, z);
            },
            _ => {},
        },
        AnalysisTerm::Wrap(e, _) => match b {
            AnalysisTerm::Wrap(e2, y) => {
                assert(cloned(z, y));
                lemma_copied_anns(*e, *e2, z);
            },
            _ => {},
        },
        AnalysisTerm::Hole(_) => match b {
            AnalysisTerm::Hole(y) => assert(cloned(z, y)),
            _ => {},
        },
        AnalysisTerm::Annotation { term, ty, .. } => match b {
            AnalysisTerm::Annotation { term: t2, ty: y2, .. } => {
                lemma_copied_anns(*term, *t2, z);
                lemma_copied_anns(*ty, *y2, z);
            },
            _ => {},
        },
        AnalysisTerm::Compressed(_) => {},
    }
}

/// Copies an annotation with `T::clone`.
pub(crate) fn clone_annotation<T: Clone>(a: &T) -> (res: T)
    ensures
        cloned(*a, res),
{
    let res = a.clone();
    proof {
        assert(vstd::pervasive::strictly_cloned(*a, res));
        assert(cloned(*a, res));
    }
    res
}

impl<T: Clone> AnalysisTerm<T> {
    /// Copies the term; the copy has the same model. Annotations are copied
    /// with `T::clone`.
    pub fn copy_term(&self) -> (res: Self)
        ensures
            res@ == self@,
            copied(*self, res),
        decreases self,
    {
        match self {
            AnalysisTerm::Lambda { erased, name, body, annotation } => AnalysisTerm::Lambda {
                erased: *erased,
                name: clone_name(name),
                body: Box::new((**body).copy_term()),
                annotation: clone_annotation(annotation),
            },
            AnalysisTerm::Variable(i, a) => AnalysisTerm::Variable(*i, clone_annotation(a)),
            AnalysisTerm::Application { erased, function, argument, annotation } =>
                AnalysisTerm::Application {
                    erased: *erased,
                    function: Box::new((**function).copy_term()),
                    argument: Box::new((**argument).copy_term()),
                    annotation: clone_annotation(annotation),
                },
            AnalysisTerm::Put(t, a) => AnalysisTerm::Put(Box::new((**t).copy_term()), clone_annotation(a)),
            AnalysisTerm::Duplication { binder, expression, body, annotation } =>
                AnalysisTerm::Duplication {
                    binder: clone_name(binder),
                    expression: Box::new((**expression).copy_term()),
                    body: Box::new((**body).copy_term()),
                    annotation: clone_annotation(annotation),
                },
            AnalysisTerm::Reference(r, a) => AnalysisTerm::Reference(r.clone(), clone_annotation(a)),
            AnalysisTerm::Universe(a) => AnalysisTerm::Universe(clone_annotation(a)),
            AnalysisTerm::Function {
                erased,
                name,
                self_name,
                argument_type,
                return_type,
                annotation,
            } => AnalysisTerm::Function {
                erased: *erased,
                name: clone_name(name),
                self_name: clone_name(self_name),
                argument_type: Box::new((**argument_type).copy_term()),
                return_type: Box::new((**return_type).copy_term()),
                annotation: clone_annotation(annotation),
            },
            AnalysisTerm::Wrap(t, a) => AnalysisTerm::Wrap(Box::new((**t).copy_term()), clone_annotation(a)),
            AnalysisTerm::Hole(a) => AnalysisTerm::Hole(clone_annotation(a)),
            AnalysisTerm::Annotation { checked, term, ty } => AnalysisTerm::Annotation {
                checked: *checked,
                term: Box::new((**term).copy_term()),
                ty: Box::new((**ty).copy_term()),
            },
            AnalysisTerm::Compressed(c) => AnalysisTerm::Compressed(c.duplicate()),
        }
    }
}

impl<T: Clone> Clone for AnalysisTerm<T> {
    /// Copies the term; the copy has the same model. Annotations are copied
    /// with `T::clone`.
    fn clone(&self) -> (res: Self)
        ensures
            res@ == self@,
            copied(*self, res),
            forall|z: T| clone_keeps(z) && anns_all(*self, z) ==> #[trigger] anns_all(res, z),
    {
        let res = self.copy_term();
        proof {
            assert forall|z: T| clone_keeps(z) && anns_all(*self, z) implies #[trigger] anns_all(
                res,
                z,
            ) by {
                lemma_copied_anns(*self, res, z);
            }
        }
        res
    }
}

} // verus!
