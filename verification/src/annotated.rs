//! The annotated model of an analysis term: the model of `term` with the
//! annotation of every node kept in its place, and shifting and substitution
//! on it.
use vstd::prelude::*;

use crate::literal::{lit_tm, Lit};
use crate::shift::shift_at;
use crate::term::{copied, name_view, AnalysisTerm, Tm};

verus! {

/// A term with names as character sequences, indices as integers and the
/// annotation of each node in its place.
pub enum ATm<T> {
    Lam { erased: bool, name: Option<Seq<char>>, body: Box<ATm<T>>, ann: T },
    Var(int, T),
    App { erased: bool, function: Box<ATm<T>>, argument: Box<ATm<T>>, ann: T },
    Put(Box<ATm<T>>, T),
    Dup { binder: Option<Seq<char>>, expression: Box<ATm<T>>, body: Box<ATm<T>>, ann: T },
    Ref(Seq<char>, T),
    Univ(T),
    Fun {
        erased: bool,
        name: Option<Seq<char>>,
        self_name: Option<Seq<char>>,
        argument_type: Box<ATm<T>>,
        return_type: Box<ATm<T>>,
        ann: T,
    },
    Wrap(Box<ATm<T>>, T),
    Hole(T),
    Ann { checked: bool, term: Box<ATm<T>>, ty: Box<ATm<T>> },
    Lit(Lit),
}

/// The annotated model of an analysis term.
pub open spec fn aview<T>(t: AnalysisTerm<T>) -> ATm<T>
    decreases t,
{
    match t {
        AnalysisTerm::Lambda { erased, name, body, annotation } => ATm::Lam {
            erased,
            name: name_view(name),
            body: Box::new(aview(*body)),
            ann: annotation,
        },
        AnalysisTerm::Variable(i, a) => ATm::Var(i as int, a),
        AnalysisTerm::Application { erased, function, argument, annotation } => ATm::App {
            erased,
            function: Box::new(aview(*function)),
            argument: Box::new(aview(*argument)),
            ann: annotation,
        },
        AnalysisTerm::Put(e, a) => ATm::Put(Box::new(aview(*e)), a),
        AnalysisTerm::Duplication { binder, expression, body, annotation } => ATm::Dup {
            binder: name_view(binder),
            expression: Box::new(aview(*expression)),
            body: Box::new(aview(*body)),
            ann: annotation,
        },
        AnalysisTerm::Reference(r, a) => ATm::Ref(r@, a),
        AnalysisTerm::Universe(a) => ATm::Univ(a),
        AnalysisTerm::Function { erased, name, self_name, argument_type, return_type, annotation } =>
            ATm::Fun {
            erased,
            name: name_view(name),
            self_name: name_view(self_name),
            argument_type: Box::new(aview(*argument_type)),
            return_type: Box::new(aview(*return_type)),
            ann: annotation,
        },
        AnalysisTerm::Wrap(e, a) => ATm::Wrap(Box::new(aview(*e)), a),
        AnalysisTerm::Hole(a) => ATm::Hole(a),
        AnalysisTerm::Annotation { checked, term, ty } => ATm::Ann {
            checked,
            term: Box::new(aview(*term)),
            ty: Box::new(aview(*ty)),
        },
        AnalysisTerm::Compressed(c) => ATm::Lit(c@),
    }
}

/// The model without its annotations.
pub open spec fn strip<T>(t: ATm<T>) -> Tm
    decreases t,
{
    match t {
        ATm::Lam { erased, name, body, .. } => Tm::Lam { erased, name, body: Box::new(strip(*body)) },
        ATm::Var(i, _) => Tm::Var(i),
        ATm::App { erased, function, argument, .. } => Tm::App {
            erased,
            function: Box::new(strip(*function)),
            argument: Box::new(strip(*argument)),
        },
        ATm::Put(e, _) => Tm::Put(Box::new(strip(*e))),
        ATm::Dup { binder, expression, body, .. } => Tm::Dup {
            binder,
            expression: Box::new(strip(*expression)),
            body: Box::new(strip(*body)),
        },
        ATm::Ref(r, _) => Tm::Ref(r),
        ATm::Univ(_) => Tm::Univ,
        ATm::Fun { erased, name, self_name, argument_type, return_type, .. } => Tm::Fun {
            erased,
            name,
            self_name,
            argument_type: Box::new(strip(*argument_type)),
            return_type: Box::new(strip(*return_type)),
        },
        ATm::Wrap(e, _) => Tm::Wrap(Box::new(strip(*e))),
        ATm::Hole(_) => Tm::Hole,
        ATm::Ann { checked, term, ty } => Tm::Ann {
            checked,
            term: Box::new(strip(*term)),
            ty: Box::new(strip(*ty)),
        },
        ATm::Lit(l) => Tm::Lit(l),
    }
}

/// The annotated model forgets into the model.
pub broadcast proof fn lemma_strip_aview<T>(t: AnalysisTerm<T>)
    ensures
        #[trigger] strip(aview(t)) == t@,
    decreases t,
{
    match t {
        AnalysisTerm::Lambda { body, .. } => lemma_strip_aview(*body),
        AnalysisTerm::Application { function, argument, .. } => {
            lemma_strip_aview(*function);
            lemma_strip_aview(*argument);
        },
        AnalysisTerm::Put(e, _) => lemma_strip_aview(*e),
        AnalysisTerm::Duplication { expression, body, .. } => {
            lemma_strip_aview(*expression);
            lemma_strip_aview(*body);
        },
        AnalysisTerm::Function { argument_type, return_type, .. } => {
            lemma_strip_aview(*argument_type);
            lemma_strip_aview(*return_type);
        },
        AnalysisTerm::Wrap(e, _) => lemma_strip_aview(*e),
        AnalysisTerm::Annotation { term, ty, .. } => {
            lemma_strip_aview(*term);
            lemma_strip_aview(*ty);
        },
        _ => {},
    }
}

/// As `shift_tm`, with the annotations kept in place.
pub open spec fn ashift<T>(t: ATm<T>, replaced: int, by: int) -> ATm<T>
    decreases t,
{
    match t {
        ATm::Var(i, a) => if i < replaced {
            ATm::Var(i, a)
        } else {
            ATm::Var(i + by, a)
        },
        ATm::Lam { erased, name, body, ann } => ATm::Lam {
            erased,
            name,
            body: Box::new(ashift(*body, replaced + 1, by)),
            ann,
        },
        ATm::App { erased, function, argument, ann } => ATm::App {
            erased,
            function: Box::new(ashift(*function, replaced, by)),
            argument: Box::new(ashift(*argument, replaced, by)),
            ann,
        },
        ATm::Put(e, a) => ATm::Put(Box::new(ashift(*e, replaced, by)), a),
        ATm::Dup { binder, expression, body, ann } => ATm::Dup {
            binder,
            expression: Box::new(ashift(*expression, replaced, by)),
            body: Box::new(ashift(*body, replaced + 1, by)),
            ann,
        },
        ATm::Wrap(e, a) => ATm::Wrap(Box::new(ashift(*e, replaced, by)), a),
        ATm::Ann { checked, term, ty } => ATm::Ann {
            checked,
            term: Box::new(ashift(*term, replaced, by)),
            ty: Box::new(ashift(*ty, replaced, by)),
        },
        ATm::Fun { erased, name, self_name, argument_type, return_type, ann } => ATm::Fun {
            erased,
            name,
            self_name,
            argument_type: Box::new(ashift(*argument_type, replaced, by)),
            return_type: Box::new(ashift(*return_type, replaced + 2, by)),
            ann,
        },
        _ => t,
    }
}

/// The shift of the whole term, seen in the annotated model, where it stays
/// in the range of machine indices.
pub proof fn lemma_aview_shift<T>(t: AnalysisTerm<T>, replaced: int, by: int)
    requires
        crate::shift::shift_fits(t@, replaced, by),
    ensures
        aview(shift_at(t, replaced, by)) == ashift(aview(t), replaced, by),
    decreases t,
{
    match t {
        AnalysisTerm::Lambda { body, .. } => lemma_aview_shift(*body, replaced + 1, by),
        AnalysisTerm::Application { function, argument, .. } => {
            lemma_aview_shift(*function, replaced, by);
            lemma_aview_shift(*argument, replaced, by);
        },
        AnalysisTerm::Put(e, _) => lemma_aview_shift(*e, replaced, by),
        AnalysisTerm::Duplication { expression, body, .. } => {
            lemma_aview_shift(*expression, replaced, by);
            lemma_aview_shift(*body, replaced + 1, by);
        },
        AnalysisTerm::Function { argument_type, return_type, .. } => {
            lemma_aview_shift(*argument_type, replaced, by);
            lemma_aview_shift(*return_type, replaced + 2, by);
        },
        AnalysisTerm::Wrap(e, _) => lemma_aview_shift(*e, replaced, by),
        AnalysisTerm::Annotation { term, ty, .. } => {
            lemma_aview_shift(*term, replaced, by);
            lemma_aview_shift(*ty, replaced, by);
        },
        _ => {},
    }
}

/// The model `t` with the annotation `z` on every node.
pub open spec fn with_ann<T>(t: Tm, z: T) -> ATm<T>
    decreases t,
{
    match t {
        Tm::Lam { erased, name, body } => ATm::Lam { erased, name, body: Box::new(with_ann(*body, z)), ann: z },
        Tm::Var(i) => ATm::Var(i, z),
        Tm::App { erased, function, argument } => ATm::App {
            erased,
            function: Box::new(with_ann(*function, z)),
            argument: Box::new(with_ann(*argument, z)),
            ann: z,
        },
        Tm::Put(e) => ATm::Put(Box::new(with_ann(*e, z)), z),
        Tm::Dup { binder, expression, body } => ATm::Dup {
            binder,
            expression: Box::new(with_ann(*expression, z)),
            body: Box::new(with_ann(*body, z)),
            ann: z,
        },
        Tm::Ref(r) => ATm::Ref(r, z),
        Tm::Univ => ATm::Univ(z),
        Tm::Fun { erased, name, self_name, argument_type, return_type } => ATm::Fun {
            erased,
            name,
            self_name,
            argument_type: Box::new(with_ann(*argument_type, z)),
            return_type: Box::new(with_ann(*return_type, z)),
            ann: z,
        },
        Tm::Wrap(e) => ATm::Wrap(Box::new(with_ann(*e, z)), z),
        Tm::Hole => ATm::Hole(z),
        Tm::Ann { checked, term, ty } => ATm::Ann {
            checked,
            term: Box::new(with_ann(*term, z)),
            ty: Box::new(with_ann(*ty, z)),
        },
        Tm::Lit(l) => ATm::Lit(l),
    }
}

/// A term whose annotations are all `z` is seen as its model with `z` on
/// every node.
pub proof fn lemma_aview_anns<T>(t: AnalysisTerm<T>, z: T)
    requires
        crate::term::anns_all(t, z),
    ensures
        aview(t) == with_ann(t@, z),
    decreases t,
{
    match t {
        AnalysisTerm::Lambda { body, .. } => lemma_aview_anns(*body, z),
        AnalysisTerm::Application { function, argument, .. } => {
            lemma_aview_anns(*function, z);
            lemma_aview_anns(*argument, z);
        },
        AnalysisTerm::Put(e, _) => lemma_aview_anns(*e, z),
        AnalysisTerm::Duplication { expression, body, .. } => {
            lemma_aview_anns(*expression, z);
            lemma_aview_anns(*body, z);
        },
        AnalysisTerm::Function { argument_type, return_type, .. } => {
            lemma_aview_anns(*argument_type, z);
            lemma_aview_anns(*return_type, z);
        },
        AnalysisTerm::Wrap(e, _) => lemma_aview_anns(*e, z),
        AnalysisTerm::Annotation { term, ty, .. } => {
            lemma_aview_anns(*term, z);
            lemma_aview_anns(*ty, z);
        },
        _ => {},
    }
}

/// Cloning gives back an equal annotation.
pub open spec fn clone_exact<T: Clone>() -> bool {
    forall|a: T, b: T| #[trigger] cloned(a, b) ==> a == b
}

/// Where cloning is exact, a copy has the annotated model of the original.
pub proof fn lemma_copied_exact<T: Clone>(a: AnalysisTerm<T>, b: AnalysisTerm<T>)
    requires
        copied(a, b),
        a@ == b@,
        clone_exact::<T>(),
    ensures
        aview(a) == aview(b),
    decreases a,
{
    match (a, b) {
        (AnalysisTerm::Lambda { body: x, .. }, AnalysisTerm::Lambda { body: y, .. }) => lemma_copied_exact(*x, *y),
        (
            AnalysisTerm::Application { function: f1, argument: a1, .. },
            AnalysisTerm::Application { function: f2, argument: a2, .. },
        ) => {
            lemma_copied_exact(*f1, *f2);
            lemma_copied_exact(*a1, *a2);
        },
        (AnalysisTerm::Put(x, _), AnalysisTerm::Put(y, _)) => lemma_copied_exact(*x, *y),
        (
            AnalysisTerm::Duplication { expression: x1, body: b1, .. },
            AnalysisTerm::Duplication { expression: x2, body: b2, .. },
        ) => {
            lemma_copied_exact(*x1, *x2);
            lemma_copied_exact(*b1, *b2);
        },
        (
            AnalysisTerm::Function { argument_type: x1, return_type: y1, .. },
            AnalysisTerm::Function { argument_type: x2, return_type: y2, .. },
        ) => {
            lemma_copied_exact(*x1, *x2);
            lemma_copied_exact(*y1, *y2);
        },
        (AnalysisTerm::Wrap(x, _), AnalysisTerm::Wrap(y, _)) => lemma_copied_exact(*x, *y),
        (
            AnalysisTerm::Annotation { term: t1, ty: y1, .. },
            AnalysisTerm::Annotation { term: t2, ty: y2, .. },
        ) => {
            lemma_copied_exact(*t1, *t2);
            lemma_copied_exact(*y1, *y2);
        },
        _ => {},
    }
}

/// As `subst_tm`, with the annotations kept in place; an expanded literal
/// carries `z` on every node.
pub open spec fn asubst<T>(t: ATm<T>, variable: int, s: ATm<T>, shift: bool, z: T) -> ATm<T>
    decreases t,
{
    match t {
        ATm::Var(i, a) => if i == variable {
            s
        } else if i > variable && shift {
            ATm::Var(i - 1, a)
        } else {
            ATm::Var(i, a)
        },
        ATm::Lam { erased, name, body, ann } => ATm::Lam {
            erased,
            name,
            body: Box::new(asubst(*body, variable + 1, ashift(s, 0, 1), shift, z)),
            ann,
        },
        ATm::App { erased, function, argument, ann } => ATm::App {
            erased,
            function: Box::new(asubst(*function, variable, s, shift, z)),
            argument: Box::new(asubst(*argument, variable, s, shift, z)),
            ann,
        },
        ATm::Put(e, a) => ATm::Put(Box::new(asubst(*e, variable, s, shift, z)), a),
        ATm::Dup { binder, expression, body, ann } => ATm::Dup {
            binder,
            expression: Box::new(asubst(*expression, variable, s, shift, z)),
            body: Box::new(asubst(*body, variable + 1, ashift(s, 0, 1), shift, z)),
            ann,
        },
        ATm::Wrap(e, a) => ATm::Wrap(Box::new(asubst(*e, variable, s, shift, z)), a),
        ATm::Ann { checked, term, ty } => ATm::Ann {
            checked,
            term: Box::new(asubst(*term, variable, s, shift, z)),
            ty: Box::new(asubst(*ty, variable, s, shift, z)),
        },
        ATm::Fun { erased, name, self_name, argument_type, return_type, ann } => ATm::Fun {
            erased,
            name,
            self_name,
            argument_type: Box::new(asubst(*argument_type, variable, s, shift, z)),
            return_type: Box::new(asubst(*return_type, variable + 2, ashift(s, 0, 2), shift, z)),
            ann,
        },
        ATm::Lit(l) => with_ann(lit_tm(l), z),
        _ => t,
    }
}

} // verus!
