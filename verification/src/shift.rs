use vstd::prelude::*;

use crate::term::{anns_all, AnalysisTerm, Tm};

verus! {

/// Adds `by` to every variable index that is at least `replaced`, where
/// `replaced` grows by one under each lambda and duplication body and by two
/// under a function's return type.
pub open spec fn shift_tm(t: Tm, replaced: int, by: int) -> Tm
    decreases t,
{
    match t {
        Tm::Var(i) => if i < replaced {
            Tm::Var(i)
        } else {
            Tm::Var(i + by)
        },
        Tm::Lam { erased, name, body } => Tm::Lam {
            erased,
            name,
            body: Box::new(shift_tm(*body, replaced + 1, by)),
        },
        Tm::App { erased, function, argument } => Tm::App {
            erased,
            function: Box::new(shift_tm(*function, replaced, by)),
            argument: Box::new(shift_tm(*argument, replaced, by)),
        },
        Tm::Put(t) => Tm::Put(Box::new(shift_tm(*t, replaced, by))),
        Tm::Dup { binder, expression, body } => Tm::Dup {
            binder,
            expression: Box::new(shift_tm(*expression, replaced, by)),
            body: Box::new(shift_tm(*body, replaced + 1, by)),
        },
        Tm::Wrap(t) => Tm::Wrap(Box::new(shift_tm(*t, replaced, by))),
        Tm::Ann { checked, term, ty } => Tm::Ann {
            checked,
            term: Box::new(shift_tm(*term, replaced, by)),
            ty: Box::new(shift_tm(*ty, replaced, by)),
        },
        Tm::Fun { erased, name, self_name, argument_type, return_type } => Tm::Fun {
            erased,
            name,
            self_name,
            argument_type: Box::new(shift_tm(*argument_type, replaced, by)),
            return_type: Box::new(shift_tm(*return_type, replaced + 2, by)),
        },
        _ => t,
    }
}

/// The shift can be carried out on machine integers: every shifted index stays
/// in `0..=usize::MAX`, and so does the growing threshold.
pub open spec fn shift_fits(t: Tm, replaced: int, by: int) -> bool
    decreases t,
{
    match t {
        Tm::Var(i) => i < replaced || (0 <= i + by <= usize::MAX),
        Tm::Lam { body, .. } => replaced + 1 <= usize::MAX && shift_fits(*body, replaced + 1, by),
        Tm::App { function, argument, .. } => shift_fits(*function, replaced, by) && shift_fits(
            *argument,
            replaced,
            by,
        ),
        Tm::Put(t) => shift_fits(*t, replaced, by),
        Tm::Dup { expression, body, .. } => shift_fits(*expression, replaced, by)
            && replaced + 1 <= usize::MAX && shift_fits(*body, replaced + 1, by),
        Tm::Wrap(t) => shift_fits(*t, replaced, by),
        Tm::Ann { term, ty, .. } => shift_fits(*term, replaced, by) && shift_fits(*ty, replaced, by),
        Tm::Fun { argument_type, return_type, .. } => shift_fits(*argument_type, replaced, by)
            && replaced + 2 <= usize::MAX && shift_fits(*return_type, replaced + 2, by),
        _ => true,
    }
}

/// The shift on the whole term: as `shift_tm`, with every annotation, name
/// and literal left where it was.
pub open spec fn shift_at<T>(t: AnalysisTerm<T>, replaced: int, by: int) -> AnalysisTerm<T>
    decreases t,
{
    match t {
        AnalysisTerm::Variable(i, a) => if i < replaced {
            AnalysisTerm::Variable(i, a)
        } else {
            AnalysisTerm::Variable((i + by) as usize, a)
        },
        AnalysisTerm::Lambda { erased, name, body, annotation } => AnalysisTerm::Lambda {
            erased,
            name,
            body: Box::new(shift_at(*body, replaced + 1, by)),
            annotation,
        },
        AnalysisTerm::Application { erased, function, argument, annotation } =>
            AnalysisTerm::Application {
                erased,
                function: Box::new(shift_at(*function, replaced, by)),
                argument: Box::new(shift_at(*argument, replaced, by)),
                annotation,
            },
        AnalysisTerm::Put(e, a) => AnalysisTerm::Put(Box::new(shift_at(*e, replaced, by)), a),
        AnalysisTerm::Duplication { binder, expression, body, annotation } =>
            AnalysisTerm::Duplication {
                binder,
                expression: Box::new(shift_at(*expression, replaced, by)),
                body: Box::new(shift_at(*body, replaced + 1, by)),
                annotation,
            },
        AnalysisTerm::Wrap(e, a) => AnalysisTerm::Wrap(Box::new(shift_at(*e, replaced, by)), a),
        AnalysisTerm::Annotation { checked, term, ty } => AnalysisTerm::Annotation {
            checked,
            term: Box::new(shift_at(*term, replaced, by)),
            ty: Box::new(shift_at(*ty, replaced, by)),
        },
        AnalysisTerm::Function {
            erased,
            name,
            self_name,
            argument_type,
            return_type,
            annotation,
        } => AnalysisTerm::Function {
            erased,
            name,
            self_name,
            argument_type: Box::new(shift_at(*argument_type, replaced, by)),
            return_type: Box::new(shift_at(*return_type, replaced + 2, by)),
            annotation,
        },
        _ => t,
    }
}

impl<T> AnalysisTerm<T> {
    /// Shifts the free variables from `replaced` on up by one.
    pub fn shift(&mut self, replaced: usize)
        requires
            shift_fits(old(self)@, replaced as int, 1),
        ensures
            final(self)@ == shift_tm(old(self)@, replaced as int, 1),
            *final(self) == shift_at(*old(self), replaced as int, 1),
    {
        self.shift_by(replaced, 1);
    }

    /// Shifts the free variables from `replaced` on by `by`.
    pub fn shift_by(&mut self, replaced: usize, by: isize)
        requires
            by > isize::MIN,
            shift_fits(old(self)@, replaced as int, by as int),
        ensures
            final(self)@ == shift_tm(old(self)@, replaced as int, by as int),
            *final(self) == shift_at(*old(self), replaced as int, by as int),
        decreases *old(self),
    {
        match self {
            AnalysisTerm::Variable(index, _) => {
                if !(*index < replaced) {
                    if by > 0 {
                        *index += by as usize;
                    } else {
                        *index -= (-by) as usize;
                    }
                }
            },
            AnalysisTerm::Lambda { body, .. } => body.shift_by(replaced + 1, by),
            AnalysisTerm::Application { function, argument, .. } => {
                function.shift_by(replaced, by);
                argument.shift_by(replaced, by);
            },
            AnalysisTerm::Put(term, _) => {
                term.shift_by(replaced, by);
            },
            AnalysisTerm::Duplication { expression, body, .. } => {
                expression.shift_by(replaced, by);
                body.shift_by(replaced + 1, by);
            },
            AnalysisTerm::Reference(_, _) | AnalysisTerm::Universe(_) | AnalysisTerm::Hole(_) => {},
            AnalysisTerm::Wrap(term, _) => term.shift_by(replaced, by),
            AnalysisTerm::Annotation { term, ty, .. } => {
                term.shift_by(replaced, by);
                ty.shift_by(replaced, by);
            },
            AnalysisTerm::Function { argument_type, return_type, .. } => {
                argument_type.shift_by(replaced, by);
                return_type.shift_by(replaced + 2, by);
            },
            AnalysisTerm::Compressed(_) => {},
        }
    }

    /// Shifts every free variable by `by`.
    pub fn shift_top_by(&mut self, by: isize)
        requires
            by > isize::MIN,
            shift_fits(old(self)@, 0, by as int),
        ensures
            final(self)@ == shift_tm(old(self)@, 0, by as int),
            *final(self) == shift_at(*old(self), 0, by as int),
    {
        self.shift_by(0, by)
    }

    /// Shifts every free variable up by one.
    pub fn shift_top(&mut self)
        requires
            shift_fits(old(self)@, 0, 1),
        ensures
            final(self)@ == shift_tm(old(self)@, 0, 1),
            *final(self) == shift_at(*old(self), 0, 1),
    {
        self.shift_top_by(1);
    }
}


/// Shifting by zero changes nothing.
pub proof fn lemma_shift_by_zero(t: Tm, replaced: int)
    ensures
        shift_tm(t, replaced, 0) == t,
    decreases t,
{
    match t {
        Tm::Lam { body, .. } => lemma_shift_by_zero(*body, replaced + 1),
        Tm::App { function, argument, .. } => {
            lemma_shift_by_zero(*function, replaced);
            lemma_shift_by_zero(*argument, replaced);
        },
        Tm::Put(e) => lemma_shift_by_zero(*e, replaced),
        Tm::Dup { expression, body, .. } => {
            lemma_shift_by_zero(*expression, replaced);
            lemma_shift_by_zero(*body, replaced + 1);
        },
        Tm::Wrap(e) => lemma_shift_by_zero(*e, replaced),
        Tm::Ann { term, ty, .. } => {
            lemma_shift_by_zero(*term, replaced);
            lemma_shift_by_zero(*ty, replaced);
        },
        Tm::Fun { argument_type, return_type, .. } => {
            lemma_shift_by_zero(*argument_type, replaced);
            lemma_shift_by_zero(*return_type, replaced + 2);
        },
        _ => {},
    }
}

/// Shifting up by `by` and then down by `by` from the same threshold gives
/// back the term.
pub proof fn lemma_shift_back(t: Tm, replaced: int, by: int)
    requires
        by >= 0,
    ensures
        shift_tm(shift_tm(t, replaced, by), replaced, -by) == t,
    decreases t,
{
    match t {
        Tm::Lam { body, .. } => lemma_shift_back(*body, replaced + 1, by),
        Tm::App { function, argument, .. } => {
            lemma_shift_back(*function, replaced, by);
            lemma_shift_back(*argument, replaced, by);
        },
        Tm::Put(e) => lemma_shift_back(*e, replaced, by),
        Tm::Dup { expression, body, .. } => {
            lemma_shift_back(*expression, replaced, by);
            lemma_shift_back(*body, replaced + 1, by);
        },
        Tm::Wrap(e) => lemma_shift_back(*e, replaced, by),
        Tm::Ann { term, ty, .. } => {
            lemma_shift_back(*term, replaced, by);
            lemma_shift_back(*ty, replaced, by);
        },
        Tm::Fun { argument_type, return_type, .. } => {
            lemma_shift_back(*argument_type, replaced, by);
            lemma_shift_back(*return_type, replaced + 2, by);
        },
        _ => {},
    }
}

/// Shifting keeps every annotation.
pub proof fn lemma_shift_at_anns<T>(t: AnalysisTerm<T>, replaced: int, by: int, z: T)
    requires
        anns_all(t, z),
    ensures
        anns_all(shift_at(t, replaced, by), z),
    decreases t,
{
    match t {
        AnalysisTerm::Lambda { body, .. } => lemma_shift_at_anns(*body, replaced + 1, by, z),
        AnalysisTerm::Application { function, argument, .. } => {
            lemma_shift_at_anns(*function, replaced, by, z);
            lemma_shift_at_anns(*argument, replaced, by, z);
        },
        AnalysisTerm::Put(e, _) => lemma_shift_at_anns(*e, replaced, by, z),
        AnalysisTerm::Duplication { expression, body, .. } => {
            lemma_shift_at_anns(*expression, replaced, by, z);
            lemma_shift_at_anns(*body, replaced + 1, by, z);
        },
        AnalysisTerm::Wrap(e, _) => lemma_shift_at_anns(*e, replaced, by, z),
        AnalysisTerm::Annotation { term, ty, .. } => {
            lemma_shift_at_anns(*term, replaced, by, z);
            lemma_shift_at_anns(*ty, replaced, by, z);
        },
        AnalysisTerm::Function { argument_type, return_type, .. } => {
            lemma_shift_at_anns(*argument_type, replaced, by, z);
            lemma_shift_at_anns(*return_type, replaced + 2, by, z);
        },
        _ => {},
    }
}

/// Shifting the whole term up by `by` and then down by `by` from the same
/// threshold gives back the term, annotations and names included, where the
/// upward shift stays in the range of machine indices.
pub proof fn lemma_shift_at_back<T>(t: AnalysisTerm<T>, replaced: int, by: int)
    requires
        by >= 0,
        shift_fits(t@, replaced, by),
    ensures
        shift_at(shift_at(t, replaced, by), replaced, -by) == t,
    decreases t,
{
    match t {
        AnalysisTerm::Variable(i, a) => {
            if i >= replaced {
                assert(((i + by) as usize) + -by == i);
            }
        },
        AnalysisTerm::Lambda { body, .. } => lemma_shift_at_back(*body, replaced + 1, by),
        AnalysisTerm::Application { function, argument, .. } => {
            lemma_shift_at_back(*function, replaced, by);
            lemma_shift_at_back(*argument, replaced, by);
        },
        AnalysisTerm::Put(e, _) => lemma_shift_at_back(*e, replaced, by),
        AnalysisTerm::Duplication { expression, body, .. } => {
            lemma_shift_at_back(*expression, replaced, by);
            lemma_shift_at_back(*body, replaced + 1, by);
        },
        AnalysisTerm::Wrap(e, _) => lemma_shift_at_back(*e, replaced, by),
        AnalysisTerm::Annotation { term, ty, .. } => {
            lemma_shift_at_back(*term, replaced, by);
            lemma_shift_at_back(*ty, replaced, by);
        },
        AnalysisTerm::Function { argument_type, return_type, .. } => {
            lemma_shift_at_back(*argument_type, replaced, by);
            lemma_shift_at_back(*return_type, replaced + 2, by);
        },
        _ => {},
    }
}

} // verus!
