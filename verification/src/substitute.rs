use vstd::prelude::*;

use crate::annotated::{aview, asubst, ashift, clone_exact, lemma_aview_anns, lemma_aview_shift, lemma_copied_exact};
use crate::literal::{
    blank, char_tm, lit_tm, size_tm, vector_tm, word_tm, zero_is, Lit, Zero,
};
use crate::shift::{lemma_shift_at_anns, shift_at, shift_fits, shift_tm};
use crate::term::{anns_all, AnalysisTerm, Tm};

verus! {

/// Replaces variable `variable` by `s`. Under a binder the variable and the
/// replacement are shifted (by one under lambda and duplication bodies, by two
/// under a function's return type). With `shift`, the variables above the
/// replaced one move down by one. A literal becomes its expansion.
pub open spec fn subst_tm(t: Tm, variable: int, s: Tm, shift: bool) -> Tm
    decreases t,
{
    match t {
        Tm::Var(i) => if i == variable {
            s
        } else if i > variable && shift {
            Tm::Var(i - 1)
        } else {
            Tm::Var(i)
        },
        Tm::Lam { erased, name, body } => Tm::Lam {
            erased,
            name,
            body: Box::new(subst_tm(*body, variable + 1, shift_tm(s, 0, 1), shift)),
        },
        Tm::App { erased, function, argument } => Tm::App {
            erased,
            function: Box::new(subst_tm(*function, variable, s, shift)),
            argument: Box::new(subst_tm(*argument, variable, s, shift)),
        },
        Tm::Put(e) => Tm::Put(Box::new(subst_tm(*e, variable, s, shift))),
        Tm::Dup { binder, expression, body } => Tm::Dup {
            binder,
            expression: Box::new(subst_tm(*expression, variable, s, shift)),
            body: Box::new(subst_tm(*body, variable + 1, shift_tm(s, 0, 1), shift)),
        },
        Tm::Wrap(e) => Tm::Wrap(Box::new(subst_tm(*e, variable, s, shift))),
        Tm::Ann { checked, term, ty } => Tm::Ann {
            checked,
            term: Box::new(subst_tm(*term, variable, s, shift)),
            ty: Box::new(subst_tm(*ty, variable, s, shift)),
        },
        Tm::Fun { erased, name, self_name, argument_type, return_type } => Tm::Fun {
            erased,
            name,
            self_name,
            argument_type: Box::new(subst_tm(*argument_type, variable, s, shift)),
            return_type: Box::new(subst_tm(*return_type, variable + 2, shift_tm(s, 0, 2), shift)),
        },
        Tm::Lit(l) => lit_tm(l),
        _ => t,
    }
}

/// The substitution can be carried out on machine integers: the variable and
/// the shifted replacements stay in range.
pub open spec fn subst_fits(t: Tm, variable: int, s: Tm) -> bool
    decreases t,
{
    match t {
        Tm::Lam { body, .. } => variable + 1 <= usize::MAX && shift_fits(s, 0, 1) && subst_fits(
            *body,
            variable + 1,
            shift_tm(s, 0, 1),
        ),
        Tm::App { function, argument, .. } => subst_fits(*function, variable, s) && subst_fits(
            *argument,
            variable,
            s,
        ),
        Tm::Put(e) => subst_fits(*e, variable, s),
        Tm::Dup { expression, body, .. } => subst_fits(*expression, variable, s) && variable + 1
            <= usize::MAX && shift_fits(s, 0, 1) && subst_fits(
            *body,
            variable + 1,
            shift_tm(s, 0, 1),
        ),
        Tm::Wrap(e) => subst_fits(*e, variable, s),
        Tm::Ann { term, ty, .. } => subst_fits(*term, variable, s) && subst_fits(*ty, variable, s),
        Tm::Fun { argument_type, return_type, .. } => subst_fits(*argument_type, variable, s)
            && variable + 2 <= usize::MAX && shift_fits(s, 0, 2) && subst_fits(
            *return_type,
            variable + 2,
            shift_tm(s, 0, 2),
        ),
        _ => true,
    }
}

/// The model of `substitute_function_in`: the shifted self binding replaces
/// variable one, then the argument binding replaces variable zero.
pub open spec fn subst_function_tm(t: Tm, self_binding: Tm, argument: Tm, shift: bool) -> Tm {
    subst_tm(subst_tm(t, 1, shift_tm(self_binding, 0, 1), true), 0, argument, shift)
}

pub open spec fn subst_function_fits(t: Tm, self_binding: Tm, argument: Tm) -> bool {
    &&& shift_fits(self_binding, 0, 1)
    &&& subst_fits(t, 1, shift_tm(self_binding, 0, 1))
    &&& subst_fits(subst_tm(t, 1, shift_tm(self_binding, 0, 1), true), 0, argument)
}

/// What substitution keeps of the whole term: every node but the replaced
/// variables and the expanded literals stays as it was, with its annotation,
/// names and flags; the variables that are not replaced keep their
/// annotation too. What stands in the replaced places is given by `subst_tm`.
pub open spec fn subst_keeps<T>(
    t: AnalysisTerm<T>,
    r: AnalysisTerm<T>,
    variable: int,
    shift: bool,
) -> bool
    decreases t,
{
    match t {
        AnalysisTerm::Variable(i, a) => if i == variable {
            true
        } else if i > variable && shift {
            r == AnalysisTerm::Variable((i - 1) as usize, a)
        } else {
            r == t
        },
        AnalysisTerm::Lambda { erased, name, body, annotation } => match r {
            AnalysisTerm::Lambda { erased: e2, name: n2, body: b2, annotation: a2 } => e2 == erased
                && n2 == name && a2 == annotation && subst_keeps(*body, *b2, variable + 1, shift),
            _ => false,
        },
        AnalysisTerm::Application { erased, function, argument, annotation } => match r {
            AnalysisTerm::Application {
                erased: e2,
                function: f2,
                argument: x2,
                annotation: a2,
            } => e2 == erased && a2 == annotation && subst_keeps(*function, *f2, variable, shift)
                && subst_keeps(*argument, *x2, variable, shift),
            _ => false,
        },
        AnalysisTerm::Put(e, a) => match r {
            AnalysisTerm::Put(e2, a2) => a2 == a && subst_keeps(*e, *e2, variable, shift),
            _ => false,
        },
        AnalysisTerm::Duplication { binder, expression, body, annotation } => match r {
            AnalysisTerm::Duplication {
                binder: n2,
                expression: x2,
                body: b2,
                annotation: a2,
            } => n2 == binder && a2 == annotation && subst_keeps(*expression, *x2, variable, shift)
                && subst_keeps(*body, *b2, variable + 1, shift),
            _ => false,
        },
        AnalysisTerm::Wrap(e, a) => match r {
            AnalysisTerm::Wrap(e2, a2) => a2 == a && subst_keeps(*e, *e2, variable, shift),
            _ => false,
        },
        AnalysisTerm::Annotation { checked, term, ty } => match r {
            AnalysisTerm::Annotation { checked: c2, term: t2, ty: y2 } => c2 == checked
                && subst_keeps(*term, *t2, variable, shift) && subst_keeps(*ty, *y2, variable, shift),
            _ => false,
        },
        AnalysisTerm::Function {
            erased,
            name,
            self_name,
            argument_type,
            return_type,
            annotation,
        } => match r {
            AnalysisTerm::Function {
                erased: e2,
                name: n2,
                self_name: s2,
                argument_type: x2,
                return_type: y2,
                annotation: a2,
            } => e2 == erased && n2 == name && s2 == self_name && a2 == annotation && subst_keeps(
                *argument_type,
                *x2,
                variable,
                shift,
            ) && subst_keeps(*return_type, *y2, variable + 2, shift),
            _ => false,
        },
        AnalysisTerm::Compressed(_) => true,
        _ => r == t,
    }
}

impl<T: Clone + Zero> AnalysisTerm<T> {
    /// Substitutes `term` for variable `variable`.
    #[verifier::rlimit(40)]
    pub fn substitute_in(&mut self, variable: usize, term: &AnalysisTerm<T>, shift: bool)
        requires
            subst_fits(old(self)@, variable as int, term@),
        ensures
            final(self)@ == subst_tm(old(self)@, variable as int, term@, shift),
            subst_keeps(*old(self), *final(self), variable as int, shift),
            forall|z: T| blank(z) && anns_all(*old(self), z) && anns_all(*term, z) ==> #[trigger] anns_all(*final(self), z),
            forall|z: T| clone_exact::<T>() && zero_is(z) ==> #[trigger] asubst(
                aview(*old(self)),
                variable as int,
                aview(*term),
                shift,
                z,
            ) == aview(*final(self)),
        decreases *old(self),
    {
        let ghost start = *self;
        match self {
            AnalysisTerm::Variable(idx, _) => {
                if variable == *idx {
                    let c = term.clone();
                    proof {
                        if clone_exact::<T>() {
                            lemma_copied_exact(*term, c);
                        }
                    }
                    *self = c;
                } else if *idx > variable {
                    if shift {
                        *idx -= 1;
                    }
                }
            },
            AnalysisTerm::Lambda { body, .. } => {
                let ghost ob = **body;
                let ghost t0 = *term;
                let mut term = term.clone();
                let ghost c = term;
                term.shift_top();
                proof {
                    assert forall|z: T| blank(z) && anns_all(t0, z) implies anns_all(term, z) by {
                        lemma_shift_at_anns(c, 0, 1, z);
                    }
                    if clone_exact::<T>() {
                        lemma_copied_exact(t0, c);
                        lemma_aview_shift(c, 0, 1);
                        assert(aview(term) == ashift(aview(t0), 0, 1));
                    }
                }
                body.substitute_in(variable + 1, &term, shift);
                proof {
                    assert forall|z: T| blank(z) && anns_all(ob, z) && anns_all(t0, z) implies anns_all(**body, z) by {
                        assert(anns_all(term, z));
                    }
                }
            },
            AnalysisTerm::Application { function, argument, .. } => {
                function.substitute_in(variable, term, shift);
                argument.substitute_in(variable, term, shift);
            },
            AnalysisTerm::Put(expr, _) => {
                expr.substitute_in(variable, term, shift);
            },
            AnalysisTerm::Duplication { body, expression, .. } => {
                expression.substitute_in(variable, term, shift);
                let ghost ob = **body;
                let ghost t0 = *term;
                let mut term = term.clone();
                let ghost c = term;
                term.shift_top();
                proof {
                    assert forall|z: T| blank(z) && anns_all(t0, z) implies anns_all(term, z) by {
                        lemma_shift_at_anns(c, 0, 1, z);
                    }
                    if clone_exact::<T>() {
                        lemma_copied_exact(t0, c);
                        lemma_aview_shift(c, 0, 1);
                        assert(aview(term) == ashift(aview(t0), 0, 1));
                    }
                }
                body.substitute_in(variable + 1, &term, shift);
                proof {
                    assert forall|z: T| blank(z) && anns_all(ob, z) && anns_all(t0, z) implies anns_all(**body, z) by {
                        assert(anns_all(term, z));
                    }
                }
            },
            AnalysisTerm::Reference(_, _) | AnalysisTerm::Universe(_) | AnalysisTerm::Hole(_) => {},
            AnalysisTerm::Wrap(expr, _) => expr.substitute_in(variable, term, shift),
            AnalysisTerm::Annotation { term: expression, ty, .. } => {
                expression.substitute_in(variable, term, shift);
                ty.substitute_in(variable, term, shift);
            },
            AnalysisTerm::Function { argument_type, return_type, .. } => {
                argument_type.substitute_in(variable, term, shift);
                let ghost ob = **return_type;
                let ghost t0 = *term;
                let mut term = term.clone();
                let ghost c = term;
                term.shift_top_by(2);
                proof {
                    assert forall|z: T| blank(z) && anns_all(t0, z) implies anns_all(term, z) by {
                        lemma_shift_at_anns(c, 0, 2, z);
                    }
                    if clone_exact::<T>() {
                        lemma_copied_exact(t0, c);
                        lemma_aview_shift(c, 0, 2);
                        assert(aview(term) == ashift(aview(t0), 0, 2));
                    }
                }
                return_type.substitute_in(variable + 2, &term, shift);
                proof {
                    assert forall|z: T| blank(z) && anns_all(ob, z) && anns_all(t0, z) implies anns_all(**return_type, z) by {
                        assert(anns_all(term, z));
                    }
                }
            },
            AnalysisTerm::Compressed(data) => {
                // A literal holds no variables: substituting into it leaves
                // its expansion.
                let expanded = data.expand_full();
                proof {
                    assert forall|z: T| clone_exact::<T>() && zero_is(z) implies aview(expanded) == crate::annotated::with_ann(lit_tm(data@), z) by {
                        assert forall|x: T| #[trigger] cloned(z, x) implies x == z by {}
                        assert(blank(z));
                        lemma_aview_anns(expanded, z);
                    }
                }
                *self = expanded;
            },
        }
        proof {
            assert forall|z: T| clone_exact::<T>() && zero_is(z) implies #[trigger] asubst(
                aview(start),
                variable as int,
                aview(*term),
                shift,
                z,
            ) == aview(*self) by {
                match start {
                    AnalysisTerm::Lambda { body, .. } => match *self {
                        AnalysisTerm::Lambda { body: b1, .. } => assert(aview(*b1) == asubst(aview(*body), variable + 1, ashift(aview(*term), 0, 1), shift, z)),
                        _ => {},
                    },
                    AnalysisTerm::Application { function, argument, .. } => match *self {
                        AnalysisTerm::Application { function: f1, argument: a1, .. } => {
                            assert(aview(*f1) == asubst(aview(*function), variable as int, aview(*term), shift, z));
                            assert(aview(*a1) == asubst(aview(*argument), variable as int, aview(*term), shift, z));
                        },
                        _ => {},
                    },
                    AnalysisTerm::Put(e, _) => match *self {
                        AnalysisTerm::Put(e1, _) => assert(aview(*e1) == asubst(aview(*e), variable as int, aview(*term), shift, z)),
                        _ => {},
                    },
                    AnalysisTerm::Duplication { expression, body, .. } => match *self {
                        AnalysisTerm::Duplication { expression: x1, body: b1, .. } => {
                            assert(aview(*x1) == asubst(aview(*expression), variable as int, aview(*term), shift, z));
                            assert(aview(*b1) == asubst(aview(*body), variable + 1, ashift(aview(*term), 0, 1), shift, z));
                        },
                        _ => {},
                    },
                    AnalysisTerm::Wrap(e, _) => match *self {
                        AnalysisTerm::Wrap(e1, _) => assert(aview(*e1) == asubst(aview(*e), variable as int, aview(*term), shift, z)),
                        _ => {},
                    },
                    AnalysisTerm::Annotation { term: e, ty, .. } => match *self {
                        AnalysisTerm::Annotation { term: e1, ty: y1, .. } => {
                            assert(aview(*e1) == asubst(aview(*e), variable as int, aview(*term), shift, z));
                            assert(aview(*y1) == asubst(aview(*ty), variable as int, aview(*term), shift, z));
                        },
                        _ => {},
                    },
                    AnalysisTerm::Function { argument_type, return_type, .. } => match *self {
                        AnalysisTerm::Function { argument_type: x1, return_type: y1, .. } => {
                            assert(aview(*x1) == asubst(aview(*argument_type), variable as int, aview(*term), shift, z));
                            assert(aview(*y1) == asubst(aview(*return_type), variable + 2, ashift(aview(*term), 0, 2), shift, z));
                        },
                        _ => {},
                    },
                    _ => {},
                }
            }
            assert forall|z: T| blank(z) && anns_all(start, z) && anns_all(*term, z) implies #[trigger] anns_all(
                *self,
                z,
            ) by {
                match start {
                    AnalysisTerm::Lambda { body, .. } => {
                        assert(anns_all(*body, z));
                        match *self {
                            AnalysisTerm::Lambda { body: b1, .. } => assert(anns_all(*b1, z)),
                            _ => {},
                        }
                        assert(anns_all(*self, z));
                    },
                    AnalysisTerm::Application { function, argument, .. } => {
                        assert(anns_all(*function, z));
                        assert(anns_all(*argument, z));
                        match *self {
                            AnalysisTerm::Application { function: f1, argument: a1, annotation, .. } => {
                                assert(anns_all(*f1, z));
                                assert(anns_all(*a1, z));
                            },
                            _ => {},
                        }
                        assert(anns_all(*self, z));
                    },
                    AnalysisTerm::Put(e, _) => {
                        assert(anns_all(*e, z));
                        match *self {
                            AnalysisTerm::Put(e1, _) => assert(anns_all(*e1, z)),
                            _ => {},
                        }
                        assert(anns_all(*self, z));
                    },
                    AnalysisTerm::Duplication { expression, body, .. } => {
                        assert(anns_all(*expression, z));
                        assert(anns_all(*body, z));
                        match *self {
                            AnalysisTerm::Duplication { expression: x1, body: b1, .. } => {
                                assert(anns_all(*x1, z));
                                assert(anns_all(*b1, z));
                            },
                            _ => {},
                        }
                        assert(anns_all(*self, z));
                    },
                    AnalysisTerm::Wrap(e, _) => {
                        assert(anns_all(*e, z));
                        match *self {
                            AnalysisTerm::Wrap(e1, _) => assert(anns_all(*e1, z)),
                            _ => {},
                        }
                        assert(anns_all(*self, z));
                    },
                    AnalysisTerm::Annotation { term: e, ty, .. } => {
                        assert(anns_all(*e, z));
                        assert(anns_all(*ty, z));
                        match *self {
                            AnalysisTerm::Annotation { term: e1, ty: y1, .. } => {
                                assert(anns_all(*e1, z));
                                assert(anns_all(*y1, z));
                            },
                            _ => {},
                        }
                        assert(anns_all(*self, z));
                    },
                    AnalysisTerm::Function { argument_type, return_type, .. } => {
                        assert(anns_all(*argument_type, z));
                        assert(anns_all(*return_type, z));
                        match *self {
                            AnalysisTerm::Function { argument_type: x1, return_type: y1, .. } => {
                                assert(anns_all(*x1, z));
                                assert(anns_all(*y1, z));
                            },
                            _ => {},
                        }
                        assert(anns_all(*self, z));
                    },
                    AnalysisTerm::Variable(..) => {
                        assert(anns_all(*self, z));
                    },
                    AnalysisTerm::Compressed(..) => {
                        assert(anns_all(*self, z));
                    },
                    _ => {},
                }
            }
        }
    }

    /// Substitutes `term` for variable zero and moves the other free
    /// variables down by one.
    pub fn substitute_top_in(&mut self, term: &AnalysisTerm<T>)
        requires
            subst_fits(old(self)@, 0, term@),
        ensures
            final(self)@ == subst_tm(old(self)@, 0, term@, true),
            subst_keeps(*old(self), *final(self), 0, true),
            forall|z: T| blank(z) && anns_all(*old(self), z) && anns_all(*term, z) ==> #[trigger] anns_all(*final(self), z),
            forall|z: T| clone_exact::<T>() && zero_is(z) ==> #[trigger] asubst(
                aview(*old(self)),
                0,
                aview(*term),
                true,
                z,
            ) == aview(*final(self)),
            no_literals(old(self)@) && !occurs(old(self)@, 0) ==> *final(self) == shift_at(
                *old(self),
                0,
                -1,
            ),
    {
        let ghost start = *self;
        self.substitute_in(0, term, true);
        proof {
            if no_literals(start@) && !occurs(start@, 0) {
                lemma_keeps_absent(start, *self, 0);
            }
        }
    }

    /// Substitutes `term` for variable zero and leaves the other variables.
    pub fn substitute_top_in_unshifted(&mut self, term: &AnalysisTerm<T>)
        requires
            subst_fits(old(self)@, 0, term@),
        ensures
            final(self)@ == subst_tm(old(self)@, 0, term@, false),
            subst_keeps(*old(self), *final(self), 0, false),
            forall|z: T| blank(z) && anns_all(*old(self), z) && anns_all(*term, z) ==> #[trigger] anns_all(*final(self), z),
            forall|z: T| clone_exact::<T>() && zero_is(z) ==> #[trigger] asubst(
                aview(*old(self)),
                0,
                aview(*term),
                false,
                z,
            ) == aview(*final(self)),
    {
        self.substitute_in(0, term, false)
    }

    /// Substitutes into the return type of a function type: `self_binding`
    /// for the self variable and `argument_binding` for the argument.
    pub fn substitute_function_in(
        &mut self,
        self_binding: AnalysisTerm<T>,
        argument_binding: &AnalysisTerm<T>,
    )
        requires
            subst_function_fits(old(self)@, self_binding@, argument_binding@),
        ensures
            final(self)@ == subst_function_tm(old(self)@, self_binding@, argument_binding@, true),
            exists|mid: AnalysisTerm<T>|
                subst_keeps(*old(self), mid, 1, true) && #[trigger] subst_keeps(
                    mid,
                    *final(self),
                    0,
                    true,
                ),
    {
        let mut self_binding = self_binding;
        self_binding.shift_top();
        self.substitute_in(1, &self_binding, true);
        let ghost mid = *self;
        self.substitute_in(0, argument_binding, true);
        assert(subst_keeps(mid, *self, 0, true));
    }

    /// As `substitute_function_in`, but the argument substitution leaves the
    /// other variables in place.
    pub fn substitute_function_in_unshifted(
        &mut self,
        self_binding: AnalysisTerm<T>,
        argument_binding: &AnalysisTerm<T>,
    )
        requires
            subst_function_fits(old(self)@, self_binding@, argument_binding@),
        ensures
            final(self)@ == subst_function_tm(old(self)@, self_binding@, argument_binding@, false),
            exists|mid: AnalysisTerm<T>|
                subst_keeps(*old(self), mid, 1, true) && #[trigger] subst_keeps(
                    mid,
                    *final(self),
                    0,
                    false,
                ),
    {
        let mut self_binding = self_binding;
        self_binding.shift_top();
        self.substitute_in(1, &self_binding, true);
        let ghost mid = *self;
        self.substitute_in(0, argument_binding, false);
        assert(subst_keeps(mid, *self, 0, false));
    }
}


/// The term holds no literal.
pub open spec fn no_literals(t: Tm) -> bool
    decreases t,
{
    match t {
        Tm::Lam { body, .. } => no_literals(*body),
        Tm::App { function, argument, .. } => no_literals(*function) && no_literals(*argument),
        Tm::Put(e) => no_literals(*e),
        Tm::Dup { expression, body, .. } => no_literals(*expression) && no_literals(*body),
        Tm::Wrap(e) => no_literals(*e),
        Tm::Ann { term, ty, .. } => no_literals(*term) && no_literals(*ty),
        Tm::Fun { argument_type, return_type, .. } => no_literals(*argument_type) && no_literals(
            *return_type,
        ),
        Tm::Lit(_) => false,
        _ => true,
    }
}

/// Substituting for a variable that a term cannot mention, because its
/// variables were shifted past it, and moving the variables above it back
/// down, gives back the term. Literals are left out: substitution expands
/// them.
pub proof fn lemma_substitute_shifted(t: Tm, variable: int, s: Tm)
    requires
        no_literals(t),
    ensures
        subst_tm(shift_tm(t, variable, 1), variable, s, true) == t,
    decreases t,
{
    match t {
        Tm::Lam { body, .. } => lemma_substitute_shifted(*body, variable + 1, shift_tm(s, 0, 1)),
        Tm::App { function, argument, .. } => {
            lemma_substitute_shifted(*function, variable, s);
            lemma_substitute_shifted(*argument, variable, s);
        },
        Tm::Put(e) => lemma_substitute_shifted(*e, variable, s),
        Tm::Dup { expression, body, .. } => {
            lemma_substitute_shifted(*expression, variable, s);
            lemma_substitute_shifted(*body, variable + 1, shift_tm(s, 0, 1));
        },
        Tm::Wrap(e) => lemma_substitute_shifted(*e, variable, s),
        Tm::Ann { term, ty, .. } => {
            lemma_substitute_shifted(*term, variable, s);
            lemma_substitute_shifted(*ty, variable, s);
        },
        Tm::Fun { argument_type, return_type, .. } => {
            lemma_substitute_shifted(*argument_type, variable, s);
            lemma_substitute_shifted(*return_type, variable + 2, shift_tm(s, 0, 2));
        },
        _ => {},
    }
}

/// Variable `variable` occurs free in the term (counting binders as
/// substitution does).
pub open spec fn occurs(t: Tm, variable: int) -> bool
    decreases t,
{
    match t {
        Tm::Var(i) => i == variable,
        Tm::Lam { body, .. } => occurs(*body, variable + 1),
        Tm::App { function, argument, .. } => occurs(*function, variable) || occurs(
            *argument,
            variable,
        ),
        Tm::Put(e) => occurs(*e, variable),
        Tm::Dup { expression, body, .. } => occurs(*expression, variable) || occurs(
            *body,
            variable + 1,
        ),
        Tm::Wrap(e) => occurs(*e, variable),
        Tm::Ann { term, ty, .. } => occurs(*term, variable) || occurs(*ty, variable),
        Tm::Fun { argument_type, return_type, .. } => occurs(*argument_type, variable) || occurs(
            *return_type,
            variable + 2,
        ),
        _ => false,
    }
}

/// Substituting for a variable that does not occur, and moving the variables
/// above it down, is shifting those variables down by one. Literals are left
/// out: substitution expands them.
pub proof fn lemma_substitute_absent(t: Tm, variable: int, s: Tm)
    requires
        no_literals(t),
        !occurs(t, variable),
    ensures
        subst_tm(t, variable, s, true) == shift_tm(t, variable, -1),
    decreases t,
{
    match t {
        Tm::Lam { body, .. } => lemma_substitute_absent(*body, variable + 1, shift_tm(s, 0, 1)),
        Tm::App { function, argument, .. } => {
            lemma_substitute_absent(*function, variable, s);
            lemma_substitute_absent(*argument, variable, s);
        },
        Tm::Put(e) => lemma_substitute_absent(*e, variable, s),
        Tm::Dup { expression, body, .. } => {
            lemma_substitute_absent(*expression, variable, s);
            lemma_substitute_absent(*body, variable + 1, shift_tm(s, 0, 1));
        },
        Tm::Wrap(e) => lemma_substitute_absent(*e, variable, s),
        Tm::Ann { term, ty, .. } => {
            lemma_substitute_absent(*term, variable, s);
            lemma_substitute_absent(*ty, variable, s);
        },
        Tm::Fun { argument_type, return_type, .. } => {
            lemma_substitute_absent(*argument_type, variable, s);
            lemma_substitute_absent(*return_type, variable + 2, shift_tm(s, 0, 2));
        },
        _ => {},
    }
}

/// Shifting keeps a term free of literals.
pub proof fn lemma_shift_no_literals(t: Tm, replaced: int, by: int)
    requires
        no_literals(t),
    ensures
        no_literals(shift_tm(t, replaced, by)),
    decreases t,
{
    match t {
        Tm::Lam { body, .. } => lemma_shift_no_literals(*body, replaced + 1, by),
        Tm::App { function, argument, .. } => {
            lemma_shift_no_literals(*function, replaced, by);
            lemma_shift_no_literals(*argument, replaced, by);
        },
        Tm::Put(e) => lemma_shift_no_literals(*e, replaced, by),
        Tm::Dup { expression, body, .. } => {
            lemma_shift_no_literals(*expression, replaced, by);
            lemma_shift_no_literals(*body, replaced + 1, by);
        },
        Tm::Wrap(e) => lemma_shift_no_literals(*e, replaced, by),
        Tm::Ann { term, ty, .. } => {
            lemma_shift_no_literals(*term, replaced, by);
            lemma_shift_no_literals(*ty, replaced, by);
        },
        Tm::Fun { argument_type, return_type, .. } => {
            lemma_shift_no_literals(*argument_type, replaced, by);
            lemma_shift_no_literals(*return_type, replaced + 2, by);
        },
        _ => {},
    }
}

/// Substituting a term free of literals into one keeps it free of literals.
pub proof fn lemma_subst_no_literals(t: Tm, variable: int, s: Tm, shift: bool)
    requires
        no_literals(t),
        no_literals(s),
    ensures
        no_literals(subst_tm(t, variable, s, shift)),
    decreases t,
{
    match t {
        Tm::Lam { body, .. } => {
            lemma_shift_no_literals(s, 0, 1);
            lemma_subst_no_literals(*body, variable + 1, shift_tm(s, 0, 1), shift);
        },
        Tm::App { function, argument, .. } => {
            lemma_subst_no_literals(*function, variable, s, shift);
            lemma_subst_no_literals(*argument, variable, s, shift);
        },
        Tm::Put(e) => lemma_subst_no_literals(*e, variable, s, shift),
        Tm::Dup { expression, body, .. } => {
            lemma_shift_no_literals(s, 0, 1);
            lemma_subst_no_literals(*expression, variable, s, shift);
            lemma_subst_no_literals(*body, variable + 1, shift_tm(s, 0, 1), shift);
        },
        Tm::Wrap(e) => lemma_subst_no_literals(*e, variable, s, shift),
        Tm::Ann { term, ty, .. } => {
            lemma_subst_no_literals(*term, variable, s, shift);
            lemma_subst_no_literals(*ty, variable, s, shift);
        },
        Tm::Fun { argument_type, return_type, .. } => {
            lemma_shift_no_literals(s, 0, 2);
            lemma_subst_no_literals(*argument_type, variable, s, shift);
            lemma_subst_no_literals(*return_type, variable + 2, shift_tm(s, 0, 2), shift);
        },
        _ => {},
    }
}

/// What substitution keeps of a term in which the variable does not occur is
/// the whole term shifted down past the variable, annotations and names
/// included. Literals are left out: substitution expands them.
pub proof fn lemma_keeps_absent<T>(t: AnalysisTerm<T>, r: AnalysisTerm<T>, variable: int)
    requires
        subst_keeps(t, r, variable, true),
        no_literals(t@),
        !occurs(t@, variable),
    ensures
        r == shift_at(t, variable, -1),
    decreases t,
{
    match t {
        AnalysisTerm::Lambda { body, .. } => match r {
            AnalysisTerm::Lambda { body: b2, .. } => lemma_keeps_absent(*body, *b2, variable + 1),
            _ => {},
        },
        AnalysisTerm::Application { function, argument, .. } => match r {
            AnalysisTerm::Application { function: f2, argument: x2, .. } => {
                lemma_keeps_absent(*function, *f2, variable);
                lemma_keeps_absent(*argument, *x2, variable);
            },
            _ => {},
        },
        AnalysisTerm::Put(e, _) => match r {
            AnalysisTerm::Put(e2, _) => lemma_keeps_absent(*e, *e2, variable),
            _ => {},
        },
        AnalysisTerm::Duplication { expression, body, .. } => match r {
            AnalysisTerm::Duplication { expression: x2, body: b2, .. } => {
                lemma_keeps_absent(*expression, *x2, variable);
                lemma_keeps_absent(*body, *b2, variable + 1);
            },
            _ => {},
        },
        AnalysisTerm::Wrap(e, _) => match r {
            AnalysisTerm::Wrap(e2, _) => lemma_keeps_absent(*e, *e2, variable),
            _ => {},
        },
        AnalysisTerm::Annotation { term, ty, .. } => match r {
            AnalysisTerm::Annotation { term: t2, ty: y2, .. } => {
                lemma_keeps_absent(*term, *t2, variable);
                lemma_keeps_absent(*ty, *y2, variable);
            },
            _ => {},
        },
        AnalysisTerm::Function { argument_type, return_type, .. } => match r {
            AnalysisTerm::Function { argument_type: x2, return_type: y2, .. } => {
                lemma_keeps_absent(*argument_type, *x2, variable);
                lemma_keeps_absent(*return_type, *y2, variable + 2);
            },
            _ => {},
        },
        _ => {},
    }
}

/// Every free variable of the term is below `k`, where the bound `k` grows
/// under binders as substitution counts them (one under a lambda's and a
/// duplication's body, two under a function's return type).
pub open spec fn vars_below(t: Tm, k: int) -> bool
    decreases t,
{
    match t {
        Tm::Var(i) => i < k,
        Tm::Lam { body, .. } => vars_below(*body, k + 1),
        Tm::App { function, argument, .. } => vars_below(*function, k) && vars_below(*argument, k),
        Tm::Put(e) => vars_below(*e, k),
        Tm::Dup { expression, body, .. } => vars_below(*expression, k) && vars_below(*body, k + 1),
        Tm::Wrap(e) => vars_below(*e, k),
        Tm::Ann { term, ty, .. } => vars_below(*term, k) && vars_below(*ty, k),
        Tm::Fun { argument_type, return_type, .. } => vars_below(*argument_type, k) && vars_below(
            *return_type,
            k + 2,
        ),
        _ => true,
    }
}

/// A larger bound holds where a smaller one does.
pub proof fn lemma_vars_below_mono(t: Tm, k: int, l: int)
    requires
        vars_below(t, k),
        k <= l,
    ensures
        vars_below(t, l),
    decreases t,
{
    match t {
        Tm::Lam { body, .. } => lemma_vars_below_mono(*body, k + 1, l + 1),
        Tm::App { function, argument, .. } => {
            lemma_vars_below_mono(*function, k, l);
            lemma_vars_below_mono(*argument, k, l);
        },
        Tm::Put(e) => lemma_vars_below_mono(*e, k, l),
        Tm::Dup { expression, body, .. } => {
            lemma_vars_below_mono(*expression, k, l);
            lemma_vars_below_mono(*body, k + 1, l + 1);
        },
        Tm::Wrap(e) => lemma_vars_below_mono(*e, k, l),
        Tm::Ann { term, ty, .. } => {
            lemma_vars_below_mono(*term, k, l);
            lemma_vars_below_mono(*ty, k, l);
        },
        Tm::Fun { argument_type, return_type, .. } => {
            lemma_vars_below_mono(*argument_type, k, l);
            lemma_vars_below_mono(*return_type, k + 2, l + 2);
        },
        _ => {},
    }
}

/// Shifting up by `by` raises the bound on free variables by `by`.
pub proof fn lemma_shift_vars_below(t: Tm, c: int, by: int, k: int)
    requires
        vars_below(t, k),
        by >= 0,
    ensures
        vars_below(shift_tm(t, c, by), k + by),
    decreases t,
{
    match t {
        Tm::Lam { body, .. } => lemma_shift_vars_below(*body, c + 1, by, k + 1),
        Tm::App { function, argument, .. } => {
            lemma_shift_vars_below(*function, c, by, k);
            lemma_shift_vars_below(*argument, c, by, k);
        },
        Tm::Put(e) => lemma_shift_vars_below(*e, c, by, k),
        Tm::Dup { expression, body, .. } => {
            lemma_shift_vars_below(*expression, c, by, k);
            lemma_shift_vars_below(*body, c + 1, by, k + 1);
        },
        Tm::Wrap(e) => lemma_shift_vars_below(*e, c, by, k),
        Tm::Ann { term, ty, .. } => {
            lemma_shift_vars_below(*term, c, by, k);
            lemma_shift_vars_below(*ty, c, by, k);
        },
        Tm::Fun { argument_type, return_type, .. } => {
            lemma_shift_vars_below(*argument_type, c, by, k);
            lemma_shift_vars_below(*return_type, c + 2, by, k + 2);
        },
        _ => {},
    }
}

proof fn lemma_size_tm_closed(n: nat)
    ensures
        vars_below(size_tm(n), 0),
    decreases n,
{
    reveal_with_fuel(vars_below, 5);
    if n > 0 {
        lemma_size_tm_closed((n - 1) as nat);
    }
}

proof fn lemma_word_tm_closed(bits: Seq<bool>)
    ensures
        vars_below(word_tm(bits), 0),
    decreases bits.len(),
{
    reveal_with_fuel(vars_below, 5);
    if bits.len() > 0 {
        let k = (bits.len() - 1) as nat;
        lemma_size_tm_closed(k);
        lemma_word_tm_closed(bits.take(k as int));
    }
}

proof fn lemma_vector_tm_closed(ty: Tm, elems: Seq<Tm>)
    requires
        vars_below(ty, 0),
        forall|i: int| 0 <= i < elems.len() ==> vars_below(#[trigger] elems[i], 0),
    ensures
        vars_below(vector_tm(ty, elems), 0),
    decreases elems.len(),
{
    reveal_with_fuel(vars_below, 5);
    if elems.len() > 0 {
        assert forall|i: int| 0 <= i < elems.drop_first().len() implies vars_below(
            #[trigger] elems.drop_first()[i],
            0,
        ) by {
            assert(elems.drop_first()[i] == elems[i + 1]);
        }
        lemma_vector_tm_closed(ty, elems.drop_first());
        lemma_size_tm_closed((elems.len() - 1) as nat);
        assert(vars_below(elems[0], 0));
    }
}

/// The term a literal stands for has no free variable.
pub proof fn lemma_lit_tm_closed(l: Lit)
    ensures
        vars_below(lit_tm(l), 0),
{
    reveal_with_fuel(vars_below, 5);
    match l {
        Lit::Word(bits) => lemma_word_tm_closed(bits),
        Lit::Size(n) => lemma_size_tm_closed(n),
        Lit::Char(c) => lemma_word_tm_closed(crate::literal::char_bits(c)),
        Lit::Str(s) => {
            let elems = s.map(|i: int, c: char| char_tm(c));
            assert forall|i: int| 0 <= i < elems.len() implies vars_below(#[trigger] elems[i], 0) by {
                assert(elems[i] == char_tm(s[i]));
                lemma_word_tm_closed(crate::literal::char_bits(s[i]));
            }
            lemma_vector_tm_closed(Tm::Ref("Char"@), elems);
            lemma_size_tm_closed(crate::literal::byte_len(s));
        },
    }
}

/// Substitution with lowering removes one binder's worth of free
/// variables: where the term's free variables are below `k + 1` and those of
/// the substituted term below `k`, the result's are below `k`.
pub proof fn lemma_subst_vars_below(t: Tm, variable: int, s: Tm, k: int)
    requires
        vars_below(t, k + 1),
        vars_below(s, k),
        0 <= variable <= k,
    ensures
        vars_below(subst_tm(t, variable, s, true), k),
    decreases t,
{
    match t {
        Tm::Lam { body, .. } => {
            lemma_shift_vars_below(s, 0, 1, k);
            lemma_subst_vars_below(*body, variable + 1, shift_tm(s, 0, 1), k + 1);
        },
        Tm::App { function, argument, .. } => {
            lemma_subst_vars_below(*function, variable, s, k);
            lemma_subst_vars_below(*argument, variable, s, k);
        },
        Tm::Put(e) => lemma_subst_vars_below(*e, variable, s, k),
        Tm::Dup { expression, body, .. } => {
            lemma_shift_vars_below(s, 0, 1, k);
            lemma_subst_vars_below(*expression, variable, s, k);
            lemma_subst_vars_below(*body, variable + 1, shift_tm(s, 0, 1), k + 1);
        },
        Tm::Wrap(e) => lemma_subst_vars_below(*e, variable, s, k),
        Tm::Ann { term, ty, .. } => {
            lemma_subst_vars_below(*term, variable, s, k);
            lemma_subst_vars_below(*ty, variable, s, k);
        },
        Tm::Fun { argument_type, return_type, .. } => {
            lemma_shift_vars_below(s, 0, 2, k);
            lemma_subst_vars_below(*argument_type, variable, s, k);
            lemma_subst_vars_below(*return_type, variable + 2, shift_tm(s, 0, 2), k + 2);
        },
        Tm::Lit(l) => {
            lemma_lit_tm_closed(l);
            lemma_vars_below_mono(lit_tm(l), 0, k);
        },
        _ => {},
    }
}

} // verus!
