use vstd::prelude::*;

use crate::annotated::{
    ashift, asubst, aview, clone_exact, lemma_aview_shift, lemma_copied_exact, lemma_strip_aview, strip, ATm,
};
use crate::definitions::{defs_all, Definitions};
use crate::literal::{blank, lemma_none_zero_is, zero_is, Zero};
use crate::shift::{lemma_shift_at_anns, shift_fits, shift_tm};
use crate::literal::{lit_tm, size_tm, word_tm, Lit};
use crate::substitute::{
    lemma_shift_vars_below, lemma_subst_no_literals, lemma_substitute_shifted, lemma_subst_vars_below, lemma_vars_below_mono,
    no_literals, subst_fits, subst_tm, vars_below,
};
use crate::term::{anns_all, lemma_none_clone_keeps, replace_term, AnalysisTerm, Tm};

verus! {

/// Why normalization failed.
#[derive(Debug, PartialEq, Eq, Structural)]
pub enum NormalizationError {
    InvalidDuplication,
    InvalidApplication,
}

/// The outcome of running a normalization with a bounded number of nested
/// steps: it ran out of steps, it would leave the range of machine indices,
/// or it finished with the final term and the result.
pub enum NormOut {
    OutOfFuel,
    Overflow,
    Done(Tm, Result<(), NormalizationError>),
}

pub open spec fn lam(erased: bool, name: Option<Seq<char>>, body: Tm) -> Tm {
    Tm::Lam { erased, name, body: Box::new(body) }
}

/// Where the term and every definition carry only the annotation `z`, and
/// `z` is the annotation of generated nodes and is kept by cloning, `b`
/// carries only `z` as well.
pub open spec fn keeps_blank<T: Zero + Clone, D: Definitions<T>>(
    d: &D,
    a: AnalysisTerm<T>,
    b: AnalysisTerm<T>,
) -> bool {
    forall|z: T| blank(z) && anns_all(a, z) && defs_all(d, z) ==> #[trigger] anns_all(b, z)
}

/// Full normalization of `t` against the definitions `d`, with at most `fuel`
/// nested steps. On an error the term is left as the failed step left it.
pub open spec fn norm<T, D: Definitions<T>>(d: &D, t: Tm, fuel: nat) -> NormOut
    decreases fuel,
{
    if fuel == 0 {
        NormOut::OutOfFuel
    } else {
        let f = (fuel - 1) as nat;
        match t {
            Tm::Ref(b) => match d.lookup(b) {
                Some(def) => match norm::<T, D>(d, def, f) {
                    NormOut::Done(n, Ok(())) => NormOut::Done(n, Ok(())),
                    NormOut::Done(_, Err(e)) => NormOut::Done(t, Err(e)),
                    other => other,
                },
                None => NormOut::Done(t, Ok(())),
            },
            Tm::Lam { erased, name, body } => match norm::<T, D>(d, *body, f) {
                NormOut::Done(b, Ok(())) => if erased {
                    if subst_fits(b, 0, Tm::Var(0)) {
                        NormOut::Done(subst_tm(b, 0, Tm::Var(0), true), Ok(()))
                    } else {
                        NormOut::Overflow
                    }
                } else {
                    NormOut::Done(lam(erased, name, b), Ok(()))
                },
                NormOut::Done(b, Err(e)) => NormOut::Done(lam(erased, name, b), Err(e)),
                other => other,
            },
            Tm::Put(e) => match norm::<T, D>(d, *e, f) {
                NormOut::Done(n, Ok(())) => NormOut::Done(n, Ok(())),
                NormOut::Done(n, Err(err)) => NormOut::Done(Tm::Put(Box::new(n)), Err(err)),
                other => other,
            },
            Tm::Dup { binder, expression, body } => if subst_fits(*body, 0, *expression) {
                match norm::<T, D>(d, subst_tm(*body, 0, *expression, true), f) {
                    NormOut::Done(n, Ok(())) => NormOut::Done(n, Ok(())),
                    NormOut::Done(n, Err(e)) => NormOut::Done(
                        Tm::Dup { binder, expression, body: Box::new(n) },
                        Err(e),
                    ),
                    other => other,
                }
            } else {
                NormOut::Overflow
            },
            Tm::App { erased, function, argument } => match norm::<T, D>(d, *function, f) {
                NormOut::Done(g, Ok(())) => {
                    let stuck = Tm::App { erased, function: Box::new(g), argument };
                    if erased {
                        NormOut::Done(g, Ok(()))
                    } else {
                        match g {
                            Tm::Put(_) => NormOut::Done(
                                stuck,
                                Err(NormalizationError::InvalidApplication),
                            ),
                            Tm::Lam { body, .. } => if subst_fits(*body, 0, *argument) {
                                match norm::<T, D>(d, subst_tm(*body, 0, *argument, true), f) {
                                    NormOut::Done(n, Ok(())) => NormOut::Done(n, Ok(())),
                                    NormOut::Done(_, Err(e)) => NormOut::Done(stuck, Err(e)),
                                    other => other,
                                }
                            } else {
                                NormOut::Overflow
                            },
                            _ => match norm::<T, D>(d, *argument, f) {
                                NormOut::Done(a, r) => NormOut::Done(
                                    Tm::App { erased, function: Box::new(g), argument: Box::new(a) },
                                    r,
                                ),
                                other => other,
                            },
                        }
                    }
                },
                NormOut::Done(g, Err(e)) => NormOut::Done(
                    Tm::App { erased, function: Box::new(g), argument },
                    Err(e),
                ),
                other => other,
            },
            Tm::Ann { checked, term, ty } => match norm::<T, D>(d, *term, f) {
                NormOut::Done(n, Ok(())) => NormOut::Done(n, Ok(())),
                NormOut::Done(n, Err(e)) => NormOut::Done(
                    Tm::Ann { checked, term: Box::new(n), ty },
                    Err(e),
                ),
                other => other,
            },
            _ => NormOut::Done(t, Ok(())),
        }
    }
}

/// The normalization of `t` finishes within some number of steps without
/// leaving the range of machine indices.
pub open spec fn normalizes<T, D: Definitions<T>>(d: &D, t: Tm) -> bool {
    exists|fuel: nat| #[trigger] norm::<T, D>(d, t, fuel) is Done
}

/// A number of steps within which the normalization of `t` finishes.
pub open spec fn norm_fuel<T, D: Definitions<T>>(d: &D, t: Tm) -> nat {
    choose|fuel: nat| #[trigger] norm::<T, D>(d, t, fuel) is Done
}

/// More steps do not change a finished normalization.
pub proof fn lemma_norm_fuel_mono<T, D: Definitions<T>>(d: &D, t: Tm, fuel: nat, more: nat)
    requires
        norm::<T, D>(d, t, fuel) is Done,
        fuel <= more,
    ensures
        norm::<T, D>(d, t, more) == norm::<T, D>(d, t, fuel),
    decreases fuel,
{
    if fuel > 0 {
        let f = (fuel - 1) as nat;
        let g = (more - 1) as nat;
        match t {
            Tm::Ref(b) => {
                if let Some(def) = d.lookup(b) {
                    lemma_norm_fuel_mono::<T, D>(d, def, f, g);
                }
            },
            Tm::Lam { body, .. } => {
                lemma_norm_fuel_mono::<T, D>(d, *body, f, g);
            },
            Tm::Put(e) => {
                lemma_norm_fuel_mono::<T, D>(d, *e, f, g);
            },
            Tm::Dup { expression, body, .. } => {
                if subst_fits(*body, 0, *expression) {
                    lemma_norm_fuel_mono::<T, D>(d, subst_tm(*body, 0, *expression, true), f, g);
                }
            },
            Tm::App { erased, function, argument } => {
                lemma_norm_fuel_mono::<T, D>(d, *function, f, g);
                if let NormOut::Done(gf, Ok(())) = norm::<T, D>(d, *function, f) {
                    if !erased {
                        match gf {
                            Tm::Put(_) => {},
                            Tm::Lam { body, .. } => {
                                if subst_fits(*body, 0, *argument) {
                                    lemma_norm_fuel_mono::<T, D>(
                                        d,
                                        subst_tm(*body, 0, *argument, true),
                                        f,
                                        g,
                                    );
                                }
                            },
                            _ => {
                                lemma_norm_fuel_mono::<T, D>(d, *argument, f, g);
                            },
                        }
                    }
                }
            },
            Tm::Ann { term, .. } => {
                lemma_norm_fuel_mono::<T, D>(d, *term, f, g);
            },
            _ => {},
        }
    }
}

/// Any two step bounds within which the normalization of `t` finishes give
/// the same outcome.
pub proof fn lemma_norm_deterministic<T, D: Definitions<T>>(d: &D, t: Tm, f1: nat, f2: nat)
    requires
        norm::<T, D>(d, t, f1) is Done,
        norm::<T, D>(d, t, f2) is Done,
    ensures
        norm::<T, D>(d, t, f1) == norm::<T, D>(d, t, f2),
{
    if f1 <= f2 {
        lemma_norm_fuel_mono::<T, D>(d, t, f1, f2);
    } else {
        lemma_norm_fuel_mono::<T, D>(d, t, f2, f1);
    }
}

/// Full normalization in the annotated model: as `norm`, with every
/// annotation kept in its place. A definition comes in with its own
/// annotations; the variable put in for the argument of an erased lambda and
/// the nodes of expanded literals carry `z`.
pub open spec fn anorm<T, D: Definitions<T>>(d: &D, t: ATm<T>, z: T, fuel: nat) -> ANormOut<T>
    decreases fuel,
{
    if fuel == 0 {
        ANormOut::OutOfFuel
    } else {
        let f = (fuel - 1) as nat;
        match t {
            ATm::Ref(b, _) => match d.lookup(b) {
                Some(_) => match d.entry(b) {
                    Some(def) => match anorm::<T, D>(d, aview(def), z, f) {
                        ANormOut::Done(n, Ok(())) => ANormOut::Done(n, Ok(())),
                        ANormOut::Done(_, Err(e)) => ANormOut::Done(t, Err(e)),
                        other => other,
                    },
                    None => ANormOut::OutOfFuel,
                },
                None => ANormOut::Done(t, Ok(())),
            },
            ATm::Lam { erased, name, body, ann } => match anorm::<T, D>(d, *body, z, f) {
                ANormOut::Done(b, Ok(())) => if erased {
                    if subst_fits(strip(b), 0, Tm::Var(0)) {
                        ANormOut::Done(asubst(b, 0, ATm::Var(0, z), true, z), Ok(()))
                    } else {
                        ANormOut::Overflow
                    }
                } else {
                    ANormOut::Done(ATm::Lam { erased, name, body: Box::new(b), ann }, Ok(()))
                },
                ANormOut::Done(b, Err(e)) => ANormOut::Done(
                    ATm::Lam { erased, name, body: Box::new(b), ann },
                    Err(e),
                ),
                other => other,
            },
            ATm::Put(e, a) => match anorm::<T, D>(d, *e, z, f) {
                ANormOut::Done(n, Ok(())) => ANormOut::Done(n, Ok(())),
                ANormOut::Done(n, Err(err)) => ANormOut::Done(ATm::Put(Box::new(n), a), Err(err)),
                other => other,
            },
            ATm::Dup { binder, expression, body, ann } => if subst_fits(
                strip(*body),
                0,
                strip(*expression),
            ) {
                match anorm::<T, D>(d, asubst(*body, 0, *expression, true, z), z, f) {
                    ANormOut::Done(n, Ok(())) => ANormOut::Done(n, Ok(())),
                    ANormOut::Done(n, Err(e)) => ANormOut::Done(
                        ATm::Dup { binder, expression, body: Box::new(n), ann },
                        Err(e),
                    ),
                    other => other,
                }
            } else {
                ANormOut::Overflow
            },
            ATm::App { erased, function, argument, ann } => match anorm::<T, D>(d, *function, z, f) {
                ANormOut::Done(g, Ok(())) => {
                    let stuck = ATm::App { erased, function: Box::new(g), argument, ann };
                    if erased {
                        ANormOut::Done(g, Ok(()))
                    } else {
                        match g {
                            ATm::Put(..) => ANormOut::Done(
                                stuck,
                                Err(NormalizationError::InvalidApplication),
                            ),
                            ATm::Lam { body, .. } => if subst_fits(strip(*body), 0, strip(*argument)) {
                                match anorm::<T, D>(d, asubst(*body, 0, *argument, true, z), z, f) {
                                    ANormOut::Done(n, Ok(())) => ANormOut::Done(n, Ok(())),
                                    ANormOut::Done(_, Err(e)) => ANormOut::Done(stuck, Err(e)),
                                    other => other,
                                }
                            } else {
                                ANormOut::Overflow
                            },
                            _ => match anorm::<T, D>(d, *argument, z, f) {
                                ANormOut::Done(a, r) => ANormOut::Done(
                                    ATm::App { erased, function: Box::new(g), argument: Box::new(a), ann },
                                    r,
                                ),
                                other => other,
                            },
                        }
                    }
                },
                ANormOut::Done(g, Err(e)) => ANormOut::Done(
                    ATm::App { erased, function: Box::new(g), argument, ann },
                    Err(e),
                ),
                other => other,
            },
            ATm::Ann { checked, term, ty } => match anorm::<T, D>(d, *term, z, f) {
                ANormOut::Done(n, Ok(())) => ANormOut::Done(n, Ok(())),
                ANormOut::Done(n, Err(e)) => ANormOut::Done(
                    ATm::Ann { checked, term: Box::new(n), ty },
                    Err(e),
                ),
                other => other,
            },
            _ => ANormOut::Done(t, Ok(())),
        }
    }
}

/// The value that `T::zero` gives, where it always gives the same one.
pub open spec fn zero_value<T: Zero>() -> T {
    choose|z: T| zero_is(z)
}

/// More steps do not change a finished normalization in the annotated model.
pub proof fn lemma_anorm_fuel_mono<T, D: Definitions<T>>(d: &D, t: ATm<T>, z: T, fuel: nat, more: nat)
    requires
        anorm::<T, D>(d, t, z, fuel) is Done,
        fuel <= more,
    ensures
        anorm::<T, D>(d, t, z, more) == anorm::<T, D>(d, t, z, fuel),
    decreases fuel,
{
    if fuel > 0 {
        let f = (fuel - 1) as nat;
        let g = (more - 1) as nat;
        match t {
            ATm::Ref(b, _) => {
                if d.lookup(b) is Some {
                    if let Some(def) = d.entry(b) {
                        lemma_anorm_fuel_mono::<T, D>(d, aview(def), z, f, g);
                    }
                }
            },
            ATm::Lam { body, .. } => lemma_anorm_fuel_mono::<T, D>(d, *body, z, f, g),
            ATm::Put(e, _) => lemma_anorm_fuel_mono::<T, D>(d, *e, z, f, g),
            ATm::Dup { expression, body, .. } => {
                if subst_fits(strip(*body), 0, strip(*expression)) {
                    lemma_anorm_fuel_mono::<T, D>(d, asubst(*body, 0, *expression, true, z), z, f, g);
                }
            },
            ATm::App { erased, function, argument, .. } => {
                lemma_anorm_fuel_mono::<T, D>(d, *function, z, f, g);
                if let ANormOut::Done(gf, Ok(())) = anorm::<T, D>(d, *function, z, f) {
                    if !erased {
                        match gf {
                            ATm::Put(..) => {},
                            ATm::Lam { body, .. } => {
                                if subst_fits(strip(*body), 0, strip(*argument)) {
                                    lemma_anorm_fuel_mono::<T, D>(d, asubst(*body, 0, *argument, true, z), z, f, g);
                                }
                            },
                            _ => lemma_anorm_fuel_mono::<T, D>(d, *argument, z, f, g),
                        }
                    }
                }
            },
            ATm::Ann { term, .. } => lemma_anorm_fuel_mono::<T, D>(d, *term, z, f, g),
            _ => {},
        }
    }
}

impl<T: Zero + Clone> AnalysisTerm<T> {
    #[verifier::rlimit(60)]
    fn normalize_fuel<U: Definitions<T>>(
        &mut self,
        definitions: &U,
        Ghost(fuel): Ghost<nat>,
        Ghost(zero): Ghost<T>,
    ) -> (res:
        Result<(), NormalizationError>)
        requires
            norm::<T, U>(definitions, old(self)@, fuel) is Done,
        ensures
            norm::<T, U>(definitions, old(self)@, fuel) == NormOut::Done(final(self)@, res),
            keeps_blank(definitions, *old(self), *final(self)),
            clone_exact::<T>() && zero_is(zero) ==> anorm::<T, U>(definitions, aview(*old(self)), zero, fuel)
                == ANormOut::Done(aview(*final(self)), res),
        decreases fuel, 1nat,
    {
        let ghost f = (fuel - 1) as nat;
        let ghost start = *self;
        let ghost ex = clone_exact::<T>() && zero_is(zero);
        broadcast use lemma_strip_aview;
        match self {
            AnalysisTerm::Reference(binding, _) => {
                match definitions.get(binding.as_str()) {
                    Some(found) => {
                        let mut term = found.as_ref().clone();
                        let ghost c = term;
                        proof {
                            if ex {
                                lemma_copied_exact(found.spec_as_ref(), c);
                            }
                            assert forall|z: T| blank(z) && defs_all(definitions, z) implies anns_all(c, z) by {
                                assert(definitions.entry(binding@) is Some);
                            }
                        }
                        match term.normalize_fuel(definitions, Ghost(f), Ghost(zero)) {
                            Ok(()) => {
                                *self = term;
                                proof {
                                    assert forall|z: T| blank(z) && anns_all(start, z) && defs_all(definitions, z) implies anns_all(*self, z) by {
                                        assert(anns_all(c, z));
                                    }
                                }
                                Ok(())
                            },
                            Err(e) => Err(e),
                        }
                    },
                    None => Ok(()),
                }
            },
            AnalysisTerm::Lambda { body, erased, .. } => {
                let ghost b0 = **body;
                match body.normalize_fuel(definitions, Ghost(f), Ghost(zero)) {
                    Ok(()) => {},
                    Err(e) => {
                        let ghost n1 = **body;
                        proof {
                            assert forall|z: T| blank(z) && anns_all(start, z) && defs_all(definitions, z) implies anns_all(*self, z) by {
                                assert(anns_all(n1, z));
                                assert(anns_all(b0, z));
                            }
                        }
                        return Err(e);
                    },
                }
                if *erased {
                    let zv = T::zero();
                    let v = AnalysisTerm::Variable(0, zv);
                    let ghost b1 = **body;
                    body.substitute_top_in(&v);
                    proof {
                        if ex {
                            assert(zv == zero);
                            assert(aview(v) == ATm::Var(0, zero));
                            assert(asubst(aview(b1), 0, ATm::Var(0, zero), true, zero) == aview(**body));
                        }
                    }
                    let b = replace_term(&mut **body, AnalysisTerm::Universe(T::zero()));
                    *self = b;
                    proof {
                        assert forall|z: T| blank(z) && anns_all(start, z) && defs_all(definitions, z) implies anns_all(*self, z) by {
                            assert(anns_all(b0, z));
                            assert(anns_all(b1, z));
                            assert(anns_all(v, z));
                        }
                    }
                } else {
                    let ghost b1 = **body;
                    proof {
                        assert forall|z: T| blank(z) && anns_all(start, z) && defs_all(definitions, z) implies anns_all(*self, z) by {
                            assert(anns_all(b0, z));
                            assert(anns_all(b1, z));
                        }
                    }
                }
                Ok(())
            },
            AnalysisTerm::Put(term, _) => {
                let ghost b0 = **term;
                match term.normalize_fuel(definitions, Ghost(f), Ghost(zero)) {
                    Ok(()) => {},
                    Err(e) => {
                        let ghost n1 = **term;
                        proof {
                            assert forall|z: T| blank(z) && anns_all(start, z) && defs_all(definitions, z) implies anns_all(*self, z) by {
                                assert(anns_all(n1, z));
                                assert(anns_all(b0, z));
                            }
                        }
                        return Err(e);
                    },
                }
                let b = replace_term(&mut **term, AnalysisTerm::Universe(T::zero()));
                *self = b;
                proof {
                    assert forall|z: T| blank(z) && anns_all(start, z) && defs_all(definitions, z) implies anns_all(*self, z) by {
                        assert(anns_all(b0, z));
                    }
                }
                Ok(())
            },
            AnalysisTerm::Duplication { body, expression, .. } => {
                let ghost b0 = **body;
                let ghost x0 = **expression;
                body.substitute_top_in(expression);
                let ghost b1 = **body;
                proof {
                    if ex {
                        assert(asubst(aview(b0), 0, aview(x0), true, zero) == aview(b1));
                    }
                }
                match body.normalize_fuel(definitions, Ghost(f), Ghost(zero)) {
                    Ok(()) => {},
                    Err(e) => {
                        let ghost n1 = **body;
                        proof {
                            assert forall|z: T| blank(z) && anns_all(start, z) && defs_all(definitions, z) implies anns_all(*self, z) by {
                                assert(anns_all(n1, z));
                                assert(anns_all(b0, z));
                                assert(anns_all(x0, z));
                                assert(anns_all(b1, z));
                            }
                        }
                        return Err(e);
                    },
                }
                let b = replace_term(&mut **body, AnalysisTerm::Universe(T::zero()));
                *self = b;
                proof {
                    assert forall|z: T| blank(z) && anns_all(start, z) && defs_all(definitions, z) implies anns_all(*self, z) by {
                        assert(anns_all(b0, z));
                        assert(anns_all(x0, z));
                        assert(anns_all(b1, z));
                    }
                }
                Ok(())
            },
            AnalysisTerm::Application { .. } => self.normalize_application(definitions, Ghost(fuel), Ghost(zero)),
            AnalysisTerm::Variable(_, _)
            | AnalysisTerm::Universe(_)
            | AnalysisTerm::Wrap(_, _)
            | AnalysisTerm::Function { .. }
            | AnalysisTerm::Hole(_)
            | AnalysisTerm::Compressed(_) => Ok(()),
            AnalysisTerm::Annotation { term, .. } => {
                let ghost b0 = **term;
                match term.normalize_fuel(definitions, Ghost(f), Ghost(zero)) {
                    Ok(()) => {},
                    Err(e) => {
                        let ghost n1 = **term;
                        proof {
                            assert forall|z: T| blank(z) && anns_all(start, z) && defs_all(definitions, z) implies anns_all(*self, z) by {
                                assert(anns_all(n1, z));
                                assert(anns_all(b0, z));
                            }
                        }
                        return Err(e);
                    },
                }
                let b = replace_term(&mut **term, AnalysisTerm::Universe(T::zero()));
                *self = b;
                proof {
                    assert forall|z: T| blank(z) && anns_all(start, z) && defs_all(definitions, z) implies anns_all(*self, z) by {
                        assert(anns_all(b0, z));
                    }
                }
                Ok(())
            },
        }
    }

    #[verifier::rlimit(60)]
    fn normalize_application<U: Definitions<T>>(
        &mut self,
        definitions: &U,
        Ghost(fuel): Ghost<nat>,
        Ghost(zero): Ghost<T>,
    ) -> (res:
        Result<(), NormalizationError>)
        requires
            old(self)@ is App,
            norm::<T, U>(definitions, old(self)@, fuel) is Done,
        ensures
            norm::<T, U>(definitions, old(self)@, fuel) == NormOut::Done(final(self)@, res),
            keeps_blank(definitions, *old(self), *final(self)),
            clone_exact::<T>() && zero_is(zero) ==> anorm::<T, U>(definitions, aview(*old(self)), zero, fuel)
                == ANormOut::Done(aview(*final(self)), res),
        decreases fuel, 0nat,
    {
        let ghost f = (fuel - 1) as nat;
        let ghost start = *self;
        let ghost ex = clone_exact::<T>() && zero_is(zero);
        broadcast use lemma_strip_aview;
        match self {
            AnalysisTerm::Application { function, argument, erased, .. } => {
                let ghost f0 = **function;
                let ghost a0 = **argument;
                match function.normalize_fuel(definitions, Ghost(f), Ghost(zero)) {
                    Ok(()) => {},
                    Err(e) => {
                        let ghost n1 = **function;
                        proof {
                            assert forall|z: T| blank(z) && anns_all(start, z) && defs_all(definitions, z) implies anns_all(*self, z) by {
                                assert(anns_all(n1, z));
                                assert(anns_all(f0, z));
                            }
                        }
                        return Err(e);
                    },
                }
                let ghost f1 = **function;
                let func = (**function).clone();
                proof {
                    if ex {
                        lemma_copied_exact(f1, func);
                    }
                    assert forall|z: T| blank(z) && anns_all(start, z) && defs_all(definitions, z) implies anns_all(func, z) by {
                        assert(anns_all(f0, z));
                        assert(anns_all(f1, z));
                    }
                }
                if *erased {
                    *self = func;
                    Ok(())
                } else {
                    match func {
                        AnalysisTerm::Put(_, _) => {
                            proof {
                                assert forall|z: T| blank(z) && anns_all(start, z) && defs_all(definitions, z) implies anns_all(*self, z) by {
                                    assert(anns_all(f0, z));
                                    assert(anns_all(f1, z));
                                }
                            }
                            Err(NormalizationError::InvalidApplication)
                        },
                        AnalysisTerm::Lambda { mut body, .. } => {
                            let ghost g0 = *body;
                            proof {
                                assert forall|z: T| blank(z) && anns_all(start, z) && defs_all(definitions, z) implies anns_all(g0, z) by {
                                    assert(anns_all(func, z));
                                }
                            }
                            body.substitute_top_in(argument);
                            let ghost g1 = *body;
                            proof {
                                if ex {
                                    assert(asubst(aview(g0), 0, aview(a0), true, zero) == aview(g1));
                                }
                            }
                            proof {
                                assert forall|z: T| blank(z) && anns_all(start, z) && defs_all(definitions, z) implies anns_all(g1, z) by {
                                    assert(anns_all(g0, z));
                                    assert(anns_all(a0, z));
                                }
                            }
                            match body.normalize_fuel(definitions, Ghost(f), Ghost(zero)) {
                                Ok(()) => {},
                                Err(e) => {
                                    proof {
                                        assert forall|z: T| blank(z) && anns_all(start, z) && defs_all(definitions, z) implies anns_all(*self, z) by {
                                            assert(anns_all(f0, z));
                                            assert(anns_all(f1, z));
                                        }
                                    }
                                    return Err(e);
                                },
                            }
                            let ghost g2 = *body;
                            *self = *body;
                            proof {
                                assert forall|z: T| blank(z) && anns_all(start, z) && defs_all(definitions, z) implies anns_all(*self, z) by {
                                    assert(anns_all(g1, z));
                                    assert(anns_all(g2, z));
                                }
                            }
                            Ok(())
                        },
                        _ => {
                            let r = argument.normalize_fuel(definitions, Ghost(f), Ghost(zero));
                            let ghost a1 = **argument;
                            proof {
                                assert forall|z: T| blank(z) && anns_all(start, z) && defs_all(definitions, z) implies anns_all(*self, z) by {
                                    assert(anns_all(f0, z));
                                    assert(anns_all(f1, z));
                                    assert(anns_all(a0, z));
                                    assert(anns_all(a1, z));
                                }
                            }
                            r
                        },
                    }
                }
            },
            _ => Ok(()),
        }
    }

    /// Normalizes the term: definitions are unfolded, redexes reduced, erased
    /// lambdas, boxes, duplications and annotations removed.
    pub fn normalize_in<U: Definitions<T>>(&mut self, definitions: &U) -> (res: Result<
        (),
        NormalizationError,
    >)
        requires
            normalizes::<T, U>(definitions, old(self)@),
        ensures
            forall|fuel: nat| #[trigger]
                norm::<T, U>(definitions, old(self)@, fuel) is Done ==> norm::<T, U>(
                    definitions,
                    old(self)@,
                    fuel,
                ) == NormOut::Done(final(self)@, res),
            keeps_blank(definitions, *old(self), *final(self)),
            res is Ok,
            clone_exact::<T>() && zero_is(zero_value::<T>()) ==> exists|fuel: nat| #[trigger]
                anorm::<T, U>(definitions, aview(*old(self)), zero_value::<T>(), fuel) is Done,
            clone_exact::<T>() && zero_is(zero_value::<T>()) ==> forall|fuel: nat| #[trigger]
                anorm::<T, U>(definitions, aview(*old(self)), zero_value::<T>(), fuel) is Done
                    ==> anorm::<T, U>(definitions, aview(*old(self)), zero_value::<T>(), fuel)
                    == ANormOut::Done(aview(*final(self)), res),
    {
        let ghost start = self@;
        let ghost astart = aview(*self);
        let ghost fuel = norm_fuel::<T, U>(definitions, start);
        let res = self.normalize_fuel(definitions, Ghost(fuel), Ghost(zero_value::<T>()));
        proof {
            lemma_norm_never_fails::<T, U>(definitions, start, fuel);
            let zero = zero_value::<T>();
            if clone_exact::<T>() && zero_is(zero) {
                assert forall|other: nat| #[trigger]
                    anorm::<T, U>(definitions, astart, zero, other) is Done implies anorm::<T, U>(
                    definitions,
                    astart,
                    zero,
                    other,
                ) == ANormOut::Done(aview(*self), res) by {
                    if fuel <= other {
                        lemma_anorm_fuel_mono::<T, U>(definitions, astart, zero, fuel, other);
                    } else {
                        lemma_anorm_fuel_mono::<T, U>(definitions, astart, zero, other, fuel);
                    }
                }
                assert(anorm::<T, U>(definitions, astart, zero, fuel) is Done);
            }
            assert forall|other: nat| #[trigger]
                norm::<T, U>(definitions, start, other) is Done implies norm::<T, U>(
                definitions,
                start,
                other,
            ) == NormOut::Done(self@, res) by {
                lemma_norm_deterministic::<T, U>(definitions, start, fuel, other);
            }
        }
        res
    }
}


/// `t` is a normal form for the definitions `d`: it holds no box,
/// duplication, annotation, erased lambda or application, no redex, and no
/// reference to a defined name. Function types, wraps and what they hold are
/// left as they are.
pub open spec fn is_normal<T, D: Definitions<T>>(d: &D, t: Tm) -> bool
    decreases t,
{
    match t {
        Tm::Lam { erased, body, .. } => !erased && is_normal::<T, D>(d, *body),
        Tm::App { erased, function, argument } => !erased && !(*function is Lam)
            && !(*function is Put) && is_normal::<T, D>(d, *function) && is_normal::<T, D>(
            d,
            *argument,
        ),
        Tm::Ref(r) => d.lookup(r) is None,
        Tm::Put(_) | Tm::Dup { .. } | Tm::Ann { .. } => false,
        _ => true,
    }
}

/// No definition of the table holds a literal.
pub open spec fn defs_no_literals<T, D: Definitions<T>>(d: &D) -> bool {
    forall|name: Seq<char>| #[trigger] d.lookup(name) is Some ==> no_literals(d.lookup(name)->Some_0)
}

/// The depth of the lambdas and applications of a term.
pub open spec fn spine_height(t: Tm) -> nat
    decreases t,
{
    match t {
        Tm::Lam { body, .. } => 1 + spine_height(*body),
        Tm::App { function, argument, .. } => 1 + if spine_height(*function) >= spine_height(
            *argument,
        ) {
            spine_height(*function)
        } else {
            spine_height(*argument)
        },
        _ => 0,
    }
}

/// Putting a variable in the place of a variable keeps a normal form normal.
proof fn lemma_subst_var_normal<T, D: Definitions<T>>(d: &D, t: Tm, variable: int, j: int, shift: bool)
    requires
        is_normal::<T, D>(d, t),
        no_literals(t),
        j >= 0,
    ensures
        is_normal::<T, D>(d, subst_tm(t, variable, Tm::Var(j), shift)),
    decreases t,
{
    match t {
        Tm::Lam { body, .. } => {
            assert(shift_tm(Tm::Var(j), 0, 1) == Tm::Var(j + 1));
            lemma_subst_var_normal::<T, D>(d, *body, variable + 1, j + 1, shift);
        },
        Tm::App { function, argument, .. } => {
            lemma_subst_var_normal::<T, D>(d, *function, variable, j, shift);
            lemma_subst_var_normal::<T, D>(d, *argument, variable, j, shift);
        },
        _ => {},
    }
}

/// Normalization of a term free of literals, against definitions free of
/// literals, leaves a term free of literals.
proof fn lemma_norm_no_literals<T, D: Definitions<T>>(d: &D, t: Tm, fuel: nat)
    requires
        no_literals(t),
        defs_no_literals::<T, D>(d),
        norm::<T, D>(d, t, fuel) is Done,
    ensures
        no_literals(norm::<T, D>(d, t, fuel)->Done_0),
    decreases fuel,
{
    let f = (fuel - 1) as nat;
    match t {
        Tm::Ref(b) => {
            if let Some(def) = d.lookup(b) {
                lemma_norm_no_literals::<T, D>(d, def, f);
            }
        },
        Tm::Lam { body, .. } => {
            lemma_norm_no_literals::<T, D>(d, *body, f);
            if let NormOut::Done(b, Ok(())) = norm::<T, D>(d, *body, f) {
                lemma_subst_no_literals(b, 0, Tm::Var(0), true);
            }
        },
        Tm::Put(e) => lemma_norm_no_literals::<T, D>(d, *e, f),
        Tm::Dup { expression, body, .. } => {
            if subst_fits(*body, 0, *expression) {
                lemma_subst_no_literals(*body, 0, *expression, true);
                lemma_norm_no_literals::<T, D>(d, subst_tm(*body, 0, *expression, true), f);
            }
        },
        Tm::App { erased, function, argument } => {
            lemma_norm_no_literals::<T, D>(d, *function, f);
            if let NormOut::Done(g, Ok(())) = norm::<T, D>(d, *function, f) {
                if !erased {
                    match g {
                        Tm::Put(_) => {},
                        Tm::Lam { body, .. } => {
                            if subst_fits(*body, 0, *argument) {
                                lemma_subst_no_literals(*body, 0, *argument, true);
                                lemma_norm_no_literals::<T, D>(d, subst_tm(*body, 0, *argument, true), f);
                            }
                        },
                        _ => lemma_norm_no_literals::<T, D>(d, *argument, f),
                    }
                }
            }
        },
        Tm::Ann { term, .. } => lemma_norm_no_literals::<T, D>(d, *term, f),
        _ => {},
    }
}

/// What normalization gives back without error is a normal form, where
/// neither the term nor a definition holds a literal.
pub proof fn lemma_norm_is_normal<T, D: Definitions<T>>(d: &D, t: Tm, fuel: nat)
    requires
        no_literals(t),
        defs_no_literals::<T, D>(d),
        norm::<T, D>(d, t, fuel) matches NormOut::Done(_, Ok(())),
    ensures
        is_normal::<T, D>(d, norm::<T, D>(d, t, fuel)->Done_0),
    decreases fuel,
{
    let f = (fuel - 1) as nat;
    match t {
        Tm::Ref(b) => {
            if let Some(def) = d.lookup(b) {
                lemma_norm_is_normal::<T, D>(d, def, f);
            }
        },
        Tm::Lam { body, erased, .. } => {
            lemma_norm_is_normal::<T, D>(d, *body, f);
            lemma_norm_no_literals::<T, D>(d, *body, f);
            if erased {
                let b = norm::<T, D>(d, *body, f)->Done_0;
                lemma_subst_var_normal::<T, D>(d, b, 0, 0, true);
            }
        },
        Tm::Put(e) => lemma_norm_is_normal::<T, D>(d, *e, f),
        Tm::Dup { expression, body, .. } => {
            lemma_subst_no_literals(*body, 0, *expression, true);
            lemma_norm_is_normal::<T, D>(d, subst_tm(*body, 0, *expression, true), f);
        },
        Tm::App { erased, function, argument } => {
            lemma_norm_is_normal::<T, D>(d, *function, f);
            lemma_norm_no_literals::<T, D>(d, *function, f);
            let g = norm::<T, D>(d, *function, f)->Done_0;
            if !erased {
                match g {
                    Tm::Lam { body, .. } => {
                        lemma_subst_no_literals(*body, 0, *argument, true);
                        lemma_norm_is_normal::<T, D>(d, subst_tm(*body, 0, *argument, true), f);
                    },
                    Tm::Put(_) => {},
                    _ => lemma_norm_is_normal::<T, D>(d, *argument, f),
                }
            }
        },
        Tm::Ann { term, .. } => lemma_norm_is_normal::<T, D>(d, *term, f),
        _ => {},
    }
}

/// Normalization never fails: where it finishes, it finishes without error,
/// and what it gives back is not a box (a box is erased, so no application
/// is left headed by one).
pub proof fn lemma_norm_never_fails<T, D: Definitions<T>>(d: &D, t: Tm, fuel: nat)
    requires
        norm::<T, D>(d, t, fuel) is Done,
    ensures
        norm::<T, D>(d, t, fuel) matches NormOut::Done(n, Ok(())) && !(n is Put),
    decreases fuel,
{
    let f = (fuel - 1) as nat;
    match t {
        Tm::Ref(b) => {
            if let Some(def) = d.lookup(b) {
                lemma_norm_never_fails::<T, D>(d, def, f);
            }
        },
        Tm::Lam { body, .. } => {
            lemma_norm_never_fails::<T, D>(d, *body, f);
            let b = norm::<T, D>(d, *body, f)->Done_0;
            lemma_subst_not_put(b, 0, Tm::Var(0));
        },
        Tm::Put(e) => lemma_norm_never_fails::<T, D>(d, *e, f),
        Tm::Dup { expression, body, .. } => {
            lemma_norm_never_fails::<T, D>(d, subst_tm(*body, 0, *expression, true), f);
        },
        Tm::App { erased, function, argument } => {
            lemma_norm_never_fails::<T, D>(d, *function, f);
            let g = norm::<T, D>(d, *function, f)->Done_0;
            if !erased {
                match g {
                    Tm::Lam { body, .. } => {
                        lemma_norm_never_fails::<T, D>(d, subst_tm(*body, 0, *argument, true), f);
                    },
                    _ => lemma_norm_never_fails::<T, D>(d, *argument, f),
                }
            }
        },
        Tm::Ann { term, .. } => lemma_norm_never_fails::<T, D>(d, *term, f),
        _ => {},
    }
}

/// Substituting a variable into a term that is not a box gives no box.
proof fn lemma_subst_not_put(t: Tm, variable: int, s: Tm)
    requires
        !(t is Put),
        s is Var,
    ensures
        !(subst_tm(t, variable, s, true) is Put),
{
    match t {
        Tm::Lit(l) => {
            lemma_lit_not_put(l);
        },
        _ => {},
    }
}

/// The term a literal stands for is no box.
proof fn lemma_lit_not_put(l: Lit)
    ensures
        !(lit_tm(l) is Put),
{
    match l {
        Lit::Word(bits) => {
            assert(bits.len() == 0 || word_tm(bits) is App);
        },
        Lit::Size(n) => {
            assert(n == 0 || size_tm(n) is App);
        },
        _ => {},
    }
}

/// Normalization leaves a normal form as it is, given more steps than the
/// depth of its lambdas and applications.
proof fn lemma_normal_fixed<T, D: Definitions<T>>(d: &D, t: Tm, fuel: nat)
    requires
        is_normal::<T, D>(d, t),
        fuel > spine_height(t),
    ensures
        norm::<T, D>(d, t, fuel) == NormOut::Done(t, Ok::<(), NormalizationError>(())),
    decreases t,
{
    let f = (fuel - 1) as nat;
    match t {
        Tm::Lam { body, .. } => lemma_normal_fixed::<T, D>(d, *body, f),
        Tm::App { function, argument, .. } => {
            lemma_normal_fixed::<T, D>(d, *function, f);
            lemma_normal_fixed::<T, D>(d, *argument, f);
        },
        _ => {},
    }
}

/// Normalizing again what normalization gave back changes nothing, where
/// neither the term nor a definition holds a literal: the result is a normal
/// form, its normalization finishes, and gives it back without error.
pub proof fn lemma_normalize_idempotent<T, D: Definitions<T>>(d: &D, t: Tm, fuel: nat)
    requires
        no_literals(t),
        defs_no_literals::<T, D>(d),
        norm::<T, D>(d, t, fuel) is Done,
    ensures
        is_normal::<T, D>(d, norm::<T, D>(d, t, fuel)->Done_0),
        normalizes::<T, D>(d, norm::<T, D>(d, t, fuel)->Done_0),
        forall|more: nat| #[trigger]
            norm::<T, D>(d, norm::<T, D>(d, t, fuel)->Done_0, more) is Done ==> norm::<T, D>(
                d,
                norm::<T, D>(d, t, fuel)->Done_0,
                more,
            ) == NormOut::Done(norm::<T, D>(d, t, fuel)->Done_0, Ok::<(), NormalizationError>(())),
{
    lemma_norm_never_fails::<T, D>(d, t, fuel);
    let n = norm::<T, D>(d, t, fuel)->Done_0;
    lemma_norm_is_normal::<T, D>(d, t, fuel);
    let h = spine_height(n) + 1;
    lemma_normal_fixed::<T, D>(d, n, h);
    assert(norm::<T, D>(d, n, h) is Done);
    assert forall|more: nat| #[trigger] norm::<T, D>(d, n, more) is Done implies norm::<T, D>(
        d,
        n,
        more,
    ) == NormOut::Done(n, Ok::<(), NormalizationError>(())) by {
        lemma_norm_deterministic::<T, D>(d, n, h, more);
    }
}

/// Weak-head normalization of `t` against the definitions `d`, with at most
/// `fuel` nested steps. With `erase`, boxes and duplications are erased as
/// well. On an error the term is left as the failed step left it.
pub open spec fn wnorm<T, D: Definitions<Option<T>>>(d: &D, t: Tm, erase: bool, fuel: nat) -> NormOut
    decreases fuel,
{
    if fuel == 0 {
        NormOut::OutOfFuel
    } else {
        let f = (fuel - 1) as nat;
        match t {
            Tm::Ref(b) => match d.lookup(b) {
                Some(def) => match wnorm::<T, D>(d, def, erase, f) {
                    NormOut::Done(n, Ok(())) => NormOut::Done(n, Ok(())),
                    NormOut::Done(_, Err(e)) => NormOut::Done(t, Err(e)),
                    other => other,
                },
                None => NormOut::Done(t, Ok(())),
            },
            Tm::App { erased, function, argument } => match wnorm::<T, D>(d, *function, erase, f) {
                NormOut::Done(g, Ok(())) => {
                    let stuck = Tm::App { erased, function: Box::new(g), argument };
                    match g {
                        Tm::Put(_) => NormOut::Done(stuck, Err(NormalizationError::InvalidApplication)),
                        Tm::Dup { binder, expression, body } => if shift_fits(*argument, 0, 1) {
                            NormOut::Done(
                                Tm::Dup {
                                    binder,
                                    expression,
                                    body: Box::new(
                                        Tm::App {
                                            erased,
                                            function: body,
                                            argument: Box::new(shift_tm(*argument, 0, 1)),
                                        },
                                    ),
                                },
                                Ok(()),
                            )
                        } else {
                            NormOut::Overflow
                        },
                        Tm::Lam { body, .. } => if subst_fits(*body, 0, *argument) {
                            match wnorm::<T, D>(d, subst_tm(*body, 0, *argument, true), erase, f) {
                                NormOut::Done(n, Ok(())) => NormOut::Done(n, Ok(())),
                                NormOut::Done(_, Err(e)) => NormOut::Done(stuck, Err(e)),
                                other => other,
                            }
                        } else {
                            NormOut::Overflow
                        },
                        _ => NormOut::Done(stuck, Ok(())),
                    }
                },
                NormOut::Done(g, Err(e)) => NormOut::Done(
                    Tm::App { erased, function: Box::new(g), argument },
                    Err(e),
                ),
                other => other,
            },
            Tm::Put(e) => if erase {
                match wnorm::<T, D>(d, *e, erase, f) {
                    NormOut::Done(n, Ok(())) => NormOut::Done(n, Ok(())),
                    NormOut::Done(n, Err(err)) => NormOut::Done(Tm::Put(Box::new(n)), Err(err)),
                    other => other,
                }
            } else {
                NormOut::Done(t, Ok(()))
            },
            Tm::Dup { binder, expression, body } => if erase {
                if subst_fits(*body, 0, *expression) {
                    match wnorm::<T, D>(d, subst_tm(*body, 0, *expression, true), erase, f) {
                        NormOut::Done(n, Ok(())) => NormOut::Done(n, Ok(())),
                        NormOut::Done(n, Err(e)) => NormOut::Done(
                            Tm::Dup { binder, expression, body: Box::new(n) },
                            Err(e),
                        ),
                        other => other,
                    }
                } else {
                    NormOut::Overflow
                }
            } else {
                match wnorm::<T, D>(d, *expression, erase, f) {
                    NormOut::Done(x, Ok(())) => match x {
                        Tm::Put(inner) => if subst_fits(*body, 0, *inner) {
                            match wnorm::<T, D>(d, subst_tm(*body, 0, *inner, true), erase, f) {
                                NormOut::Done(n, Ok(())) => NormOut::Done(n, Ok(())),
                                NormOut::Done(n, Err(e)) => NormOut::Done(
                                    Tm::Dup { binder, expression: Box::new(x), body: Box::new(n) },
                                    Err(e),
                                ),
                                other => other,
                            }
                        } else {
                            NormOut::Overflow
                        },
                        Tm::Dup { expression: sub_expression, body: sub_body, .. } => if shift_fits(
                            *body,
                            1,
                            1,
                        ) {
                            NormOut::Done(
                                Tm::Dup {
                                    binder: None,
                                    expression: sub_expression,
                                    body: Box::new(
                                        Tm::Dup {
                                            binder: None,
                                            expression: sub_body,
                                            body: Box::new(shift_tm(*body, 1, 1)),
                                        },
                                    ),
                                },
                                Ok(()),
                            )
                        } else {
                            NormOut::Overflow
                        },
                        _ => NormOut::Done(Tm::Dup { binder, expression: Box::new(x), body }, Ok(())),
                    },
                    NormOut::Done(x, Err(e)) => NormOut::Done(
                        Tm::Dup { binder, expression: Box::new(x), body },
                        Err(e),
                    ),
                    other => other,
                }
            },
            Tm::Ann { checked, term, ty } => match wnorm::<T, D>(d, *term, erase, f) {
                NormOut::Done(n, Ok(())) => NormOut::Done(n, Ok(())),
                NormOut::Done(n, Err(e)) => NormOut::Done(
                    Tm::Ann { checked, term: Box::new(n), ty },
                    Err(e),
                ),
                other => other,
            },
            _ => NormOut::Done(t, Ok(())),
        }
    }
}

/// The outcome of a normalization in the annotated model.
pub enum ANormOut<T> {
    OutOfFuel,
    Overflow,
    Done(ATm<T>, Result<(), NormalizationError>),
}

/// Weak-head normalization in the annotated model: as `wnorm`, with every
/// annotation kept in its place. A definition comes in with its own
/// annotations; the nodes that the reduction builds carry `None`, and a
/// duplication floated out of an application keeps its own annotation.
pub open spec fn awnorm<T, D: Definitions<Option<T>>>(
    d: &D,
    t: ATm<Option<T>>,
    erase: bool,
    fuel: nat,
) -> ANormOut<Option<T>>
    decreases fuel,
{
    if fuel == 0 {
        ANormOut::OutOfFuel
    } else {
        let f = (fuel - 1) as nat;
        match t {
            ATm::Ref(b, _) => match d.lookup(b) {
                Some(_) => match d.entry(b) {
                    Some(def) => match awnorm::<T, D>(d, aview(def), erase, f) {
                        ANormOut::Done(n, Ok(())) => ANormOut::Done(n, Ok(())),
                        ANormOut::Done(_, Err(e)) => ANormOut::Done(t, Err(e)),
                        other => other,
                    },
                    None => ANormOut::OutOfFuel,
                },
                None => ANormOut::Done(t, Ok(())),
            },
            ATm::App { erased, function, argument, ann } => match awnorm::<T, D>(
                d,
                *function,
                erase,
                f,
            ) {
                ANormOut::Done(g, Ok(())) => {
                    let stuck = ATm::App { erased, function: Box::new(g), argument, ann };
                    match g {
                        ATm::Put(..) => ANormOut::Done(
                            stuck,
                            Err(NormalizationError::InvalidApplication),
                        ),
                        ATm::Dup { binder, expression, body, ann: dup_ann } => if shift_fits(
                            strip(*argument),
                            0,
                            1,
                        ) {
                            ANormOut::Done(
                                ATm::Dup {
                                    binder,
                                    expression,
                                    body: Box::new(
                                        ATm::App {
                                            erased,
                                            function: body,
                                            argument: Box::new(ashift(*argument, 0, 1)),
                                            ann: None,
                                        },
                                    ),
                                    ann: dup_ann,
                                },
                                Ok(()),
                            )
                        } else {
                            ANormOut::Overflow
                        },
                        ATm::Lam { body, .. } => if subst_fits(strip(*body), 0, strip(*argument)) {
                            match awnorm::<T, D>(
                                d,
                                asubst(*body, 0, *argument, true, None),
                                erase,
                                f,
                            ) {
                                ANormOut::Done(n, Ok(())) => ANormOut::Done(n, Ok(())),
                                ANormOut::Done(_, Err(e)) => ANormOut::Done(stuck, Err(e)),
                                other => other,
                            }
                        } else {
                            ANormOut::Overflow
                        },
                        _ => ANormOut::Done(stuck, Ok(())),
                    }
                },
                ANormOut::Done(g, Err(e)) => ANormOut::Done(
                    ATm::App { erased, function: Box::new(g), argument, ann },
                    Err(e),
                ),
                other => other,
            },
            ATm::Put(e, a) => if erase {
                match awnorm::<T, D>(d, *e, erase, f) {
                    ANormOut::Done(n, Ok(())) => ANormOut::Done(n, Ok(())),
                    ANormOut::Done(n, Err(err)) => ANormOut::Done(ATm::Put(Box::new(n), a), Err(err)),
                    other => other,
                }
            } else {
                ANormOut::Done(t, Ok(()))
            },
            ATm::Dup { binder, expression, body, ann } => if erase {
                if subst_fits(strip(*body), 0, strip(*expression)) {
                    match awnorm::<T, D>(d, asubst(*body, 0, *expression, true, None), erase, f) {
                        ANormOut::Done(n, Ok(())) => ANormOut::Done(n, Ok(())),
                        ANormOut::Done(n, Err(e)) => ANormOut::Done(
                            ATm::Dup { binder, expression, body: Box::new(n), ann },
                            Err(e),
                        ),
                        other => other,
                    }
                } else {
                    ANormOut::Overflow
                }
            } else {
                match awnorm::<T, D>(d, *expression, erase, f) {
                    ANormOut::Done(x, Ok(())) => match x {
                        ATm::Put(inner, _) => if subst_fits(strip(*body), 0, strip(*inner)) {
                            match awnorm::<T, D>(d, asubst(*body, 0, *inner, true, None), erase, f) {
                                ANormOut::Done(n, Ok(())) => ANormOut::Done(n, Ok(())),
                                ANormOut::Done(n, Err(e)) => ANormOut::Done(
                                    ATm::Dup { binder, expression: Box::new(x), body: Box::new(n), ann },
                                    Err(e),
                                ),
                                other => other,
                            }
                        } else {
                            ANormOut::Overflow
                        },
                        ATm::Dup { expression: sub_expression, body: sub_body, .. } => if shift_fits(
                            strip(*body),
                            1,
                            1,
                        ) {
                            ANormOut::Done(
                                ATm::Dup {
                                    binder: None,
                                    expression: sub_expression,
                                    body: Box::new(
                                        ATm::Dup {
                                            binder: None,
                                            expression: sub_body,
                                            body: Box::new(ashift(*body, 1, 1)),
                                            ann: None,
                                        },
                                    ),
                                    ann: None,
                                },
                                Ok(()),
                            )
                        } else {
                            ANormOut::Overflow
                        },
                        _ => ANormOut::Done(ATm::Dup { binder, expression: Box::new(x), body, ann }, Ok(())),
                    },
                    ANormOut::Done(x, Err(e)) => ANormOut::Done(
                        ATm::Dup { binder, expression: Box::new(x), body, ann },
                        Err(e),
                    ),
                    other => other,
                }
            },
            ATm::Ann { checked, term, ty } => match awnorm::<T, D>(d, *term, erase, f) {
                ANormOut::Done(n, Ok(())) => ANormOut::Done(n, Ok(())),
                ANormOut::Done(n, Err(e)) => ANormOut::Done(
                    ATm::Ann { checked, term: Box::new(n), ty },
                    Err(e),
                ),
                other => other,
            },
            _ => ANormOut::Done(t, Ok(())),
        }
    }
}

/// More steps do not change a finished weak-head normalization in the
/// annotated model.
pub proof fn lemma_awnorm_fuel_mono<T, D: Definitions<Option<T>>>(
    d: &D,
    t: ATm<Option<T>>,
    erase: bool,
    fuel: nat,
    more: nat,
)
    requires
        awnorm::<T, D>(d, t, erase, fuel) is Done,
        fuel <= more,
    ensures
        awnorm::<T, D>(d, t, erase, more) == awnorm::<T, D>(d, t, erase, fuel),
    decreases fuel,
{
    if fuel > 0 {
        let f = (fuel - 1) as nat;
        let g = (more - 1) as nat;
        match t {
            ATm::Ref(b, _) => {
                if d.lookup(b) is Some {
                    if let Some(def) = d.entry(b) {
                        lemma_awnorm_fuel_mono::<T, D>(d, aview(def), erase, f, g);
                    }
                }
            },
            ATm::App { function, argument, .. } => {
                lemma_awnorm_fuel_mono::<T, D>(d, *function, erase, f, g);
                if let ANormOut::Done(ATm::Lam { body, .. }, Ok(())) = awnorm::<T, D>(d, *function, erase, f) {
                    if subst_fits(strip(*body), 0, strip(*argument)) {
                        lemma_awnorm_fuel_mono::<T, D>(d, asubst(*body, 0, *argument, true, None), erase, f, g);
                    }
                }
            },
            ATm::Put(e, _) => {
                if erase {
                    lemma_awnorm_fuel_mono::<T, D>(d, *e, erase, f, g);
                }
            },
            ATm::Dup { expression, body, .. } => {
                if erase {
                    if subst_fits(strip(*body), 0, strip(*expression)) {
                        lemma_awnorm_fuel_mono::<T, D>(d, asubst(*body, 0, *expression, true, None), erase, f, g);
                    }
                } else {
                    lemma_awnorm_fuel_mono::<T, D>(d, *expression, erase, f, g);
                    if let ANormOut::Done(ATm::Put(inner, _), Ok(())) = awnorm::<T, D>(d, *expression, erase, f) {
                        if subst_fits(strip(*body), 0, strip(*inner)) {
                            lemma_awnorm_fuel_mono::<T, D>(d, asubst(*body, 0, *inner, true, None), erase, f, g);
                        }
                    }
                }
            },
            ATm::Ann { term, .. } => {
                lemma_awnorm_fuel_mono::<T, D>(d, *term, erase, f, g);
            },
            _ => {},
        }
    }
}

/// The term is already in weak-head form and weak-head normalization leaves
/// it as it is: a lambda, variable, universe, function type, wrap, hole or
/// literal, or a box where boxes are kept.
pub open spec fn weak_head<T>(t: AnalysisTerm<T>, erase: bool) -> bool {
    match t {
        AnalysisTerm::Lambda { .. } | AnalysisTerm::Variable(..) | AnalysisTerm::Universe(_)
        | AnalysisTerm::Function { .. } | AnalysisTerm::Wrap(..) | AnalysisTerm::Hole(_)
        | AnalysisTerm::Compressed(_) => true,
        AnalysisTerm::Put(..) => !erase,
        _ => false,
    }
}

/// The weak-head normalization of `t` finishes within some number of steps
/// without leaving the range of machine indices.
pub open spec fn weakly_normalizes<T, D: Definitions<Option<T>>>(d: &D, t: Tm, erase: bool) -> bool {
    exists|fuel: nat| #[trigger] wnorm::<T, D>(d, t, erase, fuel) is Done
}

pub open spec fn wnorm_fuel<T, D: Definitions<Option<T>>>(d: &D, t: Tm, erase: bool) -> nat {
    choose|fuel: nat| #[trigger] wnorm::<T, D>(d, t, erase, fuel) is Done
}

/// More steps do not change a finished weak-head normalization.
pub proof fn lemma_wnorm_fuel_mono<T, D: Definitions<Option<T>>>(
    d: &D,
    t: Tm,
    erase: bool,
    fuel: nat,
    more: nat,
)
    requires
        wnorm::<T, D>(d, t, erase, fuel) is Done,
        fuel <= more,
    ensures
        wnorm::<T, D>(d, t, erase, more) == wnorm::<T, D>(d, t, erase, fuel),
    decreases fuel,
{
    if fuel > 0 {
        let f = (fuel - 1) as nat;
        let g = (more - 1) as nat;
        match t {
            Tm::Ref(b) => {
                if let Some(def) = d.lookup(b) {
                    lemma_wnorm_fuel_mono::<T, D>(d, def, erase, f, g);
                }
            },
            Tm::App { function, argument, .. } => {
                lemma_wnorm_fuel_mono::<T, D>(d, *function, erase, f, g);
                if let NormOut::Done(Tm::Lam { body, .. }, Ok(())) = wnorm::<T, D>(
                    d,
                    *function,
                    erase,
                    f,
                ) {
                    if subst_fits(*body, 0, *argument) {
                        lemma_wnorm_fuel_mono::<T, D>(
                            d,
                            subst_tm(*body, 0, *argument, true),
                            erase,
                            f,
                            g,
                        );
                    }
                }
            },
            Tm::Put(e) => {
                if erase {
                    lemma_wnorm_fuel_mono::<T, D>(d, *e, erase, f, g);
                }
            },
            Tm::Dup { expression, body, .. } => {
                if erase {
                    if subst_fits(*body, 0, *expression) {
                        lemma_wnorm_fuel_mono::<T, D>(
                            d,
                            subst_tm(*body, 0, *expression, true),
                            erase,
                            f,
                            g,
                        );
                    }
                } else {
                    lemma_wnorm_fuel_mono::<T, D>(d, *expression, erase, f, g);
                    if let NormOut::Done(Tm::Put(inner), Ok(())) = wnorm::<T, D>(
                        d,
                        *expression,
                        erase,
                        f,
                    ) {
                        if subst_fits(*body, 0, *inner) {
                            lemma_wnorm_fuel_mono::<T, D>(
                                d,
                                subst_tm(*body, 0, *inner, true),
                                erase,
                                f,
                                g,
                            );
                        }
                    }
                }
            },
            Tm::Ann { term, .. } => {
                lemma_wnorm_fuel_mono::<T, D>(d, *term, erase, f, g);
            },
            _ => {},
        }
    }
}

/// Any two step bounds within which the weak-head normalization of `t`
/// finishes give the same outcome.
pub proof fn lemma_wnorm_deterministic<T, D: Definitions<Option<T>>>(
    d: &D,
    t: Tm,
    erase: bool,
    f1: nat,
    f2: nat,
)
    requires
        wnorm::<T, D>(d, t, erase, f1) is Done,
        wnorm::<T, D>(d, t, erase, f2) is Done,
    ensures
        wnorm::<T, D>(d, t, erase, f1) == wnorm::<T, D>(d, t, erase, f2),
{
    if f1 <= f2 {
        lemma_wnorm_fuel_mono::<T, D>(d, t, erase, f1, f2);
    } else {
        lemma_wnorm_fuel_mono::<T, D>(d, t, erase, f2, f1);
    }
}

impl<T: Clone> AnalysisTerm<Option<T>> {
    fn weak_normalize_fuel<U: Definitions<Option<T>>>(
        &mut self,
        definitions: &U,
        erase: bool,
        Ghost(fuel): Ghost<nat>,
    ) -> (res: Result<(), NormalizationError>)
        requires
            wnorm::<T, U>(definitions, old(self)@, erase, fuel) is Done,
        ensures
            wnorm::<T, U>(definitions, old(self)@, erase, fuel) == NormOut::Done(final(self)@, res),
            anns_all(*old(self), None) && defs_all(definitions, None) ==> anns_all(*final(self), None),
            weak_head(*old(self), erase) ==> *final(self) == *old(self) && res is Ok,
            clone_exact::<Option<T>>() ==> awnorm::<T, U>(definitions, aview(*old(self)), erase, fuel)
                == ANormOut::Done(aview(*final(self)), res),
        decreases fuel, 1nat,
    {
        proof {
            lemma_none_clone_keeps::<T>();
            lemma_none_zero_is::<T>();
        }
        let ghost f = (fuel - 1) as nat;
        match self {
            AnalysisTerm::Reference(binding, _) => {
                match definitions.get(binding.as_str()) {
                    Some(found) => {
                        let mut term = found.as_ref().clone();
                        proof {
                            if clone_exact::<Option<T>>() {
                                lemma_copied_exact(found.spec_as_ref(), term);
                            }
                        }
                        match term.weak_normalize_fuel(definitions, erase, Ghost(f)) {
                            Ok(()) => {
                                *self = term;
                                Ok(())
                            },
                            Err(e) => Err(e),
                        }
                    },
                    None => Ok(()),
                }
            },
            AnalysisTerm::Application { .. } => self.weak_normalize_application(definitions, erase, Ghost(fuel)),
            AnalysisTerm::Put(term, _) => {
                if erase {
                    match term.weak_normalize_fuel(definitions, erase, Ghost(f)) {
                        Ok(()) => {},
                        Err(e) => {
                            return Err(e);
                        },
                    }
                    let b = replace_term(&mut **term, AnalysisTerm::Universe(None));
                    *self = b;
                }
                Ok(())
            },
            AnalysisTerm::Duplication { .. } => if erase {
                self.weak_normalize_dup_erased(definitions, erase, Ghost(fuel))
            } else {
                self.weak_normalize_dup_kept(definitions, erase, Ghost(fuel))
            },
            AnalysisTerm::Variable(_, _)
            | AnalysisTerm::Lambda { .. }
            | AnalysisTerm::Universe(_)
            | AnalysisTerm::Function { .. }
            | AnalysisTerm::Wrap(_, _)
            | AnalysisTerm::Hole(_)
            | AnalysisTerm::Compressed(_) => Ok(()),
            AnalysisTerm::Annotation { term, .. } => {
                match term.weak_normalize_fuel(definitions, erase, Ghost(f)) {
                    Ok(()) => {},
                    Err(e) => {
                        return Err(e);
                    },
                }
                let b = replace_term(&mut **term, AnalysisTerm::Universe(None));
                *self = b;
                Ok(())
            },
        }
    }

    #[verifier::spinoff_prover]
    fn weak_normalize_application<U: Definitions<Option<T>>>(
        &mut self,
        definitions: &U,
        erase: bool,
        Ghost(fuel): Ghost<nat>,
    ) -> (res: Result<(), NormalizationError>)
        requires
            old(self)@ is App,
            wnorm::<T, U>(definitions, old(self)@, erase, fuel) is Done,
        ensures
            wnorm::<T, U>(definitions, old(self)@, erase, fuel) == NormOut::Done(final(self)@, res),
            anns_all(*old(self), None) && defs_all(definitions, None) ==> anns_all(*final(self), None),
            clone_exact::<Option<T>>() ==> awnorm::<T, U>(definitions, aview(*old(self)), erase, fuel)
                == ANormOut::Done(aview(*final(self)), res),
        decreases fuel, 0nat,
    {
        proof {
            lemma_none_clone_keeps::<T>();
            lemma_none_zero_is::<T>();
        }
        let ghost f = (fuel - 1) as nat;
        let ghost plain = anns_all(*self, None) && defs_all(definitions, None);
        let ghost ex = clone_exact::<Option<T>>();
        broadcast use lemma_strip_aview;
        match self {
            AnalysisTerm::Application { function, argument, erased, .. } => {
            match function.weak_normalize_fuel(definitions, erase, Ghost(f)) {
                Ok(()) => {},
                Err(e) => {
                    return Err(e);
                },
            }
            let func = (**function).clone();
            proof {
                if ex {
                    lemma_copied_exact(**function, func);
                }
                if plain {
                    assert(anns_all(**function, None));
                    assert(anns_all(func, None));
                    assert(anns_all(**argument, None));
                }
            }
            match func {
                AnalysisTerm::Put(_, _) => {
                    proof {
                        if plain {
                            assert(anns_all(*self, None));
                        }
                    }
                    Err(NormalizationError::InvalidApplication)
                },
                AnalysisTerm::Duplication { body, expression, annotation, binder } => {
                    let ghost a0 = (**argument)@;
                    let ghost b0 = (*body)@;
                    let ghost b1 = *body;
                    let ghost oa = **argument;
                    let mut argument = (**argument).clone();
                    let ghost c = argument;
                    argument.shift_top();
                    proof {
                        if ex {
                            lemma_copied_exact(oa, c);
                            lemma_aview_shift(c, 0, 1);
                            assert(aview(argument) == ashift(aview(oa), 0, 1));
                        }
                        if plain {
                            assert(anns_all(c, None));
                            lemma_shift_at_anns(c, 0, 1, None);
                            assert(anns_all(*body, None));
                            assert(anns_all(*expression, None));
                            assert(annotation == None::<T>);
                        }
                    }
                    assert(argument@ == shift_tm(a0, 0, 1));
                    let body = Box::new(
                        AnalysisTerm::Application {
                            function: body,
                            argument: Box::new(argument),
                            erased: *erased,
                            annotation: None,
                        },
                    );
                    assert(body@ == Tm::App { erased: *erased, function: Box::new(b0), argument: Box::new(shift_tm(a0, 0, 1)) });
                    proof {
                        if plain {
                            assert(anns_all(*body, None));
                        }
                        if ex {
                            assert(aview(*body) == ATm::App { erased: *erased, function: Box::new(aview(b1)), argument: Box::new(ashift(aview(oa), 0, 1)), ann: None::<T> });
                        }
                    }
                    *self = AnalysisTerm::Duplication { expression, body, annotation, binder };
                    proof {
                        if plain {
                            assert(anns_all(*self, None));
                        }
                    }
                    Ok(())
                },
                AnalysisTerm::Lambda { mut body, .. } => {
                    proof {
                        if plain {
                            assert(anns_all(*body, None));
                        }
                    }
                    let ghost ob = *body;
                    body.substitute_top_in(argument);
                    proof {
                        if ex {
                            assert(asubst(aview(ob), 0, aview(**argument), true, None) == aview(*body));
                        }
                        if plain {
                            assert(anns_all(*body, None));
                        }
                    }
                    match body.weak_normalize_fuel(definitions, erase, Ghost(f)) {
                        Ok(()) => {},
                        Err(e) => {
                            return Err(e);
                        },
                    }
                    *self = *body;
                    proof {
                        if plain {
                            assert(anns_all(*self, None));
                        }
                    }
                    Ok(())
                },
                _ => {
                    proof {
                        if plain {
                            assert(anns_all(*self, None));
                        }
                    }
                    Ok(())
                },
            }
            },
            _ => Ok(()),
        }
    }

    #[verifier::spinoff_prover]
    fn weak_normalize_dup_erased<U: Definitions<Option<T>>>(
        &mut self,
        definitions: &U,
        erase: bool,
        Ghost(fuel): Ghost<nat>,
    ) -> (res: Result<(), NormalizationError>)
        requires
            old(self)@ is Dup,
            erase,
            wnorm::<T, U>(definitions, old(self)@, erase, fuel) is Done,
        ensures
            wnorm::<T, U>(definitions, old(self)@, erase, fuel) == NormOut::Done(final(self)@, res),
            anns_all(*old(self), None) && defs_all(definitions, None) ==> anns_all(*final(self), None),
            clone_exact::<Option<T>>() ==> awnorm::<T, U>(definitions, aview(*old(self)), erase, fuel)
                == ANormOut::Done(aview(*final(self)), res),
        decreases fuel, 0nat,
    {
        proof {
            lemma_none_clone_keeps::<T>();
            lemma_none_zero_is::<T>();
        }
        broadcast use lemma_strip_aview;
        let ghost f = (fuel - 1) as nat;
        let ghost plain = anns_all(*self, None) && defs_all(definitions, None);
        let ghost ex = clone_exact::<Option<T>>();
        match self {
            AnalysisTerm::Duplication { body, expression, .. } => {
                let ghost ob = **body;
                let ghost ox = **expression;
                proof {
                    if plain {
                        assert(anns_all(**body, None));
                        assert(anns_all(**expression, None));
                    }
                }
                body.substitute_top_in(expression);
                proof {
                    if plain {
                        assert(anns_all(**body, None));
                    }
                    if ex {
                        assert(asubst(aview(ob), 0, aview(ox), true, None) == aview(**body));
                    }
                }
                match body.weak_normalize_fuel(definitions, erase, Ghost(f)) {
                    Ok(()) => {},
                    Err(e) => {
                        return Err(e);
                    },
                }
                let b = replace_term(&mut **body, AnalysisTerm::Universe(None));
                *self = b;
                Ok(())
            },
            _ => Ok(()),
        }
    }

    #[verifier::spinoff_prover]
    fn weak_normalize_dup_kept<U: Definitions<Option<T>>>(
        &mut self,
        definitions: &U,
        erase: bool,
        Ghost(fuel): Ghost<nat>,
    ) -> (res: Result<(), NormalizationError>)
        requires
            old(self)@ is Dup,
            !erase,
            wnorm::<T, U>(definitions, old(self)@, erase, fuel) is Done,
        ensures
            wnorm::<T, U>(definitions, old(self)@, erase, fuel) == NormOut::Done(final(self)@, res),
            anns_all(*old(self), None) && defs_all(definitions, None) ==> anns_all(*final(self), None),
            clone_exact::<Option<T>>() ==> awnorm::<T, U>(definitions, aview(*old(self)), erase, fuel)
                == ANormOut::Done(aview(*final(self)), res),
        decreases fuel, 0nat,
    {
        proof {
            lemma_none_clone_keeps::<T>();
            lemma_none_zero_is::<T>();
        }
        broadcast use lemma_strip_aview;
        let ghost f = (fuel - 1) as nat;
        let ghost plain = anns_all(*self, None) && defs_all(definitions, None);
        let ghost ex = clone_exact::<Option<T>>();
        let ghost start = *self;
        match self {
            AnalysisTerm::Duplication { body, expression, .. } => {
                let ghost ox = **expression;
                let ghost obody = **body;
                match expression.weak_normalize_fuel(definitions, erase, Ghost(f)) {
                    Ok(()) => {},
                    Err(e) => {
                        return Err(e);
                    },
                }
                let ghost x = **expression;
                let head = (**expression).clone();
                let ghost head_copy = head;
                proof {
                    if plain {
                        assert(anns_all(**expression, None));
                        assert(anns_all(head, None));
                        assert(anns_all(**body, None));
                    }
                    if ex {
                        lemma_copied_exact(**expression, head);
                    }
                }
                match head {
                    AnalysisTerm::Put(term, _) => {
                        let ghost ob = **body;
                        proof {
                            if plain {
                                assert(anns_all(*term, None));
                            }
                        }
                        body.substitute_top_in(&*term);
                        proof {
                            if plain {
                                assert(anns_all(**body, None));
                            }
                            if ex {
                                assert(asubst(aview(ob), 0, aview(*term), true, None) == aview(**body));
                            }
                        }
                        match body.weak_normalize_fuel(definitions, erase, Ghost(f)) {
                            Ok(()) => {},
                            Err(e) => {
                                return Err(e);
                            },
                        }
                        let b = replace_term(&mut **body, AnalysisTerm::Universe(None));
                        *self = b;
                        Ok(())
                    },
                    AnalysisTerm::Duplication {
                        body: sub_body,
                        expression: sub_expression,
                        ..
                    } => {
                        let ghost b0 = (**body)@;
                        let ghost sb = (*sub_body)@;
                        let ghost ob = **body;
                        body.shift(1);
                        let copy = (**body).clone();
                        proof {
                            if plain {
                                lemma_shift_at_anns(ob, 1, 1, None);
                                assert(anns_all(copy, None));
                                assert(anns_all(*sub_body, None));
                                assert(anns_all(*sub_expression, None));
                            }
                            if ex {
                                lemma_aview_shift(ob, 1, 1);
                                lemma_copied_exact(**body, copy);
                                assert(aview(copy) == ashift(aview(ob), 1, 1));
                            }
                        }
                        let dup = AnalysisTerm::Duplication {
                            body: Box::new(copy),
                            expression: sub_body,
                            annotation: None,
                            binder: None,
                        };
                        assert(dup@ == Tm::Dup { binder: None, expression: Box::new(sb), body: Box::new(shift_tm(b0, 1, 1)) });
                        proof {
                            if plain {
                                assert(anns_all(dup, None));
                            }
                            if ex {
                                assert(aview(dup) == ATm::Dup { binder: None, expression: Box::new(aview(*sub_body)), body: Box::new(ashift(aview(ob), 1, 1)), ann: None::<T> });
                            }
                        }
                        *self = AnalysisTerm::Duplication {
                            expression: sub_expression,
                            body: Box::new(dup),
                            annotation: None,
                            binder: None,
                        };
                        proof {
                            if plain {
                                assert(anns_all(*self, None));
                            }
                            if ex {
                                assert(aview(x) is Dup);
                                assert(awnorm::<T, U>(definitions, aview(ox), erase, f) == ANormOut::Done(aview(x), Ok::<(), NormalizationError>(())));
                                assert(start matches AnalysisTerm::Duplication { body: bb, expression: xx, .. } && *bb == obody && *xx == ox);
                                assert(obody == ob);
                                assert(shift_fits(strip(aview(ob)), 1, 1));
                                assert(aview(x) == aview(head_copy));
                                assert(aview(head_copy) matches ATm::Dup { expression: e, body: b, .. } && *e == aview(*sub_expression) && *b == aview(*sub_body));
                                assert(aview(*self) == ATm::Dup { binder: None, expression: Box::new(aview(*sub_expression)), body: Box::new(ATm::Dup { binder: None, expression: Box::new(aview(*sub_body)), body: Box::new(ashift(aview(ob), 1, 1)), ann: None }), ann: None::<T> });
                                assert(awnorm::<T, U>(definitions, aview(start), erase, fuel) == ANormOut::Done(aview(*self), Ok::<(), NormalizationError>(())));
                            }
                        }
                        Ok(())
                    },
                    _ => {
                        proof {
                            if ex {
                                assert(!(aview(x) is Dup) && !(aview(x) is Put));
                                assert(awnorm::<T, U>(definitions, aview(start), erase, fuel) == ANormOut::Done(aview(*self), Ok::<(), NormalizationError>(())));
                            }
                        }
                        Ok(())
                    },
                }
            },
            _ => Ok(()),
        }
    }

    /// Weak-head normalization; with `erase`, boxes and duplications are
    /// erased too.
    pub fn weak_normalize_in_erased<U: Definitions<Option<T>>>(
        &mut self,
        definitions: &U,
        erase: bool,
    ) -> (res: Result<(), NormalizationError>)
        requires
            weakly_normalizes::<T, U>(definitions, old(self)@, erase),
        ensures
            forall|fuel: nat| #[trigger]
                wnorm::<T, U>(definitions, old(self)@, erase, fuel) is Done ==> wnorm::<T, U>(
                    definitions,
                    old(self)@,
                    erase,
                    fuel,
                ) == NormOut::Done(final(self)@, res),
            anns_all(*old(self), None) && defs_all(definitions, None) ==> anns_all(*final(self), None),
            weak_head(*old(self), erase) ==> *final(self) == *old(self) && res is Ok,
            clone_exact::<Option<T>>() ==> exists|fuel: nat| #[trigger]
                awnorm::<T, U>(definitions, aview(*old(self)), erase, fuel) is Done,
            clone_exact::<Option<T>>() ==> forall|fuel: nat| #[trigger]
                awnorm::<T, U>(definitions, aview(*old(self)), erase, fuel) is Done ==> awnorm::<T, U>(
                    definitions,
                    aview(*old(self)),
                    erase,
                    fuel,
                ) == ANormOut::Done(aview(*final(self)), res),
    {
        let ghost start = self@;
        let ghost astart = aview(*self);
        let ghost fuel = wnorm_fuel::<T, U>(definitions, start, erase);
        let res = self.weak_normalize_fuel(definitions, erase, Ghost(fuel));
        proof {
            if clone_exact::<Option<T>>() {
                assert forall|other: nat| #[trigger]
                    awnorm::<T, U>(definitions, astart, erase, other) is Done implies awnorm::<T, U>(
                    definitions,
                    astart,
                    erase,
                    other,
                ) == ANormOut::Done(aview(*self), res) by {
                    if fuel <= other {
                        lemma_awnorm_fuel_mono::<T, U>(definitions, astart, erase, fuel, other);
                    } else {
                        lemma_awnorm_fuel_mono::<T, U>(definitions, astart, erase, other, fuel);
                    }
                }
                assert(awnorm::<T, U>(definitions, astart, erase, fuel) is Done);
            }
            assert forall|other: nat| #[trigger]
                wnorm::<T, U>(definitions, start, erase, other) is Done implies wnorm::<T, U>(
                definitions,
                start,
                erase,
                other,
            ) == NormOut::Done(self@, res) by {
                lemma_wnorm_deterministic::<T, U>(definitions, start, erase, fuel, other);
            }
        }
        res
    }

    /// Weak-head normalization that keeps boxes and duplications.
    pub fn weak_normalize_in<U: Definitions<Option<T>>>(&mut self, definitions: &U) -> (res:
        Result<(), NormalizationError>)
        requires
            weakly_normalizes::<T, U>(definitions, old(self)@, false),
        ensures
            forall|fuel: nat| #[trigger]
                wnorm::<T, U>(definitions, old(self)@, false, fuel) is Done ==> wnorm::<T, U>(
                    definitions,
                    old(self)@,
                    false,
                    fuel,
                ) == NormOut::Done(final(self)@, res),
            anns_all(*old(self), None) && defs_all(definitions, None) ==> anns_all(*final(self), None),
            weak_head(*old(self), false) ==> *final(self) == *old(self) && res is Ok,
            clone_exact::<Option<T>>() ==> exists|fuel: nat| #[trigger]
                awnorm::<T, U>(definitions, aview(*old(self)), false, fuel) is Done,
            clone_exact::<Option<T>>() ==> forall|fuel: nat| #[trigger]
                awnorm::<T, U>(definitions, aview(*old(self)), false, fuel) is Done ==> awnorm::<T, U>(
                    definitions,
                    aview(*old(self)),
                    false,
                    fuel,
                ) == ANormOut::Done(aview(*final(self)), res),
    {
        self.weak_normalize_in_erased(definitions, false)
    }

    /// Replaces a literal by the term it stands for.
    pub fn decompress(&mut self)
        ensures
            final(self)@ == match old(self)@ {
                Tm::Lit(l) => lit_tm(l),
                other => other,
            },
    {
        match self {
            AnalysisTerm::Compressed(data) => {
                let expanded = data.expand_full();
                *self = expanded;
            },
            _ => {},
        }
    }
}

/// Normalization respects beta reduction: an application of a lambda (not
/// erased) normalizes as the argument substituted into the normalized body,
/// with the other free variables of the body lowered by one.
pub proof fn lemma_norm_beta<T, D: Definitions<T>>(
    d: &D,
    name: Option<Seq<char>>,
    body: Tm,
    argument: Tm,
    fuel: nat,
)
    requires
        fuel >= 2,
        norm::<T, D>(d, body, (fuel - 2) as nat) is Done,
        norm::<T, D>(d, body, (fuel - 2) as nat)->Done_1 is Ok,
        subst_fits(norm::<T, D>(d, body, (fuel - 2) as nat)->Done_0, 0, argument),
    ensures
        ({
            let b = norm::<T, D>(d, body, (fuel - 2) as nat)->Done_0;
            let app = Tm::App {
                erased: false,
                function: Box::new(lam(false, name, body)),
                argument: Box::new(argument),
            };
            match norm::<T, D>(d, subst_tm(b, 0, argument, true), (fuel - 1) as nat) {
                NormOut::Done(n, Ok(())) => norm::<T, D>(d, app, fuel) == NormOut::Done(
                    n,
                    Ok::<(), NormalizationError>(()),
                ),
                NormOut::Done(_, Err(e)) => norm::<T, D>(d, app, fuel) is Done
                    && norm::<T, D>(d, app, fuel)->Done_1 == Err::<(), NormalizationError>(e),
                other => norm::<T, D>(d, app, fuel) == other,
            }
        }),
{
    let b = norm::<T, D>(d, body, (fuel - 2) as nat)->Done_0;
    assert(norm::<T, D>(d, lam(false, name, body), (fuel - 1) as nat) == NormOut::Done(
        lam(false, name, b),
        Ok::<(), NormalizationError>(()),
    ));
}

/// Weak-head normalization opens a box bound by a duplication: where the
/// duplication's expression reduces to a box (and boxes are kept), the
/// duplication reduces as the box's content substituted into its body, with
/// the other free variables of the body lowered by one.
pub proof fn lemma_wnorm_open_box<T, D: Definitions<Option<T>>>(
    d: &D,
    binder: Option<Seq<char>>,
    expression: Tm,
    body: Tm,
    content: Tm,
    fuel: nat,
)
    requires
        fuel >= 1,
        wnorm::<T, D>(d, expression, false, (fuel - 1) as nat) == NormOut::Done(
            Tm::Put(Box::new(content)),
            Ok::<(), NormalizationError>(()),
        ),
        subst_fits(body, 0, content),
    ensures
        ({
            let dup = Tm::Dup { binder, expression: Box::new(expression), body: Box::new(body) };
            match wnorm::<T, D>(d, subst_tm(body, 0, content, true), false, (fuel - 1) as nat) {
                NormOut::Done(n, Ok(())) => wnorm::<T, D>(d, dup, false, fuel) == NormOut::Done(
                    n,
                    Ok::<(), NormalizationError>(()),
                ),
                NormOut::Done(_, Err(e)) => wnorm::<T, D>(d, dup, false, fuel) is Done
                    && wnorm::<T, D>(d, dup, false, fuel)->Done_1 == Err::<(), NormalizationError>(e),
                other => wnorm::<T, D>(d, dup, false, fuel) == other,
            }
        }),
{
}

/// Every definition of the table is a closed term.
pub open spec fn defs_closed<T, D: Definitions<T>>(d: &D) -> bool {
    forall|name: Seq<char>| #[trigger] d.lookup(name) is Some ==> vars_below(d.lookup(name)->Some_0, 0)
}

/// Normalization never lets a variable escape its binder: with closed
/// definitions, where the free variables of the term are below `k`, those
/// of the result are too. The one exception is an erased lambda at the top
/// of the term, whose variable becomes variable zero: at `k == 0` the bound
/// is one.
pub proof fn lemma_norm_vars_below<T, D: Definitions<T>>(d: &D, t: Tm, k: int, fuel: nat)
    requires
        defs_closed::<T, D>(d),
        k >= 0,
        vars_below(t, k),
        norm::<T, D>(d, t, fuel) is Done,
    ensures
        vars_below(norm::<T, D>(d, t, fuel)->Done_0, if k >= 1 { k } else { 1 }),
    decreases fuel, 1nat,
{
    let f = (fuel - 1) as nat;
    let kk = if k >= 1 { k } else { 1 };
    lemma_vars_below_mono(t, k, kk);
    match t {
        Tm::Ref(b) => {
            if let Some(def) = d.lookup(b) {
                lemma_norm_vars_below::<T, D>(d, def, 0, f);
                lemma_vars_below_mono(norm::<T, D>(d, def, f)->Done_0, 1, kk);
            }
        },
        Tm::Lam { body, erased, .. } => {
            lemma_norm_vars_below::<T, D>(d, *body, k + 1, f);
            let b = norm::<T, D>(d, *body, f)->Done_0;
            lemma_vars_below_mono(b, k + 1, kk + 1);
            if erased {
                lemma_subst_vars_below(b, 0, Tm::Var(0), kk);
            }
        },
        Tm::Put(e) => lemma_norm_vars_below::<T, D>(d, *e, k, f),
        Tm::Dup { .. } => lemma_norm_vars_below_dup::<T, D>(d, t, k, fuel),
        Tm::App { .. } => lemma_norm_vars_below_app::<T, D>(d, t, k, fuel),
        Tm::Ann { term, .. } => lemma_norm_vars_below::<T, D>(d, *term, k, f),
        _ => {},
    }
}

proof fn lemma_norm_vars_below_dup<T, D: Definitions<T>>(d: &D, t: Tm, k: int, fuel: nat)
    requires
        t is Dup,
        defs_closed::<T, D>(d),
        k >= 0,
        vars_below(t, k),
        norm::<T, D>(d, t, fuel) is Done,
    ensures
        vars_below(norm::<T, D>(d, t, fuel)->Done_0, if k >= 1 { k } else { 1 }),
    decreases fuel, 0nat,
{
    let f = (fuel - 1) as nat;
    let kk = if k >= 1 { k } else { 1 };
    if let Tm::Dup { expression, body, .. } = t {
        lemma_vars_below_mono(*expression, k, kk);
        lemma_subst_vars_below(*body, 0, *expression, k);
        let s = subst_tm(*body, 0, *expression, true);
        lemma_norm_vars_below::<T, D>(d, s, k, f);
        lemma_vars_below_mono(norm::<T, D>(d, s, f)->Done_0, kk, kk + 1);
    }
}

proof fn lemma_norm_vars_below_app<T, D: Definitions<T>>(d: &D, t: Tm, k: int, fuel: nat)
    requires
        t is App,
        defs_closed::<T, D>(d),
        k >= 0,
        vars_below(t, k),
        norm::<T, D>(d, t, fuel) is Done,
    ensures
        vars_below(norm::<T, D>(d, t, fuel)->Done_0, if k >= 1 { k } else { 1 }),
    decreases fuel, 0nat,
{
    let f = (fuel - 1) as nat;
    let kk = if k >= 1 { k } else { 1 };
    if let Tm::App { erased, function, argument } = t {
        lemma_vars_below_mono(*argument, k, kk);
        lemma_norm_vars_below::<T, D>(d, *function, k, f);
        if let NormOut::Done(g, Ok(())) = norm::<T, D>(d, *function, f) {
            if !erased {
                match g {
                    Tm::Lam { body, .. } => {
                        if subst_fits(*body, 0, *argument) {
                            lemma_subst_vars_below(*body, 0, *argument, kk);
                            lemma_norm_vars_below::<T, D>(d, subst_tm(*body, 0, *argument, true), kk, f);
                        }
                    },
                    Tm::Put(_) => {},
                    _ => lemma_norm_vars_below::<T, D>(d, *argument, k, f),
                }
            }
        }
    }
}

/// Weak-head normalization never lets a variable escape its binder: with
/// closed definitions, where the free variables of the term are below `k`,
/// those of the result are too.
pub proof fn lemma_wnorm_vars_below<T, D: Definitions<Option<T>>>(
    d: &D,
    t: Tm,
    erase: bool,
    k: int,
    fuel: nat,
)
    requires
        defs_closed::<Option<T>, D>(d),
        k >= 0,
        vars_below(t, k),
        wnorm::<T, D>(d, t, erase, fuel) is Done,
    ensures
        vars_below(wnorm::<T, D>(d, t, erase, fuel)->Done_0, k),
    decreases fuel, 1nat,
{
    let f = (fuel - 1) as nat;
    match t {
        Tm::Ref(b) => {
            if let Some(def) = d.lookup(b) {
                lemma_wnorm_vars_below::<T, D>(d, def, erase, 0, f);
                lemma_vars_below_mono(wnorm::<T, D>(d, def, erase, f)->Done_0, 0, k);
            }
        },
        Tm::App { .. } => lemma_wnorm_vars_below_app::<T, D>(d, t, erase, k, fuel),
        Tm::Put(e) => {
            if erase {
                lemma_wnorm_vars_below::<T, D>(d, *e, erase, k, f);
            }
        },
        Tm::Dup { .. } => lemma_wnorm_vars_below_dup::<T, D>(d, t, erase, k, fuel),
        Tm::Ann { term, .. } => lemma_wnorm_vars_below::<T, D>(d, *term, erase, k, f),
        _ => {},
    }
}

proof fn lemma_wnorm_vars_below_app<T, D: Definitions<Option<T>>>(
    d: &D,
    t: Tm,
    erase: bool,
    k: int,
    fuel: nat,
)
    requires
        t is App,
        defs_closed::<Option<T>, D>(d),
        k >= 0,
        vars_below(t, k),
        wnorm::<T, D>(d, t, erase, fuel) is Done,
    ensures
        vars_below(wnorm::<T, D>(d, t, erase, fuel)->Done_0, k),
    decreases fuel, 0nat,
{
    let f = (fuel - 1) as nat;
    if let Tm::App { function, argument, .. } = t {
        lemma_wnorm_vars_below::<T, D>(d, *function, erase, k, f);
        if let NormOut::Done(g, Ok(())) = wnorm::<T, D>(d, *function, erase, f) {
            match g {
                Tm::Dup { binder, expression, body } => {
                    assert(vars_below(*expression, k) && vars_below(*body, k + 1));
                    lemma_shift_vars_below(*argument, 0, 1, k);
                    if let Tm::App { erased, .. } = t {
                        let inner = Tm::App {
                            erased,
                            function: body,
                            argument: Box::new(shift_tm(*argument, 0, 1)),
                        };
                        assert(vars_below(inner, k + 1));
                        assert(vars_below(Tm::Dup { binder, expression, body: Box::new(inner) }, k));
                    }
                },
                Tm::Lam { body, .. } => {
                    if subst_fits(*body, 0, *argument) {
                        lemma_subst_vars_below(*body, 0, *argument, k);
                        lemma_wnorm_vars_below::<T, D>(d, subst_tm(*body, 0, *argument, true), erase, k, f);
                    }
                },
                _ => {},
            }
        }
    }
}

proof fn lemma_wnorm_vars_below_dup<T, D: Definitions<Option<T>>>(
    d: &D,
    t: Tm,
    erase: bool,
    k: int,
    fuel: nat,
)
    requires
        t is Dup,
        defs_closed::<Option<T>, D>(d),
        k >= 0,
        vars_below(t, k),
        wnorm::<T, D>(d, t, erase, fuel) is Done,
    ensures
        vars_below(wnorm::<T, D>(d, t, erase, fuel)->Done_0, k),
    decreases fuel, 0nat,
{
    let f = (fuel - 1) as nat;
    if let Tm::Dup { expression, body, .. } = t {
        if erase {
            if subst_fits(*body, 0, *expression) {
                let s = subst_tm(*body, 0, *expression, true);
                lemma_subst_vars_below(*body, 0, *expression, k);
                lemma_wnorm_vars_below::<T, D>(d, s, erase, k, f);
                lemma_vars_below_mono(wnorm::<T, D>(d, s, erase, f)->Done_0, k, k + 1);
            }
        } else {
            lemma_wnorm_vars_below::<T, D>(d, *expression, erase, k, f);
            if let NormOut::Done(x, Ok(())) = wnorm::<T, D>(d, *expression, erase, f) {
                match x {
                    Tm::Put(inner) => {
                        if subst_fits(*body, 0, *inner) {
                            let s = subst_tm(*body, 0, *inner, true);
                            lemma_subst_vars_below(*body, 0, *inner, k);
                            lemma_wnorm_vars_below::<T, D>(d, s, erase, k, f);
                            lemma_vars_below_mono(wnorm::<T, D>(d, s, erase, f)->Done_0, k, k + 1);
                        }
                    },
                    Tm::Dup { expression: sub_expression, body: sub_body, .. } => {
                        assert(vars_below(*sub_expression, k) && vars_below(*sub_body, k + 1));
                        lemma_shift_vars_below(*body, 1, 1, k + 1);
                        let inner = Tm::Dup {
                            binder: None,
                            expression: sub_body,
                            body: Box::new(shift_tm(*body, 1, 1)),
                        };
                        assert(vars_below(inner, k + 1));
                        assert(vars_below(
                            Tm::Dup { binder: None, expression: sub_expression, body: Box::new(inner) },
                            k,
                        ));
                    },
                    _ => {},
                }
            }
        }
    }
}

/// `n` is in weak-head form for the definitions `d`: no annotation and no
/// reference to a defined name at its head, no application of a lambda, a
/// box or a duplication; with `erase`, no box or duplication at all, and
/// without it, no duplication of a box or of a duplication.
pub open spec fn whnf_form<T, D: Definitions<Option<T>>>(d: &D, n: Tm, erase: bool) -> bool {
    match n {
        Tm::Ann { .. } => false,
        Tm::Ref(r) => d.lookup(r) is None,
        Tm::App { function, .. } => !(*function is Lam) && !(*function is Dup) && !(*function is Put),
        Tm::Put(_) => !erase,
        Tm::Dup { expression, .. } => !erase && !(*expression is Put) && !(*expression is Dup),
        _ => true,
    }
}

/// What weak-head normalization gives back without error is in weak-head
/// form.
pub proof fn lemma_wnorm_whnf<T, D: Definitions<Option<T>>>(d: &D, t: Tm, erase: bool, fuel: nat)
    requires
        wnorm::<T, D>(d, t, erase, fuel) matches NormOut::Done(_, Ok(())),
    ensures
        whnf_form::<T, D>(d, wnorm::<T, D>(d, t, erase, fuel)->Done_0, erase),
    decreases fuel, 1nat,
{
    let f = (fuel - 1) as nat;
    match t {
        Tm::Ref(b) => {
            if let Some(def) = d.lookup(b) {
                lemma_wnorm_whnf::<T, D>(d, def, erase, f);
            }
        },
        Tm::App { .. } => lemma_wnorm_whnf_app::<T, D>(d, t, erase, fuel),
        Tm::Put(e) => {
            if erase {
                lemma_wnorm_whnf::<T, D>(d, *e, erase, f);
            }
        },
        Tm::Dup { .. } => lemma_wnorm_whnf_dup::<T, D>(d, t, erase, fuel),
        Tm::Ann { term, .. } => lemma_wnorm_whnf::<T, D>(d, *term, erase, f),
        _ => {},
    }
}

proof fn lemma_wnorm_whnf_app<T, D: Definitions<Option<T>>>(d: &D, t: Tm, erase: bool, fuel: nat)
    requires
        t is App,
        wnorm::<T, D>(d, t, erase, fuel) matches NormOut::Done(_, Ok(())),
    ensures
        whnf_form::<T, D>(d, wnorm::<T, D>(d, t, erase, fuel)->Done_0, erase),
    decreases fuel, 0nat,
{
    let f = (fuel - 1) as nat;
    if let Tm::App { function, argument, .. } = t {
        lemma_wnorm_whnf::<T, D>(d, *function, erase, f);
        if let NormOut::Done(Tm::Lam { body, .. }, Ok(())) = wnorm::<T, D>(d, *function, erase, f) {
            if subst_fits(*body, 0, *argument) {
                lemma_wnorm_whnf::<T, D>(d, subst_tm(*body, 0, *argument, true), erase, f);
            }
        }
    }
}

proof fn lemma_wnorm_whnf_dup<T, D: Definitions<Option<T>>>(d: &D, t: Tm, erase: bool, fuel: nat)
    requires
        t is Dup,
        wnorm::<T, D>(d, t, erase, fuel) matches NormOut::Done(_, Ok(())),
    ensures
        whnf_form::<T, D>(d, wnorm::<T, D>(d, t, erase, fuel)->Done_0, erase),
    decreases fuel, 0nat,
{
    let f = (fuel - 1) as nat;
    if let Tm::Dup { expression, body, .. } = t {
        if erase {
            lemma_wnorm_whnf::<T, D>(d, subst_tm(*body, 0, *expression, true), erase, f);
        } else {
            lemma_wnorm_whnf::<T, D>(d, *expression, erase, f);
            if let NormOut::Done(Tm::Put(inner), Ok(())) = wnorm::<T, D>(d, *expression, erase, f) {
                if subst_fits(*body, 0, *inner) {
                    lemma_wnorm_whnf::<T, D>(d, subst_tm(*body, 0, *inner, true), erase, f);
                }
            }
        }
    }
}

/// Floating a duplication out of an application keeps the argument's free
/// variables where they were: once the duplication's variable is given any
/// value, the new body is the old body, given that value, applied to the
/// original argument.
pub proof fn lemma_wnorm_float_dup<T, D: Definitions<Option<T>>>(
    d: &D,
    erased: bool,
    function: Tm,
    argument: Tm,
    erase: bool,
    fuel: nat,
    value: Tm,
)
    requires
        fuel >= 1,
        no_literals(argument),
        shift_fits(argument, 0, 1),
        wnorm::<T, D>(d, function, erase, (fuel - 1) as nat) matches NormOut::Done(Tm::Dup { .. }, Ok(())),
    ensures
        ({
            let g = wnorm::<T, D>(d, function, erase, (fuel - 1) as nat)->Done_0;
            let r = wnorm::<T, D>(
                d,
                Tm::App { erased, function: Box::new(function), argument: Box::new(argument) },
                erase,
                fuel,
            );
            &&& r matches NormOut::Done(Tm::Dup { .. }, Ok(()))
            &&& r->Done_0->Dup_binder == g->Dup_binder
            &&& r->Done_0->Dup_expression == g->Dup_expression
            &&& subst_tm(*r->Done_0->Dup_body, 0, value, true) == Tm::App {
                erased,
                function: Box::new(subst_tm(*g->Dup_body, 0, value, true)),
                argument: Box::new(argument),
            }
        }),
{
    lemma_substitute_shifted(argument, 0, value);
}

/// Normalization in the annotated model leaves a normal form as it is,
/// every annotation included.
pub proof fn lemma_anorm_normal_fixed<T, D: Definitions<T>>(d: &D, t: ATm<T>, z: T, fuel: nat)
    requires
        is_normal::<T, D>(d, strip(t)),
        fuel > spine_height(strip(t)),
    ensures
        anorm::<T, D>(d, t, z, fuel) == ANormOut::Done(t, Ok::<(), NormalizationError>(())),
    decreases t,
{
    let f = (fuel - 1) as nat;
    match t {
        ATm::Lam { body, .. } => lemma_anorm_normal_fixed::<T, D>(d, *body, z, f),
        ATm::App { function, argument, .. } => {
            lemma_anorm_normal_fixed::<T, D>(d, *function, z, f);
            lemma_anorm_normal_fixed::<T, D>(d, *argument, z, f);
        },
        _ => {},
    }
}

} // verus!
