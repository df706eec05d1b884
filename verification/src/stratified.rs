use vstd::prelude::*;

use crate::definitions::Definitions;
use crate::term::{AnalysisTerm, Tm};

verus! {

/// Why a term is not stratified.
#[derive(Debug, PartialEq)]
pub enum StratificationError {
    MultiplicityMismatch,
    AffineUsedInBox,
    DupNonUnitBoxMultiplicity,
    RecursiveDefinition,
    UndefinedReference(String),
    ErasedUsed,
}

/// The number of relevant (not erased) uses of variable `variable`: the
/// bodies of erased lambdas and the arguments of erased applications do not
/// count, nor do function types.
pub open spec fn uses_tm(t: Tm, variable: int) -> nat
    decreases t,
{
    match t {
        Tm::Var(i) => if i == variable {
            1
        } else {
            0
        },
        Tm::Lam { body, erased, .. } => if erased {
            0
        } else {
            uses_tm(*body, variable + 1)
        },
        Tm::App { function, argument, erased } => uses_tm(*function, variable) + if erased {
            0
        } else {
            uses_tm(*argument, variable)
        },
        Tm::Put(e) => uses_tm(*e, variable),
        Tm::Dup { expression, body, .. } => uses_tm(*expression, variable) + uses_tm(
            *body,
            variable + 1,
        ),
        Tm::Wrap(e) => uses_tm(*e, variable),
        Tm::Ann { term, ty, .. } => uses_tm(*term, variable) + uses_tm(*ty, variable),
        _ => 0,
    }
}

/// The count of uses runs on machine integers: the count itself and the
/// variable under each binder stay in range.
pub open spec fn uses_fits(t: Tm, variable: int) -> bool
    decreases t,
{
    match t {
        Tm::Lam { body, erased, .. } => erased || (variable + 1 <= usize::MAX && uses_fits(
            *body,
            variable + 1,
        )),
        Tm::App { function, argument, erased } => uses_fits(*function, variable) && (erased
            || uses_fits(*argument, variable)),
        Tm::Put(e) => uses_fits(*e, variable),
        Tm::Dup { expression, body, .. } => uses_fits(*expression, variable) && variable + 1
            <= usize::MAX && uses_fits(*body, variable + 1),
        Tm::Wrap(e) => uses_fits(*e, variable),
        Tm::Ann { term, ty, .. } => uses_fits(*term, variable) && uses_fits(*ty, variable),
        _ => true,
    }
}

/// Every relevant use of variable `variable` stands under exactly `nestings`
/// boxes, counting from `current` boxes at the top.
pub open spec fn boxed_tm(t: Tm, variable: int, nestings: int, current: int) -> bool
    decreases t,
{
    match t {
        Tm::Var(i) => i != variable || nestings == current,
        Tm::Lam { body, .. } => boxed_tm(*body, variable + 1, nestings, current),
        Tm::App { function, argument, erased } => boxed_tm(*function, variable, nestings, current)
            && (erased || boxed_tm(*argument, variable, nestings, current)),
        Tm::Put(e) => boxed_tm(*e, variable, nestings, current + 1),
        Tm::Dup { expression, body, .. } => boxed_tm(*expression, variable, nestings, current)
            && boxed_tm(*body, variable + 1, nestings, current),
        Tm::Wrap(e) => boxed_tm(*e, variable, nestings, current),
        Tm::Ann { term, .. } => boxed_tm(*term, variable, nestings, current),
        _ => true,
    }
}

/// The box check runs on machine integers along the path it evaluates.
pub open spec fn boxed_fits(t: Tm, variable: int, current: int) -> bool
    decreases t,
{
    match t {
        Tm::Lam { body, .. } => variable + 1 <= usize::MAX && boxed_fits(*body, variable + 1, current),
        Tm::App { function, argument, erased } => boxed_fits(*function, variable, current) && (
        erased || boxed_fits(*argument, variable, current)),
        Tm::Put(e) => current + 1 <= usize::MAX && boxed_fits(*e, variable, current + 1),
        Tm::Dup { expression, body, .. } => boxed_fits(*expression, variable, current) && variable
            + 1 <= usize::MAX && boxed_fits(*body, variable + 1, current),
        Tm::Wrap(e) => boxed_fits(*e, variable, current),
        Tm::Ann { term, .. } => boxed_fits(*term, variable, current),
        _ => true,
    }
}

/// The stratification check: a lambda's variable is used at most once (never
/// when erased) and outside boxes; a duplication's variable is used under
/// exactly one box; the checks apply to every relevant subterm.
pub open spec fn strat_tm(t: Tm) -> Result<(), StratificationError>
    decreases t,
{
    match t {
        Tm::Lam { body, erased, .. } => if uses_tm(*body, 0) > (if erased {
            0nat
        } else {
            1nat
        }) {
            Err(StratificationError::MultiplicityMismatch)
        } else if !boxed_tm(*body, 0, 0, 0) {
            Err(StratificationError::AffineUsedInBox)
        } else {
            strat_tm(*body)
        },
        Tm::App { function, argument, erased } => match strat_tm(*function) {
            Err(e) => Err(e),
            Ok(()) => if erased {
                Ok(())
            } else {
                strat_tm(*argument)
            },
        },
        Tm::Put(e) => strat_tm(*e),
        Tm::Dup { expression, body, .. } => if !boxed_tm(*body, 0, 1, 0) {
            Err(StratificationError::DupNonUnitBoxMultiplicity)
        } else {
            match strat_tm(*expression) {
                Err(e) => Err(e),
                Ok(()) => strat_tm(*body),
            }
        },
        Tm::Wrap(e) => strat_tm(*e),
        Tm::Ann { term, .. } => strat_tm(*term),
        _ => Ok(()),
    }
}

/// The stratification check runs on machine integers along the path it
/// evaluates.
pub open spec fn strat_fits(t: Tm) -> bool
    decreases t,
{
    match t {
        Tm::Lam { body, erased, .. } => uses_fits(*body, 0) && uses_tm(*body, 0) <= usize::MAX && (
        uses_tm(*body, 0) <= (if erased {
            0nat
        } else {
            1nat
        }) ==> boxed_fits(*body, 0, 0) && (boxed_tm(*body, 0, 0, 0) ==> strat_fits(*body))),
        Tm::App { function, argument, erased } => strat_fits(*function) && (strat_tm(*function)
            is Ok && !erased ==> strat_fits(*argument)),
        Tm::Put(e) => strat_fits(*e),
        Tm::Dup { expression, body, .. } => boxed_fits(*body, 0, 0) && (boxed_tm(*body, 0, 1, 0)
            ==> strat_fits(*expression) && (strat_tm(*expression) is Ok ==> strat_fits(*body))),
        Tm::Wrap(e) => strat_fits(*e),
        Tm::Ann { term, .. } => strat_fits(*term),
        _ => true,
    }
}

/// Whether a reference reachable from `t`, resolving definitions and skipping
/// erased arguments, leads back to a name in `seen`. A function type counts
/// only when both its argument and return types do. `budget` bounds the
/// names that can still be entered.
pub open spec fn rec_tm<T, D: Definitions<T>>(d: &D, t: Tm, seen: Seq<Seq<char>>, budget: nat) -> bool
    decreases budget, t,
{
    match t {
        Tm::Lam { body, .. } => rec_tm::<T, D>(d, *body, seen, budget),
        Tm::App { function, argument, erased } => (!erased && rec_tm::<T, D>(
            d,
            *argument,
            seen,
            budget,
        )) || rec_tm::<T, D>(d, *function, seen, budget),
        Tm::Put(e) => rec_tm::<T, D>(d, *e, seen, budget),
        Tm::Dup { expression, body, .. } => rec_tm::<T, D>(d, *expression, seen, budget) || rec_tm::<
            T,
            D,
        >(d, *body, seen, budget),
        Tm::Ref(r) => if seen.contains(r) {
            true
        } else {
            match d.lookup(r) {
                Some(def) => if budget == 0 {
                    false
                } else {
                    rec_tm::<T, D>(d, def, seen.push(r), (budget - 1) as nat)
                },
                None => false,
            }
        },
        Tm::Fun { argument_type, return_type, .. } => rec_tm::<T, D>(d, *argument_type, seen, budget)
            && rec_tm::<T, D>(d, *return_type, seen, budget),
        Tm::Ann { term, .. } => rec_tm::<T, D>(d, *term, seen, budget),
        Tm::Wrap(e) => rec_tm::<T, D>(d, *e, seen, budget),
        _ => false,
    }
}

/// Whether `t` refers, through the definitions, back to a definition that it
/// is already inside of.
pub open spec fn recursive_tm<T, D: Definitions<T>>(d: &D, t: Tm) -> bool {
    rec_tm::<T, D>(d, t, Seq::empty(), d.names().len())
}

pub open spec fn names_of(v: Seq<String>) -> Seq<Seq<char>> {
    v.map_values(|s: String| s@)
}

fn uses_helper<T>(term: &AnalysisTerm<T>, variable: usize) -> (res: usize)
    requires
        uses_fits(term@, variable as int),
        uses_tm(term@, variable as int) <= usize::MAX,
    ensures
        res == uses_tm(term@, variable as int),
    decreases term,
{
    match term {
        AnalysisTerm::Variable(index, _) => {
            if *index == variable {
                1
            } else {
                0
            }
        },
        AnalysisTerm::Reference(_, _)
        | AnalysisTerm::Function { .. }
        | AnalysisTerm::Universe(_)
        | AnalysisTerm::Hole(_)
        | AnalysisTerm::Compressed(_) => 0,
        AnalysisTerm::Lambda { body, erased, .. } => {
            if *erased {
                0
            } else {
                uses_helper(body, variable + 1)
            }
        },
        AnalysisTerm::Application { function, argument, erased, .. } => {
            uses_helper(function, variable) + if *erased {
                0
            } else {
                uses_helper(argument, variable)
            }
        },
        AnalysisTerm::Put(term, _) => uses_helper(term, variable),
        AnalysisTerm::Duplication { expression, body, .. } => uses_helper(expression, variable)
            + uses_helper(body, variable + 1),
        AnalysisTerm::Wrap(term, _) => uses_helper(term, variable),
        AnalysisTerm::Annotation { term, ty, .. } => uses_helper(term, variable) + uses_helper(
            ty,
            variable,
        ),
    }
}

fn n_boxes_helper<T>(this: &AnalysisTerm<T>, variable: usize, nestings: usize, current_nestings: usize) -> (res: bool)
    requires
        boxed_fits(this@, variable as int, current_nestings as int),
    ensures
        res == boxed_tm(this@, variable as int, nestings as int, current_nestings as int),
    decreases this,
{
    match this {
        AnalysisTerm::Reference(_, _)
        | AnalysisTerm::Universe(_)
        | AnalysisTerm::Function { .. }
        | AnalysisTerm::Hole(_)
        | AnalysisTerm::Compressed(_) => true,
        AnalysisTerm::Variable(index, _) => *index != variable || nestings == current_nestings,
        AnalysisTerm::Lambda { body, .. } => n_boxes_helper(
            body,
            variable + 1,
            nestings,
            current_nestings,
        ),
        AnalysisTerm::Application { function, argument, erased, .. } => {
            n_boxes_helper(function, variable, nestings, current_nestings) && (*erased
                || n_boxes_helper(argument, variable, nestings, current_nestings))
        },
        AnalysisTerm::Put(term, _) => n_boxes_helper(term, variable, nestings, current_nestings + 1),
        AnalysisTerm::Duplication { expression, body, .. } => {
            n_boxes_helper(expression, variable, nestings, current_nestings) && n_boxes_helper(
                body,
                variable + 1,
                nestings,
                current_nestings,
            )
        },
        AnalysisTerm::Wrap(term, _) => n_boxes_helper(term, variable, nestings, current_nestings),
        AnalysisTerm::Annotation { term, .. } => n_boxes_helper(
            term,
            variable,
            nestings,
            current_nestings,
        ),
    }
}

fn contains_name(seen: &Vec<String>, name: &String) -> (res: bool)
    ensures
        res == names_of(seen@).contains(name@),
{
    let mut i: usize = 0;
    while i < seen.len()
        invariant
            i <= seen.len(),
            forall|k: int| 0 <= k < i ==> seen@[k]@ != name@,
        decreases seen.len() - i,
    {
        if seen[i] == *name {
            assert(names_of(seen@)[i as int] == name@);
            return true;
        }
        i = i + 1;
    }
    proof {
        if names_of(seen@).contains(name@) {
            let k = choose|k: int| 0 <= k < names_of(seen@).len() && names_of(seen@)[k] == name@;
            assert(seen@[k]@ == name@);
        }
    }
    false
}

impl<T> AnalysisTerm<T> {
    /// The number of relevant uses of the variable bound just outside the term.
    pub fn uses(&self) -> (res: usize)
        requires
            uses_fits(self@, 0),
            uses_tm(self@, 0) <= usize::MAX,
        ensures
            res == uses_tm(self@, 0),
    {
        uses_helper(self, 0)
    }

    /// Whether every relevant use of the variable bound just outside the term
    /// stands under exactly `nestings` boxes.
    pub fn is_boxed_n_times(&self, nestings: usize) -> (res: bool)
        requires
            boxed_fits(self@, 0, 0),
        ensures
            res == boxed_tm(self@, 0, nestings as int, 0),
    {
        n_boxes_helper(self, 0, nestings, 0)
    }

    fn is_recursive_in_helper<D: Definitions<T>>(&self, seen: &mut Vec<String>, definitions: &D) -> (res: bool)
        requires
            names_of(old(seen)@).no_duplicates(),
            names_of(old(seen)@).to_set().subset_of(definitions.names()),
            definitions.names().finite(),
        ensures
            final(seen)@ == old(seen)@,
            res == rec_tm::<T, D>(
                definitions,
                self@,
                names_of(old(seen)@),
                (definitions.names().len() - old(seen)@.len()) as nat,
            ),
        decreases definitions.names().len() - old(seen)@.len(), self,
    {
        proof {
            names_of(seen@).unique_seq_to_set();
            vstd::set_lib::lemma_len_subset(names_of(seen@).to_set(), definitions.names());
        }
        match self {
            AnalysisTerm::Variable(_, _)
            | AnalysisTerm::Universe(_)
            | AnalysisTerm::Hole(_)
            | AnalysisTerm::Compressed(_) => false,
            AnalysisTerm::Lambda { body, .. } => body.is_recursive_in_helper(seen, definitions),
            AnalysisTerm::Application { function, argument, erased, .. } => {
                (!*erased && argument.is_recursive_in_helper(seen, definitions))
                    || function.is_recursive_in_helper(seen, definitions)
            },
            AnalysisTerm::Put(term, _) => term.is_recursive_in_helper(seen, definitions),
            AnalysisTerm::Duplication { expression, body, .. } => {
                expression.is_recursive_in_helper(seen, definitions)
                    || body.is_recursive_in_helper(seen, definitions)
            },
            AnalysisTerm::Reference(reference, _) => {
                if contains_name(seen, reference) {
                    true
                } else {
                    match definitions.get(reference.as_str()) {
                        Some(term) => {
                            proof {
                                definitions.lemma_names_finite();
                                let s = names_of(seen@);
                                assert(definitions.names().contains(reference@));
                                assert(!s.to_set().contains(reference@));
                                vstd::set_lib::lemma_len_subset(
                                    s.to_set().insert(reference@),
                                    definitions.names(),
                                );
                            }
                            let ghost before = seen@;
                            seen.push(reference.clone());
                            proof {
                                assert(names_of(seen@) =~= names_of(before).push(reference@));
                                names_of(before).lemma_push_to_set_commute(reference@);
                                assert(names_of(seen@).to_set() =~= names_of(before).to_set().insert(reference@));
                            }
                            let res = term.as_ref().is_recursive_in_helper(seen, definitions);
                            seen.pop();
                            assert(seen@ =~= before);
                            res
                        },
                        None => false,
                    }
                }
            },
            AnalysisTerm::Function { argument_type, return_type, .. } => {
                argument_type.is_recursive_in_helper(seen, definitions)
                    && return_type.is_recursive_in_helper(seen, definitions)
            },
            AnalysisTerm::Annotation { term, .. } => term.is_recursive_in_helper(seen, definitions),
            AnalysisTerm::Wrap(term, _) => term.is_recursive_in_helper(seen, definitions),
        }
    }

    /// Whether the term refers, through the definitions, back into a
    /// definition that it is already inside of.
    pub fn is_recursive_in<D: Definitions<T>>(&self, definitions: &D) -> (res: bool)
        ensures
            res == recursive_tm::<T, D>(definitions, self@),
    {
        proof {
            definitions.lemma_names_finite();
        }
        let mut seen: Vec<String> = Vec::new();
        proof {
            assert(names_of(seen@) =~= Seq::<Seq<char>>::empty());
            assert(names_of(seen@).to_set() =~= Set::<Seq<char>>::empty());
        }
        self.is_recursive_in_helper(&mut seen, definitions)
    }

    /// Checks that the term is stratified (see `strat_tm`).
    pub fn is_stratified(&self) -> (res: Result<(), StratificationError>)
        requires
            strat_fits(self@),
        ensures
            res == strat_tm(self@),
        decreases self,
    {
        match self {
            AnalysisTerm::Lambda { body, erased, .. } => {
                if body.uses() > if *erased {
                    0
                } else {
                    1
                } {
                    return Err(StratificationError::MultiplicityMismatch);
                }
                if !body.is_boxed_n_times(0) {
                    return Err(StratificationError::AffineUsedInBox);
                }
                body.is_stratified()
            },
            AnalysisTerm::Application { function, argument, erased, .. } => {
                match function.is_stratified() {
                    Ok(()) => {},
                    Err(e) => {
                        return Err(e);
                    },
                }
                if !*erased {
                    argument.is_stratified()
                } else {
                    Ok(())
                }
            },
            AnalysisTerm::Put(term, _) => term.is_stratified(),
            AnalysisTerm::Duplication { body, expression, .. } => {
                if !body.is_boxed_n_times(1) {
                    return Err(StratificationError::DupNonUnitBoxMultiplicity);
                }
                match expression.is_stratified() {
                    Ok(()) => {},
                    Err(e) => {
                        return Err(e);
                    },
                }
                body.is_stratified()
            },
            AnalysisTerm::Variable(_, _)
            | AnalysisTerm::Reference(_, _)
            | AnalysisTerm::Function { .. }
            | AnalysisTerm::Universe(_)
            | AnalysisTerm::Hole(_)
            | AnalysisTerm::Compressed(_) => Ok(()),
            AnalysisTerm::Wrap(term, _) => term.is_stratified(),
            AnalysisTerm::Annotation { term, .. } => term.is_stratified(),
        }
    }
}

/// The stratification check never looks at an erased argument: an erased
/// application is stratified exactly when its function is, whatever the
/// argument, and the check fits the machine exactly when it does on the
/// function.
pub proof fn lemma_erased_argument_ignored(function: Tm, argument: Tm)
    ensures
        strat_tm(Tm::App { erased: true, function: Box::new(function), argument: Box::new(argument) })
            == strat_tm(function),
        strat_fits(Tm::App { erased: true, function: Box::new(function), argument: Box::new(argument) })
            == strat_fits(function),
        uses_tm(Tm::App { erased: true, function: Box::new(function), argument: Box::new(argument) }, 0)
            == uses_tm(function, 0),
{
    let t = Tm::App { erased: true, function: Box::new(function), argument: Box::new(argument) };
    assert(strat_tm(t) == match strat_tm(function) {
        Err(e) => Err(e),
        Ok(()) => Ok::<(), StratificationError>(()),
    });
    match strat_tm(function) {
        Ok(u) => {
            assert(u == ());
            assert(strat_tm(function) == Ok::<(), StratificationError>(()));
        },
        Err(e) => {},
    }
}

/// The check is compositional: where a term is stratified, so is each of its
/// relevant subterms (a lambda's body, a box's or wrap's content, the term of
/// an annotation, a duplication's expression and body, an application's
/// function and, where it is not erased, its argument).
pub proof fn lemma_stratified_parts(t: Tm)
    requires
        strat_tm(t) is Ok,
    ensures
        match t {
            Tm::Lam { body, .. } => strat_tm(*body) is Ok,
            Tm::App { function, argument, erased } => strat_tm(*function) is Ok && (!erased
                ==> strat_tm(*argument) is Ok),
            Tm::Put(e) => strat_tm(*e) is Ok,
            Tm::Wrap(e) => strat_tm(*e) is Ok,
            Tm::Ann { term, .. } => strat_tm(*term) is Ok,
            Tm::Dup { expression, body, .. } => strat_tm(*expression) is Ok && strat_tm(*body) is Ok,
            _ => true,
        },
{
}

/// The part of a term that the recursion check explores: `mentions(t, n)`
/// holds where a reference to `n` stands in `t` outside erased arguments and
/// function types.
pub open spec fn mentions(t: Tm, n: Seq<char>) -> bool
    decreases t,
{
    match t {
        Tm::Lam { body, .. } => mentions(*body, n),
        Tm::App { function, argument, erased } => mentions(*function, n) || (!erased && mentions(
            *argument,
            n,
        )),
        Tm::Put(e) => mentions(*e, n),
        Tm::Dup { expression, body, .. } => mentions(*expression, n) || mentions(*body, n),
        Tm::Ann { term, .. } => mentions(*term, n),
        Tm::Wrap(e) => mentions(*e, n),
        Tm::Ref(r) => r == n,
        _ => false,
    }
}

/// A term that mentions a name already being unfolded leads back to it,
/// whatever the budget.
pub proof fn lemma_mention_of_seen_is_recursive<T, D: Definitions<T>>(
    d: &D,
    t: Tm,
    seen: Seq<Seq<char>>,
    budget: nat,
    n: Seq<char>,
)
    requires
        mentions(t, n),
        seen.contains(n),
    ensures
        rec_tm::<T, D>(d, t, seen, budget),
    decreases t,
{
    match t {
        Tm::Lam { body, .. } => lemma_mention_of_seen_is_recursive::<T, D>(d, *body, seen, budget, n),
        Tm::App { function, argument, erased } => {
            if mentions(*function, n) {
                lemma_mention_of_seen_is_recursive::<T, D>(d, *function, seen, budget, n);
            } else {
                lemma_mention_of_seen_is_recursive::<T, D>(d, *argument, seen, budget, n);
            }
        },
        Tm::Put(e) => lemma_mention_of_seen_is_recursive::<T, D>(d, *e, seen, budget, n),
        Tm::Dup { expression, body, .. } => {
            if mentions(*expression, n) {
                lemma_mention_of_seen_is_recursive::<T, D>(d, *expression, seen, budget, n);
            } else {
                lemma_mention_of_seen_is_recursive::<T, D>(d, *body, seen, budget, n);
            }
        },
        Tm::Ann { term, .. } => lemma_mention_of_seen_is_recursive::<T, D>(d, *term, seen, budget, n),
        Tm::Wrap(e) => lemma_mention_of_seen_is_recursive::<T, D>(d, *e, seen, budget, n),
        _ => {},
    }
}

/// A lambda refers back into a definition exactly when its body does.
pub proof fn lemma_lambda_recursive_as_body<T, D: Definitions<T>>(
    d: &D,
    erased: bool,
    name: Option<Seq<char>>,
    body: Tm,
    seen: Seq<Seq<char>>,
    budget: nat,
)
    ensures
        rec_tm::<T, D>(d, Tm::Lam { erased, name, body: Box::new(body) }, seen, budget) == rec_tm::<
            T,
            D,
        >(d, body, seen, budget),
{
}

/// A definition that mentions its own name is recursive: a reference to it
/// leads back to it.
pub proof fn lemma_self_reference_is_recursive<T, D: Definitions<T>>(d: &D, name: Seq<char>)
    requires
        d.lookup(name) is Some,
        mentions(d.lookup(name)->Some_0, name),
    ensures
        recursive_tm::<T, D>(d, Tm::Ref(name)),
{
    d.lemma_names_finite();
    assert(d.names().contains(name));
    vstd::set_lib::lemma_set_empty_equivalency_len(d.names());
    let seen = Seq::<Seq<char>>::empty();
    assert(!seen.contains(name));
    assert(seen.push(name).contains(name)) by {
        assert(seen.push(name)[0] == name);
    }
    lemma_mention_of_seen_is_recursive::<T, D>(
        d,
        d.lookup(name)->Some_0,
        seen.push(name),
        (d.names().len() - 1) as nat,
        name,
    );
}

/// A stratified lambda is linear: it uses its variable at most once, and
/// not at all where it is erased; a stratified duplication uses its
/// variable under exactly one box.
pub proof fn lemma_stratified_binders(t: Tm)
    requires
        strat_tm(t) is Ok,
    ensures
        t matches Tm::Lam { body, erased, .. } ==> uses_tm(*body, 0) <= (if erased {
            0nat
        } else {
            1nat
        }) && boxed_tm(*body, 0, 0, 0),
        t matches Tm::Dup { body, .. } ==> boxed_tm(*body, 0, 1, 0),
{
}

/// A variable that does not occur is not used.
pub proof fn lemma_absent_variable_unused(t: Tm, variable: int)
    requires
        !crate::substitute::occurs(t, variable),
    ensures
        uses_tm(t, variable) == 0,
    decreases t,
{
    match t {
        Tm::Lam { body, .. } => lemma_absent_variable_unused(*body, variable + 1),
        Tm::App { function, argument, .. } => {
            lemma_absent_variable_unused(*function, variable);
            lemma_absent_variable_unused(*argument, variable);
        },
        Tm::Put(e) => lemma_absent_variable_unused(*e, variable),
        Tm::Dup { expression, body, .. } => {
            lemma_absent_variable_unused(*expression, variable);
            lemma_absent_variable_unused(*body, variable + 1);
        },
        Tm::Wrap(e) => lemma_absent_variable_unused(*e, variable),
        Tm::Ann { term, ty, .. } => {
            lemma_absent_variable_unused(*term, variable);
            lemma_absent_variable_unused(*ty, variable);
        },
        _ => {},
    }
}

/// The term holds no reference.
pub open spec fn no_refs(t: Tm) -> bool
    decreases t,
{
    match t {
        Tm::Lam { body, .. } => no_refs(*body),
        Tm::App { function, argument, .. } => no_refs(*function) && no_refs(*argument),
        Tm::Put(e) => no_refs(*e),
        Tm::Dup { expression, body, .. } => no_refs(*expression) && no_refs(*body),
        Tm::Fun { argument_type, return_type, .. } => no_refs(*argument_type) && no_refs(
            *return_type,
        ),
        Tm::Wrap(e) => no_refs(*e),
        Tm::Ann { term, ty, .. } => no_refs(*term) && no_refs(*ty),
        Tm::Ref(_) => false,
        _ => true,
    }
}

/// A term with no reference cannot lead back into a definition.
pub proof fn lemma_no_refs_not_recursive<T, D: Definitions<T>>(
    d: &D,
    t: Tm,
    seen: Seq<Seq<char>>,
    budget: nat,
)
    requires
        no_refs(t),
    ensures
        !rec_tm::<T, D>(d, t, seen, budget),
    decreases t,
{
    match t {
        Tm::Lam { body, .. } => lemma_no_refs_not_recursive::<T, D>(d, *body, seen, budget),
        Tm::App { function, argument, .. } => {
            lemma_no_refs_not_recursive::<T, D>(d, *function, seen, budget);
            lemma_no_refs_not_recursive::<T, D>(d, *argument, seen, budget);
        },
        Tm::Put(e) => lemma_no_refs_not_recursive::<T, D>(d, *e, seen, budget),
        Tm::Dup { expression, body, .. } => {
            lemma_no_refs_not_recursive::<T, D>(d, *expression, seen, budget);
            lemma_no_refs_not_recursive::<T, D>(d, *body, seen, budget);
        },
        Tm::Fun { argument_type, return_type, .. } => {
            lemma_no_refs_not_recursive::<T, D>(d, *argument_type, seen, budget);
        },
        Tm::Wrap(e) => lemma_no_refs_not_recursive::<T, D>(d, *e, seen, budget),
        Tm::Ann { term, .. } => lemma_no_refs_not_recursive::<T, D>(d, *term, seen, budget),
        _ => {},
    }
}

/// The recursion check never looks at an erased argument.
pub proof fn lemma_erased_argument_not_searched<T, D: Definitions<T>>(
    d: &D,
    function: Tm,
    argument: Tm,
    seen: Seq<Seq<char>>,
    budget: nat,
)
    ensures
        rec_tm::<T, D>(
            d,
            Tm::App { erased: true, function: Box::new(function), argument: Box::new(argument) },
            seen,
            budget,
        ) == rec_tm::<T, D>(d, function, seen, budget),
{
}

} // verus!
