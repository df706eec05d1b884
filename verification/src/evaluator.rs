//! Evaluators: ways of computing the value of an analysis term.
use vstd::prelude::*;

use crate::term::{AnalysisTerm, Tm};

pub mod inet;
pub mod substitution;

pub use substitution::Substitution;

verus! {

/// Computes the value of a term.
///
/// `evaluates` says on which terms evaluation is defined (it ends), and
/// `evaluation` is the model of the value, or `None` where evaluation
/// reports an error.
pub trait Evaluator<T> {
    type Error;

    spec fn evaluates(&self, t: Tm) -> bool;

    spec fn evaluation(&self, t: Tm) -> Option<Tm>;

    fn evaluate(&self, term: AnalysisTerm<T>) -> (res: Result<AnalysisTerm<T>, Self::Error>)
        requires
            self.evaluates(term@),
        ensures
            match res {
                Ok(value) => self.evaluation(term@) == Some(value@),
                Err(_) => self.evaluation(term@) is None,
            },
    ;
}

} // verus!
