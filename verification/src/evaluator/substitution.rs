//! Evaluation by substitution: normalization of the analysis term.
use vstd::prelude::*;

use crate::definitions::{DefinitionResult, TypedDefinitions};
use crate::evaluator::Evaluator;
use crate::literal::Zero;
use crate::normalize::{norm, norm_fuel, normalizes, NormOut, NormalizationError};
use crate::term::{AnalysisTerm, Tm};

pub use crate::evaluator::inet::NullDefinitions;

verus! {

/// Evaluates by normalizing against the definitions it holds.
pub struct Substitution<T>(pub T);

/// Normalization failed with the error it holds.
#[derive(Debug)]
pub struct SubstitutionError(pub NormalizationError);

impl<U: Zero + Clone, T: TypedDefinitions<U>> Evaluator<U> for Substitution<T> {
    type Error = SubstitutionError;

    open spec fn evaluates(&self, t: Tm) -> bool {
        normalizes::<U, T>(&self.0, t)
    }

    open spec fn evaluation(&self, t: Tm) -> Option<Tm> {
        match norm::<U, T>(&self.0, t, norm_fuel::<U, T>(&self.0, t)) {
            NormOut::Done(value, outcome) => if outcome is Ok {
                Some(value)
            } else {
                None
            },
            _ => None,
        }
    }

    fn evaluate(&self, term: AnalysisTerm<U>) -> (res: Result<AnalysisTerm<U>, SubstitutionError>)
        ensures
            match res {
                Ok(value) => norm::<U, T>(&self.0, term@, norm_fuel::<U, T>(&self.0, term@))
                    is Done && norm::<U, T>(&self.0, term@, norm_fuel::<U, T>(&self.0, term@))->Done_0
                    == value@ && norm::<U, T>(&self.0, term@, norm_fuel::<U, T>(&self.0, term@))->Done_1
                    is Ok,
                Err(e) => norm::<U, T>(&self.0, term@, norm_fuel::<U, T>(&self.0, term@))
                    is Done && norm::<U, T>(&self.0, term@, norm_fuel::<U, T>(&self.0, term@))->Done_1
                    == Err::<(), NormalizationError>(e.0),
            },
    {
        let ghost start = term@;
        let mut term = term;
        proof {
            assert(norm::<U, T>(&self.0, start, norm_fuel::<U, T>(&self.0, start)) is Done);
        }
        let defs = &self.0;
        let outcome = term.normalize_in(defs);
        proof {
            let fuel = norm_fuel::<U, T>(&self.0, start);
            assert(norm::<U, T>(defs, start, fuel) == NormOut::Done(term@, outcome));
        }
        match outcome {
            Ok(()) => {
                proof {
                    let fuel = norm_fuel::<U, T>(&self.0, start);
                    assert(norm::<U, T>(&self.0, start, fuel) == NormOut::Done(term@, outcome));
                }
                Ok(term)
            },
            Err(e) => Err(SubstitutionError(e)),
        }
    }
}

} // verus!
