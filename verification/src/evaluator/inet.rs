//! Evaluation by interaction-net reduction.
use vstd::prelude::*;

use crate::definitions::{DefinitionResult, TypedDefinitions};
use crate::normalize::NormalizationError;
use crate::term::{AnalysisTerm, Tm};

verus! {

/// The definition table with no definitions.
pub struct NullDefinitions;

impl<T> TypedDefinitions<T> for NullDefinitions {
    open spec fn typed_lookup(&self, name: Seq<char>) -> Option<(Tm, Tm)> {
        None
    }

    open spec fn typed_names(&self) -> Set<Seq<char>> {
        Set::empty()
    }

    open spec fn typed_entry(&self, name: Seq<char>) -> Option<(AnalysisTerm<T>, AnalysisTerm<T>)> {
        None
    }

    proof fn lemma_typed_names_finite(&self) {
    }

    fn get_typed<'a>(&'a self, name: &str) -> (res: Option<
        DefinitionResult<'a, (AnalysisTerm<T>, AnalysisTerm<T>)>,
    >) {
        None
    }
}

/// The interaction-net evaluator's setting: the definitions that net
/// reduction runs against. Building and reducing the net is the core
/// calculus' work and is not part of this library.
pub struct Inet<T>(pub T);

/// Reduction failed with the error it holds.
#[derive(Debug)]
pub struct InetError(pub NormalizationError);

} // verus!
