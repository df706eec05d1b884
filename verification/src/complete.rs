use vstd::prelude::*;

use crate::term::{AnalysisTerm, Tm};

verus! {

/// The term holds no hole.
pub open spec fn complete_tm(t: Tm) -> bool
    decreases t,
{
    match t {
        Tm::Lam { body, .. } => complete_tm(*body),
        Tm::App { function, argument, .. } => complete_tm(*function) && complete_tm(*argument),
        Tm::Put(e) => complete_tm(*e),
        Tm::Dup { expression, body, .. } => complete_tm(*expression) && complete_tm(*body),
        Tm::Fun { argument_type, return_type, .. } => complete_tm(*argument_type) && complete_tm(
            *return_type,
        ),
        Tm::Wrap(e) => complete_tm(*e),
        Tm::Hole => false,
        Tm::Ann { term, ty, .. } => complete_tm(*term) && complete_tm(*ty),
        _ => true,
    }
}

/// The term holds no variable.
pub open spec fn no_variables_tm(t: Tm) -> bool
    decreases t,
{
    match t {
        Tm::Lam { body, .. } => no_variables_tm(*body),
        Tm::Var(_) => false,
        Tm::App { function, argument, .. } => no_variables_tm(*function) && no_variables_tm(
            *argument,
        ),
        Tm::Put(e) => no_variables_tm(*e),
        Tm::Dup { expression, body, .. } => no_variables_tm(*expression) && no_variables_tm(*body),
        Tm::Fun { argument_type, return_type, .. } => no_variables_tm(*argument_type)
            && no_variables_tm(*return_type),
        Tm::Wrap(e) => no_variables_tm(*e),
        Tm::Ann { term, ty, .. } => no_variables_tm(*term) && no_variables_tm(*ty),
        _ => true,
    }
}

impl<T> AnalysisTerm<T> {
    /// Whether the term holds no hole. A literal counts as complete.
    pub fn is_complete(&self) -> (res: bool)
        ensures
            res == complete_tm(self@),
        decreases self,
    {
        match self {
            AnalysisTerm::Lambda { body, .. } => body.is_complete(),
            AnalysisTerm::Variable(_, _) => true,
            AnalysisTerm::Application { function, argument, .. } => function.is_complete()
                && argument.is_complete(),
            AnalysisTerm::Put(term, _) => term.is_complete(),
            AnalysisTerm::Duplication { expression, body, .. } => expression.is_complete()
                && body.is_complete(),
            AnalysisTerm::Reference(_, _) => true,
            AnalysisTerm::Universe(_) => true,
            AnalysisTerm::Function { argument_type, return_type, .. } => argument_type.is_complete()
                && return_type.is_complete(),
            AnalysisTerm::Wrap(term, _) => term.is_complete(),
            AnalysisTerm::Hole(_) => false,
            AnalysisTerm::Annotation { term, ty, .. } => term.is_complete() && ty.is_complete(),
            AnalysisTerm::Compressed(_) => true,
        }
    }

    /// Whether the term holds no variable. A literal counts as holding none.
    pub fn no_variables(&self) -> (res: bool)
        ensures
            res == no_variables_tm(self@),
        decreases self,
    {
        match self {
            AnalysisTerm::Lambda { body, .. } => body.no_variables(),
            AnalysisTerm::Variable(_, _) => false,
            AnalysisTerm::Application { function, argument, .. } => function.no_variables()
                && argument.no_variables(),
            AnalysisTerm::Put(term, _) => term.no_variables(),
            AnalysisTerm::Duplication { expression, body, .. } => expression.no_variables()
                && body.no_variables(),
            AnalysisTerm::Reference(_, _) => true,
            AnalysisTerm::Universe(_) => true,
            AnalysisTerm::Function { argument_type, return_type, .. } =>
                argument_type.no_variables() && return_type.no_variables(),
            AnalysisTerm::Wrap(term, _) => term.no_variables(),
            AnalysisTerm::Hole(_) => true,
            AnalysisTerm::Annotation { term, ty, .. } => term.no_variables() && ty.no_variables(),
            AnalysisTerm::Compressed(_) => true,
        }
    }
}

} // verus!
