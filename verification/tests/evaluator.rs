use whelk::evaluator::substitution::{NullDefinitions, Substitution};
use whelk::evaluator::Evaluator;
use whelk::term::AnalysisTerm;

#[test]
fn substitution_reduces_a_redex() {
    let identity = AnalysisTerm::Lambda {
        erased: false,
        name: Some("x".to_string()),
        body: Box::new(AnalysisTerm::Variable(0, ())),
        annotation: (),
    };
    let term = AnalysisTerm::Application {
        erased: false,
        function: Box::new(identity),
        argument: Box::new(AnalysisTerm::Universe(())),
        annotation: (),
    };
    let evaluator = Substitution(NullDefinitions);
    let value = evaluator.evaluate(term).ok().unwrap();
    assert_eq!(value, AnalysisTerm::Universe(()));
}

#[test]
fn boxes_and_undefined_references_normalize_away_or_stay() {
    let term = AnalysisTerm::Application {
        erased: false,
        function: Box::new(AnalysisTerm::Put(Box::new(AnalysisTerm::Reference("f".to_string(), ())), ())),
        argument: Box::new(AnalysisTerm::Universe(())),
        annotation: (),
    };
    let evaluator = Substitution(NullDefinitions);
    let value = evaluator.evaluate(term).ok().unwrap();
    assert_eq!(
        value,
        AnalysisTerm::Application {
            erased: false,
            function: Box::new(AnalysisTerm::Reference("f".to_string(), ())),
            argument: Box::new(AnalysisTerm::Universe(())),
            annotation: (),
        }
    );
}
