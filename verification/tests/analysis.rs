use whelk::evaluator::substitution::NullDefinitions;
use whelk::stratified::StratificationError;
use whelk::term::AnalysisTerm;

type T = AnalysisTerm<()>;

fn var(i: usize) -> T {
    AnalysisTerm::Variable(i, ())
}

fn lam(body: T) -> T {
    AnalysisTerm::Lambda { erased: false, name: None, body: Box::new(body), annotation: () }
}

fn app(function: T, argument: T) -> T {
    AnalysisTerm::Application { erased: false, function: Box::new(function), argument: Box::new(argument), annotation: () }
}

fn universe() -> T {
    AnalysisTerm::Universe(())
}

#[test]
fn shifting_up_and_back_down_restores_the_term() {
    let before = lam(app(var(0), var(1)));
    let mut term = before.clone();
    term.shift_by(0, 2);
    assert_eq!(term, lam(app(var(0), var(3))));
    term.shift_by(0, -2);
    assert_eq!(term, before);
}

#[test]
fn shift_top_moves_free_variables() {
    let mut term = app(var(0), lam(var(0)));
    term.shift_top();
    assert_eq!(term, app(var(1), lam(var(0))));
    let mut term = var(3);
    term.shift_top_by(2);
    assert_eq!(term, var(5));
}

#[test]
fn substitution_replaces_the_top_variable_and_lowers_the_rest() {
    let mut term = app(var(0), var(1));
    term.substitute_top_in(&universe());
    assert_eq!(term, app(universe(), var(0)));
    let mut term = app(var(0), var(1));
    term.substitute_top_in_unshifted(&universe());
    assert_eq!(term, app(universe(), var(1)));
}

#[test]
fn substituting_into_a_shifted_term_gives_it_back() {
    let before = app(var(0), lam(var(1)));
    let mut term = before.clone();
    term.shift(0);
    term.substitute_top_in(&universe());
    assert_eq!(term, before);
}

#[test]
fn substitution_goes_under_binders() {
    let mut term = lam(app(var(1), var(0)));
    term.substitute_top_in(&var(4));
    assert_eq!(term, lam(app(var(5), var(0))));
}

#[test]
fn weak_normalization_reduces_the_head() {
    let mut term: AnalysisTerm<Option<()>> = AnalysisTerm::Application {
        erased: false,
        function: Box::new(AnalysisTerm::Lambda {
            erased: false,
            name: None,
            body: Box::new(AnalysisTerm::Variable(0, None)),
            annotation: None,
        }),
        argument: Box::new(AnalysisTerm::Universe(None)),
        annotation: None,
    };
    assert!(term.weak_normalize_in(&NullDefinitions).is_ok());
    assert_eq!(term, AnalysisTerm::Universe(None));
}

#[test]
fn completeness_and_variables() {
    assert!(lam(var(0)).is_complete());
    assert!(!lam(AnalysisTerm::Hole(())).is_complete());
    assert!(!lam(var(0)).no_variables());
    assert!(lam(universe()).no_variables());
}

#[test]
fn stratification_errors() {
    assert_eq!(lam(var(0)).is_stratified(), Ok(()));
    assert_eq!(
        lam(app(var(0), var(0))).is_stratified(),
        Err(StratificationError::MultiplicityMismatch)
    );
    assert_eq!(
        lam(AnalysisTerm::Put(Box::new(var(0)), ())).is_stratified(),
        Err(StratificationError::AffineUsedInBox)
    );
    let dup = AnalysisTerm::Duplication {
        binder: None,
        expression: Box::new(universe()),
        body: Box::new(var(0)),
        annotation: (),
    };
    assert_eq!(dup.is_stratified(), Err(StratificationError::DupNonUnitBoxMultiplicity));
}

#[test]
fn uses_and_boxes() {
    assert_eq!(app(var(0), app(var(0), var(1))).uses(), 2);
    assert!(AnalysisTerm::Put(Box::new(var(0)), ()).is_boxed_n_times(1));
    assert!(!AnalysisTerm::Put(Box::new(var(0)), ()).is_boxed_n_times(0));
}

#[test]
fn references_without_definitions_are_not_recursive() {
    let term = app(AnalysisTerm::Reference("f".to_string(), ()), universe());
    assert!(!term.is_recursive_in(&NullDefinitions));
}

#[test]
fn shifting_by_zero_changes_nothing() {
    let before = lam(app(var(0), var(7)));
    let mut term = before.clone();
    term.shift_by(1, 0);
    assert_eq!(term, before);
}

type A = AnalysisTerm<Option<u8>>;

fn avar(i: usize, a: Option<u8>) -> A {
    AnalysisTerm::Variable(i, a)
}

fn aapp(function: A, argument: A, a: Option<u8>) -> A {
    AnalysisTerm::Application { erased: false, function: Box::new(function), argument: Box::new(argument), annotation: a }
}

fn adup(expression: A, body: A) -> A {
    AnalysisTerm::Duplication { binder: None, expression: Box::new(expression), body: Box::new(body), annotation: None }
}

#[test]
fn shifting_and_substituting_keep_annotations() {
    let mut term = aapp(avar(0, Some(1)), avar(2, Some(2)), Some(3));
    term.shift_by(1, 1);
    assert_eq!(term, aapp(avar(0, Some(1)), avar(3, Some(2)), Some(3)));
    term.substitute_top_in(&AnalysisTerm::Universe(Some(9)));
    assert_eq!(term, aapp(AnalysisTerm::Universe(Some(9)), avar(2, Some(2)), Some(3)));
}

#[test]
fn substituting_an_absent_variable_shifts_down() {
    let before = app(var(2), lam(var(3)));
    let mut substituted = before.clone();
    substituted.substitute_in(1, &universe(), true);
    let mut shifted = before.clone();
    shifted.shift_by(1, -1);
    assert_eq!(substituted, shifted);
    assert_eq!(substituted, app(var(1), lam(var(2))));
}

#[test]
fn weak_head_normalization_floats_duplications_without_annotations() {
    let mut term = adup(adup(avar(0, None), avar(0, None)), aapp(avar(0, None), avar(1, None), None));
    assert_eq!(term.weak_normalize_in_erased(&NullDefinitions, false), Ok(()));
    assert_eq!(term, adup(avar(0, None), adup(avar(0, None), aapp(avar(0, None), avar(2, None), None))));
    let mut term = aapp(adup(avar(0, None), avar(0, None)), avar(0, None), None);
    assert_eq!(term.weak_normalize_in_erased(&NullDefinitions, false), Ok(()));
    assert_eq!(term, adup(avar(0, None), aapp(avar(0, None), avar(1, None), None)));
}

#[test]
fn normalization_reduces_a_redex_without_annotations() {
    let redex = aapp(
        AnalysisTerm::Lambda { erased: false, name: None, body: Box::new(aapp(avar(0, None), avar(0, None), None)), annotation: None },
        avar(5, None),
        None,
    );
    let mut term = redex;
    assert_eq!(term.normalize_in(&NullDefinitions), Ok(()));
    assert_eq!(term, aapp(avar(5, None), avar(5, None), None));
}

#[test]
fn normalizing_a_normal_form_again_changes_nothing() {
    let mut term = aapp(
        AnalysisTerm::Lambda { erased: false, name: None, body: Box::new(avar(0, None)), annotation: None },
        AnalysisTerm::Lambda { erased: false, name: None, body: Box::new(aapp(avar(0, None), avar(1, None), None)), annotation: None },
        None,
    );
    assert_eq!(term.normalize_in(&NullDefinitions), Ok(()));
    let once = term.clone();
    assert_eq!(term.normalize_in(&NullDefinitions), Ok(()));
    assert_eq!(term, once);
    assert!(matches!(term, AnalysisTerm::Lambda { .. }));
}

#[test]
fn an_erased_argument_is_not_checked_for_stratification() {
    let bad = lam(app(var(0), var(0)));
    let term = AnalysisTerm::Application {
        erased: true,
        function: Box::new(universe()),
        argument: Box::new(bad.clone()),
        annotation: (),
    };
    assert_eq!(term.is_stratified(), Ok(()));
    let kept = app(universe(), bad);
    assert!(kept.is_stratified().is_err());
}

#[test]
fn normalization_never_reports_an_error() {
    let mut term = app(AnalysisTerm::Put(Box::new(var(0)), ()), universe());
    assert_eq!(term.normalize_in(&NullDefinitions), Ok(()));
    assert_eq!(term, app(var(0), universe()));
}

#[test]
fn weak_head_normalization_keeps_annotations_in_place() {
    let mut term = aapp(
        adup(avar(0, Some(1)), avar(0, Some(2))),
        avar(0, Some(3)),
        Some(4),
    );
    assert_eq!(term.weak_normalize_in(&NullDefinitions), Ok(()));
    let expected = AnalysisTerm::Duplication {
        binder: None,
        expression: Box::new(avar(0, Some(1))),
        body: Box::new(aapp(avar(0, Some(2)), avar(1, Some(3)), None)),
        annotation: None,
    };
    assert_eq!(term, expected);
}
