use whelk::literal::{CompressedSize, CompressedTerm, Zero};
use whelk::term::AnalysisTerm;
use whelk::zipper::{Cursor, Term};

#[derive(Clone, Debug, PartialEq)]
struct Ann(u8);

impl Zero for Ann {
    fn zero() -> Self {
        Ann(0)
    }
}

fn reference(name: &str) -> Term<Ann> {
    Term::Reference(name.to_string(), Ann(1))
}

fn lambda(name: &str, body: Term<Ann>) -> Term<Ann> {
    Term::Lambda { erased: false, name: Some(name.to_string()), body: Box::new(body), annotation: Ann(2) }
}

#[test]
fn references_to_binders_become_indices() {
    let term = lambda(
        "x",
        lambda(
            "y",
            Term::Application {
                erased: false,
                function: Box::new(reference("x")),
                argument: Box::new(reference("z")),
                annotation: Ann(3),
            },
        ),
    );
    let converted = Cursor::from_term(term).into_analysis();
    let expected = AnalysisTerm::Lambda {
        erased: false,
        name: Some("x".to_string()),
        body: Box::new(AnalysisTerm::Lambda {
            erased: false,
            name: Some("y".to_string()),
            body: Box::new(AnalysisTerm::Application {
                erased: false,
                function: Box::new(AnalysisTerm::Variable(1, Some(Ann(1)))),
                argument: Box::new(AnalysisTerm::Reference("z".to_string(), Some(Ann(1)))),
                annotation: Some(Ann(3)),
            }),
            annotation: Some(Ann(2)),
        }),
        annotation: Some(Ann(2)),
    };
    assert_eq!(converted, expected);
}

#[test]
fn the_innermost_binder_of_a_name_wins() {
    let term = lambda("x", lambda("x", reference("x")));
    let converted = Cursor::from_term(term).into_analysis();
    match converted {
        AnalysisTerm::Lambda { body, .. } => match *body {
            AnalysisTerm::Lambda { body, .. } => assert_eq!(*body, AnalysisTerm::Variable(0, Some(Ann(1)))),
            other => panic!("unexpected {:?}", other),
        },
        other => panic!("unexpected {:?}", other),
    }
}

#[test]
fn a_focused_reference_resolves_in_its_context() {
    let term = lambda("a", lambda("b", reference("a")));
    let outer = match Cursor::from_term(term) {
        Cursor::Lambda(c) => c,
        _ => unreachable!(),
    };
    let inner = match outer.body() {
        Cursor::Lambda(c) => c,
        _ => unreachable!(),
    };
    let at_reference = inner.body();
    let position = at_reference
        .context()
        .iter()
        .position(|n| n.as_deref() == Some("a"));
    assert_eq!(position, Some(1));
    assert_eq!(at_reference.into_analysis(), AnalysisTerm::Variable(1, Some(Ann(1))));
}

#[test]
fn literals_are_expanded_when_converted() {
    let term: Term<Ann> = Term::Compressed(CompressedTerm::Size(CompressedSize::new(1)));
    let converted = Cursor::from_term(term).into_analysis();
    assert_eq!(
        converted,
        AnalysisTerm::Application {
            erased: false,
            function: Box::new(AnalysisTerm::Reference("Size::succ".to_string(), Some(Ann(0)))),
            argument: Box::new(AnalysisTerm::Reference("Size::zero".to_string(), Some(Ann(0)))),
            annotation: Some(Ann(0)),
        }
    );
}
