use whelk::literal::{CompressedChar, CompressedString, CompressedTerm, CompressedWord};
use whelk::term::AnalysisTerm;
use whelk::zipper::{Cursor, Term};

fn erase<T>(t: AnalysisTerm<T>) -> AnalysisTerm<()> {
    match t {
        AnalysisTerm::Lambda { erased, name, body, .. } => {
            AnalysisTerm::Lambda { erased, name, body: Box::new(erase(*body)), annotation: () }
        }
        AnalysisTerm::Variable(i, _) => AnalysisTerm::Variable(i, ()),
        AnalysisTerm::Application { erased, function, argument, .. } => AnalysisTerm::Application {
            erased,
            function: Box::new(erase(*function)),
            argument: Box::new(erase(*argument)),
            annotation: (),
        },
        AnalysisTerm::Put(t, _) => AnalysisTerm::Put(Box::new(erase(*t)), ()),
        AnalysisTerm::Duplication { binder, expression, body, .. } => AnalysisTerm::Duplication {
            binder,
            expression: Box::new(erase(*expression)),
            body: Box::new(erase(*body)),
            annotation: (),
        },
        AnalysisTerm::Reference(r, _) => AnalysisTerm::Reference(r, ()),
        AnalysisTerm::Universe(_) => AnalysisTerm::Universe(()),
        AnalysisTerm::Function { erased, name, self_name, argument_type, return_type, .. } => {
            AnalysisTerm::Function {
                erased,
                name,
                self_name,
                argument_type: Box::new(erase(*argument_type)),
                return_type: Box::new(erase(*return_type)),
                annotation: (),
            }
        }
        AnalysisTerm::Wrap(t, _) => AnalysisTerm::Wrap(Box::new(erase(*t)), ()),
        AnalysisTerm::Hole(_) => AnalysisTerm::Hole(()),
        AnalysisTerm::Annotation { checked, term, ty } => AnalysisTerm::Annotation {
            checked,
            term: Box::new(erase(*term)),
            ty: Box::new(erase(*ty)),
        },
        AnalysisTerm::Compressed(c) => AnalysisTerm::Compressed(c),
    }
}

fn step_by_step(literal: CompressedTerm) -> AnalysisTerm<()> {
    let term: Term<()> = Term::Compressed(literal);
    erase(Cursor::from_term(term).into_analysis())
}

#[test]
fn stepwise_expansion_matches_full_expansion() {
    let literals = vec![
        CompressedTerm::Char(CompressedChar::new('A')),
        CompressedTerm::Word(CompressedWord::new(vec![true, false, true])),
        CompressedTerm::String(CompressedString::new("hé".to_string())),
    ];
    for literal in literals {
        let full: AnalysisTerm<()> = literal.expand_full();
        assert_eq!(step_by_step(literal.duplicate()), full);
    }
}

#[test]
fn word_expansion_puts_the_last_bit_outermost() {
    let word: AnalysisTerm<()> = CompressedTerm::Word(CompressedWord::new(vec![true, false])).expand_full();
    let reference = |n: &str| AnalysisTerm::Reference(n.to_string(), ());
    let app = |erased: bool, f: AnalysisTerm<()>, a: AnalysisTerm<()>| AnalysisTerm::Application {
        erased,
        function: Box::new(f),
        argument: Box::new(a),
        annotation: (),
    };
    let size1 = app(false, reference("Size::succ"), reference("Size::zero"));
    let expected = app(
        false,
        app(true, reference("Word::low"), size1),
        app(false, app(true, reference("Word::high"), reference("Size::zero")), reference("Word::empty")),
    );
    assert_eq!(word, expected);
}

#[test]
fn annotations_can_be_cleared_and_mapped() {
    let term: Term<u8> = Term::Application {
        erased: false,
        function: Box::new(Term::Reference("f".to_string(), 1)),
        argument: Box::new(Term::Hole(2)),
        annotation: 3,
    };
    let doubled = term.try_map_annotation(&|a: u8| -> Result<u16, String> { Ok(a as u16 * 2) });
    assert_eq!(
        doubled,
        Ok(Term::Application {
            erased: false,
            function: Box::new(Term::Reference("f".to_string(), 2u16)),
            argument: Box::new(Term::Hole(4u16)),
            annotation: 6u16,
        })
    );
    let term: Term<u8> = Term::Put(Box::new(Term::Hole(5)), 9);
    let failed = term.try_map_annotation(&|a: u8| if a == 5 { Err("five") } else { Ok(a) });
    assert_eq!(failed, Err("five"));
    let cleared = Term::Wrap(Box::new(Term::Universe(7u8)), 8u8).clear_annotation();
    assert_eq!(cleared, Term::Wrap(Box::new(Term::Universe(())), ()));
}

#[test]
fn mapping_by_identity_gives_back_the_term_and_failing_everywhere_fails() {
    let term: Term<u8> = Term::Lambda {
        erased: true,
        name: Some("x".to_string()),
        body: Box::new(Term::Reference("y".to_string(), 1)),
        annotation: 2,
    };
    let same = term.clone().try_map_annotation(&|a: u8| -> Result<u8, ()> { Ok(a) });
    assert_eq!(same, Ok(term.clone()));
    let failed = term.try_map_annotation(&|_a: u8| -> Result<u8, u8> { Err(0) });
    assert_eq!(failed, Err(0));
}
