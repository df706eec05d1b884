use std::convert::TryFrom;

use whelk::bindings::{w, Incomplete};
use whelk::literal::{CompressedSize, CompressedTerm};
use whelk::term::AnalysisTerm;
use whelk::zipper::Term;

#[test]
fn vectors_keep_their_order() {
    let vector = w::Vector::from(vec![1u8, 2, 3]);
    assert_eq!(
        vector,
        w::Vector::cons {
            head: 1,
            tail: Box::new(w::Vector::cons {
                head: 2,
                tail: Box::new(w::Vector::cons { head: 3, tail: Box::new(w::Vector::nil) }),
            }),
        }
    );
    assert_eq!(vector.into_vec(), vec![1, 2, 3]);
    assert_eq!(w::Vector::<u8>::from(vec![]).into_vec(), Vec::<u8>::new());
}

#[test]
fn words_read_back_reversed() {
    let word = w::Word::from(vec![true, false, false]);
    assert_eq!(
        word,
        w::Word::low {
            after: Box::new(w::Word::low { after: Box::new(w::Word::high { after: Box::new(w::Word::empty) }) }),
        }
    );
    assert_eq!(word.into_bits(), vec![false, false, true]);
}

#[test]
fn a_character_word_holds_its_code_point_bits() {
    let c = w::Char::from('A');
    let bits = match c {
        w::Char::new { value } => value.into_bits(),
    };
    let mut expected = vec![false, true, false, false, false, false, false, true];
    expected.extend(vec![false; 24]);
    assert_eq!(bits, expected);
}

#[test]
fn characters_round_trip() {
    for c in ['a', 'A', '\0', 'é', '€', '\u{10FFFF}', '😀'] {
        assert_eq!(w::Char::from(c).into_char(), c);
        assert_eq!(w::Char::from(c).to_rust(), c);
    }
}

#[test]
fn strings_round_trip() {
    for s in ["", "héllo", "Welkin 😀"] {
        assert_eq!(w::Str::from(s.to_string()).into_string(), s.to_string());
    }
}

#[test]
fn booleans_and_sizes_convert() {
    assert!(bool::from(w::Bool::from(true)));
    assert!(!bool::from(w::Bool::from(false)));
    assert_eq!(usize::from(w::Size::from(17usize)), 17);
}

#[test]
fn syntax_of_a_term_drops_binder_names() {
    let term: Term<()> = Term::Lambda {
        erased: true,
        name: Some("x".to_string()),
        body: Box::new(Term::Reference("é".to_string(), ())),
        annotation: (),
    };
    let ast = w::Ast::try_from(term).unwrap();
    assert_eq!(
        ast,
        w::Ast::Lambda {
            erased: w::Bool::True,
            body: Box::new(w::Ast::Reference {
                name: w::WithSize::new { size: w::Size(2), data: w::Str::from("é".to_string()) },
            }),
        }
    );
    let back = ast.into_analysis();
    assert_eq!(
        back,
        AnalysisTerm::Lambda {
            erased: true,
            name: None,
            body: Box::new(AnalysisTerm::Reference("é".to_string(), ())),
            annotation: (),
        }
    );
}

#[test]
fn a_hole_makes_the_syntax_incomplete() {
    let term: Term<()> = Term::Application {
        erased: false,
        function: Box::new(Term::Universe(())),
        argument: Box::new(Term::Hole(())),
        annotation: (),
    };
    assert_eq!(w::Ast::try_from(term), Err(Incomplete));
}

#[test]
fn literals_are_expanded_in_the_syntax() {
    let term: Term<()> = Term::Compressed(CompressedTerm::Size(CompressedSize::new(1)));
    let reference = |name: &str| w::Ast::Reference {
        name: w::WithSize::new { size: w::Size(name.len()), data: w::Str::from(name.to_string()) },
    };
    assert_eq!(
        w::Ast::try_from(term),
        Ok(w::Ast::Application {
            erased: w::Bool::False,
            function: Box::new(reference("Size::succ")),
            argument: Box::new(reference("Size::zero")),
        })
    );
}

#[test]
fn a_term_without_holes_has_a_syntax() {
    let term: Term<()> = Term::Compressed(CompressedTerm::Size(CompressedSize::new(2)));
    assert!(w::Ast::try_from(term).is_ok());
}
