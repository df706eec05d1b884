use whelk::literal::{CompressedSize, CompressedString, CompressedTerm};
use whelk::zipper::{make_vector, Cursor, Path, Term};

fn reference(name: &str) -> Term<()> {
    Term::Reference(name.to_string(), ())
}

fn lambda(name: &str, body: Term<()>) -> Term<()> {
    Term::Lambda { erased: false, name: Some(name.to_string()), body: Box::new(body), annotation: () }
}

fn app(erased: bool, function: Term<()>, argument: Term<()>) -> Term<()> {
    Term::Application { erased, function: Box::new(function), argument: Box::new(argument), annotation: () }
}

fn names(list: &[&str]) -> Vec<Option<String>> {
    list.iter().map(|n| Some(n.to_string())).collect()
}

#[test]
fn descending_and_ascending_gives_back_the_cursor() {
    let term = lambda("x", app(false, reference("x"), Term::Hole(())));
    let top = Cursor::from_term(term);
    let lambda_cursor = match top {
        Cursor::Lambda(c) => c,
        other => panic!("expected a lambda, got {:?}", other),
    };
    let body = lambda_cursor.body();
    assert!(matches!(body, Cursor::Application(_)));
    assert!(!body.is_top());
    let back = body.ascend();
    assert!(back.is_top());
    assert_eq!(
        back.into_focus(),
        lambda("x", app(false, reference("x"), Term::Hole(())))
    );
}

#[test]
fn ascending_at_the_top_stays() {
    let cursor = Cursor::from_term(reference("a"));
    assert!(cursor.is_top());
    let again = cursor.ascend();
    assert!(again.is_top());
    assert_eq!(again.into_focus(), reference("a"));
}

#[test]
fn ascending_keeps_the_whole_term() {
    let term = app(false, reference("f"), lambda("y", reference("y")));
    let cursor = match Cursor::from_term(term) {
        Cursor::Application(c) => c,
        _ => unreachable!(),
    };
    let argument = cursor.argument();
    let inner = match argument {
        Cursor::Lambda(c) => c.body(),
        _ => unreachable!(),
    };
    let up_once = inner.ascend();
    let up_twice = up_once.ascend();
    assert!(up_twice.is_top());
    assert_eq!(up_twice.into_focus(), app(false, reference("f"), lambda("y", reference("y"))));
}

#[test]
fn context_lists_binders_innermost_first() {
    let term = lambda("x", lambda("y", reference("z")));
    let outer = match Cursor::from_term(term) {
        Cursor::Lambda(c) => c,
        _ => unreachable!(),
    };
    let inner = match outer.body() {
        Cursor::Lambda(c) => c,
        _ => unreachable!(),
    };
    let at_reference = inner.body();
    assert_eq!(at_reference.context(), names(&["y", "x"]));
}

#[test]
fn context_at_the_top_is_empty() {
    let cursor = Cursor::from_term(lambda("x", reference("x")));
    assert_eq!(cursor.context(), Vec::<Option<String>>::new());
}

#[test]
fn duplication_expression_is_not_in_scope_of_its_binder() {
    let dup = Term::Duplication {
        binder: Some("b".to_string()),
        expression: Box::new(reference("y")),
        body: Box::new(Term::Hole(())),
        annotation: (),
    };
    let term = lambda("x", dup);
    let outer = match Cursor::from_term(term) {
        Cursor::Lambda(c) => c,
        _ => unreachable!(),
    };
    let duplication = match outer.body() {
        Cursor::Duplication(c) => c,
        _ => unreachable!(),
    };
    assert_eq!(duplication.binder(), Some("b"));
    let expression = duplication.expression();
    assert_eq!(expression.context(), names(&["x"]));
}

#[test]
fn function_return_type_sees_both_names() {
    let term = Term::Function {
        erased: false,
        name: Some("a".to_string()),
        self_name: Some("s".to_string()),
        argument_type: Box::new(Term::Universe(())),
        return_type: Box::new(reference("a")),
        annotation: (),
    };
    let function = match Cursor::from_term(term) {
        Cursor::Function(c) => c,
        _ => unreachable!(),
    };
    assert_eq!(function.binder(), Some("a"));
    assert_eq!(function.self_binder(), Some("s"));
    let ret = function.return_type();
    assert_eq!(ret.context(), names(&["a", "s"]));
}

#[test]
fn function_argument_type_just_below_the_top_sees_nothing() {
    let term = Term::Function {
        erased: false,
        name: Some("a".to_string()),
        self_name: None,
        argument_type: Box::new(reference("a")),
        return_type: Box::new(Term::Universe(())),
        annotation: (),
    };
    let function = match Cursor::from_term(term) {
        Cursor::Function(c) => c,
        _ => unreachable!(),
    };
    let argument = function.argument_type();
    assert_eq!(argument.context(), Vec::<Option<String>>::new());
}

#[test]
fn binder_inside_an_expression_just_below_the_top_is_not_listed() {
    let dup = Term::Duplication {
        binder: Some("x".to_string()),
        expression: Box::new(lambda("z", reference("y"))),
        body: Box::new(Term::Hole(())),
        annotation: (),
    };
    let duplication = match Cursor::from_term(dup) {
        Cursor::Duplication(c) => c,
        _ => unreachable!(),
    };
    let inner = match duplication.expression() {
        Cursor::Lambda(c) => c.body(),
        _ => unreachable!(),
    };
    assert_eq!(inner.context(), Vec::<Option<String>>::new());
}

#[test]
fn a_literal_in_focus_is_expanded_one_step() {
    let term: Term<()> = Term::Compressed(CompressedTerm::Size(CompressedSize::new(2)));
    let cursor = Cursor::from_term(term);
    assert_eq!(
        cursor.into_focus(),
        app(false, reference("Size::succ"), app(false, reference("Size::succ"), reference("Size::zero")))
    );
}

#[test]
fn a_string_literal_expands_to_a_vector_of_characters() {
    let literal = CompressedTerm::String(CompressedString::new("é".to_string()));
    let expanded: Term<()> = literal.expand();
    let size_of = |n: usize| Term::Compressed(CompressedTerm::Size(CompressedSize::new(n)));
    let character = match &expanded {
        Term::Application { argument, .. } => match &**argument {
            Term::Application { function, argument: nil, .. } => {
                match &**nil {
                    Term::Application { function: nil_fn, .. } => {
                        assert_eq!(**nil_fn, reference("Vector::nil"));
                    }
                    other => panic!("unexpected {:?}", other),
                }
                match &**function {
                    Term::Application { argument: element, .. } => element.clone(),
                    other => panic!("unexpected {:?}", other),
                }
            }
            other => panic!("unexpected {:?}", other),
        },
        other => panic!("unexpected {:?}", other),
    };
    assert!(matches!(&*character, Term::Compressed(CompressedTerm::Char(_))));
    match expanded {
        Term::Application { function, .. } => match *function {
            Term::Application { erased, function, argument, .. } => {
                assert!(erased);
                assert_eq!(*function, reference("String::new"));
                assert_eq!(*argument, size_of(2));
            }
            other => panic!("unexpected {:?}", other),
        },
        other => panic!("unexpected {:?}", other),
    }
}

#[test]
fn make_vector_conses_with_the_remaining_length() {
    let vector = make_vector(reference("T"), vec![reference("a"), reference("b")]);
    let size_of = |n: usize| Term::Compressed(CompressedTerm::Size(CompressedSize::new(n)));
    let nil = app(true, reference("Vector::nil"), reference("T"));
    let cons = |n: usize, e: Term<()>, rest: Term<()>| {
        app(false, app(false, app(true, app(true, reference("Vector::cons"), reference("T")), size_of(n)), e), rest)
    };
    assert_eq!(vector, cons(1, reference("a"), cons(0, reference("b"), nil)));
}

#[test]
fn concrete_type_of_a_string_counts_bytes() {
    let literal = CompressedTerm::String(CompressedString::new("aé".to_string()));
    let ty: Term<()> = literal.concrete_ty();
    assert_eq!(
        ty,
        app(true, reference("String"), Term::Compressed(CompressedTerm::Size(CompressedSize::new(3))))
    );
}

#[test]
fn paths_and_holes() {
    assert!(Path::<()>::Top.is_top());
    let term = app(true, reference("f"), reference("g"));
    let application = match Cursor::from_term(term) {
        Cursor::Application(c) => c,
        _ => unreachable!(),
    };
    assert!(application.erased());
    let function = application.function();
    assert!(matches!(function.path(), Path::ApplicationFunction { .. }));
    let hole = match function {
        Cursor::Reference(c) => {
            assert_eq!(c.name(), "f");
            c.into_hole(())
        }
        _ => unreachable!(),
    };
    let parent = hole.ascend();
    assert_eq!(parent.into_focus(), app(true, Term::Hole(()), reference("g")));
}

#[test]
fn builders_replace_one_part() {
    let term = lambda("x", reference("x"));
    let cursor = match Cursor::from_term(term) {
        Cursor::Lambda(c) => c,
        _ => unreachable!(),
    };
    let renamed = cursor.with_name(Some("y".to_string())).with_body(reference("y"));
    assert_eq!(renamed.name(), Some("y"));
    assert_eq!(Cursor::Lambda(renamed).into_focus(), lambda("y", reference("y")));
}

#[test]
fn stored_form_round_trips() {
    use_stored_form();
}

fn use_stored_form() {
    let term = lambda("x", app(true, reference("x"), Term::Hole(())));
    let stored = whelk::zipper::TermData::from_term(lambda("x", app(true, reference("x"), Term::Hole(()))));
    assert_eq!(
        stored,
        whelk::zipper::TermData::Lambda {
            erased: false,
            name: Some("x".to_string()),
            body: Box::new(whelk::zipper::TermData::Application {
                erased: true,
                function: Box::new(whelk::zipper::TermData::Reference("x".to_string())),
                argument: Box::new(whelk::zipper::TermData::Hole),
            }),
        }
    );
    assert_eq!(Term::from(stored), term);
}

#[test]
fn terms_render_as_text() {
    let term = lambda(
        "x",
        app(
            false,
            reference("f"),
            Term::Duplication {
                binder: None,
                expression: Box::new(Term::Universe(())),
                body: Box::new(Term::Wrap(Box::new(Term::Hole(())), ())),
                annotation: (),
            },
        ),
    );
    assert_eq!(term.render(), "\\x (f :  = * !?)");
    let function: Term<()> = Term::Function {
        erased: true,
        name: Some("a".to_string()),
        self_name: Some("s".to_string()),
        argument_type: Box::new(Term::Put(Box::new(reference("A")), ())),
        return_type: Box::new(app(true, reference("g"), Term::Compressed(CompressedTerm::Size(CompressedSize::new(1))))),
        annotation: (),
    };
    assert_eq!(function.render(), "_s,a:. A [g COMPRESSED]");
}
