use whelk::edit::{
    apply_application_mutations, apply_duplication_mutations, apply_function_mutations,
    apply_hole_mutations, apply_lambda_mutations, apply_put_mutations, apply_reference_mutations,
    apply_universe_mutations, apply_wrap_mutations, name_from, ApplicationMutation,
    DuplicationMutation, FunctionMutation, HoleMutation, LambdaMutation, PutMutation,
    ReferenceMutation, Transplant, UniverseMutation, WrapMutation,
};
use whelk::dynamic::DefMutation;
use whelk::edit::{apply_def_mutations, hole_template, HoleTemplate};
use whelk::literal::{CompressedSize, CompressedTerm};
use whelk::zipper::{
    ApplicationCursor, Cursor, DuplicationCursor, FunctionCursor, HoleCursor, LambdaCursor, Path,
    PutCursor, ReferenceCursor, Term, UniverseCursor, WrapCursor,
};

/// An annotation with a part of its own and a part that belongs to its place.
#[derive(Clone, Debug, PartialEq)]
struct Cell {
    node: u8,
    placed: u8,
}

impl Transplant for Cell {
    fn transplanted(self, from: Self) -> Self {
        Cell { node: self.node, placed: from.placed }
    }

    fn transplant(&mut self, from: &Self) {
        self.placed = from.placed;
    }
}

fn cell(node: u8, placed: u8) -> Cell {
    Cell { node, placed }
}

fn lambda_cursor() -> LambdaCursor<Cell> {
    LambdaCursor { erased: false, name: Some("x".to_string()), body: Term::Hole(cell(1, 0)), up: Path::Top, annotation: cell(7, 3) }
}

#[test]
fn lambda_edits_apply_in_order() {
    let mutations = vec![
        LambdaMutation::Update("f".to_string()),
        LambdaMutation::ToggleErased,
        LambdaMutation::Update("g".to_string()),
        LambdaMutation::Focus,
    ];
    let (cursor, focused) = apply_lambda_mutations(lambda_cursor(), &mutations, cell(0, 0));
    assert!(focused);
    match cursor {
        Cursor::Lambda(c) => {
            assert_eq!(c.name, Some("g".to_string()));
            assert!(c.erased);
            assert_eq!(c.annotation, cell(7, 3));
        }
        other => panic!("unexpected {:?}", other),
    }
}

#[test]
fn an_empty_name_clears_the_binder() {
    let mutations = vec![LambdaMutation::Update(String::new())];
    let (cursor, focused) = apply_lambda_mutations(lambda_cursor(), &mutations, cell(0, 0));
    assert!(!focused);
    match cursor {
        Cursor::Lambda(c) => assert_eq!(c.name, None),
        other => panic!("unexpected {:?}", other),
    }
    assert_eq!(name_from(&String::new()), None);
    assert_eq!(name_from(&"a".to_string()), Some("a".to_string()));
}

#[test]
fn removal_leaves_a_hole_with_the_given_annotation() {
    let mutations = vec![LambdaMutation::Remove, LambdaMutation::Update("f".to_string())];
    let (cursor, focused) = apply_lambda_mutations(lambda_cursor(), &mutations, cell(42, 0));
    assert!(!focused);
    // The hole keeps the placed part of the removed lambda's annotation.
    assert_eq!(cursor, Cursor::Hole(HoleCursor { up: Path::Top, annotation: cell(42, 3) }));
}

#[test]
fn application_toggles_twice() {
    let c = ApplicationCursor { erased: true, function: Term::Hole(()), argument: Term::Hole(()), up: Path::Top, annotation: () };
    let mutations = vec![ApplicationMutation::ToggleErased, ApplicationMutation::ToggleErased, ApplicationMutation::Focus];
    let (cursor, focused) = apply_application_mutations(c, &mutations, ());
    assert!(focused);
    match cursor {
        Cursor::Application(c) => assert!(c.erased),
        other => panic!("unexpected {:?}", other),
    }
}

#[test]
fn reference_rename_keeps_empty_names() {
    let c = ReferenceCursor { name: "a".to_string(), up: Path::Top, annotation: () };
    let mutations = vec![ReferenceMutation::Update(String::new())];
    let (cursor, _) = apply_reference_mutations(c, &mutations, ());
    match cursor {
        Cursor::Reference(c) => assert_eq!(c.name, ""),
        other => panic!("unexpected {:?}", other),
    }
}

#[test]
fn duplication_binder_renamed() {
    let c = DuplicationCursor { binder: None, expression: Term::Hole(()), body: Term::Hole(()), up: Path::Top, annotation: () };
    let (cursor, _) = apply_duplication_mutations(c, &vec![DuplicationMutation::Update("d".to_string())], ());
    match cursor {
        Cursor::Duplication(c) => assert_eq!(c.binder, Some("d".to_string())),
        other => panic!("unexpected {:?}", other),
    }
}

#[test]
fn function_focus_follows_the_last_focus_edit() {
    let make = || FunctionCursor {
        erased: false,
        binder: None,
        self_binder: None,
        argument_type: Term::Hole(()),
        return_type: Term::Hole(()),
        up: Path::Top,
        annotation: (),
    };
    let mutations = vec![
        FunctionMutation::Focus,
        FunctionMutation::UpdateSelf("s".to_string()),
        FunctionMutation::FocusSelf,
        FunctionMutation::Update("a".to_string()),
        FunctionMutation::ToggleErased,
    ];
    let (cursor, focus) = apply_function_mutations(make(), &mutations, ());
    assert_eq!(focus, Some(true));
    match cursor {
        Cursor::Function(c) => {
            assert_eq!(c.binder, Some("a".to_string()));
            assert_eq!(c.self_binder, Some("s".to_string()));
            assert!(c.erased);
        }
        other => panic!("unexpected {:?}", other),
    }
    let (_, focus) = apply_function_mutations(make(), &vec![FunctionMutation::FocusSelf, FunctionMutation::Focus], ());
    assert_eq!(focus, Some(false));
    let (_, focus) = apply_function_mutations(make(), &vec![FunctionMutation::ToggleErased], ());
    assert_eq!(focus, None);
}

#[test]
fn leaves_only_change_on_removal() {
    let put = PutCursor { term: Term::Hole(()), up: Path::Top, annotation: () };
    let (cursor, focused) = apply_put_mutations(put, &vec![PutMutation::Focus], ());
    assert!(focused);
    assert!(matches!(cursor, Cursor::Put(_)));
    let universe = UniverseCursor { path: Path::Top, annotation: () };
    let (cursor, _) = apply_universe_mutations(universe, &vec![UniverseMutation::Remove], ());
    assert!(matches!(cursor, Cursor::Hole(_)));
    let wrap = WrapCursor { term: Term::Hole(()), up: Path::Top, annotation: () };
    let (cursor, focused) = apply_wrap_mutations(wrap, &vec![], ());
    assert!(!focused);
    assert!(matches!(cursor, Cursor::Wrap(_)));
}

#[test]
fn filling_a_hole_puts_the_term_in_place() {
    let up = Path::Lambda { erased: false, name: Some("x".to_string()), up: Box::new(Path::Top), annotation: () };
    let hole = HoleCursor { up, annotation: () };
    let mutations = vec![
        HoleMutation::Replace(Term::Reference("x".to_string(), ())),
        HoleMutation::Focus,
    ];
    let (cursor, focused) = apply_hole_mutations(hole, mutations);
    assert!(focused);
    assert!(matches!(cursor.path(), Path::Lambda { .. }));
    assert_eq!(cursor.into_focus(), Term::Reference("x".to_string(), ()));
}

#[test]
fn filling_with_a_literal_expands_it_and_going_up_ascends() {
    let up = Path::Put { up: Box::new(Path::Top), annotation: () };
    let hole = HoleCursor { up, annotation: () };
    let mutations = vec![
        HoleMutation::Replace(Term::Compressed(CompressedTerm::Size(CompressedSize::new(0)))),
        HoleMutation::ToParent,
    ];
    let (cursor, focused) = apply_hole_mutations(hole, mutations);
    assert!(!focused);
    assert!(cursor.is_top());
    assert_eq!(
        cursor.into_focus(),
        Term::Put(Box::new(Term::Reference("Size::zero".to_string(), ())), ())
    );
}

#[test]
fn definition_edits() {
    let mutations = vec![
        DefMutation::Update("a".to_string()),
        DefMutation::Focus,
        DefMutation::Update(String::new()),
    ];
    assert_eq!(apply_def_mutations(Some("x".to_string()), &mutations), (None, false, true));
    let mutations = vec![DefMutation::Remove, DefMutation::Update("b".to_string())];
    assert_eq!(apply_def_mutations(None, &mutations), (Some("b".to_string()), true, false));
}

#[test]
fn a_letter_in_a_hole_names_a_template() {
    assert_eq!(
        hole_template('L'),
        Some(HoleTemplate::Term(Term::Lambda { erased: true, name: None, body: Box::new(Term::Hole(())), annotation: () }))
    );
    assert_eq!(hole_template('r'), Some(HoleTemplate::Term(Term::Reference(String::new(), ()))));
    assert_eq!(hole_template('D'), Some(HoleTemplate::Definition));
    assert_eq!(hole_template('z'), None);
}
