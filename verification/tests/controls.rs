use whelk::controls::{
    parse_size, Adt, AdtData, AdtVariantData, Control, ControlData, Invoke, Literal, SizeLiteral,
    StringLiteral, Variable,
};
use whelk::controls::root_from_decoded;
use whelk::dynamic::DynamicReadError;
use whelk::literal::{CompressedSize, CompressedString, CompressedTerm};
use whelk::zipper::Term;

#[test]
fn variable_stands_for_a_hole_and_stores_its_index() {
    let v = Variable::new(3);
    assert_eq!(v.expand(), Term::Hole(()));
    assert_eq!(v.encode(), ControlData::Variable(3));
}

#[test]
fn invoke_names_the_literal_prompt() {
    let mut c = Invoke::new();
    assert_eq!(c.appended(), None);
    c.read(Some("lit".to_string()));
    assert_eq!(c.appended(), Some(ControlData::Literal));
    c.read(None);
    assert_eq!(c.field_content, "lit");
    c.read(Some("literal".to_string()));
    assert_eq!(c.appended(), Some(ControlData::Literal));
    c.read(Some("lite".to_string()));
    assert_eq!(c.appended(), None);
    assert_eq!(c.encode(), ControlData::Invoke);
    assert_eq!(c.expand(), Term::Hole(()));
}

#[test]
fn literal_prompt_names_a_literal() {
    let mut c = Literal::new();
    c.read(Some("String".to_string()));
    assert_eq!(c.appended(), Some(ControlData::StringLiteral(String::new())));
    c.read(Some("Size".to_string()));
    assert_eq!(c.appended(), Some(ControlData::SizeLiteral(0)));
    c.read(Some("size".to_string()));
    assert_eq!(c.appended(), None);
    assert_eq!(c.removed(), ControlData::Invoke);
    assert_eq!(c.encode(), ControlData::Literal);
}

#[test]
fn size_literal_reads_digits_or_zero() {
    let mut c = SizeLiteral::new();
    assert_eq!(c.field_content, 0);
    c.read(Some("42".to_string()));
    assert_eq!(c.field_content, 42);
    c.read(Some("4x".to_string()));
    assert_eq!(c.field_content, 0);
    c.read(Some("+7".to_string()));
    assert_eq!(c.field_content, 7);
    c.read(Some("99999999999999999999999".to_string()));
    assert_eq!(c.field_content, 0);
    assert_eq!(parse_size(""), 0);
    assert_eq!(parse_size("+"), 0);
    assert_eq!(parse_size("18446744073709551615"), 18446744073709551615usize);
    let c = SizeLiteral::from(5);
    assert_eq!(c.encode(), ControlData::SizeLiteral(5));
    assert_eq!(c.expand(), Term::Compressed(CompressedTerm::Size(CompressedSize::new(5))));
    assert_eq!(c.removed(), ControlData::Literal);
}

#[test]
fn string_literal_stands_for_its_text() {
    let mut c = StringLiteral::new();
    c.read(Some("hi".to_string()));
    assert_eq!(c.encode(), ControlData::StringLiteral("hi".to_string()));
    assert_eq!(
        c.expand(),
        Term::Compressed(CompressedTerm::String(CompressedString::new("hi".to_string())))
    );
    assert_eq!(StringLiteral::from("a".to_string()).field_content, "a");
}

#[test]
fn adt_stands_for_a_reference_to_its_name() {
    let data = AdtData {
        name: "Bool".to_string(),
        variants: vec![AdtVariantData { name: "true".to_string() }],
    };
    let adt = Adt::from(data);
    assert_eq!(adt.expand(), Term::Reference("Bool".to_string(), ()));
    assert_eq!(adt.add_variants.len(), 1);
    assert_eq!(
        adt.encode(),
        ControlData::Adt(AdtData { name: "Bool".to_string(), variants: vec![] })
    );
    assert_eq!(Adt::new().data_name, "");
}

#[test]
fn stored_data_gives_back_its_control() {
    assert_eq!(
        ControlData::SizeLiteral(4).to_control(),
        Control::SizeLiteral(SizeLiteral::from(4))
    );
    assert_eq!(ControlData::Variable(2).to_control(), Control::Variable(Variable::new(2)));
    assert_eq!(ControlData::Invoke.to_control(), Control::Invoke(Invoke::new()));
    assert_eq!(ControlData::Literal.to_control(), Control::Literal(Literal::new()));
}

#[test]
fn a_root_is_read_from_its_decoded_payload() {
    assert_eq!(root_from_decoded(None), Err(DynamicReadError::Invalid));
    assert_eq!(
        root_from_decoded(Some(ControlData::Variable(1))),
        Ok(Control::Variable(Variable::new(1)))
    );
}
