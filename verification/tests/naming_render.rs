use input_object::descriptor::FieldDescriptor;
use input_object::descriptor::FieldType;
use input_object::descriptor::FieldVis;
use input_object::descriptor::RenameRule;
use input_object::descriptor::RenameTarget;
use input_object::names::apply_rule;
use input_object::names::resolve_field_name;
use input_object::render::render;
use input_object::value::Entry;
use input_object::value::Value;

fn bare_field(ident: &str) -> FieldDescriptor {
    FieldDescriptor {
        ident: String::from(ident),
        raw: false,
        ty: FieldType::IntTy,
        vis: FieldVis::Inherited,
        doc: None,
        name_override: None,
        default_lit: None,
        default_factory: None,
        validator: None,
        flatten: false,
    }
}

#[test]
fn rename_rules_map_ascii_case() {
    let id = String::from("LimitValue");
    assert_eq!(apply_rule(RenameRule::Preserve, RenameTarget::Field, &id), "LimitValue");
    assert_eq!(apply_rule(RenameRule::LowerAscii, RenameTarget::Field, &id), "limitvalue");
    assert_eq!(apply_rule(RenameRule::UpperAscii, RenameTarget::Field, &id), "LIMITVALUE");
}

#[test]
fn rename_rules_keep_non_letters() {
    let id = String::from("a_b9");
    assert_eq!(apply_rule(RenameRule::UpperAscii, RenameTarget::Type, &id), "A_B9");
}

#[test]
fn explicit_override_beats_rename_rule() {
    let mut f = bare_field("limit");
    f.name_override = Some(String::from("theLimit"));
    assert_eq!(resolve_field_name(RenameRule::UpperAscii, &f), "theLimit");
}

#[test]
fn field_name_comes_from_rule_when_not_overridden() {
    let f = bare_field("Limit");
    assert_eq!(resolve_field_name(RenameRule::LowerAscii, &f), "limit");
}

#[test]
fn raw_identifier_escape_never_reaches_names() {
    let mut f = bare_field("type");
    f.raw = true;
    assert_eq!(resolve_field_name(RenameRule::Preserve, &f), "type");
}

#[test]
fn render_scalars() {
    assert_eq!(render(&Value::Null), "null");
    assert_eq!(render(&Value::BoolVal(true)), "true");
    assert_eq!(render(&Value::BoolVal(false)), "false");
    assert_eq!(render(&Value::IntVal(0)), "0");
    assert_eq!(render(&Value::IntVal(1234)), "1234");
    assert_eq!(render(&Value::IntVal(-42)), "-42");
    assert_eq!(render(&Value::IntVal(i64::MIN)), "-9223372036854775808");
    assert_eq!(render(&Value::StrVal(String::from("hi"))), "\"hi\"");
}

#[test]
fn render_objects() {
    let v = Value::ObjVal(vec![
        Entry { key: String::from("a"), val: Value::IntVal(1) },
        Entry { key: String::from("b"), val: Value::BoolVal(true) },
    ]);
    assert_eq!(render(&v), "{\"a\":1,\"b\":true}");
    assert_eq!(render(&Value::ObjVal(vec![])), "{}");
}
