use input_object::descriptor::FieldDescriptor;
use input_object::descriptor::FieldType;
use input_object::descriptor::FieldVis;
use input_object::descriptor::Instance;
use input_object::descriptor::RecordDescriptor;
use input_object::descriptor::RenameRule;
use input_object::descriptor::TypeShape;
use input_object::descriptor::instance_eq;
use input_object::generate::ArtifactBundle;
use input_object::generate::GenError;
use input_object::generate::generate;
use input_object::parse::ParseError;
use input_object::schema::MetaType;
use input_object::schema::Registry;
use input_object::value::Entry;
use input_object::value::Value;
use input_object::value::obj_get;
use input_object::value::value_eq;

fn field(ident: &str, ty: FieldType) -> FieldDescriptor {
    FieldDescriptor {
        ident: String::from(ident),
        raw: false,
        ty,
        vis: FieldVis::Inherited,
        doc: None,
        name_override: None,
        default_lit: None,
        default_factory: None,
        validator: None,
        flatten: false,
    }
}

fn record(ident: &str, fields: Vec<FieldDescriptor>) -> RecordDescriptor {
    RecordDescriptor {
        ident: String::from(ident),
        name_override: None,
        rename_rule: RenameRule::Preserve,
        internal: false,
        doc: None,
        shape: TypeShape::NamedRecord(fields),
    }
}

fn limited() -> RecordDescriptor {
    let mut f = field("limit", FieldType::IntTy);
    f.default_lit = Some(Instance::IntVal(10));
    record("Limited", vec![f])
}

fn outer_inner() -> RecordDescriptor {
    let inner = record("Inner", vec![field("x", FieldType::IntTy)]);
    let mut f = field("inner", FieldType::RecordTy(Box::new(inner)));
    f.flatten = true;
    record("Outer", vec![f])
}

fn obj(entries: Vec<(&str, Value)>) -> Value {
    Value::ObjVal(
        entries
            .into_iter()
            .map(|(k, v)| Entry { key: String::from(k), val: v })
            .collect(),
    )
}

fn must_generate(d: RecordDescriptor) -> ArtifactBundle {
    match generate(d) {
        Ok(b) => b,
        Err(_) => panic!("generation failed on a well-formed descriptor"),
    }
}

#[test]
fn generation_succeeds_on_named_record() {
    assert!(generate(limited()).is_ok());
    assert!(generate(outer_inner()).is_ok());
}

#[test]
fn generation_rejects_zero_fields() {
    let d = record("Empty", vec![]);
    assert_eq!(generate(d).err(), Some(GenError::EmptyFieldsError));
}

#[test]
fn generation_rejects_other_shapes() {
    let d = RecordDescriptor {
        ident: String::from("NotARecord"),
        name_override: None,
        rename_rule: RenameRule::Preserve,
        internal: false,
        doc: None,
        shape: TypeShape::Other,
    };
    assert_eq!(generate(d).err(), Some(GenError::ShapeError));
}

#[test]
fn round_trip_scalar_record() {
    let b = must_generate(record(
        "Point",
        vec![field("x", FieldType::IntTy), field("y", FieldType::StrTy)],
    ));
    let x = Instance::RecordVal(vec![
        Instance::IntVal(3),
        Instance::StrVal(String::from("hi")),
    ]);
    let v = b.to_value(&x);
    let back = b.parse(Some(v)).expect("round trip must succeed");
    assert!(instance_eq(&back, &x));
}

#[test]
fn round_trip_nested_record_and_option() {
    let inner = record("Inner", vec![field("x", FieldType::IntTy)]);
    let b = must_generate(record(
        "Outer",
        vec![
            field("inner", FieldType::RecordTy(Box::new(inner))),
            field("opt", FieldType::OptionTy(Box::new(FieldType::BoolTy))),
        ],
    ));
    let x = Instance::RecordVal(vec![
        Instance::RecordVal(vec![Instance::IntVal(7)]),
        Instance::SomeVal(Box::new(Instance::BoolVal(true))),
    ]);
    let v = b.to_value(&x);
    let back = b.parse(Some(v)).expect("round trip must succeed");
    assert!(instance_eq(&back, &x));
}

#[test]
fn absent_value_with_default_yields_default() {
    let b = must_generate(limited());
    let got = b.parse(None).expect("defaults must apply on absence");
    assert!(instance_eq(&got, &Instance::RecordVal(vec![Instance::IntVal(10)])));
}

#[test]
fn missing_key_without_default_propagates_under_field_name() {
    let b = must_generate(record("Holder", vec![field("x", FieldType::IntTy)]));
    match b.parse(Some(obj(vec![]))) {
        Err(ParseError::FieldPropagation(name, inner)) => {
            assert_eq!(name, "x");
            assert!(matches!(*inner, ParseError::TypeMismatch(Value::Null)));
        }
        other => panic!("expected a propagated failure, got {:?}", other.is_ok()),
    }
}

#[test]
fn missing_key_on_optional_field_is_absence_not_failure() {
    let b = must_generate(record(
        "Holder",
        vec![field("opt", FieldType::OptionTy(Box::new(FieldType::IntTy)))],
    ));
    let got = b.parse(Some(obj(vec![]))).expect("optionals accept absence");
    assert!(instance_eq(&got, &Instance::RecordVal(vec![Instance::NoneVal])));
}

#[test]
fn flatten_serializes_without_wrapping_key() {
    let b = must_generate(outer_inner());
    let x = Instance::RecordVal(vec![Instance::RecordVal(vec![Instance::IntVal(3)])]);
    let v = b.to_value(&x);
    assert!(value_eq(&v, &obj(vec![("x", Value::IntVal(3))])));
    match &v {
        Value::ObjVal(es) => {
            assert!(obj_get(es, &String::from("inner")).is_none());
            assert!(obj_get(es, &String::from("x")).is_some());
        }
        _ => panic!("serialization of a record must be an object"),
    }
}

#[test]
fn flatten_reconstructs_from_the_whole_object() {
    let b = must_generate(outer_inner());
    let got = b.parse(Some(obj(vec![("x", Value::IntVal(3))]))).expect("flatten parse");
    let want = Instance::RecordVal(vec![Instance::RecordVal(vec![Instance::IntVal(3)])]);
    assert!(instance_eq(&got, &want));
}

#[test]
fn limited_empty_object_takes_default() {
    let b = must_generate(limited());
    let got = b.parse(Some(obj(vec![]))).expect("default must apply");
    assert!(instance_eq(&got, &Instance::RecordVal(vec![Instance::IntVal(10)])));
}

#[test]
fn limited_present_key_overrides_default() {
    let b = must_generate(limited());
    let got = b.parse(Some(obj(vec![("limit", Value::IntVal(5))]))).expect("present key");
    assert!(instance_eq(&got, &Instance::RecordVal(vec![Instance::IntVal(5)])));
}

#[test]
fn limited_non_object_is_a_type_mismatch() {
    let b = must_generate(limited());
    match b.parse(Some(Value::StrVal(String::from("x")))) {
        Err(ParseError::TypeMismatch(v)) => {
            assert!(value_eq(&v, &Value::StrVal(String::from("x"))));
        }
        _ => panic!("a non-object input must be a type mismatch"),
    }
}

#[test]
fn create_type_info_registers_record_and_scalars() {
    let b = must_generate(limited());
    let mut reg = Registry::new();
    let name = b.create_type_info(&mut reg);
    assert_eq!(name, "Limited");
    let names: Vec<&str> = reg.types.iter().map(|p| p.0.as_str()).collect();
    assert!(names.contains(&"Limited"));
    assert!(names.contains(&"Int"));
}

#[test]
fn create_type_info_is_idempotent() {
    let b = must_generate(limited());
    let mut reg = Registry::new();
    let first = b.create_type_info(&mut reg);
    let len_after_first = reg.len();
    let second = b.create_type_info(&mut reg);
    assert_eq!(first, second);
    assert_eq!(reg.len(), len_after_first);
}

#[test]
fn create_type_info_inlines_flattened_fields() {
    let b = must_generate(outer_inner());
    let mut reg = Registry::new();
    let name = b.create_type_info(&mut reg);
    assert_eq!(name, "Outer");
    let meta = reg
        .types
        .iter()
        .find(|p| p.0 == "Outer")
        .map(|p| &p.1)
        .expect("the record must be registered");
    match meta {
        MetaType::InputObject { input_fields, .. } => {
            assert_eq!(input_fields.len(), 1);
            assert_eq!(input_fields[0].name, "x");
        }
        _ => panic!("a record registers as an input object"),
    }
}

#[test]
fn schema_default_is_rendered_through_to_value() {
    let b = must_generate(limited());
    let mut reg = Registry::new();
    b.create_type_info(&mut reg);
    let meta = reg
        .types
        .iter()
        .find(|p| p.0 == "Limited")
        .map(|p| &p.1)
        .expect("the record must be registered");
    match meta {
        MetaType::InputObject { input_fields, .. } => {
            assert_eq!(input_fields[0].default_value.as_deref(), Some("10"));
            assert_eq!(input_fields[0].ty, "Int");
        }
        _ => panic!("a record registers as an input object"),
    }
}

#[test]
fn metadata_carries_validator_doc_and_override() {
    let mut f = field("limit", FieldType::IntTy);
    f.validator = Some(String::from("range(0, 100)"));
    f.doc = Some(String::from("an upper bound"));
    let mut d = record("Limited", vec![f]);
    d.name_override = Some(String::from("LimitedInput"));
    d.doc = Some(String::from("a limited request"));
    let b = must_generate(d);
    let mut reg = Registry::new();
    let name = b.create_type_info(&mut reg);
    assert_eq!(name, "LimitedInput");
    let meta = reg
        .types
        .iter()
        .find(|p| p.0 == "LimitedInput")
        .map(|p| &p.1)
        .expect("the record must be registered under its override");
    match meta {
        MetaType::InputObject { description, input_fields, .. } => {
            assert_eq!(description.as_deref(), Some("a limited request"));
            assert_eq!(input_fields[0].validator.as_deref(), Some("range(0, 100)"));
            assert_eq!(input_fields[0].description.as_deref(), Some("an upper bound"));
            assert_eq!(input_fields[0].default_value, None);
        }
        _ => panic!("a record registers as an input object"),
    }
}

#[test]
fn rename_rule_applies_to_type_and_field_names() {
    let mut d = record("config", vec![field("MaxSize", FieldType::IntTy)]);
    d.rename_rule = RenameRule::UpperAscii;
    let b = must_generate(d);
    let mut reg = Registry::new();
    let name = b.create_type_info(&mut reg);
    assert_eq!(name, "CONFIG");
    let got = b
        .parse(Some(obj(vec![("MAXSIZE", Value::IntVal(9))])))
        .expect("the renamed key must be read");
    assert!(instance_eq(&got, &Instance::RecordVal(vec![Instance::IntVal(9)])));
}

#[test]
fn nested_optional_collapses_through_serialization() {
    let b = must_generate(record(
        "Holder",
        vec![field(
            "o",
            FieldType::OptionTy(Box::new(FieldType::OptionTy(Box::new(FieldType::IntTy)))),
        )],
    ));
    let present_absence =
        Instance::RecordVal(vec![Instance::SomeVal(Box::new(Instance::NoneVal))]);
    let v = b.to_value(&present_absence);
    assert!(value_eq(&v, &obj(vec![("o", Value::Null)])));
    let back = b.parse(Some(v)).expect("a null key is accepted as absence");
    assert!(instance_eq(&back, &Instance::RecordVal(vec![Instance::NoneVal])));
}
