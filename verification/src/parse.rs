//! Extraction: reconstructing a record instance from an optional dynamic
//! value. A present value that is not object-shaped is a type mismatch; an
//! absent value and an object are both read per field. A missing key falls
//! back to the field's default policy, or is threaded through as absence to
//! the field type itself. Failures of a field are wrapped with the field's
//! resolved name; a flatten field re-reads the whole object under its own
//! identifier.

use vstd::prelude::*;

use crate::descriptor::FieldDescriptor;
use crate::descriptor::FieldType;
use crate::descriptor::Instance;
use crate::descriptor::InstModel;
use crate::descriptor::RenameRule;
use crate::descriptor::TypeShape;
use crate::descriptor::insts_model;
use crate::descriptor::lemma_insts_model;
use crate::names::resolve_field_name;
use crate::names::spec_field_name;
use crate::plan::DefaultPolicy;
use crate::plan::FieldPlan;
use crate::plan::PolicyModel;
use crate::plan::classify;
use crate::plan::spec_default_of;
use crate::serialize::obj_entries;
use crate::value::Entry;
use crate::value::ValModel;
use crate::value::Value;
use crate::value::entries_clone;
use crate::value::entries_model;
use crate::value::lookup;
use crate::value::obj_get;

verus! {

/// A request-time extraction error: the closed taxonomy of runtime failures.
#[derive(Debug)]
pub enum ParseError {
    /// The dynamic value's shape disagrees with what the type expects; the
    /// offending value is carried (`Null` stands for an absent value).
    TypeMismatch(Value),
    /// An inner failure wrapped with the resolved name (or, for a flatten
    /// field, the identifier) of the field it arose under.
    FieldPropagation(String, Box<ParseError>),
}

/// Mathematical model of an extraction error.
#[verifier::ext_equal]
pub enum ErrModel {
    TypeMismatch(ValModel),
    FieldPropagation(Seq<char>, Box<ErrModel>),
}

/// Model of an extraction error.
pub open spec fn e_model(e: ParseError) -> ErrModel
    decreases e,
{
    match e {
        ParseError::TypeMismatch(v) => ErrModel::TypeMismatch(v@),
        ParseError::FieldPropagation(name, inner) => ErrModel::FieldPropagation(
            name@,
            Box::new(e_model(*inner)),
        ),
    }
}

impl View for ParseError {
    type V = ErrModel;

    open spec fn view(&self) -> ErrModel {
        e_model(*self)
    }
}

/// The value an error reports when the input was absent.
pub open spec fn or_null(v: Option<ValModel>) -> ValModel {
    match v {
        Option::Some(w) => w,
        Option::None => ValModel::Null,
    }
}

/// What extraction of one field yields from the entries of the surrounding
/// object: a flatten field re-reads the whole object, a present key is
/// delegated to the field's type, an absent key is supplied by the default
/// policy or threaded through as absence.
pub open spec fn spec_parse_field(
    rule: RenameRule,
    f: FieldDescriptor,
    es: Seq<(Seq<char>, ValModel)>,
) -> Result<InstModel, ErrModel>
    decreases f,
{
    if f.flatten {
        match spec_parse(f.ty, Option::Some(ValModel::ObjVal(es))) {
            Result::Ok(x) => Result::Ok(x),
            Result::Err(e) => Result::Err(ErrModel::FieldPropagation(f.ident@, Box::new(e))),
        }
    } else {
        let name = spec_field_name(rule, f);
        match lookup(es, name) {
            Option::Some(w) => match spec_parse(f.ty, Option::Some(w)) {
                Result::Ok(x) => Result::Ok(x),
                Result::Err(e) => Result::Err(ErrModel::FieldPropagation(name, Box::new(e))),
            },
            Option::None => match spec_default_of(f) {
                PolicyModel::Literal(x) => Result::Ok(x),
                PolicyModel::Factory(x) => Result::Ok(x),
                PolicyModel::NoDefault => match spec_parse(f.ty, Option::None) {
                    Result::Ok(x) => Result::Ok(x),
                    Result::Err(e) => Result::Err(
                        ErrModel::FieldPropagation(name, Box::new(e)),
                    ),
                },
            },
        }
    }
}

/// Extraction of a field list from the entries of the surrounding object:
/// the first failing field aborts, otherwise one binding per field.
pub open spec fn spec_parse_fields(
    rule: RenameRule,
    fs: Seq<FieldDescriptor>,
    es: Seq<(Seq<char>, ValModel)>,
) -> Result<Seq<InstModel>, ErrModel>
    decreases fs,
{
    if fs.len() == 0 {
        Result::Ok(Seq::empty())
    } else {
        match spec_parse_field(rule, fs[0], es) {
            Result::Err(e) => Result::Err(e),
            Result::Ok(x) => match spec_parse_fields(rule, fs.skip(1), es) {
                Result::Err(e) => Result::Err(e),
                Result::Ok(rest) => Result::Ok(seq![x] + rest),
            },
        }
    }
}

/// What extraction of a field type yields from an optional dynamic value.
pub open spec fn spec_parse(t: FieldType, v: Option<ValModel>) -> Result<InstModel, ErrModel>
    decreases t,
    via spec_parse_decreases
{
    match t {
        FieldType::IntTy => match v {
            Option::Some(ValModel::IntVal(n)) => Result::Ok(InstModel::IntVal(n)),
            _ => Result::Err(ErrModel::TypeMismatch(or_null(v))),
        },
        FieldType::StrTy => match v {
            Option::Some(ValModel::StrVal(s)) => Result::Ok(InstModel::StrVal(s)),
            _ => Result::Err(ErrModel::TypeMismatch(or_null(v))),
        },
        FieldType::BoolTy => match v {
            Option::Some(ValModel::BoolVal(b)) => Result::Ok(InstModel::BoolVal(b)),
            _ => Result::Err(ErrModel::TypeMismatch(or_null(v))),
        },
        FieldType::OptionTy(u) => match v {
            Option::None => Result::Ok(InstModel::NoneVal),
            Option::Some(ValModel::Null) => Result::Ok(InstModel::NoneVal),
            Option::Some(w) => match spec_parse(*u, Option::Some(w)) {
                Result::Ok(y) => Result::Ok(InstModel::SomeVal(Box::new(y))),
                Result::Err(e) => Result::Err(e),
            },
        },
        FieldType::RecordTy(d) => {
            let es = match v {
                Option::Some(w) => obj_entries(w),
                Option::None => Seq::empty(),
            };
            if v is Some && !(or_null(v) is ObjVal) {
                Result::Err(ErrModel::TypeMismatch(or_null(v)))
            } else {
                match (*d).shape {
                    TypeShape::NamedRecord(fs) => match spec_parse_fields(
                        d.rename_rule,
                        fs@,
                        es,
                    ) {
                        Result::Ok(xs) => Result::Ok(InstModel::RecordVal(xs)),
                        Result::Err(e) => Result::Err(e),
                    },
                    TypeShape::Other => Result::Ok(InstModel::RecordVal(Seq::empty())),
                }
            }
        },
    }
}

#[via_fn]
proof fn spec_parse_decreases(t: FieldType, v: Option<ValModel>) {
    match t {
        FieldType::RecordTy(d) => {
            match (*d).shape {
                TypeShape::NamedRecord(fs) => {
                    assert(decreases_to!(t => fs@)) by {
                        assert(decreases_to!(t => *d));
                        assert(decreases_to!(*d => (*d).shape));
                        assert(decreases_to!((*d).shape => fs));
                        assert(decreases_to!(fs => fs@));
                    }
                },
                TypeShape::Other => {},
            }
        },
        _ => {},
    }
}

/// Model of an extraction result.
pub open spec fn res_model(r: Result<Instance, ParseError>) -> Result<InstModel, ErrModel> {
    match r {
        Result::Ok(x) => Result::Ok(x@),
        Result::Err(e) => Result::Err(e@),
    }
}

/// Model of an optional dynamic value.
pub open spec fn opt_model(v: Option<Value>) -> Option<ValModel> {
    match v {
        Option::Some(w) => Option::Some(w@),
        Option::None => Option::None,
    }
}

/// Extracts the bindings of a record's fields from an object's entries.
fn parse_fields(rule: RenameRule, fs: &Vec<FieldDescriptor>, es: &Vec<Entry>) -> (r: Result<
    Vec<Instance>,
    ParseError,
>)
    ensures
        match r {
            Result::Ok(xs) => spec_parse_fields(rule, fs@, entries_model(es@)) == Result::<
                Seq<InstModel>,
                ErrModel,
            >::Ok(insts_model(xs@)),
            Result::Err(e) => spec_parse_fields(rule, fs@, entries_model(es@)) == Result::<
                Seq<InstModel>,
                ErrModel,
            >::Err(e@),
        },
    decreases fs@,
{
    let ghost em = entries_model(es@);
    let mut out: Vec<Instance> = Vec::new();
    proof {
        lemma_insts_model(out@);
        assert(fs@.skip(0) =~= fs@);
        assert(insts_model(out@) =~= Seq::<InstModel>::empty());
    }
    let mut i: usize = 0;
    while i < fs.len()
        invariant
            em == entries_model(es@),
            i <= fs.len(),
            insts_model(out@).len() == i,
            forall|rest: Seq<InstModel>|
                spec_parse_fields(rule, fs@.skip(i as int), em) == Result::<
                    Seq<InstModel>,
                    ErrModel,
                >::Ok(rest) ==> spec_parse_fields(rule, fs@, em) == Result::<
                    Seq<InstModel>,
                    ErrModel,
                >::Ok(insts_model(out@) + rest),
            forall|e: ErrModel|
                spec_parse_fields(rule, fs@.skip(i as int), em) == Result::<
                    Seq<InstModel>,
                    ErrModel,
                >::Err(e) ==> spec_parse_fields(rule, fs@, em) == Result::<
                    Seq<InstModel>,
                    ErrModel,
                >::Err(e),
        decreases fs@.len() - i,
    {
        proof {
            assert(decreases_to!(fs@ => fs@[i as int]));
            assert(fs@.skip(i as int)[0] == fs@[i as int]);
            assert(fs@.skip(i as int).skip(1) =~= fs@.skip(i + 1));
        }
        let plan = classify(&fs[i]);
        let step: Result<Instance, ParseError> = match plan {
            FieldPlan::Flatten => {
                let whole = Value::ObjVal(entries_clone(es));
                match parse(&fs[i].ty, Option::Some(whole)) {
                    Result::Ok(x) => Result::Ok(x),
                    Result::Err(e) => Result::Err(
                        ParseError::FieldPropagation(fs[i].ident.clone(), Box::new(e)),
                    ),
                }
            },
            FieldPlan::Scalar(policy) => {
                let name = resolve_field_name(rule, &fs[i]);
                match obj_get(es, &name) {
                    Option::Some(w) => match parse(&fs[i].ty, Option::Some(w)) {
                        Result::Ok(x) => Result::Ok(x),
                        Result::Err(e) => Result::Err(
                            ParseError::FieldPropagation(name, Box::new(e)),
                        ),
                    },
                    Option::None => match policy {
                        DefaultPolicy::Literal(x) => Result::Ok(x),
                        DefaultPolicy::Factory(x) => Result::Ok(x),
                        DefaultPolicy::NoDefault => match parse(&fs[i].ty, Option::None) {
                            Result::Ok(x) => Result::Ok(x),
                            Result::Err(e) => Result::Err(
                                ParseError::FieldPropagation(name, Box::new(e)),
                            ),
                        },
                    },
                }
            },
        };
        match step {
            Result::Ok(x) => {
                let ghost out_old = out@;
                let ghost xm = x@;
                proof {
                    assert(spec_parse_field(rule, fs@[i as int], em) == Result::<
                        InstModel,
                        ErrModel,
                    >::Ok(xm));
                }
                out.push(x);
                proof {
                    lemma_insts_model(out_old);
                    lemma_insts_model(out@);
                    assert(insts_model(out@) =~= insts_model(out_old) + seq![xm]);
                    assert forall|rest: Seq<InstModel>|
                        spec_parse_fields(rule, fs@.skip(i + 1), em) == Result::<
                            Seq<InstModel>,
                            ErrModel,
                        >::Ok(rest) implies spec_parse_fields(rule, fs@, em) == Result::<
                        Seq<InstModel>,
                        ErrModel,
                    >::Ok(insts_model(out@) + rest) by {
                        assert(spec_parse_fields(rule, fs@.skip(i as int), em) == Result::<
                            Seq<InstModel>,
                            ErrModel,
                        >::Ok(seq![xm] + rest));
                        assert(insts_model(out_old) + (seq![xm] + rest) =~= insts_model(out@)
                            + rest);
                    }
                }
            },
            Result::Err(e) => {
                proof {
                    assert(spec_parse_field(rule, fs@[i as int], em) == Result::<
                        InstModel,
                        ErrModel,
                    >::Err(e@));
                }
                return Result::Err(e);
            },
        }
        i += 1;
    }
    proof {
        assert(fs@.skip(fs@.len() as int) =~= Seq::<FieldDescriptor>::empty());
        assert(insts_model(out@) + Seq::<InstModel>::empty() =~= insts_model(out@));
    }
    Result::Ok(out)
}

/// Extracts an instance of a field type from an optional dynamic value.
pub fn parse(t: &FieldType, v: Option<Value>) -> (r: Result<Instance, ParseError>)
    ensures
        res_model(r) == spec_parse(*t, opt_model(v)),
    decreases t,
{
    match t {
        FieldType::IntTy => match v {
            Option::Some(w) => match w {
                Value::IntVal(n) => Result::Ok(Instance::IntVal(n)),
                w2 => Result::Err(ParseError::TypeMismatch(w2)),
            },
            Option::None => Result::Err(ParseError::TypeMismatch(Value::Null)),
        },
        FieldType::StrTy => match v {
            Option::Some(w) => match w {
                Value::StrVal(s) => Result::Ok(Instance::StrVal(s)),
                w2 => Result::Err(ParseError::TypeMismatch(w2)),
            },
            Option::None => Result::Err(ParseError::TypeMismatch(Value::Null)),
        },
        FieldType::BoolTy => match v {
            Option::Some(w) => match w {
                Value::BoolVal(b) => Result::Ok(Instance::BoolVal(b)),
                w2 => Result::Err(ParseError::TypeMismatch(w2)),
            },
            Option::None => Result::Err(ParseError::TypeMismatch(Value::Null)),
        },
        FieldType::OptionTy(u) => match v {
            Option::None => Result::Ok(Instance::NoneVal),
            Option::Some(w) => match w {
                Value::Null => Result::Ok(Instance::NoneVal),
                w2 => match parse(u, Option::Some(w2)) {
                    Result::Ok(y) => Result::Ok(Instance::SomeVal(Box::new(y))),
                    Result::Err(e) => Result::Err(e),
                },
            },
        },
        FieldType::RecordTy(d) => {
            proof {
                assert(decreases_to!(*t => **d));
            }
            match v {
                Option::Some(w) => match w {
                    Value::ObjVal(es) => parse_record(d, &es),
                    w2 => Result::Err(ParseError::TypeMismatch(w2)),
                },
                Option::None => {
                    let es: Vec<Entry> = Vec::new();
                    proof {
                        assert(entries_model(es@) =~= Seq::<(Seq<char>, ValModel)>::empty());
                    }
                    parse_record(d, &es)
                },
            }
        },
    }
}

/// Extracts a record instance from an object's entries.
fn parse_record(d: &Box<crate::descriptor::RecordDescriptor>, es: &Vec<Entry>) -> (r: Result<
    Instance,
    ParseError,
>)
    ensures
        match (**d).shape {
            TypeShape::NamedRecord(fs) => res_model(r) == (match spec_parse_fields(
                d.rename_rule,
                fs@,
                entries_model(es@),
            ) {
                Result::Ok(xs) => Result::<InstModel, ErrModel>::Ok(InstModel::RecordVal(xs)),
                Result::Err(e) => Result::<InstModel, ErrModel>::Err(e),
            }),
            TypeShape::Other => res_model(r) == Result::<InstModel, ErrModel>::Ok(
                InstModel::RecordVal(Seq::empty()),
            ),
        },
    decreases **d,
{
    match &d.shape {
        TypeShape::NamedRecord(fs) => {
            proof {
                assert(decreases_to!(**d => fs@)) by {
                    assert(decreases_to!(**d => (**d).shape));
                    assert(decreases_to!((**d).shape => *fs));
                    assert(decreases_to!(*fs => fs@));
                }
            }
            match parse_fields(d.rename_rule, fs, es) {
                Result::Ok(xs) => {
                    proof {
                        lemma_insts_model(xs@);
                    }
                    Result::Ok(Instance::RecordVal(xs))
                },
                Result::Err(e) => Result::Err(e),
            }
        },
        TypeShape::Other => {
            let xs: Vec<Instance> = Vec::new();
            proof {
                assert(insts_model(xs@) =~= Seq::<InstModel>::empty());
            }
            Result::Ok(Instance::RecordVal(xs))
        },
    }
}

} // verus!
