//! Serialization: converting a well-formed record instance into a dynamic
//! object value. A non-flatten field contributes one entry under its
//! resolved external name; a flatten field contributes every entry of its
//! nested record's own object, with no wrapping key.

use vstd::prelude::*;

use crate::descriptor::FieldDescriptor;
use crate::descriptor::FieldType;
use crate::descriptor::Instance;
use crate::descriptor::InstModel;
use crate::descriptor::RenameRule;
use crate::descriptor::TypeShape;
use crate::descriptor::fields_of;
use crate::descriptor::lemma_insts_model;
use crate::descriptor::wf_instance;
use crate::names::resolve_field_name;
use crate::names::spec_field_name;
use crate::value::Entry;
use crate::value::ValModel;
use crate::value::Value;
use crate::value::entries_model;
use crate::value::lemma_entries_model;

verus! {

/// The entries of an object value; any other shape has none.
pub open spec fn obj_entries(v: ValModel) -> Seq<(Seq<char>, ValModel)> {
    match v {
        ValModel::ObjVal(es) => es,
        _ => Seq::empty(),
    }
}

/// The element bindings of a record instance; any other instance has none.
pub open spec fn record_elems(x: InstModel) -> Seq<InstModel> {
    match x {
        InstModel::RecordVal(xs) => xs,
        _ => Seq::empty(),
    }
}

/// The dynamic value a well-formed instance of a field type serializes to.
/// Scalars map to their own shape, an absent optional to `Null`, and a
/// record to the object built from its fields in declaration order.
pub open spec fn spec_to_value(t: FieldType, x: InstModel) -> ValModel
    decreases t,
    via spec_to_value_decreases
{
    match t {
        FieldType::IntTy => match x {
            InstModel::IntVal(n) => ValModel::IntVal(n),
            _ => ValModel::Null,
        },
        FieldType::StrTy => match x {
            InstModel::StrVal(s) => ValModel::StrVal(s),
            _ => ValModel::Null,
        },
        FieldType::BoolTy => match x {
            InstModel::BoolVal(b) => ValModel::BoolVal(b),
            _ => ValModel::Null,
        },
        FieldType::OptionTy(u) => match x {
            InstModel::SomeVal(y) => spec_to_value(*u, *y),
            _ => ValModel::Null,
        },
        FieldType::RecordTy(d) => ValModel::ObjVal(
            match d.shape {
                TypeShape::NamedRecord(fs) => spec_entries(d.rename_rule, fs@, record_elems(x)),
                TypeShape::Other => Seq::empty(),
            },
        ),
    }
}

#[via_fn]
proof fn spec_to_value_decreases(t: FieldType, x: InstModel) {
    match t {
        FieldType::RecordTy(d) => {
            match (*d).shape {
                TypeShape::NamedRecord(fs) => {
                    assert(decreases_to!(t => fs@)) by {
                        assert(decreases_to!(t => *d));
                        assert(decreases_to!(*d => (*d).shape));
                        assert(decreases_to!((*d).shape => fs));
                        assert(decreases_to!(fs => fs@));
                    }
                },
                TypeShape::Other => {},
            }
        },
        _ => {},
    }
}

/// The object entries a record's fields contribute, in declaration order: a
/// non-flatten field one named entry, a flatten field its nested object's
/// entries spliced in place.
pub open spec fn spec_entries(
    rule: RenameRule,
    fs: Seq<FieldDescriptor>,
    xs: Seq<InstModel>,
) -> Seq<(Seq<char>, ValModel)>
    decreases fs,
{
    if fs.len() == 0 || xs.len() == 0 {
        Seq::empty()
    } else {
        let head = if fs[0].flatten {
            obj_entries(spec_to_value(fs[0].ty, xs[0]))
        } else {
            seq![(spec_field_name(rule, fs[0]), spec_to_value(fs[0].ty, xs[0]))]
        };
        head + spec_entries(rule, fs.skip(1), xs.skip(1))
    }
}

/// The entry-list model distributes over concatenation.
pub proof fn lemma_entries_model_concat(a: Seq<Entry>, b: Seq<Entry>)
    ensures
        entries_model(a + b) == entries_model(a) + entries_model(b),
    decreases a,
{
    lemma_entries_model(a);
    lemma_entries_model(b);
    lemma_entries_model(a + b);
    assert(entries_model(a + b) =~= entries_model(a) + entries_model(b));
}

/// Serializes a well-formed instance of a field type into a dynamic value.
pub fn to_value(t: &FieldType, x: &Instance) -> (r: Value)
    requires
        wf_instance(*t, x@),
    ensures
        r@ == spec_to_value(*t, x@),
    decreases t,
{
    match t {
        FieldType::IntTy => match x {
            Instance::IntVal(n) => Value::IntVal(*n),
            _ => Value::Null,
        },
        FieldType::StrTy => match x {
            Instance::StrVal(s) => Value::StrVal(s.clone()),
            _ => Value::Null,
        },
        FieldType::BoolTy => match x {
            Instance::BoolVal(b) => Value::BoolVal(*b),
            _ => Value::Null,
        },
        FieldType::OptionTy(u) => match x {
            Instance::SomeVal(y) => to_value(u, y),
            _ => Value::Null,
        },
        FieldType::RecordTy(d) => {
            let rule = d.rename_rule;
            let mut out: Vec<Entry> = Vec::new();
            match (&d.shape, x) {
                (TypeShape::NamedRecord(fs), Instance::RecordVal(xs)) => {
                    proof {
                        lemma_insts_model(xs@);
                    }
                    let ghost xsm = crate::descriptor::insts_model(xs@);
                    proof {
                        assert(fields_of(**d) == fs@);
                        assert(record_elems(x@) == xsm);
                        assert(fs@.skip(0) =~= fs@);
                        assert(xsm.skip(0) =~= xsm);
                        assert(entries_model(Seq::<Entry>::empty()) + spec_entries(rule, fs@, xsm)
                            =~= spec_entries(rule, fs@, xsm));
                    }
                    let mut i: usize = 0;
                    while i < fs.len()
                        invariant
                            wf_instance(*t, x@),
                            t == FieldType::RecordTy(*d),
                            d.shape == TypeShape::NamedRecord(*fs),
                            x == Instance::RecordVal(*xs),
                            rule == d.rename_rule,
                            xsm == crate::descriptor::insts_model(xs@),
                            xsm.len() == xs@.len(),
                            xs@.len() == fs@.len(),
                            i <= fs.len(),
                            spec_entries(rule, fs@, xsm) == entries_model(out@) + spec_entries(
                                rule,
                                fs@.skip(i as int),
                                xsm.skip(i as int),
                            ),
                        decreases fs.len() - i,
                    {
                        proof {
                            lemma_insts_model(xs@);
                            assert(fields_of(**d) == fs@);
                            assert(wf_instance(fields_of(**d)[i as int].ty, xsm[i as int]));
                            assert(xsm[i as int] == xs@[i as int]@);
                            assert(decreases_to!(*t => fs@[i as int].ty)) by {
                                assert(decreases_to!(*t => **d));
                                assert(decreases_to!(**d => fs@));
                                assert(decreases_to!(fs@ => fs@[i as int]));
                            }
                            assert(fs@.skip(i as int)[0] == fs@[i as int]);
                            assert(xsm.skip(i as int)[0] == xsm[i as int]);
                            assert(fs@.skip(i as int).skip(1) =~= fs@.skip(i + 1));
                            assert(xsm.skip(i as int).skip(1) =~= xsm.skip(i + 1));
                        }
                        let ghost head = if fs@[i as int].flatten {
                            obj_entries(spec_to_value(fs@[i as int].ty, xsm[i as int]))
                        } else {
                            seq![
                                (
                                    spec_field_name(rule, fs@[i as int]),
                                    spec_to_value(fs@[i as int].ty, xsm[i as int]),
                                ),
                            ]
                        };
                        proof {
                            assert(spec_entries(rule, fs@.skip(i as int), xsm.skip(i as int))
                                == head + spec_entries(rule, fs@.skip(i + 1), xsm.skip(i + 1)));
                        }
                        let v = to_value(&fs[i].ty, &xs[i]);
                        if fs[i].flatten {
                            match v {
                                Value::ObjVal(mut es2) => {
                                    proof {
                                        lemma_entries_model_concat(out@, es2@);
                                        assert(entries_model(es2@) == head);
                                    }
                                    out.append(&mut es2);
                                },
                                _ => {
                                    proof {
                                        assert(head =~= Seq::<(Seq<char>, ValModel)>::empty());
                                        assert(entries_model(out@) + head =~= entries_model(
                                            out@,
                                        ));
                                    }
                                },
                            }
                        } else {
                            let key = resolve_field_name(rule, &fs[i]);
                            let e = Entry { key, val: v };
                            proof {
                                lemma_entries_model_concat(out@, seq![e]);
                                lemma_entries_model(seq![e]);
                                assert(entries_model(seq![e]) =~= seq![(e.key@, e.val@)]);
                                assert(out@.push(e) =~= out@ + seq![e]);
                            }
                            out.push(e);
                        }
                        i += 1;
                        proof {
                            assert(spec_entries(rule, fs@, xsm) =~= entries_model(out@)
                                + spec_entries(rule, fs@.skip(i as int), xsm.skip(i as int)));
                        }
                    }
                    proof {
                        assert(fs@.skip(fs@.len() as int) =~= Seq::<FieldDescriptor>::empty());
                        assert(spec_entries(rule, fs@, xsm) =~= entries_model(out@));
                    }
                    Value::ObjVal(out)
                },
                _ => {
                    proof {
                        assert(x@ is RecordVal);
                        assert((**d).shape is Other);
                        assert(entries_model(out@) =~= Seq::<(Seq<char>, ValModel)>::empty());
                    }
                    Value::ObjVal(out)
                },
            }
        },
    }
}

} // verus!
