//! The laws relating the three contracts: extraction inverts serialization
//! for every well-formed instance of a record whose externally visible keys
//! do not collide, absence with a default never mismatches, and absence
//! without one propagates the nested type's failure under the field's
//! resolved name.

use vstd::prelude::*;

use crate::descriptor::FieldDescriptor;
use crate::descriptor::FieldType;
use crate::descriptor::InstModel;
use crate::descriptor::RenameRule;
use crate::descriptor::TypeShape;
use crate::descriptor::fields_of;
use crate::descriptor::wf_instance;
use crate::names::spec_field_name;
use crate::parse::ErrModel;
use crate::parse::spec_parse;
use crate::parse::spec_parse_field;
use crate::parse::spec_parse_fields;
use crate::plan::PolicyModel;
use crate::plan::spec_default_of;
use crate::serialize::obj_entries;
use crate::serialize::record_elems;
use crate::serialize::spec_entries;
use crate::serialize::spec_to_value;
use crate::value::ValModel;
use crate::value::distinct_keys;
use crate::value::lemma_lookup_contains;
use crate::value::lookup;

verus! {

/// The externally visible keys a record's fields contribute: one resolved
/// name per non-flatten field, and, for a flatten field, the keys of the
/// nested record, in place.
pub open spec fn contrib_keys(rule: RenameRule, fs: Seq<FieldDescriptor>) -> Seq<Seq<char>>
    decreases fs,
    via contrib_keys_decreases
{
    if fs.len() == 0 {
        Seq::empty()
    } else {
        let head = if fs[0].flatten {
            match fs[0].ty {
                FieldType::RecordTy(d) => match (*d).shape {
                    TypeShape::NamedRecord(nfs) => contrib_keys(d.rename_rule, nfs@),
                    TypeShape::Other => Seq::empty(),
                },
                _ => Seq::empty(),
            }
        } else {
            seq![spec_field_name(rule, fs[0])]
        };
        head + contrib_keys(rule, fs.skip(1))
    }
}

#[via_fn]
proof fn contrib_keys_decreases(rule: RenameRule, fs: Seq<FieldDescriptor>) {
    if fs.len() > 0 && fs[0].flatten {
        match fs[0].ty {
            FieldType::RecordTy(d) => {
                match (*d).shape {
                    TypeShape::NamedRecord(nfs) => {
                        assert(decreases_to!(fs => nfs@)) by {
                            assert(decreases_to!(fs => fs[0]));
                            assert(decreases_to!(fs[0] => fs[0].ty));
                            assert(decreases_to!(fs[0].ty => *d));
                            assert(decreases_to!(*d => (*d).shape));
                            assert(decreases_to!((*d).shape => nfs));
                            assert(decreases_to!(nfs => nfs@));
                        }
                    },
                    TypeShape::Other => {},
                }
            },
            _ => {},
        }
    }
}

/// All elements of a key list are pairwise distinct.
pub open spec fn keys_distinct(ks: Seq<Seq<char>>) -> bool {
    forall|i: int, j: int| 0 <= i < j < ks.len() ==> ks[i] != ks[j]
}

/// No externally visible key of the type collides with another, anywhere: at
/// every record, the keys its fields contribute (flatten expansions
/// included) are pairwise distinct, every flatten field's type is itself a
/// record, and the same holds inside every field type.
pub open spec fn no_collisions(t: FieldType) -> bool
    decreases t,
{
    match t {
        FieldType::OptionTy(u) => no_collisions(*u),
        FieldType::RecordTy(d) => match (*d).shape {
            TypeShape::NamedRecord(fs) => {
                &&& keys_distinct(contrib_keys(d.rename_rule, fs@))
                &&& forall|i: int|
                    0 <= i < fs@.len() ==> ((#[trigger] fs@[i]).flatten ==> fs@[i].ty
                        is RecordTy)
                &&& forall|i: int| 0 <= i < fs@.len() ==> no_collisions(fs@[i].ty)
            },
            TypeShape::Other => true,
        },
        _ => true,
    }
}

/// A present optional nowhere serializes to `Null`: the instance holds no
/// present optional whose inner value is itself absent. Serialization is not
/// injective on such instances, so they are left out of the round-trip law.
pub open spec fn unambiguous(t: FieldType, x: InstModel) -> bool
    decreases t,
{
    match t {
        FieldType::OptionTy(u) => match x {
            InstModel::SomeVal(y) => spec_to_value(*u, *y) != ValModel::Null && unambiguous(
                *u,
                *y,
            ),
            _ => true,
        },
        FieldType::RecordTy(d) => match (*d).shape {
            TypeShape::NamedRecord(fs) => forall|i: int|
                0 <= i < fs@.len() ==> unambiguous(
                    (#[trigger] fs@[i]).ty,
                    record_elems(x)[i],
                ),
            TypeShape::Other => true,
        },
        _ => true,
    }
}

/// The per-field preconditions of the round trip over a field list.
pub open spec fn fields_ok(fs: Seq<FieldDescriptor>, xs: Seq<InstModel>) -> bool {
    &&& xs.len() == fs.len()
    &&& forall|i: int| 0 <= i < fs.len() ==> wf_instance((#[trigger] fs[i]).ty, xs[i])
    &&& forall|i: int| 0 <= i < fs.len() ==> ((#[trigger] fs[i]).flatten ==> fs[i].ty is RecordTy)
    &&& forall|i: int| 0 <= i < fs.len() ==> no_collisions((#[trigger] fs[i]).ty)
    &&& forall|i: int| 0 <= i < fs.len() ==> unambiguous((#[trigger] fs[i]).ty, xs[i])
}

/// The keys of the entries a well-formed field list serializes to are
/// exactly the keys the field types contribute; in particular they do not
/// depend on the instance.
pub proof fn lemma_entry_keys(rule: RenameRule, fs: Seq<FieldDescriptor>, xs: Seq<InstModel>)
    requires
        fields_ok(fs, xs),
    ensures
        spec_entries(rule, fs, xs).len() == contrib_keys(rule, fs).len(),
        forall|k: int|
            0 <= k < spec_entries(rule, fs, xs).len() ==> (#[trigger] spec_entries(
                rule,
                fs,
                xs,
            )[k]).0 == contrib_keys(rule, fs)[k],
    decreases fs,
{
    if fs.len() == 0 {
    } else {
        let head = if fs[0].flatten {
            obj_entries(spec_to_value(fs[0].ty, xs[0]))
        } else {
            seq![(spec_field_name(rule, fs[0]), spec_to_value(fs[0].ty, xs[0]))]
        };
        let khead = if fs[0].flatten {
            match fs[0].ty {
                FieldType::RecordTy(d) => match (*d).shape {
                    TypeShape::NamedRecord(nfs) => contrib_keys(d.rename_rule, nfs@),
                    TypeShape::Other => Seq::empty(),
                },
                _ => Seq::empty(),
            }
        } else {
            seq![spec_field_name(rule, fs[0])]
        };
        if fs[0].flatten {
            match fs[0].ty {
                FieldType::RecordTy(d) => {
                    match (*d).shape {
                        TypeShape::NamedRecord(nfs) => {
                            assert(wf_instance(fs[0].ty, xs[0]));
                            assert(fields_of(*d) == nfs@);
                            assert(no_collisions(fs[0].ty));
                            assert(unambiguous(fs[0].ty, xs[0]));
                            let nxs = record_elems(xs[0]);
                            assert(fields_ok(nfs@, nxs));
                            lemma_entry_keys(d.rename_rule, nfs@, nxs);
                            assert(head == spec_entries(d.rename_rule, nfs@, nxs));
                        },
                        TypeShape::Other => {
                            assert(record_elems(xs[0]).len() == 0);
                            assert(head =~= Seq::<(Seq<char>, ValModel)>::empty());
                        },
                    }
                },
                _ => {},
            }
        }
        assert(fields_ok(fs.skip(1), xs.skip(1))) by {
            assert(forall|i: int|
                0 <= i < fs.skip(1).len() ==> #[trigger] fs.skip(1)[i] == fs[i + 1]
                    && xs.skip(1)[i] == xs[i + 1]);
        }
        lemma_entry_keys(rule, fs.skip(1), xs.skip(1));
        assert(spec_entries(rule, fs, xs) == head + spec_entries(rule, fs.skip(1), xs.skip(1)));
        assert(contrib_keys(rule, fs) == khead + contrib_keys(rule, fs.skip(1)));
    }
}

/// Round trip of a field list read back from any object whose entries
/// include, under pairwise distinct keys, everything the list serialized.
proof fn lemma_fields_round_trip(
    rule: RenameRule,
    fs: Seq<FieldDescriptor>,
    xs: Seq<InstModel>,
    es: Seq<(Seq<char>, ValModel)>,
)
    requires
        fields_ok(fs, xs),
        distinct_keys(es),
        forall|k: int|
            0 <= k < spec_entries(rule, fs, xs).len() ==> es.contains(
                #[trigger] spec_entries(rule, fs, xs)[k],
            ),
    ensures
        spec_parse_fields(rule, fs, es) == Result::<Seq<InstModel>, ErrModel>::Ok(xs),
    decreases fs,
{
    if fs.len() == 0 {
        assert(xs =~= Seq::<InstModel>::empty());
    } else {
        let head = if fs[0].flatten {
            obj_entries(spec_to_value(fs[0].ty, xs[0]))
        } else {
            seq![(spec_field_name(rule, fs[0]), spec_to_value(fs[0].ty, xs[0]))]
        };
        let rest = spec_entries(rule, fs.skip(1), xs.skip(1));
        assert(spec_entries(rule, fs, xs) == head + rest);
        // The head field parses back to xs[0].
        if fs[0].flatten {
            let d = fs[0].ty->RecordTy_0;
            assert(fs[0].ty is RecordTy);
            assert(wf_instance(fs[0].ty, xs[0]));
            assert(xs[0] is RecordVal);
            match (*d).shape {
                TypeShape::NamedRecord(nfs) => {
                    let nxs = record_elems(xs[0]);
                    assert(fields_of(*d) == nfs@);
                    assert(fields_ok(nfs@, nxs));
                    assert(head == spec_entries(d.rename_rule, nfs@, nxs));
                    assert(forall|k: int|
                        0 <= k < spec_entries(d.rename_rule, nfs@, nxs).len() ==> es.contains(
                            #[trigger] spec_entries(d.rename_rule, nfs@, nxs)[k],
                        )) by {
                        assert(forall|k: int|
                            0 <= k < head.len() ==> (head + rest)[k] == #[trigger] head[k]);
                    }
                    assert(decreases_to!(fs => nfs@)) by {
                        assert(decreases_to!(fs => fs[0]));
                        assert(decreases_to!(fs[0] => fs[0].ty));
                        assert(decreases_to!(fs[0].ty => *d));
                        assert(decreases_to!(*d => (*d).shape));
                        assert(decreases_to!((*d).shape => nfs));
                        assert(decreases_to!(nfs => nfs@));
                    }
                    lemma_fields_round_trip(d.rename_rule, nfs@, nxs, es);
                    assert(spec_parse(fs[0].ty, Option::Some(ValModel::ObjVal(es)))
                        == Result::<InstModel, ErrModel>::Ok(InstModel::RecordVal(nxs)));
                    assert(InstModel::RecordVal(nxs) == xs[0]);
                },
                TypeShape::Other => {
                    assert(record_elems(xs[0]).len() == 0);
                    assert(spec_parse(fs[0].ty, Option::Some(ValModel::ObjVal(es)))
                        == Result::<InstModel, ErrModel>::Ok(
                        InstModel::RecordVal(Seq::empty()),
                    ));
                    assert(record_elems(xs[0]) =~= Seq::<InstModel>::empty());
                    assert(xs[0] == InstModel::RecordVal(record_elems(xs[0])));
                },
            }
            assert(spec_parse_field(rule, fs[0], es) == Result::<InstModel, ErrModel>::Ok(
                xs[0],
            ));
        } else {
            let name = spec_field_name(rule, fs[0]);
            let v0 = spec_to_value(fs[0].ty, xs[0]);
            assert(spec_entries(rule, fs, xs)[0] == (name, v0));
            assert(es.contains((name, v0)));
            lemma_lookup_contains(es, name, v0);
            assert(decreases_to!(fs => fs[0].ty)) by {
                assert(decreases_to!(fs => fs[0]));
            }
            lemma_round_trip(fs[0].ty, xs[0]);
            assert(spec_parse_field(rule, fs[0], es) == Result::<InstModel, ErrModel>::Ok(
                xs[0],
            ));
        }
        // The remaining fields parse back to xs.skip(1).
        assert(fields_ok(fs.skip(1), xs.skip(1))) by {
            assert(forall|i: int|
                0 <= i < fs.skip(1).len() ==> #[trigger] fs.skip(1)[i] == fs[i + 1]
                    && xs.skip(1)[i] == xs[i + 1]);
        }
        assert(forall|k: int|
            0 <= k < rest.len() ==> es.contains(#[trigger] rest[k])) by {
            assert(forall|k: int|
                0 <= k < rest.len() ==> (head + rest)[head.len() + k] == #[trigger] rest[k]);
        }
        lemma_fields_round_trip(rule, fs.skip(1), xs.skip(1), es);
        assert(seq![xs[0]] + xs.skip(1) =~= xs);
    }
}

/// Extraction inverts serialization: a well-formed, unambiguous instance of
/// a type without key collisions parses back from its own serialization.
/// Validators play no part in extraction and do not affect this law.
pub proof fn lemma_round_trip(t: FieldType, x: InstModel)
    requires
        wf_instance(t, x),
        no_collisions(t),
        unambiguous(t, x),
    ensures
        spec_parse(t, Option::Some(spec_to_value(t, x))) == Result::<InstModel, ErrModel>::Ok(x),
    decreases t,
{
    match t {
        FieldType::IntTy => {},
        FieldType::StrTy => {},
        FieldType::BoolTy => {},
        FieldType::OptionTy(u) => {
            match x {
                InstModel::NoneVal => {},
                InstModel::SomeVal(y) => {
                    assert(decreases_to!(t => *u));
                    lemma_round_trip(*u, *y);
                },
                _ => {},
            }
        },
        FieldType::RecordTy(d) => {
            match (*d).shape {
                TypeShape::NamedRecord(fs) => {
                    let xs = record_elems(x);
                    assert(fields_of(*d) == fs@);
                    assert(fields_ok(fs@, xs));
                    let es = spec_entries(d.rename_rule, fs@, xs);
                    lemma_entry_keys(d.rename_rule, fs@, xs);
                    assert(distinct_keys(es)) by {
                        assert(keys_distinct(contrib_keys(d.rename_rule, fs@)));
                    }
                    assert(forall|k: int| 0 <= k < es.len() ==> es.contains(#[trigger] es[k]));
                    assert(decreases_to!(t => fs@)) by {
                        assert(decreases_to!(t => *d));
                        assert(decreases_to!(*d => (*d).shape));
                        assert(decreases_to!((*d).shape => fs));
                        assert(decreases_to!(fs => fs@));
                    }
                    lemma_fields_round_trip(d.rename_rule, fs@, xs, es);
                    assert(spec_to_value(t, x) == ValModel::ObjVal(es));
                    assert(InstModel::RecordVal(xs) == x);
                },
                TypeShape::Other => {
                    assert(record_elems(x) =~= Seq::<InstModel>::empty());
                    assert(x == InstModel::RecordVal(record_elems(x)));
                },
            }
        },
    }
}

/// An absent key whose field has a default policy binds the default, never a
/// type mismatch: the field type is not even consulted.
pub proof fn lemma_absent_key_uses_default(
    rule: RenameRule,
    f: FieldDescriptor,
    es: Seq<(Seq<char>, ValModel)>,
    x: InstModel,
)
    requires
        !f.flatten,
        spec_default_of(f) == PolicyModel::Literal(x) || spec_default_of(f)
            == PolicyModel::Factory(x),
        lookup(es, spec_field_name(rule, f)) is None,
    ensures
        spec_parse_field(rule, f, es) == Result::<InstModel, ErrModel>::Ok(x),
{
}

/// An absent key whose field has no default delegates absence to the field's
/// type; a failure there propagates, wrapped with the field's resolved name.
pub proof fn lemma_absent_key_propagates(
    rule: RenameRule,
    f: FieldDescriptor,
    es: Seq<(Seq<char>, ValModel)>,
    e: ErrModel,
)
    requires
        !f.flatten,
        spec_default_of(f) == PolicyModel::NoDefault,
        lookup(es, spec_field_name(rule, f)) is None,
        spec_parse(f.ty, Option::None) == Result::<InstModel, ErrModel>::Err(e),
    ensures
        spec_parse_field(rule, f, es) == Result::<InstModel, ErrModel>::Err(
            ErrModel::FieldPropagation(spec_field_name(rule, f), Box::new(e)),
        ),
{
}

} // verus!
