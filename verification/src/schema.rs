//! The schema descriptor emitter: registration of a record as an
//! input-object meta type into a memoizing catalog, keyed by the resolved
//! type name. Registration recursively registers every field type first and
//! is idempotent; a flatten field contributes the nested record's entire
//! field-metadata mapping in place of an entry of its own.

use vstd::prelude::*;
use vstd::string::StringExecFns;

use crate::descriptor::FieldDescriptor;
use crate::descriptor::FieldType;
use crate::descriptor::RecordDescriptor;
use crate::descriptor::TypeShape;
use crate::descriptor::wf_instance;
use crate::names::resolve_field_name;
use crate::names::resolve_type_name;
use crate::names::spec_field_name;
use crate::names::spec_type_name;
use crate::plan::PolicyModel;
use crate::plan::spec_default_of;
use crate::render::render;
use crate::render::spec_render;
use crate::serialize::spec_to_value;
use crate::serialize::to_value;

verus! {

/// The metadata of one input field: its external name, description, the
/// name handle of its type, the rendered default, and the validator
/// reference.
pub struct MetaInputValue {
    pub name: String,
    pub description: Option<String>,
    pub ty: String,
    pub default_value: Option<String>,
    pub validator: Option<String>,
}

/// Model of one input field's metadata.
#[verifier::ext_equal]
pub struct MetaValueModel {
    pub name: Seq<char>,
    pub description: Option<Seq<char>>,
    pub ty: Seq<char>,
    pub default_value: Option<Seq<char>>,
    pub validator: Option<Seq<char>>,
}

/// Model of an optional string.
pub open spec fn opt_seq(o: Option<String>) -> Option<Seq<char>> {
    match o {
        Option::Some(s) => Option::Some(s@),
        Option::None => Option::None,
    }
}

impl View for MetaInputValue {
    type V = MetaValueModel;

    open spec fn view(&self) -> MetaValueModel {
        MetaValueModel {
            name: self.name@,
            description: opt_seq(self.description),
            ty: self.ty@,
            default_value: opt_seq(self.default_value),
            validator: opt_seq(self.validator),
        }
    }
}

/// A registered meta type: a scalar, or an input object with its ordered
/// field-metadata mapping.
pub enum MetaType {
    Scalar { name: String },
    InputObject { name: String, description: Option<String>, input_fields: Vec<MetaInputValue> },
}

/// Model of a registered meta type.
#[verifier::ext_equal]
pub enum MetaModel {
    Scalar { name: Seq<char> },
    InputObject {
        name: Seq<char>,
        description: Option<Seq<char>>,
        input_fields: Seq<MetaValueModel>,
    },
}

/// Model of a field-metadata list.
pub open spec fn metas_model(s: Seq<MetaInputValue>) -> Seq<MetaValueModel> {
    s.map_values(|m: MetaInputValue| m@)
}

impl View for MetaType {
    type V = MetaModel;

    open spec fn view(&self) -> MetaModel {
        match *self {
            MetaType::Scalar { name } => MetaModel::Scalar { name: name@ },
            MetaType::InputObject { name, description, input_fields } => MetaModel::InputObject {
                name: name@,
                description: opt_seq(description),
                input_fields: metas_model(input_fields@),
            },
        }
    }
}

/// The catalog of registered meta types, in registration order, memoized by
/// type name.
pub struct Registry {
    pub types: Vec<(String, MetaType)>,
}

/// Model of the catalog: the registered (name, meta type) pairs in order.
pub type RegModel = Seq<(Seq<char>, MetaModel)>;

impl View for Registry {
    type V = RegModel;

    open spec fn view(&self) -> RegModel {
        self.types@.map_values(|p: (String, MetaType)| (p.0@, p.1@))
    }
}

/// Whether a name is registered.
pub open spec fn reg_contains(rm: RegModel, n: Seq<char>) -> bool {
    exists|i: int| 0 <= i < rm.len() && rm[i].0 == n
}

/// All registered names are pairwise distinct.
pub open spec fn names_unique(rm: RegModel) -> bool {
    forall|i: int, j: int| 0 <= i < j < rm.len() ==> rm[i].0 != rm[j].0
}

/// The name handle of a field type: scalars have fixed names, an optional
/// the name of its inner type, a record its resolved type name.
pub open spec fn spec_ty_name(t: FieldType) -> Seq<char>
    decreases t,
{
    match t {
        FieldType::IntTy => "Int"@,
        FieldType::StrTy => "String"@,
        FieldType::BoolTy => "Boolean"@,
        FieldType::OptionTy(u) => spec_ty_name(*u),
        FieldType::RecordTy(d) => spec_type_name(*d),
    }
}

/// Every default instance declared anywhere in the type is well-formed for
/// its field's type.
pub open spec fn wf_defaults(t: FieldType) -> bool
    decreases t,
    via wf_defaults_decreases
{
    match t {
        FieldType::OptionTy(u) => wf_defaults(*u),
        FieldType::RecordTy(d) => match (*d).shape {
            TypeShape::NamedRecord(fs) => defaults_ok(fs@),
            TypeShape::Other => true,
        },
        _ => true,
    }
}

#[via_fn]
proof fn wf_defaults_decreases(t: FieldType) {
    match t {
        FieldType::RecordTy(d) => {
            match (*d).shape {
                TypeShape::NamedRecord(fs) => {
                    assert(decreases_to!(t => fs@)) by {
                        assert(decreases_to!(t => *d));
                        assert(decreases_to!(*d => (*d).shape));
                        assert(decreases_to!((*d).shape => fs));
                        assert(decreases_to!(fs => fs@));
                    }
                },
                TypeShape::Other => {},
            }
        },
        _ => {},
    }
}

/// The per-field form of `wf_defaults` over a field list.
pub open spec fn defaults_ok(fs: Seq<FieldDescriptor>) -> bool
    decreases fs,
{
    &&& forall|i: int|
        0 <= i < fs.len() ==> match (#[trigger] fs[i]).default_lit {
            Option::Some(x) => wf_instance(fs[i].ty, x@),
            Option::None => true,
        }
    &&& forall|i: int|
        0 <= i < fs.len() ==> match (#[trigger] fs[i]).default_factory {
            Option::Some(x) => wf_instance(fs[i].ty, x@),
            Option::None => true,
        }
    &&& forall|i: int| 0 <= i < fs.len() ==> wf_defaults((#[trigger] fs[i]).ty)
}

/// The metadata entry of one non-flatten field: the rendered default is the
/// serialization of the default instance through the field's own type.
pub open spec fn spec_field_meta(rule: crate::descriptor::RenameRule, f: FieldDescriptor)
    -> MetaValueModel {
    MetaValueModel {
        name: spec_field_name(rule, f),
        description: opt_seq(f.doc),
        ty: spec_ty_name(f.ty),
        default_value: match spec_default_of(f) {
            PolicyModel::Literal(x) => Option::Some(spec_render(spec_to_value(f.ty, x))),
            PolicyModel::Factory(x) => Option::Some(spec_render(spec_to_value(f.ty, x))),
            PolicyModel::NoDefault => Option::None,
        },
        validator: opt_seq(f.validator),
    }
}

/// The field-metadata mapping a record's fields contribute, in declaration
/// order: one entry per non-flatten field; for a flatten field, the nested
/// record's entire mapping, inlined.
pub open spec fn spec_input_fields(
    rule: crate::descriptor::RenameRule,
    fs: Seq<FieldDescriptor>,
) -> Seq<MetaValueModel>
    decreases fs,
    via spec_input_fields_decreases
{
    if fs.len() == 0 {
        Seq::empty()
    } else {
        let head = if fs[0].flatten {
            match fs[0].ty {
                FieldType::RecordTy(d) => match (*d).shape {
                    TypeShape::NamedRecord(nfs) => spec_input_fields(d.rename_rule, nfs@),
                    TypeShape::Other => Seq::empty(),
                },
                _ => Seq::empty(),
            }
        } else {
            seq![spec_field_meta(rule, fs[0])]
        };
        head + spec_input_fields(rule, fs.skip(1))
    }
}

#[via_fn]
proof fn spec_input_fields_decreases(
    rule: crate::descriptor::RenameRule,
    fs: Seq<FieldDescriptor>,
) {
    if fs.len() > 0 && fs[0].flatten {
        match fs[0].ty {
            FieldType::RecordTy(d) => {
                match (*d).shape {
                    TypeShape::NamedRecord(nfs) => {
                        assert(decreases_to!(fs => nfs@)) by {
                            assert(decreases_to!(fs => fs[0]));
                            assert(decreases_to!(fs[0] => fs[0].ty));
                            assert(decreases_to!(fs[0].ty => *d));
                            assert(decreases_to!(*d => (*d).shape));
                            assert(decreases_to!((*d).shape => nfs));
                            assert(decreases_to!(nfs => nfs@));
                        }
                    },
                    TypeShape::Other => {},
                }
            },
            _ => {},
        }
    }
}

/// The meta type a record registers under its resolved name.
pub open spec fn spec_meta(d: RecordDescriptor) -> MetaModel {
    MetaModel::InputObject {
        name: spec_type_name(d),
        description: opt_seq(d.doc),
        input_fields: match d.shape {
            TypeShape::NamedRecord(fs) => spec_input_fields(d.rename_rule, fs@),
            TypeShape::Other => Seq::empty(),
        },
    }
}

/// The catalog after a field type is registered: already-present names are
/// kept untouched; otherwise every field type is registered first, and the
/// record's own meta type appended under its name if still absent.
pub open spec fn spec_register(t: FieldType, rm: RegModel) -> RegModel
    decreases t, 1int,
    via spec_register_decreases
{
    match t {
        FieldType::OptionTy(u) => spec_register(*u, rm),
        FieldType::RecordTy(d) => {
            let n = spec_type_name(*d);
            if reg_contains(rm, n) {
                rm
            } else {
                let rm2 = match (*d).shape {
                    TypeShape::NamedRecord(fs) => spec_register_fields(fs@, rm),
                    TypeShape::Other => rm,
                };
                if reg_contains(rm2, n) {
                    rm2
                } else {
                    rm2.push((n, spec_meta(*d)))
                }
            }
        },
        _ => {
            let n = spec_ty_name(t);
            if reg_contains(rm, n) {
                rm
            } else {
                rm.push((n, MetaModel::Scalar { name: n }))
            }
        },
    }
}

/// The catalog after each field's type is registered, in declaration order.
pub open spec fn spec_register_fields(fs: Seq<FieldDescriptor>, rm: RegModel) -> RegModel
    decreases fs, 2int,
{
    if fs.len() == 0 {
        rm
    } else {
        spec_register_fields(fs.skip(1), spec_register(fs[0].ty, rm))
    }
}

#[via_fn]
proof fn spec_register_decreases(t: FieldType, rm: RegModel) {
    match t {
        FieldType::RecordTy(d) => {
            match (*d).shape {
                TypeShape::NamedRecord(fs) => {
                    assert(decreases_to!(t => fs@)) by {
                        assert(decreases_to!(t => *d));
                        assert(decreases_to!(*d => (*d).shape));
                        assert(decreases_to!((*d).shape => fs));
                        assert(decreases_to!(fs => fs@));
                    }
                },
                TypeShape::Other => {},
            }
        },
        _ => {},
    }
}

/// Appending an unregistered name registers it and keeps everything else.
proof fn lemma_reg_push(rm: RegModel, n: Seq<char>, m: MetaModel)
    requires
        !reg_contains(rm, n),
    ensures
        reg_contains(rm.push((n, m)), n),
        forall|k: Seq<char>| reg_contains(rm, k) ==> reg_contains(rm.push((n, m)), k),
        names_unique(rm) ==> names_unique(rm.push((n, m))),
        forall|i: int| 0 <= i < rm.len() ==> #[trigger] rm.push((n, m))[i] == rm[i],
{
    let out = rm.push((n, m));
    assert(out[rm.len() as int].0 == n);
    assert(reg_contains(out, n));
    assert forall|k: Seq<char>| reg_contains(rm, k) implies reg_contains(out, k) by {
        let i = choose|i: int| 0 <= i < rm.len() && rm[i].0 == k;
        assert(out[i] == rm[i]);
        assert(reg_contains(out, k));
    }
    if names_unique(rm) {
        assert(forall|i: int| 0 <= i < rm.len() ==> #[trigger] rm[i].0 != n);
    }
}

/// Registration leaves the registered names registered, registers the
/// type's own name, and keeps registered names unique.
pub proof fn lemma_register_effect(t: FieldType, rm: RegModel)
    ensures
        reg_contains(spec_register(t, rm), spec_ty_name(t)),
        forall|n: Seq<char>| reg_contains(rm, n) ==> reg_contains(#[trigger] spec_register(t, rm), n),
        names_unique(rm) ==> names_unique(spec_register(t, rm)),
        rm.len() <= spec_register(t, rm).len(),
        forall|i: int| 0 <= i < rm.len() ==> #[trigger] spec_register(t, rm)[i] == rm[i],
    decreases t, 1int,
{
    match t {
        FieldType::OptionTy(u) => {
            lemma_register_effect(*u, rm);
        },
        FieldType::RecordTy(d) => {
            let n = spec_type_name(*d);
            if !reg_contains(rm, n) {
                match (*d).shape {
                    TypeShape::NamedRecord(fs) => {
                        assert(decreases_to!(t => fs@)) by {
                            assert(decreases_to!(t => *d));
                            assert(decreases_to!(*d => (*d).shape));
                            assert(decreases_to!((*d).shape => fs));
                            assert(decreases_to!(fs => fs@));
                        }
                        lemma_register_fields_effect(fs@, rm);
                        let rm2 = spec_register_fields(fs@, rm);
                        if !reg_contains(rm2, n) {
                            lemma_reg_push(rm2, n, spec_meta(*d));
                        }
                    },
                    TypeShape::Other => {
                        lemma_reg_push(rm, n, spec_meta(*d));
                    },
                }
            }
        },
        _ => {
            let n = spec_ty_name(t);
            if !reg_contains(rm, n) {
                lemma_reg_push(rm, n, MetaModel::Scalar { name: n });
            }
        },
    }
}

/// Field-wise registration only extends the catalog, in a way that keeps
/// registered names registered and unique.
pub proof fn lemma_register_fields_effect(fs: Seq<FieldDescriptor>, rm: RegModel)
    ensures
        forall|n: Seq<char>|
            reg_contains(rm, n) ==> reg_contains(#[trigger] spec_register_fields(fs, rm), n),
        names_unique(rm) ==> names_unique(spec_register_fields(fs, rm)),
        rm.len() <= spec_register_fields(fs, rm).len(),
        forall|i: int| 0 <= i < rm.len() ==> #[trigger] spec_register_fields(fs, rm)[i] == rm[i],
    decreases fs, 2int,
{
    if fs.len() > 0 {
        assert(decreases_to!(fs => fs[0].ty)) by {
            assert(decreases_to!(fs => fs[0]));
        }
        lemma_register_effect(fs[0].ty, rm);
        lemma_register_fields_effect(fs.skip(1), spec_register(fs[0].ty, rm));
    }
}

/// Registration is idempotent: registering a type a second time returns the
/// same name and leaves the catalog exactly as it was.
pub proof fn lemma_register_idempotent(t: FieldType, rm: RegModel)
    ensures
        spec_register(t, spec_register(t, rm)) == spec_register(t, rm),
    decreases t,
{
    match t {
        FieldType::OptionTy(u) => {
            lemma_register_idempotent(*u, rm);
        },
        _ => {
            lemma_register_effect(t, rm);
        },
    }
}

impl Registry {
    /// An empty catalog.
    pub fn new() -> (r: Registry)
        ensures
            r@ == Seq::<(Seq<char>, MetaModel)>::empty(),
    {
        let r = Registry { types: Vec::new() };
        proof {
            assert(r@ =~= Seq::<(Seq<char>, MetaModel)>::empty());
        }
        r
    }

    /// Whether a type name is registered.
    pub fn contains_name(&self, n: &String) -> (b: bool)
        ensures
            b == reg_contains(self@, n@),
    {
        let mut i: usize = 0;
        while i < self.types.len()
            invariant
                i <= self.types@.len(),
                self@.len() == self.types@.len(),
                forall|j: int| 0 <= j < self@.len() ==> #[trigger] self@[j].0 == self.types@[j].0@,
                forall|j: int| 0 <= j < i ==> #[trigger] self@[j].0 != n@,
            decreases self.types@.len() - i,
        {
            if self.types[i].0.eq(n) {
                proof {
                    assert(self@[i as int].0 == n@);
                }
                return true;
            }
            i += 1;
        }
        false
    }

    /// The number of registered entries.
    pub fn len(&self) -> (r: usize)
        ensures
            r == self@.len(),
    {
        self.types.len()
    }
}

fn clone_opt(o: &Option<String>) -> (r: Option<String>)
    ensures
        opt_seq(r) == opt_seq(*o),
{
    match o {
        Option::Some(s) => Option::Some(s.clone()),
        Option::None => Option::None,
    }
}

/// The name handle of a field type.
pub fn type_name_of(t: &FieldType) -> (r: String)
    ensures
        r@ == spec_ty_name(*t),
    decreases t,
{
    match t {
        FieldType::IntTy => String::from_str("Int"),
        FieldType::StrTy => String::from_str("String"),
        FieldType::BoolTy => String::from_str("Boolean"),
        FieldType::OptionTy(u) => type_name_of(u),
        FieldType::RecordTy(d) => resolve_type_name(d),
    }
}

/// The metadata entry of one non-flatten field.
fn field_meta(rule: crate::descriptor::RenameRule, f: &FieldDescriptor) -> (m: MetaInputValue)
    requires
        match f.default_lit {
            Option::Some(x) => wf_instance(f.ty, x@),
            Option::None => true,
        },
        match f.default_factory {
            Option::Some(x) => wf_instance(f.ty, x@),
            Option::None => true,
        },
    ensures
        m@ == spec_field_meta(rule, *f),
{
    let name = resolve_field_name(rule, f);
    let description = clone_opt(&f.doc);
    let ty = type_name_of(&f.ty);
    let default_value = match &f.default_lit {
        Option::Some(x) => {
            let v = to_value(&f.ty, x);
            Option::Some(render(&v))
        },
        Option::None => match &f.default_factory {
            Option::Some(x) => {
                let v = to_value(&f.ty, x);
                Option::Some(render(&v))
            },
            Option::None => Option::None,
        },
    };
    let validator = clone_opt(&f.validator);
    MetaInputValue { name, description, ty, default_value, validator }
}

/// The field-metadata list a record's fields contribute, flatten fields
/// inlining the nested record's own list.
fn input_fields(rule: crate::descriptor::RenameRule, fs: &Vec<FieldDescriptor>) -> (r: Vec<
    MetaInputValue,
>)
    requires
        defaults_ok(fs@),
    ensures
        metas_model(r@) == spec_input_fields(rule, fs@),
    decreases fs@,
{
    let mut out: Vec<MetaInputValue> = Vec::new();
    proof {
        assert(fs@.skip(0) =~= fs@);
        assert(metas_model(out@) + spec_input_fields(rule, fs@) =~= spec_input_fields(
            rule,
            fs@,
        ));
    }
    let mut i: usize = 0;
    while i < fs.len()
        invariant
            defaults_ok(fs@),
            i <= fs@.len(),
            spec_input_fields(rule, fs@) == metas_model(out@) + spec_input_fields(
                rule,
                fs@.skip(i as int),
            ),
        decreases fs@.len() - i,
    {
        proof {
            assert(fs@.skip(i as int)[0] == fs@[i as int]);
            assert(fs@.skip(i as int).skip(1) =~= fs@.skip(i + 1));
            assert(decreases_to!(fs@ => fs@[i as int]));
        }
        let ghost head = if fs@[i as int].flatten {
            match fs@[i as int].ty {
                FieldType::RecordTy(d) => match (*d).shape {
                    TypeShape::NamedRecord(nfs) => spec_input_fields(d.rename_rule, nfs@),
                    TypeShape::Other => Seq::<MetaValueModel>::empty(),
                },
                _ => Seq::<MetaValueModel>::empty(),
            }
        } else {
            seq![spec_field_meta(rule, fs@[i as int])]
        };
        proof {
            assert(spec_input_fields(rule, fs@.skip(i as int)) == head + spec_input_fields(
                rule,
                fs@.skip(i + 1),
            ));
        }
        if fs[i].flatten {
            match &fs[i].ty {
                FieldType::RecordTy(d) => {
                    match &d.shape {
                        TypeShape::NamedRecord(nfs) => {
                            proof {
                                assert(decreases_to!(fs@ => nfs@)) by {
                                    assert(decreases_to!(fs@[i as int] => nfs@)) by {
                                        assert(decreases_to!(fs@[i as int] => fs@[i as int].ty));
                                        assert(decreases_to!(fs@[i as int].ty => **d));
                                        assert(decreases_to!(**d => (**d).shape));
                                        assert(decreases_to!((**d).shape => *nfs));
                                        assert(decreases_to!(*nfs => nfs@));
                                    }
                                }
                            }
                            let mut nested = input_fields(d.rename_rule, nfs);
                            proof {
                                assert(metas_model(out@ + nested@) =~= metas_model(out@)
                                    + metas_model(nested@));
                            }
                            out.append(&mut nested);
                        },
                        TypeShape::Other => {
                            proof {
                                assert(head =~= Seq::<MetaValueModel>::empty());
                                assert(metas_model(out@) + head =~= metas_model(out@));
                            }
                        },
                    }
                },
                _ => {
                    proof {
                        assert(head =~= Seq::<MetaValueModel>::empty());
                        assert(metas_model(out@) + head =~= metas_model(out@));
                    }
                },
            }
        } else {
            let m = field_meta(rule, &fs[i]);
            proof {
                assert(metas_model(out@.push(m)) =~= metas_model(out@) + seq![m@]);
            }
            out.push(m);
        }
        i += 1;
        proof {
            assert(spec_input_fields(rule, fs@) =~= metas_model(out@) + spec_input_fields(
                rule,
                fs@.skip(i as int),
            ));
        }
    }
    proof {
        assert(fs@.skip(fs@.len() as int) =~= Seq::<FieldDescriptor>::empty());
        assert(metas_model(out@) =~= spec_input_fields(rule, fs@));
    }
    out
}

/// Registers a field type (and, recursively, everything it reaches) into
/// the catalog, memoized by resolved type name, and returns the name.
pub fn create_type_info(t: &FieldType, reg: &mut Registry) -> (r: String)
    requires
        wf_defaults(*t),
    ensures
        r@ == spec_ty_name(*t),
        final(reg)@ == spec_register(*t, old(reg)@),
    decreases t,
{
    match t {
        FieldType::IntTy => register_scalar(reg, String::from_str("Int")),
        FieldType::StrTy => register_scalar(reg, String::from_str("String")),
        FieldType::BoolTy => register_scalar(reg, String::from_str("Boolean")),
        FieldType::OptionTy(u) => {
            proof {
                assert(decreases_to!(*t => **u));
            }
            create_type_info(u, reg)
        },
        FieldType::RecordTy(d) => {
            let n = resolve_type_name(d);
            if reg.contains_name(&n) {
                return n;
            }
            let ghost rm0 = reg@;
            match &d.shape {
                TypeShape::NamedRecord(fs) => {
                    proof {
                        assert(fs@.skip(0) =~= fs@);
                        assert(decreases_to!(*t => fs@)) by {
                            assert(decreases_to!(*t => **d));
                            assert(decreases_to!(**d => (**d).shape));
                            assert(decreases_to!((**d).shape => *fs));
                            assert(decreases_to!(*fs => fs@));
                        }
                    }
                    let mut i: usize = 0;
                    while i < fs.len()
                        invariant
                            t == FieldType::RecordTy(*d),
                            (**d).shape == TypeShape::NamedRecord(*fs),
                            decreases_to!(*t => fs@),
                            defaults_ok(fs@),
                            i <= fs@.len(),
                            spec_register_fields(fs@.skip(i as int), reg@)
                                == spec_register_fields(fs@, rm0),
                        decreases fs@.len() - i,
                    {
                        proof {
                            assert(fs@.skip(i as int)[0] == fs@[i as int]);
                            assert(fs@.skip(i as int).skip(1) =~= fs@.skip(i + 1));
                            assert(decreases_to!(*t => fs@[i as int].ty)) by {
                                assert(decreases_to!(fs@ => fs@[i as int]));
                            }
                        }
                        create_type_info(&fs[i].ty, reg);
                        i += 1;
                    }
                    proof {
                        assert(fs@.skip(fs@.len() as int) =~= Seq::<FieldDescriptor>::empty());
                        assert(reg@ == spec_register_fields(fs@, rm0));
                    }
                    let metas = input_fields(d.rename_rule, fs);
                    if reg.contains_name(&n) {
                        n
                    } else {
                        let meta = MetaType::InputObject {
                            name: n.clone(),
                            description: clone_opt(&d.doc),
                            input_fields: metas,
                        };
                        let ghost rm2 = reg@;
                        proof {
                            assert(meta@ == spec_meta(**d));
                        }
                        reg.types.push((n.clone(), meta));
                        proof {
                            assert(reg@ =~= rm2.push((n@, spec_meta(**d))));
                        }
                        n
                    }
                },
                TypeShape::Other => {
                    let meta = MetaType::InputObject {
                        name: n.clone(),
                        description: clone_opt(&d.doc),
                        input_fields: Vec::new(),
                    };
                    proof {
                        assert(metas_model(Seq::<MetaInputValue>::empty())
                            =~= Seq::<MetaValueModel>::empty());
                        assert(meta@ == spec_meta(**d));
                    }
                    reg.types.push((n.clone(), meta));
                    proof {
                        assert(reg@ =~= rm0.push((n@, spec_meta(**d))));
                    }
                    n
                },
            }
        },
    }
}

/// Registers a scalar meta type under its fixed name, memoized.
fn register_scalar(reg: &mut Registry, n: String) -> (r: String)
    ensures
        r@ == n@,
        final(reg)@ == (if reg_contains(old(reg)@, n@) {
            old(reg)@
        } else {
            old(reg)@.push((n@, MetaModel::Scalar { name: n@ }))
        }),
{
    if reg.contains_name(&n) {
        n
    } else {
        let ghost rm0 = reg@;
        reg.types.push((n.clone(), MetaType::Scalar { name: n.clone() }));
        proof {
            assert(reg@ =~= rm0.push((n@, MetaModel::Scalar { name: n@ })));
        }
        n
    }
}

} // verus!
