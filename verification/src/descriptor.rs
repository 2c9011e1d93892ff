//! The declarative description of a record type: its identifier, naming
//! policy, shape and ordered fields, together with the representation of
//! record instances and the well-formedness relation between a field type and
//! an instance.

use vstd::prelude::*;

verus! {

/// The naming convention a record applies to identifiers that have no
/// explicit override. The conventions here are pure functions over the
/// identifier; a convention that cannot act on an identifier (one outside
/// ASCII) keeps it unchanged.
#[derive(Clone, Copy, PartialEq, Eq, Structural)]
pub enum RenameRule {
    /// Identifiers are kept exactly as declared.
    Preserve,
    /// ASCII letters are mapped to lower case.
    LowerAscii,
    /// ASCII letters are mapped to upper case.
    UpperAscii,
}

/// What kind of name is being produced: the record's own external type name,
/// or the external name of one of its fields.
#[derive(Clone, Copy, PartialEq, Eq, Structural)]
pub enum RenameTarget {
    Type,
    Field,
}

/// Declared visibility of a field; carried through as data, never acted on.
#[derive(Clone, Copy, PartialEq, Eq, Structural)]
pub enum FieldVis {
    Inherited,
    Public,
}

/// The declared type of a field: a scalar binding, an optional wrapper that
/// accepts absence, or a nested record described by its own descriptor.
pub enum FieldType {
    IntTy,
    StrTy,
    BoolTy,
    OptionTy(Box<FieldType>),
    RecordTy(Box<RecordDescriptor>),
}

/// The shape of the underlying type: a record with named fields, or anything
/// else (which the validator rejects).
pub enum TypeShape {
    NamedRecord(Vec<FieldDescriptor>),
    Other,
}

/// Description of one field of a record.
pub struct FieldDescriptor {
    /// The field's declared identifier, stored unescaped: an identifier
    /// written with the raw-identifier escape prefix is recorded here with
    /// that prefix already stripped, and `raw` set.
    pub ident: String,
    /// Whether the identifier was written with the raw-identifier escape;
    /// the escape never reaches an externally visible name.
    pub raw: bool,
    /// The field's declared type.
    pub ty: FieldType,
    /// Declared visibility, inert data.
    pub vis: FieldVis,
    /// Documentation text, if any.
    pub doc: Option<String>,
    /// Explicit external name, overriding the rename rule.
    pub name_override: Option<String>,
    /// A default value given as a literal expression, already evaluated to an
    /// instance of the field's type.
    pub default_lit: Option<Instance>,
    /// A default value given as a factory reference, already resolved to the
    /// instance the factory yields.
    pub default_factory: Option<Instance>,
    /// An opaque validator expression, carried into metadata unevaluated.
    pub validator: Option<String>,
    /// Whether the nested record's fields are inlined into this record.
    pub flatten: bool,
}

/// Description of a record type.
pub struct RecordDescriptor {
    /// The record type's declared identifier.
    pub ident: String,
    /// Explicit external type name, overriding the rename rule.
    pub name_override: Option<String>,
    /// The rename rule applied to this record's identifiers.
    pub rename_rule: RenameRule,
    /// Whether generation assumes the support crate's internal paths;
    /// irrelevant to the semantics here, carried as data.
    pub internal: bool,
    /// Documentation text, if any.
    pub doc: Option<String>,
    /// The underlying type's shape.
    pub shape: TypeShape,
}

/// A record instance, or one field's binding: the runtime counterpart of a
/// `FieldType`. A record instance holds one binding per field, in field
/// declaration order.
pub enum Instance {
    IntVal(i64),
    StrVal(String),
    BoolVal(bool),
    NoneVal,
    SomeVal(Box<Instance>),
    RecordVal(Vec<Instance>),
}

/// Mathematical model of an instance.
#[verifier::ext_equal]
pub enum InstModel {
    IntVal(i64),
    StrVal(Seq<char>),
    BoolVal(bool),
    NoneVal,
    SomeVal(Box<InstModel>),
    RecordVal(Seq<InstModel>),
}

/// Model of a sequence of instances.
pub open spec fn insts_model(xs: Seq<Instance>) -> Seq<InstModel>
    decreases xs,
{
    if xs.len() == 0 {
        Seq::empty()
    } else {
        seq![i_model(xs[0])] + insts_model(xs.skip(1))
    }
}

/// Model of an instance.
pub open spec fn i_model(x: Instance) -> InstModel
    decreases x,
{
    match x {
        Instance::IntVal(n) => InstModel::IntVal(n),
        Instance::StrVal(s) => InstModel::StrVal(s@),
        Instance::BoolVal(b) => InstModel::BoolVal(b),
        Instance::NoneVal => InstModel::NoneVal,
        Instance::SomeVal(y) => InstModel::SomeVal(Box::new(i_model(*y))),
        Instance::RecordVal(xs) => InstModel::RecordVal(insts_model(xs@)),
    }
}

impl View for Instance {
    type V = InstModel;

    open spec fn view(&self) -> InstModel {
        i_model(*self)
    }
}

/// The instance list is modelled pointwise.
pub proof fn lemma_insts_model(xs: Seq<Instance>)
    ensures
        insts_model(xs).len() == xs.len(),
        forall|i: int| 0 <= i < xs.len() ==> insts_model(xs)[i] == i_model(xs[i]),
    decreases xs,
{
    if xs.len() > 0 {
        lemma_insts_model(xs.skip(1));
    }
}

/// The fields of a record descriptor; a shape other than a named record has
/// none.
pub open spec fn fields_of(d: RecordDescriptor) -> Seq<FieldDescriptor> {
    match d.shape {
        TypeShape::NamedRecord(fs) => fs@,
        TypeShape::Other => Seq::empty(),
    }
}

/// Whether an instance is a well-formed inhabitant of a field type: scalars
/// carry the matching scalar, an optional either absence or a well-formed
/// inner instance, and a record one well-formed binding per field, in order.
pub open spec fn wf_instance(t: FieldType, x: InstModel) -> bool
    decreases t,
{
    match t {
        FieldType::IntTy => x is IntVal,
        FieldType::StrTy => x is StrVal,
        FieldType::BoolTy => x is BoolVal,
        FieldType::OptionTy(u) => match x {
            InstModel::NoneVal => true,
            InstModel::SomeVal(y) => wf_instance(*u, *y),
            _ => false,
        },
        FieldType::RecordTy(d) => match x {
            InstModel::RecordVal(xs) => xs.len() == fields_of(*d).len() && (forall|i: int|
                0 <= i < xs.len() ==> wf_instance(fields_of(*d)[i].ty, xs[i])),
            _ => false,
        },
    }
}

/// Deep clone of an instance list; the model is kept.
pub fn insts_clone(xs: &Vec<Instance>) -> (r: Vec<Instance>)
    ensures
        insts_model(r@) == insts_model(xs@),
        r@.len() == xs@.len(),
    decreases xs@,
{
    let mut out: Vec<Instance> = Vec::new();
    let mut i: usize = 0;
    while i < xs.len()
        invariant
            i <= xs.len(),
            out@.len() == i,
            forall|j: int| 0 <= j < i ==> #[trigger] i_model(out@[j]) == i_model(xs@[j]),
        decreases xs.len() - i,
    {
        proof {
            assert(decreases_to!(xs@ => xs@[i as int]));
        }
        let y = instance_clone(&xs[i]);
        out.push(y);
        i += 1;
    }
    proof {
        lemma_insts_model(out@);
        lemma_insts_model(xs@);
        assert(insts_model(out@) =~= insts_model(xs@));
    }
    out
}

/// Deep clone of an instance; the model is kept.
pub fn instance_clone(x: &Instance) -> (r: Instance)
    ensures
        r@ == x@,
    decreases x,
{
    match x {
        Instance::IntVal(n) => Instance::IntVal(*n),
        Instance::StrVal(s) => Instance::StrVal(s.clone()),
        Instance::BoolVal(b) => Instance::BoolVal(*b),
        Instance::NoneVal => Instance::NoneVal,
        Instance::SomeVal(y) => Instance::SomeVal(Box::new(instance_clone(y))),
        Instance::RecordVal(xs) => Instance::RecordVal(insts_clone(xs)),
    }
}

/// Deep structural equality of two instance lists, decided against the model.
pub fn insts_eq(xs: &Vec<Instance>, ys: &Vec<Instance>) -> (r: bool)
    ensures
        r == (insts_model(xs@) == insts_model(ys@)),
    decreases xs@,
{
    proof {
        lemma_insts_model(xs@);
        lemma_insts_model(ys@);
    }
    if xs.len() != ys.len() {
        return false;
    }
    let mut i: usize = 0;
    while i < xs.len()
        invariant
            i <= xs.len(),
            xs@.len() == ys@.len(),
            forall|j: int| 0 <= j < i ==> #[trigger] insts_model(xs@)[j] == insts_model(ys@)[j],
        decreases xs.len() - i,
    {
        proof {
            lemma_insts_model(xs@);
            lemma_insts_model(ys@);
            assert(decreases_to!(xs@ => xs@[i as int]));
        }
        if !instance_eq(&xs[i], &ys[i]) {
            assert(insts_model(xs@)[i as int] != insts_model(ys@)[i as int]);
            return false;
        }
        i += 1;
    }
    proof {
        lemma_insts_model(xs@);
        lemma_insts_model(ys@);
        assert(insts_model(xs@) =~= insts_model(ys@));
    }
    true
}

/// Deep structural equality of instances, decided against the model.
pub fn instance_eq(a: &Instance, b: &Instance) -> (r: bool)
    ensures
        r == (a@ == b@),
    decreases a,
{
    match (a, b) {
        (Instance::IntVal(x), Instance::IntVal(y)) => x == y,
        (Instance::StrVal(x), Instance::StrVal(y)) => x.eq(y),
        (Instance::BoolVal(x), Instance::BoolVal(y)) => x == y,
        (Instance::NoneVal, Instance::NoneVal) => true,
        (Instance::SomeVal(x), Instance::SomeVal(y)) => instance_eq(x, y),
        (Instance::RecordVal(xs), Instance::RecordVal(ys)) => insts_eq(xs, ys),
        _ => false,
    }
}

} // verus!
