//! The record validator and assembler: a descriptor is checked to be a
//! non-empty record with named fields, its fields are classified into plans,
//! and the result is the artifact bundle that carries the record's three
//! contracts. A failed validation aborts generation; no partial bundle
//! exists.

use vstd::prelude::*;

use crate::descriptor::FieldType;
use crate::descriptor::Instance;
use crate::descriptor::RecordDescriptor;
use crate::descriptor::TypeShape;
use crate::descriptor::fields_of;
use crate::descriptor::wf_instance;
use crate::parse::ParseError;
use crate::parse::opt_model;
use crate::parse::res_model;
use crate::parse::spec_parse;
use crate::plan::FieldPlan;
use crate::plan::classify;
use crate::plan::spec_classify;
use crate::serialize::spec_to_value;
use crate::value::Value;

verus! {

/// A generation-time failure: the descriptor's shape is not a record with
/// named fields, or the record declares no fields at all.
#[derive(Clone, Copy, Debug, PartialEq, Eq, Structural)]
pub enum GenError {
    ShapeError,
    EmptyFieldsError,
}

/// The bundle generation emits for a validated record: the record's type,
/// and the derived plan of each field. Its well-formedness is the capability
/// that certifies the record as usable as an input object; the three
/// contracts (`create_type_info`, `parse`, `to_value`) are its methods.
pub struct ArtifactBundle {
    /// The validated record type.
    pub ty: FieldType,
    /// One derived plan per field, in declaration order.
    pub plans: Vec<FieldPlan>,
}

impl ArtifactBundle {
    /// The descriptor of the record the bundle was generated for.
    pub open spec fn desc(self) -> RecordDescriptor
        recommends
            self.ty is RecordTy,
    {
        match self.ty {
            FieldType::RecordTy(d) => *d,
            _ => arbitrary(),
        }
    }

    /// The input-object capability: the bundle describes a non-empty record
    /// with named fields, and carries one faithful plan per field.
    pub open spec fn wf(self) -> bool {
        &&& self.ty is RecordTy
        &&& self.desc().shape is NamedRecord
        &&& fields_of(self.desc()).len() > 0
        &&& self.plans@.len() == fields_of(self.desc()).len()
        &&& forall|i: int|
            0 <= i < self.plans@.len() ==> self.plans@[i]@ == spec_classify(
                fields_of(self.desc())[i],
            )
    }

    /// Registers the record as an input-object meta type into the schema
    /// catalog, memoized by its resolved type name, and returns the name.
    pub fn create_type_info(&self, reg: &mut crate::schema::Registry) -> (r: String)
        requires
            crate::schema::wf_defaults(self.ty),
        ensures
            r@ == crate::schema::spec_ty_name(self.ty),
            final(reg)@ == crate::schema::spec_register(self.ty, old(reg)@),
    {
        crate::schema::create_type_info(&self.ty, reg)
    }

    /// Extracts a record instance from an optional dynamic value.
    pub fn parse(&self, v: Option<Value>) -> (r: Result<Instance, ParseError>)
        ensures
            res_model(r) == spec_parse(self.ty, opt_model(v)),
    {
        crate::parse::parse(&self.ty, v)
    }

    /// Serializes a well-formed record instance into a dynamic value.
    pub fn to_value(&self, x: &Instance) -> (r: Value)
        requires
            wf_instance(self.ty, x@),
        ensures
            r@ == spec_to_value(self.ty, x@),
    {
        crate::serialize::to_value(&self.ty, x)
    }
}

/// Validates a record descriptor and assembles its artifact bundle:
/// generation succeeds exactly on a record with named fields and at least
/// one field (flatten fields count); any other shape is a `ShapeError`, a
/// named record without fields an `EmptyFieldsError`.
pub fn generate(d: RecordDescriptor) -> (r: Result<ArtifactBundle, GenError>)
    ensures
        r is Ok <==> (d.shape is NamedRecord && fields_of(d).len() > 0),
        match r {
            Result::Ok(b) => b.wf() && b.desc() == d,
            Result::Err(e) => {
                &&& (e == GenError::ShapeError <==> d.shape is Other)
                &&& (e == GenError::EmptyFieldsError <==> (d.shape is NamedRecord && fields_of(
                    d,
                ).len() == 0))
            },
        },
{
    let is_named = match &d.shape {
        TypeShape::NamedRecord(_) => true,
        TypeShape::Other => false,
    };
    if !is_named {
        return Result::Err(GenError::ShapeError);
    }
    let mut plans: Vec<FieldPlan> = Vec::new();
    match &d.shape {
        TypeShape::NamedRecord(fs) => {
            if fs.len() == 0 {
                return Result::Err(GenError::EmptyFieldsError);
            }
            let mut i: usize = 0;
            while i < fs.len()
                invariant
                    d.shape == TypeShape::NamedRecord(*fs),
                    i <= fs.len(),
                    plans@.len() == i,
                    forall|j: int|
                        0 <= j < i ==> plans@[j]@ == spec_classify(fs@[j]),
                decreases fs.len() - i,
            {
                let p = classify(&fs[i]);
                plans.push(p);
                i += 1;
            }
        },
        TypeShape::Other => {},
    }
    Result::Ok(ArtifactBundle { ty: FieldType::RecordTy(Box::new(d)), plans })
}

} // verus!
