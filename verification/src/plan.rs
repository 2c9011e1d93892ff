//! The field classifier and default resolver: each field is planned either
//! as a flatten field, whose nested record is composed into the enclosing
//! one, or as a scalar binding with a default policy resolved from its
//! declared default literal or default factory.

use vstd::prelude::*;

use crate::descriptor::FieldDescriptor;
use crate::descriptor::Instance;
use crate::descriptor::InstModel;
use crate::descriptor::instance_clone;

verus! {

/// How an absent key is supplied for a non-flatten field: not at all, by a
/// default literal, or by a default factory.
pub enum DefaultPolicy {
    NoDefault,
    Literal(Instance),
    Factory(Instance),
}

/// The derived plan of one field.
pub enum FieldPlan {
    Flatten,
    Scalar(DefaultPolicy),
}

/// Model of a default policy.
#[verifier::ext_equal]
pub enum PolicyModel {
    NoDefault,
    Literal(InstModel),
    Factory(InstModel),
}

/// Model of a field plan.
#[verifier::ext_equal]
pub enum PlanModel {
    Flatten,
    Scalar(PolicyModel),
}

impl View for DefaultPolicy {
    type V = PolicyModel;

    open spec fn view(&self) -> PolicyModel {
        match *self {
            DefaultPolicy::NoDefault => PolicyModel::NoDefault,
            DefaultPolicy::Literal(x) => PolicyModel::Literal(x@),
            DefaultPolicy::Factory(x) => PolicyModel::Factory(x@),
        }
    }
}

impl View for FieldPlan {
    type V = PlanModel;

    open spec fn view(&self) -> PlanModel {
        match *self {
            FieldPlan::Flatten => PlanModel::Flatten,
            FieldPlan::Scalar(p) => PlanModel::Scalar(p@),
        }
    }
}

/// The default policy a field's declaration resolves to: a literal wins over
/// a factory; mutual exclusivity of the two is a precondition of the
/// descriptor producer, not enforced here.
pub open spec fn spec_default_of(f: FieldDescriptor) -> PolicyModel {
    match f.default_lit {
        Option::Some(x) => PolicyModel::Literal(x@),
        Option::None => match f.default_factory {
            Option::Some(x) => PolicyModel::Factory(x@),
            Option::None => PolicyModel::NoDefault,
        },
    }
}

/// The plan a field's declaration resolves to.
pub open spec fn spec_classify(f: FieldDescriptor) -> PlanModel {
    if f.flatten {
        PlanModel::Flatten
    } else {
        PlanModel::Scalar(spec_default_of(f))
    }
}

/// Classifies one field, resolving its default policy.
pub fn classify(f: &FieldDescriptor) -> (p: FieldPlan)
    ensures
        p@ == spec_classify(*f),
{
    if f.flatten {
        FieldPlan::Flatten
    } else {
        match &f.default_lit {
            Option::Some(x) => FieldPlan::Scalar(DefaultPolicy::Literal(instance_clone(x))),
            Option::None => match &f.default_factory {
                Option::Some(x) => FieldPlan::Scalar(DefaultPolicy::Factory(instance_clone(x))),
                Option::None => FieldPlan::Scalar(DefaultPolicy::NoDefault),
            },
        }
    }
}

} // verus!
