//! Field values and their semantic types.

use vstd::prelude::*;

verus! {

/// The semantic type of a preference field.
#[derive(Clone, Copy, Debug, PartialEq, Eq, Structural)]
pub enum FieldType {
    Bool,
    Int,
    Text,
}

/// The mathematical content of a [`FieldValue`]: what contracts speak of.
pub enum Scalar {
    Bool(bool),
    Int(i64),
    Text(Seq<char>),
}

impl Scalar {
    /// The semantic type this content belongs to.
    pub open spec fn kind(self) -> FieldType {
        match self {
            Scalar::Bool(_) => FieldType::Bool,
            Scalar::Int(_) => FieldType::Int,
            Scalar::Text(_) => FieldType::Text,
        }
    }
}

/// The value of one preference field.
#[derive(Debug)]
pub enum FieldValue {
    Bool(bool),
    Int(i64),
    Text(String),
}

impl View for FieldValue {
    type V = Scalar;

    open spec fn view(&self) -> Scalar {
        match self {
            FieldValue::Bool(b) => Scalar::Bool(*b),
            FieldValue::Int(n) => Scalar::Int(*n),
            FieldValue::Text(s) => Scalar::Text(s@),
        }
    }
}

impl FieldValue {
    /// The semantic type of this value.
    pub fn kind(&self) -> (k: FieldType)
        ensures
            k == self@.kind(),
    {
        match self {
            FieldValue::Bool(_) => FieldType::Bool,
            FieldValue::Int(_) => FieldType::Int,
            FieldValue::Text(_) => FieldType::Text,
        }
    }
}

impl Clone for FieldValue {
    fn clone(&self) -> (copy: FieldValue)
        ensures
            copy == *self,
    {
        match self {
            FieldValue::Bool(b) => FieldValue::Bool(*b),
            FieldValue::Int(n) => FieldValue::Int(*n),
            FieldValue::Text(s) => FieldValue::Text(s.clone()),
        }
    }
}

impl PartialEq for FieldValue {
    fn eq(&self, other: &FieldValue) -> (same: bool) {
        match (self, other) {
            (FieldValue::Bool(a), FieldValue::Bool(b)) => *a == *b,
            (FieldValue::Int(a), FieldValue::Int(b)) => *a == *b,
            (FieldValue::Text(a), FieldValue::Text(b)) => *a == *b,
            _ => false,
        }
    }
}

impl vstd::std_specs::cmp::PartialEqSpecImpl for FieldValue {
    open spec fn obeys_eq_spec() -> bool {
        true
    }

    open spec fn eq_spec(&self, other: &FieldValue) -> bool {
        self@ == other@
    }
}

/// The views of a list of values, in order.
pub open spec fn scalars(values: Seq<FieldValue>) -> Seq<Scalar> {
    values.map_values(|v: FieldValue| v@)
}


} // verus!
