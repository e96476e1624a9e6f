//! The schema model: the shape of a GraphQL introspection response.
//!
//! Every field is optional because a GraphQL server omits properties that do
//! not apply to a given type kind.  A `Type` is either a named definition
//! (object, interface, enum, scalar, input object, union) or a modifier
//! reference (`LIST` / `NON_NULL`) that wraps another reference through
//! `of_type`.

use vstd::prelude::*;

verus! {

/// One named GraphQL type definition or type reference.
#[derive(Debug)]
pub struct Type {
    pub kind: Option<String>,
    pub name: Option<String>,
    pub description: Option<String>,
    pub fields: Option<Vec<Field>>,
    pub input_fields: Option<Vec<Field>>,
    pub interfaces: Option<Vec<Type>>,
    pub enum_values: Option<Vec<Value>>,
    pub possible_types: Option<Vec<Type>>,
    pub of_type: Option<Box<Type>>,
}

/// One field of an object, interface or input object.  Arguments are
/// themselves field-shaped: a name, a type reference and a default.
#[derive(Debug)]
pub struct Field {
    pub name: Option<String>,
    pub description: Option<String>,
    pub field_type: Option<Type>,
    pub default_value: Option<String>,
    pub is_deprecated: Option<bool>,
    pub deprecation_reason: Option<String>,
    pub args: Option<Vec<Field>>,
}

/// One enum member.
#[derive(Debug)]
pub struct Value {
    pub name: Option<String>,
    pub description: Option<String>,
    pub is_deprecated: Option<bool>,
    pub deprecation_reason: Option<String>,
}

/// The ordered list of every top-level type the server reported.
#[derive(Debug)]
pub struct Schema {
    pub types: Vec<Type>,
}

/// The payload of a successful introspection query.
#[derive(Debug)]
pub struct IntrospectionResult {
    pub schema: Schema,
}

} // verus!
