//! Types of the explorer service: service and method descriptions, the shapes
//! of argument types for form generation, and dynamic call requests and
//! responses (arguments and results as JSON text).

use vstd::prelude::*;

verus! {

/// Summary of a service for the list view.
#[derive(Clone, Debug)]
pub struct ServiceSummary {
    pub id: u32,
    pub name: String,
    pub doc: String,
    pub method_count: u32,
}

/// The shape of a type, for generating a form that fills it in.
#[derive(Debug)]
pub enum ShapeInfo {
    /// Integers, floats and booleans; `affinity` is `integer`, `unsigned`,
    /// `float` or `boolean`.
    Scalar { ty_name: String, affinity: String },
    /// A string.
    String,
    /// An optional value of the inner shape.
    Option { inner: Box<ShapeInfo> },
    /// A list of items of one shape.
    List { item: Box<ShapeInfo> },
    /// A struct with named fields.
    Struct { ty_name: String, fields: Vec<FieldInfo> },
    /// An enum with variants.
    Enum { ty_name: String, variants: Vec<VariantInfo> },
    /// A map from keys of one shape to values of another.
    MapOf { key: Box<ShapeInfo>, value: Box<ShapeInfo> },
    /// A type that has no representation here.
    Unknown { ty_name: String },
}

/// A field of a struct shape.
#[derive(Debug)]
pub struct FieldInfo {
    pub name: String,
    pub shape: ShapeInfo,
}

/// A variant of an enum shape.
#[derive(Debug)]
pub struct VariantInfo {
    pub name: String,
    /// `None` for a unit variant; the fields of a tuple or struct variant.
    pub fields: Option<Vec<FieldInfo>>,
}

/// An argument of a method.
#[derive(Debug)]
pub struct ArgDetail {
    pub name: String,
    pub ty_name: String,
    /// The argument type's shape, for typed form inputs.
    pub shape: ShapeInfo,
}

/// A method of a service.
#[derive(Debug)]
pub struct MethodDetail {
    pub id: u32,
    pub name: String,
    pub full_name: String,
    pub doc: String,
    pub args: Vec<ArgDetail>,
    pub is_streaming: bool,
    pub request_type: String,
    pub response_type: String,
}

/// A service with its methods.
#[derive(Debug)]
pub struct ServiceDetail {
    pub id: u32,
    pub name: String,
    pub doc: String,
    pub methods: Vec<MethodDetail>,
}

/// A request to call a method dynamically.
#[derive(Clone, Debug)]
pub struct CallRequest {
    pub service: String,
    pub method: String,
    /// The arguments, as JSON.
    pub args_json: String,
}

/// The outcome of a dynamic call.
#[derive(Clone, Debug)]
pub struct CallResponse {
    /// The result as JSON (`null` on error).
    pub result_json: String,
    /// The error message when the call failed.
    pub error: Option<String>,
}

/// One item of a streaming response.
#[derive(Clone, Debug)]
pub struct StreamItem {
    /// The value, as JSON.
    pub value_json: String,
}

} // verus!
