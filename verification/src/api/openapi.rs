//! The parts of an OpenAPI description that the checks look at.

use vstd::prelude::*;

use crate::util::string_map::StringMap;

verus! {

/// A reference to something that is defined elsewhere in the description.
pub struct Ref {
    pub ref_location: String,
}

/// Where the schemas are in a description.
pub open spec fn schema_prefix() -> Seq<char> {
    "#/components/schemas/"@
}

impl Ref {
    /// A reference to the schema with this name.
    pub fn from_schema_name(name: &str) -> (reference: Self)
        ensures
            reference.ref_location@ == schema_prefix() + name@,
    {
        let mut ref_location = "#/components/schemas/".to_owned();
        ref_location.append(name);
        Ref { ref_location }
    }
}

/// Something that is either there or referred to.
pub enum RefOr<T> {
    Ref(Ref),
    T(T),
}

#[derive(Clone, Copy, Debug, PartialEq, Eq)]
pub enum SchemaType {
    Object,
    Value,
    Text,
    Integer,
    Number,
    Boolean,
    Array,
}

/// The format of a value.
#[derive(Clone, Copy, Debug, PartialEq, Eq)]
pub enum SchemaFormat {
    /// A UUID.
    Uuid,
    /// One of the other formats that OpenAPI knows.
    OtherKnownFormat,
    Custom,
}

/// A schema for lists.
pub struct ArraySchema {
    pub items: Box<RefOr<Schema>>,
}

/// A schema for single values and for objects.
pub struct ObjectSchema {
    pub schema_type: SchemaType,
    pub format: Option<SchemaFormat>,
    pub properties: Vec<(String, RefOr<Schema>)>,
    pub additional_properties: Option<Box<RefOr<Schema>>>,
}

pub enum Schema {
    Array(ArraySchema),
    Object(ObjectSchema),
    OneOf(Vec<RefOr<Schema>>),
    AllOf(Vec<RefOr<Schema>>),
    /// A kind of schema that the checks do not know.
    Unknown,
}

/// An example; it has no value if it is found elsewhere.
pub struct Example<B> {
    pub value: Option<B>,
}

/// The content of a request or a response in one media type. `B` is the type of example bodies.
pub struct Content<B> {
    pub schema: RefOr<Schema>,
    pub example: Option<B>,
    pub examples: Vec<(String, RefOr<Example<B>>)>,
}

pub struct RequestBody<B> {
    pub content: Vec<(String, Content<B>)>,
}

pub struct Response<B> {
    pub content: Vec<(String, Content<B>)>,
}

pub struct Parameter {
    pub name: String,
    pub schema: Option<RefOr<Schema>>,
}

/// The method of an operation.
#[derive(Clone, Copy, Debug, PartialEq, Eq)]
pub enum PathItemType {
    Get,
    Post,
    Put,
    Delete,
    Options,
    Head,
    Patch,
    Trace,
    Connect,
}

pub struct Operation<B> {
    pub request_body: Option<RequestBody<B>>,
    pub parameters: Option<Vec<Parameter>>,
    pub responses: Vec<(String, RefOr<Response<B>>)>,
    /// The operation has a security requirement.
    pub has_security: bool,
}

pub struct PathItem<B> {
    pub operations: Vec<(PathItemType, Operation<B>)>,
}

pub struct Components {
    pub schemas: StringMap<RefOr<Schema>>,
}

/// The description of an API. What has a name in it is in the order in which it is gone through.
pub struct OpenApi<B> {
    pub paths: Vec<(String, PathItem<B>)>,
    pub components: Option<Components>,
}

} // verus!
