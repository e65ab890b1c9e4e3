//! Whether all references of a description can be resolved.

use vstd::prelude::*;
use vstd::utf8::{
    decode_utf8, encode_utf8, encode_utf8_decode_utf8, encode_utf8_first_scalar,
    encode_utf8_valid_utf8, is_char_boundary,
};

use crate::api::openapi::{
    schema_prefix, Content, OpenApi, Operation, Parameter, PathItem, PathItemType, Ref, RefOr,
    Response, Schema,
};
use crate::util::string_map::StringMap;

verus! {

/// The length of the prefix of references to schemas, in bytes.
pub const SCHEMA_PREFIX_LEN: usize = 21;

/// Why something cannot be resolved.
#[derive(Debug, PartialEq, Eq)]
#[allow(inconsistent_fields)]
pub enum ResolveError {
    /// There is no schema with the name that is referred to.
    UnknownSchema { ref_location: String },
    /// The reference is too short to have the name of a schema in it.
    MalformedRef { ref_location: String },
    /// The kind of schema is not known.
    UnknownSchemaType,
    /// The description has no components.
    MissingComponents,
}

impl ResolveError {
    /// What to tell about the error.
    pub fn message(&self) -> (message: String)
        ensures
            message@ == match *self {
                ResolveError::UnknownSchema { ref_location } => "Referenced the unknown schema `"@
                    + ref_location@ + "`"@,
                ResolveError::MalformedRef { ref_location } => "Malformed reference `"@
                    + ref_location@ + "`"@,
                ResolveError::UnknownSchemaType => "Unknown schema type"@,
                ResolveError::MissingComponents => "api has at least one component"@,
            },
    {
        match self {
            ResolveError::UnknownSchema { ref_location } => "Referenced the unknown schema `"
                .to_owned().concat(ref_location.as_str()).concat("`"),
            ResolveError::MalformedRef { ref_location } => "Malformed reference `".to_owned().concat(
                ref_location.as_str(),
            ).concat("`"),
            ResolveError::UnknownSchemaType => "Unknown schema type".to_owned(),
            ResolveError::MissingComponents => "api has at least one component".to_owned(),
        }
    }
}

/// What becomes of resolving something.
pub enum Outcome {
    Resolved,
    UnknownSchema(Seq<char>),
    MalformedRef(Seq<char>),
    UnknownSchemaType,
    MissingComponents,
}

pub open spec fn outcome(result: Result<(), ResolveError>) -> Outcome {
    match result {
        Ok(()) => Outcome::Resolved,
        Err(ResolveError::UnknownSchema { ref_location }) => Outcome::UnknownSchema(ref_location@),
        Err(ResolveError::MalformedRef { ref_location }) => Outcome::MalformedRef(ref_location@),
        Err(ResolveError::UnknownSchemaType) => Outcome::UnknownSchemaType,
        Err(ResolveError::MissingComponents) => Outcome::MissingComponents,
    }
}

/// The name of the schema that a reference refers to: what comes after the prefix. Other prefixes of
/// the same length are not told apart.
pub open spec fn schema_name(ref_location: Seq<char>) -> Option<Seq<char>> {
    let bytes = encode_utf8(ref_location);
    if is_char_boundary(bytes, SCHEMA_PREFIX_LEN as int) {
        Some(decode_utf8(bytes.subrange(SCHEMA_PREFIX_LEN as int, bytes.len() as int)))
    } else {
        None
    }
}

/// The name of the schema that a reference refers to, if it is long enough to have one.
pub fn get_schema_name_from_ref(reference: &Ref) -> (name: Option<&str>)
    ensures
        match name {
            Some(name) => schema_name(reference.ref_location@) == Some(name@),
            None => schema_name(reference.ref_location@) is None,
        },
{
    let location = reference.ref_location.as_str();
    proof {
        encode_utf8_valid_utf8(location@);
    }
    if !location.is_char_boundary(SCHEMA_PREFIX_LEN) {
        return None;
    }
    let (_, name) = location.split_at(SCHEMA_PREFIX_LEN);
    proof {
        encode_utf8_decode_utf8(name@);
    }
    Some(name)
}

/// What becomes of resolving a reference.
pub open spec fn ref_outcome(ref_location: Seq<char>, known: Set<Seq<char>>) -> Outcome {
    match schema_name(ref_location) {
        Some(name) => if known.contains(name) {
            Outcome::Resolved
        } else {
            Outcome::UnknownSchema(ref_location)
        },
        None => Outcome::MalformedRef(ref_location),
    }
}

/// Rejects a reference to a schema that does not exist.
pub fn throw_if_invalid_ref(reference: &Ref, schemas: &StringMap<RefOr<Schema>>) -> (result: Result<
    (),
    ResolveError,
>)
    requires
        schemas.wf(),
    ensures
        outcome(result) == ref_outcome(reference.ref_location@, schemas@.dom()),
{
    match get_schema_name_from_ref(reference) {
        Some(name) => if schemas.contains_key(name) {
            Ok(())
        } else {
            Err(ResolveError::UnknownSchema { ref_location: reference.ref_location.clone() })
        },
        None => Err(ResolveError::MalformedRef { ref_location: reference.ref_location.clone() }),
    }
}

/// The first of two outcomes that is a failure.
pub open spec fn first_failure(first: Outcome, second: Outcome) -> Outcome {
    if first is Resolved {
        second
    } else {
        first
    }
}

/// What becomes of resolving everything in a schema, from front to back.
pub open spec fn schema_outcome(schema: RefOr<Schema>, known: Set<Seq<char>>) -> Outcome
    decreases schema,
{
    match schema {
        RefOr::Ref(reference) => ref_outcome(reference.ref_location@, known),
        RefOr::T(Schema::Array(array)) => schema_outcome(*array.items, known),
        RefOr::T(Schema::Object(object)) => first_failure(
            properties_outcome(object.properties@, known),
            match object.additional_properties {
                Some(additional) => schema_outcome(*additional, known),
                None => Outcome::Resolved,
            },
        ),
        RefOr::T(Schema::OneOf(items)) => items_outcome(items@, known),
        RefOr::T(Schema::AllOf(items)) => items_outcome(items@, known),
        RefOr::T(Schema::Unknown) => Outcome::UnknownSchemaType,
    }
}

pub open spec fn properties_outcome(
    properties: Seq<(String, RefOr<Schema>)>,
    known: Set<Seq<char>>,
) -> Outcome
    decreases properties,
{
    if properties.len() == 0 {
        Outcome::Resolved
    } else {
        first_failure(
            schema_outcome(properties[0].1, known),
            properties_outcome(properties.subrange(1, properties.len() as int), known),
        )
    }
}

pub open spec fn items_outcome(items: Seq<RefOr<Schema>>, known: Set<Seq<char>>) -> Outcome
    decreases items,
{
    if items.len() == 0 {
        Outcome::Resolved
    } else {
        first_failure(
            schema_outcome(items[0], known),
            items_outcome(items.subrange(1, items.len() as int), known),
        )
    }
}

/// Rejects a schema with a reference that cannot be resolved in it.
pub fn can_resolve_schema(schema: &RefOr<Schema>, schemas: &StringMap<RefOr<Schema>>) -> (result:
    Result<(), ResolveError>)
    requires
        schemas.wf(),
    ensures
        outcome(result) == schema_outcome(*schema, schemas@.dom()),
    decreases schema,
{
    match schema {
        RefOr::Ref(reference) => throw_if_invalid_ref(reference, schemas),
        RefOr::T(Schema::Array(array)) => can_resolve_schema(&*array.items, schemas),
        RefOr::T(Schema::Object(object)) => {
            let mut i: usize = 0;
            let ghost properties = object.properties@;
            assert(properties.subrange(0, properties.len() as int) =~= properties);
            while i < object.properties.len()
                invariant
                    i <= properties.len(),
                    properties == object.properties@,
                    schemas.wf(),
                    schema == RefOr::T(Schema::Object(*object)),
                    properties_outcome(properties, schemas@.dom()) == properties_outcome(
                        properties.subrange(i as int, properties.len() as int),
                        schemas@.dom(),
                    ),
                decreases properties.len() - i,
            {
                let ghost rest = properties.subrange(i as int, properties.len() as int);
                assert(rest.subrange(1, rest.len() as int) =~= properties.subrange(
                    i + 1,
                    properties.len() as int,
                ));
                assert(decreases_to!(schema => object.properties@[i as int].1));
                let result = can_resolve_schema(&object.properties[i].1, schemas);
                if result.is_err() {
                    return result;
                }
                i += 1;
            }
            match &object.additional_properties {
                Some(additional) => can_resolve_schema(&**additional, schemas),
                None => Ok(()),
            }
        },
        RefOr::T(Schema::OneOf(items)) | RefOr::T(Schema::AllOf(items)) => {
            let mut i: usize = 0;
            assert(items@.subrange(0, items@.len() as int) =~= items@);
            while i < items.len()
                invariant
                    i <= items@.len(),
                    schemas.wf(),
                    schema == RefOr::T(Schema::OneOf(*items)) || schema == RefOr::T(
                        Schema::AllOf(*items),
                    ),
                    items_outcome(items@, schemas@.dom()) == items_outcome(
                        items@.subrange(i as int, items@.len() as int),
                        schemas@.dom(),
                    ),
                decreases items@.len() - i,
            {
                let ghost rest = items@.subrange(i as int, items@.len() as int);
                assert(rest.subrange(1, rest.len() as int) =~= items@.subrange(
                    i + 1,
                    items@.len() as int,
                ));
                assert(decreases_to!(schema => items@[i as int]));
                let result = can_resolve_schema(&items[i], schemas);
                if result.is_err() {
                    return result;
                }
                i += 1;
            }
            Ok(())
        },
        RefOr::T(Schema::Unknown) => Err(ResolveError::UnknownSchemaType),
    }
}

/// The bytes of two texts in a row.
proof fn lemma_encode_concat(a: Seq<char>, b: Seq<char>)
    ensures
        encode_utf8(a + b) == encode_utf8(a) + encode_utf8(b),
    decreases a.len(),
{
    if a.len() == 0 {
        assert(a + b =~= b);
        assert(encode_utf8(a) + encode_utf8(b) =~= encode_utf8(b));
    } else {
        let rest = a.drop_first();
        lemma_encode_concat(rest, b);
        assert((a + b).drop_first() =~= rest + b);
        assert((a + b)[0] == a[0]);
        let first = vstd::utf8::encode_scalar(a[0] as u32);
        assert(first + (encode_utf8(rest) + encode_utf8(b)) =~= (first + encode_utf8(rest))
            + encode_utf8(b));
    }
}

/// Where a text ends, there is a boundary between characters.
proof fn lemma_boundary_after(a: Seq<char>, b: Seq<char>)
    ensures
        is_char_boundary(encode_utf8(a + b), encode_utf8(a).len() as int),
    decreases a.len(),
{
    let bytes = encode_utf8(a + b);
    encode_utf8_valid_utf8(a + b);
    lemma_encode_concat(a, b);
    if a.len() == 0 {
        assert(encode_utf8(a).len() == 0);
    } else {
        let rest = a.drop_first();
        lemma_boundary_after(rest, b);
        lemma_encode_concat(rest, b);
        encode_utf8_first_scalar(a + b);
        assert((a + b).drop_first() =~= rest + b);
        assert(vstd::utf8::pop_first_scalar(bytes) =~= encode_utf8(rest + b));
    }
}

/// A reference that is made from the name of a schema refers to the schema with this name.
pub proof fn law_refs_from_names_have_these_names(name: Seq<char>)
    ensures
        schema_name(schema_prefix() + name) == Some(name),
{
    let prefix = schema_prefix();
    let bytes = encode_utf8(prefix + name);
    reveal_strlit("#/components/schemas/");
    assert(vstd::utf8::is_ascii_chars(prefix));
    vstd::utf8::is_ascii_chars_encode_utf8(prefix);
    lemma_encode_concat(prefix, name);
    lemma_boundary_after(prefix, name);
    assert(bytes.subrange(SCHEMA_PREFIX_LEN as int, bytes.len() as int) =~= encode_utf8(name));
    encode_utf8_decode_utf8(name);
}

/// What becomes of resolving the schemas of contents.
pub open spec fn contents_outcome<B>(
    items: Seq<(String, Content<B>)>,
    known: Set<Seq<char>>,
) -> Outcome
    decreases items.len(),
{
    if items.len() == 0 {
        Outcome::Resolved
    } else {
        first_failure(
            schema_outcome(items[0].1.schema, known),
            contents_outcome(items.skip(1), known),
        )
    }
}

/// Rejects contents with a schema that cannot be resolved.
fn resolve_contents<B>(
    items: &Vec<(String, Content<B>)>,
    schemas: &StringMap<RefOr<Schema>>,
) -> (result: Result<(), ResolveError>)
    requires
        schemas.wf(),
    ensures
        outcome(result) == contents_outcome(items@, schemas@.dom()),
{
    let mut i: usize = 0;
    assert(items@.skip(0) =~= items@);
    while i < items.len()
        invariant
            i <= items@.len(),
            schemas.wf(),
            contents_outcome(items@, schemas@.dom()) == contents_outcome(
                items@.skip(i as int),
                schemas@.dom(),
            ),
        decreases items@.len() - i,
    {
        assert(items@.skip(i as int).skip(1) =~= items@.skip(i + 1));
        let result = can_resolve_schema(&items[i].1.schema, schemas);
        if result.is_err() {
            return result;
        }
        i += 1;
    }
    Ok(())
}

/// What becomes of resolving the schema of a parameter.
pub open spec fn parameter_outcome(parameter: Parameter, known: Set<Seq<char>>) -> Outcome {
    match parameter.schema {
        Some(schema) => schema_outcome(schema, known),
        None => Outcome::Resolved,
    }
}

fn resolve_parameter(parameter: &Parameter, schemas: &StringMap<RefOr<Schema>>) -> (result: Result<
    (),
    ResolveError,
>)
    requires
        schemas.wf(),
    ensures
        outcome(result) == parameter_outcome(*parameter, schemas@.dom()),
{
    match &parameter.schema {
        Some(schema) => can_resolve_schema(schema, schemas),
        None => Ok(()),
    }
}

/// What becomes of resolving the schemas of parameters.
pub open spec fn parameters_outcome(items: Seq<Parameter>, known: Set<Seq<char>>) -> Outcome
    decreases items.len(),
{
    if items.len() == 0 {
        Outcome::Resolved
    } else {
        first_failure(
            parameter_outcome(items[0], known),
            parameters_outcome(items.skip(1), known),
        )
    }
}

/// Rejects parameters with a schema that cannot be resolved.
fn resolve_parameters(
    items: &Vec<Parameter>,
    schemas: &StringMap<RefOr<Schema>>,
) -> (result: Result<(), ResolveError>)
    requires
        schemas.wf(),
    ensures
        outcome(result) == parameters_outcome(items@, schemas@.dom()),
{
    let mut i: usize = 0;
    assert(items@.skip(0) =~= items@);
    while i < items.len()
        invariant
            i <= items@.len(),
            schemas.wf(),
            parameters_outcome(items@, schemas@.dom()) == parameters_outcome(
                items@.skip(i as int),
                schemas@.dom(),
            ),
        decreases items@.len() - i,
    {
        assert(items@.skip(i as int).skip(1) =~= items@.skip(i + 1));
        let result = resolve_parameter(&items[i], schemas);
        if result.is_err() {
            return result;
        }
        i += 1;
    }
    Ok(())
}

/// What becomes of resolving a response. A reference to a response is looked up like one to a schema.
pub open spec fn response_outcome<B>(
    response: RefOr<Response<B>>,
    known: Set<Seq<char>>,
) -> Outcome {
    match response {
        RefOr::Ref(reference) => ref_outcome(reference.ref_location@, known),
        RefOr::T(concrete) => contents_outcome(concrete.content@, known),
    }
}

fn resolve_response<B>(
    response: &RefOr<Response<B>>,
    schemas: &StringMap<RefOr<Schema>>,
) -> (result: Result<(), ResolveError>)
    requires
        schemas.wf(),
    ensures
        outcome(result) == response_outcome(*response, schemas@.dom()),
{
    match response {
        RefOr::Ref(reference) => throw_if_invalid_ref(reference, schemas),
        RefOr::T(concrete) => resolve_contents(&concrete.content, schemas),
    }
}

/// What becomes of resolving responses.
pub open spec fn responses_outcome<B>(
    items: Seq<(String, RefOr<Response<B>>)>,
    known: Set<Seq<char>>,
) -> Outcome
    decreases items.len(),
{
    if items.len() == 0 {
        Outcome::Resolved
    } else {
        first_failure(
            response_outcome(items[0].1, known),
            responses_outcome(items.skip(1), known),
        )
    }
}

/// Rejects responses that cannot be resolved.
fn resolve_responses<B>(
    items: &Vec<(String, RefOr<Response<B>>)>,
    schemas: &StringMap<RefOr<Schema>>,
) -> (result: Result<(), ResolveError>)
    requires
        schemas.wf(),
    ensures
        outcome(result) == responses_outcome(items@, schemas@.dom()),
{
    let mut i: usize = 0;
    assert(items@.skip(0) =~= items@);
    while i < items.len()
        invariant
            i <= items@.len(),
            schemas.wf(),
            responses_outcome(items@, schemas@.dom()) == responses_outcome(
                items@.skip(i as int),
                schemas@.dom(),
            ),
        decreases items@.len() - i,
    {
        assert(items@.skip(i as int).skip(1) =~= items@.skip(i + 1));
        let result = resolve_response(&items[i].1, schemas);
        if result.is_err() {
            return result;
        }
        i += 1;
    }
    Ok(())
}

/// What becomes of resolving an operation: its request body, its parameters and its responses.
pub open spec fn operation_outcome<B>(operation: Operation<B>, known: Set<Seq<char>>) -> Outcome {
    first_failure(
        first_failure(
            match operation.request_body {
                Some(request_body) => contents_outcome(request_body.content@, known),
                None => Outcome::Resolved,
            },
            match operation.parameters {
                Some(parameters) => parameters_outcome(parameters@, known),
                None => Outcome::Resolved,
            },
        ),
        responses_outcome(operation.responses@, known),
    )
}

fn resolve_operation<B>(operation: &Operation<B>, schemas: &StringMap<RefOr<Schema>>) -> (result:
    Result<(), ResolveError>)
    requires
        schemas.wf(),
    ensures
        outcome(result) == operation_outcome(*operation, schemas@.dom()),
{
    if let Some(request_body) = &operation.request_body {
        let result = resolve_contents(&request_body.content, schemas);
        if result.is_err() {
            return result;
        }
    }
    if let Some(parameters) = &operation.parameters {
        let result = resolve_parameters(parameters, schemas);
        if result.is_err() {
            return result;
        }
    }
    resolve_responses(&operation.responses, schemas)
}

/// What becomes of resolving operations.
pub open spec fn operations_outcome<B>(
    items: Seq<(PathItemType, Operation<B>)>,
    known: Set<Seq<char>>,
) -> Outcome
    decreases items.len(),
{
    if items.len() == 0 {
        Outcome::Resolved
    } else {
        first_failure(
            operation_outcome(items[0].1, known),
            operations_outcome(items.skip(1), known),
        )
    }
}

/// Rejects operations that cannot be resolved.
fn resolve_operations<B>(
    items: &Vec<(PathItemType, Operation<B>)>,
    schemas: &StringMap<RefOr<Schema>>,
) -> (result: Result<(), ResolveError>)
    requires
        schemas.wf(),
    ensures
        outcome(result) == operations_outcome(items@, schemas@.dom()),
{
    let mut i: usize = 0;
    assert(items@.skip(0) =~= items@);
    while i < items.len()
        invariant
            i <= items@.len(),
            schemas.wf(),
            operations_outcome(items@, schemas@.dom()) == operations_outcome(
                items@.skip(i as int),
                schemas@.dom(),
            ),
        decreases items@.len() - i,
    {
        assert(items@.skip(i as int).skip(1) =~= items@.skip(i + 1));
        let result = resolve_operation(&items[i].1, schemas);
        if result.is_err() {
            return result;
        }
        i += 1;
    }
    Ok(())
}

/// What becomes of resolving the operations of all paths.
pub open spec fn paths_outcome<B>(
    items: Seq<(String, PathItem<B>)>,
    known: Set<Seq<char>>,
) -> Outcome
    decreases items.len(),
{
    if items.len() == 0 {
        Outcome::Resolved
    } else {
        first_failure(
            operations_outcome(items[0].1.operations@, known),
            paths_outcome(items.skip(1), known),
        )
    }
}

/// Rejects paths that cannot be resolved.
fn resolve_paths<B>(
    items: &Vec<(String, PathItem<B>)>,
    schemas: &StringMap<RefOr<Schema>>,
) -> (result: Result<(), ResolveError>)
    requires
        schemas.wf(),
    ensures
        outcome(result) == paths_outcome(items@, schemas@.dom()),
{
    let mut i: usize = 0;
    assert(items@.skip(0) =~= items@);
    while i < items.len()
        invariant
            i <= items@.len(),
            schemas.wf(),
            paths_outcome(items@, schemas@.dom()) == paths_outcome(
                items@.skip(i as int),
                schemas@.dom(),
            ),
        decreases items@.len() - i,
    {
        assert(items@.skip(i as int).skip(1) =~= items@.skip(i + 1));
        let result = resolve_operations(&items[i].1.operations, schemas);
        if result.is_err() {
            return result;
        }
        i += 1;
    }
    Ok(())
}

/// What becomes of resolving a whole description.
pub open spec fn api_outcome<B>(api: OpenApi<B>) -> Outcome {
    match api.components {
        Some(components) => paths_outcome(api.paths@, components.schemas@.dom()),
        None => Outcome::MissingComponents,
    }
}

/// Rejects a description that refers to a schema that does not exist, with the first reference for
/// which this is so.
pub fn can_resolve_api<B>(api: &OpenApi<B>) -> (result: Result<(), ResolveError>)
    requires
        api.components matches Some(components) ==> components.schemas.wf(),
    ensures
        outcome(result) == api_outcome(*api),
{
    match &api.components {
        Some(components) => resolve_paths(&api.paths, &components.schemas),
        None => Err(ResolveError::MissingComponents),
    }
}

/// The references in a schema.
pub open spec fn schema_refs(schema: RefOr<Schema>) -> Seq<Seq<char>>
    decreases schema,
{
    match schema {
        RefOr::Ref(reference) => seq![reference.ref_location@],
        RefOr::T(Schema::Array(array)) => schema_refs(*array.items),
        RefOr::T(Schema::Object(object)) => properties_refs(object.properties@) + match object.additional_properties {
            Some(additional) => schema_refs(*additional),
            None => Seq::empty(),
        },
        RefOr::T(Schema::OneOf(items)) => items_refs(items@),
        RefOr::T(Schema::AllOf(items)) => items_refs(items@),
        RefOr::T(Schema::Unknown) => Seq::empty(),
    }
}

pub open spec fn properties_refs(properties: Seq<(String, RefOr<Schema>)>) -> Seq<Seq<char>>
    decreases properties,
{
    if properties.len() == 0 {
        Seq::empty()
    } else {
        schema_refs(properties[0].1) + properties_refs(
            properties.subrange(1, properties.len() as int),
        )
    }
}

pub open spec fn items_refs(items: Seq<RefOr<Schema>>) -> Seq<Seq<char>>
    decreases items,
{
    if items.len() == 0 {
        Seq::empty()
    } else {
        schema_refs(items[0]) + items_refs(items.subrange(1, items.len() as int))
    }
}

/// The reference has the name of a known schema.
pub open spec fn is_known(ref_location: Seq<char>, known: Set<Seq<char>>) -> bool {
    schema_name(ref_location) matches Some(name) && known.contains(name)
}

pub open spec fn all_known(refs: Seq<Seq<char>>, known: Set<Seq<char>>) -> bool {
    forall|i: int| 0 <= i < refs.len() ==> is_known(#[trigger] refs[i], known)
}

pub proof fn lemma_all_known_concat(a: Seq<Seq<char>>, b: Seq<Seq<char>>, known: Set<Seq<char>>)
    ensures
        all_known(a + b, known) <==> all_known(a, known) && all_known(b, known),
{
    if all_known(a + b, known) {
        assert forall|i: int| 0 <= i < a.len() implies is_known(#[trigger] a[i], known) by {
            assert((a + b)[i] == a[i]);
        }
        assert forall|i: int| 0 <= i < b.len() implies is_known(#[trigger] b[i], known) by {
            assert((a + b)[a.len() + i] == b[i]);
        }
    }
}

/// A schema that is resolved only refers to schemas that exist. If it is not resolved, one of its
/// references is to blame, or a kind of schema that is not known.
pub proof fn law_resolved_schemas_have_known_refs(schema: RefOr<Schema>, known: Set<Seq<char>>)
    ensures
        schema_outcome(schema, known) is Resolved ==> all_known(schema_refs(schema), known),
        !(schema_outcome(schema, known) is Resolved) && !(schema_outcome(
            schema,
            known,
        ) is UnknownSchemaType) ==> !all_known(schema_refs(schema), known),
    decreases schema,
{
    match schema {
        RefOr::Ref(reference) => {
            let refs = schema_refs(schema);
            assert(refs[0] == reference.ref_location@);
        },
        RefOr::T(Schema::Array(array)) => {
            law_resolved_schemas_have_known_refs(*array.items, known);
        },
        RefOr::T(Schema::Object(object)) => {
            lemma_resolved_properties(object.properties@, known);
            match object.additional_properties {
                Some(additional) => {
                    law_resolved_schemas_have_known_refs(*additional, known);
                    lemma_all_known_concat(
                        properties_refs(object.properties@),
                        schema_refs(*additional),
                        known,
                    );
                },
                None => {
                    lemma_all_known_concat(
                        properties_refs(object.properties@),
                        Seq::empty(),
                        known,
                    );
                },
            }
        },
        RefOr::T(Schema::OneOf(items)) => {
            lemma_resolved_items(items@, known);
        },
        RefOr::T(Schema::AllOf(items)) => {
            lemma_resolved_items(items@, known);
        },
        RefOr::T(Schema::Unknown) => {},
    }
}

proof fn lemma_resolved_properties(
    properties: Seq<(String, RefOr<Schema>)>,
    known: Set<Seq<char>>,
)
    ensures
        properties_outcome(properties, known) is Resolved ==> all_known(
            properties_refs(properties),
            known,
        ),
        !(properties_outcome(properties, known) is Resolved) && !(properties_outcome(
            properties,
            known,
        ) is UnknownSchemaType) ==> !all_known(properties_refs(properties), known),
    decreases properties,
{
    if properties.len() > 0 {
        let rest = properties.subrange(1, properties.len() as int);
        law_resolved_schemas_have_known_refs(properties[0].1, known);
        lemma_resolved_properties(rest, known);
        lemma_all_known_concat(schema_refs(properties[0].1), properties_refs(rest), known);
    }
}

proof fn lemma_resolved_items(items: Seq<RefOr<Schema>>, known: Set<Seq<char>>)
    ensures
        items_outcome(items, known) is Resolved ==> all_known(items_refs(items), known),
        !(items_outcome(items, known) is Resolved) && !(items_outcome(
            items,
            known,
        ) is UnknownSchemaType) ==> !all_known(items_refs(items), known),
    decreases items,
{
    if items.len() > 0 {
        let rest = items.subrange(1, items.len() as int);
        law_resolved_schemas_have_known_refs(items[0], known);
        lemma_resolved_items(rest, known);
        lemma_all_known_concat(schema_refs(items[0]), items_refs(rest), known);
    }
}

} // verus!
