//! The examples of a description, and the requests that they are tried out with.

use vstd::prelude::*;

use crate::api::openapi::{
    Content, OpenApi, Operation, Parameter, PathItem, PathItemType, RefOr, Schema, SchemaFormat,
    SchemaType,
};
use crate::api::openapi::Example;
use crate::api::resolve::{get_schema_name_from_ref, schema_name};
use crate::ids::{is_random_uuid_text, new_uuid_text, uuid_text, uuid_to_string};
use crate::util::string_map::StringMap;
use crate::util::text::same_text;

verus! {

/// Why no request can be made for an example.
#[derive(Clone, Copy, Debug, PartialEq, Eq)]
pub enum ExampleError {
    /// The parameter has no schema.
    MissingParameterSchema,
    /// The schema of the parameter does not exist.
    UnknownSchema,
    /// The schema of the parameter is itself a reference.
    RecursiveRef,
    /// There is no default value for parameters of this kind.
    UnsupportedParameter,
}

/// The default value of a kind of parameters.
pub enum DefaultValue {
    Fixed(Seq<char>),
    RandomUuid,
}

/// The default value for parameters with a schema.
pub open spec fn default_value(schema: Schema) -> Result<DefaultValue, ExampleError> {
    match schema {
        Schema::Object(object) => match (object.schema_type, object.format) {
            (SchemaType::Text, Some(SchemaFormat::Uuid)) => Ok(DefaultValue::RandomUuid),
            (SchemaType::Text, None) => Ok(DefaultValue::Fixed("asdf"@)),
            (SchemaType::Integer, _) | (SchemaType::Number, _) => Ok(DefaultValue::Fixed("42"@)),
            (SchemaType::Boolean, _) => Ok(DefaultValue::Fixed("false"@)),
            _ => Err(ExampleError::UnsupportedParameter),
        },
        _ => Err(ExampleError::UnsupportedParameter),
    }
}

/// The text is this default value.
pub open spec fn is_default(text: Seq<char>, value: DefaultValue) -> bool {
    match value {
        DefaultValue::Fixed(fixed) => text == fixed,
        DefaultValue::RandomUuid => is_random_uuid_text(text),
    }
}

/// A default value for parameters with a schema.
pub fn get_default_parameter_value(schema: &Schema) -> (value: Result<String, ExampleError>)
    ensures
        match value {
            Ok(text) => default_value(*schema) matches Ok(value) && is_default(text@, value),
            Err(error) => default_value(*schema) == Err::<DefaultValue, ExampleError>(error),
        },
{
    match schema {
        Schema::Object(object) => match (object.schema_type, object.format) {
            (SchemaType::Text, Some(SchemaFormat::Uuid)) => Ok(new_uuid_text()),
            (SchemaType::Text, None) => Ok("asdf".to_owned()),
            (SchemaType::Integer, _) | (SchemaType::Number, _) => Ok("42".to_owned()),
            (SchemaType::Boolean, _) => Ok("false".to_owned()),
            _ => Err(ExampleError::UnsupportedParameter),
        },
        _ => Err(ExampleError::UnsupportedParameter),
    }
}

/// The schema that is there or referred to. A reference leads directly to a schema.
pub open spec fn resolved_schema(
    ref_or: RefOr<Schema>,
    schemas: Map<Seq<char>, RefOr<Schema>>,
) -> Result<Schema, ExampleError> {
    match ref_or {
        RefOr::Ref(reference) => match schema_name(reference.ref_location@) {
            Some(name) => if schemas.contains_key(name) {
                match schemas[name] {
                    RefOr::Ref(_) => Err(ExampleError::RecursiveRef),
                    RefOr::T(concrete) => Ok(concrete),
                }
            } else {
                Err(ExampleError::UnknownSchema)
            },
            None => Err(ExampleError::UnknownSchema),
        },
        RefOr::T(concrete) => Ok(concrete),
    }
}

/// The schema that is there or referred to.
pub fn resolve_schema<'a>(
    ref_or: &'a RefOr<Schema>,
    schemas: &'a StringMap<RefOr<Schema>>,
) -> (schema: Result<&'a Schema, ExampleError>)
    requires
        schemas.wf(),
    ensures
        match schema {
            Ok(schema) => resolved_schema(*ref_or, schemas@) == Ok::<Schema, ExampleError>(*schema),
            Err(error) => resolved_schema(*ref_or, schemas@) == Err::<Schema, ExampleError>(error),
        },
{
    match ref_or {
        RefOr::Ref(reference) => match get_schema_name_from_ref(reference) {
            Some(name) => match schemas.get(name) {
                Some(RefOr::Ref(_)) => Err(ExampleError::RecursiveRef),
                Some(RefOr::T(concrete)) => Ok(concrete),
                None => Err(ExampleError::UnknownSchema),
            },
            None => Err(ExampleError::UnknownSchema),
        },
        RefOr::T(concrete) => Ok(concrete),
    }
}

/// The default value of a parameter.
pub open spec fn parameter_default(
    parameter: Parameter,
    schemas: Map<Seq<char>, RefOr<Schema>>,
) -> Result<DefaultValue, ExampleError> {
    match parameter.schema {
        Some(schema) => match resolved_schema(schema, schemas) {
            Ok(schema) => default_value(schema),
            Err(error) => Err(error),
        },
        None => Err(ExampleError::MissingParameterSchema),
    }
}

/// `values` are default values for all parameters, or the error of the first parameter that has
/// none.
pub open spec fn are_parameter_values(
    parameters: Seq<Parameter>,
    schemas: Map<Seq<char>, RefOr<Schema>>,
    values: Result<Vec<String>, ExampleError>,
) -> bool {
    match values {
        Ok(values) => {
            &&& values@.len() == parameters.len()
            &&& forall|i: int|
                0 <= i < parameters.len() ==> (parameter_default(
                    #[trigger] parameters[i],
                    schemas,
                ) matches Ok(value) && is_default(values@[i]@, value))
        },
        Err(error) => exists|i: int|
            {
                &&& 0 <= i < parameters.len()
                &&& parameter_default(#[trigger] parameters[i], schemas) == Err::<
                    DefaultValue,
                    ExampleError,
                >(error)
                &&& forall|j: int|
                    0 <= j < i ==> parameter_default(#[trigger] parameters[j], schemas) is Ok
            },
    }
}

/// Finds a value for each parameter.
pub fn insert_parameters(
    parameters: &Vec<Parameter>,
    schemas: &StringMap<RefOr<Schema>>,
) -> (values: Result<Vec<String>, ExampleError>)
    requires
        schemas.wf(),
    ensures
        are_parameter_values(parameters@, schemas@, values),
{
    let mut values: Vec<String> = Vec::new();
    let mut i: usize = 0;
    while i < parameters.len()
        invariant
            i <= parameters@.len(),
            schemas.wf(),
            values@.len() == i,
            forall|j: int|
                0 <= j < i ==> (parameter_default(
                    #[trigger] parameters@[j],
                    schemas@,
                ) matches Ok(value) && is_default(values@[j]@, value)),
        decreases parameters@.len() - i,
    {
        assert(parameters@[i as int] == parameters[i as int]);
        let schema = match &parameters[i].schema {
            Some(schema) => schema,
            None => {
                return Err(ExampleError::MissingParameterSchema);
            },
        };
        let schema = match resolve_schema(schema, schemas) {
            Ok(schema) => schema,
            Err(error) => {
                return Err(error);
            },
        };
        match get_default_parameter_value(schema) {
            Ok(value) => {
                values.push(value);
            },
            Err(error) => {
                return Err(error);
            },
        }
        i += 1;
    }
    Ok(values)
}

/// The name of a method.
pub open spec fn method_name(method: PathItemType) -> Seq<char> {
    match method {
        PathItemType::Get => "GET"@,
        PathItemType::Post => "POST"@,
        PathItemType::Put => "PUT"@,
        PathItemType::Delete => "DELETE"@,
        PathItemType::Options => "OPTIONS"@,
        PathItemType::Head => "HEAD"@,
        PathItemType::Patch => "PATCH"@,
        PathItemType::Trace => "TRACE"@,
        PathItemType::Connect => "CONNECT"@,
    }
}

/// An example that can be tried out.
pub struct RunnableExample<'a, B> {
    pub http_method: PathItemType,
    pub uri: &'a String,
    pub parameters: &'a Option<Vec<Parameter>>,
    pub body: &'a B,
    pub with_auth: bool,
}

/// A request, in parts. There is no address if it depends on parameters.
pub struct RequestParts<'a, B> {
    pub method: &'static str,
    pub uri: Option<&'a String>,
    pub bearer_token: Option<String>,
    pub content_type: &'static str,
    pub body: &'a B,
}

impl<'a, B> RunnableExample<'a, B> {
    /// The name of the method.
    pub fn get_http_method(&self) -> (name: &'static str)
        ensures
            name@ == method_name(self.http_method),
    {
        match self.http_method {
            PathItemType::Get => "GET",
            PathItemType::Post => "POST",
            PathItemType::Put => "PUT",
            PathItemType::Delete => "DELETE",
            PathItemType::Options => "OPTIONS",
            PathItemType::Head => "HEAD",
            PathItemType::Patch => "PATCH",
            PathItemType::Trace => "TRACE",
            PathItemType::Connect => "CONNECT",
        }
    }

    /// The request for the example in a session. It sends the body of the example as JSON, and the
    /// session as a bearer token if the operation asks for it.
    pub fn build_request(&self, session_id: u128, schemas: &StringMap<RefOr<Schema>>) -> (request:
        Result<RequestParts<'a, B>, ExampleError>)
        requires
            schemas.wf(),
        ensures
            match request {
                Ok(request) => {
                    &&& request.method@ == method_name(self.http_method)
                    &&& request.uri == match *self.parameters {
                        Some(_) => None::<&'a String>,
                        None => Some(self.uri),
                    }
                    &&& self.with_auth ==> request.bearer_token is Some
                        && request.bearer_token->0@ == uuid_text(session_id)
                    &&& !self.with_auth ==> request.bearer_token is None
                    &&& request.content_type@ == "application/json"@
                    &&& request.body == self.body
                    &&& *self.parameters matches Some(parameters) ==> forall|i: int|
                        0 <= i < parameters@.len() ==> parameter_default(
                            #[trigger] parameters@[i],
                            schemas@,
                        ) is Ok
                },
                Err(error) => *self.parameters matches Some(parameters) && are_parameter_values(
                    parameters@,
                    schemas@,
                    Err(error),
                ),
            },
    {
        let uri = match self.parameters {
            Some(parameters) => {
                match insert_parameters(parameters, schemas) {
                    Ok(_) => None,
                    Err(error) => {
                        return Err(error);
                    },
                }
            },
            None => Some(self.uri),
        };
        let bearer_token = if self.with_auth {
            Some(uuid_to_string(session_id))
        } else {
            None
        };
        Ok(
            RequestParts {
                method: self.get_http_method(),
                uri,
                bearer_token,
                content_type: "application/json",
                body: self.body,
            },
        )
    }
}

/// What to report if a response says that the body of an example was not understood.
pub fn check_for_deserialization_error(
    status: u16,
    error: &str,
    method: &str,
    path: &str,
) -> (report: Option<String>)
    ensures
        report is Some <==> status == 400 && error@ == "BodyDeserializeError"@,
        report matches Some(report) ==> report@ == "The example at "@ + method@ + " "@ + path@
            + " threw an BodyDeserializeError"@,
{
    if status == 400 && same_text(error, "BodyDeserializeError") {
        Some(
            "The example at ".to_owned().concat(method).concat(" ").concat(path).concat(
                " threw an BodyDeserializeError",
            ),
        )
    } else {
        None
    }
}

/// A step of trying out the examples.
pub enum ExampleStep<'a, B> {
    Run(RunnableExample<'a, B>),
    /// An example that is referred to; such examples are not supported.
    UnsupportedReference,
}

/// The operation that examples belong to.
pub struct ExampleContext<'a> {
    pub http_method: PathItemType,
    pub uri: &'a String,
    pub parameters: &'a Option<Vec<Parameter>>,
    pub with_auth: bool,
}

impl<'a> ExampleContext<'a> {
    pub open spec fn run_spec<B>(self, body: &'a B) -> ExampleStep<'a, B> {
        ExampleStep::Run(
            RunnableExample {
                http_method: self.http_method,
                uri: self.uri,
                parameters: self.parameters,
                body,
                with_auth: self.with_auth,
            },
        )
    }

    fn run<B>(&self, body: &'a B) -> (step: ExampleStep<'a, B>)
        ensures
            step == self.run_spec(body),
    {
        ExampleStep::Run(
            RunnableExample {
                http_method: self.http_method,
                uri: self.uri,
                parameters: self.parameters,
                body,
                with_auth: self.with_auth,
            },
        )
    }
}

/// The steps for a list of examples. Examples that are found elsewhere are skipped.
pub open spec fn examples_steps<'a, B>(
    context: ExampleContext<'a>,
    examples: Seq<(String, RefOr<Example<B>>)>,
) -> Seq<ExampleStep<'a, B>>
    decreases examples.len(),
{
    if examples.len() == 0 {
        Seq::empty()
    } else {
        let before = examples_steps(context, examples.drop_last());
        match examples.last().1 {
            RefOr::Ref(_) => before.push(ExampleStep::UnsupportedReference),
            RefOr::T(Example { value: Some(body) }) => before.push(context.run_spec(&body)),
            RefOr::T(Example { value: None }) => before,
        }
    }
}

/// The steps for contents: the one example of a content or else all of its examples.
pub open spec fn contents_steps<'a, B>(
    context: ExampleContext<'a>,
    contents: Seq<(String, Content<B>)>,
) -> Seq<ExampleStep<'a, B>>
    decreases contents.len(),
{
    if contents.len() == 0 {
        Seq::empty()
    } else {
        let content = contents.last().1;
        contents_steps(context, contents.drop_last()) + match content.example {
            Some(body) => seq![context.run_spec(&body)],
            None => examples_steps(context, content.examples@),
        }
    }
}

/// The steps for the operations of a path. Only operations with a request body have examples.
pub open spec fn operations_steps<'a, B>(
    uri: &'a String,
    operations: Seq<(PathItemType, Operation<B>)>,
) -> Seq<ExampleStep<'a, B>>
    decreases operations.len(),
{
    if operations.len() == 0 {
        Seq::empty()
    } else {
        let (http_method, operation) = operations.last();
        operations_steps(uri, operations.drop_last()) + match operation.request_body {
            Some(request_body) => contents_steps(
                ExampleContext {
                    http_method,
                    uri,
                    parameters: &operation.parameters,
                    with_auth: operation.has_security,
                },
                request_body.content@,
            ),
            None => Seq::empty(),
        }
    }
}

/// The steps for all paths.
pub open spec fn paths_steps<'a, B>(paths: Seq<(String, PathItem<B>)>) -> Seq<ExampleStep<'a, B>>
    decreases paths.len(),
{
    if paths.len() == 0 {
        Seq::empty()
    } else {
        paths_steps(paths.drop_last()) + operations_steps(
            &paths.last().0,
            paths.last().1.operations@,
        )
    }
}

fn add_examples<'a, B>(
    context: &ExampleContext<'a>,
    examples: &'a Vec<(String, RefOr<Example<B>>)>,
    steps: &mut Vec<ExampleStep<'a, B>>,
)
    ensures
        final(steps)@ == old(steps)@ + examples_steps(*context, examples@),
{
    let mut i: usize = 0;
    assert(steps@ =~= old(steps)@ + examples_steps::<B>(*context, examples@.take(0)));
    while i < examples.len()
        invariant
            i <= examples@.len(),
            steps@ == old(steps)@ + examples_steps(*context, examples@.take(i as int)),
        decreases examples@.len() - i,
    {
        assert(examples@.take(i + 1).drop_last() =~= examples@.take(i as int));
        let ghost before = steps@;
        match &examples[i].1 {
            RefOr::Ref(_) => {
                steps.push(ExampleStep::UnsupportedReference);
            },
            RefOr::T(example) => {
                if let Some(body) = &example.value {
                    steps.push(context.run(body));
                }
            },
        }
        assert(steps@ =~= old(steps)@ + examples_steps(*context, examples@.take(i + 1)));
        i += 1;
    }
    assert(examples@.take(i as int) =~= examples@);
}

fn add_contents<'a, B>(
    context: &ExampleContext<'a>,
    contents: &'a Vec<(String, Content<B>)>,
    steps: &mut Vec<ExampleStep<'a, B>>,
)
    ensures
        final(steps)@ == old(steps)@ + contents_steps(*context, contents@),
{
    let mut i: usize = 0;
    assert(steps@ =~= old(steps)@ + contents_steps::<B>(*context, contents@.take(0)));
    while i < contents.len()
        invariant
            i <= contents@.len(),
            steps@ == old(steps)@ + contents_steps(*context, contents@.take(i as int)),
        decreases contents@.len() - i,
    {
        assert(contents@.take(i + 1).drop_last() =~= contents@.take(i as int));
        let content = &contents[i].1;
        match &content.example {
            Some(body) => {
                steps.push(context.run(body));
            },
            None => {
                add_examples(context, &content.examples, steps);
            },
        }
        assert(steps@ =~= old(steps)@ + contents_steps(*context, contents@.take(i + 1)));
        i += 1;
    }
    assert(contents@.take(i as int) =~= contents@);
}

fn add_operations<'a, B>(
    uri: &'a String,
    operations: &'a Vec<(PathItemType, Operation<B>)>,
    steps: &mut Vec<ExampleStep<'a, B>>,
)
    ensures
        final(steps)@ == old(steps)@ + operations_steps(uri, operations@),
{
    let mut i: usize = 0;
    assert(steps@ =~= old(steps)@ + operations_steps::<B>(uri, operations@.take(0)));
    while i < operations.len()
        invariant
            i <= operations@.len(),
            steps@ == old(steps)@ + operations_steps(uri, operations@.take(i as int)),
        decreases operations@.len() - i,
    {
        assert(operations@.take(i + 1).drop_last() =~= operations@.take(i as int));
        let operation = &operations[i].1;
        if let Some(request_body) = &operation.request_body {
            let context = ExampleContext {
                http_method: operations[i].0,
                uri,
                parameters: &operation.parameters,
                with_auth: operation.has_security,
            };
            add_contents(&context, &request_body.content, steps);
        }
        assert(steps@ =~= old(steps)@ + operations_steps(uri, operations@.take(i + 1)));
        i += 1;
    }
    assert(operations@.take(i as int) =~= operations@);
}

/// The examples of a description, in the order in which they are tried out.
pub fn can_run_examples<B>(api: &OpenApi<B>) -> (steps: Vec<ExampleStep<'_, B>>)
    ensures
        steps@ == paths_steps(api.paths@),
{
    let mut steps: Vec<ExampleStep<'_, B>> = Vec::new();
    let mut i: usize = 0;
    assert(steps@ =~= paths_steps::<B>(api.paths@.take(0)));
    while i < api.paths.len()
        invariant
            i <= api.paths@.len(),
            steps@ == paths_steps(api.paths@.take(i as int)),
        decreases api.paths@.len() - i,
    {
        assert(api.paths@.take(i + 1).drop_last() =~= api.paths@.take(i as int));
        add_operations(&api.paths[i].0, &api.paths[i].1.operations, &mut steps);
        i += 1;
    }
    assert(api.paths@.take(i as int) =~= api.paths@);
    steps
}

} // verus!
