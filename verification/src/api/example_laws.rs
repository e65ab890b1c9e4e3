//! What the examples of a description are tried out with.

use vstd::prelude::*;

use crate::api::examples::{
    are_parameter_values, contents_steps, default_value, examples_steps, is_default, method_name,
    operations_steps, parameter_default, paths_steps, resolved_schema, DefaultValue,
    ExampleContext, ExampleError, ExampleStep, RunnableExample,
};
use crate::api::openapi::{
    Content, Example, Operation, Parameter, PathItem, PathItemType, RefOr, Schema, SchemaFormat,
    SchemaType,
};
use crate::api::resolve::{law_refs_from_names_have_these_names, schema_name};
use crate::ids::is_random_uuid_text;

verus! {

/// Numbers, truth values and texts without a format have a fixed value, and UUIDs are random. There is
/// no value for anything else.
pub proof fn law_default_values(schema: Schema, text: Seq<char>)
    ensures
        match schema {
            Schema::Object(object) => match default_value(schema) {
                Ok(value) => {
                    &&& object.schema_type is Integer || object.schema_type is Number ==> (
                    is_default(text, value) <==> text == "42"@)
                    &&& object.schema_type is Boolean ==> (is_default(text, value) <==> text
                        == "false"@)
                    &&& object.schema_type is Text ==> (is_default(text, value) <==> (
                    match object.format {
                        None => text == "asdf"@,
                        Some(format) => format is Uuid && is_random_uuid_text(text),
                    }))
                    &&& !(object.schema_type is Object) && !(object.schema_type is Value) && !(
                    object.schema_type is Array)
                },
                Err(error) => {
                    &&& error is UnsupportedParameter
                    &&& match object.schema_type {
                        SchemaType::Object => true,
                        SchemaType::Value => true,
                        SchemaType::Array => true,
                        SchemaType::Text => object.format is Some && !(object.format->0 is Uuid),
                        _ => false,
                    }
                },
            },
            _ => default_value(schema) == Err::<DefaultValue, ExampleError>(
                ExampleError::UnsupportedParameter,
            ),
        },
{
}

/// A parameter has the default value of its schema. The schema may be referred to by its name, but what
/// is referred to must not be a reference again.
pub proof fn law_parameters_have_the_value_of_their_schema(
    parameter: Parameter,
    schemas: Map<Seq<char>, RefOr<Schema>>,
    name: Seq<char>,
)
    ensures
        match parameter.schema {
            None => parameter_default(parameter, schemas) == Err::<DefaultValue, ExampleError>(
                ExampleError::MissingParameterSchema,
            ),
            Some(RefOr::T(schema)) => {
                &&& parameter_default(parameter, schemas) == default_value(schema)
                &&& resolved_schema(RefOr::T(schema), schemas) == Ok::<Schema, ExampleError>(schema)
            },
            Some(RefOr::Ref(reference)) => {
                let resolved = resolved_schema(RefOr::Ref(reference), schemas);
                &&& reference.ref_location@ == "#/components/schemas/"@ + name ==> {
                    &&& !schemas.contains_key(name) ==> parameter_default(parameter, schemas)
                        == Err::<DefaultValue, ExampleError>(ExampleError::UnknownSchema)
                        && resolved == Err::<Schema, ExampleError>(ExampleError::UnknownSchema)
                    &&& schemas.contains_key(name) ==> match schemas[name] {
                        RefOr::Ref(_) => parameter_default(parameter, schemas) == Err::<
                            DefaultValue,
                            ExampleError,
                        >(ExampleError::RecursiveRef) && resolved == Err::<Schema, ExampleError>(
                            ExampleError::RecursiveRef,
                        ),
                        RefOr::T(schema) => parameter_default(parameter, schemas)
                            == default_value(schema) && resolved == Ok::<Schema, ExampleError>(
                            schema,
                        ),
                    }
                }
                &&& schema_name(reference.ref_location@) is None ==> resolved == Err::<
                    Schema,
                    ExampleError,
                >(ExampleError::UnknownSchema)
            },
        },
{
    law_refs_from_names_have_these_names(name);
}

/// Either each parameter gets a value that is a default for it, in their order, or the first one without
/// a default is reported.
pub proof fn law_each_parameter_gets_a_value(
    parameters: Seq<Parameter>,
    schemas: Map<Seq<char>, RefOr<Schema>>,
    values: Result<Vec<String>, ExampleError>,
    i: int,
)
    requires
        are_parameter_values(parameters, schemas, values),
        0 <= i < parameters.len(),
    ensures
        values matches Ok(values) ==> values@.len() == parameters.len() && (parameter_default(
            parameters[i],
            schemas,
        ) matches Ok(value) && is_default(values@[i]@, value)),
        parameter_default(parameters[i], schemas) is Err ==> values is Err,
        parameter_default(parameters[i], schemas) is Err && (forall|j: int|
            0 <= j < i ==> parameter_default(#[trigger] parameters[j], schemas) is Ok)
            ==> values->Err_0 == parameter_default(parameters[i], schemas)->Err_0,
{
    assert(parameters[i] == parameters[i]);
    if values is Err {
        let k = choose|k: int|
            {
                &&& 0 <= k < parameters.len()
                &&& parameter_default(#[trigger] parameters[k], schemas) == Err::<
                    DefaultValue,
                    ExampleError,
                >(values->Err_0)
                &&& forall|j: int|
                    0 <= j < k ==> parameter_default(#[trigger] parameters[j], schemas) is Ok
            };
        if k < i {
            assert(parameter_default(parameters[k], schemas) is Err);
        }
        if i < k {
            assert(parameter_default(parameters[i], schemas) is Ok);
        }
    }
}

/// The names of the methods.
pub proof fn law_method_names()
    ensures
        method_name(PathItemType::Get) == "GET"@,
        method_name(PathItemType::Post) == "POST"@,
        method_name(PathItemType::Put) == "PUT"@,
        method_name(PathItemType::Delete) == "DELETE"@,
        method_name(PathItemType::Options) == "OPTIONS"@,
        method_name(PathItemType::Head) == "HEAD"@,
        method_name(PathItemType::Patch) == "PATCH"@,
        method_name(PathItemType::Trace) == "TRACE"@,
        method_name(PathItemType::Connect) == "CONNECT"@,
{
}

/// What is gone through one after the other gives one step after the other.
pub proof fn law_steps_follow_the_description<'a, B>(
    context: ExampleContext<'a>,
    uri: &'a String,
    examples: Seq<(String, RefOr<Example<B>>)>,
    more_examples: Seq<(String, RefOr<Example<B>>)>,
    contents: Seq<(String, Content<B>)>,
    more_contents: Seq<(String, Content<B>)>,
    operations: Seq<(PathItemType, Operation<B>)>,
    more_operations: Seq<(PathItemType, Operation<B>)>,
    paths: Seq<(String, PathItem<B>)>,
    more_paths: Seq<(String, PathItem<B>)>,
)
    ensures
        examples_steps(context, examples + more_examples) == examples_steps(context, examples)
            + examples_steps(context, more_examples),
        contents_steps(context, contents + more_contents) == contents_steps(context, contents)
            + contents_steps(context, more_contents),
        operations_steps(uri, operations + more_operations) == operations_steps(uri, operations)
            + operations_steps(uri, more_operations),
        paths_steps::<B>(paths + more_paths) == paths_steps(paths) + paths_steps(more_paths),
{
    lemma_more_examples(context, examples, more_examples);
    lemma_more_contents(context, contents, more_contents);
    lemma_more_operations(uri, operations, more_operations);
    lemma_more_paths(paths, more_paths);
}

proof fn lemma_more_examples<'a, B>(
    context: ExampleContext<'a>,
    a: Seq<(String, RefOr<Example<B>>)>,
    b: Seq<(String, RefOr<Example<B>>)>,
)
    ensures
        examples_steps(context, a + b) == examples_steps(context, a) + examples_steps(context, b),
    decreases b.len(),
{
    if b.len() == 0 {
        assert(a + b =~= a);
        assert(examples_steps(context, a) + examples_steps(context, b) =~= examples_steps(
            context,
            a,
        ));
    } else {
        lemma_more_examples(context, a, b.drop_last());
        assert((a + b).drop_last() =~= a + b.drop_last());
        assert((a + b).last() == b.last());
        assert(examples_steps(context, a + b) =~= examples_steps(context, a) + examples_steps(
            context,
            b,
        ));
    }
}

proof fn lemma_more_contents<'a, B>(
    context: ExampleContext<'a>,
    a: Seq<(String, Content<B>)>,
    b: Seq<(String, Content<B>)>,
)
    ensures
        contents_steps(context, a + b) == contents_steps(context, a) + contents_steps(context, b),
    decreases b.len(),
{
    if b.len() == 0 {
        assert(a + b =~= a);
        assert(contents_steps(context, a) + contents_steps(context, b) =~= contents_steps(
            context,
            a,
        ));
    } else {
        lemma_more_contents(context, a, b.drop_last());
        assert((a + b).drop_last() =~= a + b.drop_last());
        assert((a + b).last() == b.last());
        assert(contents_steps(context, a + b) =~= contents_steps(context, a) + contents_steps(
            context,
            b,
        ));
    }
}

proof fn lemma_more_operations<'a, B>(
    uri: &'a String,
    a: Seq<(PathItemType, Operation<B>)>,
    b: Seq<(PathItemType, Operation<B>)>,
)
    ensures
        operations_steps(uri, a + b) == operations_steps(uri, a) + operations_steps(uri, b),
    decreases b.len(),
{
    if b.len() == 0 {
        assert(a + b =~= a);
        assert(operations_steps(uri, a) + operations_steps(uri, b) =~= operations_steps(uri, a));
    } else {
        lemma_more_operations(uri, a, b.drop_last());
        assert((a + b).drop_last() =~= a + b.drop_last());
        assert((a + b).last() == b.last());
        assert(operations_steps(uri, a + b) =~= operations_steps(uri, a) + operations_steps(
            uri,
            b,
        ));
    }
}

proof fn lemma_more_paths<'a, B>(a: Seq<(String, PathItem<B>)>, b: Seq<(String, PathItem<B>)>)
    ensures
        paths_steps::<'a, B>(a + b) == paths_steps(a) + paths_steps(b),
    decreases b.len(),
{
    if b.len() == 0 {
        assert(a + b =~= a);
        assert(paths_steps::<'a, B>(a) + paths_steps(b) =~= paths_steps(a));
    } else {
        lemma_more_paths(a, b.drop_last());
        assert((a + b).drop_last() =~= a + b.drop_last());
        assert((a + b).last() == b.last());
        assert(paths_steps::<'a, B>(a + b) =~= paths_steps(a) + paths_steps(b));
    }
}

/// An operation with a request body is tried out with the one example of each of its contents, or else
/// with all of its examples. Each is sent by the method of the operation to its path, with its
/// parameters, and with a session if the operation asks for one. An example that is referred to is not
/// supported, and one without a value is skipped.
pub proof fn law_steps_of_an_operation<'a, B>(
    path: (String, PathItem<B>),
    method: PathItemType,
    operation: Operation<B>,
    content: (String, Content<B>),
    example: (String, RefOr<Example<B>>),
)
    ensures
        paths_steps::<'a, B>(seq![path]) == operations_steps(&path.0, path.1.operations@),
        operation.request_body is None ==> operations_steps::<B>(
            &path.0,
            seq![(method, operation)],
        ).len() == 0,
        ({
            let context = ExampleContext {
                http_method: method,
                uri: &path.0,
                parameters: &operation.parameters,
                with_auth: operation.has_security,
            };
            &&& operation.request_body matches Some(request_body) ==> operations_steps(
                &path.0,
                seq![(method, operation)],
            ) == contents_steps(context, request_body.content@)
            &&& contents_steps(context, seq![content]) == match content.1.example {
                Some(body) => seq![
                    ExampleStep::Run(
                        RunnableExample {
                            http_method: method,
                            uri: &path.0,
                            parameters: &operation.parameters,
                            body: &body,
                            with_auth: operation.has_security,
                        },
                    ),
                ],
                None => examples_steps(context, content.1.examples@),
            }
            &&& examples_steps(context, seq![example]) == match example.1 {
                RefOr::Ref(_) => seq![ExampleStep::UnsupportedReference],
                RefOr::T(concrete) => match concrete.value {
                    Some(body) => seq![
                        ExampleStep::Run(
                            RunnableExample {
                                http_method: method,
                                uri: &path.0,
                                parameters: &operation.parameters,
                                body: &body,
                                with_auth: operation.has_security,
                            },
                        ),
                    ],
                    None => Seq::empty(),
                },
            }
        }),
{
    let context = ExampleContext {
        http_method: method,
        uri: &path.0,
        parameters: &operation.parameters,
        with_auth: operation.has_security,
    };
    let no_paths = Seq::<(String, PathItem<B>)>::empty();
    assert(paths_steps::<'a, B>(no_paths) =~= Seq::empty());
    assert(seq![path].drop_last() =~= no_paths);
    assert(seq![path].last() == path);
    assert(paths_steps::<'a, B>(seq![path]) =~= operations_steps(&path.0, path.1.operations@));
    let no_operations = Seq::<(PathItemType, Operation<B>)>::empty();
    assert(operations_steps(&path.0, no_operations) =~= Seq::empty());
    assert(seq![(method, operation)].drop_last() =~= no_operations);
    assert(seq![(method, operation)].last() == (method, operation));
    if let Some(request_body) = operation.request_body {
        assert(operations_steps(&path.0, seq![(method, operation)]) =~= contents_steps(
            context,
            request_body.content@,
        ));
    }
    let no_contents = Seq::<(String, Content<B>)>::empty();
    assert(contents_steps(context, no_contents) =~= Seq::empty());
    assert(seq![content].drop_last() =~= no_contents);
    assert(seq![content].last() == content);
    if content.1.example is None {
        assert(contents_steps(context, seq![content]) =~= examples_steps(
            context,
            content.1.examples@,
        ));
    }
    let no_examples = Seq::<(String, RefOr<Example<B>>)>::empty();
    assert(examples_steps(context, no_examples) =~= Seq::empty());
    assert(seq![example].drop_last() =~= no_examples);
    assert(seq![example].last() == example);
}

} // verus!
