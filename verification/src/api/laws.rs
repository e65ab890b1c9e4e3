//! What a resolved description promises as a whole.

use vstd::prelude::*;

use crate::api::openapi::{
    Content, OpenApi, Operation, Parameter, PathItem, PathItemType, RefOr, Response,
};
use crate::api::resolve::{
    all_known, api_outcome, contents_outcome, first_failure, is_known,
    law_resolved_schemas_have_known_refs, lemma_all_known_concat, operation_outcome,
    operations_outcome, parameter_outcome, parameters_outcome, paths_outcome, response_outcome,
    responses_outcome, schema_outcome, schema_refs, Outcome,
};

verus! {

/// The references in the schemas of contents.
pub open spec fn contents_refs<B>(items: Seq<(String, Content<B>)>) -> Seq<Seq<char>>
    decreases items.len(),
{
    if items.len() == 0 {
        Seq::empty()
    } else {
        schema_refs(items[0].1.schema) + contents_refs(items.skip(1))
    }
}

pub open spec fn parameter_refs(parameter: Parameter) -> Seq<Seq<char>> {
    match parameter.schema {
        Some(schema) => schema_refs(schema),
        None => Seq::empty(),
    }
}

/// The references in the schemas of parameters.
pub open spec fn parameters_refs(items: Seq<Parameter>) -> Seq<Seq<char>>
    decreases items.len(),
{
    if items.len() == 0 {
        Seq::empty()
    } else {
        parameter_refs(items[0]) + parameters_refs(items.skip(1))
    }
}

pub open spec fn response_refs<B>(response: RefOr<Response<B>>) -> Seq<Seq<char>> {
    match response {
        RefOr::Ref(reference) => seq![reference.ref_location@],
        RefOr::T(concrete) => contents_refs(concrete.content@),
    }
}

/// The references in responses.
pub open spec fn responses_refs<B>(items: Seq<(String, RefOr<Response<B>>)>) -> Seq<Seq<char>>
    decreases items.len(),
{
    if items.len() == 0 {
        Seq::empty()
    } else {
        response_refs(items[0].1) + responses_refs(items.skip(1))
    }
}

pub open spec fn operation_refs<B>(operation: Operation<B>) -> Seq<Seq<char>> {
    let request_body = match operation.request_body {
        Some(request_body) => contents_refs(request_body.content@),
        None => Seq::empty(),
    };
    let parameters = match operation.parameters {
        Some(parameters) => parameters_refs(parameters@),
        None => Seq::empty(),
    };
    request_body + parameters + responses_refs(operation.responses@)
}

/// The references in operations.
pub open spec fn operations_refs<B>(items: Seq<(PathItemType, Operation<B>)>) -> Seq<Seq<char>>
    decreases items.len(),
{
    if items.len() == 0 {
        Seq::empty()
    } else {
        operation_refs(items[0].1) + operations_refs(items.skip(1))
    }
}

/// The references in the operations of all paths.
pub open spec fn paths_refs<B>(items: Seq<(String, PathItem<B>)>) -> Seq<Seq<char>>
    decreases items.len(),
{
    if items.len() == 0 {
        Seq::empty()
    } else {
        operations_refs(items[0].1.operations@) + paths_refs(items.skip(1))
    }
}

/// If the outcome is a success, all references are known; if it is a failure, one of them is not,
/// unless a kind of schema is not known.
pub open spec fn is_outcome_of(
    outcome: Outcome,
    refs: Seq<Seq<char>>,
    known: Set<Seq<char>>,
) -> bool {
    match outcome {
        Outcome::Resolved => all_known(refs, known),
        Outcome::UnknownSchemaType => true,
        _ => !all_known(refs, known),
    }
}

proof fn lemma_first_failure(
    first: Outcome,
    first_refs: Seq<Seq<char>>,
    second: Outcome,
    second_refs: Seq<Seq<char>>,
    known: Set<Seq<char>>,
)
    requires
        is_outcome_of(first, first_refs, known),
        is_outcome_of(second, second_refs, known),
    ensures
        is_outcome_of(first_failure(first, second), first_refs + second_refs, known),
{
    lemma_all_known_concat(first_refs, second_refs, known);
}

proof fn lemma_contents<B>(items: Seq<(String, Content<B>)>, known: Set<Seq<char>>)
    ensures
        is_outcome_of(contents_outcome(items, known), contents_refs(items), known),
    decreases items.len(),
{
    if items.len() > 0 {
        let schema = items[0].1.schema;
        law_resolved_schemas_have_known_refs(schema, known);
        lemma_contents(items.skip(1), known);
        lemma_first_failure(
            schema_outcome(schema, known),
            schema_refs(schema),
            contents_outcome(items.skip(1), known),
            contents_refs(items.skip(1)),
            known,
        );
    }
}

proof fn lemma_parameters(items: Seq<Parameter>, known: Set<Seq<char>>)
    ensures
        is_outcome_of(parameters_outcome(items, known), parameters_refs(items), known),
    decreases items.len(),
{
    if items.len() > 0 {
        if let Some(schema) = items[0].schema {
            law_resolved_schemas_have_known_refs(schema, known);
        }
        lemma_parameters(items.skip(1), known);
        lemma_first_failure(
            parameter_outcome(items[0], known),
            parameter_refs(items[0]),
            parameters_outcome(items.skip(1), known),
            parameters_refs(items.skip(1)),
            known,
        );
    }
}

proof fn lemma_responses<B>(items: Seq<(String, RefOr<Response<B>>)>, known: Set<Seq<char>>)
    ensures
        is_outcome_of(responses_outcome(items, known), responses_refs(items), known),
    decreases items.len(),
{
    if items.len() > 0 {
        match items[0].1 {
            RefOr::Ref(reference) => {
                let refs = response_refs(items[0].1);
                assert(refs[0] == reference.ref_location@);
                assert(all_known(refs, known) <==> is_known(refs[0], known));
            },
            RefOr::T(concrete) => {
                lemma_contents(concrete.content@, known);
            },
        }
        lemma_responses(items.skip(1), known);
        lemma_first_failure(
            response_outcome(items[0].1, known),
            response_refs(items[0].1),
            responses_outcome(items.skip(1), known),
            responses_refs(items.skip(1)),
            known,
        );
    }
}

proof fn lemma_operation<B>(operation: Operation<B>, known: Set<Seq<char>>)
    ensures
        is_outcome_of(operation_outcome(operation, known), operation_refs(operation), known),
{
    let (body, body_refs) = match operation.request_body {
        Some(request_body) => {
            lemma_contents(request_body.content@, known);
            (contents_outcome(request_body.content@, known), contents_refs(request_body.content@))
        },
        None => (Outcome::Resolved, Seq::empty()),
    };
    let (parameters, parameters_refs) = match operation.parameters {
        Some(parameters) => {
            lemma_parameters(parameters@, known);
            (parameters_outcome(parameters@, known), parameters_refs(parameters@))
        },
        None => (Outcome::Resolved, Seq::empty()),
    };
    lemma_responses(operation.responses@, known);
    lemma_first_failure(body, body_refs, parameters, parameters_refs, known);
    lemma_first_failure(
        first_failure(body, parameters),
        body_refs + parameters_refs,
        responses_outcome(operation.responses@, known),
        responses_refs(operation.responses@),
        known,
    );
}

proof fn lemma_operations<B>(items: Seq<(PathItemType, Operation<B>)>, known: Set<Seq<char>>)
    ensures
        is_outcome_of(operations_outcome(items, known), operations_refs(items), known),
    decreases items.len(),
{
    if items.len() > 0 {
        lemma_operation(items[0].1, known);
        lemma_operations(items.skip(1), known);
        lemma_first_failure(
            operation_outcome(items[0].1, known),
            operation_refs(items[0].1),
            operations_outcome(items.skip(1), known),
            operations_refs(items.skip(1)),
            known,
        );
    }
}

proof fn lemma_paths<B>(items: Seq<(String, PathItem<B>)>, known: Set<Seq<char>>)
    ensures
        is_outcome_of(paths_outcome(items, known), paths_refs(items), known),
    decreases items.len(),
{
    if items.len() > 0 {
        lemma_operations(items[0].1.operations@, known);
        lemma_paths(items.skip(1), known);
        lemma_first_failure(
            operations_outcome(items[0].1.operations@, known),
            operations_refs(items[0].1.operations@),
            paths_outcome(items.skip(1), known),
            paths_refs(items.skip(1)),
            known,
        );
    }
}

/// A description that is resolved only refers to schemas that exist. If it has components and is not
/// resolved, one of its references is to blame, or a kind of schema that is not known.
pub proof fn law_resolved_descriptions_have_known_refs<B>(api: OpenApi<B>)
    requires
        api.components is Some,
    ensures
        is_outcome_of(
            api_outcome(api),
            paths_refs(api.paths@),
            api.components->0.schemas@.dom(),
        ),
{
    lemma_paths(api.paths@, api.components->0.schemas@.dom());
}

} // verus!
