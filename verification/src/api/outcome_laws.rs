//! What the outcome of resolving a description says about its parts.

use vstd::prelude::*;
use vstd::utf8::{encode_utf8, encode_utf8_valid_utf8};

use crate::api::openapi::{
    schema_prefix, Content, OpenApi, Operation, Parameter, PathItem, PathItemType, RefOr, Response,
    Schema,
};
use crate::api::resolve::{
    api_outcome, contents_outcome, first_failure, items_outcome,
    law_refs_from_names_have_these_names, operation_outcome, operations_outcome,
    parameters_outcome, paths_outcome, properties_outcome, ref_outcome, response_outcome,
    responses_outcome, schema_name, schema_outcome, Outcome,
};

verus! {

/// Everything is resolved exactly if each part is. Otherwise the first part that is not decides.
pub open spec fn is_first_failure_of(outcome: Outcome, parts: Seq<Outcome>) -> bool {
    match outcome {
        Outcome::Resolved => forall|i: int|
            0 <= i < parts.len() ==> (#[trigger] parts[i]) is Resolved,
        _ => exists|i: int|
            {
                &&& 0 <= i < parts.len()
                &&& #[trigger] parts[i] == outcome
                &&& forall|j: int| 0 <= j < i ==> (#[trigger] parts[j]) is Resolved
            },
    }
}

proof fn lemma_first_of_more(first: Outcome, rest: Outcome, parts: Seq<Outcome>)
    requires
        parts.len() > 0,
        parts[0] == first,
        is_first_failure_of(rest, parts.skip(1)),
    ensures
        is_first_failure_of(first_failure(first, rest), parts),
{
    let others = parts.skip(1);
    if first is Resolved {
        if rest is Resolved {
            assert forall|i: int| 0 <= i < parts.len() implies (#[trigger] parts[i]) is Resolved by {
                if i > 0 {
                    assert(others[i - 1] == parts[i]);
                }
            }
        } else {
            let i = choose|i: int|
                {
                    &&& 0 <= i < others.len()
                    &&& #[trigger] others[i] == rest
                    &&& forall|j: int| 0 <= j < i ==> (#[trigger] others[j]) is Resolved
                };
            assert(parts[i + 1] == rest);
            assert forall|j: int| 0 <= j < i + 1 implies (#[trigger] parts[j]) is Resolved by {
                if j > 0 {
                    assert(others[j - 1] == parts[j]);
                }
            }
        }
    } else {
        assert(parts[0] == first);
    }
}

proof fn lemma_two_lists(first: Outcome, a: Seq<Outcome>, second: Outcome, b: Seq<Outcome>)
    requires
        is_first_failure_of(first, a),
        is_first_failure_of(second, b),
    ensures
        is_first_failure_of(first_failure(first, second), a + b),
{
    let both = a + b;
    if first is Resolved {
        if second is Resolved {
            assert forall|i: int| 0 <= i < both.len() implies (#[trigger] both[i]) is Resolved by {
                if i < a.len() {
                    assert(both[i] == a[i]);
                } else {
                    assert(both[i] == b[i - a.len()]);
                }
            }
        } else {
            let i = choose|i: int|
                {
                    &&& 0 <= i < b.len()
                    &&& #[trigger] b[i] == second
                    &&& forall|j: int| 0 <= j < i ==> (#[trigger] b[j]) is Resolved
                };
            assert(both[a.len() + i] == second);
            assert forall|j: int| 0 <= j < a.len() + i implies (#[trigger] both[j]) is Resolved by {
                if j < a.len() {
                    assert(both[j] == a[j]);
                } else {
                    assert(both[j] == b[j - a.len()]);
                }
            }
        }
    } else {
        let i = choose|i: int|
            {
                &&& 0 <= i < a.len()
                &&& #[trigger] a[i] == first
                &&& forall|j: int| 0 <= j < i ==> (#[trigger] a[j]) is Resolved
            };
        assert(both[i] == first);
        assert forall|j: int| 0 <= j < i implies (#[trigger] both[j]) is Resolved by {
            assert(both[j] == a[j]);
        }
    }
}

/// A reference to a schema by its name is resolved exactly if there is a schema with this name. If there
/// is none, the reference is reported. What is too short to have a name is malformed.
pub proof fn law_references_lead_to_schemas(
    name: Seq<char>,
    ref_location: Seq<char>,
    known: Set<Seq<char>>,
)
    ensures
        schema_prefix() == "#/components/schemas/"@,
        known.contains(name) ==> ref_outcome("#/components/schemas/"@ + name, known) is Resolved,
        !known.contains(name) ==> ref_outcome("#/components/schemas/"@ + name, known)
            == Outcome::UnknownSchema("#/components/schemas/"@ + name),
        encode_utf8(ref_location).len() < 21 ==> ref_outcome(ref_location, known)
            == Outcome::MalformedRef(ref_location),
        schema_name(ref_location) is None ==> ref_outcome(ref_location, known)
            == Outcome::MalformedRef(ref_location),
        schema_name(ref_location) matches Some(referred) ==> ref_outcome(ref_location, known)
            == if known.contains(referred) {
            Outcome::Resolved
        } else {
            Outcome::UnknownSchema(ref_location)
        },
{
    law_refs_from_names_have_these_names(name);
    encode_utf8_valid_utf8(ref_location);
}

/// A schema is resolved exactly if all that it consists of is: the items of a list, the properties of an
/// object and then what else it may have, and each of several schemas. The first part that is not
/// resolved decides. Other kinds of schemas are not known.
pub proof fn law_schemas_are_resolved_by_their_parts(schema: RefOr<Schema>, known: Set<Seq<char>>)
    ensures
        match schema {
            RefOr::Ref(reference) => schema_outcome(schema, known) == ref_outcome(
                reference.ref_location@,
                known,
            ),
            RefOr::T(Schema::Array(array)) => schema_outcome(schema, known) == schema_outcome(
                *array.items,
                known,
            ),
            RefOr::T(Schema::Object(object)) => is_first_failure_of(
                schema_outcome(schema, known),
                Seq::new(
                    object.properties@.len(),
                    |i: int| schema_outcome(object.properties@[i].1, known),
                ) + match object.additional_properties {
                    Some(additional) => seq![schema_outcome(*additional, known)],
                    None => Seq::empty(),
                },
            ),
            RefOr::T(Schema::OneOf(items)) => is_first_failure_of(
                schema_outcome(schema, known),
                Seq::new(items@.len(), |i: int| schema_outcome(items@[i], known)),
            ),
            RefOr::T(Schema::AllOf(items)) => is_first_failure_of(
                schema_outcome(schema, known),
                Seq::new(items@.len(), |i: int| schema_outcome(items@[i], known)),
            ),
            RefOr::T(Schema::Unknown) => schema_outcome(schema, known) is UnknownSchemaType,
        },
{
    match schema {
        RefOr::T(Schema::Object(object)) => {
            let properties = Seq::new(
                object.properties@.len(),
                |i: int| schema_outcome(object.properties@[i].1, known),
            );
            lemma_properties(object.properties@, known);
            match object.additional_properties {
                Some(additional) => {
                    let more = seq![schema_outcome(*additional, known)];
                    assert(more[0] == schema_outcome(*additional, known));
                    assert(is_first_failure_of(schema_outcome(*additional, known), more));
                    lemma_two_lists(
                        properties_outcome(object.properties@, known),
                        properties,
                        schema_outcome(*additional, known),
                        more,
                    );
                },
                None => {
                    lemma_two_lists(
                        properties_outcome(object.properties@, known),
                        properties,
                        Outcome::Resolved,
                        Seq::empty(),
                    );
                },
            }
        },
        RefOr::T(Schema::OneOf(items)) => {
            lemma_items(items@, known);
        },
        RefOr::T(Schema::AllOf(items)) => {
            lemma_items(items@, known);
        },
        _ => {},
    }
}

proof fn lemma_properties(properties: Seq<(String, RefOr<Schema>)>, known: Set<Seq<char>>)
    ensures
        is_first_failure_of(
            properties_outcome(properties, known),
            Seq::new(properties.len(), |i: int| schema_outcome(properties[i].1, known)),
        ),
    decreases properties.len(),
{
    let parts = Seq::new(properties.len(), |i: int| schema_outcome(properties[i].1, known));
    if properties.len() > 0 {
        let rest = properties.subrange(1, properties.len() as int);
        lemma_properties(rest, known);
        assert(parts.skip(1) =~= Seq::new(
            rest.len(),
            |i: int| schema_outcome(rest[i].1, known),
        ));
        lemma_first_of_more(
            schema_outcome(properties[0].1, known),
            properties_outcome(rest, known),
            parts,
        );
    }
}

proof fn lemma_items(items: Seq<RefOr<Schema>>, known: Set<Seq<char>>)
    ensures
        is_first_failure_of(
            items_outcome(items, known),
            Seq::new(items.len(), |i: int| schema_outcome(items[i], known)),
        ),
    decreases items.len(),
{
    let parts = Seq::new(items.len(), |i: int| schema_outcome(items[i], known));
    if items.len() > 0 {
        let rest = items.subrange(1, items.len() as int);
        lemma_items(rest, known);
        assert(parts.skip(1) =~= Seq::new(rest.len(), |i: int| schema_outcome(rest[i], known)));
        lemma_first_of_more(schema_outcome(items[0], known), items_outcome(rest, known), parts);
    }
}

/// Contents are resolved exactly if the schema of each of them is.
pub proof fn law_contents_are_resolved_one_by_one<B>(
    contents: Seq<(String, Content<B>)>,
    known: Set<Seq<char>>,
)
    ensures
        is_first_failure_of(
            contents_outcome(contents, known),
            Seq::new(contents.len(), |i: int| schema_outcome(contents[i].1.schema, known)),
        ),
    decreases contents.len(),
{
    let parts = Seq::new(contents.len(), |i: int| schema_outcome(contents[i].1.schema, known));
    if contents.len() > 0 {
        let rest = contents.skip(1);
        law_contents_are_resolved_one_by_one(rest, known);
        assert(parts.skip(1) =~= Seq::new(
            rest.len(),
            |i: int| schema_outcome(rest[i].1.schema, known),
        ));
        lemma_first_of_more(
            schema_outcome(contents[0].1.schema, known),
            contents_outcome(rest, known),
            parts,
        );
    }
}

/// Parameters are resolved exactly if the schema of each of them is, as far as they have one.
pub proof fn law_parameters_are_resolved_one_by_one(
    parameters: Seq<Parameter>,
    known: Set<Seq<char>>,
)
    ensures
        is_first_failure_of(
            parameters_outcome(parameters, known),
            Seq::new(
                parameters.len(),
                |i: int|
                    match parameters[i].schema {
                        Some(schema) => schema_outcome(schema, known),
                        None => Outcome::Resolved,
                    },
            ),
        ),
    decreases parameters.len(),
{
    let parts = Seq::new(
        parameters.len(),
        |i: int|
            match parameters[i].schema {
                Some(schema) => schema_outcome(schema, known),
                None => Outcome::Resolved,
            },
    );
    if parameters.len() > 0 {
        let rest = parameters.skip(1);
        law_parameters_are_resolved_one_by_one(rest, known);
        assert(parts.skip(1) =~= Seq::new(
            rest.len(),
            |i: int|
                match rest[i].schema {
                    Some(schema) => schema_outcome(schema, known),
                    None => Outcome::Resolved,
                },
        ));
        lemma_first_of_more(parts[0], parameters_outcome(rest, known), parts);
    }
}

/// Responses are resolved exactly if each of them is: by its reference or by its contents.
pub proof fn law_responses_are_resolved_one_by_one<B>(
    responses: Seq<(String, RefOr<Response<B>>)>,
    known: Set<Seq<char>>,
)
    ensures
        is_first_failure_of(
            responses_outcome(responses, known),
            Seq::new(
                responses.len(),
                |i: int|
                    match responses[i].1 {
                        RefOr::Ref(reference) => ref_outcome(reference.ref_location@, known),
                        RefOr::T(response) => contents_outcome(response.content@, known),
                    },
            ),
        ),
    decreases responses.len(),
{
    let parts = Seq::new(
        responses.len(),
        |i: int|
            match responses[i].1 {
                RefOr::Ref(reference) => ref_outcome(reference.ref_location@, known),
                RefOr::T(response) => contents_outcome(response.content@, known),
            },
    );
    if responses.len() > 0 {
        let rest = responses.skip(1);
        law_responses_are_resolved_one_by_one(rest, known);
        assert(parts.skip(1) =~= Seq::new(
            rest.len(),
            |i: int|
                match rest[i].1 {
                    RefOr::Ref(reference) => ref_outcome(reference.ref_location@, known),
                    RefOr::T(response) => contents_outcome(response.content@, known),
                },
        ));
        assert(response_outcome(responses[0].1, known) == parts[0]);
        lemma_first_of_more(parts[0], responses_outcome(rest, known), parts);
    }
}

/// An operation is resolved exactly if its request body, its parameters and its responses are. They are
/// gone through in this order.
pub proof fn law_operations_are_resolved_by_their_parts<B>(
    operation: Operation<B>,
    known: Set<Seq<char>>,
)
    ensures
        is_first_failure_of(
            operation_outcome(operation, known),
            seq![
                match operation.request_body {
                    Some(request_body) => contents_outcome(request_body.content@, known),
                    None => Outcome::Resolved,
                },
                match operation.parameters {
                    Some(parameters) => parameters_outcome(parameters@, known),
                    None => Outcome::Resolved,
                },
                responses_outcome(operation.responses@, known),
            ],
        ),
{
    let parts = seq![
        match operation.request_body {
            Some(request_body) => contents_outcome(request_body.content@, known),
            None => Outcome::Resolved,
        },
        match operation.parameters {
            Some(parameters) => parameters_outcome(parameters@, known),
            None => Outcome::Resolved,
        },
        responses_outcome(operation.responses@, known),
    ];
    let outcome = operation_outcome(operation, known);
    assert(outcome is Resolved ==> parts[0] is Resolved && parts[1] is Resolved
        && parts[2] is Resolved);
    if !(outcome is Resolved) {
        let i: int = if !(parts[0] is Resolved) {
            0
        } else if !(parts[1] is Resolved) {
            1
        } else {
            2
        };
        assert(parts[i] == outcome);
    }
}

/// The operations of a path are resolved exactly if each of them is.
pub proof fn law_operations_are_resolved_one_by_one<B>(
    operations: Seq<(PathItemType, Operation<B>)>,
    known: Set<Seq<char>>,
)
    ensures
        is_first_failure_of(
            operations_outcome(operations, known),
            Seq::new(operations.len(), |i: int| operation_outcome(operations[i].1, known)),
        ),
    decreases operations.len(),
{
    let parts = Seq::new(operations.len(), |i: int| operation_outcome(operations[i].1, known));
    if operations.len() > 0 {
        let rest = operations.skip(1);
        law_operations_are_resolved_one_by_one(rest, known);
        assert(parts.skip(1) =~= Seq::new(
            rest.len(),
            |i: int| operation_outcome(rest[i].1, known),
        ));
        lemma_first_of_more(parts[0], operations_outcome(rest, known), parts);
    }
}

/// A description is resolved exactly if the operations of each path are, with the schemas of its
/// components. It has to have components.
pub proof fn law_descriptions_are_resolved_path_by_path<B>(api: OpenApi<B>)
    ensures
        match api.components {
            Some(components) => is_first_failure_of(
                api_outcome(api),
                Seq::new(
                    api.paths@.len(),
                    |i: int|
                        operations_outcome(
                            api.paths@[i].1.operations@,
                            components.schemas@.dom(),
                        ),
                ),
            ),
            None => api_outcome(api) is MissingComponents,
        },
{
    if let Some(components) = api.components {
        lemma_paths(api.paths@, components.schemas@.dom());
    }
}

proof fn lemma_paths<B>(paths: Seq<(String, PathItem<B>)>, known: Set<Seq<char>>)
    ensures
        is_first_failure_of(
            paths_outcome(paths, known),
            Seq::new(paths.len(), |i: int| operations_outcome(paths[i].1.operations@, known)),
        ),
    decreases paths.len(),
{
    let parts = Seq::new(
        paths.len(),
        |i: int| operations_outcome(paths[i].1.operations@, known),
    );
    if paths.len() > 0 {
        let rest = paths.skip(1);
        lemma_paths(rest, known);
        assert(parts.skip(1) =~= Seq::new(
            rest.len(),
            |i: int| operations_outcome(rest[i].1.operations@, known),
        ));
        lemma_first_of_more(parts[0], paths_outcome(rest, known), parts);
    }
}

} // verus!
