//! The identifiers of EDR collections and layers.
//!
//! Their parts are separated by exclamation marks because some collection names contain slashes.

use vstd::prelude::*;

use crate::edr::error::EdrError;
use crate::layers::layer::{LayerCollectionId, LayerId};
use crate::util::text::{
    lemma_one_more_piece, lemma_one_piece, pieces, same_text, split, texts,
};

verus! {

/// What can be listed or loaded: all collections, one collection, one of its parameters or heights,
/// or a parameter at a height.
#[derive(Debug, PartialEq, Eq)]
#[allow(inconsistent_fields)]
pub enum EdrCollectionId {
    Collections,
    Collection { collection: String },
    ParameterOrHeight { collection: String, parameter: String },
    ParameterAndHeight { collection: String, parameter: String, height: String },
}

/// The mathematical content of an identifier.
pub enum EdrIdView {
    Collections,
    Collection(Seq<char>),
    ParameterOrHeight(Seq<char>, Seq<char>),
    ParameterAndHeight(Seq<char>, Seq<char>, Seq<char>),
}

impl View for EdrCollectionId {
    type V = EdrIdView;

    open spec fn view(&self) -> EdrIdView {
        match self {
            EdrCollectionId::Collections => EdrIdView::Collections,
            EdrCollectionId::Collection { collection } => EdrIdView::Collection(collection@),
            EdrCollectionId::ParameterOrHeight {
                collection,
                parameter,
            } => EdrIdView::ParameterOrHeight(collection@, parameter@),
            EdrCollectionId::ParameterAndHeight {
                collection,
                parameter,
                height,
            } => EdrIdView::ParameterAndHeight(collection@, parameter@, height@),
        }
    }
}

pub open spec fn separator() -> char {
    '!'
}

/// The text of an identifier.
pub open spec fn id_text(id: EdrIdView) -> Seq<char> {
    match id {
        EdrIdView::Collections => "collections"@,
        EdrIdView::Collection(collection) => "collections!"@ + collection,
        EdrIdView::ParameterOrHeight(collection, parameter) => "collections!"@ + collection + "!"@
            + parameter,
        EdrIdView::ParameterAndHeight(collection, parameter, height) => "collections!"@ + collection
            + "!"@ + parameter + "!"@ + height,
    }
}

/// The identifier with this text.
pub open spec fn parsed_id(text: Seq<char>) -> Option<EdrIdView> {
    let parts = pieces(text, separator());
    if parts[0] != "collections"@ {
        None
    } else if parts.len() == 1 {
        Some(EdrIdView::Collections)
    } else if parts.len() == 2 {
        Some(EdrIdView::Collection(parts[1]))
    } else if parts.len() == 3 {
        Some(EdrIdView::ParameterOrHeight(parts[1], parts[2]))
    } else if parts.len() == 4 {
        Some(EdrIdView::ParameterAndHeight(parts[1], parts[2], parts[3]))
    } else {
        None
    }
}

/// The name of the collection that the identifier belongs to.
pub open spec fn collection_of(id: EdrIdView) -> Option<Seq<char>> {
    match id {
        EdrIdView::Collections => None,
        EdrIdView::Collection(collection) => Some(collection),
        EdrIdView::ParameterOrHeight(collection, _) => Some(collection),
        EdrIdView::ParameterAndHeight(collection, _, _) => Some(collection),
    }
}

impl EdrCollectionId {
    /// The name of the collection that the identifier belongs to.
    pub fn get_collection_id(&self) -> (collection: Result<&String, EdrError>)
        ensures
            match collection {
                Ok(collection) => collection_of(self@) == Some(collection@),
                Err(error) => collection_of(self@) is None && error is InvalidLayerId,
            },
    {
        match self {
            EdrCollectionId::Collections => Err(EdrError::InvalidLayerId),
            EdrCollectionId::Collection { collection } => Ok(collection),
            EdrCollectionId::ParameterOrHeight { collection, .. } => Ok(collection),
            EdrCollectionId::ParameterAndHeight { collection, .. } => Ok(collection),
        }
    }

    /// The identifier with this text.
    pub fn from_str(text: &str) -> (id: Result<Self, EdrError>)
        ensures
            match id {
                Ok(id) => parsed_id(text@) == Some(id@),
                Err(error) => parsed_id(text@) is None && error is InvalidLayerCollectionId,
            },
    {
        let parts = split(text, '!');
        let ghost all = texts(parts@);
        proof {
            lemma_has_piece(text@);
        }
        assert(all[0] == parts@[0]@);
        if !same_text(parts[0].as_str(), "collections") {
            return Err(EdrError::InvalidLayerCollectionId);
        }
        if parts.len() == 1 {
            Ok(EdrCollectionId::Collections)
        } else if parts.len() == 2 {
            assert(all[1] == parts@[1]@);
            Ok(EdrCollectionId::Collection { collection: parts[1].clone() })
        } else if parts.len() == 3 {
            assert(all[1] == parts@[1]@ && all[2] == parts@[2]@);
            Ok(
                EdrCollectionId::ParameterOrHeight {
                    collection: parts[1].clone(),
                    parameter: parts[2].clone(),
                },
            )
        } else if parts.len() == 4 {
            assert(all[1] == parts@[1]@ && all[2] == parts@[2]@ && all[3] == parts@[3]@);
            Ok(
                EdrCollectionId::ParameterAndHeight {
                    collection: parts[1].clone(),
                    parameter: parts[2].clone(),
                    height: parts[3].clone(),
                },
            )
        } else {
            Err(EdrError::InvalidLayerCollectionId)
        }
    }

    /// The identifier as that of a layer collection. A parameter at a height is not a collection.
    pub fn into_layer_collection_id(self) -> (id: Result<LayerCollectionId, EdrError>)
        ensures
            match id {
                Ok(id) => !(self@ is ParameterAndHeight) && id@ == id_text(self@),
                Err(error) => self@ is ParameterAndHeight && error is InvalidLayerCollectionId,
            },
    {
        match self {
            EdrCollectionId::ParameterAndHeight { .. } => Err(EdrError::InvalidLayerCollectionId),
            _ => Ok(LayerCollectionId(self.to_text())),
        }
    }

    /// The identifier as that of a layer. The list of all collections is not a layer.
    pub fn into_layer_id(self) -> (id: Result<LayerId, EdrError>)
        ensures
            match id {
                Ok(id) => !(self@ is Collections) && id@ == id_text(self@),
                Err(error) => self@ is Collections && error is InvalidLayerId,
            },
    {
        match self {
            EdrCollectionId::Collections => Err(EdrError::InvalidLayerId),
            _ => Ok(LayerId(self.to_text())),
        }
    }

    fn to_text(&self) -> (text: String)
        ensures
            text@ == id_text(self@),
    {
        match self {
            EdrCollectionId::Collections => "collections".to_owned(),
            EdrCollectionId::Collection { collection } => "collections!".to_owned().concat(
                collection.as_str(),
            ),
            EdrCollectionId::ParameterOrHeight {
                collection,
                parameter,
            } => "collections!".to_owned().concat(collection.as_str()).concat("!").concat(
                parameter.as_str(),
            ),
            EdrCollectionId::ParameterAndHeight {
                collection,
                parameter,
                height,
            } => "collections!".to_owned().concat(collection.as_str()).concat("!").concat(
                parameter.as_str(),
            ).concat("!").concat(height.as_str()),
        }
    }
}

proof fn lemma_has_piece(text: Seq<char>)
    ensures
        pieces(text, separator()).len() > 0,
    decreases text.len(),
{
    if text.len() > 0 {
        lemma_has_piece(text.drop_last());
    }
}

/// No part of the identifier has a separator in it.
pub open spec fn has_plain_parts(id: EdrIdView) -> bool {
    match id {
        EdrIdView::Collections => true,
        EdrIdView::Collection(collection) => !collection.contains(separator()),
        EdrIdView::ParameterOrHeight(collection, parameter) => !collection.contains(separator())
            && !parameter.contains(separator()),
        EdrIdView::ParameterAndHeight(collection, parameter, height) => !collection.contains(
            separator(),
        ) && !parameter.contains(separator()) && !height.contains(separator()),
    }
}

/// An identifier can be read back from its text, as long as none of its parts has a separator in it.
pub proof fn law_ids_round_trip(id: EdrIdView)
    requires
        has_plain_parts(id),
    ensures
        parsed_id(id_text(id)) == Some(id),
{
    let s = separator();
    reveal_strlit("collections");
    reveal_strlit("collections!");
    reveal_strlit("!");
    let start = "collections"@;
    assert(!start.contains(s));
    lemma_one_piece(start, s);
    assert("collections!"@ =~= start.push(s));
    match id {
        EdrIdView::Collections => {},
        EdrIdView::Collection(collection) => {
            lemma_one_more_piece(start, s, collection);
            assert(id_text(id) =~= start.push(s) + collection);
        },
        EdrIdView::ParameterOrHeight(collection, parameter) => {
            let one = start.push(s) + collection;
            lemma_one_more_piece(start, s, collection);
            lemma_one_more_piece(one, s, parameter);
            assert(id_text(id) =~= one.push(s) + parameter);
        },
        EdrIdView::ParameterAndHeight(collection, parameter, height) => {
            let one = start.push(s) + collection;
            let two = one.push(s) + parameter;
            lemma_one_more_piece(start, s, collection);
            lemma_one_more_piece(one, s, parameter);
            lemma_one_more_piece(two, s, height);
            assert(id_text(id) =~= two.push(s) + height);
        },
    }
}

} // verus!
