//! The list of models.

use crate::config::value::AnankeMetadata;
use vstd::prelude::*;
use vstd::string::*;

verus! {

/// What a service is used for.
#[derive(Debug, Clone, Copy, PartialEq, Eq, Structural)]
pub enum Modality {
    Chat,
    Embedding,
    Transcription,
}

impl Default for Modality {
    fn default() -> (r: Self)
        ensures
            r == Modality::Chat,
    {
        Modality::Chat
    }
}

impl Modality {
    /// Whether it is the default, which clients are not told.
    pub fn is_chat(&self) -> (r: bool)
        ensures
            r == (*self == Modality::Chat),
    {
        match self {
            Modality::Chat => true,
            _ => false,
        }
    }
}

/// One model.
#[derive(Debug)]
pub struct ModelListing {
    /// The service that serves it.
    pub id: String,
    pub object: String,
    pub created: u64,
    pub owned_by: String,
    pub modality: Modality,
    /// What clients are told of it.
    pub ananke_metadata: AnankeMetadata,
}

impl ModelListing {
    /// The listing of a service, with what the API fixes filled in.
    pub fn new(id: String, modality: Modality, ananke_metadata: AnankeMetadata) -> (r: Self)
        ensures
            r.id == id,
            r.object@ == "model"@,
            r.created == 0,
            r.owned_by@ == "ananke"@,
            r.modality == modality,
            r.ananke_metadata == ananke_metadata,
    {
        ModelListing {
            id,
            object: "model".to_owned(),
            created: 0,
            owned_by: "ananke".to_owned(),
            modality,
            ananke_metadata,
        }
    }
}

/// All models.
#[derive(Debug)]
pub struct ModelsResponse {
    pub object: String,
    pub data: Vec<ModelListing>,
}

impl ModelsResponse {
    /// The response that lists `data`.
    pub fn new(data: Vec<ModelListing>) -> (r: Self)
        ensures
            r.object@ == "list"@,
            r.data == data,
    {
        ModelsResponse { object: "list".to_owned(), data }
    }
}

} // verus!
