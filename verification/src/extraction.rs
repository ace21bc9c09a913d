//! What a model extracted from a passage: the entities it declared and the
//! facts it wrote about them.

use vstd::prelude::*;

use crate::json::{Json, JsonView, Member};
use crate::single::Single;

verus! {

/// A declared entity. Facts may refer to it by its local handle.
#[derive(Debug)]
pub struct ExtractedEntity {
    pub local_id: Option<String>,
    pub name: String,
    pub type_key: String,
    pub specific_type: Option<String>,
}

/// A fact as the model wrote it: a relation to an object, or a value.
#[derive(Debug)]
pub struct ExtractedFact {
    pub subject: String,
    pub subject_ref: Option<String>,
    pub predicate: String,
    pub object: Option<String>,
    pub object_ref: Option<String>,
    pub value: Option<Json>,
    /// Attributes of the edge, in the order in which they are walked.
    pub qualifiers: Option<Vec<Member>>,
    pub valid_from: Option<String>,
    pub valid_to: Option<String>,
    pub confidence: Option<Single>,
    pub quote: Option<String>,
    pub subject_span: Option<String>,
    pub object_span: Option<String>,
}

#[derive(Debug)]
pub struct Extraction {
    pub entities: Vec<ExtractedEntity>,
    pub facts: Vec<ExtractedFact>,
    pub skipped_entities: usize,
    pub skipped_facts: usize,
    pub truncated: bool,
}

/// What an [`ExtractedEntity`] holds.
pub struct EntityView {
    pub local_id: Option<Seq<char>>,
    pub name: Seq<char>,
    pub type_key: Seq<char>,
    pub specific_type: Option<Seq<char>>,
}

/// What an [`ExtractedFact`] holds.
pub struct FactView {
    pub subject: Seq<char>,
    pub subject_ref: Option<Seq<char>>,
    pub predicate: Seq<char>,
    pub object: Option<Seq<char>>,
    pub object_ref: Option<Seq<char>>,
    pub value: Option<JsonView>,
    pub qualifiers: Option<Seq<(Seq<char>, JsonView)>>,
    pub valid_from: Option<Seq<char>>,
    pub valid_to: Option<Seq<char>>,
    pub confidence: Option<Single>,
    pub quote: Option<Seq<char>>,
    pub subject_span: Option<Seq<char>>,
    pub object_span: Option<Seq<char>>,
}

/// What an [`Extraction`] holds.
pub struct ExtractionView {
    pub entities: Seq<EntityView>,
    pub facts: Seq<FactView>,
    pub skipped_entities: usize,
    pub skipped_facts: usize,
    pub truncated: bool,
}

impl DeepView for ExtractedEntity {
    type V = EntityView;

    open spec fn deep_view(&self) -> EntityView {
        EntityView {
            local_id: self.local_id.deep_view(),
            name: self.name@,
            type_key: self.type_key@,
            specific_type: self.specific_type.deep_view(),
        }
    }
}

impl DeepView for ExtractedFact {
    type V = FactView;

    open spec fn deep_view(&self) -> FactView {
        FactView {
            subject: self.subject@,
            subject_ref: self.subject_ref.deep_view(),
            predicate: self.predicate@,
            object: self.object.deep_view(),
            object_ref: self.object_ref.deep_view(),
            value: self.value.deep_view(),
            qualifiers: self.qualifiers.deep_view(),
            valid_from: self.valid_from.deep_view(),
            valid_to: self.valid_to.deep_view(),
            confidence: self.confidence,
            quote: self.quote.deep_view(),
            subject_span: self.subject_span.deep_view(),
            object_span: self.object_span.deep_view(),
        }
    }
}

impl DeepView for Extraction {
    type V = ExtractionView;

    open spec fn deep_view(&self) -> ExtractionView {
        ExtractionView {
            entities: self.entities.deep_view(),
            facts: self.facts.deep_view(),
            skipped_entities: self.skipped_entities,
            skipped_facts: self.skipped_facts,
            truncated: self.truncated,
        }
    }
}

} // verus!
