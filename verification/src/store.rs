//! The document store, as far as the service speaks to it: where its
//! collections are, what it is asked, and what it hands back.

use vstd::prelude::*;
use bson::Document;
use crate::document::{document_entries, Entry};

verus! {

/// The name of the database that holds both collections.
pub open spec fn database_name_text() -> Seq<char> {
    "philosophy_club"@
}

/// The name of the database that holds both collections.
pub fn database_name() -> (name: &'static str)
    ensures
        name@ == database_name_text(),
{
    "philosophy_club"
}

/// A collection of the database.
#[derive(Clone, Copy, Debug, PartialEq, Eq, Structural)]
pub enum Collection {
    Members,
    Whiskies,
}

impl Collection {
    /// The name of the collection in the database.
    pub open spec fn name_text(self) -> Seq<char> {
        match self {
            Collection::Members => "members"@,
            Collection::Whiskies => "whiskies"@,
        }
    }

    /// The name of the collection in the database.
    pub fn name(self) -> (name: &'static str)
        ensures
            name@ == self.name_text(),
    {
        match self {
            Collection::Members => "members",
            Collection::Whiskies => "whiskies",
        }
    }
}

/// The store could not carry out what it was asked.
#[derive(Clone, Copy, Debug, PartialEq, Eq, Structural)]
pub struct StoreFailure;

/// One step of a scan: a document, or a read that failed.
#[derive(Debug, PartialEq)]
pub enum ScanItem {
    Found(Document),
    Unreadable,
}

impl View for ScanItem {
    type V = Option<Seq<Entry>>;

    /// The entries of the document that was found, if one was.
    open spec fn view(&self) -> Option<Seq<Entry>> {
        match self {
            ScanItem::Found(document) => Some(document_entries(*document)),
            ScanItem::Unreadable => None,
        }
    }
}

/// The steps of a scan, each by its view.
pub open spec fn scan_view(items: Seq<ScanItem>) -> Seq<Option<Seq<Entry>>> {
    items.map_values(|item: ScanItem| item@)
}

/// A request to store one document in a collection.
#[derive(Debug, PartialEq)]
pub struct InsertOne {
    pub collection: Collection,
    pub document: Document,
}

/// A request to delete one document that matches a filter.
#[derive(Debug, PartialEq)]
pub struct DeleteOne {
    pub collection: Collection,
    pub filter: Document,
}

/// A request to scan a whole collection.
#[derive(Clone, Copy, Debug, PartialEq, Eq, Structural)]
pub struct Find {
    pub collection: Collection,
}

/// A request to run a pipeline of stages over a collection.
#[derive(Debug, PartialEq)]
pub struct Aggregate {
    pub collection: Collection,
    pub pipeline: Vec<Document>,
}

/// The stages of a pipeline, each by its entries.
pub open spec fn pipeline_view(stages: Seq<Document>) -> Seq<Seq<Entry>> {
    stages.map_values(|stage: Document| document_entries(stage))
}

} // verus!
