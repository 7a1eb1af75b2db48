//! Documents of the store, seen as ordered lists of keyed entries.
//!
//! A `bson::Document` is opaque to the verifier. Its contents go by the name
//! [`document_entries`], and the functions at the end of this file are the
//! only places where a document is made, filled or read; their contracts are
//! taken on trust from the `bson` crate.

use vstd::prelude::*;
use bson::Document;

verus! {

/// What an entry of a document holds, as far as this library reads or writes it.
pub enum FieldValue {
    /// A UTF-8 string.
    Text(Seq<char>),
    /// A 32-bit signed integer.
    Int32(i32),
    /// An embedded document, by its entries.
    Nested(Seq<Entry>),
    /// Any other kind of value.
    Other,
}

/// One keyed entry of a document.
pub struct Entry {
    pub key: Seq<char>,
    pub value: FieldValue,
}

/// The entry that holds the text `text` under `key`.
pub open spec fn text_entry(key: Seq<char>, text: Seq<char>) -> Entry {
    Entry { key, value: FieldValue::Text(text) }
}

/// The value of the first entry of `entries` whose key is `key`.
pub open spec fn value_at(entries: Seq<Entry>, key: Seq<char>) -> Option<FieldValue>
    decreases entries.len(),
{
    if entries.len() == 0 {
        None
    } else if entries.first().key == key {
        Some(entries.first().value)
    } else {
        value_at(entries.drop_first(), key)
    }
}

/// The text held under `key`, where the entry exists and holds a string.
pub open spec fn text_at(entries: Seq<Entry>, key: Seq<char>) -> Option<Seq<char>> {
    match value_at(entries, key) {
        Some(FieldValue::Text(text)) => Some(text),
        _ => None,
    }
}

/// Whether `entries` holds, under each key of `wanted`, the value that
/// `wanted` holds there; under other keys it may hold anything. This is how
/// a filter of plain values matches a document, and how a document that was
/// stored stands to the one that was handed in.
pub open spec fn holds_all(entries: Seq<Entry>, wanted: Seq<Entry>) -> bool {
    forall|i: int|
        0 <= i < wanted.len() ==> value_at(entries, (#[trigger] wanted[i]).key) == Some(
            wanted[i].value,
        )
}

/// `entries` after `value` was stored under `key`: an entry with that key
/// keeps its place and takes the new value; otherwise a new entry comes last.
pub open spec fn with_entry(entries: Seq<Entry>, key: Seq<char>, value: FieldValue) -> Seq<Entry>
    decreases entries.len(),
{
    if entries.len() == 0 {
        seq![Entry { key, value }]
    } else if entries.first().key == key {
        entries.update(0, Entry { key, value })
    } else {
        seq![entries.first()] + with_entry(entries.drop_first(), key, value)
    }
}

/// Storing a value under a key that no entry has puts a new entry last.
pub proof fn lemma_new_key_comes_last(entries: Seq<Entry>, key: Seq<char>, value: FieldValue)
    requires
        forall|i: int| 0 <= i < entries.len() ==> (#[trigger] entries[i]).key != key,
    ensures
        with_entry(entries, key, value) == entries.push(Entry { key, value }),
    decreases entries.len(),
{
    if entries.len() == 0 {
        assert(entries.push(Entry { key, value }) =~= seq![Entry { key, value }]);
    } else {
        let rest = entries.drop_first();
        assert forall|i: int| 0 <= i < rest.len() implies (#[trigger] rest[i]).key != key by {
            assert(rest[i] == entries[i + 1]);
        }
        lemma_new_key_comes_last(rest, key, value);
        assert(entries.first().key != key);
        assert(seq![entries.first()] + rest.push(Entry { key, value }) =~= entries.push(
            Entry { key, value },
        ));
    }
}

/// Makes `bson::Document` known to the verifier, as a type it cannot look into.
#[verifier::external_type_specification]
#[verifier::external_body]
pub struct ExDocument(bson::Document);

/// The entries of a document, in the document's own order.
pub uninterp spec fn document_entries(document: Document) -> Seq<Entry>;

/// `bson::Document::new`: the document it makes holds no entry.
#[verifier::external_body]
pub(crate) fn new_document() -> (document: Document)
    ensures
        document_entries(document) == Seq::<Entry>::empty(),
{
    Document::new()
}

/// `bson::Document::insert` with a string as the value: an entry under `key`
/// keeps its place in the order and now holds the string; where there was
/// none, the new entry is the last one.
#[verifier::external_body]
pub(crate) fn insert_text(document: &mut Document, key: &str, text: &str)
    ensures
        document_entries(*final(document)) == with_entry(
            document_entries(*old(document)),
            key@,
            FieldValue::Text(text@),
        ),
{
    document.insert(key, text);
}

/// `bson::Document::insert` with an `i32` as the value: as for a string, and
/// the entry holds the number as a 32-bit integer.
#[verifier::external_body]
pub(crate) fn insert_int32(document: &mut Document, key: &str, number: i32)
    ensures
        document_entries(*final(document)) == with_entry(
            document_entries(*old(document)),
            key@,
            FieldValue::Int32(number),
        ),
{
    document.insert(key, number);
}

/// `bson::Document::insert` with a document as the value: as for a string,
/// and the entry holds the document, entry for entry.
#[verifier::external_body]
pub(crate) fn insert_nested(document: &mut Document, key: &str, nested: Document)
    ensures
        document_entries(*final(document)) == with_entry(
            document_entries(*old(document)),
            key@,
            FieldValue::Nested(document_entries(nested)),
        ),
{
    document.insert(key, nested);
}

/// `bson::Document::get_str`: the string under `key`, and nothing where the
/// document has no such entry or the entry holds a value of another kind.
#[verifier::external_body]
pub(crate) fn get_text(document: &Document, key: &str) -> (text: Option<String>)
    ensures
        match text {
            Some(found) => text_at(document_entries(*document), key@) == Some(found@),
            None => text_at(document_entries(*document), key@) is None,
        },
{
    match document.get_str(key) {
        Ok(found) => Some(found.to_string()),
        Err(_) => None,
    }
}

} // verus!
