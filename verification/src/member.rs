//! Club members, and how they are written to and read from documents.

use vstd::prelude::*;
use bson::Document;
use crate::document::{
    document_entries, get_text, holds_all, insert_text, lemma_new_key_comes_last, new_document,
    text_at, text_entry, Entry, FieldValue,
};

verus! {

/// A member of the club.
#[derive(Clone, Debug, PartialEq, Eq)]
pub struct Member {
    pub name: String,
    pub status: String,
}

/// A member as a pair of texts.
pub struct MemberView {
    pub name: Seq<char>,
    pub status: Seq<char>,
}

impl View for Member {
    type V = MemberView;

    open spec fn view(&self) -> MemberView {
        MemberView { name: self.name@, status: self.status@ }
    }
}

/// The key under which a document holds a member's name.
pub open spec fn name_key() -> Seq<char> {
    "name"@
}

/// The key under which a document holds a member's status.
pub open spec fn status_key() -> Seq<char> {
    "status"@
}

/// The entries of the document that stands for `member` in the store.
pub open spec fn member_entries(member: MemberView) -> Seq<Entry> {
    seq![text_entry(name_key(), member.name), text_entry(status_key(), member.status)]
}

/// The entries of the filter that matches the documents named `name`.
pub open spec fn name_filter_entries(name: Seq<char>) -> Seq<Entry> {
    seq![text_entry(name_key(), name)]
}

/// The member that a document with these entries stands for: it needs a
/// string under both keys.
pub open spec fn member_in(entries: Seq<Entry>) -> Option<MemberView> {
    match (text_at(entries, name_key()), text_at(entries, status_key())) {
        (Some(name), Some(status)) => Some(MemberView { name, status }),
        _ => None,
    }
}

/// The two keys differ.
pub proof fn lemma_keys_differ()
    ensures
        name_key() != status_key(),
{
    reveal_strlit("name");
    reveal_strlit("status");
    assert(name_key().len() == 4);
    assert(status_key().len() == 6);
}

/// The document that stands for a member reads back as that member.
pub proof fn lemma_member_reads_back(member: MemberView)
    ensures
        member_in(member_entries(member)) == Some(member),
{
    lemma_keys_differ();
    let entries = member_entries(member);
    assert(entries.drop_first() =~= seq![text_entry(status_key(), member.status)]);
    reveal_with_fuel(crate::document::value_at, 3);
}

/// A document that holds what the document of a member holds, and may hold
/// more under other keys, stands for that member.
pub proof fn lemma_stored_member_reads_back(member: MemberView, stored: Seq<Entry>)
    requires
        holds_all(stored, member_entries(member)),
    ensures
        member_in(stored) == Some(member),
{
    let wanted = member_entries(member);
    assert(wanted[0].key == name_key() && wanted[0].value == FieldValue::Text(member.name));
    assert(wanted[1].key == status_key() && wanted[1].value == FieldValue::Text(member.status));
}

/// The filter for a name matches exactly the documents that hold this name
/// as a string under the name key.
pub proof fn lemma_filter_matches_by_name(name: Seq<char>, entries: Seq<Entry>)
    ensures
        holds_all(entries, name_filter_entries(name)) <==> text_at(entries, name_key()) == Some(
            name,
        ),
{
    let filter = name_filter_entries(name);
    assert(filter[0].key == name_key() && filter[0].value == FieldValue::Text(name));
}

/// The document that stands for `member`: its name, then its status.
pub fn member_document(member: &Member) -> (document: Document)
    ensures
        document_entries(document) == member_entries(member@),
{
    let mut document = new_document();
    insert_text(&mut document, "name", member.name.as_str());
    insert_text(&mut document, "status", member.status.as_str());
    proof {
        lemma_keys_differ();
        let name = FieldValue::Text(member@.name);
        let status = FieldValue::Text(member@.status);
        lemma_new_key_comes_last(Seq::empty(), name_key(), name);
        lemma_new_key_comes_last(seq![text_entry(name_key(), member@.name)], status_key(), status);
        assert(document_entries(document) =~= member_entries(member@));
    }
    document
}

/// The filter that matches the documents named `name`.
pub fn name_filter(name: &str) -> (filter: Document)
    ensures
        document_entries(filter) == name_filter_entries(name@),
{
    let mut filter = new_document();
    insert_text(&mut filter, "name", name);
    proof {
        lemma_new_key_comes_last(Seq::empty(), name_key(), FieldValue::Text(name@));
        assert(document_entries(filter) =~= name_filter_entries(name@));
    }
    filter
}

/// Reads a member out of a document. A document that lacks a string under
/// either key stands for no member.
pub fn member_of(document: &Document) -> (member: Option<Member>)
    ensures
        match member {
            Some(found) => member_in(document_entries(*document)) == Some(found@),
            None => member_in(document_entries(*document)) is None,
        },
{
    let name = match get_text(document, "name") {
        Some(name) => name,
        None => {
            return None;
        },
    };
    let status = match get_text(document, "status") {
        Some(status) => status,
        None => {
            return None;
        },
    };
    Some(Member { name, status })
}

} // verus!
