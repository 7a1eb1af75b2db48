//! The three requests on the club's members: add one, list all, delete one.
//!
//! Each request is one exchange with the store. A function whose name ends in
//! `_request` says what the store is asked; the function named after the
//! request makes the reply from what the store handed back.

use vstd::prelude::*;
use vstd::seq_lib::to_multiset_insert;
use crate::document::{document_entries, holds_all, text_at, Entry};
use crate::member::{
    lemma_filter_matches_by_name, lemma_stored_member_reads_back, member_document,
    member_entries, member_in, member_of, name_filter, name_filter_entries, name_key, status_key,
    Member, MemberView,
};
use crate::reply::{done, failed, listed, member_views, Reply, STATUS_OK};
use crate::store::{scan_view, Collection, DeleteOne, Find, InsertOne, ScanItem, StoreFailure};

verus! {

/// The member that one step of a scan yields: a read that failed yields
/// none, and neither does a document that stands for no member.
pub open spec fn member_of_item(item: Option<Seq<Entry>>) -> Option<MemberView> {
    match item {
        Some(entries) => member_in(entries),
        None => None,
    }
}

/// The members that a scan yields, in the order of the scan.
pub open spec fn members_of(items: Seq<Option<Seq<Entry>>>) -> Seq<MemberView>
    decreases items.len(),
{
    if items.len() == 0 {
        Seq::empty()
    } else {
        let earlier = members_of(items.drop_last());
        match member_of_item(items.last()) {
            Some(member) => earlier.push(member),
            None => earlier,
        }
    }
}

/// What the store is asked on a request to add `member`: to store the
/// document that stands for it among the members.
pub fn add_member_request(member: &Member) -> (request: InsertOne)
    ensures
        request.collection == Collection::Members,
        document_entries(request.document) == member_entries(member@),
{
    InsertOne { collection: Collection::Members, document: member_document(member) }
}

/// The reply to a request to add a member, from how the store fared.
pub fn add_member(outcome: Result<(), StoreFailure>) -> (reply: Reply)
    ensures
        reply@ == match outcome {
            Ok(_) => done("Member added"@),
            Err(_) => failed("Failed to execute insert query"@),
        },
{
    match outcome {
        Ok(_) => Reply::done("Member added"),
        Err(_) => Reply::failed("Failed to execute insert query"),
    }
}

/// What the store is asked on a request to delete the member named `name`:
/// to delete one document among the members whose name is exactly `name`.
pub fn delete_member_request(name: &str) -> (request: DeleteOne)
    ensures
        request.collection == Collection::Members,
        document_entries(request.filter) == name_filter_entries(name@),
{
    DeleteOne { collection: Collection::Members, filter: name_filter(name) }
}

/// The reply to a request to delete a member, from the number of documents
/// that the store deleted: the request succeeds whether or not there was one.
pub fn delete_member(outcome: Result<u64, StoreFailure>) -> (reply: Reply)
    ensures
        reply@ == match outcome {
            Ok(_) => done("Member deleted"@),
            Err(_) => failed("Failed to execute delete query"@),
        },
{
    match outcome {
        Ok(_) => Reply::done("Member deleted"),
        Err(_) => Reply::failed("Failed to execute delete query"),
    }
}

/// What the store is asked on a request to list the members: to scan them all.
pub fn list_members_request() -> (request: Find)
    ensures
        request.collection == Collection::Members,
{
    Find { collection: Collection::Members }
}

/// The reply to a request to list the members, from the scan: the members
/// that its documents stand for, in the order of the scan. A read that
/// failed and a document that stands for no member are passed over; only a
/// scan that could not start fails the request.
pub fn list_members(scan: Result<Vec<ScanItem>, StoreFailure>) -> (reply: Reply)
    ensures
        reply@ == match scan {
            Ok(items) => listed(members_of(scan_view(items@))),
            Err(_) => failed("Failed to execute find query"@),
        },
        scan is Ok ==> reply@.status == STATUS_OK,
{
    let items = match scan {
        Ok(items) => items,
        Err(_) => {
            return Reply::failed("Failed to execute find query");
        },
    };
    let ghost steps = scan_view(items@);
    let mut members: Vec<Member> = Vec::new();
    let mut i: usize = 0;
    while i < items.len()
        invariant
            i <= items.len(),
            steps == scan_view(items@),
            member_views(members@) == members_of(steps.take(i as int)),
        decreases items.len() - i,
    {
        let ghost before = members@;
        match &items[i] {
            ScanItem::Found(document) => {
                match member_of(document) {
                    Some(member) => {
                        members.push(member);
                        assert(member_views(members@) =~= member_views(before).push(member@));
                    },
                    None => {},
                }
            },
            ScanItem::Unreadable => {},
        }
        proof {
            assert(steps.take(i + 1).drop_last() =~= steps.take(i as int));
            assert(steps.take(i + 1).last() == items@[i as int]@);
        }
        i += 1;
    }
    assert(steps.take(i as int) =~= steps);
    Reply::listed(members)
}

/// The members of a scan in two parts are those of the first part, then
/// those of the second.
pub proof fn lemma_members_of_parts(
    first: Seq<Option<Seq<Entry>>>,
    second: Seq<Option<Seq<Entry>>>,
)
    ensures
        members_of(first + second) == members_of(first) + members_of(second),
    decreases second.len(),
{
    if second.len() == 0 {
        assert(first + second =~= first);
        assert(members_of(first) + members_of(second) =~= members_of(first));
    } else {
        lemma_members_of_parts(first, second.drop_last());
        assert((first + second).drop_last() =~= first + second.drop_last());
        assert((first + second).last() == second.last());
        match member_of_item(second.last()) {
            Some(member) => {
                assert((members_of(first) + members_of(second.drop_last())).push(member)
                    =~= members_of(first) + members_of(second.drop_last()).push(member));
            },
            None => {},
        }
    }
}

/// Taking one step out of a scan takes the member that the step yields out
/// of its place in the list, and changes nothing else.
pub proof fn lemma_members_without_step(items: Seq<Option<Seq<Entry>>>, at: int)
    requires
        0 <= at < items.len(),
    ensures
        members_of(items.take(at)).len() <= members_of(items.remove(at)).len(),
        members_of(items) == match member_of_item(items[at]) {
            Some(member) => members_of(items.remove(at)).insert(
                members_of(items.take(at)).len() as int,
                member,
            ),
            None => members_of(items.remove(at)),
        },
{
    let head = items.take(at);
    let tail = items.skip(at + 1);
    let one = seq![items[at]];
    assert(items =~= head + one + tail);
    assert(items.remove(at) =~= head + tail);
    lemma_members_of_parts(head, one);
    lemma_members_of_parts(head + one, tail);
    lemma_members_of_parts(head, tail);
    assert(one.drop_last() =~= Seq::<Option<Seq<Entry>>>::empty());
    assert(members_of(one.drop_last()) =~= Seq::<MemberView>::empty());
    match member_of_item(items[at]) {
        Some(member) => {
            assert(members_of(one) =~= seq![member]);
            assert(members_of(head) + seq![member] + members_of(tail) =~= (members_of(head)
                + members_of(tail)).insert(members_of(head).len() as int, member));
        },
        None => {
            assert(members_of(one) =~= Seq::<MemberView>::empty());
            assert(members_of(head) + members_of(one) =~= members_of(head));
        },
    }
}

/// A document that lacks a string under the name key or under the status
/// key changes nothing in the list: the members are those of the scan
/// without it.
pub proof fn lemma_incomplete_document_is_passed_over(items: Seq<Option<Seq<Entry>>>, at: int)
    requires
        0 <= at < items.len(),
        items[at] matches Some(entries) && (text_at(entries, name_key()) is None || text_at(
            entries,
            status_key(),
        ) is None),
    ensures
        members_of(items) == members_of(items.remove(at)),
{
    lemma_members_without_step(items, at);
}

/// A read that failed in the middle of a scan changes nothing in the list.
pub proof fn lemma_failed_read_is_passed_over(items: Seq<Option<Seq<Entry>>>, at: int)
    requires
        0 <= at < items.len(),
        items[at] is None,
    ensures
        members_of(items) == members_of(items.remove(at)),
{
    lemma_members_without_step(items, at);
}

/// Two scans that hold the same steps, in whatever order, list the same
/// members, each as often in one list as in the other.
pub proof fn lemma_listing_ignores_order(
    one: Seq<Option<Seq<Entry>>>,
    other: Seq<Option<Seq<Entry>>>,
)
    requires
        one.to_multiset() == other.to_multiset(),
    ensures
        members_of(one).to_multiset() == members_of(other).to_multiset(),
    decreases one.len(),
{
    one.to_multiset_ensures();
    other.to_multiset_ensures();
    if one.len() == 0 {
        assert(one =~= other);
    } else {
        let step = one.last();
        assert(one[one.len() - 1] == step);
        assert(one.to_multiset().count(step) > 0);
        assert(other.to_multiset().count(step) > 0);
        let at = choose|at: int| 0 <= at < other.len() && other[at] == step;
        assert(one.drop_last() =~= one.remove(one.len() - 1));
        lemma_listing_ignores_order(one.drop_last(), other.remove(at));
        lemma_members_without_step(other, at);
        match member_of_item(step) {
            Some(member) => {
                members_of(one.drop_last()).to_multiset_ensures();
                to_multiset_insert(
                    members_of(other.remove(at)),
                    members_of(other.take(at)).len() as int,
                    member,
                );
            },
            None => {},
        }
    }
}

/// Each member of a list comes from a step of the scan.
pub proof fn lemma_listed_member_has_step(items: Seq<Option<Seq<Entry>>>, member: MemberView)
    requires
        members_of(items).contains(member),
    ensures
        exists|at: int| 0 <= at < items.len() && member_of_item(#[trigger] items[at]) == Some(member),
    decreases items.len(),
{
    if items.len() > 0 {
        let earlier = members_of(items.drop_last());
        if member_of_item(items.last()) == Some(member) {
            assert(member_of_item(items[items.len() - 1]) == Some(member));
        } else {
            assert(earlier.contains(member)) by {
                let found = choose|i: int|
                    0 <= i < members_of(items).len() && members_of(items)[i] == member;
                match member_of_item(items.last()) {
                    Some(last) => {
                        assert(earlier.push(last)[found] == member);
                        assert(earlier[found] == member);
                    },
                    None => {
                        assert(earlier[found] == member);
                    },
                }
            }
            lemma_listed_member_has_step(items.drop_last(), member);
            let at = choose|at: int|
                0 <= at < items.drop_last().len() && member_of_item(
                    #[trigger] items.drop_last()[at],
                ) == Some(member);
            assert(member_of_item(items[at]) == Some(member));
        }
    }
}

/// Adding then listing. A scan that holds the steps of an earlier scan and
/// the document that the store kept of a member added since (what was handed
/// in, and whatever the store put beside it) lists that member once more
/// than the earlier scan did, and every other member as often as before. So
/// a member that was not listed before is listed exactly once.
pub proof fn lemma_added_member_is_listed(
    before: Seq<Option<Seq<Entry>>>,
    after: Seq<Option<Seq<Entry>>>,
    member: MemberView,
    stored: Seq<Entry>,
)
    requires
        holds_all(stored, member_entries(member)),
        after.to_multiset() == before.to_multiset().insert(Some(stored)),
    ensures
        members_of(after).to_multiset() == members_of(before).to_multiset().insert(member),
        members_of(after).contains(member),
        !members_of(before).contains(member) ==> members_of(after).to_multiset().count(member)
            == 1,
{
    let appended = before.push(Some(stored));
    before.to_multiset_ensures();
    assert(appended.to_multiset() =~= after.to_multiset());
    lemma_listing_ignores_order(after, appended);
    lemma_stored_member_reads_back(member, stored);
    assert(appended.drop_last() =~= before);
    assert(members_of(appended) == members_of(before).push(member));
    members_of(before).to_multiset_ensures();
    members_of(after).to_multiset_ensures();
    assert(members_of(after).to_multiset().count(member) > 0);
}

/// Deleting then listing. A scan that holds the steps of an earlier scan
/// but for one document lists the members of the earlier scan but for the
/// one that the document stood for, if it stood for any.
pub proof fn lemma_deleted_member_is_unlisted(
    before: Seq<Option<Seq<Entry>>>,
    after: Seq<Option<Seq<Entry>>>,
    deleted: Seq<Entry>,
)
    requires
        before.to_multiset() == after.to_multiset().insert(Some(deleted)),
    ensures
        members_of(before).to_multiset() == match member_in(deleted) {
            Some(member) => members_of(after).to_multiset().insert(member),
            None => members_of(after).to_multiset(),
        },
{
    let appended = after.push(Some(deleted));
    after.to_multiset_ensures();
    assert(appended.to_multiset() =~= before.to_multiset());
    lemma_listing_ignores_order(before, appended);
    assert(appended.drop_last() =~= after);
    members_of(after).to_multiset_ensures();
}

/// Adding, deleting, then listing. Where no document of the store holds a
/// name, a member of that name is added, and then one document that the
/// filter for the name matches is deleted, it is the member's document that
/// went: the store holds what it held before, and the list holds nobody of
/// that name.
pub proof fn lemma_added_then_deleted_member_is_unlisted(
    before: Seq<Option<Seq<Entry>>>,
    added: Seq<Option<Seq<Entry>>>,
    after: Seq<Option<Seq<Entry>>>,
    member: MemberView,
    stored: Seq<Entry>,
    deleted: Seq<Entry>,
)
    requires
        forall|at: int|
            0 <= at < before.len() ==> match #[trigger] before[at] {
                Some(entries) => text_at(entries, name_key()) != Some(member.name),
                None => true,
            },
        holds_all(stored, member_entries(member)),
        added.to_multiset() == before.to_multiset().insert(Some(stored)),
        holds_all(deleted, name_filter_entries(member.name)),
        added.to_multiset() == after.to_multiset().insert(Some(deleted)),
    ensures
        deleted == stored,
        after.to_multiset() == before.to_multiset(),
        members_of(after).to_multiset() == members_of(before).to_multiset(),
        forall|listed: MemberView| #[trigger]
            members_of(after).contains(listed) ==> listed.name != member.name,
{
    lemma_filter_matches_by_name(member.name, deleted);
    before.to_multiset_ensures();
    if deleted != stored {
        assert(added.to_multiset().count(Some(deleted)) > 0);
        assert(before.to_multiset().count(Some(deleted)) > 0);
        assert(before.contains(Some(deleted)));
        let at = choose|at: int| 0 <= at < before.len() && before[at] == Some(deleted);
        assert(before[at] == Some(deleted));
    }
    assert(after.to_multiset() =~= before.to_multiset()) by {
        assert(after.to_multiset() =~= added.to_multiset().remove(Some(deleted)));
    }
    lemma_listing_ignores_order(after, before);
    assert forall|listed: MemberView| #[trigger]
        members_of(after).contains(listed) implies listed.name != member.name by {
        members_of(after).to_multiset_ensures();
        members_of(before).to_multiset_ensures();
        assert(members_of(after).to_multiset().count(listed) > 0);
        assert(members_of(before).to_multiset().count(listed) > 0);
        lemma_listed_member_has_step(before, listed);
        let at = choose|at: int|
            0 <= at < before.len() && member_of_item(#[trigger] before[at]) == Some(listed);
        assert(before[at] is Some);
    }
}

} // verus!
