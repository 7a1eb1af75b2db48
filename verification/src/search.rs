//! The search for whiskies by name.
//!
//! The search itself is the store's work, done by its search index. This
//! module says what the store is asked, and makes the reply from what the
//! store handed back.

use vstd::prelude::*;
use bson::Document;
use crate::document::{
    document_entries, get_text, insert_int32, insert_nested, insert_text,
    lemma_new_key_comes_last, new_document, text_at, text_entry, Entry, FieldValue,
};
use crate::reply::{failed, found, whisky_views, BodyView, Reply, WhiskyName};
use crate::store::{pipeline_view, scan_view, Aggregate, Collection, ScanItem, StoreFailure};

verus! {

/// The most whiskies that a search surfaces.
pub const SEARCH_LIMIT: usize = 10;

/// The key under which a document holds a whisky's name.
pub open spec fn whisky_name_key() -> Seq<char> {
    "name"@
}

/// How the store is to match the query against the names: as one completes
/// what is being typed, over the search index of the whiskies, with the
/// words of the query in their order.
pub open spec fn autocomplete_entries(query: Seq<char>) -> Seq<Entry> {
    seq![
        text_entry("query"@, query),
        text_entry("path"@, whisky_name_key()),
        text_entry("tokenOrder"@, "sequential"@),
    ]
}

/// The stage of the pipeline that searches.
pub open spec fn search_stage(query: Seq<char>) -> Seq<Entry> {
    seq![
        Entry {
            key: "$search"@,
            value: FieldValue::Nested(
                seq![
                    text_entry("index"@, "whiskies_idx"@),
                    Entry {
                        key: "autocomplete"@,
                        value: FieldValue::Nested(autocomplete_entries(query)),
                    },
                ],
            ),
        },
    ]
}

/// The stage of the pipeline that cuts the results at the limit.
pub open spec fn limit_stage() -> Seq<Entry> {
    seq![Entry { key: "$limit"@, value: FieldValue::Int32(SEARCH_LIMIT as i32) }]
}

/// The pipeline of a search: search, then cut at the limit.
pub open spec fn search_pipeline(query: Seq<char>) -> Seq<Seq<Entry>> {
    seq![search_stage(query), limit_stage()]
}

/// The name that one step of a scan yields: a read that failed yields none,
/// and neither does a document without a string under the name key.
pub open spec fn name_of_item(item: Option<Seq<Entry>>) -> Option<Seq<char>> {
    match item {
        Some(entries) => text_at(entries, whisky_name_key()),
        None => None,
    }
}

/// The names that a scan yields, in the order of the scan.
pub open spec fn names_of(items: Seq<Option<Seq<Entry>>>) -> Seq<Seq<char>>
    decreases items.len(),
{
    if items.len() == 0 {
        Seq::empty()
    } else {
        let earlier = names_of(items.drop_last());
        match name_of_item(items.last()) {
            Some(name) => earlier.push(name),
            None => earlier,
        }
    }
}

/// The first names of a list, as many as the limit allows.
pub open spec fn within_limit(names: Seq<Seq<char>>) -> Seq<Seq<char>> {
    if names.len() <= SEARCH_LIMIT {
        names
    } else {
        names.take(SEARCH_LIMIT as int)
    }
}

fn autocomplete_document(query: &str) -> (document: Document)
    ensures
        document_entries(document) == autocomplete_entries(query@),
{
    let mut document = new_document();
    insert_text(&mut document, "query", query);
    proof {
        lemma_new_key_comes_last(Seq::empty(), "query"@, FieldValue::Text(query@));
    }
    let ghost one = document_entries(document);
    insert_text(&mut document, "path", "name");
    proof {
        reveal_strlit("query");
        reveal_strlit("path");
        assert("query"@.len() != "path"@.len());
        lemma_new_key_comes_last(one, "path"@, FieldValue::Text("name"@));
    }
    let ghost two = document_entries(document);
    insert_text(&mut document, "tokenOrder", "sequential");
    proof {
        reveal_strlit("tokenOrder");
        assert("query"@.len() != "tokenOrder"@.len());
        assert("path"@.len() != "tokenOrder"@.len());
        lemma_new_key_comes_last(two, "tokenOrder"@, FieldValue::Text("sequential"@));
        assert(document_entries(document) =~= autocomplete_entries(query@));
    }
    document
}

fn search_stage_document(query: &str) -> (document: Document)
    ensures
        document_entries(document) == search_stage(query@),
{
    let autocomplete = autocomplete_document(query);
    let mut search = new_document();
    insert_text(&mut search, "index", "whiskies_idx");
    proof {
        lemma_new_key_comes_last(Seq::empty(), "index"@, FieldValue::Text("whiskies_idx"@));
    }
    let ghost one = document_entries(search);
    insert_nested(&mut search, "autocomplete", autocomplete);
    proof {
        reveal_strlit("index");
        reveal_strlit("autocomplete");
        assert("index"@.len() != "autocomplete"@.len());
        lemma_new_key_comes_last(
            one,
            "autocomplete"@,
            FieldValue::Nested(autocomplete_entries(query@)),
        );
    }
    let ghost inner = document_entries(search);
    let mut stage = new_document();
    insert_nested(&mut stage, "$search", search);
    proof {
        lemma_new_key_comes_last(Seq::empty(), "$search"@, FieldValue::Nested(inner));
        assert(inner =~= seq![
            text_entry("index"@, "whiskies_idx"@),
            Entry {
                key: "autocomplete"@,
                value: FieldValue::Nested(autocomplete_entries(query@)),
            },
        ]);
        assert(document_entries(stage) =~= search_stage(query@));
    }
    stage
}

fn limit_stage_document() -> (document: Document)
    ensures
        document_entries(document) == limit_stage(),
{
    let mut stage = new_document();
    insert_int32(&mut stage, "$limit", SEARCH_LIMIT as i32);
    proof {
        lemma_new_key_comes_last(
            Seq::empty(),
            "$limit"@,
            FieldValue::Int32(SEARCH_LIMIT as i32),
        );
        assert(document_entries(stage) =~= limit_stage());
    }
    stage
}

/// What the store is asked on a search for `query`: to run the search
/// pipeline over the whiskies.
pub fn search_whisky_request(query: &str) -> (request: Aggregate)
    ensures
        request.collection == Collection::Whiskies,
        pipeline_view(request.pipeline@) == search_pipeline(query@),
{
    let mut pipeline: Vec<Document> = Vec::new();
    pipeline.push(search_stage_document(query));
    pipeline.push(limit_stage_document());
    assert(pipeline_view(pipeline@) =~= search_pipeline(query@));
    Aggregate { collection: Collection::Whiskies, pipeline }
}

/// The reply to a search, from the scan of its results: the names that the
/// documents hold, in the order of the scan, and no more of them than the
/// limit allows. A read that failed and a document without a name are passed
/// over; only a search that could not start fails the request.
pub fn search_whisky(scan: Result<Vec<ScanItem>, StoreFailure>) -> (reply: Reply)
    ensures
        reply@ == match scan {
            Ok(items) => found(within_limit(names_of(scan_view(items@)))),
            Err(_) => failed("Failed to execute search query"@),
        },
        reply@.body matches BodyView::Whiskies(names) ==> names.len() <= SEARCH_LIMIT,
{
    let items = match scan {
        Ok(items) => items,
        Err(_) => {
            return Reply::failed("Failed to execute search query");
        },
    };
    let ghost steps = scan_view(items@);
    let mut whiskies: Vec<WhiskyName> = Vec::new();
    let mut i: usize = 0;
    while i < items.len()
        invariant
            i <= items.len(),
            steps == scan_view(items@),
            whisky_views(whiskies@) == within_limit(names_of(steps.take(i as int))),
        decreases items.len() - i,
    {
        let ghost before = whiskies@;
        let ghost earlier = names_of(steps.take(i as int));
        proof {
            assert(steps.take(i + 1).drop_last() =~= steps.take(i as int));
            assert(steps.take(i + 1).last() == items@[i as int]@);
        }
        match &items[i] {
            ScanItem::Found(document) => {
                match get_text(document, "name") {
                    Some(name) => {
                        if whiskies.len() < SEARCH_LIMIT {
                            whiskies.push(WhiskyName { name });
                            assert(whisky_views(whiskies@) =~= whisky_views(before).push(name@));
                        } else {
                            assert(earlier.push(name@).take(SEARCH_LIMIT as int) =~= earlier.take(
                                SEARCH_LIMIT as int,
                            ));
                            assert(earlier.len() == SEARCH_LIMIT ==> earlier.take(
                                SEARCH_LIMIT as int,
                            ) =~= earlier);
                        }
                    },
                    None => {},
                }
            },
            ScanItem::Unreadable => {},
        }
        i += 1;
    }
    assert(steps.take(i as int) =~= steps);
    Reply::found(whiskies)
}

/// A scan yields no more names than it has steps.
pub proof fn lemma_names_within_steps(items: Seq<Option<Seq<Entry>>>)
    ensures
        names_of(items).len() <= items.len(),
    decreases items.len(),
{
    if items.len() > 0 {
        lemma_names_within_steps(items.drop_last());
    }
}

/// Where the store kept to the limit that the pipeline sets, the reply holds
/// every name of the scan: nothing is cut.
pub proof fn lemma_limited_scan_is_whole(items: Seq<Option<Seq<Entry>>>)
    requires
        items.len() <= SEARCH_LIMIT,
    ensures
        within_limit(names_of(items)) == names_of(items),
{
    lemma_names_within_steps(items);
}

/// Whatever the scan holds, the names of the reply are no more than the limit.
pub proof fn lemma_reply_within_limit(items: Seq<Option<Seq<Entry>>>)
    ensures
        within_limit(names_of(items)).len() <= SEARCH_LIMIT,
{
}

} // verus!
