use bson::{Bson, Document};
use club_records::reply::{Body, Reply, WhiskyName};
use club_records::search::{search_whisky, search_whisky_request, SEARCH_LIMIT};
use club_records::store::{database_name, Collection, ScanItem, StoreFailure};

fn whisky(name: &str) -> Document {
    let mut document = Document::new();
    document.insert("name", name);
    document.insert("age", "16");
    document.insert("strength", "43%");
    document.insert("bottle_size", "70cl");
    document.insert("year_bottled", "2019");
    document
}

fn names(list: &[&str]) -> Reply {
    Reply {
        status: 200,
        body: Body::Whiskies(
            list.iter().map(|name| WhiskyName { name: name.to_string() }).collect(),
        ),
    }
}

#[test]
fn search_limit_is_ten() {
    assert_eq!(SEARCH_LIMIT, 10);
}

#[test]
fn store_names() {
    assert_eq!(database_name(), "philosophy_club");
    assert_eq!(Collection::Members.name(), "members");
    assert_eq!(Collection::Whiskies.name(), "whiskies");
}

#[test]
fn search_request_goes_to_whiskies_in_two_stages() {
    let request = search_whisky_request("Laga");
    assert_eq!(request.collection, Collection::Whiskies);
    assert_eq!(request.pipeline.len(), 2);
}

#[test]
fn search_stage_names_index_query_path_and_token_order() {
    let request = search_whisky_request("Laga");
    let stage = &request.pipeline[0];
    assert_eq!(stage.keys().collect::<Vec<&String>>(), vec!["$search"]);
    let search = stage.get_document("$search").unwrap();
    assert_eq!(search.keys().collect::<Vec<&String>>(), vec!["index", "autocomplete"]);
    assert_eq!(search.get_str("index"), Ok("whiskies_idx"));
    let autocomplete = search.get_document("autocomplete").unwrap();
    assert_eq!(
        autocomplete.keys().collect::<Vec<&String>>(),
        vec!["query", "path", "tokenOrder"]
    );
    assert_eq!(autocomplete.get_str("query"), Ok("Laga"));
    assert_eq!(autocomplete.get_str("path"), Ok("name"));
    assert_eq!(autocomplete.get_str("tokenOrder"), Ok("sequential"));
}

#[test]
fn search_stage_hands_the_query_on_as_it_is() {
    let request = search_whisky_request("16 Lagavulin");
    let autocomplete = request.pipeline[0]
        .get_document("$search")
        .unwrap()
        .get_document("autocomplete")
        .unwrap();
    assert_eq!(autocomplete.get_str("query"), Ok("16 Lagavulin"));
    assert_eq!(autocomplete.get_str("tokenOrder"), Ok("sequential"));
}

#[test]
fn search_stage_takes_an_empty_query() {
    let request = search_whisky_request("");
    let autocomplete = request.pipeline[0]
        .get_document("$search")
        .unwrap()
        .get_document("autocomplete")
        .unwrap();
    assert_eq!(autocomplete.get_str("query"), Ok(""));
}

#[test]
fn limit_stage_cuts_at_ten() {
    let request = search_whisky_request("Laga");
    let stage = &request.pipeline[1];
    assert_eq!(stage.len(), 1);
    assert_eq!(stage.get("$limit"), Some(&Bson::Int32(10)));
}

#[test]
fn search_surfaces_the_name_only() {
    let scan = vec![ScanItem::Found(whisky("Lagavulin 16"))];
    assert_eq!(search_whisky(Ok(scan)), names(&["Lagavulin 16"]));
}

#[test]
fn search_keeps_scan_order() {
    let scan = vec![
        ScanItem::Found(whisky("Lagavulin 16")),
        ScanItem::Found(whisky("Lagavulin 8")),
        ScanItem::Found(whisky("Laphroaig 10")),
    ];
    assert_eq!(search_whisky(Ok(scan)), names(&["Lagavulin 16", "Lagavulin 8", "Laphroaig 10"]));
}

#[test]
fn search_with_no_result_is_empty() {
    assert_eq!(search_whisky(Ok(Vec::new())), names(&[]));
}

#[test]
fn search_drops_document_without_name() {
    let mut nameless = Document::new();
    nameless.insert("age", "12");
    let mut numbered = Document::new();
    numbered.insert("name", 12);
    let scan = vec![
        ScanItem::Found(nameless),
        ScanItem::Found(whisky("Talisker 10")),
        ScanItem::Found(numbered),
    ];
    assert_eq!(search_whisky(Ok(scan)), names(&["Talisker 10"]));
}

#[test]
fn search_goes_on_after_failed_read() {
    let scan = vec![
        ScanItem::Unreadable,
        ScanItem::Found(whisky("Talisker 10")),
        ScanItem::Unreadable,
    ];
    assert_eq!(search_whisky(Ok(scan)), names(&["Talisker 10"]));
}

#[test]
fn search_of_ten_results_keeps_all() {
    let scan: Vec<ScanItem> =
        (0..10).map(|n| ScanItem::Found(whisky(&format!("Cask {}", n)))).collect();
    let expected: Vec<String> = (0..10).map(|n| format!("Cask {}", n)).collect();
    let expected: Vec<&str> = expected.iter().map(|name| name.as_str()).collect();
    assert_eq!(search_whisky(Ok(scan)), names(&expected));
}

#[test]
fn search_never_replies_with_more_than_ten() {
    let scan: Vec<ScanItem> =
        (0..25).map(|n| ScanItem::Found(whisky(&format!("Cask {}", n)))).collect();
    let expected: Vec<String> = (0..10).map(|n| format!("Cask {}", n)).collect();
    let expected: Vec<&str> = expected.iter().map(|name| name.as_str()).collect();
    assert_eq!(search_whisky(Ok(scan)), names(&expected));
}

#[test]
fn search_counts_names_not_steps_towards_the_limit() {
    let mut scan: Vec<ScanItem> = Vec::new();
    for n in 0..12 {
        scan.push(ScanItem::Unreadable);
        scan.push(ScanItem::Found(Document::new()));
        scan.push(ScanItem::Found(whisky(&format!("Cask {}", n))));
    }
    match search_whisky(Ok(scan)).body {
        Body::Whiskies(found) => {
            assert_eq!(found.len(), 10);
            assert_eq!(found[9].name, "Cask 9");
        }
        other => panic!("no list of whiskies: {:?}", other),
    }
}

#[test]
fn search_reports_store_failure() {
    assert_eq!(
        search_whisky(Err(StoreFailure)),
        Reply { status: 500, body: Body::Text("Failed to execute search query".to_string()) }
    );
}
