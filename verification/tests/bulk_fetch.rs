use rustcord::bulk_fetch::default_cards_uri;
use rustcord::bulk_fetch::BulkAction;
use rustcord::bulk_fetch::BulkEvent;
use rustcord::bulk_fetch::BulkFetch;
use rustcord::data::BulkDataEntry;
use rustcord::error::ScryfallError;

fn plan(local_cache: bool) -> BulkFetch {
    BulkFetch { base_url: "https://api.scryfall.com".to_string(), local_cache }
}

fn entry(data_type: &str, uri: &str) -> BulkDataEntry {
    BulkDataEntry { data_type: data_type.to_string(), jsonl_download_uri: uri.to_string() }
}

fn is_lookup(action: BulkAction) -> bool {
    matches!(action, BulkAction::FetchManifest(url) if url == "https://api.scryfall.com/bulk-data")
}

#[test]
fn a_cached_copy_is_used() {
    let plan = plan(true);
    assert!(matches!(plan.next(BulkEvent::Started), BulkAction::FindCache));
    assert!(matches!(plan.next(BulkEvent::CacheFound(Some(4))), BulkAction::LoadCache(4)));
    let action = plan.next(BulkEvent::CacheLoaded(Some(vec![1, 2])));
    assert!(matches!(action, BulkAction::Parse { bytes, save_first: false } if bytes == vec![1, 2]));
}

#[test]
fn without_a_copy_the_files_are_looked_up() {
    assert!(is_lookup(plan(false).next(BulkEvent::Started)));
    assert!(is_lookup(plan(true).next(BulkEvent::CacheFound(None))));
    assert!(is_lookup(plan(true).next(BulkEvent::CacheLoaded(None))));
}

#[test]
fn the_first_file_of_default_cards_is_downloaded() {
    let entries = vec![
        entry("oracle_cards", "o"),
        entry("default_cards", "first"),
        entry("default_cards", "second"),
    ];
    assert_eq!(default_cards_uri(&entries).unwrap(), "first");
    let action = plan(false).next(BulkEvent::Manifest(Ok(entries)));
    assert!(matches!(action, BulkAction::Download(uri) if uri == "first"));
}

#[test]
fn a_list_without_default_cards_is_a_parse_error() {
    let entries = vec![entry("default_card", "a"), entry("Default_cards", "b")];
    assert!(matches!(default_cards_uri(&entries), Err(ScryfallError::ParseError)));
    let action = plan(true).next(BulkEvent::Manifest(Ok(entries)));
    assert!(matches!(action, BulkAction::Fail(ScryfallError::ParseError)));
}

#[test]
fn errors_end_the_fetch() {
    let action = plan(true).next(BulkEvent::Manifest(Err(ScryfallError::HTTPError("gone".to_string()))));
    assert!(matches!(action, BulkAction::Fail(ScryfallError::HTTPError(why)) if why == "gone"));
    let action = plan(true).next(BulkEvent::Downloaded(Err(ScryfallError::ParseError)));
    assert!(matches!(action, BulkAction::Fail(ScryfallError::ParseError)));
}

#[test]
fn only_a_download_is_put_into_the_cache() {
    let action = plan(true).next(BulkEvent::Downloaded(Ok(vec![7])));
    assert!(matches!(action, BulkAction::Parse { bytes, save_first: true } if bytes == vec![7]));
    let action = plan(false).next(BulkEvent::Downloaded(Ok(vec![7])));
    assert!(matches!(action, BulkAction::Parse { bytes, save_first: false } if bytes == vec![7]));
}
