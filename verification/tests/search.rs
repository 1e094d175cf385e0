use rustcord::cards::all_cards;
use rustcord::cards::storage_records;
use rustcord::data::ScryfallData;
use rustcord::error::ScryfallError;
use rustcord::error::ScryfallResult;
use rustcord::search::search_url;
use rustcord::search::CardSearch;
use rustcord::source::Scryfall;

fn page(data: Vec<u32>, next: Option<&str>) -> ScryfallResult<ScryfallData<u32>> {
    Ok(ScryfallData { data, next_page: next.map(|next| next.to_string()) })
}

fn lost() -> ScryfallResult<ScryfallData<u32>> {
    Err(ScryfallError::ParseError)
}

fn names(names: &[&str]) -> Vec<String> {
    names.iter().map(|name| name.to_string()).collect()
}

#[test]
fn a_set_is_searched_by_its_abbreviation() {
    assert_eq!(
        search_url("https://api.scryfall.com", "blb"),
        "https://api.scryfall.com/cards/search?q=e:blb"
    );
}

#[test]
fn sets_are_collected_page_by_page() {
    let search: CardSearch<u32> = Scryfall::new().card_search(names(&["blb", "tsp"]));
    assert_eq!(search.next_page().unwrap(), "https://api.scryfall.com/cards/search?q=e:blb");
    let search = search.take_page(page(vec![1, 2], Some("p2")));
    assert_eq!(search.next_page().unwrap(), "p2");
    let search = search.take_page(page(vec![3], None));
    assert_eq!(search.next_page().unwrap(), "https://api.scryfall.com/cards/search?q=e:tsp");
    let search = search.take_page(page(vec![4], None));
    assert_eq!(search.next_page(), None);
    assert_eq!(search.into_cards(), vec![1, 2, 3, 4]);
}

#[test]
fn a_lost_page_ends_only_its_set() {
    let search: CardSearch<u32> = CardSearch::new("b".to_string(), names(&["x", "y", "z"]));
    let search = search.take_page(page(vec![1], Some("p2")));
    let search = search.take_page(lost());
    assert_eq!(search.next_page().unwrap(), "b/cards/search?q=e:y");
    let search = search.take_page(lost());
    let search = search.take_page(page(vec![9], None));
    assert_eq!(search.next_page(), None);
    assert_eq!(search.into_cards(), vec![1, 9]);
}

#[test]
fn no_sets_need_no_pages() {
    let search: CardSearch<u32> = CardSearch::new("b".to_string(), vec![]);
    assert_eq!(search.next_page(), None);
    assert!(search.into_cards().is_empty());
}

fn twice_if_even(card: u32) -> Option<Vec<u32>> {
    if card % 2 == 0 {
        Some(vec![card, card])
    } else {
        None
    }
}

#[test]
fn cards_without_records_are_passed_over() {
    assert_eq!(storage_records(vec![1, 2, 3, 4], twice_if_even), vec![2, 2, 4, 4]);
    assert_eq!(storage_records(vec![0], |_: u32| Some(Vec::<u32>::new())), Vec::<u32>::new());
}

#[test]
fn records_of_parts_add_up() {
    let mut parts = storage_records(vec![2, 3], twice_if_even);
    parts.extend(storage_records(vec![4], twice_if_even));
    assert_eq!(storage_records(vec![2, 3, 4], twice_if_even), parts);
}

#[test]
fn a_failed_bulk_fetch_gives_no_records() {
    assert_eq!(all_cards(Ok(vec![2]), twice_if_even), vec![2, 2]);
    assert!(all_cards(Err(ScryfallError::ParseError), twice_if_even).is_empty());
}

#[test]
fn a_search_tells_which_set_it_is_at() {
    let search: CardSearch<u32> = CardSearch::new("b".to_string(), names(&["x", "y"]));
    assert_eq!(search.current_set(), 0);
    let search = search.take_page(page(vec![1], Some("p2")));
    assert_eq!(search.current_set(), 0);
    let search = search.take_page(page(vec![2], None));
    assert_eq!(search.current_set(), 1);
    let search = search.take_page(lost());
    assert_eq!(search.current_set(), 2);
    assert_eq!(search.next_page(), None);
}
