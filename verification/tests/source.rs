use rustcord::bulk_cache::current_cache_file_name;
use rustcord::clock::FIRST_DAY;
use rustcord::clock::LAST_DAY;
use rustcord::discord::gateway_intents;
use rustcord::error::ScryfallError;
use rustcord::rate::RateLimit;
use rustcord::response::accept_body;
use rustcord::response::after_send;
use rustcord::response::check_if_rate_limited;
use rustcord::response::downloaded_image;
use rustcord::response::AfterSend;
use rustcord::sets::current_recent_threshold;
use rustcord::sets::recent_sets;
use rustcord::sets::recent_threshold;
use rustcord::sets::recent_threshold_as_of;
use rustcord::sets::ScryfallSet;
use rustcord::source::Scryfall;

fn set(id: u128, released_at: i32, card_count: u32) -> ScryfallSet {
    ScryfallSet {
        id,
        name: format!("Set {id}"),
        abbreviation: format!("s{id}"),
        released_at,
        card_count,
        icon_svg_uri: format!("https://svgs.scryfall.io/sets/s{id}.svg?1"),
    }
}

fn sorted(sets: Vec<ScryfallSet>) -> Vec<(u128, i32)> {
    let mut ids: Vec<(u128, i32)> = sets.iter().map(|set| (set.id, set.released_at)).collect();
    ids.sort();
    ids
}

#[test]
fn a_new_source_has_its_address_and_limits() {
    let source = Scryfall::new();
    assert_eq!(source.sets_url(), "https://api.scryfall.com/sets");
    assert_eq!(source.symbology_url(), "https://api.scryfall.com/symbology");
    assert_eq!(source.bulk_fetch(true).manifest_url(), "https://api.scryfall.com/bulk-data");
    assert!(source.bulk_fetch(true).local_cache);
    assert_eq!(source.low_limit(), RateLimit { burst: 2, interval_nanos: 500_000_000 });
    assert_eq!(source.high_limit(), RateLimit { burst: 10, interval_nanos: 100_000_000 });
    assert!(source.cached_sets().is_none());
    assert!(source.known_sets().is_empty());
}

#[test]
fn a_default_source_has_no_address() {
    let source = Scryfall::default();
    assert_eq!(source.sets_url(), "/sets");
    assert_eq!(source.low_limit(), Scryfall::new().low_limit());
}

#[test]
fn recent_means_a_week() {
    assert_eq!(recent_threshold(2_458_849), 2_458_842);
    assert_eq!(recent_threshold(FIRST_DAY + 7), FIRST_DAY);
    assert_eq!(recent_threshold(LAST_DAY), LAST_DAY - 7);
    let fetched = vec![set(1, 99, 5), set(2, 100, 5), set(3, 101, 0), set(4, 500, 1)];
    let recent = recent_sets(Ok(fetched), 100).unwrap();
    assert_eq!(sorted(recent), vec![(2, 100), (4, 500)]);
}

#[test]
fn the_threshold_follows_the_clock() {
    let threshold = current_recent_threshold().unwrap();
    assert!(threshold > 2_460_000);
    assert!(threshold <= LAST_DAY - 7);
    let today = time::OffsetDateTime::now_utc().to_julian_day();
    assert!(today - threshold == 7 || today - threshold == 8);
}

#[test]
fn recent_sets_are_fetched_once() {
    let mut source = Scryfall::new();
    assert!(source.cached_sets().is_none());
    let listing = source.get_recent_sets(Ok(vec![set(1, 10, 1), set(2, 30, 1)]), 20);
    assert_eq!(sorted(listing), vec![(2, 30)]);
    assert_eq!(sorted(source.cached_sets().unwrap()), vec![(2, 30)]);
}

#[test]
fn a_failed_fetch_lists_nothing_and_changes_nothing() {
    let mut source = Scryfall::new();
    source.get_all_sets(Ok(vec![set(1, 10, 0)]));
    assert!(source.get_all_sets(Err(ScryfallError::ParseError)).is_empty());
    assert!(source.get_recent_sets(Err(ScryfallError::ParseError), 0).is_empty());
    assert_eq!(sorted(source.known_sets()), vec![(1, 10)]);
    assert!(matches!(recent_sets(Err(ScryfallError::ParseError), 0), Err(ScryfallError::ParseError)));
}

#[test]
fn the_last_word_on_a_set_counts() {
    let mut source = Scryfall::new();
    source.get_all_sets(Ok(vec![set(1, 10, 0), set(2, 20, 0)]));
    let listing = source.get_all_sets(Ok(vec![set(2, 21, 0), set(3, 30, 0), set(2, 22, 0)]));
    assert_eq!(sorted(listing), vec![(1, 10), (2, 22), (3, 30)]);
}

#[test]
fn learning_again_changes_nothing() {
    let mut source = Scryfall::new();
    let once = sorted(source.get_all_sets(Ok(vec![set(2, 21, 0), set(2, 22, 0)])));
    let twice = sorted(source.get_all_sets(Ok(vec![set(2, 21, 0), set(2, 22, 0)])));
    assert_eq!(once, twice);
}

#[test]
fn too_many_requests_end_the_program() {
    assert!(check_if_rate_limited(429));
    for status in [200, 404, 428, 430, 500, 503] {
        assert!(!check_if_rate_limited(status));
        assert!(matches!(after_send(Ok((status, "body"))), AfterSend::Read("body")));
    }
    assert!(matches!(after_send(Ok((429, "body"))), AfterSend::Exit));
}

#[test]
fn a_request_that_fails_is_an_http_error() {
    let next = after_send::<()>(Err("no route".to_string()));
    assert!(matches!(next, AfterSend::Fail(ScryfallError::HTTPError(why)) if why == "no route"));
}

#[test]
fn a_body_that_cannot_be_read_is_a_parse_error() {
    assert_eq!(accept_body(Some(3)).unwrap(), 3);
    assert!(matches!(accept_body::<u8>(None), Err(ScryfallError::ParseError)));
}

#[test]
fn an_image_needs_a_response_and_a_body() {
    assert_eq!(downloaded_image(Ok(Some(vec![1]))), Some(vec![1]));
    assert_eq!(downloaded_image(Ok(None)), None);
    assert_eq!(downloaded_image(Err(ScryfallError::ParseError)), None);
}

#[test]
fn errors_describe_themselves() {
    assert_eq!(ScryfallError::HTTPError("no route".to_string()).message(), "Http error no route");
    assert_eq!(ScryfallError::ParseError.message(), "Error parsing response from scryfall");
}

#[test]
fn the_bot_listens_to_messages_only() {
    assert_eq!(gateway_intents(), 4608);
    let intents = serenity::all::GatewayIntents::from_bits(gateway_intents()).unwrap();
    assert!(intents.contains(serenity::all::GatewayIntents::GUILD_MESSAGES));
    assert!(intents.direct_messages());
    assert!(!intents.guild_members());
}

#[test]
fn the_first_week_of_the_calendar_has_no_threshold() {
    for early in 0..7 {
        assert_eq!(recent_threshold_as_of(FIRST_DAY + early), None);
    }
    assert_eq!(recent_threshold_as_of(FIRST_DAY + 7), Some(FIRST_DAY));
    assert_eq!(recent_threshold_as_of(2_458_849), Some(2_458_842));
    assert_eq!(recent_threshold_as_of(LAST_DAY), Some(LAST_DAY - 7));
}

#[test]
fn the_calendar_spans_its_years() {
    let first = time::Date::from_calendar_date(-9999, time::Month::January, 1).unwrap();
    let last = time::Date::from_calendar_date(9999, time::Month::December, 31).unwrap();
    assert_eq!(first.to_julian_day(), FIRST_DAY);
    assert_eq!(last.to_julian_day(), LAST_DAY);
}

#[test]
fn the_day_of_a_moment_is_that_of_its_date() {
    let name = current_cache_file_name();
    let today = current_recent_threshold().unwrap() + 7;
    let year: i32 = name[14..18].parse().unwrap();
    let month: u8 = name[18..20].parse().unwrap();
    let day: u8 = name[20..22].parse().unwrap();
    let month = time::Month::try_from(month).unwrap();
    let dated = time::Date::from_calendar_date(year, month, day).unwrap().to_julian_day();
    assert!(today == dated || today == dated + 1);
}
