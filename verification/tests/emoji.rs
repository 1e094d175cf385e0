use rustcord::data::ScryfallSymbol;
use rustcord::emoji::has_default_icon;
use rustcord::emoji::has_emoji;
use rustcord::emoji::missing_set_icons;
use rustcord::emoji::missing_symbols;
use rustcord::emoji::set_emojis;
use rustcord::emoji::symbol_images;
use rustcord::emoji::wants_default_icon;
use rustcord::emoji::with_default_icon;
use rustcord::emoji::EmojiMetaData;
use rustcord::emoji::SetEmoji;
use rustcord::emoji::DEFAULT_SET_ICON_URL;
use rustcord::error::ScryfallError;
use rustcord::sets::ScryfallSet;
use rustcord::source::Scryfall;

fn set(id: u128, abbreviation: &str, icon: &str) -> ScryfallSet {
    ScryfallSet {
        id,
        name: abbreviation.to_string(),
        abbreviation: abbreviation.to_string(),
        released_at: 0,
        card_count: 1,
        icon_svg_uri: icon.to_string(),
    }
}

fn symbol(symbol: &str) -> ScryfallSymbol {
    ScryfallSymbol { symbol: symbol.to_string(), svg_uri: format!("https://svgs.scryfall.io/{symbol}.svg") }
}

fn emojis(names: &[&str]) -> Vec<EmojiMetaData> {
    names.iter().map(|name| EmojiMetaData { name: name.to_string() }).collect()
}

fn lower(text: &str) -> String {
    text.to_lowercase()
}

fn names(sets: Vec<ScryfallSet>) -> Vec<String> {
    sets.into_iter().map(|set| set.abbreviation).collect()
}

#[test]
fn default_icons_are_told_by_the_end_of_their_path() {
    assert!(has_default_icon(DEFAULT_SET_ICON_URL));
    assert!(has_default_icon("https://svgs.scryfall.io/sets/default.svg?1756000000"));
    assert!(has_default_icon("default.svg?a?b"));
    assert!(!has_default_icon("https://svgs.scryfall.io/sets/blb.svg?x=default.svg"));
    assert!(!has_default_icon("https://svgs.scryfall.io/sets/default.svg/x"));
    assert!(!has_default_icon("?default.svg"));
    assert!(!has_default_icon(""));
}

#[test]
fn a_query_makes_no_difference() {
    for address in ["a/default.svg", "a/blb.svg", ""] {
        assert_eq!(has_default_icon(&format!("{address}?17")), has_default_icon(address));
    }
}

#[test]
fn emojis_are_looked_up_by_their_whole_name() {
    let current = emojis(&["blb", "tsp"]);
    assert!(has_emoji(&current, "tsp"));
    assert!(!has_emoji(&current, "ts"));
    assert!(!has_emoji(&current, "TSP"));
    assert!(!has_emoji(&emojis(&[]), ""));
}

#[test]
fn sets_lack_an_emoji_by_their_normalised_name() {
    let sets = vec![
        set(1, "BLB", "x/blb.svg"),
        set(2, "TSP", "x/tsp.svg?1"),
        set(3, "NEW", "x/default.svg?1"),
        set(4, "MKM", "x/mkm.svg"),
    ];
    let missing = missing_set_icons(sets, &emojis(&["tsp", "MKM"]), lower);
    assert_eq!(names(missing), vec!["BLB", "MKM"]);
}

#[test]
fn no_set_is_asked_for_twice() {
    let sets = || vec![set(1, "BLB", "x/blb.svg"), set(2, "TSP", "x/tsp.svg")];
    assert_eq!(missing_set_icons(sets(), &emojis(&["tsp"]), lower).len(), 1);
    assert!(missing_set_icons(sets(), &emojis(&["tsp", "blb"]), lower).is_empty());
}

#[test]
fn a_source_knows_which_sets_lack_an_emoji() {
    let mut source = Scryfall::new();
    source.get_all_sets(Ok(vec![set(1, "BLB", "x/blb.svg"), set(2, "TSP", "x/tsp.svg")]));
    assert_eq!(names(source.sets_without_emoji(&emojis(&["blb"]), lower)), vec!["TSP"]);
}

#[test]
fn pictures_that_could_not_be_had_are_passed_over() {
    let made = set_emojis(vec![
        (set(1, "blb", ""), Ok("<svg>1</svg>".to_string())),
        (set(2, "tsp", ""), Err(ScryfallError::ParseError)),
        (set(3, "mkm", ""), Ok("<svg>3</svg>".to_string())),
    ]);
    assert_eq!(made.len(), 2);
    assert_eq!(made[0].name, "blb");
    assert_eq!(made[0].image.0, "<svg>1</svg>");
    assert_eq!(made[1].name, "mkm");
    assert_eq!(made[1].image.0, "<svg>3</svg>");
}

#[test]
fn the_default_icon_is_added_last() {
    assert!(wants_default_icon(&emojis(&["blb"])));
    assert!(!wants_default_icon(&emojis(&["blb", "default"])));
    let made = set_emojis(vec![(set(1, "blb", ""), Ok("1".to_string()))]);
    let all = with_default_icon(made, Ok("d".to_string()));
    assert_eq!(all.len(), 2);
    assert_eq!(all[1].name, "default");
    assert_eq!(all[1].image.0, "d");
    let all = with_default_icon(all, Err(ScryfallError::ParseError));
    assert_eq!(all.len(), 2);
}

#[test]
fn symbols_lack_an_emoji_by_their_normalised_name() {
    let strip = |text: &str| text.replace(['{', '}', '/'], "");
    let missing = missing_symbols(Ok(vec![symbol("{T}"), symbol("{W/U}"), symbol("{R}")]), &emojis(&["WU"]), strip);
    let texts: Vec<String> = missing.into_iter().map(|symbol| symbol.symbol).collect();
    assert_eq!(texts, vec!["{T}", "{R}"]);
}

#[test]
fn no_symbol_is_asked_for_twice() {
    let missing = missing_symbols(Ok(vec![symbol("{T}")]), &emojis(&["{t}"]), lower);
    assert!(missing.is_empty());
}

#[test]
fn without_a_list_of_symbols_none_is_missing() {
    assert!(missing_symbols(Err(ScryfallError::ParseError), &emojis(&[]), lower).is_empty());
}

#[test]
fn symbols_are_paired_with_their_pictures() {
    let made = symbol_images(vec![
        (symbol("{T}"), Err(ScryfallError::HTTPError("gone".to_string()))),
        (symbol("{R}"), Ok("<svg/>".to_string())),
    ]);
    assert_eq!(made.len(), 1);
    assert_eq!(made[0].symbol, "{R}");
    assert_eq!(made[0].image.0, "<svg/>");
}

fn texts(symbols: Vec<ScryfallSymbol>) -> Vec<String> {
    symbols.into_iter().map(|symbol| symbol.symbol).collect()
}

fn missing_of(source: &Scryfall, current: &[&str]) -> Vec<String> {
    let mut missing = names(source.sets_without_emoji(&emojis(current), lower));
    missing.sort();
    missing
}

fn three_sets() -> Scryfall {
    let mut source = Scryfall::new();
    source.get_all_sets(Ok(vec![
        set(1, "BLB", "x/blb.svg"),
        set(2, "TSP", "x/tsp.svg"),
        set(3, "MKM", "x/lost.svg"),
    ]));
    source
}

fn brought(source: &Scryfall, current: &[&str]) -> Vec<(String, String)> {
    let current = emojis(current);
    let answer = |address: &str| {
        if address.ends_with("lost.svg") {
            Err(ScryfallError::ParseError)
        } else {
            Ok(format!("<svg>{address}</svg>"))
        }
    };
    let missing = source.sets_without_emoji(&current, lower);
    let fetched = missing
        .into_iter()
        .map(|set| {
            let picture = answer(&set.icon_svg_uri);
            (set, picture)
        })
        .collect();
    let mut made: Vec<SetEmoji> = set_emojis(fetched);
    if wants_default_icon(&current) {
        made = with_default_icon(made, answer(DEFAULT_SET_ICON_URL));
    }
    let mut contents: Vec<(String, String)> =
        made.into_iter().map(|emoji| (emoji.name, emoji.image.0)).collect();
    contents.sort();
    contents
}

#[test]
fn more_names_leave_fewer_sets() {
    let source = three_sets();
    assert_eq!(missing_of(&source, &[]), vec!["BLB", "MKM", "TSP"]);
    assert_eq!(missing_of(&source, &["blb"]), vec!["MKM", "TSP"]);
    assert_eq!(missing_of(&source, &["blb", "other"]), vec!["MKM", "TSP"]);
    assert_eq!(missing_of(&source, &["blb", "other", "tsp"]), vec!["MKM"]);
    assert!(missing_of(&source, &["blb", "mkm", "tsp"]).is_empty());
}

#[test]
fn the_order_of_names_is_no_matter() {
    let source = three_sets();
    assert_eq!(missing_of(&source, &["tsp", "blb", "tsp"]), missing_of(&source, &["blb", "tsp"]));
    let symbols = || Ok(vec![symbol("{T}"), symbol("{R}"), symbol("{T}")]);
    let one = missing_symbols(symbols(), &emojis(&["{r}", "x"]), lower);
    let other = missing_symbols(symbols(), &emojis(&["x", "{r}", "x"]), lower);
    assert_eq!(texts(one), vec!["{T}", "{T}"]);
    assert_eq!(texts(other), vec!["{T}", "{T}"]);
}

#[test]
fn more_names_leave_fewer_symbols() {
    let symbols = || Ok(vec![symbol("{T}"), symbol("{R}"), symbol("{W}")]);
    assert_eq!(texts(missing_symbols(symbols(), &emojis(&["{r}"]), lower)), vec!["{T}", "{W}"]);
    assert_eq!(texts(missing_symbols(symbols(), &emojis(&["{r}", "{t}"]), lower)), vec!["{W}"]);
}

#[test]
fn every_missing_symbol_is_asked_for() {
    let symbols = Ok(vec![symbol("{T}"), symbol("{R}"), symbol("{T}")]);
    assert_eq!(texts(missing_symbols(symbols, &emojis(&[]), lower)), vec!["{T}", "{R}", "{T}"]);
}

#[test]
fn more_names_bring_fewer_emojis() {
    let source = three_sets();
    let blb = ("BLB".to_string(), "<svg>x/blb.svg</svg>".to_string());
    let tsp = ("TSP".to_string(), "<svg>x/tsp.svg</svg>".to_string());
    let default = ("default".to_string(), format!("<svg>{DEFAULT_SET_ICON_URL}</svg>"));
    assert_eq!(brought(&source, &[]), vec![blb.clone(), tsp.clone(), default.clone()]);
    assert_eq!(brought(&source, &["blb"]), vec![tsp.clone(), default.clone()]);
    assert_eq!(brought(&source, &["default", "blb"]), vec![tsp.clone()]);
    assert_eq!(brought(&source, &["blb", "default", "blb"]), vec![tsp]);
    assert!(brought(&source, &["blb", "default", "tsp"]).is_empty());
}
