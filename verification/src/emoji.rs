//! Emojis for sets and symbols: which ones are missing, and what they are made of.

use vstd::prelude::*;

use crate::data::ScryfallSymbol;
use crate::error::ScryfallResult;
use crate::sets::ScryfallSet;
use crate::text::ends_with;
use crate::text::from_chars;
use crate::text::same_text;

verus! {

/// An emoji that exists.
#[derive(Debug)]
pub struct EmojiMetaData {
    pub name: String,
}

/// The picture of an emoji.
#[derive(Debug)]
pub struct EmojiImage(pub String);

/// An emoji to be made for a set.
#[derive(Debug)]
pub struct SetEmoji {
    pub name: String,
    pub image: EmojiImage,
}

/// What an emoji for a symbol is to be made of.
#[derive(Debug)]
pub struct SymbolImage {
    pub symbol: String,
    pub image: EmojiImage,
}

/// Where the picture can be had that stands for a set without one of its own.
pub const DEFAULT_SET_ICON_URL: &'static str = "https://svgs.scryfall.io/sets/default.svg";

/// The names of emojis.
pub open spec fn emoji_names(emojis: Seq<EmojiMetaData>) -> Seq<Seq<char>> {
    emojis.map_values(|emoji: EmojiMetaData| emoji.name@)
}

/// Whether there is an emoji of this name.
pub fn has_emoji(current: &Vec<EmojiMetaData>, name: &str) -> (found: bool)
    ensures
        found == emoji_names(current@).contains(name@),
{
    for i in 0..current.len()
        invariant
            forall|j: int| 0 <= j < i ==> emoji_names(current@)[j] != name@,
    {
        assert(emoji_names(current@)[i as int] == current@[i as int].name@);
        if same_text(current[i].name.as_str(), name) {
            return true;
        }
    }
    false
}

/// An address up to its first question mark.
pub open spec fn before_query(address: Seq<char>) -> Seq<char>
    decreases address.len(),
{
    if address.len() == 0 || address[0] == '?' {
        Seq::empty()
    } else {
        seq![address[0]] + before_query(address.drop_first())
    }
}

/// Whether the address of a set's picture is that of the picture which stands for
/// sets without one of their own.
pub open spec fn is_default_icon(address: Seq<char>) -> bool {
    "default.svg"@.is_suffix_of(before_query(address))
}

/// Takes what stands in an address before its first question mark.
fn strip_query(address: &str) -> (path: String)
    ensures
        path@ == before_query(address@),
{
    let mut path: Vec<char> = Vec::new();
    let mut in_query: bool = false;
    assert(address@.skip(0) =~= address@);
    for c in it: address.chars()
        invariant
            it.seq() == address@,
            before_query(address@) == (if in_query {
                path@
            } else {
                path@ + before_query(address@.skip(it.index()))
            }),
    {
        assert(address@.skip(it.index()).drop_first() =~= address@.skip(it.index() + 1));
        if c == '?' {
            in_query = true;
        }
        if !in_query {
            let ghost before = path@;
            path.push(c);
            assert(before + (seq![c] + before_query(address@.skip(it.index() + 1))) =~= path@
                + before_query(address@.skip(it.index() + 1)));
        }
    }
    from_chars(&path)
}

/// Tells whether an address is that of the picture which stands for sets without
/// one of their own.
pub fn has_default_icon(address: &str) -> (default: bool)
    ensures
        default == is_default_icon(address@),
{
    ends_with(strip_query(address).as_str(), "default.svg")
}

/// Whether `names` is what `normalise` makes of the texts.
pub open spec fn normalised<F: Fn(&str) -> String>(
    normalise: F,
    texts: Seq<Seq<char>>,
    names: Seq<Seq<char>>,
) -> bool {
    &&& names.len() == texts.len()
    &&& forall|i: int| 0 <= i < names.len() ==> normalises_to(normalise, texts[i], #[trigger] names[i])
}

/// Whether `normalise` may make `name` of a text.
pub open spec fn normalises_to<F: Fn(&str) -> String>(
    normalise: F,
    text: Seq<char>,
    name: Seq<char>,
) -> bool {
    exists|raw: &str, made: String|
        raw@ == text && made@ == name && #[trigger] call_ensures(normalise, (raw,), made)
}

/// Whether an emoji is missing for a set, where `name` is the name that it would
/// have: the set has a picture of its own, and there is no emoji of that name.
pub open spec fn lacks_emoji(set: ScryfallSet, name: Seq<char>, taken: Seq<Seq<char>>) -> bool {
    !is_default_icon(set.icon_svg_uri@) && !taken.contains(name)
}

/// Those of the items, in the order given, that are picked by what they are and by
/// their names.
pub open spec fn picked<T>(
    items: Seq<T>,
    names: Seq<Seq<char>>,
    pick: spec_fn(T, Seq<char>) -> bool,
) -> Seq<T>
    decreases items.len(),
{
    if items.len() == 0 {
        Seq::empty()
    } else {
        let before = picked(items.drop_last(), names.drop_last(), pick);
        if pick(items.last(), names.last()) {
            before.push(items.last())
        } else {
            before
        }
    }
}

/// The sets for which an emoji is missing, in the order given; `names` are the
/// names that their emojis would have.
pub open spec fn sets_lacking(
    sets: Seq<ScryfallSet>,
    names: Seq<Seq<char>>,
    taken: Seq<Seq<char>>,
) -> Seq<ScryfallSet> {
    picked(sets, names, |set: ScryfallSet, name: Seq<char>| lacks_emoji(set, name, taken))
}

/// The abbreviations of sets.
pub open spec fn abbreviations(sets: Seq<ScryfallSet>) -> Seq<Seq<char>> {
    sets.map_values(|set: ScryfallSet| set.abbreviation@)
}

/// Picks the sets for which an emoji is missing; `normalise` makes the name of an
/// emoji out of the abbreviation of a set.
pub fn missing_set_icons<F: Fn(&str) -> String>(
    sets: Vec<ScryfallSet>,
    current: &Vec<EmojiMetaData>,
    normalise: F,
) -> (missing: Vec<ScryfallSet>)
    requires
        forall|raw: &str| call_requires(normalise, (raw,)),
    ensures
        exists|names: Seq<Seq<char>>|
            #![trigger normalised(normalise, abbreviations(sets@), names)]
            normalised(normalise, abbreviations(sets@), names) && missing@ == sets_lacking(
                sets@,
                names,
                emoji_names(current@),
            ),
{
    let mut missing: Vec<ScryfallSet> = Vec::new();
    let ghost all = sets@;
    let ghost mut names: Seq<Seq<char>> = Seq::empty();
    for set in it: sets
        invariant
            it.seq() == all,
            forall|raw: &str| call_requires(normalise, (raw,)),
            normalised(normalise, abbreviations(all.take(it.index())), names),
            missing@ == sets_lacking(all.take(it.index()), names, emoji_names(current@)),
    {
        let name = normalise(set.abbreviation.as_str());
        proof {
            let before = names;
            let sooner = abbreviations(all.take(it.index()));
            let now = abbreviations(all.take(it.index() + 1));
            names = names.push(name@);
            assert(now =~= sooner.push(set.abbreviation@));
            assert(normalises_to(normalise, set.abbreviation@, name@));
            assert forall|i: int| 0 <= i < names.len() implies normalises_to(
                normalise,
                now[i],
                #[trigger] names[i],
            ) by {
                if i < before.len() {
                    assert(names[i] == before[i]);
                }
            }
            assert(all.take(it.index() + 1).drop_last() =~= all.take(it.index()));
            assert(names.drop_last() =~= before);
        }
        if !has_default_icon(set.icon_svg_uri.as_str()) && !has_emoji(current, name.as_str()) {
            missing.push(set);
        }
    }
    assert(all.take(all.len() as int) =~= all);
    missing
}

/// The emoji that a fetched picture gives for a set, if it could be fetched.
pub open spec fn set_emoji(fetched: (ScryfallSet, ScryfallResult<String>)) -> Option<SetEmoji> {
    match fetched.1 {
        Ok(picture) => Some(
            SetEmoji { name: fetched.0.abbreviation, image: EmojiImage(picture) },
        ),
        Err(_) => None,
    }
}

/// Makes emojis out of the pictures that were fetched for sets; a set whose
/// picture could not be had is passed over.
pub fn set_emojis(fetched: Vec<(ScryfallSet, ScryfallResult<String>)>) -> (emojis: Vec<SetEmoji>)
    ensures
        emojis@ == fetched@.filter_map(
            |one: (ScryfallSet, ScryfallResult<String>)| set_emoji(one),
        ),
{
    let mut emojis: Vec<SetEmoji> = Vec::new();
    let ghost all = fetched@;
    let ghost made = |one: (ScryfallSet, ScryfallResult<String>)| set_emoji(one);
    assert(all.take(0).filter_map(made) =~= Seq::empty());
    for one in it: fetched
        invariant
            it.seq() == all,
            made == (|one: (ScryfallSet, ScryfallResult<String>)| set_emoji(one)),
            emojis@ == all.take(it.index()).filter_map(made),
    {
        proof {
            all.lemma_filter_map_take_succ(made, it.index());
        }
        let (set, picture) = one;
        if let Ok(picture) = picture {
            emojis.push(SetEmoji { name: set.abbreviation.clone(), image: EmojiImage(picture) });
        }
    }
    assert(all.take(all.len() as int) =~= all);
    emojis
}

/// Whether the emoji is missing that stands for sets without a picture.
pub fn wants_default_icon(current: &Vec<EmojiMetaData>) -> (wanted: bool)
    ensures
        wanted == !emoji_names(current@).contains("default"@),
{
    !has_emoji(current, "default")
}

/// Whether `all` is `emojis` and, where its picture could be fetched, behind them the
/// emoji that stands for sets without a picture.
pub open spec fn default_added(
    emojis: Seq<SetEmoji>,
    fetched: ScryfallResult<String>,
    all: Seq<SetEmoji>,
) -> bool {
    match fetched {
        Ok(picture) => {
            &&& all.len() == emojis.len() + 1
            &&& all.drop_last() == emojis
            &&& all.last().name@ == "default"@
            &&& all.last().image == EmojiImage(picture)
        },
        Err(_) => all == emojis,
    }
}

/// Adds the emoji that stands for sets without a picture, where its picture could
/// be fetched.
pub fn with_default_icon(emojis: Vec<SetEmoji>, fetched: ScryfallResult<String>) -> (all: Vec<
    SetEmoji,
>)
    ensures
        default_added(emojis@, fetched, all@),
{
    let mut all = emojis;
    if let Ok(picture) = fetched {
        all.push(SetEmoji { name: "default".to_owned(), image: EmojiImage(picture) });
        assert(all@.drop_last() =~= emojis@);
    }
    all
}

/// The symbols for which an emoji is missing, in the order given; `names` are the
/// names that their emojis would have.
pub open spec fn symbols_lacking(
    symbols: Seq<ScryfallSymbol>,
    names: Seq<Seq<char>>,
    taken: Seq<Seq<char>>,
) -> Seq<ScryfallSymbol> {
    picked(symbols, names, |symbol: ScryfallSymbol, name: Seq<char>| !taken.contains(name))
}

/// What symbols read.
pub open spec fn symbol_texts(symbols: Seq<ScryfallSymbol>) -> Seq<Seq<char>> {
    symbols.map_values(|symbol: ScryfallSymbol| symbol.symbol@)
}

/// Picks the symbols for which an emoji is missing; `normalise` makes the name of
/// an emoji out of a symbol. Where the symbols could not be fetched, there are
/// none.
pub fn missing_symbols<F: Fn(&str) -> String>(
    fetched: ScryfallResult<Vec<ScryfallSymbol>>,
    current: &Vec<EmojiMetaData>,
    normalise: F,
) -> (missing: Vec<ScryfallSymbol>)
    requires
        forall|raw: &str| call_requires(normalise, (raw,)),
    ensures
        match fetched {
            Ok(symbols) => exists|names: Seq<Seq<char>>|
                #![trigger normalised(normalise, symbol_texts(symbols@), names)]
                normalised(normalise, symbol_texts(symbols@), names) && missing@
                    == symbols_lacking(symbols@, names, emoji_names(current@)),
            Err(_) => missing@.len() == 0,
        },
{
    let mut missing: Vec<ScryfallSymbol> = Vec::new();
    let symbols = match fetched {
        Ok(symbols) => symbols,
        Err(_) => {
            return missing;
        },
    };
    let ghost all = symbols@;
    let ghost mut names: Seq<Seq<char>> = Seq::empty();
    for symbol in it: symbols
        invariant
            it.seq() == all,
            forall|raw: &str| call_requires(normalise, (raw,)),
            normalised(normalise, symbol_texts(all.take(it.index())), names),
            missing@ == symbols_lacking(all.take(it.index()), names, emoji_names(current@)),
    {
        let name = normalise(symbol.symbol.as_str());
        proof {
            let before = names;
            let sooner = symbol_texts(all.take(it.index()));
            let now = symbol_texts(all.take(it.index() + 1));
            names = names.push(name@);
            assert(now =~= sooner.push(symbol.symbol@));
            assert(normalises_to(normalise, symbol.symbol@, name@));
            assert forall|i: int| 0 <= i < names.len() implies normalises_to(
                normalise,
                now[i],
                #[trigger] names[i],
            ) by {
                if i < before.len() {
                    assert(names[i] == before[i]);
                }
            }
            assert(all.take(it.index() + 1).drop_last() =~= all.take(it.index()));
            assert(names.drop_last() =~= before);
        }
        if !has_emoji(current, name.as_str()) {
            missing.push(symbol);
        }
    }
    assert(all.take(all.len() as int) =~= all);
    missing
}

/// What the emoji for a symbol is made of, if its picture could be fetched.
pub open spec fn symbol_image(fetched: (ScryfallSymbol, ScryfallResult<String>)) -> Option<
    SymbolImage,
> {
    match fetched.1 {
        Ok(picture) => Some(SymbolImage { symbol: fetched.0.symbol, image: EmojiImage(picture) }),
        Err(_) => None,
    }
}

/// Pairs symbols with the pictures that were fetched for them; a symbol whose
/// picture could not be had is passed over.
pub fn symbol_images(fetched: Vec<(ScryfallSymbol, ScryfallResult<String>)>) -> (images: Vec<
    SymbolImage,
>)
    ensures
        images@ == fetched@.filter_map(
            |one: (ScryfallSymbol, ScryfallResult<String>)| symbol_image(one),
        ),
{
    let mut images: Vec<SymbolImage> = Vec::new();
    let ghost all = fetched@;
    let ghost made = |one: (ScryfallSymbol, ScryfallResult<String>)| symbol_image(one);
    assert(all.take(0).filter_map(made) =~= Seq::empty());
    for one in it: fetched
        invariant
            it.seq() == all,
            made == (|one: (ScryfallSymbol, ScryfallResult<String>)| symbol_image(one)),
            images@ == all.take(it.index()).filter_map(made),
    {
        proof {
            all.lemma_filter_map_take_succ(made, it.index());
        }
        let (symbol, picture) = one;
        if let Ok(picture) = picture {
            images.push(SymbolImage { symbol: symbol.symbol, image: EmojiImage(picture) });
        }
    }
    assert(all.take(all.len() as int) =~= all);
    images
}

} // verus!
