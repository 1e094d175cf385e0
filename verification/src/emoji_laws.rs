//! What holds of missing emojis across several questions for them.

use vstd::prelude::*;
use vstd::seq_lib::lemma_multiset_commutative;

use crate::data::ScryfallSymbol;
use crate::emoji::abbreviations;
use crate::emoji::before_query;
use crate::emoji::default_added;
use crate::emoji::emoji_names;
use crate::emoji::has_default_icon;
use crate::emoji::has_emoji;
use crate::emoji::is_default_icon;
use crate::emoji::lacks_emoji;
use crate::emoji::missing_set_icons;
use crate::emoji::missing_symbols;
use crate::emoji::normalised;
use crate::emoji::normalises_to;
use crate::emoji::picked;
use crate::emoji::set_emoji;
use crate::emoji::set_emojis;
use crate::emoji::sets_lacking;
use crate::emoji::symbol_image;
use crate::emoji::symbol_images;
use crate::emoji::symbol_texts;
use crate::emoji::symbols_lacking;
use crate::emoji::wants_default_icon;
use crate::emoji::with_default_icon;
use crate::emoji::EmojiMetaData;
use crate::emoji::SetEmoji;
use crate::emoji::SymbolImage;
use crate::emoji::DEFAULT_SET_ICON_URL;
use crate::error::ScryfallError;
use crate::error::ScryfallResult;
use crate::sets::lists_known;
use crate::sets::ScryfallSet;

verus! {

/// What stands behind a question mark in the address of a picture makes no
/// difference.
pub proof fn law_query_makes_no_difference(address: Seq<char>, query: Seq<char>)
    ensures
        is_default_icon(address + seq!['?'] + query) == is_default_icon(address),
{
    lemma_before_query(address, query);
}

/// An address is the same up to its first question mark whatever follows behind one.
proof fn lemma_before_query(address: Seq<char>, query: Seq<char>)
    ensures
        before_query(address + seq!['?'] + query) == before_query(address),
    decreases address.len(),
{
    let whole = address + seq!['?'] + query;
    if address.len() == 0 {
        assert(whole[0] == '?');
    } else if address[0] != '?' {
        lemma_before_query(address.drop_first(), query);
        assert(whole.drop_first() =~= address.drop_first() + seq!['?'] + query);
    }
}

/// An item is picked exactly where it stands with a name that it is picked by.
proof fn lemma_picked_contains<T>(
    items: Seq<T>,
    names: Seq<Seq<char>>,
    pick: spec_fn(T, Seq<char>) -> bool,
    item: T,
)
    requires
        names.len() == items.len(),
    ensures
        picked(items, names, pick).contains(item) <==> exists|i: int|
            0 <= i < items.len() && #[trigger] items[i] == item && pick(item, names[i]),
    decreases items.len(),
{
    let all = picked(items, names, pick);
    if items.len() > 0 {
        let last = items.len() - 1;
        let sooner = items.drop_last();
        let before = picked(sooner, names.drop_last(), pick);
        lemma_picked_contains(sooner, names.drop_last(), pick, item);
        if before.contains(item) {
            let i = choose|i: int|
                0 <= i < sooner.len() && #[trigger] sooner[i] == item && pick(
                    item,
                    names.drop_last()[i],
                );
            assert(items[i] == item && pick(item, names[i]));
            let k = choose|k: int| 0 <= k < before.len() && before[k] == item;
            assert(all[k] == item);
        }
        if all.contains(item) && !before.contains(item) {
            let k = choose|k: int| 0 <= k < all.len() && all[k] == item;
            if k < before.len() {
                assert(before[k] == item);
            }
            assert(items[last] == item && pick(item, names[last]));
        }
        if exists|i: int| 0 <= i < items.len() && #[trigger] items[i] == item && pick(item, names[i]) {
            let i = choose|i: int|
                0 <= i < items.len() && #[trigger] items[i] == item && pick(item, names[i]);
            if i < last {
                assert(sooner[i] == item && pick(item, names.drop_last()[i]));
            } else {
                assert(all[all.len() - 1] == item);
            }
        }
    }
}

/// Where no item occurs twice, none is picked twice.
proof fn lemma_picked_distinct<T>(
    items: Seq<T>,
    names: Seq<Seq<char>>,
    pick: spec_fn(T, Seq<char>) -> bool,
)
    requires
        names.len() == items.len(),
        items.no_duplicates(),
    ensures
        picked(items, names, pick).no_duplicates(),
    decreases items.len(),
{
    if items.len() > 0 {
        let sooner = items.drop_last();
        lemma_picked_distinct(sooner, names.drop_last(), pick);
        lemma_picked_contains(sooner, names.drop_last(), pick, items.last());
        let before = picked(sooner, names.drop_last(), pick);
        if before.contains(items.last()) {
            let i = choose|i: int| 0 <= i < sooner.len() && #[trigger] sooner[i] == items.last();
            assert(items[i] == items[items.len() - 1]);
        }
        assert forall|i: int| 0 <= i < before.len() implies before[i] != items.last() by {
            assert(before.contains(before[i]));
        }
    }
}

/// Whoever picks by a stricter rule picks no more.
proof fn lemma_picked_fewer<T>(
    items: Seq<T>,
    names: Seq<Seq<char>>,
    pick: spec_fn(T, Seq<char>) -> bool,
    strict: spec_fn(T, Seq<char>) -> bool,
)
    requires
        forall|item: T, name: Seq<char>| #[trigger] strict(item, name) ==> pick(item, name),
    ensures
        picked(items, names, strict).to_multiset().subset_of(
            picked(items, names, pick).to_multiset(),
        ),
    decreases items.len(),
{
    broadcast use vstd::multiset::group_multiset_axioms;

    if items.len() > 0 {
        let few = picked(items.drop_last(), names.drop_last(), strict);
        let many = picked(items.drop_last(), names.drop_last(), pick);
        lemma_picked_fewer(items.drop_last(), names.drop_last(), pick, strict);
        broadcast use vstd::seq_lib::group_to_multiset_ensures;

        assert(few.push(items.last()).to_multiset() =~= few.to_multiset().insert(items.last()));
        assert(many.push(items.last()).to_multiset() =~= many.to_multiset().insert(items.last()));
    }
}

/// The names that `naming` gives the emojis of sets.
pub open spec fn names_by(naming: spec_fn(Seq<char>) -> Seq<char>, sets: Seq<ScryfallSet>) -> Seq<
    Seq<char>,
> {
    abbreviations(sets).map_values(naming)
}

/// A normaliser that makes the same name of the same text always decides the names.
pub proof fn law_normaliser_decides_names<F: Fn(&str) -> String>(
    normalise: F,
    naming: spec_fn(Seq<char>) -> Seq<char>,
    texts: Seq<Seq<char>>,
    names: Seq<Seq<char>>,
)
    requires
        forall|raw: &str, made: String| #[trigger]
            call_ensures(normalise, (raw,), made) ==> made@ == naming(raw@),
        normalised(normalise, texts, names),
    ensures
        names == texts.map_values(naming),
{
    assert forall|i: int| 0 <= i < names.len() implies names[i] == naming(texts[i]) by {
        assert(normalises_to(normalise, texts[i], names[i]));
    }
    assert(names =~= texts.map_values(naming));
}

/// An emoji is asked for exactly for those sets that have a picture of their own
/// and whose name is not taken.
pub proof fn law_every_missing_set_is_asked_for(
    sets: Seq<ScryfallSet>,
    names: Seq<Seq<char>>,
    taken: Seq<Seq<char>>,
    set: ScryfallSet,
)
    requires
        names.len() == sets.len(),
    ensures
        sets_lacking(sets, names, taken).contains(set) <==> exists|i: int|
            0 <= i < sets.len() && #[trigger] sets[i] == set && lacks_emoji(set, names[i], taken),
{
    let pick = |set: ScryfallSet, name: Seq<char>| lacks_emoji(set, name, taken);
    lemma_picked_contains(sets, names, pick, set);
}

/// An emoji is asked for exactly for those symbols whose name is not taken.
pub proof fn law_every_missing_symbol_is_asked_for(
    symbols: Seq<ScryfallSymbol>,
    names: Seq<Seq<char>>,
    taken: Seq<Seq<char>>,
    symbol: ScryfallSymbol,
)
    requires
        names.len() == symbols.len(),
    ensures
        symbols_lacking(symbols, names, taken).contains(symbol) <==> exists|i: int|
            0 <= i < symbols.len() && #[trigger] symbols[i] == symbol && !taken.contains(names[i]),
{
    let pick = |symbol: ScryfallSymbol, name: Seq<char>| !taken.contains(name);
    lemma_picked_contains(symbols, names, pick, symbol);
}

/// A known set is asked for exactly if its emoji is missing, however the known sets
/// are listed.
pub(crate) proof fn lemma_known_set_asked_for(
    known: Map<u128, ScryfallSet>,
    naming: spec_fn(Seq<char>) -> Seq<char>,
    sets: Seq<ScryfallSet>,
    taken: Seq<Seq<char>>,
    set: ScryfallSet,
)
    requires
        lists_known(known, sets),
    ensures
        sets_lacking(sets, names_by(naming, sets), taken).contains(set) <==> {
            &&& known.contains_key(set.id)
            &&& known[set.id] == set
            &&& lacks_emoji(set, naming(set.abbreviation@), taken)
        },
{
    let names = names_by(naming, sets);
    law_every_missing_set_is_asked_for(sets, names, taken, set);
    if known.contains_key(set.id) && known[set.id] == set {
        let i = choose|i: int| 0 <= i < sets.len() && sets[i] == set;
        assert(sets[i] == set && names[i] == naming(set.abbreviation@));
    }
}

/// Once the missing emojis of the known sets exist under their names, none is
/// missing, even if the sets are listed in another order.
pub proof fn law_no_set_is_asked_for_twice(
    known: Map<u128, ScryfallSet>,
    naming: spec_fn(Seq<char>) -> Seq<char>,
    sets: Seq<ScryfallSet>,
    again: Seq<ScryfallSet>,
    taken: Seq<Seq<char>>,
    later: Seq<Seq<char>>,
)
    requires
        lists_known(known, sets),
        lists_known(known, again),
        forall|name: Seq<char>| #[trigger] taken.contains(name) ==> later.contains(name),
        forall|set: ScryfallSet| #[trigger]
            sets_lacking(sets, names_by(naming, sets), taken).contains(set) ==> later.contains(
                naming(set.abbreviation@),
            ),
    ensures
        sets_lacking(again, names_by(naming, again), later).len() == 0,
{
    let missing = sets_lacking(again, names_by(naming, again), later);
    if missing.len() > 0 {
        let set = missing[0];
        assert(missing.contains(set));
        lemma_known_set_asked_for(known, naming, again, later, set);
        lemma_known_set_asked_for(known, naming, sets, taken, set);
    }
}

/// Once the missing emojis of symbols exist under their names, none is missing.
pub proof fn law_no_symbol_is_asked_for_twice(
    symbols: Seq<ScryfallSymbol>,
    names: Seq<Seq<char>>,
    taken: Seq<Seq<char>>,
    later: Seq<Seq<char>>,
)
    requires
        names.len() == symbols.len(),
        forall|name: Seq<char>| #[trigger] taken.contains(name) ==> later.contains(name),
        forall|i: int|
            0 <= i < names.len() && !taken.contains(#[trigger] names[i]) ==> later.contains(
                names[i],
            ),
    ensures
        symbols_lacking(symbols, names, later).len() == 0,
{
    let missing = symbols_lacking(symbols, names, later);
    if missing.len() > 0 {
        assert(missing.contains(missing[0]));
        law_every_missing_symbol_is_asked_for(symbols, names, later, missing[0]);
        let i = choose|i: int|
            0 <= i < symbols.len() && #[trigger] symbols[i] == missing[0] && !later.contains(
                names[i],
            );
        assert(taken.contains(names[i]) || later.contains(names[i]));
    }
}

/// More names in use never make more emojis missing, however the known sets are
/// listed.
pub proof fn law_more_names_leave_fewer_sets(
    known: Map<u128, ScryfallSet>,
    naming: spec_fn(Seq<char>) -> Seq<char>,
    sets: Seq<ScryfallSet>,
    again: Seq<ScryfallSet>,
    taken: Seq<Seq<char>>,
    more: Seq<Seq<char>>,
)
    requires
        lists_known(known, sets),
        lists_known(known, again),
        forall|name: Seq<char>| #[trigger] taken.contains(name) ==> more.contains(name),
    ensures
        sets_lacking(again, names_by(naming, again), more).to_multiset().subset_of(
            sets_lacking(sets, names_by(naming, sets), taken).to_multiset(),
        ),
{
    let many = sets_lacking(sets, names_by(naming, sets), taken);
    let few = sets_lacking(again, names_by(naming, again), more);
    lemma_lacking_distinct(known, naming, sets, taken);
    lemma_lacking_distinct(known, naming, again, more);
    many.lemma_multiset_has_no_duplicates();
    few.lemma_multiset_has_no_duplicates();
    assert forall|set: ScryfallSet| few.to_multiset().count(set) <= many.to_multiset().count(
        set,
    ) by {
        broadcast use vstd::seq_lib::group_to_multiset_ensures;

        if few.to_multiset().count(set) > 0 {
            assert(few.to_multiset().contains(set));
            assert(few.contains(set));
            lemma_known_set_asked_for(known, naming, again, more, set);
            lemma_known_set_asked_for(known, naming, sets, taken, set);
            assert(many.contains(set));
            assert(many.to_multiset().contains(set));
        }
    }
}

/// No known set is asked for twice in one go.
pub(crate) proof fn lemma_lacking_distinct(
    known: Map<u128, ScryfallSet>,
    naming: spec_fn(Seq<char>) -> Seq<char>,
    sets: Seq<ScryfallSet>,
    taken: Seq<Seq<char>>,
)
    requires
        lists_known(known, sets),
    ensures
        sets_lacking(sets, names_by(naming, sets), taken).no_duplicates(),
{
    assert forall|i: int, j: int| 0 <= i < sets.len() && 0 <= j < sets.len() && i != j implies sets[i]
        != sets[j] by {
        if i < j {
            assert(sets[i].id != sets[j].id);
        } else {
            assert(sets[j].id != sets[i].id);
        }
    }
    lemma_picked_distinct(
        sets,
        names_by(naming, sets),
        |set: ScryfallSet, name: Seq<char>| lacks_emoji(set, name, taken),
    );
}

/// More names in use never make more emojis of symbols missing.
pub proof fn law_more_names_leave_fewer_symbols(
    symbols: Seq<ScryfallSymbol>,
    names: Seq<Seq<char>>,
    taken: Seq<Seq<char>>,
    more: Seq<Seq<char>>,
)
    requires
        forall|name: Seq<char>| #[trigger] taken.contains(name) ==> more.contains(name),
    ensures
        symbols_lacking(symbols, names, more).to_multiset().subset_of(
            symbols_lacking(symbols, names, taken).to_multiset(),
        ),
{
    lemma_picked_fewer(
        symbols,
        names,
        |symbol: ScryfallSymbol, name: Seq<char>| !taken.contains(name),
        |symbol: ScryfallSymbol, name: Seq<char>| !more.contains(name),
    );
}

/// With the same names in use, in whatever order and however often each, the same
/// emojis of sets are missing.
pub proof fn law_order_of_names_is_no_matter_for_sets(
    sets: Seq<ScryfallSet>,
    names: Seq<Seq<char>>,
    taken: Seq<Seq<char>>,
    other: Seq<Seq<char>>,
)
    requires
        forall|name: Seq<char>| #[trigger] taken.contains(name) <==> other.contains(name),
    ensures
        sets_lacking(sets, names, taken) == sets_lacking(sets, names, other),
{
    assert((|set: ScryfallSet, name: Seq<char>| lacks_emoji(set, name, taken)) =~= (
    |set: ScryfallSet, name: Seq<char>| lacks_emoji(set, name, other)));
}

/// With the same names in use, in whatever order and however often each, the same
/// emojis of symbols are missing.
pub proof fn law_order_of_names_is_no_matter_for_symbols(
    symbols: Seq<ScryfallSymbol>,
    names: Seq<Seq<char>>,
    taken: Seq<Seq<char>>,
    other: Seq<Seq<char>>,
)
    requires
        forall|name: Seq<char>| #[trigger] taken.contains(name) <==> other.contains(name),
    ensures
        symbols_lacking(symbols, names, taken) == symbols_lacking(symbols, names, other),
{
    assert((|symbol: ScryfallSymbol, name: Seq<char>| !taken.contains(name)) =~= (
    |symbol: ScryfallSymbol, name: Seq<char>| !other.contains(name)));
}

/// What emojis consist of: their names and their pictures.
pub open spec fn emoji_contents(emojis: Seq<SetEmoji>) -> Seq<(Seq<char>, Seq<char>)> {
    emojis.map_values(|emoji: SetEmoji| (emoji.name@, emoji.image.0@))
}

/// The picture that a fetch brought, if it brought one.
pub open spec fn picture(fetched: ScryfallResult<String>) -> Option<Seq<char>> {
    match fetched {
        Ok(picture) => Some(picture@),
        Err(_) => None,
    }
}

/// Whether `fetched` holds the sets in their order, each with what `answers` gives
/// for the address of its picture.
pub open spec fn fetched_as(
    sets: Seq<ScryfallSet>,
    answers: spec_fn(Seq<char>) -> Option<Seq<char>>,
    fetched: Seq<(ScryfallSet, ScryfallResult<String>)>,
) -> bool {
    &&& fetched.len() == sets.len()
    &&& forall|i: int|
        0 <= i < fetched.len() ==> (#[trigger] fetched[i]).0 == sets[i] && picture(fetched[i].1)
            == answers(sets[i].icon_svg_uri@)
}

/// Whether `emojis` is what comes of asking for the missing emojis of the known sets:
/// these are listed in the order of `sets`, `answers` says which picture an address
/// gives, `fetched` are the pictures that were asked for and `default` is the one that
/// stands for sets without a picture, which is asked for where no emoji is so named.
pub open spec fn set_emojis_come_of(
    known: Map<u128, ScryfallSet>,
    naming: spec_fn(Seq<char>) -> Seq<char>,
    answers: spec_fn(Seq<char>) -> Option<Seq<char>>,
    taken: Seq<Seq<char>>,
    sets: Seq<ScryfallSet>,
    fetched: Seq<(ScryfallSet, ScryfallResult<String>)>,
    default: ScryfallResult<String>,
    emojis: Seq<SetEmoji>,
) -> bool {
    let made = fetched.filter_map(|one: (ScryfallSet, ScryfallResult<String>)| set_emoji(one));
    &&& lists_known(known, sets)
    &&& fetched_as(sets_lacking(sets, names_by(naming, sets), taken), answers, fetched)
    &&& if taken.contains("default"@) {
        emojis == made
    } else {
        &&& picture(default) == answers(DEFAULT_SET_ICON_URL@)
        &&& default_added(made, default, emojis)
    }
}

/// What the emoji of a set consists of, if its picture can be had.
spec fn content_of(set: ScryfallSet, answers: spec_fn(Seq<char>) -> Option<Seq<char>>) -> Option<
    (Seq<char>, Seq<char>),
> {
    match answers(set.icon_svg_uri@) {
        Some(picture) => Some((set.abbreviation@, picture)),
        None => None,
    }
}

/// What the emojis of sets consist of, as far as their pictures can be had.
spec fn contents_of(sets: Seq<ScryfallSet>, answers: spec_fn(Seq<char>) -> Option<Seq<char>>) -> Seq<
    (Seq<char>, Seq<char>),
> {
    sets.filter_map(|set: ScryfallSet| content_of(set, answers))
}

/// What the emoji consists of that stands for sets without a picture, where it is
/// missing and can be had.
spec fn default_content(
    taken: Seq<Seq<char>>,
    answers: spec_fn(Seq<char>) -> Option<Seq<char>>,
) -> Seq<(Seq<char>, Seq<char>)> {
    if taken.contains("default"@) {
        Seq::empty()
    } else {
        match answers(DEFAULT_SET_ICON_URL@) {
            Some(picture) => seq![("default"@, picture)],
            None => Seq::empty(),
        }
    }
}

/// The emojis made of fetched pictures consist of what their sets and the answers say.
proof fn lemma_contents_of_fetched(
    sets: Seq<ScryfallSet>,
    answers: spec_fn(Seq<char>) -> Option<Seq<char>>,
    fetched: Seq<(ScryfallSet, ScryfallResult<String>)>,
)
    requires
        fetched_as(sets, answers, fetched),
    ensures
        emoji_contents(
            fetched.filter_map(|one: (ScryfallSet, ScryfallResult<String>)| set_emoji(one)),
        ) == contents_of(sets, answers),
    decreases sets.len(),
{
    if sets.len() > 0 {
        let sooner = fetched.drop_last();
        assert forall|i: int| 0 <= i < sooner.len() implies (#[trigger] sooner[i]).0
            == sets.drop_last()[i] && picture(sooner[i].1) == answers(
            sets.drop_last()[i].icon_svg_uri@,
        ) by {
            assert(sooner[i] == fetched[i]);
        }
        lemma_contents_of_fetched(sets.drop_last(), answers, sooner);
        assert(fetched[fetched.len() - 1].0 == sets.last());
        let made = |one: (ScryfallSet, ScryfallResult<String>)| set_emoji(one);
        assert(emoji_contents(fetched.filter_map(made)) =~= contents_of(sets, answers));
    }
}

/// What the emojis of one go consist of.
proof fn lemma_contents_of_emojis(
    known: Map<u128, ScryfallSet>,
    naming: spec_fn(Seq<char>) -> Seq<char>,
    answers: spec_fn(Seq<char>) -> Option<Seq<char>>,
    taken: Seq<Seq<char>>,
    sets: Seq<ScryfallSet>,
    fetched: Seq<(ScryfallSet, ScryfallResult<String>)>,
    default: ScryfallResult<String>,
    emojis: Seq<SetEmoji>,
)
    requires
        set_emojis_come_of(known, naming, answers, taken, sets, fetched, default, emojis),
    ensures
        emoji_contents(emojis) == contents_of(
            sets_lacking(sets, names_by(naming, sets), taken),
            answers,
        ) + default_content(taken, answers),
{
    let missing = sets_lacking(sets, names_by(naming, sets), taken);
    lemma_contents_of_fetched(missing, answers, fetched);
    let made = fetched.filter_map(|one: (ScryfallSet, ScryfallResult<String>)| set_emoji(one));
    if !taken.contains("default"@) && default is Ok {
        assert(emojis =~= made.push(emojis.last()));
        assert(emoji_contents(emojis) =~= emoji_contents(made).push(
            emoji_contents(emojis).last(),
        ));
    }
    assert(emoji_contents(emojis) =~= contents_of(missing, answers) + default_content(
        taken,
        answers,
    ));
}

/// What is made of two sequences one behind the other is made of each.
proof fn lemma_filter_map_of_sum<A, B>(front: Seq<A>, back: Seq<A>, f: spec_fn(A) -> Option<B>)
    ensures
        (front + back).filter_map(f) == front.filter_map(f) + back.filter_map(f),
    decreases back.len(),
{
    if back.len() == 0 {
        assert(front + back =~= front);
    } else {
        lemma_filter_map_of_sum(front, back.drop_last(), f);
        assert((front + back).drop_last() =~= front + back.drop_last());
    }
    assert((front + back).filter_map(f) =~= front.filter_map(f) + back.filter_map(f));
}

/// Of fewer items no more is made, whatever their order.
proof fn lemma_filter_map_of_fewer<A, B>(few: Seq<A>, many: Seq<A>, f: spec_fn(A) -> Option<B>)
    requires
        few.to_multiset().subset_of(many.to_multiset()),
    ensures
        few.filter_map(f).to_multiset().subset_of(many.filter_map(f).to_multiset()),
    decreases few.len(),
{
    broadcast use {vstd::multiset::group_multiset_axioms, vstd::seq_lib::group_to_multiset_ensures};

    if few.len() > 0 {
        let item = few.last();
        assert(few.contains(item));
        assert(many.to_multiset().count(item) > 0);
        let k = choose|k: int| 0 <= k < many.len() && many[k] == item;
        let front = many.take(k);
        let back = many.skip(k + 1);
        let one = seq![item];
        assert(many =~= front + one + back);
        assert(few =~= few.drop_last() + one);
        lemma_multiset_commutative(few.drop_last(), one);
        lemma_multiset_commutative(front + one, back);
        lemma_multiset_commutative(front, one);
        lemma_multiset_commutative(front, back);
        assert forall|other: A| few.drop_last().to_multiset().count(other) <= (front
            + back).to_multiset().count(other) by {
            assert(few.to_multiset().count(other) <= many.to_multiset().count(other));
        }
        lemma_filter_map_of_fewer(few.drop_last(), front + back, f);
        lemma_filter_map_of_sum(few.drop_last(), one, f);
        lemma_filter_map_of_sum(front + one, back, f);
        lemma_filter_map_of_sum(front, one, f);
        lemma_filter_map_of_sum(front, back, f);
        lemma_multiset_commutative(few.drop_last().filter_map(f), one.filter_map(f));
        lemma_multiset_commutative((front + one).filter_map(f), back.filter_map(f));
        lemma_multiset_commutative(front.filter_map(f), one.filter_map(f));
        lemma_multiset_commutative(front.filter_map(f), back.filter_map(f));
    }
}

/// Where more names are in use, asking for the missing emojis of the same sets brings
/// no other emojis and none more often, as long as each address gives the same.
pub proof fn law_more_names_bring_fewer_emojis(
    known: Map<u128, ScryfallSet>,
    naming: spec_fn(Seq<char>) -> Seq<char>,
    answers: spec_fn(Seq<char>) -> Option<Seq<char>>,
    taken: Seq<Seq<char>>,
    sets: Seq<ScryfallSet>,
    fetched: Seq<(ScryfallSet, ScryfallResult<String>)>,
    default: ScryfallResult<String>,
    emojis: Seq<SetEmoji>,
    more: Seq<Seq<char>>,
    sets_again: Seq<ScryfallSet>,
    fetched_again: Seq<(ScryfallSet, ScryfallResult<String>)>,
    default_again: ScryfallResult<String>,
    emojis_again: Seq<SetEmoji>,
)
    requires
        set_emojis_come_of(known, naming, answers, taken, sets, fetched, default, emojis),
        set_emojis_come_of(
            known,
            naming,
            answers,
            more,
            sets_again,
            fetched_again,
            default_again,
            emojis_again,
        ),
        forall|name: Seq<char>| #[trigger] taken.contains(name) ==> more.contains(name),
    ensures
        emoji_contents(emojis_again).to_multiset().subset_of(emoji_contents(emojis).to_multiset()),
{
    broadcast use vstd::multiset::group_multiset_axioms;

    let missing = sets_lacking(sets, names_by(naming, sets), taken);
    let missing_again = sets_lacking(sets_again, names_by(naming, sets_again), more);
    lemma_contents_of_emojis(known, naming, answers, taken, sets, fetched, default, emojis);
    lemma_contents_of_emojis(
        known,
        naming,
        answers,
        more,
        sets_again,
        fetched_again,
        default_again,
        emojis_again,
    );
    law_more_names_leave_fewer_sets(known, naming, sets, sets_again, taken, more);
    lemma_filter_map_of_fewer(
        missing_again,
        missing,
        |set: ScryfallSet| content_of(set, answers),
    );
    lemma_multiset_commutative(contents_of(missing, answers), default_content(taken, answers));
    lemma_multiset_commutative(contents_of(missing_again, answers), default_content(more, answers));
    assert(taken.contains("default"@) ==> more.contains("default"@));
}

/// With the same names in use, in whatever order and however often each, asking for
/// the missing emojis of the same sets brings the same emojis, as long as each address
/// gives the same.
pub proof fn law_same_names_bring_same_emojis(
    known: Map<u128, ScryfallSet>,
    naming: spec_fn(Seq<char>) -> Seq<char>,
    answers: spec_fn(Seq<char>) -> Option<Seq<char>>,
    taken: Seq<Seq<char>>,
    sets: Seq<ScryfallSet>,
    fetched: Seq<(ScryfallSet, ScryfallResult<String>)>,
    default: ScryfallResult<String>,
    emojis: Seq<SetEmoji>,
    other: Seq<Seq<char>>,
    sets_again: Seq<ScryfallSet>,
    fetched_again: Seq<(ScryfallSet, ScryfallResult<String>)>,
    default_again: ScryfallResult<String>,
    emojis_again: Seq<SetEmoji>,
)
    requires
        set_emojis_come_of(known, naming, answers, taken, sets, fetched, default, emojis),
        set_emojis_come_of(
            known,
            naming,
            answers,
            other,
            sets_again,
            fetched_again,
            default_again,
            emojis_again,
        ),
        forall|name: Seq<char>| #[trigger] taken.contains(name) ==> other.contains(name),
        forall|name: Seq<char>| #[trigger] other.contains(name) ==> taken.contains(name),
    ensures
        emoji_contents(emojis_again).to_multiset() == emoji_contents(emojis).to_multiset(),
{
    broadcast use vstd::multiset::group_multiset_axioms;

    law_more_names_bring_fewer_emojis(
        known,
        naming,
        answers,
        taken,
        sets,
        fetched,
        default,
        emojis,
        other,
        sets_again,
        fetched_again,
        default_again,
        emojis_again,
    );
    law_more_names_bring_fewer_emojis(
        known,
        naming,
        answers,
        other,
        sets_again,
        fetched_again,
        default_again,
        emojis_again,
        taken,
        sets,
        fetched,
        default,
        emojis,
    );
    assert(emoji_contents(emojis_again).to_multiset() =~= emoji_contents(emojis).to_multiset());
}

/// There is an emoji of a name exactly if one of the emojis has that very name.
pub proof fn law_emoji_is_found_by_its_name(current: &Vec<EmojiMetaData>, name: &str, found: bool)
    requires
        call_ensures(has_emoji, (current, name), found),
    ensures
        found <==> exists|i: int| 0 <= i < current@.len() && (#[trigger] current@[i]).name@ == name@,
{
    lemma_names_in_use(current@, name@);
}

/// A name is among those of emojis exactly if one of them has it.
pub(crate) proof fn lemma_names_in_use(current: Seq<EmojiMetaData>, name: Seq<char>)
    ensures
        emoji_names(current).contains(name) <==> exists|i: int|
            0 <= i < current.len() && (#[trigger] current[i]).name@ == name,
{
    let names = emoji_names(current);
    if names.contains(name) {
        let i = choose|i: int| 0 <= i < names.len() && names[i] == name;
        assert(current[i].name@ == name);
    }
    if exists|i: int| 0 <= i < current.len() && (#[trigger] current[i]).name@ == name {
        let i = choose|i: int| 0 <= i < current.len() && (#[trigger] current[i]).name@ == name;
        assert(names[i] == name);
    }
}

/// An address without a question mark is that of the picture for sets without one of
/// their own exactly if it ends in the name of that picture.
pub proof fn law_default_icon_is_told_by_its_end(address: &str, default: bool)
    requires
        call_ensures(has_default_icon, (address,), default),
        !address@.contains('?'),
    ensures
        default <==> "default.svg"@.is_suffix_of(address@),
        default <==> is_default_icon(address@),
{
    lemma_without_query(address@);
}

/// An address without a question mark stands whole before it.
proof fn lemma_without_query(address: Seq<char>)
    requires
        !address.contains('?'),
    ensures
        before_query(address) == address,
    decreases address.len(),
{
    if address.len() > 0 {
        let rest = address.drop_first();
        assert(address.contains(address[0]));
        assert forall|c: char| rest.contains(c) implies address.contains(c) by {
            let i = choose|i: int| 0 <= i < rest.len() && rest[i] == c;
            assert(address[i + 1] == c);
        }
        lemma_without_query(rest);
        assert(seq![address[0]] + rest =~= address);
    }
}

/// An address is judged alike with and without a question mark and what stands behind
/// it.
pub proof fn law_icon_is_told_without_its_query(
    address: &str,
    query: Seq<char>,
    longer: &str,
    default: bool,
    longer_default: bool,
)
    requires
        call_ensures(has_default_icon, (address,), default),
        call_ensures(has_default_icon, (longer,), longer_default),
        longer@ == address@ + seq!['?'] + query,
    ensures
        default == longer_default,
{
    law_query_makes_no_difference(address@, query);
}

/// The picture that stands for sets without one of their own is where the card source
/// keeps it, and is told as such.
pub proof fn law_default_picture_is_told()
    ensures
        DEFAULT_SET_ICON_URL@ == "https://svgs.scryfall.io/sets/default.svg"@,
        is_default_icon(DEFAULT_SET_ICON_URL@),
{
    reveal_strlit("https://svgs.scryfall.io/sets/default.svg");
    reveal_strlit("default.svg");
    let address = "https://svgs.scryfall.io/sets/default.svg"@;
    assert(!address.contains('?'));
    lemma_without_query(address);
    assert(address.subrange(address.len() - 11, address.len() as int) =~= "default.svg"@);
}

/// The names that a normaliser gives are those that it is known to give.
proof fn lemma_missing_sets<F: Fn(&str) -> String>(
    sets: Vec<ScryfallSet>,
    current: &Vec<EmojiMetaData>,
    normalise: F,
    naming: spec_fn(Seq<char>) -> Seq<char>,
    missing: Vec<ScryfallSet>,
)
    requires
        forall|raw: &str, made: String| #[trigger]
            call_ensures(normalise, (raw,), made) ==> made@ == naming(raw@),
        call_ensures(missing_set_icons::<F>, (sets, current, normalise), missing),
    ensures
        missing@ == sets_lacking(sets@, names_by(naming, sets@), emoji_names(current@)),
{
    let names = choose|names: Seq<Seq<char>>|
        #![trigger normalised(normalise, abbreviations(sets@), names)]
        normalised(normalise, abbreviations(sets@), names) && missing@ == sets_lacking(
            sets@,
            names,
            emoji_names(current@),
        );
    law_normaliser_decides_names(normalise, naming, abbreviations(sets@), names);
}

/// With a normaliser that gives the name `naming` says, a set is asked for exactly if it
/// is one of those given, has a picture of its own, and no emoji has the name that is
/// made of its abbreviation.
pub proof fn law_set_is_asked_for_by_its_abbreviation<F: Fn(&str) -> String>(
    sets: Vec<ScryfallSet>,
    current: &Vec<EmojiMetaData>,
    normalise: F,
    naming: spec_fn(Seq<char>) -> Seq<char>,
    missing: Vec<ScryfallSet>,
    set: ScryfallSet,
)
    requires
        forall|raw: &str, made: String| #[trigger]
            call_ensures(normalise, (raw,), made) ==> made@ == naming(raw@),
        call_ensures(missing_set_icons::<F>, (sets, current, normalise), missing),
    ensures
        missing@.contains(set) <==> {
            &&& sets@.contains(set)
            &&& !is_default_icon(set.icon_svg_uri@)
            &&& forall|i: int|
                0 <= i < current@.len() ==> (#[trigger] current@[i]).name@ != naming(
                    set.abbreviation@,
                )
        },
{
    let names = names_by(naming, sets@);
    lemma_missing_sets(sets, current, normalise, naming, missing);
    law_every_missing_set_is_asked_for(sets@, names, emoji_names(current@), set);
    lemma_names_in_use(current@, naming(set.abbreviation@));
    if sets@.contains(set) {
        let i = choose|i: int| 0 <= i < sets@.len() && sets@[i] == set;
        assert(sets@[i] == set && names[i] == naming(set.abbreviation@));
    }
}

/// Whether an emoji is missing is found out for each set on its own, and sets keep their
/// order: what is missing of one list followed by another is what is missing of the
/// first followed by what is missing of the second. Of a single set it is that set or
/// nothing.
pub proof fn law_missing_sets_of_parts_add_up<F: Fn(&str) -> String>(
    normalise: F,
    naming: spec_fn(Seq<char>) -> Seq<char>,
    current: &Vec<EmojiMetaData>,
    sets: Vec<ScryfallSet>,
    first: Vec<ScryfallSet>,
    rest: Vec<ScryfallSet>,
    missing: Vec<ScryfallSet>,
    first_missing: Vec<ScryfallSet>,
    rest_missing: Vec<ScryfallSet>,
)
    requires
        forall|raw: &str, made: String| #[trigger]
            call_ensures(normalise, (raw,), made) ==> made@ == naming(raw@),
        sets@ == first@ + rest@,
        call_ensures(missing_set_icons::<F>, (sets, current, normalise), missing),
        call_ensures(missing_set_icons::<F>, (first, current, normalise), first_missing),
        call_ensures(missing_set_icons::<F>, (rest, current, normalise), rest_missing),
    ensures
        missing@ == first_missing@ + rest_missing@,
        sets@.len() == 1 ==> missing@.len() <= 1,
{
    let taken = emoji_names(current@);
    let pick = |set: ScryfallSet, name: Seq<char>| lacks_emoji(set, name, taken);
    lemma_missing_sets(sets, current, normalise, naming, missing);
    lemma_missing_sets(first, current, normalise, naming, first_missing);
    lemma_missing_sets(rest, current, normalise, naming, rest_missing);
    assert(names_by(naming, sets@) =~= names_by(naming, first@) + names_by(naming, rest@));
    lemma_picked_of_sum(
        first@,
        rest@,
        names_by(naming, first@),
        names_by(naming, rest@),
        pick,
    );
    lemma_picked_len(sets@, names_by(naming, sets@), pick);
}

/// No more is picked than there is.
proof fn lemma_picked_len<T>(
    items: Seq<T>,
    names: Seq<Seq<char>>,
    pick: spec_fn(T, Seq<char>) -> bool,
)
    ensures
        picked(items, names, pick).len() <= items.len(),
    decreases items.len(),
{
    if items.len() > 0 {
        lemma_picked_len(items.drop_last(), names.drop_last(), pick);
    }
}

/// What is picked of two sequences one behind the other is picked of each.
proof fn lemma_picked_of_sum<T>(
    front: Seq<T>,
    back: Seq<T>,
    front_names: Seq<Seq<char>>,
    back_names: Seq<Seq<char>>,
    pick: spec_fn(T, Seq<char>) -> bool,
)
    requires
        front.len() == front_names.len(),
        back.len() == back_names.len(),
    ensures
        picked(front + back, front_names + back_names, pick) == picked(front, front_names, pick)
            + picked(back, back_names, pick),
    decreases back.len(),
{
    let all = picked(front + back, front_names + back_names, pick);
    if back.len() == 0 {
        assert(front + back =~= front);
        assert(front_names + back_names =~= front_names);
    } else {
        lemma_picked_of_sum(front, back.drop_last(), front_names, back_names.drop_last(), pick);
        assert((front + back).drop_last() =~= front + back.drop_last());
        assert((front_names + back_names).drop_last() =~= front_names + back_names.drop_last());
        assert((front + back).last() == back.last());
        assert((front_names + back_names).last() == back_names.last());
    }
    assert(all =~= picked(front, front_names, pick) + picked(back, back_names, pick));
}

/// A set whose picture was fetched gives one emoji, which is named after the set's
/// abbreviation and shows that picture; a set whose picture was not fetched gives none.
pub proof fn law_set_emoji_carries_abbreviation_and_picture(
    fetched: Vec<(ScryfallSet, ScryfallResult<String>)>,
    emojis: Vec<SetEmoji>,
)
    requires
        fetched@.len() == 1,
        call_ensures(set_emojis, (fetched,), emojis),
    ensures
        fetched@[0].1 matches Ok(picture) ==> {
            &&& emojis@.len() == 1
            &&& emojis@[0].name@ == fetched@[0].0.abbreviation@
            &&& emojis@[0].image.0@ == picture@
        },
        fetched@[0].1 is Err ==> emojis@.len() == 0,
{
    let made = |one: (ScryfallSet, ScryfallResult<String>)| set_emoji(one);
    Seq::lemma_filter_map_singleton(fetched@[0], made);
    assert(fetched@ =~= seq![fetched@[0]]);
}

/// Sets give emojis each for itself: the emojis of one list followed by another are
/// those of the first followed by those of the second.
pub proof fn law_set_emojis_of_parts_add_up(
    fetched: Vec<(ScryfallSet, ScryfallResult<String>)>,
    first: Vec<(ScryfallSet, ScryfallResult<String>)>,
    rest: Vec<(ScryfallSet, ScryfallResult<String>)>,
    emojis: Vec<SetEmoji>,
    first_emojis: Vec<SetEmoji>,
    rest_emojis: Vec<SetEmoji>,
)
    requires
        fetched@ == first@ + rest@,
        call_ensures(set_emojis, (fetched,), emojis),
        call_ensures(set_emojis, (first,), first_emojis),
        call_ensures(set_emojis, (rest,), rest_emojis),
    ensures
        emojis@ == first_emojis@ + rest_emojis@,
{
    lemma_filter_map_of_sum(
        first@,
        rest@,
        |one: (ScryfallSet, ScryfallResult<String>)| set_emoji(one),
    );
}

/// For every set whose picture was fetched there is an emoji that is named after its
/// abbreviation and shows that picture, and every emoji is that of such a set.
pub proof fn law_every_fetched_set_gets_its_emoji(
    fetched: Vec<(ScryfallSet, ScryfallResult<String>)>,
    emojis: Vec<SetEmoji>,
    name: Seq<char>,
    shown: Seq<char>,
)
    requires
        call_ensures(set_emojis, (fetched,), emojis),
    ensures
        (exists|k: int|
            0 <= k < emojis@.len() && (#[trigger] emojis@[k]).name@ == name && emojis@[k].image.0@
                == shown) <==> exists|i: int|
            0 <= i < fetched@.len() && (#[trigger] fetched@[i]).0.abbreviation@ == name && (
            fetched@[i].1 matches Ok(picture) && picture@ == shown),
{
    let made = |one: (ScryfallSet, ScryfallResult<String>)| set_emoji(one);
    if exists|k: int|
        0 <= k < emojis@.len() && (#[trigger] emojis@[k]).name@ == name && emojis@[k].image.0@
            == shown {
        let k = choose|k: int|
            0 <= k < emojis@.len() && (#[trigger] emojis@[k]).name@ == name && emojis@[k].image.0@
                == shown;
        assert(emojis@.contains(emojis@[k]));
        fetched@.lemma_filter_map_contains(made, emojis@[k]);
        let one = choose|one: (ScryfallSet, ScryfallResult<String>)| #[trigger]
            fetched@.contains(one) && made(one) == Some(emojis@[k]);
        let i = choose|i: int| 0 <= i < fetched@.len() && fetched@[i] == one;
        assert(fetched@[i].0.abbreviation@ == name);
    }
    if exists|i: int|
        0 <= i < fetched@.len() && (#[trigger] fetched@[i]).0.abbreviation@ == name && (
        fetched@[i].1 matches Ok(picture) && picture@ == shown) {
        let i = choose|i: int|
            0 <= i < fetched@.len() && (#[trigger] fetched@[i]).0.abbreviation@ == name && (
            fetched@[i].1 matches Ok(picture) && picture@ == shown);
        let front = fetched@.take(i);
        let one = seq![fetched@[i]];
        let back = fetched@.skip(i + 1);
        assert(fetched@ =~= front + one + back);
        lemma_filter_map_of_sum(front + one, back, made);
        lemma_filter_map_of_sum(front, one, made);
        Seq::lemma_filter_map_singleton(fetched@[i], made);
        let k = front.filter_map(made).len() as int;
        assert(emojis@[k].name@ == name && emojis@[k].image.0@ == shown);
    }
}

/// Once the emojis that were made of fetched pictures exist under the names that are
/// made of theirs, none of their sets is asked for again.
pub proof fn law_set_with_emoji_is_not_asked_for_again<F: Fn(&str) -> String>(
    fetched: Vec<(ScryfallSet, ScryfallResult<String>)>,
    emojis: Vec<SetEmoji>,
    sets: Vec<ScryfallSet>,
    current: &Vec<EmojiMetaData>,
    normalise: F,
    naming: spec_fn(Seq<char>) -> Seq<char>,
    missing: Vec<ScryfallSet>,
    i: int,
)
    requires
        forall|raw: &str, made: String| #[trigger]
            call_ensures(normalise, (raw,), made) ==> made@ == naming(raw@),
        call_ensures(set_emojis, (fetched,), emojis),
        call_ensures(missing_set_icons::<F>, (sets, current, normalise), missing),
        forall|k: int|
            0 <= k < emojis@.len() ==> exists|j: int|
                0 <= j < current@.len() && (#[trigger] current@[j]).name@ == naming(
                    (#[trigger] emojis@[k]).name@,
                ),
        0 <= i < fetched@.len(),
        fetched@[i].1 is Ok,
    ensures
        !missing@.contains(fetched@[i].0),
{
    let set = fetched@[i].0;
    let shown = fetched@[i].1->Ok_0@;
    law_every_fetched_set_gets_its_emoji(fetched, emojis, set.abbreviation@, shown);
    let k = choose|k: int|
        0 <= k < emojis@.len() && (#[trigger] emojis@[k]).name@ == set.abbreviation@
            && emojis@[k].image.0@ == shown;
    assert(naming(emojis@[k].name@) == naming(set.abbreviation@));
    law_set_is_asked_for_by_its_abbreviation(sets, current, normalise, naming, missing, set);
}

/// The emoji that stands for sets without a picture is wanted exactly if no emoji is
/// named so.
pub proof fn law_default_icon_is_wanted_once(current: &Vec<EmojiMetaData>, wanted: bool)
    requires
        call_ensures(wants_default_icon, (current,), wanted),
    ensures
        wanted <==> forall|i: int|
            0 <= i < current@.len() ==> (#[trigger] current@[i]).name@ != "default"@,
{
    lemma_names_in_use(current@, "default"@);
}

/// The emoji that stands for sets without a picture comes behind the others, which stay
/// as they are; where its picture was not fetched, nothing comes.
pub proof fn law_default_icon_comes_last(
    emojis: Vec<SetEmoji>,
    fetched: ScryfallResult<String>,
    all: Vec<SetEmoji>,
)
    requires
        call_ensures(with_default_icon, (emojis, fetched), all),
    ensures
        forall|i: int| 0 <= i < emojis@.len() ==> #[trigger] all@[i] == emojis@[i],
        fetched is Err ==> all@.len() == emojis@.len(),
        fetched matches Ok(picture) ==> {
            &&& all@.len() == emojis@.len() + 1
            &&& all@[emojis@.len() as int].name@ == "default"@
            &&& all@[emojis@.len() as int].image.0@ == picture@
        },
{
    if fetched is Ok {
        assert forall|i: int| 0 <= i < emojis@.len() implies #[trigger] all@[i] == emojis@[i] by {
            assert(all@.drop_last()[i] == emojis@[i]);
        }
    }
}

/// The symbols that are missing, with a normaliser that is known.
proof fn lemma_missing_symbols<F: Fn(&str) -> String>(
    symbols: Vec<ScryfallSymbol>,
    current: &Vec<EmojiMetaData>,
    normalise: F,
    naming: spec_fn(Seq<char>) -> Seq<char>,
    missing: Vec<ScryfallSymbol>,
)
    requires
        forall|raw: &str, made: String| #[trigger]
            call_ensures(normalise, (raw,), made) ==> made@ == naming(raw@),
        call_ensures(missing_symbols::<F>, (Ok(symbols), current, normalise), missing),
    ensures
        missing@ == symbols_lacking(
            symbols@,
            symbol_texts(symbols@).map_values(naming),
            emoji_names(current@),
        ),
{
    let names = choose|names: Seq<Seq<char>>|
        #![trigger normalised(normalise, symbol_texts(symbols@), names)]
        normalised(normalise, symbol_texts(symbols@), names) && missing@ == symbols_lacking(
            symbols@,
            names,
            emoji_names(current@),
        );
    law_normaliser_decides_names(normalise, naming, symbol_texts(symbols@), names);
}

/// With a normaliser that gives the name `naming` says, a symbol is asked for exactly if
/// it is one of those fetched and no emoji has the name that is made of what the symbol
/// reads, whatever else is known of it.
pub proof fn law_symbol_is_asked_for_by_what_it_reads<F: Fn(&str) -> String>(
    symbols: Vec<ScryfallSymbol>,
    current: &Vec<EmojiMetaData>,
    normalise: F,
    naming: spec_fn(Seq<char>) -> Seq<char>,
    missing: Vec<ScryfallSymbol>,
    symbol: ScryfallSymbol,
)
    requires
        forall|raw: &str, made: String| #[trigger]
            call_ensures(normalise, (raw,), made) ==> made@ == naming(raw@),
        call_ensures(missing_symbols::<F>, (Ok(symbols), current, normalise), missing),
    ensures
        missing@.contains(symbol) <==> {
            &&& symbols@.contains(symbol)
            &&& forall|i: int|
                0 <= i < current@.len() ==> (#[trigger] current@[i]).name@ != naming(symbol.symbol@)
        },
{
    let names = symbol_texts(symbols@).map_values(naming);
    lemma_missing_symbols(symbols, current, normalise, naming, missing);
    law_every_missing_symbol_is_asked_for(symbols@, names, emoji_names(current@), symbol);
    lemma_names_in_use(current@, naming(symbol.symbol@));
    if symbols@.contains(symbol) {
        let i = choose|i: int| 0 <= i < symbols@.len() && symbols@[i] == symbol;
        assert(symbols@[i] == symbol && names[i] == naming(symbol.symbol@));
    }
}

/// Whether an emoji is missing is found out for each symbol on its own, and symbols keep
/// their order: what is missing of one list followed by another is what is missing of
/// the first followed by what is missing of the second. Of a single symbol it is that
/// symbol or nothing.
pub proof fn law_missing_symbols_of_parts_add_up<F: Fn(&str) -> String>(
    normalise: F,
    naming: spec_fn(Seq<char>) -> Seq<char>,
    current: &Vec<EmojiMetaData>,
    symbols: Vec<ScryfallSymbol>,
    first: Vec<ScryfallSymbol>,
    rest: Vec<ScryfallSymbol>,
    missing: Vec<ScryfallSymbol>,
    first_missing: Vec<ScryfallSymbol>,
    rest_missing: Vec<ScryfallSymbol>,
)
    requires
        forall|raw: &str, made: String| #[trigger]
            call_ensures(normalise, (raw,), made) ==> made@ == naming(raw@),
        symbols@ == first@ + rest@,
        call_ensures(missing_symbols::<F>, (Ok(symbols), current, normalise), missing),
        call_ensures(missing_symbols::<F>, (Ok(first), current, normalise), first_missing),
        call_ensures(missing_symbols::<F>, (Ok(rest), current, normalise), rest_missing),
    ensures
        missing@ == first_missing@ + rest_missing@,
        symbols@.len() == 1 ==> missing@.len() <= 1,
{
    let taken = emoji_names(current@);
    let pick = |symbol: ScryfallSymbol, name: Seq<char>| !taken.contains(name);
    let names = symbol_texts(symbols@).map_values(naming);
    let first_names = symbol_texts(first@).map_values(naming);
    let rest_names = symbol_texts(rest@).map_values(naming);
    lemma_missing_symbols(symbols, current, normalise, naming, missing);
    lemma_missing_symbols(first, current, normalise, naming, first_missing);
    lemma_missing_symbols(rest, current, normalise, naming, rest_missing);
    assert(names =~= first_names + rest_names);
    lemma_picked_of_sum(first@, rest@, first_names, rest_names, pick);
    lemma_picked_len(symbols@, names, pick);
}

/// Where the symbols could not be fetched, none is asked for.
pub proof fn law_no_symbols_without_a_list<F: Fn(&str) -> String>(
    error: ScryfallError,
    current: &Vec<EmojiMetaData>,
    normalise: F,
    missing: Vec<ScryfallSymbol>,
)
    requires
        call_ensures(missing_symbols::<F>, (Err(error), current, normalise), missing),
    ensures
        missing@.len() == 0,
{
}

/// A symbol whose picture was fetched is paired with it; a symbol whose picture was not
/// fetched is passed over.
pub proof fn law_symbol_is_paired_with_its_picture(
    fetched: Vec<(ScryfallSymbol, ScryfallResult<String>)>,
    images: Vec<SymbolImage>,
)
    requires
        fetched@.len() == 1,
        call_ensures(symbol_images, (fetched,), images),
    ensures
        fetched@[0].1 matches Ok(picture) ==> {
            &&& images@.len() == 1
            &&& images@[0].symbol@ == fetched@[0].0.symbol@
            &&& images@[0].image.0@ == picture@
        },
        fetched@[0].1 is Err ==> images@.len() == 0,
{
    let made = |one: (ScryfallSymbol, ScryfallResult<String>)| symbol_image(one);
    Seq::lemma_filter_map_singleton(fetched@[0], made);
    assert(fetched@ =~= seq![fetched@[0]]);
}

/// Symbols are paired each for itself: the pairs of one list followed by another are
/// those of the first followed by those of the second.
pub proof fn law_symbol_images_of_parts_add_up(
    fetched: Vec<(ScryfallSymbol, ScryfallResult<String>)>,
    first: Vec<(ScryfallSymbol, ScryfallResult<String>)>,
    rest: Vec<(ScryfallSymbol, ScryfallResult<String>)>,
    images: Vec<SymbolImage>,
    first_images: Vec<SymbolImage>,
    rest_images: Vec<SymbolImage>,
)
    requires
        fetched@ == first@ + rest@,
        call_ensures(symbol_images, (fetched,), images),
        call_ensures(symbol_images, (first,), first_images),
        call_ensures(symbol_images, (rest,), rest_images),
    ensures
        images@ == first_images@ + rest_images@,
{
    lemma_filter_map_of_sum(
        first@,
        rest@,
        |one: (ScryfallSymbol, ScryfallResult<String>)| symbol_image(one),
    );
}

} // verus!
