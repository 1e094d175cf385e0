//! The card source as the service knows it.

use vstd::prelude::*;

use crate::bulk_fetch::BulkFetch;
use crate::emoji::abbreviations;
use crate::emoji::emoji_names;
use crate::emoji::is_default_icon;
use crate::emoji::missing_set_icons;
use crate::emoji::normalised;
use crate::emoji::sets_lacking;
use crate::emoji::EmojiMetaData;
use crate::emoji_laws::law_normaliser_decides_names;
use crate::emoji_laws::lemma_known_set_asked_for;
use crate::emoji_laws::lemma_lacking_distinct;
use crate::emoji_laws::lemma_names_in_use;
use crate::error::ScryfallError;
use crate::error::ScryfallResult;
use crate::rate::per_second;
use crate::rate::quota_per_second;
use crate::rate::RateLimit;
use crate::search::CardSearch;
use crate::search::SearchState;
use crate::sets::is_recent;
use crate::sets::law_last_word_counts;
use crate::sets::law_listing_holds_what_is_known;
use crate::sets::law_nothing_is_forgotten;
use crate::sets::law_other_sets_stay;
use crate::sets::learned;
use crate::sets::lemma_last_with_id;
use crate::sets::lists_known;
use crate::sets::recent_sets;
use crate::sets::KnownSets;
use crate::sets::ScryfallSet;

verus! {

/// The card source: where it is, how fast it may be asked, and the sets that it
/// has told of.
pub struct Scryfall {
    base_url: String,
    sets: KnownSets,
    low_limit: RateLimit,
    high_limit: RateLimit,
}

/// The card source as a mathematical value.
pub struct SourceState {
    pub base_url: Seq<char>,
    pub sets: Map<u128, ScryfallSet>,
    pub low_limit: RateLimit,
    pub high_limit: RateLimit,
}

impl View for Scryfall {
    type V = SourceState;

    closed spec fn view(&self) -> SourceState {
        SourceState {
            base_url: self.base_url@,
            sets: self.sets@,
            low_limit: self.low_limit,
            high_limit: self.high_limit,
        }
    }
}

impl Default for Scryfall {
    /// A card source without an address, of which no sets are known. Two requests
    /// a second may be made for data, ten for pictures.
    fn default() -> (source: Self)
        ensures
            source@ == (SourceState {
                base_url: Seq::empty(),
                sets: Map::empty(),
                low_limit: RateLimit { burst: 2, interval_nanos: 500_000_000 },
                high_limit: RateLimit { burst: 10, interval_nanos: 100_000_000 },
            }),
    {
        assert(per_second(2).interval_nanos == 500_000_000) by (nonlinear_arith);
        assert(per_second(10).interval_nanos == 100_000_000) by (nonlinear_arith);
        Scryfall {
            base_url: String::new(),
            sets: KnownSets::new(),
            low_limit: quota_per_second(2),
            high_limit: quota_per_second(10),
        }
    }
}

impl Scryfall {
    /// The card source at its public address.
    pub fn new() -> (source: Scryfall)
        ensures
            source@ == (SourceState {
                base_url: "https://api.scryfall.com"@,
                sets: Map::empty(),
                low_limit: RateLimit { burst: 2, interval_nanos: 500_000_000 },
                high_limit: RateLimit { burst: 10, interval_nanos: 100_000_000 },
            }),
    {
        let blank = Scryfall::default();
        Scryfall { base_url: "https://api.scryfall.com".to_owned(), ..blank }
    }

    /// The limit on requests for data.
    pub fn low_limit(&self) -> (limit: RateLimit)
        ensures
            limit == self@.low_limit,
    {
        self.low_limit
    }

    /// The limit on requests for pictures.
    pub fn high_limit(&self) -> (limit: RateLimit)
        ensures
            limit == self@.high_limit,
    {
        self.high_limit
    }

    /// The address of the list of sets.
    pub fn sets_url(&self) -> (url: String)
        ensures
            url@ == self@.base_url + "/sets"@,
    {
        let mut url = self.base_url.clone();
        url.append("/sets");
        url
    }

    /// The address of the list of symbols.
    pub fn symbology_url(&self) -> (url: String)
        ensures
            url@ == self@.base_url + "/symbology"@,
    {
        let mut url = self.base_url.clone();
        url.append("/symbology");
        url
    }

    /// How to get hold of the bulk download from this source.
    pub fn bulk_fetch(&self, local_cache: bool) -> (plan: BulkFetch)
        ensures
            plan.base_url@ == self@.base_url,
            plan.local_cache == local_cache,
    {
        BulkFetch { base_url: self.base_url.clone(), local_cache }
    }

    /// Starts a search of this source for the cards of the sets with these
    /// abbreviations.
    pub fn card_search<T>(&self, sets: Vec<String>) -> (search: CardSearch<T>)
        ensures
            search@ == SearchState::<T>::begin(
                self@.base_url,
                sets@.map_values(|set: String| set@),
            ),
    {
        CardSearch::new(self.base_url.clone(), sets)
    }

    /// The sets that are known, in no particular order.
    pub fn known_sets(&self) -> (listing: Vec<ScryfallSet>)
        ensures
            lists_known(self@.sets, listing@),
    {
        self.sets.list()
    }

    /// The answer to a question for recent sets that needs no fetch: the known
    /// sets, where there are any.
    pub fn cached_sets(&self) -> (listing: Option<Vec<ScryfallSet>>)
        ensures
            match listing {
                Some(listing) => self@.sets != Map::<u128, ScryfallSet>::empty() && lists_known(
                    self@.sets,
                    listing@,
                ),
                None => self@.sets == Map::<u128, ScryfallSet>::empty(),
            },
    {
        if self.sets.is_empty() {
            None
        } else {
            Some(self.sets.list())
        }
    }

    /// Takes in the sets that were fetched, and lists all that are known. Where
    /// the fetch failed, nothing changes and nothing is listed.
    pub fn get_all_sets(&mut self, fetched: ScryfallResult<Vec<ScryfallSet>>) -> (listing: Vec<
        ScryfallSet,
    >)
        ensures
            match fetched {
                Ok(sets) => {
                    &&& final(self)@ == (SourceState {
                        sets: learned(old(self)@.sets, sets@),
                        ..old(self)@
                    })
                    &&& lists_known(final(self)@.sets, listing@)
                },
                Err(_) => final(self)@ == old(self)@ && listing@.len() == 0,
            },
    {
        match fetched {
            Ok(sets) => {
                self.sets.learn(sets);
                self.sets.list()
            },
            Err(_) => Vec::new(),
        }
    }

    /// Takes in those of the fetched sets that are recent, and lists all that are
    /// known. Where the fetch failed, nothing changes and nothing is listed.
    pub fn get_recent_sets(
        &mut self,
        fetched: ScryfallResult<Vec<ScryfallSet>>,
        threshold: i32,
    ) -> (listing: Vec<ScryfallSet>)
        ensures
            match fetched {
                Ok(sets) => {
                    &&& final(self)@ == (SourceState {
                        sets: learned(
                            old(self)@.sets,
                            sets@.filter(|set: ScryfallSet| is_recent(set, threshold)),
                        ),
                        ..old(self)@
                    })
                    &&& lists_known(final(self)@.sets, listing@)
                },
                Err(_) => final(self)@ == old(self)@ && listing@.len() == 0,
            },
    {
        self.get_all_sets(recent_sets(fetched, threshold))
    }

    /// The known sets for which an emoji is missing, in no particular order;
    /// `normalise` makes the name of an emoji out of the abbreviation of a set.
    pub fn sets_without_emoji<F: Fn(&str) -> String>(
        &self,
        current: &Vec<EmojiMetaData>,
        normalise: F,
    ) -> (missing: Vec<ScryfallSet>)
        requires
            forall|raw: &str| call_requires(normalise, (raw,)),
        ensures
            exists|sets: Seq<ScryfallSet>, names: Seq<Seq<char>>|
                {
                    &&& lists_known(self@.sets, sets)
                    &&& #[trigger] normalised(normalise, abbreviations(sets), names)
                    &&& missing@ == #[trigger] sets_lacking(
                        sets,
                        names,
                        emoji_names(current@),
                    )
                },
    {
        missing_set_icons(self.sets.list(), current, normalise)
    }
}

/// Once a recent set was fetched, sets are known, so that the next question for
/// recent sets needs no fetch.
pub proof fn law_recent_sets_are_fetched_once(
    known: Map<u128, ScryfallSet>,
    fetched: Seq<ScryfallSet>,
    threshold: i32,
    at: int,
)
    requires
        0 <= at < fetched.len(),
        is_recent(fetched[at], threshold),
    ensures
        learned(known, fetched.filter(|set: ScryfallSet| is_recent(set, threshold))) != Map::<
            u128,
            ScryfallSet,
        >::empty(),
{
    let wanted = |set: ScryfallSet| is_recent(set, threshold);
    let recent = fetched.filter(wanted);
    fetched.lemma_filter_contains(wanted, at);
    let i = choose|i: int| 0 <= i < recent.len() && recent[i] == fetched[at];
    assert(recent[i].id == fetched[at].id);
    law_nothing_is_forgotten(known, recent, fetched[at].id);
    assert(learned(known, recent).contains_key(fetched[at].id));
}

/// What is listed does not depend on how it is listed: two listings of the known
/// sets hold the same sets.
pub proof fn law_listings_agree(
    known: Map<u128, ScryfallSet>,
    one: Seq<ScryfallSet>,
    other: Seq<ScryfallSet>,
)
    requires
        lists_known(known, one),
        lists_known(known, other),
    ensures
        forall|set: ScryfallSet| one.contains(set) <==> other.contains(set),
{
    assert forall|set: ScryfallSet| one.contains(set) implies other.contains(set) by {
        let i = choose|i: int| 0 <= i < one.len() && one[i] == set;
        assert(known.contains_key(one[i].id));
    }
    assert forall|set: ScryfallSet| other.contains(set) implies one.contains(set) by {
        let i = choose|i: int| 0 <= i < other.len() && other[i] == set;
        assert(known.contains_key(other[i].id));
    }
}

/// A new source stands at the public address and knows no sets. It may be asked twice a
/// second for data and ten times a second for pictures.
pub proof fn law_new_source_stands_at_its_address(
    source: Scryfall,
    low: RateLimit,
    high: RateLimit,
    listing: Vec<ScryfallSet>,
)
    requires
        call_ensures(Scryfall::new, (), source),
        call_ensures(Scryfall::low_limit, (&source,), low),
        call_ensures(Scryfall::high_limit, (&source,), high),
        call_ensures(Scryfall::known_sets, (&source,), listing),
    ensures
        source@.base_url == "https://api.scryfall.com"@,
        low.burst == 2,
        high.burst == 10,
        low.burst * low.interval_nanos == 1_000_000_000,
        high.burst * high.interval_nanos == 1_000_000_000,
        listing@.len() == 0,
{
    if listing@.len() > 0 {
        assert(source@.sets.contains_key(listing@[0].id));
    }
}

/// A source without an address knows no sets and has the limits of any other.
pub proof fn law_default_source_has_no_address(
    source: Scryfall,
    other: Scryfall,
    listing: Vec<ScryfallSet>,
)
    requires
        call_ensures(Scryfall::default, (), source),
        call_ensures(Scryfall::new, (), other),
        call_ensures(Scryfall::known_sets, (&source,), listing),
    ensures
        source@.base_url.len() == 0,
        source@.low_limit == other@.low_limit,
        source@.high_limit == other@.high_limit,
        listing@.len() == 0,
{
    if listing@.len() > 0 {
        assert(source@.sets.contains_key(listing@[0].id));
    }
}

/// The lists of a source lie right below its address: the sets under "/sets" and the
/// symbols under "/symbology".
pub proof fn law_lists_lie_below_the_source(source: Scryfall, sets: String, symbology: String)
    requires
        call_ensures(Scryfall::sets_url, (&source,), sets),
        call_ensures(Scryfall::symbology_url, (&source,), symbology),
    ensures
        source@.base_url.is_prefix_of(sets@),
        "/sets"@.is_suffix_of(sets@),
        sets@.len() == source@.base_url.len() + "/sets"@.len(),
        source@.base_url.is_prefix_of(symbology@),
        "/symbology"@.is_suffix_of(symbology@),
        symbology@.len() == source@.base_url.len() + "/symbology"@.len(),
{
    let start = source@.base_url.len() as int;
    assert(sets@.subrange(0, start) =~= source@.base_url);
    assert(sets@.subrange(start, sets@.len() as int) =~= "/sets"@);
    assert(symbology@.subrange(0, start) =~= source@.base_url);
    assert(symbology@.subrange(start, symbology@.len() as int) =~= "/symbology"@);
}

/// A bulk fetch and a search ask the source that they come from. The search is for the
/// given sets, in their order, and begins with the first.
pub proof fn law_fetch_and_search_ask_their_source<T>(
    source: Scryfall,
    local_cache: bool,
    plan: BulkFetch,
    sets: Vec<String>,
    search: CardSearch<T>,
    page: Option<String>,
    at: usize,
    cards: Vec<T>,
)
    requires
        call_ensures(Scryfall::bulk_fetch, (&source, local_cache), plan),
        call_ensures(Scryfall::card_search::<T>, (&source, sets), search),
        call_ensures(CardSearch::<T>::next_page, (&search,), page),
        call_ensures(CardSearch::<T>::current_set, (&search,), at),
        call_ensures(CardSearch::<T>::into_cards, (search,), cards),
    ensures
        plan.base_url@ == source@.base_url,
        plan.local_cache == local_cache,
        search@.base_url == source@.base_url,
        search@.sets.len() == sets@.len(),
        forall|i: int| 0 <= i < sets@.len() ==> #[trigger] search@.sets[i] == sets@[i]@,
        at == 0,
        cards@.len() == 0,
        page is Some <==> sets@.len() > 0,
        page matches Some(page) ==> page@ == source@.base_url + "/cards/search?q=e:"@
            + sets@[0]@,
{
}

/// What a source lists is what it knows, each set once. There is an answer without a
/// fetch exactly if some set is known, and then it is such a list.
pub proof fn law_source_lists_what_it_knows(
    source: Scryfall,
    listing: Vec<ScryfallSet>,
    cached: Option<Vec<ScryfallSet>>,
    set: ScryfallSet,
)
    requires
        call_ensures(Scryfall::known_sets, (&source,), listing),
        call_ensures(Scryfall::cached_sets, (&source,), cached),
    ensures
        listing@.contains(set) <==> source@.sets.contains_key(set.id) && source@.sets[set.id]
            == set,
        listing@.no_duplicates(),
        cached is None <==> listing@.len() == 0,
        cached matches Some(cached) ==> {
            &&& cached@.contains(set) <==> listing@.contains(set)
            &&& cached@.no_duplicates()
        },
{
    let known = source@.sets;
    law_listing_holds_what_is_known(known, listing@, set);
    if let Some(cached) = cached {
        law_listing_holds_what_is_known(known, cached@, set);
        if listing@.len() == 0 {
            assert forall|id: u128| !known.contains_key(id) by {
                if known.contains_key(id) {
                    assert(listing@.contains(known[id]));
                }
            }
            assert(known =~= Map::<u128, ScryfallSet>::empty());
        }
    } else if listing@.len() > 0 {
        assert(known.contains_key(listing@[0].id));
    }
}

/// After a fetch of sets a set is listed exactly if it was fetched, with no other of the
/// same identifier behind it, or was known before and none with its identifier was
/// fetched. Each is listed once, and of the source nothing else changes.
pub proof fn law_fetched_sets_are_listed(
    source: &mut Scryfall,
    sets: Vec<ScryfallSet>,
    listing: Vec<ScryfallSet>,
    set: ScryfallSet,
)
    requires
        call_ensures(Scryfall::get_all_sets, (source, Ok(sets)), listing),
    ensures
        listing@.contains(set) <==> {
            ||| exists|at: int|
                0 <= at < sets@.len() && #[trigger] sets@[at] == set && forall|i: int|
                    at < i < sets@.len() ==> (#[trigger] sets@[i]).id != set.id
            ||| {
                &&& old(source)@.sets.contains_key(set.id)
                &&& old(source)@.sets[set.id] == set
                &&& forall|i: int| 0 <= i < sets@.len() ==> (#[trigger] sets@[i]).id != set.id
            }
        },
        listing@.no_duplicates(),
        listing@.contains(set) <==> final(source)@.sets.contains_key(set.id)
            && final(source)@.sets[set.id] == set,
        final(source)@.base_url == old(source)@.base_url,
        final(source)@.low_limit == old(source)@.low_limit,
        final(source)@.high_limit == old(source)@.high_limit,
{
    let before = old(source)@.sets;
    let after = learned(before, sets@);
    law_listing_holds_what_is_known(after, listing@, set);
    lemma_learned_holds(before, sets@, set);
}

/// Which sets are known after learning.
proof fn lemma_learned_holds(known: Map<u128, ScryfallSet>, sets: Seq<ScryfallSet>, set: ScryfallSet)
    ensures
        learned(known, sets).contains_key(set.id) && learned(known, sets)[set.id] == set <==> {
            ||| exists|at: int|
                0 <= at < sets.len() && #[trigger] sets[at] == set && forall|i: int|
                    at < i < sets.len() ==> (#[trigger] sets[i]).id != set.id
            ||| {
                &&& known.contains_key(set.id)
                &&& known[set.id] == set
                &&& forall|i: int| 0 <= i < sets.len() ==> (#[trigger] sets[i]).id != set.id
            }
        },
{
    if exists|i: int| 0 <= i < sets.len() && (#[trigger] sets[i]).id == set.id {
        let last = lemma_last_with_id(sets, set.id);
        law_last_word_counts(known, sets, last);
        if exists|at: int|
            0 <= at < sets.len() && #[trigger] sets[at] == set && forall|i: int|
                at < i < sets.len() ==> (#[trigger] sets[i]).id != set.id {
            let at = choose|at: int|
                0 <= at < sets.len() && #[trigger] sets[at] == set && forall|i: int|
                    at < i < sets.len() ==> (#[trigger] sets[i]).id != set.id;
            assert(sets[at].id == set.id);
            assert(sets[last].id == set.id);
        }
    } else {
        law_other_sets_stay(known, sets, set.id);
        if exists|at: int|
            0 <= at < sets.len() && #[trigger] sets[at] == set && forall|i: int|
                at < i < sets.len() ==> (#[trigger] sets[i]).id != set.id {
            let at = choose|at: int|
                0 <= at < sets.len() && #[trigger] sets[at] == set && forall|i: int|
                    at < i < sets.len() ==> (#[trigger] sets[i]).id != set.id;
            assert(sets[at].id == set.id);
        }
    }
}

/// After a fetch for recent sets the source lists what it would list if only those of
/// the fetched sets had come that are picked as recent.
pub proof fn law_recent_sets_are_listed(
    source: &mut Scryfall,
    sets: Vec<ScryfallSet>,
    threshold: i32,
    listing: Vec<ScryfallSet>,
    recent: Vec<ScryfallSet>,
    set: ScryfallSet,
)
    requires
        call_ensures(Scryfall::get_recent_sets, (source, Ok(sets), threshold), listing),
        call_ensures(recent_sets, (Ok(sets), threshold), Ok(recent)),
    ensures
        listing@.contains(set) <==> {
            ||| exists|at: int|
                0 <= at < recent@.len() && #[trigger] recent@[at] == set && forall|i: int|
                    at < i < recent@.len() ==> (#[trigger] recent@[i]).id != set.id
            ||| {
                &&& old(source)@.sets.contains_key(set.id)
                &&& old(source)@.sets[set.id] == set
                &&& forall|i: int| 0 <= i < recent@.len() ==> (#[trigger] recent@[i]).id != set.id
            }
        },
        listing@.no_duplicates(),
        listing@.contains(set) <==> final(source)@.sets.contains_key(set.id)
            && final(source)@.sets[set.id] == set,
        final(source)@.base_url == old(source)@.base_url,
        final(source)@.low_limit == old(source)@.low_limit,
        final(source)@.high_limit == old(source)@.high_limit,
{
    let before = old(source)@.sets;
    let after = learned(before, recent@);
    law_listing_holds_what_is_known(after, listing@, set);
    lemma_learned_holds(before, recent@, set);
}

/// A set that was fetched, has cards and is not released before the given day is listed,
/// unless another one with its identifier takes its place; one that has no cards or is
/// released before is not listed for having been fetched.
pub proof fn law_only_recent_sets_are_added(
    source: &mut Scryfall,
    sets: Vec<ScryfallSet>,
    threshold: i32,
    listing: Vec<ScryfallSet>,
    at: int,
)
    requires
        call_ensures(Scryfall::get_recent_sets, (source, Ok(sets), threshold), listing),
        0 <= at < sets@.len(),
        forall|i: int| 0 <= i < sets@.len() && i != at ==> (#[trigger] sets@[i]).id != sets@[at].id,
        !old(source)@.sets.contains_key(sets@[at].id),
    ensures
        listing@.contains(sets@[at]) <==> sets@[at].card_count > 0 && sets@[at].released_at
            >= threshold,
{
    let set = sets@[at];
    let before = old(source)@.sets;
    let wanted = |set: ScryfallSet| is_recent(set, threshold);
    let recent = sets@.filter(wanted);
    law_listing_holds_what_is_known(learned(before, recent), listing@, set);
    lemma_learned_holds(before, recent, set);
    assert forall|i: int| 0 <= i < recent.len() && (#[trigger] recent[i]).id == set.id implies set
        == recent[i] && wanted(set) by {
        assert(recent.contains(recent[i]));
        sets@.lemma_filter_contains_rev(wanted, recent[i]);
        let k = choose|k: int| 0 <= k < sets@.len() && sets@[k] == recent[i];
        assert(sets@[k].id == set.id);
    }
    if wanted(set) {
        sets@.lemma_filter_contains(wanted, at);
        let i = choose|i: int| 0 <= i < recent.len() && recent[i] == set;
        assert(recent[i].id == set.id);
        let last = lemma_last_with_id(recent, set.id);
        assert(recent[last] == set);
    }
}

/// A failed fetch changes nothing and lists nothing.
pub proof fn law_failed_fetch_changes_nothing(
    source: &mut Scryfall,
    other: &mut Scryfall,
    error: ScryfallError,
    threshold: i32,
    all: Vec<ScryfallSet>,
    recent: Vec<ScryfallSet>,
)
    requires
        call_ensures(Scryfall::get_all_sets, (source, Err(error)), all),
        call_ensures(Scryfall::get_recent_sets, (other, Err(error), threshold), recent),
    ensures
        final(source)@ == old(source)@,
        final(other)@ == old(other)@,
        all@.len() == 0,
        recent@.len() == 0,
{
}

/// With a normaliser that gives the name `naming` says, a source asks for an emoji for
/// exactly those sets that it knows, that have a picture of their own, and for which no
/// emoji has the name that is made of their abbreviation. It asks once for each.
pub proof fn law_source_asks_by_abbreviation<F: Fn(&str) -> String>(
    source: Scryfall,
    current: &Vec<EmojiMetaData>,
    normalise: F,
    naming: spec_fn(Seq<char>) -> Seq<char>,
    missing: Vec<ScryfallSet>,
    set: ScryfallSet,
)
    requires
        forall|raw: &str, made: String| #[trigger]
            call_ensures(normalise, (raw,), made) ==> made@ == naming(raw@),
        call_ensures(Scryfall::sets_without_emoji::<F>, (&source, current, normalise), missing),
    ensures
        missing@.contains(set) <==> {
            &&& source@.sets.contains_key(set.id)
            &&& source@.sets[set.id] == set
            &&& !is_default_icon(set.icon_svg_uri@)
            &&& forall|i: int|
                0 <= i < current@.len() ==> (#[trigger] current@[i]).name@ != naming(
                    set.abbreviation@,
                )
        },
        missing@.no_duplicates(),
{
    let known = source@.sets;
    let taken = emoji_names(current@);
    let (sets, names) = choose|sets: Seq<ScryfallSet>, names: Seq<Seq<char>>|
        {
            &&& lists_known(known, sets)
            &&& #[trigger] normalised(normalise, abbreviations(sets), names)
            &&& missing@ == #[trigger] sets_lacking(sets, names, taken)
        };
    law_normaliser_decides_names(normalise, naming, abbreviations(sets), names);
    lemma_known_set_asked_for(known, naming, sets, taken, set);
    lemma_lacking_distinct(known, naming, sets, taken);
    lemma_names_in_use(current@, naming(set.abbreviation@));
}

} // verus!
