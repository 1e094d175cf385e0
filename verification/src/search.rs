//! Collecting the cards of several sets, page by page.

use vstd::prelude::*;

use crate::data::ScryfallData;
use crate::error::ScryfallError;
use crate::error::ScryfallResult;

verus! {

/// The address of the first page of cards of a set.
pub open spec fn search_address(base_url: Seq<char>, abbreviation: Seq<char>) -> Seq<char> {
    base_url + "/cards/search?q=e:"@ + abbreviation
}

/// Writes the address of the first page of cards of a set.
pub fn search_url(base_url: &str, abbreviation: &str) -> (url: String)
    ensures
        url@ == search_address(base_url@, abbreviation@),
{
    let mut url = base_url.to_owned();
    url.append("/cards/search?q=e:");
    url.append(abbreviation);
    url
}

/// The contents of an optional text.
pub open spec fn optional_text(text: Option<String>) -> Option<Seq<char>> {
    match text {
        Some(text) => Some(text@),
        None => None,
    }
}

/// A search as a mathematical value.
#[verifier::ext_equal]
pub struct SearchState<T> {
    /// The address under which the card source answers.
    pub base_url: Seq<char>,
    /// The abbreviations of the sets.
    pub sets: Seq<Seq<char>>,
    /// Which set is being collected; all of them are where there is no such set.
    pub at: nat,
    /// The page to ask for, as long as there is one.
    pub page: Option<Seq<char>>,
    /// The cards so far.
    pub cards: Seq<T>,
}

/// What came of asking for a page.
pub enum PageReply<T> {
    /// The page, and the address of the one after it.
    Page(Seq<T>, Option<Seq<char>>),
    /// There was no page to be had.
    Missed,
}

impl<T> SearchState<T> {
    /// The search at the start of a set, with what was collected before.
    pub open spec fn enter(self, at: nat) -> SearchState<T> {
        SearchState {
            at,
            page: if at < self.sets.len() {
                Some(search_address(self.base_url, self.sets[at as int]))
            } else {
                None
            },
            ..self
        }
    }

    /// The search before the first page.
    pub open spec fn begin(base_url: Seq<char>, sets: Seq<Seq<char>>) -> SearchState<T> {
        (SearchState { base_url, sets, at: 0, page: None, cards: Seq::empty() }).enter(0)
    }

    /// The search after a page was asked for: its cards are added, and the page
    /// that it names is next. Where it names none, or where there was no page,
    /// the next set is.
    pub open spec fn step(self, reply: PageReply<T>) -> SearchState<T> {
        match reply {
            PageReply::Page(cards, Some(next)) => SearchState {
                page: Some(next),
                cards: self.cards + cards,
                ..self
            },
            PageReply::Page(cards, None) => (SearchState {
                cards: self.cards + cards,
                ..self
            }).enter(self.at + 1),
            PageReply::Missed => self.enter(self.at + 1),
        }
    }
}

/// A reply as the search takes it in.
pub open spec fn page_reply<T>(reply: ScryfallResult<ScryfallData<T>>) -> PageReply<T> {
    match reply {
        Ok(page) => PageReply::Page(page.data@, optional_text(page.next_page)),
        Err(_) => PageReply::Missed,
    }
}

/// A search for the cards of several sets.
pub struct CardSearch<T> {
    base_url: String,
    sets: Vec<String>,
    at: usize,
    page: Option<String>,
    cards: Vec<T>,
}

impl<T> View for CardSearch<T> {
    type V = SearchState<T>;

    closed spec fn view(&self) -> SearchState<T> {
        SearchState {
            base_url: self.base_url@,
            sets: self.sets@.map_values(|set: String| set@),
            at: self.at as nat,
            page: optional_text(self.page),
            cards: self.cards@,
        }
    }
}

impl<T> CardSearch<T> {
    /// There is a page to ask for exactly as long as there is a set to collect.
    #[verifier::type_invariant]
    spec fn well_formed(self) -> bool {
        &&& self.at <= self.sets@.len()
        &&& self.page is Some <==> self.at < self.sets@.len()
    }

    /// The first page of the set with number `at`, if there is such a set.
    fn first_page(base_url: &String, sets: &Vec<String>, at: usize) -> (page: Option<String>)
        ensures
            optional_text(page) == (if at < sets@.len() {
                Some(search_address(base_url@, sets@[at as int]@))
            } else {
                None
            }),
    {
        if at < sets.len() {
            Some(search_url(base_url.as_str(), sets[at].as_str()))
        } else {
            None
        }
    }

    /// Starts a search for the cards of the sets with these abbreviations.
    pub fn new(base_url: String, sets: Vec<String>) -> (search: CardSearch<T>)
        ensures
            search@ == SearchState::<T>::begin(
                base_url@,
                sets@.map_values(|set: String| set@),
            ),
    {
        let page = Self::first_page(&base_url, &sets, 0);
        CardSearch { base_url, sets, at: 0, page, cards: Vec::new() }
    }

    /// The address of the page to ask for; none once the search is over.
    pub fn next_page(&self) -> (page: Option<String>)
        ensures
            optional_text(page) == self@.page,
            page is Some <==> self@.at < self@.sets.len(),
    {
        proof {
            use_type_invariant(self);
        }
        match &self.page {
            Some(page) => Some(page.clone()),
            None => None,
        }
    }

    /// Which set is being collected; the number of sets once the search is over.
    pub fn current_set(&self) -> (at: usize)
        ensures
            at == self@.at,
            at <= self@.sets.len(),
    {
        proof {
            use_type_invariant(self);
        }
        self.at
    }

    /// Takes in what came of asking for the page.
    pub fn take_page(self, reply: ScryfallResult<ScryfallData<T>>) -> (search: CardSearch<T>)
        requires
            self@.page is Some,
        ensures
            search@ == self@.step(page_reply(reply)),
    {
        proof {
            use_type_invariant(&self);
        }
        let CardSearch { base_url, sets, at, page, mut cards } = self;
        assert(at < sets.len());
        match reply {
            Ok(reply) => {
                let mut data = reply.data;
                cards.append(&mut data);
                match reply.next_page {
                    Some(next) => CardSearch { base_url, sets, at, page: Some(next), cards },
                    None => {
                        let page = Self::first_page(&base_url, &sets, at + 1);
                        CardSearch { base_url, sets, at: at + 1, page, cards }
                    },
                }
            },
            Err(_) => {
                let page = Self::first_page(&base_url, &sets, at + 1);
                CardSearch { base_url, sets, at: at + 1, page, cards }
            },
        }
    }

    /// The cards that were collected.
    pub fn into_cards(self) -> (cards: Vec<T>)
        ensures
            cards@ == self@.cards,
    {
        self.cards
    }
}

/// The cards that a reply brings.
pub open spec fn reply_cards<T>(reply: PageReply<T>) -> Seq<T> {
    match reply {
        PageReply::Page(cards, _) => cards,
        PageReply::Missed => Seq::empty(),
    }
}

/// Whether a reply is the last one of its set.
pub open spec fn ends_set<T>(reply: PageReply<T>) -> bool {
    !(reply matches PageReply::Page(_, Some(_)))
}

impl<T> SearchState<T> {
    /// The search after replies, in the order in which they came.
    pub open spec fn run(self, replies: Seq<PageReply<T>>) -> SearchState<T>
        decreases replies.len(),
    {
        if replies.len() == 0 {
            self
        } else {
            self.run(replies.drop_last()).step(replies.last())
        }
    }

    /// The search after up to `requests` pages were asked for, where `source`
    /// says what comes of asking for each.
    pub open spec fn ask(
        self,
        source: spec_fn(Seq<char>) -> PageReply<T>,
        requests: nat,
    ) -> SearchState<T>
        decreases requests,
    {
        match self.page {
            Some(page) => if requests == 0 {
                self
            } else {
                self.step(source(page)).ask(source, (requests - 1) as nat)
            },
            None => self,
        }
    }
}

/// The cards on a page and on up to `limit - 1` pages after it.
pub open spec fn cards_from<T>(
    source: spec_fn(Seq<char>) -> PageReply<T>,
    page: Seq<char>,
    limit: nat,
) -> Seq<T>
    decreases limit,
{
    if limit == 0 {
        Seq::empty()
    } else {
        match source(page) {
            PageReply::Page(cards, Some(next)) => cards + cards_from(
                source,
                next,
                (limit - 1) as nat,
            ),
            PageReply::Page(cards, None) => cards,
            PageReply::Missed => Seq::empty(),
        }
    }
}

/// Whether the pages that follow each other from `page` on come to an end within
/// `limit` of them.
pub open spec fn ends_within<T>(
    source: spec_fn(Seq<char>) -> PageReply<T>,
    page: Seq<char>,
    limit: nat,
) -> bool
    decreases limit,
{
    limit > 0 && match source(page) {
        PageReply::Page(_, Some(next)) => ends_within(source, next, (limit - 1) as nat),
        _ => true,
    }
}

/// The cards of the sets from number `at` on, each set's in the order of its pages.
pub open spec fn cards_of_sets<T>(
    source: spec_fn(Seq<char>) -> PageReply<T>,
    base_url: Seq<char>,
    sets: Seq<Seq<char>>,
    at: nat,
    limit: nat,
) -> Seq<T>
    decreases sets.len() - at,
{
    if at >= sets.len() {
        Seq::empty()
    } else {
        cards_from(source, search_address(base_url, sets[at as int]), limit) + cards_of_sets(
            source,
            base_url,
            sets,
            at + 1,
            limit,
        )
    }
}

/// Asking goes on where it stopped.
proof fn lemma_ask_more<T>(
    state: SearchState<T>,
    source: spec_fn(Seq<char>) -> PageReply<T>,
    first: nat,
    more: nat,
)
    ensures
        state.ask(source, first + more) == state.ask(source, first).ask(source, more),
    decreases first,
{
    if first > 0 && state.page is Some {
        lemma_ask_more(state.step(source(state.page->0)), source, (first - 1) as nat, more);
    }
}

/// A set whose pages come to an end is collected, and the search enters the next.
proof fn lemma_set_collected<T>(
    state: SearchState<T>,
    source: spec_fn(Seq<char>) -> PageReply<T>,
    page: Seq<char>,
    limit: nat,
) -> (requests: nat)
    requires
        state.page == Some(page),
        ends_within(source, page, limit),
    ensures
        state.ask(source, requests) == (SearchState {
            cards: state.cards + cards_from(source, page, limit),
            ..state
        }).enter(state.at + 1),
    decreases limit,
{
    let after = state.step(source(page));
    match source(page) {
        PageReply::Page(cards, Some(next)) => {
            let rest = lemma_set_collected(after, source, next, (limit - 1) as nat);
            assert(state.cards + cards + cards_from(source, next, (limit - 1) as nat)
                =~= state.cards + (cards + cards_from(source, next, (limit - 1) as nat)));
            assert(state.ask(source, rest + 1) == after.ask(source, rest));
            rest + 1
        },
        PageReply::Page(cards, None) => {
            assert(state.ask(source, 1) == after.ask(source, 0));
            1
        },
        PageReply::Missed => {
            assert(state.cards + Seq::<T>::empty() =~= state.cards);
            assert(state.ask(source, 1) == after.ask(source, 0));
            1
        },
    }
}

/// A search from the start of a set on collects that set and the ones after it.
proof fn lemma_sets_collected<T>(
    state: SearchState<T>,
    source: spec_fn(Seq<char>) -> PageReply<T>,
    limit: nat,
) -> (requests: nat)
    requires
        state.at <= state.sets.len(),
        state == state.enter(state.at),
        forall|i: int|
            0 <= i < state.sets.len() ==> ends_within(
                source,
                search_address(state.base_url, #[trigger] state.sets[i]),
                limit,
            ),
    ensures
        state.ask(source, requests).page is None,
        state.ask(source, requests).cards == state.cards + cards_of_sets(
            source,
            state.base_url,
            state.sets,
            state.at,
            limit,
        ),
    decreases state.sets.len() - state.at,
{
    if state.at == state.sets.len() {
        assert(state.cards + Seq::<T>::empty() =~= state.cards);
        0
    } else {
        let page = search_address(state.base_url, state.sets[state.at as int]);
        let here = cards_from(source, page, limit);
        let first = lemma_set_collected(state, source, page, limit);
        let after = state.ask(source, first);
        let more = lemma_sets_collected(after, source, limit);
        lemma_ask_more(state, source, first, more);
        let rest = cards_of_sets(source, state.base_url, state.sets, state.at + 1, limit);
        assert(state.cards + here + rest =~= state.cards + (here + rest));
        first + more
    }
}

/// Where every set's pages come to an end, the search comes to an end, and it has
/// collected the cards of all sets: set after set in the order given, and of each
/// set what its pages hold, up to the first that could not be had.
pub proof fn law_search_collects_all_sets<T>(
    base_url: Seq<char>,
    sets: Seq<Seq<char>>,
    source: spec_fn(Seq<char>) -> PageReply<T>,
    limit: nat,
)
    requires
        forall|i: int|
            0 <= i < sets.len() ==> ends_within(
                source,
                search_address(base_url, #[trigger] sets[i]),
                limit,
            ),
    ensures
        exists|requests: nat|
            {
                let end = #[trigger] SearchState::<T>::begin(base_url, sets).ask(source, requests);
                &&& end.page is None
                &&& end.cards == cards_of_sets(source, base_url, sets, 0, limit)
            },
{
    let start = SearchState::<T>::begin(base_url, sets);
    let requests = lemma_sets_collected(start, source, limit);
    assert(start.cards + cards_of_sets(source, base_url, sets, 0, limit) =~= cards_of_sets(
        source,
        base_url,
        sets,
        0,
        limit,
    ));
    assert(start.ask(source, requests).page is None);
}

/// Whatever the replies are, the search has collected the cards that came, in the
/// order in which they came, and has closed one set for every page that named no
/// other and for every page that could not be had.
pub proof fn law_search_keeps_what_came<T>(
    base_url: Seq<char>,
    sets: Seq<Seq<char>>,
    replies: Seq<PageReply<T>>,
)
    ensures
        SearchState::<T>::begin(base_url, sets).run(replies).cards == replies.map_values(
            |reply: PageReply<T>| reply_cards(reply),
        ).flatten(),
        SearchState::<T>::begin(base_url, sets).run(replies).at == replies.filter(
            |reply: PageReply<T>| ends_set(reply),
        ).len(),
    decreases replies.len(),
{
    let start = SearchState::<T>::begin(base_url, sets);
    let cards = |reply: PageReply<T>| reply_cards(reply);
    let ends = |reply: PageReply<T>| ends_set(reply);
    if replies.len() == 0 {
        reveal(Seq::filter);
        assert(replies.map_values(cards) =~= Seq::empty());
    } else {
        let before = replies.drop_last();
        law_search_keeps_what_came(base_url, sets, before);
        assert(replies =~= before.push(replies.last()));
        before.lemma_filter_push(replies.last(), ends);
        assert(replies.map_values(cards) =~= before.map_values(cards).push(
            reply_cards(replies.last()),
        ));
        before.map_values(cards).lemma_flatten_push(reply_cards(replies.last()));
        assert(start.run(before).cards + Seq::<T>::empty() =~= start.run(before).cards);
    }
}

/// A page that could not be had costs the rest of its set and nothing else: what
/// was collected stays, and the next set is next.
pub proof fn law_missed_page_ends_only_its_set<T>(state: SearchState<T>)
    ensures
        state.step(PageReply::Missed).cards == state.cards,
        state.step(PageReply::Missed) == state.enter(state.at + 1),
{
}

/// The address of the first page of a set is the address of the card source, then what
/// asks for a search by set, then the whole abbreviation, and nothing else.
pub proof fn law_search_address_holds_its_parts(base_url: &str, abbreviation: &str, url: String)
    requires
        call_ensures(search_url, (base_url, abbreviation), url),
    ensures
        url@.len() == base_url@.len() + "/cards/search?q=e:"@.len() + abbreviation@.len(),
        base_url@.is_prefix_of(url@),
        abbreviation@.is_suffix_of(url@),
        url@.skip(base_url@.len() as int).take("/cards/search?q=e:"@.len() as int)
            == "/cards/search?q=e:"@,
        url@ == search_address(base_url@, abbreviation@),
{
    let middle = "/cards/search?q=e:"@;
    assert(url@ =~= base_url@ + (middle + abbreviation@));
    assert(url@.subrange(0, base_url@.len() as int) =~= base_url@);
    assert(url@.subrange(url@.len() - abbreviation@.len(), url@.len() as int) =~= abbreviation@);
    assert(url@.skip(base_url@.len() as int).take(middle.len() as int) =~= middle);
}

/// Sets with different abbreviations are searched at different addresses.
pub proof fn law_search_addresses_differ(
    base_url: &str,
    one: &str,
    other: &str,
    one_url: String,
    other_url: String,
)
    requires
        call_ensures(search_url, (base_url, one), one_url),
        call_ensures(search_url, (base_url, other), other_url),
        one_url@ == other_url@,
    ensures
        one@ == other@,
{
    law_search_address_holds_its_parts(base_url, one, one_url);
    law_search_address_holds_its_parts(base_url, other, other_url);
    let start = one_url@.len() - one@.len();
    assert(one@ == one_url@.subrange(start, one_url@.len() as int));
    assert(other@ == one_url@.subrange(start, one_url@.len() as int));
}

/// A new search is for the sets that it was made for, in their order. It has collected
/// nothing, and asks for the first page of the first set, if there is one.
pub proof fn law_search_starts_with_first_set<T>(
    base_url: String,
    sets: Vec<String>,
    search: CardSearch<T>,
    page: Option<String>,
    at: usize,
    cards: Vec<T>,
)
    requires
        call_ensures(CardSearch::<T>::new, (base_url, sets), search),
        call_ensures(CardSearch::<T>::next_page, (&search,), page),
        call_ensures(CardSearch::<T>::current_set, (&search,), at),
        call_ensures(CardSearch::<T>::into_cards, (search,), cards),
    ensures
        search@.base_url == base_url@,
        search@.sets.len() == sets@.len(),
        forall|i: int| 0 <= i < sets@.len() ==> #[trigger] search@.sets[i] == sets@[i]@,
        at == 0,
        cards@.len() == 0,
        page is Some <==> sets@.len() > 0,
        page matches Some(page) ==> page@ == base_url@ + "/cards/search?q=e:"@ + sets@[0]@,
{
}

/// A page that came adds its cards behind the ones collected before. If it names a
/// page, that one is next and the set stays the same; otherwise the next set is begun.
pub proof fn law_page_adds_its_cards<T>(
    before: CardSearch<T>,
    reply: ScryfallData<T>,
    after: CardSearch<T>,
    page: Option<String>,
    at_before: usize,
    at: usize,
    cards_before: Vec<T>,
    cards: Vec<T>,
)
    requires
        call_ensures(CardSearch::<T>::take_page, (before, Ok(reply)), after),
        call_ensures(CardSearch::<T>::next_page, (&after,), page),
        call_ensures(CardSearch::<T>::current_set, (&before,), at_before),
        call_ensures(CardSearch::<T>::current_set, (&after,), at),
        call_ensures(CardSearch::<T>::into_cards, (before,), cards_before),
        call_ensures(CardSearch::<T>::into_cards, (after,), cards),
    ensures
        after@.base_url == before@.base_url,
        after@.sets == before@.sets,
        cards@ == cards_before@ + reply.data@,
        reply.next_page matches Some(next) ==> {
            &&& at == at_before
            &&& page matches Some(page)
            &&& page@ == next@
        },
        reply.next_page is None ==> {
            &&& at == at_before + 1
            &&& page is Some <==> at < before@.sets.len()
            &&& page matches Some(page) ==> page@ == before@.base_url + "/cards/search?q=e:"@
                + before@.sets[at as int]
        },
{
}

/// A page that could not be had adds no cards and takes none away, and the next set is
/// begun.
pub proof fn law_lost_page_adds_nothing<T>(
    before: CardSearch<T>,
    error: ScryfallError,
    after: CardSearch<T>,
    page: Option<String>,
    at_before: usize,
    at: usize,
    cards_before: Vec<T>,
    cards: Vec<T>,
)
    requires
        call_ensures(CardSearch::<T>::take_page, (before, Err(error)), after),
        call_ensures(CardSearch::<T>::next_page, (&after,), page),
        call_ensures(CardSearch::<T>::current_set, (&before,), at_before),
        call_ensures(CardSearch::<T>::current_set, (&after,), at),
        call_ensures(CardSearch::<T>::into_cards, (before,), cards_before),
        call_ensures(CardSearch::<T>::into_cards, (after,), cards),
    ensures
        after@.base_url == before@.base_url,
        after@.sets == before@.sets,
        cards@ == cards_before@,
        at == at_before + 1,
        page is Some <==> at < before@.sets.len(),
        page matches Some(page) ==> page@ == before@.base_url + "/cards/search?q=e:"@
            + before@.sets[at as int],
{
}

} // verus!
