//! From cards as they were sent to the records that are stored.

use vstd::prelude::*;
use vstd::seq_lib::lemma_flatten_concat;

use crate::error::ScryfallResult;

verus! {

/// The records that the conversions of cards gave, in order; a card that gave
/// none is passed over.
pub open spec fn all_records<R>(converted: Seq<Option<Vec<R>>>) -> Seq<R> {
    converted.map_values(
        |records: Option<Vec<R>>| match records {
            Some(records) => records@,
            None => Seq::empty(),
        },
    ).flatten()
}

/// Whether `converted` is what `into_records` makes of the cards.
pub open spec fn converts_to<C, R, F: Fn(C) -> Option<Vec<R>>>(
    into_records: F,
    cards: Seq<C>,
    converted: Seq<Option<Vec<R>>>,
) -> bool {
    &&& converted.len() == cards.len()
    &&& forall|i: int|
        0 <= i < cards.len() ==> call_ensures(into_records, (cards[i],), #[trigger] converted[i])
}

/// Converts cards to the records that are stored.
pub fn storage_records<C, R, F: Fn(C) -> Option<Vec<R>>>(cards: Vec<C>, into_records: F) -> (records:
    Vec<R>)
    requires
        forall|card: C| call_requires(into_records, (card,)),
    ensures
        exists|converted: Seq<Option<Vec<R>>>|
            #![trigger converts_to::<C, R, F>(into_records, cards@, converted)]
            converts_to::<C, R, F>(into_records, cards@, converted) && records@ == all_records(
                converted,
            ),
{
    let mut records: Vec<R> = Vec::new();
    let ghost all = cards@;
    let ghost mut converted: Seq<Option<Vec<R>>> = Seq::empty();
    let ghost part = |records: Option<Vec<R>>|
        match records {
            Some(records) => records@,
            None => Seq::<R>::empty(),
        };
    assert(converted.map_values(part) =~= Seq::<Seq<R>>::empty());
    for card in it: cards
        invariant
            it.seq() == all,
            forall|card: C| call_requires(into_records, (card,)),
            converts_to::<C, R, F>(into_records, all.take(it.index()), converted),
            records@ == all_records(converted),
            part == (|records: Option<Vec<R>>|
                match records {
                    Some(records) => records@,
                    None => Seq::<R>::empty(),
                }),
    {
        let outcome = into_records(card);
        proof {
            let before = converted;
            converted = converted.push(outcome);
            assert(converted.map_values(part) =~= before.map_values(part).push(part(outcome)));
            before.map_values(part).lemma_flatten_push(part(outcome));
        }
        if let Some(more) = outcome {
            let mut more = more;
            records.append(&mut more);
        }
    }
    assert(all.take(all.len() as int) =~= all);
    records
}

/// The records of a bulk download, where there is one; none otherwise.
pub fn all_cards<C, R, F: Fn(C) -> Option<Vec<R>>>(
    fetched: ScryfallResult<Vec<C>>,
    into_records: F,
) -> (records: Vec<R>)
    requires
        forall|card: C| call_requires(into_records, (card,)),
    ensures
        match fetched {
            Ok(cards) => exists|converted: Seq<Option<Vec<R>>>|
                #![trigger converts_to::<C, R, F>(into_records, cards@, converted)]
                converts_to::<C, R, F>(into_records, cards@, converted) && records@ == all_records(
                    converted,
                ),
            Err(_) => records@.len() == 0,
        },
{
    match fetched {
        Ok(cards) => storage_records(cards, into_records),
        Err(_) => Vec::new(),
    }
}

/// Cards are converted each for itself: the records of a list of cards are those
/// of its first part followed by those of the rest.
pub proof fn law_records_of_parts_add_up<R>(
    first: Seq<Option<Vec<R>>>,
    rest: Seq<Option<Vec<R>>>,
)
    ensures
        all_records(first + rest) == all_records(first) + all_records(rest),
{
    let part = |records: Option<Vec<R>>|
        match records {
            Some(records) => records@,
            None => Seq::<R>::empty(),
        };
    assert((first + rest).map_values(part) =~= first.map_values(part) + rest.map_values(part));
    lemma_flatten_concat(first.map_values(part), rest.map_values(part));
}

/// A card that gives records gives all of them, as they are and in their order; a card
/// that gives none adds nothing.
pub proof fn law_conversion_gives_its_records<R>(records: Vec<R>)
    ensures
        all_records(seq![Some(records)]) == records@,
        all_records(seq![None::<Vec<R>>]) == Seq::<R>::empty(),
        all_records(Seq::<Option<Vec<R>>>::empty()) == Seq::<R>::empty(),
{
    let part = |records: Option<Vec<R>>|
        match records {
            Some(records) => records@,
            None => Seq::<R>::empty(),
        };
    let none = Seq::<Seq<R>>::empty();
    assert(Seq::<Option<Vec<R>>>::empty().map_values(part) =~= none);
    none.lemma_flatten_push(records@);
    none.lemma_flatten_push(Seq::empty());
    assert(seq![Some(records)].map_values(part) =~= none.push(records@));
    assert(seq![None::<Vec<R>>].map_values(part) =~= none.push(Seq::empty()));
}

/// Where `meaning` says which records a card gives, a single card is stored as exactly
/// those records.
pub proof fn law_single_card_is_stored<C, R, F: Fn(C) -> Option<Vec<R>>>(
    cards: Vec<C>,
    into_records: F,
    meaning: spec_fn(C) -> Seq<R>,
    records: Vec<R>,
)
    requires
        forall|card: C, given: Option<Vec<R>>| #[trigger]
            call_ensures(into_records, (card,), given) ==> match given {
                Some(given) => given@ == meaning(card),
                None => meaning(card).len() == 0,
            },
        cards@.len() == 1,
        call_ensures(storage_records::<C, R, F>, (cards, into_records), records),
    ensures
        records@ == meaning(cards@[0]),
{
    let converted = choose|converted: Seq<Option<Vec<R>>>|
        #![trigger converts_to::<C, R, F>(into_records, cards@, converted)]
        converts_to::<C, R, F>(into_records, cards@, converted) && records@ == all_records(
            converted,
        );
    assert(call_ensures(into_records, (cards@[0],), converted[0]));
    match converted[0] {
        Some(given) => {
            assert(converted =~= seq![Some(given)]);
            law_conversion_gives_its_records(given);
        },
        None => {
            assert(converted =~= seq![None::<Vec<R>>]);
            law_conversion_gives_its_records(records);
            assert(records@ =~= meaning(cards@[0]));
        },
    }
}

/// What cards are stored as is what `meaning` says of each, one card behind the other.
proof fn lemma_stored_as<C, R, F: Fn(C) -> Option<Vec<R>>>(
    into_records: F,
    meaning: spec_fn(C) -> Seq<R>,
    cards: Seq<C>,
    converted: Seq<Option<Vec<R>>>,
)
    requires
        forall|card: C, given: Option<Vec<R>>| #[trigger]
            call_ensures(into_records, (card,), given) ==> match given {
                Some(given) => given@ == meaning(card),
                None => meaning(card).len() == 0,
            },
        converts_to::<C, R, F>(into_records, cards, converted),
    ensures
        all_records(converted) == cards.map_values(meaning).flatten(),
{
    let part = |records: Option<Vec<R>>|
        match records {
            Some(records) => records@,
            None => Seq::<R>::empty(),
        };
    assert forall|i: int| 0 <= i < cards.len() implies part(#[trigger] converted[i]) == meaning(
        cards[i],
    ) by {
        assert(call_ensures(into_records, (cards[i],), converted[i]));
        assert(part(converted[i]) =~= meaning(cards[i]));
    }
    assert(converted.map_values(part) =~= cards.map_values(meaning));
}

/// Cards are stored each for itself: where one list of cards is another followed by a
/// third, its records are those of the one followed by those of the other.
pub proof fn law_stored_parts_add_up<C, R, F: Fn(C) -> Option<Vec<R>>>(
    into_records: F,
    meaning: spec_fn(C) -> Seq<R>,
    cards: Vec<C>,
    first: Vec<C>,
    rest: Vec<C>,
    records: Vec<R>,
    first_records: Vec<R>,
    rest_records: Vec<R>,
)
    requires
        forall|card: C, given: Option<Vec<R>>| #[trigger]
            call_ensures(into_records, (card,), given) ==> match given {
                Some(given) => given@ == meaning(card),
                None => meaning(card).len() == 0,
            },
        cards@ == first@ + rest@,
        call_ensures(storage_records::<C, R, F>, (cards, into_records), records),
        call_ensures(storage_records::<C, R, F>, (first, into_records), first_records),
        call_ensures(storage_records::<C, R, F>, (rest, into_records), rest_records),
    ensures
        records@ == first_records@ + rest_records@,
{
    lemma_stored_records(into_records, meaning, cards, records);
    lemma_stored_records(into_records, meaning, first, first_records);
    lemma_stored_records(into_records, meaning, rest, rest_records);
    assert(cards@.map_values(meaning) =~= first@.map_values(meaning) + rest@.map_values(meaning));
    lemma_flatten_concat(first@.map_values(meaning), rest@.map_values(meaning));
}

/// What cards are stored as.
proof fn lemma_stored_records<C, R, F: Fn(C) -> Option<Vec<R>>>(
    into_records: F,
    meaning: spec_fn(C) -> Seq<R>,
    cards: Vec<C>,
    records: Vec<R>,
)
    requires
        forall|card: C, given: Option<Vec<R>>| #[trigger]
            call_ensures(into_records, (card,), given) ==> match given {
                Some(given) => given@ == meaning(card),
                None => meaning(card).len() == 0,
            },
        call_ensures(storage_records::<C, R, F>, (cards, into_records), records),
    ensures
        records@ == cards@.map_values(meaning).flatten(),
{
    let converted = choose|converted: Seq<Option<Vec<R>>>|
        #![trigger converts_to::<C, R, F>(into_records, cards@, converted)]
        converts_to::<C, R, F>(into_records, cards@, converted) && records@ == all_records(
            converted,
        );
    lemma_stored_as(into_records, meaning, cards@, converted);
}

/// Every record of every card is stored.
pub proof fn law_every_record_is_stored<C, R, F: Fn(C) -> Option<Vec<R>>>(
    into_records: F,
    meaning: spec_fn(C) -> Seq<R>,
    cards: Vec<C>,
    records: Vec<R>,
    record: R,
)
    requires
        forall|card: C, given: Option<Vec<R>>| #[trigger]
            call_ensures(into_records, (card,), given) ==> match given {
                Some(given) => given@ == meaning(card),
                None => meaning(card).len() == 0,
            },
        call_ensures(storage_records::<C, R, F>, (cards, into_records), records),
    ensures
        records@.contains(record) <==> exists|i: int|
            0 <= i < cards@.len() && meaning(#[trigger] cards@[i]).contains(record),
{
    lemma_stored_records(into_records, meaning, cards, records);
    lemma_flatten_contains(cards@, meaning, record);
}

/// What is made of items one behind the other holds what is made of each.
proof fn lemma_flatten_contains<A, B>(items: Seq<A>, f: spec_fn(A) -> Seq<B>, made: B)
    ensures
        items.map_values(f).flatten().contains(made) <==> exists|i: int|
            0 <= i < items.len() && f(#[trigger] items[i]).contains(made),
    decreases items.len(),
{
    if items.len() == 0 {
        assert(items.map_values(f) =~= Seq::empty());
    } else {
        let sooner = items.drop_last();
        lemma_flatten_contains(sooner, f, made);
        assert(items.map_values(f) =~= sooner.map_values(f).push(f(items.last())));
        sooner.map_values(f).lemma_flatten_push(f(items.last()));
        let front = sooner.map_values(f).flatten();
        let all = items.map_values(f).flatten();
        if all.contains(made) {
            let k = choose|k: int| 0 <= k < all.len() && all[k] == made;
            if k < front.len() {
                assert(front[k] == made);
                let i = choose|i: int|
                    0 <= i < sooner.len() && f(#[trigger] sooner[i]).contains(made);
                assert(f(items[i]).contains(made));
            } else {
                assert(f(items.last())[k - front.len()] == made);
                assert(f(items[items.len() - 1]).contains(made));
            }
        }
        if exists|i: int| 0 <= i < items.len() && f(#[trigger] items[i]).contains(made) {
            let i = choose|i: int| 0 <= i < items.len() && f(#[trigger] items[i]).contains(made);
            if i < sooner.len() {
                assert(f(sooner[i]).contains(made));
                let k = choose|k: int| 0 <= k < front.len() && front[k] == made;
                assert(all[k] == made);
            } else {
                let last = f(items.last());
                let k = choose|k: int| 0 <= k < last.len() && last[k] == made;
                assert(all[front.len() + k] == made);
            }
        }
    }
}

/// The cards of a bulk download are stored as any others; where there is no download,
/// nothing is stored.
pub proof fn law_download_is_stored<C, R, F: Fn(C) -> Option<Vec<R>>>(
    into_records: F,
    meaning: spec_fn(C) -> Seq<R>,
    fetched: ScryfallResult<Vec<C>>,
    records: Vec<R>,
    stored: Vec<R>,
)
    requires
        forall|card: C, given: Option<Vec<R>>| #[trigger]
            call_ensures(into_records, (card,), given) ==> match given {
                Some(given) => given@ == meaning(card),
                None => meaning(card).len() == 0,
            },
        call_ensures(all_cards::<C, R, F>, (fetched, into_records), records),
    ensures
        fetched is Err ==> records@.len() == 0,
        fetched matches Ok(cards) ==> (call_ensures(
            storage_records::<C, R, F>,
            (cards, into_records),
            stored,
        ) ==> records@ == stored@),
{
    if let Ok(cards) = fetched {
        let converted = choose|converted: Seq<Option<Vec<R>>>|
            #![trigger converts_to::<C, R, F>(into_records, cards@, converted)]
            converts_to::<C, R, F>(into_records, cards@, converted) && records@ == all_records(
                converted,
            );
        lemma_stored_as(into_records, meaning, cards@, converted);
        if call_ensures(storage_records::<C, R, F>, (cards, into_records), stored) {
            lemma_stored_records(into_records, meaning, cards, stored);
        }
    }
}

} // verus!
