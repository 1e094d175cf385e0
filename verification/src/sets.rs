//! Card sets: which ones are recent, and the ones that are known.

use std::collections::HashMap;

use vstd::prelude::*;
use vstd::std_specs::iter::IteratorSpec;

use crate::clock::days_before;
use crate::clock::in_calendar;
use crate::clock::read_clock;
use crate::clock::shown_by_clock;
use crate::clock::UtcTime;
use crate::clock::FIRST_DAY;
use crate::clock::LAST_DAY;
use crate::error::ScryfallError;
use crate::error::ScryfallResult;

verus! {

/// A card set.
#[derive(Debug)]
pub struct ScryfallSet {
    /// What tells the set from every other: the number of its identifier.
    pub id: u128,
    pub name: String,
    pub abbreviation: String,
    /// The Julian day on which the set is released.
    pub released_at: i32,
    pub card_count: u32,
    /// Where the picture of the set can be had.
    pub icon_svg_uri: String,
}

impl Clone for ScryfallSet {
    fn clone(&self) -> (copy: Self)
        ensures
            copy == *self,
    {
        ScryfallSet {
            id: self.id,
            name: self.name.clone(),
            abbreviation: self.abbreviation.clone(),
            released_at: self.released_at,
            card_count: self.card_count,
            icon_svg_uri: self.icon_svg_uri.clone(),
        }
    }
}

/// For how many days after its release a set is recent.
pub const RECENT_DAYS: i64 = 7;

/// Whether a set has cards and is released no earlier than the given day.
pub open spec fn is_recent(set: ScryfallSet, threshold: i32) -> bool {
    set.released_at >= threshold && set.card_count > 0
}

/// The day from which on a release is recent, as of the given day.
pub fn recent_threshold(today: i32) -> (threshold: i32)
    requires
        in_calendar(today as int),
        in_calendar(today - RECENT_DAYS),
    ensures
        threshold == today - 7,
{
    days_before(today, RECENT_DAYS)
}

/// The day from which on a release is recent, as of the given day. There is none
/// for the first week of the calendar.
pub fn recent_threshold_as_of(today: i32) -> (threshold: Option<i32>)
    requires
        in_calendar(today as int),
    ensures
        match threshold {
            Some(threshold) => threshold == today - 7 && in_calendar(threshold as int),
            None => !in_calendar(today - 7),
        },
{
    if today < FIRST_DAY + 7 {
        None
    } else {
        Some(recent_threshold(today))
    }
}

/// The day from which on a release is recent, as of now. There is none where the
/// clock stands in the first week of the calendar.
pub fn current_recent_threshold() -> (threshold: Option<i32>)
    ensures
        exists|today: int|
            #[trigger] in_calendar(today) && (match threshold {
                Some(threshold) => threshold == today - 7 && in_calendar(threshold as int),
                None => !in_calendar(today - 7),
            }),
        exists|now: UtcTime| #[trigger]
            shown_by_clock(now) && now.in_range() && now.is_dated() && (match threshold {
                Some(threshold) => threshold == now.julian_day - 7 && in_calendar(threshold as int),
                None => !in_calendar(now.julian_day - 7),
            }),
{
    let now = read_clock();
    let ghost today = now.julian_day as int;
    assert(in_calendar(today));
    recent_threshold_as_of(now.julian_day)
}

/// Picks the recent ones out of the sets that were fetched; an error stays one.
pub fn recent_sets(fetched: ScryfallResult<Vec<ScryfallSet>>, threshold: i32) -> (outcome:
    ScryfallResult<Vec<ScryfallSet>>)
    ensures
        match fetched {
            Ok(sets) => outcome matches Ok(recent) && recent@ == sets@.filter(
                |set: ScryfallSet| is_recent(set, threshold),
            ),
            Err(error) => outcome == ScryfallResult::<Vec<ScryfallSet>>::Err(error),
        },
{
    match fetched {
        Ok(sets) => {
            let mut recent: Vec<ScryfallSet> = Vec::new();
            let ghost all = sets@;
            let ghost wanted = |set: ScryfallSet| is_recent(set, threshold);
            assert(all.take(0).filter(wanted) =~= Seq::empty()) by {
                reveal(Seq::filter);
            }
            for set in it: sets
                invariant
                    it.seq() == all,
                    wanted == (|set: ScryfallSet| is_recent(set, threshold)),
                    recent@ == all.take(it.index()).filter(wanted),
            {
                proof {
                    assert(all.take(it.index() + 1) =~= all.take(it.index()).push(set));
                    all.take(it.index()).lemma_filter_push(set, wanted);
                }
                if set.released_at >= threshold && set.card_count > 0 {
                    recent.push(set);
                }
            }
            assert(all.take(all.len() as int) =~= all);
            Ok(recent)
        },
        Err(error) => Err(error),
    }
}

/// Known sets after more have come: each is known by its identifier, and of
/// several with the same one the last counts.
pub open spec fn learned(
    known: Map<u128, ScryfallSet>,
    sets: Seq<ScryfallSet>,
) -> Map<u128, ScryfallSet>
    decreases sets.len(),
{
    if sets.len() == 0 {
        known
    } else {
        learned(known, sets.drop_last()).insert(sets.last().id, sets.last())
    }
}

/// Whether every set is known by its own identifier.
pub open spec fn known_by_id(known: Map<u128, ScryfallSet>) -> bool {
    forall|id: u128| #[trigger] known.contains_key(id) ==> known[id].id == id
}

/// Whether `listing` holds every known set exactly once, in whatever order.
pub open spec fn lists_known(known: Map<u128, ScryfallSet>, listing: Seq<ScryfallSet>) -> bool {
    &&& forall|i: int|
        0 <= i < listing.len() ==> known.contains_key((#[trigger] listing[i]).id)
            && known[listing[i].id] == listing[i]
    &&& forall|i: int, j: int|
        0 <= i < j < listing.len() ==> (#[trigger] listing[i]).id != (#[trigger] listing[j]).id
    &&& forall|id: u128| #[trigger] known.contains_key(id) ==> listing.contains(known[id])
}

/// The sets that are known.
pub struct KnownSets {
    sets: HashMap<u128, ScryfallSet>,
}

impl View for KnownSets {
    type V = Map<u128, ScryfallSet>;

    closed spec fn view(&self) -> Map<u128, ScryfallSet> {
        self.sets@
    }
}

impl KnownSets {
    /// Every set is known by its own identifier.
    #[verifier::type_invariant]
    spec fn well_formed(self) -> bool {
        known_by_id(self.sets@)
    }

    /// No sets.
    pub fn new() -> (known: KnownSets)
        ensures
            known@ == Map::<u128, ScryfallSet>::empty(),
    {
        KnownSets { sets: HashMap::new() }
    }

    /// Whether no set is known.
    pub fn is_empty(&self) -> (empty: bool)
        ensures
            empty == (self@ == Map::<u128, ScryfallSet>::empty()),
    {
        broadcast use vstd::std_specs::hash::group_hash_axioms;

        let empty = self.sets.is_empty();
        assert(empty == (self@ =~= Map::<u128, ScryfallSet>::empty()));
        empty
    }

    /// Adds sets; one that is known already is replaced.
    pub fn learn(&mut self, sets: Vec<ScryfallSet>)
        ensures
            final(self)@ == learned(old(self)@, sets@),
    {
        broadcast use vstd::std_specs::hash::group_hash_axioms;

        proof {
            use_type_invariant(&*self);
        }
        let ghost before = self@;
        let ghost all = sets@;
        let mut known: HashMap<u128, ScryfallSet> = HashMap::new();
        std::mem::swap(&mut known, &mut self.sets);
        for set in it: sets
            invariant
                it.seq() == all,
                known@ == learned(before, all.take(it.index())),
                known_by_id(known@),
        {
            assert(all.take(it.index() + 1).drop_last() =~= all.take(it.index()));
            known.insert(set.id, set);
        }
        assert(all.take(all.len() as int) =~= all);
        self.sets = known;
    }

    /// The known sets, in no particular order.
    pub fn list(&self) -> (listing: Vec<ScryfallSet>)
        ensures
            lists_known(self@, listing@),
    {
        broadcast use vstd::std_specs::hash::group_hash_axioms;

        proof {
            use_type_invariant(self);
        }
        let mut listing: Vec<ScryfallSet> = Vec::new();
        let entries = self.sets.iter();
        let ghost all = entries.remaining();
        for (_, set) in it: entries
            invariant
                it.seq() == all,
                listing@.len() == it.index(),
                forall|i: int| 0 <= i < it.index() ==> listing@[i] == *all[i].1,
        {
            listing.push(set.clone());
        }
        proof {
            let known = self@;
            assert forall|i: int| 0 <= i < listing@.len() implies known.contains_key(
                (#[trigger] listing@[i]).id,
            ) && known[listing@[i].id] == listing@[i] && *all[i].0 == listing@[i].id by {
                assert(known.contains_key(*all[i].0));
            }
            assert forall|i: int, j: int| 0 <= i < j < listing@.len() implies (
            #[trigger] listing@[i]).id != (#[trigger] listing@[j]).id by {
                assert(all[i] != all[j]);
            }
            assert forall|id: u128| #[trigger] known.contains_key(id) implies listing@.contains(
                known[id],
            ) by {
                assert(all.contains((&id, &known[id])));
                let i = choose|i: int| 0 <= i < all.len() && all[i] == (&id, &known[id]);
                assert(listing@[i] == known[id]);
            }
        }
        listing
    }
}

/// A set that was released in the week before today, is released today, or is
/// still to come, is recent if it has cards; no other set is.
pub proof fn law_recent_means_a_week(set: ScryfallSet, today: int, threshold: i32)
    requires
        threshold == today - 7,
    ensures
        is_recent(set, threshold) <==> today - set.released_at <= 7 && set.card_count > 0,
{
}

/// The sets known after learning are the ones known before and the ones learned.
pub proof fn law_nothing_is_forgotten(
    known: Map<u128, ScryfallSet>,
    sets: Seq<ScryfallSet>,
    id: u128,
)
    ensures
        learned(known, sets).contains_key(id) <==> known.contains_key(id) || exists|i: int|
            0 <= i < sets.len() && (#[trigger] sets[i]).id == id,
    decreases sets.len(),
{
    if sets.len() > 0 {
        let before = sets.drop_last();
        law_nothing_is_forgotten(known, before, id);
        if exists|i: int| 0 <= i < before.len() && (#[trigger] before[i]).id == id {
            let i = choose|i: int| 0 <= i < before.len() && (#[trigger] before[i]).id == id;
            assert(sets[i].id == id);
        }
        if exists|i: int| 0 <= i < sets.len() && (#[trigger] sets[i]).id == id {
            let i = choose|i: int| 0 <= i < sets.len() && (#[trigger] sets[i]).id == id;
            if i < before.len() {
                assert(before[i].id == id);
            }
        }
        if sets.last().id == id {
            assert(sets[sets.len() - 1].id == id);
        }
    }
}

/// Of the sets learned with the same identifier the last one counts, whatever was
/// known before.
pub proof fn law_last_word_counts(
    known: Map<u128, ScryfallSet>,
    sets: Seq<ScryfallSet>,
    at: int,
)
    requires
        0 <= at < sets.len(),
        forall|i: int| at < i < sets.len() ==> (#[trigger] sets[i]).id != sets[at].id,
    ensures
        learned(known, sets).contains_key(sets[at].id),
        learned(known, sets)[sets[at].id] == sets[at],
    decreases sets.len(),
{
    if at < sets.len() - 1 {
        let before = sets.drop_last();
        assert forall|i: int| at < i < before.len() implies (#[trigger] before[i]).id
            != before[at].id by {
            assert(before[i] == sets[i]);
        }
        law_last_word_counts(known, before, at);
        assert(sets[sets.len() - 1].id != sets[at].id);
    }
}

/// A set with an identifier that is not among those learned stays as it was.
pub proof fn law_other_sets_stay(
    known: Map<u128, ScryfallSet>,
    sets: Seq<ScryfallSet>,
    id: u128,
)
    requires
        forall|i: int| 0 <= i < sets.len() ==> (#[trigger] sets[i]).id != id,
    ensures
        learned(known, sets).contains_key(id) == known.contains_key(id),
        known.contains_key(id) ==> learned(known, sets)[id] == known[id],
    decreases sets.len(),
{
    if sets.len() > 0 {
        let before = sets.drop_last();
        assert forall|i: int| 0 <= i < before.len() implies (#[trigger] before[i]).id != id by {
            assert(before[i] == sets[i]);
        }
        law_other_sets_stay(known, before, id);
        assert(sets[sets.len() - 1].id != id);
    }
}

/// Finds the last set with an identifier that occurs.
pub(crate) proof fn lemma_last_with_id(sets: Seq<ScryfallSet>, id: u128) -> (at: int)
    requires
        exists|i: int| 0 <= i < sets.len() && (#[trigger] sets[i]).id == id,
    ensures
        0 <= at < sets.len(),
        sets[at].id == id,
        forall|i: int| at < i < sets.len() ==> (#[trigger] sets[i]).id != id,
    decreases sets.len(),
{
    if sets.last().id == id {
        sets.len() - 1
    } else {
        let before = sets.drop_last();
        let i = choose|i: int| 0 <= i < sets.len() && (#[trigger] sets[i]).id == id;
        assert(before[i].id == id);
        let at = lemma_last_with_id(before, id);
        assert forall|i: int| at < i < sets.len() implies (#[trigger] sets[i]).id != id by {
            if i < before.len() {
                assert(before[i].id != id);
            }
        }
        at
    }
}

/// To learn the same sets again changes nothing.
pub proof fn law_learning_again_changes_nothing(
    known: Map<u128, ScryfallSet>,
    sets: Seq<ScryfallSet>,
)
    ensures
        learned(learned(known, sets), sets) == learned(known, sets),
{
    let once = learned(known, sets);
    let twice = learned(once, sets);
    assert forall|id: u128|
        #![trigger twice.dom().contains(id)]
        #![trigger once.dom().contains(id)]
        #![trigger twice[id]]
        twice.dom().contains(id) == once.dom().contains(id) && (once.dom().contains(id)
            ==> twice[id] == once[id]) by {
        if exists|i: int| 0 <= i < sets.len() && (#[trigger] sets[i]).id == id {
            let at = lemma_last_with_id(sets, id);
            law_last_word_counts(known, sets, at);
            law_last_word_counts(once, sets, at);
        } else {
            law_other_sets_stay(once, sets, id);
        }
    }
    assert(twice =~= once);
}

/// The day from which on a release is recent lies a week back.
pub proof fn law_threshold_lies_a_week_back(
    today: i32,
    threshold: i32,
    as_of: Option<i32>,
)
    requires
        call_ensures(recent_threshold, (today,), threshold),
        call_ensures(recent_threshold_as_of, (today,), as_of),
        in_calendar(today as int),
    ensures
        threshold + 7 == today,
        as_of is Some <==> today - 7 >= FIRST_DAY,
        as_of matches Some(day) ==> day + 7 == today,
{
}

/// The day from which on a release is recent is one of the calendar's, and lies a week
/// before a day that the clock has shown.
pub proof fn law_current_threshold_is_in_the_calendar(threshold: Option<i32>)
    requires
        call_ensures(current_recent_threshold, (), threshold),
    ensures
        threshold matches Some(day) ==> FIRST_DAY <= day <= LAST_DAY - 7,
        threshold matches Some(day) ==> exists|now: UtcTime| #[trigger]
            shown_by_clock(now) && now.julian_day == day + 7,
{
}

/// A single set is picked exactly if it has cards and is not released before the given
/// day; then it stays as it is.
pub proof fn law_single_set_is_picked_by_day_and_cards(
    sets: Vec<ScryfallSet>,
    threshold: i32,
    outcome: ScryfallResult<Vec<ScryfallSet>>,
)
    requires
        call_ensures(recent_sets, (Ok(sets), threshold), outcome),
        sets@.len() == 1,
    ensures
        outcome matches Ok(recent) && recent@ == (if sets@[0].card_count > 0
            && sets@[0].released_at >= threshold {
            sets@
        } else {
            Seq::empty()
        }),
{
    reveal(Seq::filter);
    let wanted = |set: ScryfallSet| is_recent(set, threshold);
    assert(sets@.drop_last() =~= Seq::empty());
    assert(Seq::<ScryfallSet>::empty().filter(wanted) =~= Seq::empty());
    assert(Seq::<ScryfallSet>::empty().push(sets@[0]) =~= sets@);
}

/// Recent sets are picked each for itself and keep their order: those of one list
/// followed by another are those of the first followed by those of the second.
pub proof fn law_recent_sets_of_parts_add_up(
    threshold: i32,
    sets: Vec<ScryfallSet>,
    first: Vec<ScryfallSet>,
    rest: Vec<ScryfallSet>,
    outcome: ScryfallResult<Vec<ScryfallSet>>,
    first_outcome: ScryfallResult<Vec<ScryfallSet>>,
    rest_outcome: ScryfallResult<Vec<ScryfallSet>>,
)
    requires
        sets@ == first@ + rest@,
        call_ensures(recent_sets, (Ok(sets), threshold), outcome),
        call_ensures(recent_sets, (Ok(first), threshold), first_outcome),
        call_ensures(recent_sets, (Ok(rest), threshold), rest_outcome),
    ensures
        outcome is Ok,
        first_outcome is Ok,
        rest_outcome is Ok,
        outcome->Ok_0@ == first_outcome->Ok_0@ + rest_outcome->Ok_0@,
{
    Seq::filter_distributes_over_add(
        first@,
        rest@,
        |set: ScryfallSet| is_recent(set, threshold),
    );
}

/// A failed fetch of sets stays the failure that it was.
pub proof fn law_failed_fetch_of_sets_stays_failed(
    error: ScryfallError,
    threshold: i32,
    outcome: ScryfallResult<Vec<ScryfallSet>>,
)
    requires
        call_ensures(recent_sets, (Err(error), threshold), outcome),
    ensures
        outcome is Err,
        outcome->Err_0 == error,
{
}

/// Of the sets that are learned the last with an identifier is known by it, and a set
/// whose identifier is not among theirs stays known, or unknown, as it was.
pub proof fn law_learning_takes_the_last_word(
    known: &mut KnownSets,
    sets: Vec<ScryfallSet>,
    at: int,
    id: u128,
)
    requires
        call_ensures(KnownSets::learn, (known, sets), ()),
    ensures
        0 <= at < sets@.len() && (forall|i: int|
            at < i < sets@.len() ==> (#[trigger] sets@[i]).id != sets@[at].id) ==> {
            &&& final(known)@.contains_key(sets@[at].id)
            &&& final(known)@[sets@[at].id] == sets@[at]
        },
        (forall|i: int| 0 <= i < sets@.len() ==> (#[trigger] sets@[i]).id != id) ==> {
            &&& final(known)@.contains_key(id) <==> old(known)@.contains_key(id)
            &&& old(known)@.contains_key(id) ==> final(known)@[id] == old(known)@[id]
        },
{
    if 0 <= at < sets@.len() && (forall|i: int|
        at < i < sets@.len() ==> (#[trigger] sets@[i]).id != sets@[at].id) {
        law_last_word_counts(old(known)@, sets@, at);
    }
    if forall|i: int| 0 <= i < sets@.len() ==> (#[trigger] sets@[i]).id != id {
        law_other_sets_stay(old(known)@, sets@, id);
    }
}

/// A listing holds exactly the sets that are known, each once.
pub proof fn law_listing_holds_what_is_known(
    known: Map<u128, ScryfallSet>,
    listing: Seq<ScryfallSet>,
    set: ScryfallSet,
)
    requires
        lists_known(known, listing),
    ensures
        listing.contains(set) <==> known.contains_key(set.id) && known[set.id] == set,
        listing.no_duplicates(),
{
    if listing.contains(set) {
        let i = choose|i: int| 0 <= i < listing.len() && listing[i] == set;
        assert(known.contains_key(listing[i].id));
    }
    assert forall|i: int, j: int| 0 <= i < listing.len() && 0 <= j < listing.len() && i
        != j implies listing[i] != listing[j] by {
        if i < j {
            assert(listing[i].id != listing[j].id);
        } else {
            assert(listing[j].id != listing[i].id);
        }
    }
}

/// What is listed is what is known, each set once; nothing is known at first, and that
/// is told.
pub proof fn law_known_sets_are_listed(
    fresh: KnownSets,
    known: KnownSets,
    listing: Vec<ScryfallSet>,
    empty: bool,
    set: ScryfallSet,
)
    requires
        call_ensures(KnownSets::new, (), fresh),
        call_ensures(KnownSets::list, (&known,), listing),
        call_ensures(KnownSets::is_empty, (&known,), empty),
    ensures
        listing@.contains(set) <==> known@.contains_key(set.id) && known@[set.id] == set,
        listing@.no_duplicates(),
        !fresh@.contains_key(set.id),
        empty <==> forall|id: u128| !known@.contains_key(id),
{
    law_listing_holds_what_is_known(known@, listing@, set);
    if forall|id: u128| !known@.contains_key(id) {
        assert(known@ =~= Map::<u128, ScryfallSet>::empty());
    }
}

} // verus!
