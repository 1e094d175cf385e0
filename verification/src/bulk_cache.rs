//! Bulk downloads kept in the working directory: how they are named, which one
//! to use and which ones to delete.

use vstd::prelude::*;

use crate::clock::read_clock;
use crate::clock::shown_by_clock;
use crate::clock::UtcTime;
use crate::text::ends_with;
use crate::text::law_numbers_are_written_in_decimal;
use crate::text::lemma_two_digits;
use crate::text::lemma_zero_padded_injective;
use crate::text::push_padded;
use crate::text::starts_with;
use crate::text::zero_padded;

verus! {

/// The age in seconds at which a kept download is too old to be used: 168 hours.
pub const MAX_AGE: u64 = 604_800;

/// How long ago a file was last written to.
#[derive(Debug, Clone, Copy, PartialEq, Eq, Structural)]
pub enum FileAge {
    /// This could not be found out.
    Unknown,
    /// Not yet: the time lies ahead of the clock.
    Ahead,
    /// So many whole seconds.
    Seconds(u64),
}

/// A file of the working directory.
#[derive(Debug)]
pub struct CacheFile {
    /// Its name, if it has one.
    pub name: Option<String>,
    pub age: FileAge,
}

/// What to do with a file.
#[derive(Debug, Clone, Copy, PartialEq, Eq, Structural)]
pub enum Verdict {
    /// Leave it alone.
    Ignore,
    /// It can be used.
    Use,
    /// Delete it.
    Delete,
}

/// Whether a file with this name is a kept download.
pub open spec fn is_cache_name(name: Seq<char>) -> bool {
    &&& "default-cards-"@.is_prefix_of(name)
    &&& ".jsonl.gz"@.is_suffix_of(name)
}

/// Tells whether a file with this name is a kept download.
pub fn is_kept_download(name: &str) -> (kept: bool)
    ensures
        kept == is_cache_name(name@),
{
    starts_with(name, "default-cards-") && ends_with(name, ".jsonl.gz")
}

/// What to do with a file of this name and age.
pub open spec fn verdict(name: Seq<char>, age: FileAge) -> Verdict {
    if !is_cache_name(name) {
        Verdict::Ignore
    } else {
        match age {
            FileAge::Unknown => Verdict::Ignore,
            FileAge::Ahead => Verdict::Delete,
            FileAge::Seconds(seconds) => if seconds < MAX_AGE {
                Verdict::Use
            } else {
                Verdict::Delete
            },
        }
    }
}

/// Decides what to do with a file.
pub fn judge(name: &str, age: FileAge) -> (result: Verdict)
    ensures
        result == verdict(name@, age),
{
    if !is_kept_download(name) {
        return Verdict::Ignore;
    }
    match age {
        FileAge::Unknown => Verdict::Ignore,
        FileAge::Ahead => Verdict::Delete,
        FileAge::Seconds(seconds) => {
            if seconds < MAX_AGE {
                Verdict::Use
            } else {
                Verdict::Delete
            }
        },
    }
}

/// What to do with the kept downloads.
#[derive(Debug)]
pub struct CacheScan {
    /// Which file to use.
    pub found: Option<usize>,
    /// Which files to delete.
    pub stale: Vec<usize>,
}

/// Whether the file with number `at` is to be treated as `wanted` says.
pub open spec fn judged(files: Seq<CacheFile>, at: int, wanted: Verdict) -> bool {
    &&& 0 <= at < files.len()
    &&& files[at].name matches Some(name)
    &&& verdict(name@, files[at].age) == wanted
}

/// Whether the first `count` files have names.
pub open spec fn named(files: Seq<CacheFile>, count: int) -> bool {
    forall|i: int| 0 <= i < count ==> (#[trigger] files[i]).name is Some
}

/// Whether `stale` lists, in order, those of the first `count` files that are to
/// be deleted.
pub open spec fn lists_stale(files: Seq<CacheFile>, count: int, stale: Seq<usize>) -> bool {
    &&& forall|i: int, j: int| 0 <= i < j < stale.len() ==> stale[i] < stale[j]
    &&& forall|i: int|
        0 <= i < stale.len() ==> #[trigger] stale[i] < count && judged(
            files,
            stale[i] as int,
            Verdict::Delete,
        )
    &&& forall|at: usize|
        at < count && #[trigger] judged(files, at as int, Verdict::Delete) ==> stale.contains(at)
}

/// Whether `found` is the last of the first `count` files that can be used, or
/// nothing where none can.
pub open spec fn last_usable(files: Seq<CacheFile>, count: int, found: Option<usize>) -> bool {
    match found {
        Some(at) => {
            &&& at < count
            &&& judged(files, at as int, Verdict::Use)
            &&& forall|i: int| at < i < count ==> !#[trigger] judged(files, i, Verdict::Use)
        },
        None => forall|i: int| 0 <= i < count ==> !#[trigger] judged(files, i, Verdict::Use),
    }
}

/// What to do with the kept downloads among the files of the working directory.
/// The last usable one is used and all that are too old are deleted. A file
/// without a name ends the search: nothing is used, and files from there on stay.
pub open spec fn scanned(files: Seq<CacheFile>, scan: CacheScan) -> bool {
    if named(files, files.len() as int) {
        &&& last_usable(files, files.len() as int, scan.found)
        &&& lists_stale(files, files.len() as int, scan.stale@)
    } else {
        &&& scan.found is None
        &&& exists|end: int|
            {
                &&& 0 <= end < files.len()
                &&& (#[trigger] files[end]).name is None
                &&& named(files, end)
                &&& lists_stale(files, end, scan.stale@)
            }
    }
}

/// Searches the files of the working directory for a kept download.
#[must_use]
pub fn find_cached(files: &Vec<CacheFile>) -> (scan: CacheScan)
    ensures
        scanned(files@, scan),
{
    let mut found: Option<usize> = None;
    let mut stale: Vec<usize> = Vec::new();
    for i in 0..files.len()
        invariant
            named(files@, i as int),
            last_usable(files@, i as int, found),
            lists_stale(files@, i as int, stale@),
    {
        match &files[i].name {
            None => {
                assert(files@[i as int].name is None);
                return CacheScan { found: None, stale };
            },
            Some(name) => match judge(name.as_str(), files[i].age) {
                Verdict::Ignore => {},
                Verdict::Use => {
                    found = Some(i);
                },
                Verdict::Delete => {
                    let ghost before = stale@;
                    stale.push(i);
                    proof {
                        assert(stale@[before.len() as int] == i);
                        assert forall|at: usize|
                            at < i + 1 && #[trigger] judged(
                                files@,
                                at as int,
                                Verdict::Delete,
                            ) implies stale@.contains(at) by {
                            if at < i {
                                let k = choose|k: int| 0 <= k < before.len() && before[k] == at;
                                assert(stale@[k] == at);
                            }
                        }
                    }
                },
            },
        }
    }
    CacheScan { found, stale }
}

/// The name under which a download is kept that was made at this moment.
pub open spec fn cache_name(at: UtcTime) -> Seq<char> {
    "default-cards-"@ + zero_padded(at.year as int, 4) + zero_padded(at.month as int, 2)
        + zero_padded(at.day as int, 2) + zero_padded(at.hour as int, 2) + zero_padded(
        at.minute as int,
        2,
    ) + zero_padded(at.second as int, 2) + "+0000.jsonl.gz"@
}

/// Names the file for a download that was made at the given moment.
pub fn cache_file_name(at: &UtcTime) -> (name: String)
    ensures
        name@ == cache_name(*at),
{
    let mut name = "default-cards-".to_owned();
    push_padded(&mut name, at.year, 4);
    push_padded(&mut name, at.month as i32, 2);
    push_padded(&mut name, at.day as i32, 2);
    push_padded(&mut name, at.hour as i32, 2);
    push_padded(&mut name, at.minute as i32, 2);
    push_padded(&mut name, at.second as i32, 2);
    name.append("+0000.jsonl.gz");
    name
}

/// Names the file for a download that is made now.
pub fn current_cache_file_name() -> (name: String)
    ensures
        exists|now: UtcTime|
            #[trigger] shown_by_clock(now) && now.in_range() && now.is_dated() && name@
                == cache_name(now),
{
    let now = read_clock();
    cache_file_name(&now)
}

/// Every download is kept under a name by which it is recognised.
pub proof fn law_saved_name_is_recognised(at: UtcTime)
    ensures
        is_cache_name(cache_name(at)),
{
    reveal_strlit("default-cards-");
    reveal_strlit("+0000.jsonl.gz");
    reveal_strlit(".jsonl.gz");
    let name = cache_name(at);
    assert(name.subrange(0, "default-cards-"@.len() as int) =~= "default-cards-"@);
    assert(name.subrange(name.len() - ".jsonl.gz"@.len(), name.len() as int) =~= ".jsonl.gz"@);
}

/// A kept download can be used until it has reached the age at which it is too
/// old. From then on it is deleted.
pub proof fn law_saved_download_expires(at: UtcTime, seconds: u64)
    ensures
        verdict(cache_name(at), FileAge::Seconds(seconds)) == (if seconds < 168 * 60 * 60 {
            Verdict::Use
        } else {
            Verdict::Delete
        }),
{
    law_saved_name_is_recognised(at);
}

/// Downloads made in different seconds are kept under different names.
pub proof fn law_names_tell_moments_apart(a: UtcTime, b: UtcTime)
    requires
        a.in_range(),
        b.in_range(),
        cache_name(a) == cache_name(b),
    ensures
        a.year == b.year,
        a.month == b.month,
        a.day == b.day,
        a.hour == b.hour,
        a.minute == b.minute,
        a.second == b.second,
{
    lemma_two_digits(a.month as nat);
    lemma_two_digits(a.day as nat);
    lemma_two_digits(a.hour as nat);
    lemma_two_digits(a.minute as nat);
    lemma_two_digits(a.second as nat);
    lemma_two_digits(b.month as nat);
    lemma_two_digits(b.day as nat);
    lemma_two_digits(b.hour as nat);
    lemma_two_digits(b.minute as nat);
    lemma_two_digits(b.second as nat);
    let name = cache_name(a);
    let start = "default-cards-"@.len() as int;
    let year_end = start + zero_padded(a.year as int, 4).len();
    let end = "+0000.jsonl.gz"@.len();
    assert(cache_name(a).len() == start + zero_padded(a.year as int, 4).len() + 10 + end);
    assert(cache_name(b).len() == start + zero_padded(b.year as int, 4).len() + 10 + end);
    assert(name.subrange(start, year_end) =~= zero_padded(a.year as int, 4));
    assert(cache_name(b).subrange(start, year_end) =~= zero_padded(b.year as int, 4));
    lemma_zero_padded_injective(a.year as int, b.year as int, 4);
    assert(name.subrange(year_end, year_end + 2) =~= zero_padded(a.month as int, 2));
    assert(name.subrange(year_end, year_end + 2) =~= zero_padded(b.month as int, 2));
    lemma_zero_padded_injective(a.month as int, b.month as int, 2);
    assert(name.subrange(year_end + 2, year_end + 4) =~= zero_padded(a.day as int, 2));
    assert(name.subrange(year_end + 2, year_end + 4) =~= zero_padded(b.day as int, 2));
    lemma_zero_padded_injective(a.day as int, b.day as int, 2);
    assert(name.subrange(year_end + 4, year_end + 6) =~= zero_padded(a.hour as int, 2));
    assert(name.subrange(year_end + 4, year_end + 6) =~= zero_padded(b.hour as int, 2));
    lemma_zero_padded_injective(a.hour as int, b.hour as int, 2);
    assert(name.subrange(year_end + 6, year_end + 8) =~= zero_padded(a.minute as int, 2));
    assert(name.subrange(year_end + 6, year_end + 8) =~= zero_padded(b.minute as int, 2));
    lemma_zero_padded_injective(a.minute as int, b.minute as int, 2);
    assert(name.subrange(year_end + 8, year_end + 10) =~= zero_padded(a.second as int, 2));
    assert(name.subrange(year_end + 8, year_end + 10) =~= zero_padded(b.second as int, 2));
    lemma_zero_padded_injective(a.second as int, b.second as int, 2);
}

/// A search deletes nothing but kept downloads, and never the one to be used.
pub proof fn law_only_kept_downloads_are_deleted(files: Seq<CacheFile>, scan: CacheScan, i: int)
    requires
        scanned(files, scan),
        0 <= i < scan.stale@.len(),
    ensures
        scan.stale@[i] < files.len(),
        files[scan.stale@[i] as int].name matches Some(name) && is_cache_name(name@),
        scan.found != Some(scan.stale@[i]),
{
    assert(judged(files, scan.stale@[i] as int, Verdict::Delete));
}

/// A search of named files finds a file exactly when one of them can be used.
pub proof fn law_usable_download_is_found(files: Seq<CacheFile>, scan: CacheScan)
    requires
        scanned(files, scan),
        named(files, files.len() as int),
    ensures
        scan.found is Some <==> exists|at: int| judged(files, at, Verdict::Use),
{
}

/// A kept download that is not too old is found again, or one that stands behind
/// it is; it is not deleted.
pub proof fn law_saved_download_is_found(
    files: Seq<CacheFile>,
    scan: CacheScan,
    kept: usize,
    at: UtcTime,
    seconds: u64,
)
    requires
        scanned(files, scan),
        named(files, files.len() as int),
        kept < files.len(),
        files[kept as int].name matches Some(name) && name@ == cache_name(at),
        files[kept as int].age == FileAge::Seconds(seconds),
        seconds < MAX_AGE,
    ensures
        scan.found matches Some(found) && kept <= found && (found == kept || judged(
            files,
            found as int,
            Verdict::Use,
        )),
        !scan.stale@.contains(kept),
{
    law_saved_name_is_recognised(at);
    assert(judged(files, kept as int, Verdict::Use));
    if scan.stale@.contains(kept) {
        let i = choose|i: int| 0 <= i < scan.stale@.len() && scan.stale@[i] == kept;
        assert(judged(files, scan.stale@[i] as int, Verdict::Delete));
    }
}

/// A kept download is told by its name alone: it starts as such names do and ends as
/// they do.
pub proof fn law_kept_download_is_told_by_its_name(name: &str, kept: bool)
    requires
        call_ensures(is_kept_download, (name,), kept),
    ensures
        kept <==> "default-cards-"@.is_prefix_of(name@) && ".jsonl.gz"@.is_suffix_of(name@),
        kept <==> is_cache_name(name@),
{
}

/// A file whose name is not that of a kept download is left alone, however old it is.
pub proof fn law_other_names_are_ignored(name: &str, age: FileAge, result: Verdict)
    requires
        call_ensures(judge, (name, age), result),
        !("default-cards-"@.is_prefix_of(name@) && ".jsonl.gz"@.is_suffix_of(name@)),
    ensures
        result == Verdict::Ignore,
{
}

/// A kept download is used for a week and deleted from then on, or if it comes from the
/// future; it is left alone where its age could not be found out.
pub proof fn law_kept_download_is_judged_by_age(name: &str, age: FileAge, result: Verdict)
    requires
        call_ensures(judge, (name, age), result),
        "default-cards-"@.is_prefix_of(name@),
        ".jsonl.gz"@.is_suffix_of(name@),
    ensures
        result == Verdict::Ignore <==> age == FileAge::Unknown,
        result == Verdict::Use <==> (age matches FileAge::Seconds(seconds) && seconds < 7 * 24 * 60
            * 60),
        result == Verdict::Delete <==> age == FileAge::Ahead || (age matches FileAge::Seconds(
            seconds,
        ) && seconds >= 7 * 24 * 60 * 60),
{
}

/// A search neither uses nor deletes a file whose name is not that of a kept download.
pub proof fn law_other_files_are_left_alone(
    files: &Vec<CacheFile>,
    scan: CacheScan,
    at: usize,
    name: String,
)
    requires
        call_ensures(find_cached, (files,), scan),
        at < files@.len(),
        files@[at as int].name == Some(name),
        !("default-cards-"@.is_prefix_of(name@) && ".jsonl.gz"@.is_suffix_of(name@)),
    ensures
        scan.found != Some(at),
        !scan.stale@.contains(at),
{
    assert(!judged(files@, at as int, Verdict::Use));
    assert(!judged(files@, at as int, Verdict::Delete));
    if scan.stale@.contains(at) {
        let i = choose|i: int| 0 <= i < scan.stale@.len() && scan.stale@[i] == at;
        assert(judged(files@, scan.stale@[i] as int, Verdict::Delete));
    }
}

/// A search of files that all have names deletes a kept download exactly if it is a week
/// old or comes from the future. The files to delete are listed in the order of the
/// files, each once.
pub proof fn law_old_downloads_are_deleted(
    files: &Vec<CacheFile>,
    scan: CacheScan,
    at: usize,
    name: String,
)
    requires
        call_ensures(find_cached, (files,), scan),
        forall|i: int| 0 <= i < files@.len() ==> (#[trigger] files@[i]).name is Some,
        at < files@.len(),
        files@[at as int].name == Some(name),
    ensures
        scan.stale@.contains(at) <==> {
            &&& "default-cards-"@.is_prefix_of(name@)
            &&& ".jsonl.gz"@.is_suffix_of(name@)
            &&& files@[at as int].age == FileAge::Ahead || (
            files@[at as int].age matches FileAge::Seconds(seconds) && seconds >= 7 * 24 * 60 * 60)
        },
        forall|i: int| 0 <= i < scan.stale@.len() ==> #[trigger] scan.stale@[i] < files@.len(),
        forall|i: int, j: int| 0 <= i < j < scan.stale@.len() ==> scan.stale@[i] < scan.stale@[j],
{
    assert(named(files@, files@.len() as int));
    if judged(files@, at as int, Verdict::Delete) {
        assert(scan.stale@.contains(at));
    }
    if scan.stale@.contains(at) {
        let i = choose|i: int| 0 <= i < scan.stale@.len() && scan.stale@[i] == at;
        assert(judged(files@, scan.stale@[i] as int, Verdict::Delete));
    }
}

/// A search of files that all have names uses the last kept download that is less than
/// a week old, and none only if there is no such file.
pub proof fn law_last_young_download_is_used(files: &Vec<CacheFile>, scan: CacheScan)
    requires
        call_ensures(find_cached, (files,), scan),
        forall|i: int| 0 <= i < files@.len() ==> (#[trigger] files@[i]).name is Some,
    ensures
        scan.found matches Some(at) ==> {
            &&& at < files@.len()
            &&& files@[at as int].name matches Some(name)
            &&& "default-cards-"@.is_prefix_of(name@)
            &&& ".jsonl.gz"@.is_suffix_of(name@)
            &&& files@[at as int].age matches FileAge::Seconds(seconds)
            &&& seconds < 7 * 24 * 60 * 60
        },
        forall|i: int|
            0 <= i < files@.len() && (scan.found matches Some(at) ==> at < i) ==> !({
                &&& (#[trigger] files@[i]).name matches Some(name)
                &&& "default-cards-"@.is_prefix_of(name@)
                &&& ".jsonl.gz"@.is_suffix_of(name@)
                &&& files@[i].age matches FileAge::Seconds(seconds)
                &&& seconds < 7 * 24 * 60 * 60
            }),
{
    assert(named(files@, files@.len() as int));
    assert forall|i: int|
        0 <= i < files@.len() && (scan.found matches Some(at) ==> at < i) implies !({
        &&& (#[trigger] files@[i]).name matches Some(name)
        &&& "default-cards-"@.is_prefix_of(name@)
        &&& ".jsonl.gz"@.is_suffix_of(name@)
        &&& files@[i].age matches FileAge::Seconds(seconds)
        &&& seconds < 7 * 24 * 60 * 60
    }) by {
        assert(!judged(files@, i, Verdict::Use));
    }
}

/// A file without a name ends a search: nothing is used, and of the files before it, and
/// of no others, the kept downloads are deleted that are a week old or come from the
/// future.
pub proof fn law_unnamed_file_ends_the_search(
    files: &Vec<CacheFile>,
    scan: CacheScan,
    end: int,
    at: usize,
)
    requires
        call_ensures(find_cached, (files,), scan),
        0 <= end < files@.len(),
        files@[end].name is None,
        forall|i: int| 0 <= i < end ==> (#[trigger] files@[i]).name is Some,
    ensures
        scan.found is None,
        scan.stale@.contains(at) <==> {
            &&& at < end
            &&& files@[at as int].name matches Some(name)
            &&& "default-cards-"@.is_prefix_of(name@)
            &&& ".jsonl.gz"@.is_suffix_of(name@)
            &&& files@[at as int].age == FileAge::Ahead || (
            files@[at as int].age matches FileAge::Seconds(seconds) && seconds >= 7 * 24 * 60 * 60)
        },
        forall|i: int, j: int| 0 <= i < j < scan.stale@.len() ==> scan.stale@[i] < scan.stale@[j],
{
    assert(!named(files@, files@.len() as int));
    let stop = choose|stop: int|
        {
            &&& 0 <= stop < files@.len()
            &&& (#[trigger] files@[stop]).name is None
            &&& named(files@, stop)
            &&& lists_stale(files@, stop, scan.stale@)
        };
    assert(files@[end].name is None && files@[stop].name is None);
    assert(stop == end);
    if at < end && judged(files@, at as int, Verdict::Delete) {
        assert(scan.stale@.contains(at));
    }
    if scan.stale@.contains(at) {
        let i = choose|i: int| 0 <= i < scan.stale@.len() && scan.stale@[i] == at;
        assert(judged(files@, scan.stale@[i] as int, Verdict::Delete));
    }
}

/// The name of a kept download spells out its moment between what all such names start
/// and end with: the year in four digits, or with a sign before it, and two digits for
/// each part from the month to the second.
pub proof fn law_name_spells_its_moment(at: &UtcTime, name: String)
    requires
        call_ensures(cache_file_name, (at,), name),
        at.in_range(),
    ensures
        ({
            let year = at.year as int;
            let end = name@.len() - 14;
            &&& name@.take(14) == "default-cards-"@
            &&& name@.skip(end) == "+0000.jsonl.gz"@
            &&& name@.subrange(14, end - 10).map_values(|c: char| c as int) == (if year >= 0 {
                seq![
                    48 + year / 1000,
                    48 + year / 100 % 10,
                    48 + year / 10 % 10,
                    48 + year % 10,
                ]
            } else if year > -1000 {
                seq!['-' as int, 48 + -year / 100, 48 + -year / 10 % 10, 48 + -year % 10]
            } else {
                seq![
                    '-' as int,
                    48 + -year / 1000,
                    48 + -year / 100 % 10,
                    48 + -year / 10 % 10,
                    48 + -year % 10,
                ]
            })
            &&& name@.subrange(end - 10, end).map_values(|c: char| c as int - 48) == seq![
                at.month as int / 10,
                at.month as int % 10,
                at.day as int / 10,
                at.day as int % 10,
                at.hour as int / 10,
                at.hour as int % 10,
                at.minute as int / 10,
                at.minute as int % 10,
                at.second as int / 10,
                at.second as int % 10,
            ]
        }),
{
    reveal_strlit("default-cards-");
    reveal_strlit("+0000.jsonl.gz");
    law_numbers_are_written_in_decimal(at.year as int);
    let code = |c: char| c as int;
    let year = zero_padded(at.year as int, 4);
    let month = lemma_two_places(at.month as int);
    let day = lemma_two_places(at.day as int);
    let hour = lemma_two_places(at.hour as int);
    let minute = lemma_two_places(at.minute as int);
    let second = lemma_two_places(at.second as int);
    let end = name@.len() - 14;
    assert(year.len() == year.map_values(code).len());
    assert(name@.take(14) =~= "default-cards-"@);
    assert(name@.skip(end) =~= "+0000.jsonl.gz"@);
    assert(name@.subrange(14, end - 10) =~= year);
    assert(name@.subrange(end - 10, end) =~= month + day + hour + minute + second);
}

/// A number below one hundred is written as two digits.
proof fn lemma_two_places(number: int) -> (written: Seq<char>)
    requires
        0 <= number < 100,
    ensures
        written == zero_padded(number, 2),
        written.len() == 2,
        written[0] as int == 48 + number / 10,
        written[1] as int == 48 + number % 10,
{
    law_numbers_are_written_in_decimal(number);
    let written = zero_padded(number, 2);
    let codes = written.map_values(|c: char| c as int);
    assert(codes.len() == written.len());
    assert(codes[0] == written[0] as int && codes[1] == written[1] as int);
    written
}

/// A download that is made now is kept under a name by which it is recognised, and which
/// is that of a moment that the clock has shown.
pub proof fn law_name_given_now_is_recognised(name: String)
    requires
        call_ensures(current_cache_file_name, (), name),
    ensures
        "default-cards-"@.is_prefix_of(name@),
        ".jsonl.gz"@.is_suffix_of(name@),
        exists|now: UtcTime| #[trigger] shown_by_clock(now) && name@ == cache_name(now),
{
    let now = choose|now: UtcTime|
        #[trigger] shown_by_clock(now) && now.in_range() && now.is_dated() && name@ == cache_name(
            now,
        );
    law_saved_name_is_recognised(now);
}

} // verus!
