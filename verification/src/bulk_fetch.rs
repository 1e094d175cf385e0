//! Getting hold of a bulk download: from the local cache where there is a usable
//! copy, from the card source otherwise.

use vstd::prelude::*;

use crate::data::BulkDataEntry;
use crate::error::ScryfallError;
use crate::error::ScryfallResult;
use crate::text::same_text;

verus! {

/// Whether a file is the one that holds the default cards.
pub open spec fn is_default_cards(entry: BulkDataEntry) -> bool {
    entry.data_type@ == "default_cards"@
}

/// Whether `at` is the position of the first file that holds the default cards.
pub open spec fn first_default_cards(entries: Seq<BulkDataEntry>, at: int) -> bool {
    &&& 0 <= at < entries.len()
    &&& is_default_cards(entries[at])
    &&& forall|i: int| 0 <= i < at ==> !is_default_cards(#[trigger] entries[i])
}

/// Whether `outcome` says where the first file that holds the default cards can be had,
/// or is an error because there is no such file.
pub open spec fn finds_default_cards(
    entries: Seq<BulkDataEntry>,
    outcome: ScryfallResult<String>,
) -> bool {
    match outcome {
        Ok(uri) => exists|at: int|
            first_default_cards(entries, at) && uri == (#[trigger] entries[at]).jsonl_download_uri,
        Err(error) => error == ScryfallError::ParseError && forall|i: int|
            0 <= i < entries.len() ==> !is_default_cards(#[trigger] entries[i]),
    }
}

/// Finds the first file that holds the default cards, and says where it can be had.
pub fn default_cards_uri(entries: &Vec<BulkDataEntry>) -> (outcome: ScryfallResult<String>)
    ensures
        finds_default_cards(entries@, outcome),
{
    for i in 0..entries.len()
        invariant
            forall|j: int| 0 <= j < i ==> !is_default_cards(#[trigger] entries@[j]),
    {
        if same_text(entries[i].data_type.as_str(), "default_cards") {
            assert(first_default_cards(entries@, i as int));
            return Ok(entries[i].jsonl_download_uri.clone());
        }
    }
    Err(ScryfallError::ParseError)
}

/// How to get hold of the bulk download.
#[derive(Debug)]
pub struct BulkFetch {
    /// The address under which the card source answers.
    pub base_url: String,
    /// Whether downloads are kept in, and taken from, the working directory.
    pub local_cache: bool,
}

/// What has come of the action before.
#[derive(Debug)]
pub enum BulkEvent {
    /// Nothing has been done yet.
    Started,
    /// The cache was searched; holds which of its files to use.
    CacheFound(Option<usize>),
    /// A file of the cache was read, or could not be.
    CacheLoaded(Option<Vec<u8>>),
    /// The list of files for bulk download was asked for.
    Manifest(ScryfallResult<Vec<BulkDataEntry>>),
    /// A file was downloaded.
    Downloaded(ScryfallResult<Vec<u8>>),
}

/// What to do next.
#[derive(Debug)]
pub enum BulkAction {
    /// Search the cache.
    FindCache,
    /// Read the file of the cache with this number.
    LoadCache(usize),
    /// Ask for the list of files at this address.
    FetchManifest(String),
    /// Download the file at this address.
    Download(String),
    /// Read the cards out of these bytes; where `save_first` holds, put the
    /// bytes into the cache before.
    Parse { bytes: Vec<u8>, save_first: bool },
    /// Give up.
    Fail(ScryfallError),
}

/// Whether an action downloads the first file that holds the default cards, or
/// gives up because there is none.
pub open spec fn picks_default_cards(entries: Seq<BulkDataEntry>, action: BulkAction) -> bool {
    match action {
        BulkAction::Download(uri) => exists|at: int|
            first_default_cards(entries, at) && uri == (#[trigger] entries[at]).jsonl_download_uri,
        BulkAction::Fail(error) => error == ScryfallError::ParseError && forall|i: int|
            0 <= i < entries.len() ==> !is_default_cards(#[trigger] entries[i]),
        _ => false,
    }
}

impl BulkFetch {
    /// Whether an action asks for the list of files.
    pub open spec fn asks_for_manifest(self, action: BulkAction) -> bool {
        action matches BulkAction::FetchManifest(url) && url@ == self.base_url@ + "/bulk-data"@
    }

    /// Whether `action` is what `event` calls for.
    pub open spec fn answers(self, event: BulkEvent, action: BulkAction) -> bool {
        match event {
            BulkEvent::Started => if self.local_cache {
                action == BulkAction::FindCache
            } else {
                self.asks_for_manifest(action)
            },
            BulkEvent::CacheFound(Some(file)) => action == BulkAction::LoadCache(file),
            BulkEvent::CacheFound(None) => self.asks_for_manifest(action),
            BulkEvent::CacheLoaded(Some(bytes)) => action == (BulkAction::Parse {
                bytes,
                save_first: false,
            }),
            BulkEvent::CacheLoaded(None) => self.asks_for_manifest(action),
            BulkEvent::Manifest(Ok(entries)) => picks_default_cards(entries@, action),
            BulkEvent::Manifest(Err(error)) => action == BulkAction::Fail(error),
            BulkEvent::Downloaded(Ok(bytes)) => action == (BulkAction::Parse {
                bytes,
                save_first: self.local_cache,
            }),
            BulkEvent::Downloaded(Err(error)) => action == BulkAction::Fail(error),
        }
    }

    /// The address of the list of files for bulk download.
    pub fn manifest_url(&self) -> (url: String)
        ensures
            url@ == self.base_url@ + "/bulk-data"@,
    {
        let mut url = self.base_url.clone();
        url.append("/bulk-data");
        url
    }

    /// Decides what to do next.
    pub fn next(&self, event: BulkEvent) -> (action: BulkAction)
        ensures
            self.answers(event, action),
    {
        match event {
            BulkEvent::Started => {
                if self.local_cache {
                    BulkAction::FindCache
                } else {
                    BulkAction::FetchManifest(self.manifest_url())
                }
            },
            BulkEvent::CacheFound(Some(file)) => BulkAction::LoadCache(file),
            BulkEvent::CacheLoaded(Some(bytes)) => BulkAction::Parse { bytes, save_first: false },
            BulkEvent::CacheFound(None) | BulkEvent::CacheLoaded(None) => {
                BulkAction::FetchManifest(self.manifest_url())
            },
            BulkEvent::Manifest(Ok(entries)) => match default_cards_uri(&entries) {
                Ok(uri) => BulkAction::Download(uri),
                Err(error) => BulkAction::Fail(error),
            },
            BulkEvent::Manifest(Err(error)) => BulkAction::Fail(error),
            BulkEvent::Downloaded(Ok(bytes)) => BulkAction::Parse {
                bytes,
                save_first: self.local_cache,
            },
            BulkEvent::Downloaded(Err(error)) => BulkAction::Fail(error),
        }
    }
}

/// A copy in the cache that can be read is used as it is: nothing is asked of
/// the card source and nothing is written to the cache.
pub proof fn law_cached_copy_is_used(
    plan: BulkFetch,
    file: usize,
    bytes: Vec<u8>,
    first: BulkAction,
    second: BulkAction,
    third: BulkAction,
)
    requires
        plan.local_cache,
        plan.answers(BulkEvent::Started, first),
        plan.answers(BulkEvent::CacheFound(Some(file)), second),
        plan.answers(BulkEvent::CacheLoaded(Some(bytes)), third),
    ensures
        first == BulkAction::FindCache,
        second == BulkAction::LoadCache(file),
        third == (BulkAction::Parse { bytes, save_first: false }),
{
}

/// Without a usable copy in the cache, the files on offer are looked up, however
/// that came about.
pub proof fn law_no_copy_means_lookup(plan: BulkFetch, event: BulkEvent, action: BulkAction)
    requires
        plan.answers(event, action),
        event == BulkEvent::CacheFound(None) || event == BulkEvent::CacheLoaded(None) || (event
            == BulkEvent::Started && !plan.local_cache),
    ensures
        plan.asks_for_manifest(action),
{
}

/// Of the files on offer the first that holds the default cards is downloaded, and
/// what came of it is read; it is put into the cache before exactly where
/// downloads are kept.
pub proof fn law_default_cards_are_downloaded(
    plan: BulkFetch,
    entries: Vec<BulkDataEntry>,
    at: int,
    bytes: Vec<u8>,
    first: BulkAction,
    second: BulkAction,
)
    requires
        first_default_cards(entries@, at),
        plan.answers(BulkEvent::Manifest(Ok(entries)), first),
        plan.answers(BulkEvent::Downloaded(Ok(bytes)), second),
    ensures
        first == BulkAction::Download(entries@[at].jsonl_download_uri),
        second == (BulkAction::Parse { bytes, save_first: plan.local_cache }),
{
    assert(is_default_cards(entries@[at]));
    assert(picks_default_cards(entries@, first));
    let found = choose|found: int|
        first_default_cards(entries@, found) && first->Download_0 == (
        #[trigger] entries@[found]).jsonl_download_uri;
    assert(is_default_cards(entries@[found]));
    assert(found == at);
}

/// Where downloads are not kept, the cache is neither searched nor written to.
pub proof fn law_cache_stays_untouched(plan: BulkFetch, event: BulkEvent, action: BulkAction)
    requires
        !plan.local_cache,
        plan.answers(event, action),
    ensures
        action != BulkAction::FindCache,
        action matches BulkAction::Parse { save_first, .. } ==> !save_first,
{
}

/// How far a fetch has come when an event occurs.
pub open spec fn progress(event: BulkEvent) -> nat {
    match event {
        BulkEvent::Started => 0,
        BulkEvent::CacheFound(_) => 1,
        BulkEvent::CacheLoaded(_) => 2,
        BulkEvent::Manifest(_) => 3,
        BulkEvent::Downloaded(_) => 4,
    }
}

/// Whether an event reports what came of an action. Reading the cards and giving
/// up end the fetch.
pub open spec fn reports(event: BulkEvent, action: BulkAction) -> bool {
    match action {
        BulkAction::FindCache => event is CacheFound,
        BulkAction::LoadCache(_) => event is CacheLoaded,
        BulkAction::FetchManifest(_) => event is Manifest,
        BulkAction::Download(_) => event is Downloaded,
        BulkAction::Parse { .. } => false,
        BulkAction::Fail(_) => false,
    }
}

/// A fetch ends: each event takes it further than the one before, and none can
/// take it further than a finished download.
pub proof fn law_fetch_ends(plan: BulkFetch, event: BulkEvent, action: BulkAction, report: BulkEvent)
    requires
        plan.answers(event, action),
        reports(report, action),
    ensures
        progress(event) < progress(report) <= 4,
{
}

/// Of the files on offer the first one of the kind "default_cards" is picked, and what
/// is given is where that file can be had.
pub proof fn law_first_default_cards_are_picked(
    entries: &Vec<BulkDataEntry>,
    outcome: ScryfallResult<String>,
    at: int,
)
    requires
        call_ensures(default_cards_uri, (entries,), outcome),
        0 <= at < entries@.len(),
        entries@[at].data_type@ == "default_cards"@,
        forall|i: int|
            0 <= i < at ==> (#[trigger] entries@[i]).data_type@ != "default_cards"@,
    ensures
        outcome matches Ok(uri) && uri@ == entries@[at].jsonl_download_uri@,
{
    assert(is_default_cards(entries@[at]));
    assert(finds_default_cards(entries@, outcome));
    assert(outcome is Ok);
    let found = choose|found: int|
        first_default_cards(entries@, found) && outcome->Ok_0 == (
        #[trigger] entries@[found]).jsonl_download_uri;
    if found < at {
        assert(entries@[found].data_type@ != "default_cards"@);
    } else if at < found {
        assert(!is_default_cards(entries@[at]));
    }
}

/// Without a file of the kind "default_cards" nothing is picked: the files on offer then
/// read as contents that make no sense.
pub proof fn law_nothing_is_picked_without_default_cards(
    entries: &Vec<BulkDataEntry>,
    outcome: ScryfallResult<String>,
)
    requires
        call_ensures(default_cards_uri, (entries,), outcome),
        forall|i: int|
            0 <= i < entries@.len() ==> (#[trigger] entries@[i]).data_type@ != "default_cards"@,
    ensures
        outcome == ScryfallResult::<String>::Err(ScryfallError::ParseError),
{
    if outcome is Ok {
        let found = choose|found: int|
            first_default_cards(entries@, found) && outcome->Ok_0 == (
            #[trigger] entries@[found]).jsonl_download_uri;
        assert(entries@[found].data_type@ != "default_cards"@);
    }
}

/// The list of files is asked for right below the address of the card source.
pub proof fn law_manifest_lies_below_the_source(plan: &BulkFetch, url: String)
    requires
        call_ensures(BulkFetch::manifest_url, (plan,), url),
    ensures
        url@.len() == plan.base_url@.len() + "/bulk-data"@.len(),
        plan.base_url@.is_prefix_of(url@),
        "/bulk-data"@.is_suffix_of(url@),
{
    let start = plan.base_url@.len() as int;
    assert(url@.subrange(0, start) =~= plan.base_url@);
    assert(url@.subrange(start, url@.len() as int) =~= "/bulk-data"@);
}

/// Where downloads are kept, a fetch first searches the cache, then reads the file found
/// there, and takes what it holds as it is, without writing it back.
pub proof fn law_fetch_takes_what_is_kept(
    plan: &BulkFetch,
    file: usize,
    bytes: Vec<u8>,
    started: BulkAction,
    found: BulkAction,
    loaded: BulkAction,
)
    requires
        call_ensures(BulkFetch::next, (plan, BulkEvent::Started), started),
        call_ensures(BulkFetch::next, (plan, BulkEvent::CacheFound(Some(file))), found),
        call_ensures(BulkFetch::next, (plan, BulkEvent::CacheLoaded(Some(bytes))), loaded),
    ensures
        started is FindCache <==> plan.local_cache,
        found matches BulkAction::LoadCache(read) && read == file,
        loaded matches BulkAction::Parse { bytes: parsed, save_first } && parsed@ == bytes@
            && !save_first,
{
}

/// Where nothing kept can be used, a fetch asks the card source for its list of files.
pub proof fn law_fetch_turns_to_the_source(
    plan: &BulkFetch,
    event: BulkEvent,
    action: BulkAction,
    url: String,
)
    requires
        call_ensures(BulkFetch::next, (plan, event), action),
        call_ensures(BulkFetch::manifest_url, (plan,), url),
        ({
            ||| event is Started && !plan.local_cache
            ||| event == BulkEvent::CacheFound(None)
            ||| event == BulkEvent::CacheLoaded(None)
        }),
    ensures
        action matches BulkAction::FetchManifest(asked) && asked@ == url@,
{
}

/// Of the files on the list the one is downloaded that is picked out of it. Its bytes
/// are read as they came, and are kept before exactly where downloads are.
pub proof fn law_fetch_reads_what_it_downloads(
    plan: &BulkFetch,
    entries: Vec<BulkDataEntry>,
    picked: ScryfallResult<String>,
    bytes: Vec<u8>,
    listed: BulkAction,
    downloaded: BulkAction,
)
    requires
        call_ensures(default_cards_uri, (&entries,), picked),
        call_ensures(BulkFetch::next, (plan, BulkEvent::Manifest(Ok(entries))), listed),
        call_ensures(BulkFetch::next, (plan, BulkEvent::Downloaded(Ok(bytes))), downloaded),
    ensures
        picked matches Ok(uri) ==> (listed matches BulkAction::Download(asked) && asked@ == uri@),
        picked matches Err(error) ==> listed == BulkAction::Fail(error),
        downloaded matches BulkAction::Parse { bytes: parsed, save_first } && parsed@ == bytes@
            && save_first == plan.local_cache,
{
    if exists|i: int| 0 <= i < entries@.len() && is_default_cards(#[trigger] entries@[i]) {
        let some = choose|i: int| 0 <= i < entries@.len() && is_default_cards(#[trigger] entries@[i]);
        let at = lemma_first_of_kind(entries@, some);
        assert forall|i: int| 0 <= i < at implies (#[trigger] entries@[i]).data_type@
            != "default_cards"@ by {
            assert(!is_default_cards(entries@[i]));
        }
        law_first_default_cards_are_picked(&entries, picked, at);
        law_default_cards_are_downloaded(*plan, entries, at, bytes, listed, downloaded);
    } else {
        assert forall|i: int| 0 <= i < entries@.len() implies (#[trigger] entries@[i]).data_type@
            != "default_cards"@ by {
            assert(!is_default_cards(entries@[i]));
        }
        law_nothing_is_picked_without_default_cards(&entries, picked);
        assert(picks_default_cards(entries@, listed));
    }
}

/// Finds the first file that holds the default cards, where there is one.
proof fn lemma_first_of_kind(entries: Seq<BulkDataEntry>, some: int) -> (at: int)
    requires
        0 <= some < entries.len(),
        is_default_cards(entries[some]),
    ensures
        first_default_cards(entries, at),
    decreases some,
{
    if exists|i: int| 0 <= i < some && is_default_cards(#[trigger] entries[i]) {
        let sooner = choose|i: int| 0 <= i < some && is_default_cards(#[trigger] entries[i]);
        lemma_first_of_kind(entries, sooner)
    } else {
        some
    }
}

/// An error of the card source ends a fetch, and is what the fetch ends with.
pub proof fn law_fetch_passes_errors_on(
    plan: &BulkFetch,
    error: ScryfallError,
    listed: BulkAction,
    downloaded: BulkAction,
)
    requires
        call_ensures(BulkFetch::next, (plan, BulkEvent::Manifest(Err(error))), listed),
        call_ensures(BulkFetch::next, (plan, BulkEvent::Downloaded(Err(error))), downloaded),
    ensures
        listed matches BulkAction::Fail(given) && given == error,
        downloaded matches BulkAction::Fail(given) && given == error,
{
}

} // verus!
