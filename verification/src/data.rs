//! The shapes of what the card source sends.

use vstd::prelude::*;

verus! {

/// One page of a listing.
#[derive(Debug)]
pub struct ScryfallData<T> {
    /// The entries of this page.
    pub data: Vec<T>,
    /// The address of the page after this one, if there is one.
    pub next_page: Option<String>,
}

/// One file that the card source offers for bulk download.
#[derive(Debug)]
pub struct BulkDataEntry {
    /// What the file holds.
    pub data_type: String,
    /// Where the file can be had as compressed text with one object per line.
    pub jsonl_download_uri: String,
}

/// One symbol that occurs in card texts.
#[derive(Debug)]
pub struct ScryfallSymbol {
    /// The symbol as card texts write it.
    pub symbol: String,
    /// Where its picture can be had.
    pub svg_uri: String,
}

} // verus!
