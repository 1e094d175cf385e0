//! Bulk downloads: gzip-compressed text with one card object per line.

use std::io::Read;

use flate2::read::GzDecoder;
use vstd::prelude::*;

use crate::error::ScryfallError;
use crate::error::ScryfallResult;
use crate::text::from_chars;
use crate::text::lines;
use crate::text::lemma_lines_ended;
use crate::text::lemma_lines_open;
use crate::text::without_return;

verus! {

/// The contents of texts.
pub open spec fn contents(texts: Seq<String>) -> Seq<Seq<char>> {
    texts.map_values(|text: String| text@)
}

/// The records of a bulk text: its lines, without the empty ones.
pub open spec fn records_of(text: Seq<char>) -> Seq<Seq<char>> {
    lines(text).filter(|line: Seq<char>| line.len() > 0)
}

/// Adds a line to the records, unless it is empty.
fn keep_line(records: &mut Vec<String>, line: &Vec<char>, Ghost(seen): Ghost<Seq<Seq<char>>>)
    requires
        contents(old(records)@) == seen.filter(|line: Seq<char>| line.len() > 0),
    ensures
        contents(final(records)@) == seen.push(line@).filter(|line: Seq<char>| line.len() > 0),
{
    let ghost nonempty = |line: Seq<char>| line.len() > 0;
    proof {
        seen.lemma_filter_push(line@, nonempty);
    }
    if line.len() > 0 {
        let record = from_chars(line);
        let ghost before = records@;
        records.push(record);
        assert(contents(records@) =~= contents(before).push(line@));
    }
}

/// Splits a bulk text into its records.
pub fn records(text: &str) -> (records: Vec<String>)
    ensures
        contents(records@) == records_of(text@),
{
    let mut records: Vec<String> = Vec::new();
    let mut line: Vec<char> = Vec::new();
    let ghost mut seen: Seq<Seq<char>> = Seq::empty();
    proof {
        assert(seen + lines(line@ + text@) =~= lines(text@)) by {
            assert(line@ + text@ =~= text@);
        }
        assert(text@.skip(0) =~= text@);
        assert(contents(records@) =~= seen.filter(|line: Seq<char>| line.len() > 0)) by {
            reveal(Seq::filter);
        }
    }
    for c in it: text.chars()
        invariant
            it.seq() == text@,
            !line@.contains('\n'),
            lines(text@) == seen + lines(line@ + text@.skip(it.index())),
            contents(records@) == seen.filter(|line: Seq<char>| line.len() > 0),
    {
        let ghost rest = text@.skip(it.index() + 1);
        let ghost begun = line@;
        assert(text@.skip(it.index()) =~= seq![c] + rest);
        if c == '\n' {
            proof {
                lemma_lines_ended(line@, rest);
                assert(line@ + text@.skip(it.index()) =~= line@ + seq!['\n'] + rest);
            }
            if line.len() > 0 && line[line.len() - 1] == '\r' {
                line.pop();
                assert(line@ =~= begun.drop_last());
            }
            assert(line@ == without_return(begun));
            keep_line(&mut records, &line, Ghost(seen));
            proof {
                assert(seen + (seq![line@] + lines(rest)) =~= seen.push(line@) + lines(rest));
                seen = seen.push(line@);
            }
            line.clear();
            assert(line@ + rest =~= rest);
        } else {
            line.push(c);
            assert(line@ + rest =~= begun + (seq![c] + rest));
            assert forall|i: int| 0 <= i < line@.len() implies line@[i] != '\n' by {
                if i < begun.len() {
                    assert(begun.contains(begun[i]));
                }
            }
        }
    }
    proof {
        lemma_lines_open(line@);
        assert(line@ + text@.skip(text@.len() as int) =~= line@);
        if line@.len() > 0 {
            assert(seen + seq![line@] =~= seen.push(line@));
        } else {
            seen.lemma_filter_push(line@, |line: Seq<char>| line.len() > 0);
            assert(seen + Seq::<Seq<char>>::empty() =~= seen);
        }
    }
    keep_line(&mut records, &line, Ghost(seen));
    records
}

/// The error of a failed read.
#[verifier::external_type_specification]
#[verifier::external_body]
pub struct ExIoError(std::io::Error);

/// What `flate2::read::GzDecoder` makes of compressed bytes when it is read to
/// the end into a text: the text of the first gzip member, or nothing where the
/// bytes are no intact gzip member or what they hold is not UTF-8.
pub uninterp spec fn gunzipped_text(bytes: Seq<u8>) -> Option<Seq<char>>;

/// `flate2::read::GzDecoder`, read to the end by `read_to_string`: the outcome
/// is a function of the bytes alone. It is named, not described: what the name
/// is on given bytes is left unsaid.
#[verifier::external_body]
fn gunzip_to_text(bytes: &[u8]) -> (outcome: Result<String, std::io::Error>)
    ensures
        gunzipped_text(bytes@) == (match outcome {
            Ok(text) => Some(text@),
            Err(_) => None,
        }),
{
    let mut text = String::new();
    GzDecoder::new(bytes).read_to_string(&mut text)?;
    Ok(text)
}

/// Decompresses a bulk download.
pub fn decompress(bytes: &[u8]) -> (outcome: ScryfallResult<String>)
    ensures
        match gunzipped_text(bytes@) {
            Some(text) => outcome matches Ok(decompressed) && decompressed@ == text,
            None => outcome == ScryfallResult::<String>::Err(ScryfallError::ParseError),
        },
{
    match gunzip_to_text(bytes) {
        Ok(text) => Ok(text),
        Err(_) => Err(ScryfallError::ParseError),
    }
}

/// Why a bulk download cannot be decompressed; nothing where it can.
pub fn decompression_failure(bytes: &[u8]) -> (why: Option<std::io::Error>)
    ensures
        why is Some <==> gunzipped_text(bytes@) is None,
{
    match gunzip_to_text(bytes) {
        Ok(_) => None,
        Err(why) => Some(why),
    }
}

/// Whether `decode` may answer a record that reads `record` with `answer`.
pub open spec fn decodes_to<T, E, F: Fn(&str) -> Result<T, E>>(
    decode: F,
    record: Seq<char>,
    answer: Result<T, E>,
) -> bool {
    exists|line: &str| line@ == record && call_ensures(decode, (line,), answer)
}

/// Whether `cards` are, in order, what `decode` makes of the records.
pub open spec fn all_decoded<T, E, F: Fn(&str) -> Result<T, E>>(
    decode: F,
    records: Seq<Seq<char>>,
    cards: Seq<T>,
) -> bool {
    &&& cards.len() == records.len()
    &&& forall|i: int|
        0 <= i < cards.len() ==> decodes_to::<T, E, F>(decode, records[i], Ok(#[trigger] cards[i]))
}

/// What becomes of records: all of them decoded, or an error as soon as `decode`
/// refuses one, the ones before it having been decoded.
pub open spec fn decode_outcome<T, E, F: Fn(&str) -> Result<T, E>>(
    decode: F,
    records: Seq<Seq<char>>,
    outcome: ScryfallResult<Vec<T>>,
) -> bool {
    match outcome {
        Ok(cards) => all_decoded::<T, E, F>(decode, records, cards@),
        Err(error) => {
            &&& error == ScryfallError::ParseError
            &&& exists|before: Seq<T>, why: E|
                {
                    &&& before.len() < records.len()
                    &&& #[trigger] all_decoded::<T, E, F>(
                        decode,
                        records.take(before.len() as int),
                        before,
                    )
                    &&& #[trigger] decodes_to::<T, E, F>(
                        decode,
                        records[before.len() as int],
                        Err(why),
                    )
                }
        },
    }
}

/// Decodes records one after the other, up to the first that is refused.
pub fn decode_records<T, E, F: Fn(&str) -> Result<T, E>>(records: &Vec<String>, decode: F) -> (outcome:
    ScryfallResult<Vec<T>>)
    requires
        forall|line: &str| call_requires(decode, (line,)),
    ensures
        decode_outcome::<T, E, F>(decode, contents(records@), outcome),
{
    let mut cards: Vec<T> = Vec::new();
    let ghost all = contents(records@);
    for i in 0..records.len()
        invariant
            all == contents(records@),
            forall|line: &str| call_requires(decode, (line,)),
            all_decoded::<T, E, F>(decode, all.take(i as int), cards@),
    {
        let line = records[i].as_str();
        assert(line@ == all[i as int]);
        match decode(line) {
            Ok(card) => {
                let ghost before = cards@;
                cards.push(card);
                assert forall|j: int| 0 <= j < cards@.len() implies decodes_to::<T, E, F>(
                    decode,
                    all.take(i + 1)[j],
                    Ok(#[trigger] cards@[j]),
                ) by {
                    if j < i {
                        assert(cards@[j] == before[j]);
                        assert(all.take(i as int)[j] == all.take(i + 1)[j]);
                    }
                }
            },
            Err(why) => {
                assert(decodes_to::<T, E, F>(decode, all[cards@.len() as int], Err(why)));
                return Err(ScryfallError::ParseError);
            },
        }
    }
    assert(all.take(all.len() as int) =~= all);
    Ok(cards)
}

/// What becomes of a bulk download: an error where it cannot be decompressed, and
/// what becomes of its records otherwise.
pub open spec fn parse_outcome<T, E, F: Fn(&str) -> Result<T, E>>(
    decode: F,
    bytes: Seq<u8>,
    outcome: ScryfallResult<Vec<T>>,
) -> bool {
    match gunzipped_text(bytes) {
        Some(text) => decode_outcome::<T, E, F>(decode, records_of(text), outcome),
        None => outcome == ScryfallResult::<Vec<T>>::Err(ScryfallError::ParseError),
    }
}

/// Reads a bulk download: decompresses it and decodes the object on each line
/// that is not empty.
pub fn parse_bulk_cards<T, E, F: Fn(&str) -> Result<T, E>>(bytes: &[u8], decode: F) -> (outcome:
    ScryfallResult<Vec<T>>)
    requires
        forall|line: &str| call_requires(decode, (line,)),
    ensures
        parse_outcome::<T, E, F>(decode, bytes@, outcome),
{
    match decompress(bytes) {
        Ok(text) => decode_records(&records(text.as_str()), decode),
        Err(error) => Err(error),
    }
}

/// Whether a record can be written as a line of its own.
pub open spec fn fits_on_line(record: Seq<char>) -> bool {
    &&& record.len() > 0
    &&& !record.contains('\n')
    &&& record.last() != '\r'
}

/// Records written one per line.
pub open spec fn written(records: Seq<Seq<char>>) -> Seq<char>
    decreases records.len(),
{
    if records.len() == 0 {
        Seq::empty()
    } else {
        records[0] + seq!['\n'] + written(records.drop_first())
    }
}

/// A filter that keeps every element changes nothing.
proof fn lemma_filter_keeps_all<A>(items: Seq<A>, keep: spec_fn(A) -> bool)
    requires
        forall|i: int| 0 <= i < items.len() ==> keep(#[trigger] items[i]),
    ensures
        items.filter(keep) == items,
    decreases items.len(),
{
    reveal(Seq::filter);
    if items.len() > 0 {
        assert(keep(items[items.len() - 1]));
        lemma_filter_keeps_all(items.drop_last(), keep);
        assert(items.drop_last().push(items.last()) =~= items);
    }
}

/// The lines of records written one per line are the records.
proof fn lemma_lines_of_written(records: Seq<Seq<char>>)
    requires
        forall|i: int| 0 <= i < records.len() ==> fits_on_line(#[trigger] records[i]),
    ensures
        lines(written(records)) == records,
    decreases records.len(),
{
    if records.len() > 0 {
        let rest = records.drop_first();
        assert forall|i: int| 0 <= i < rest.len() implies fits_on_line(#[trigger] rest[i]) by {
            assert(rest[i] == records[i + 1]);
        }
        lemma_lines_of_written(rest);
        assert(fits_on_line(records[0]));
        lemma_lines_ended(records[0], written(rest));
        assert(seq![records[0]] + rest =~= records);
    }
}

/// Records written one per line are read back as they were.
pub proof fn law_written_records_are_read_back(records: Seq<Seq<char>>)
    requires
        forall|i: int| 0 <= i < records.len() ==> fits_on_line(#[trigger] records[i]),
    ensures
        records_of(written(records)) == records,
{
    lemma_lines_of_written(records);
    assert forall|i: int| 0 <= i < records.len() implies (#[trigger] records[i]).len() > 0 by {
        assert(fits_on_line(records[i]));
    }
    lemma_filter_keeps_all(records, |line: Seq<char>| line.len() > 0);
}

/// The records of a text that starts with an ended line.
proof fn lemma_records_ended(line: Seq<char>, rest: Seq<char>)
    requires
        !line.contains('\n'),
    ensures
        records_of(line + seq!['\n'] + rest) == (if without_return(line).len() > 0 {
            seq![without_return(line)] + records_of(rest)
        } else {
            records_of(rest)
        }),
{
    let nonempty = |line: Seq<char>| line.len() > 0;
    let first = without_return(line);
    lemma_lines_ended(line, rest);
    Seq::filter_distributes_over_add(seq![first], lines(rest), nonempty);
    Seq::<Seq<char>>::empty().lemma_filter_push(first, nonempty);
    assert(Seq::<Seq<char>>::empty().filter(nonempty) =~= Seq::empty()) by {
        reveal(Seq::filter);
    }
    assert(Seq::<Seq<char>>::empty().push(first) =~= seq![first]);
    assert(Seq::<Seq<char>>::empty() + records_of(rest) =~= records_of(rest));
}

/// What stands behind a line feed, or at the start, is split into records on its
/// own.
proof fn lemma_records_behind_feed(front: Seq<char>, rest: Seq<char>)
    requires
        front.len() > 0 ==> front.last() == '\n',
    ensures
        records_of(front + rest) == records_of(front) + records_of(rest),
    decreases front.len(),
{
    if front.len() == 0 {
        lemma_lines_open(front);
        assert(records_of(front) =~= Seq::empty()) by {
            reveal(Seq::filter);
        }
        assert(front + rest =~= rest);
        assert(Seq::<Seq<char>>::empty() + records_of(rest) =~= records_of(rest));
    } else {
        assert(front[front.len() - 1] == '\n');
        let end = lemma_first_line_feed(front);
        let line = front.take(end);
        let tail = front.skip(end + 1);
        assert(front =~= line + seq!['\n'] + tail);
        assert(front + rest =~= line + seq!['\n'] + (tail + rest));
        lemma_records_ended(line, tail);
        lemma_records_ended(line, tail + rest);
        lemma_records_behind_feed(tail, rest);
        assert(seq![without_return(line)] + records_of(tail) + records_of(rest) =~= seq![
            without_return(line),
        ] + (records_of(tail) + records_of(rest)));
    }
}

/// Takes a text apart into its ended lines and what stands behind them.
proof fn lemma_open_line(text: Seq<char>) -> (parts: (Seq<char>, Seq<char>))
    ensures
        text == parts.0 + parts.1,
        parts.0.len() > 0 ==> parts.0.last() == '\n',
        !parts.1.contains('\n'),
    decreases text.len(),
{
    if text.len() == 0 || text.last() == '\n' {
        assert(text =~= text + Seq::<char>::empty());
        (text, Seq::empty())
    } else {
        let (front, line) = lemma_open_line(text.drop_last());
        assert(text =~= text.drop_last().push(text.last()));
        assert((front + line).push(text.last()) =~= front + line.push(text.last()));
        assert forall|i: int| 0 <= i < line.push(text.last()).len() implies line.push(
            text.last(),
        )[i] != '\n' by {
            if i < line.len() {
                assert(line.contains(line[i]));
            }
        }
        (front, line.push(text.last()))
    }
}

/// The one record of a line that is not ended, if it is not empty.
pub open spec fn line_records(line: Seq<char>) -> Seq<Seq<char>> {
    if line.len() > 0 {
        seq![line]
    } else {
        Seq::empty()
    }
}

/// A line that is not ended is a record as it is.
proof fn lemma_records_open(line: Seq<char>)
    requires
        !line.contains('\n'),
    ensures
        records_of(line) == line_records(line),
{
    lemma_lines_open(line);
    if line.len() > 0 {
        lemma_filter_keeps_all(seq![line], |line: Seq<char>| line.len() > 0);
    } else {
        reveal(Seq::filter);
    }
}

/// The records of two texts with a line feed between them, where `front` and
/// `line` are the ended lines of the first text and what stands behind them.
proof fn lemma_records_joined(front: Seq<char>, line: Seq<char>, second: Seq<char>)
    requires
        front.len() > 0 ==> front.last() == '\n',
        !line.contains('\n'),
    ensures
        records_of(front + line) == records_of(front) + line_records(line),
        records_of(front + line + seq!['\n'] + second) == records_of(front) + line_records(
            without_return(line),
        ) + records_of(second),
{
    lemma_records_behind_feed(front, line);
    lemma_records_open(line);
    let rest = line + seq!['\n'] + second;
    assert(front + line + seq!['\n'] + second =~= front + rest);
    lemma_records_behind_feed(front, rest);
    lemma_records_ended(line, second);
    assert(records_of(rest) =~= line_records(without_return(line)) + records_of(second));
    assert(records_of(front) + line_records(without_return(line)) + records_of(second)
        =~= records_of(front) + (line_records(without_return(line)) + records_of(second)));
}

/// Of two texts with a line feed between them, the records are those of the first
/// followed by those of the second. A first text that ends in a carriage return is
/// left out, since there the line feed takes it out of the last record.
pub proof fn law_joined_texts_join_their_records(first: Seq<char>, second: Seq<char>)
    requires
        first.len() > 0 ==> first.last() != '\r',
    ensures
        records_of(first + seq!['\n'] + second) == records_of(first) + records_of(second),
{
    let (front, line) = lemma_open_line(first);
    lemma_records_joined(front, line, second);
    if line.len() > 0 {
        assert(line.last() == first.last());
    }
}

/// The last line need not be ended: a line feed behind it changes nothing. A text
/// that ends in a carriage return is left out, as there it changes the last record.
pub proof fn law_last_line_feed_is_optional(text: Seq<char>)
    requires
        text.len() > 0 ==> text.last() != '\r',
    ensures
        records_of(text + seq!['\n']) == records_of(text),
{
    let none = Seq::<char>::empty();
    law_joined_texts_join_their_records(text, none);
    lemma_records_open(none);
    assert(text + seq!['\n'] + none =~= text + seq!['\n']);
    assert(records_of(text) + Seq::<Seq<char>>::empty() =~= records_of(text));
}

/// Finds the first line feed of a text that has one.
proof fn lemma_first_line_feed(text: Seq<char>) -> (end: int)
    requires
        text.contains('\n'),
    ensures
        0 <= end < text.len(),
        text[end] == '\n',
        !text.take(end).contains('\n'),
    decreases text.len(),
{
    if text[0] == '\n' {
        0
    } else {
        let at = choose|at: int| 0 <= at < text.len() && text[at] == '\n';
        assert(text.drop_first()[at - 1] == '\n');
        let end = lemma_first_line_feed(text.drop_first());
        assert forall|i: int| 0 <= i < end + 1 implies text[i] != '\n' by {
            if i > 0 {
                assert(text.drop_first().take(end)[i - 1] == text[i]);
                assert(text.drop_first().take(end).contains(
                    text.drop_first().take(end)[i - 1],
                ));
            }
        }
        end + 1
    }
}

/// With a decoder that answers the same record always the same way, reading the
/// records succeeds exactly when every one of them can be decoded, and then gives
/// what they decode to, in their order.
pub proof fn law_decoding_takes_all_or_nothing<T, E, F: Fn(&str) -> Result<T, E>>(
    decode: F,
    meaning: spec_fn(Seq<char>) -> Result<T, E>,
    records: Seq<Seq<char>>,
    outcome: ScryfallResult<Vec<T>>,
)
    requires
        forall|line: &str, answer: Result<T, E>| #[trigger]
            call_ensures(decode, (line,), answer) ==> answer == meaning(line@),
        decode_outcome::<T, E, F>(decode, records, outcome),
    ensures
        outcome is Ok <==> (forall|i: int|
            0 <= i < records.len() ==> meaning(#[trigger] records[i]) is Ok),
        outcome matches Ok(cards) ==> {
            &&& cards@.len() == records.len()
            &&& forall|i: int|
                0 <= i < records.len() ==> meaning(#[trigger] records[i]) == Result::<T, E>::Ok(
                    cards@[i],
                )
        },
        outcome matches Err(error) ==> error == ScryfallError::ParseError,
{
    match outcome {
        Ok(cards) => {
            assert forall|i: int| 0 <= i < records.len() implies meaning(#[trigger] records[i])
                == Result::<T, E>::Ok(cards@[i]) by {
                assert(decodes_to::<T, E, F>(decode, records[i], Ok(cards@[i])));
            }
        },
        Err(_) => {
            let (before, why) = choose|before: Seq<T>, why: E|
                {
                    &&& before.len() < records.len()
                    &&& #[trigger] all_decoded::<T, E, F>(
                        decode,
                        records.take(before.len() as int),
                        before,
                    )
                    &&& #[trigger] decodes_to::<T, E, F>(
                        decode,
                        records[before.len() as int],
                        Err(why),
                    )
                };
            assert(meaning(records[before.len() as int]) == Result::<T, E>::Err(why));
        },
    }
}

/// Whether a carriage return behind a record makes no difference to what it is
/// decoded to, and alone is no record.
pub open spec fn ignores_return<T, E>(meaning: spec_fn(Seq<char>) -> Result<T, E>) -> bool {
    &&& meaning(seq!['\r']) is Err
    &&& forall|record: Seq<char>|
        record.len() > 0 ==> #[trigger] meaning(record.push('\r')) == meaning(record)
}

/// Records of two texts with a line feed between them give the cards of the first
/// followed by those of the second: where `one` and `other` came of reading
/// the records of each, `both` comes of reading those of the two together. If the
/// first text ends in a carriage return, this takes a decoder that ignores one.
pub proof fn law_joined_texts_join_their_cards<T, E, F: Fn(&str) -> Result<T, E>>(
    decode: F,
    meaning: spec_fn(Seq<char>) -> Result<T, E>,
    first: Seq<char>,
    second: Seq<char>,
    one: Vec<T>,
    other: Vec<T>,
    both: ScryfallResult<Vec<T>>,
)
    requires
        forall|line: &str, answer: Result<T, E>| #[trigger]
            call_ensures(decode, (line,), answer) ==> answer == meaning(line@),
        first.len() > 0 && first.last() == '\r' ==> ignores_return(meaning),
        decode_outcome::<T, E, F>(decode, records_of(first), Ok(one)),
        decode_outcome::<T, E, F>(decode, records_of(second), Ok(other)),
        decode_outcome::<T, E, F>(
            decode,
            records_of(first + seq!['\n'] + second),
            both,
        ),
    ensures
        both matches Ok(cards) && cards@ == one@ + other@,
{
    let (front, line) = lemma_open_line(first);
    lemma_records_joined(front, line, second);
    let start = records_of(first);
    let end = records_of(second);
    let all = records_of(first + seq!['\n'] + second);
    law_decoding_takes_all_or_nothing(decode, meaning, start, Ok(one));
    law_decoding_takes_all_or_nothing(decode, meaning, end, Ok(other));
    law_decoding_takes_all_or_nothing(decode, meaning, all, both);
    if line.len() > 0 {
        assert(line.last() == first.last());
        assert(start[start.len() - 1] == line);
        assert(meaning(line) is Ok);
        if line.last() == '\r' {
            assert(line =~= line.drop_last().push('\r'));
            if line.len() == 1 {
                assert(line =~= seq!['\r']);
            }
        }
    }
    assert(all.len() == start.len() + end.len());
    let cards = one@ + other@;
    assert forall|i: int| 0 <= i < all.len() implies meaning(#[trigger] all[i]) == Result::<
        T,
        E,
    >::Ok(cards[i]) by {
        if i < start.len() {
            assert(meaning(start[i]) == Result::<T, E>::Ok(one@[i]));
            if i < start.len() - 1 {
                assert(all[i] == start[i]);
            }
        } else {
            assert(all[i] == end[i - start.len()]);
        }
    }
    assert(both is Ok);
    assert forall|i: int| 0 <= i < all.len() implies both->Ok_0@[i] == cards[i] by {
        assert(meaning(all[i]) == Result::<T, E>::Ok(both->Ok_0@[i]));
    }
    assert(both->Ok_0@ =~= cards);
}

/// A download whose text is those of two others with a line feed between them gives
/// the cards of the first followed by those of the second. If the text of the first
/// ends in a carriage return, this takes a decoder that ignores one.
pub proof fn law_joined_downloads_join_their_cards<T, E, F: Fn(&str) -> Result<T, E>>(
    decode: F,
    meaning: spec_fn(Seq<char>) -> Result<T, E>,
    first: Seq<u8>,
    second: Seq<u8>,
    joined: Seq<u8>,
    one: Vec<T>,
    other: Vec<T>,
    both: ScryfallResult<Vec<T>>,
)
    requires
        forall|line: &str, answer: Result<T, E>| #[trigger]
            call_ensures(decode, (line,), answer) ==> answer == meaning(line@),
    ensures
        ({
            &&& gunzipped_text(first) matches Some(start)
            &&& gunzipped_text(second) matches Some(end)
            &&& gunzipped_text(joined) == Some(start + seq!['\n'] + end)
            &&& start.len() > 0 && start.last() == '\r' ==> ignores_return(meaning)
            &&& parse_outcome::<T, E, F>(decode, first, Ok(one))
            &&& parse_outcome::<T, E, F>(decode, second, Ok(other))
            &&& parse_outcome::<T, E, F>(decode, joined, both)
        }) ==> (both matches Ok(cards) && cards@ == one@ + other@),
{
    if let Some(start) = gunzipped_text(first) {
        if let Some(end) = gunzipped_text(second) {
            if gunzipped_text(joined) == Some(start + seq!['\n'] + end) && (start.len() > 0
                && start.last() == '\r' ==> ignores_return(meaning)) && parse_outcome::<T, E, F>(
                decode,
                first,
                Ok(one),
            ) && parse_outcome::<T, E, F>(decode, second, Ok(other)) && parse_outcome::<T, E, F>(
                decode,
                joined,
                both,
            ) {
                law_joined_texts_join_their_cards(
                    decode,
                    meaning,
                    start,
                    end,
                    one,
                    other,
                    both,
                );
            }
        }
    }
}

/// A text without a line feed is one record, whole as it is, unless it is empty.
pub proof fn law_text_of_one_line_is_a_record(text: &str, found: Vec<String>)
    requires
        call_ensures(records, (text,), found),
        !text@.contains('\n'),
    ensures
        text@.len() == 0 ==> found@.len() == 0,
        text@.len() > 0 ==> found@.len() == 1 && found@[0]@ == text@,
{
    lemma_records_open(text@);
    assert(contents(found@) == line_records(text@));
    assert(contents(found@).len() == found@.len());
    if text@.len() > 0 {
        assert(contents(found@)[0] == found@[0]@);
    }
}

/// What stands before a line feed, with or without a carriage return right before that,
/// and what stands behind it are split into records each for itself. Without such a
/// carriage return the first part must not end in one.
pub proof fn law_line_feed_parts_records(
    text: &str,
    first: &str,
    second: &str,
    found: Vec<String>,
    first_found: Vec<String>,
    second_found: Vec<String>,
)
    requires
        call_ensures(records, (text,), found),
        call_ensures(records, (first,), first_found),
        call_ensures(records, (second,), second_found),
        ({
            ||| text@ == first@ + seq!['\r', '\n'] + second@
            ||| text@ == first@ + seq!['\n'] + second@ && (first@.len() > 0 ==> first@.last()
                != '\r')
        }),
    ensures
        found@.len() == first_found@.len() + second_found@.len(),
        forall|i: int|
            0 <= i < found@.len() ==> (#[trigger] found@[i])@ == (if i < first_found@.len() {
                first_found@[i]@
            } else {
                second_found@[i - first_found@.len()]@
            }),
{
    let all = contents(found@);
    let start = contents(first_found@);
    let end = contents(second_found@);
    if text@ == first@ + seq!['\r', '\n'] + second@ {
        let (front, line) = lemma_open_line(first@);
        let longer = line.push('\r');
        assert forall|i: int| 0 <= i < longer.len() implies longer[i] != '\n' by {
            if i < line.len() {
                assert(line.contains(line[i]));
            }
        }
        lemma_records_joined(front, line, second@);
        lemma_records_joined(front, longer, second@);
        assert(longer.drop_last() =~= line);
        assert(text@ =~= front + longer + seq!['\n'] + second@);
    } else {
        law_joined_texts_join_their_records(first@, second@);
    }
    assert(all =~= start + end);
    assert(all.len() == found@.len());
    assert forall|i: int| 0 <= i < found@.len() implies (#[trigger] found@[i])@ == (if i
        < first_found@.len() {
        first_found@[i]@
    } else {
        second_found@[i - first_found@.len()]@
    }) by {
        assert(all[i] == found@[i]@);
        if i < first_found@.len() {
            assert(start[i] == first_found@[i]@);
        } else {
            assert(end[i - start.len()] == second_found@[i - first_found@.len()]@);
        }
    }
}

/// With a decoder that answers a record as `meaning` says, records are decoded exactly
/// if every one of them can be, and then to one card for each, in their order; otherwise
/// the outcome is that they could not be read.
pub proof fn law_records_are_decoded_in_order<T, E, F: Fn(&str) -> Result<T, E>>(
    lines: &Vec<String>,
    decode: F,
    meaning: spec_fn(Seq<char>) -> Result<T, E>,
    outcome: ScryfallResult<Vec<T>>,
)
    requires
        forall|line: &str, answer: Result<T, E>| #[trigger]
            call_ensures(decode, (line,), answer) ==> answer == meaning(line@),
        call_ensures(decode_records::<T, E, F>, (lines, decode), outcome),
    ensures
        outcome is Ok <==> (forall|i: int|
            0 <= i < lines@.len() ==> meaning((#[trigger] lines@[i])@) is Ok),
        outcome matches Ok(cards) ==> {
            &&& cards@.len() == lines@.len()
            &&& forall|i: int|
                0 <= i < lines@.len() ==> meaning((#[trigger] lines@[i])@) == Result::<T, E>::Ok(
                    cards@[i],
                )
        },
        outcome matches Err(error) ==> error == ScryfallError::ParseError,
{
    let all = contents(lines@);
    law_decoding_takes_all_or_nothing(decode, meaning, all, outcome);
    assert(all.len() == lines@.len());
    assert forall|i: int| 0 <= i < lines@.len() implies all[i] == (#[trigger] lines@[i])@ by {}
    if forall|i: int| 0 <= i < lines@.len() ==> meaning((#[trigger] lines@[i])@) is Ok {
        assert forall|i: int| 0 <= i < all.len() implies meaning(#[trigger] all[i]) is Ok by {
            assert(meaning(lines@[i]@) is Ok);
        }
    }
    if outcome is Ok {
        assert forall|i: int| 0 <= i < lines@.len() implies meaning((#[trigger] lines@[i])@)
            == Result::<T, E>::Ok(outcome->Ok_0@[i]) by {
            assert(meaning(all[i]) == Result::<T, E>::Ok(outcome->Ok_0@[i]));
        }
    }
}

/// A bulk download is read by decompressing it, splitting its text into records and
/// decoding these: it gives what the three give one after the other.
pub proof fn law_download_is_read_record_by_record<T, E, F: Fn(&str) -> Result<T, E>>(
    bytes: &[u8],
    decode: F,
    meaning: spec_fn(Seq<char>) -> Result<T, E>,
    outcome: ScryfallResult<Vec<T>>,
    text: ScryfallResult<String>,
    whole: &str,
    lines: Vec<String>,
    decoded: ScryfallResult<Vec<T>>,
)
    requires
        forall|line: &str, answer: Result<T, E>| #[trigger]
            call_ensures(decode, (line,), answer) ==> answer == meaning(line@),
        call_ensures(parse_bulk_cards::<T, E, F>, (bytes, decode), outcome),
        call_ensures(decompress, (bytes,), text),
        text matches Ok(text) ==> text@ == whole@,
        call_ensures(records, (whole,), lines),
        call_ensures(decode_records::<T, E, F>, (&lines, decode), decoded),
    ensures
        text is Err ==> outcome == ScryfallResult::<Vec<T>>::Err(ScryfallError::ParseError),
        text is Ok ==> {
            &&& outcome is Ok <==> decoded is Ok
            &&& outcome matches Ok(cards) ==> cards@ == decoded->Ok_0@
            &&& outcome matches Err(error) ==> error == ScryfallError::ParseError
        },
{
    if text is Ok {
        let all = contents(lines@);
        law_decoding_takes_all_or_nothing(decode, meaning, all, outcome);
        law_decoding_takes_all_or_nothing(decode, meaning, all, decoded);
        if outcome is Ok && decoded is Ok {
            let cards = outcome->Ok_0@;
            assert forall|i: int| 0 <= i < cards.len() implies cards[i] == decoded->Ok_0@[i] by {
                assert(meaning(all[i]) == Result::<T, E>::Ok(cards[i]));
            }
            assert(cards =~= decoded->Ok_0@);
        }
    }
}

/// A download is decompressed to the same text whenever it is, and there is a reason for
/// a failure exactly where there is one. Every failure reads as one of contents that
/// could not be read.
pub proof fn law_decompression_is_repeatable(
    bytes: &[u8],
    once: ScryfallResult<String>,
    again: ScryfallResult<String>,
    why: Option<std::io::Error>,
)
    requires
        call_ensures(decompress, (bytes,), once),
        call_ensures(decompress, (bytes,), again),
        call_ensures(decompression_failure, (bytes,), why),
    ensures
        once is Ok <==> again is Ok,
        once is Ok ==> once->Ok_0@ == again->Ok_0@,
        once is Err <==> why is Some,
        once matches Err(error) ==> error == ScryfallError::ParseError,
        once is Ok <==> gunzipped_text(bytes@) is Some,
        once is Ok ==> gunzipped_text(bytes@) == Some(once->Ok_0@),
{
}

} // verus!
