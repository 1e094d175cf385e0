//! Text as sequences of characters: comparing, searching, splitting into
//! lines and writing numbers.

use vstd::prelude::*;

verus! {

/// `String::push`: the character is appended to the text, which is otherwise
/// left as it was.
pub assume_specification[ String::push ](text: &mut String, c: char)
    ensures
        final(text)@ == old(text)@.push(c),
;

/// The characters of a text, in order.
pub fn to_chars(text: &str) -> (chars: Vec<char>)
    ensures
        chars@ == text@,
{
    let mut chars: Vec<char> = Vec::new();
    for c in it: text.chars()
        invariant
            it.seq() == text@,
            chars@ == it.seq().take(it.index()),
    {
        chars.push(c);
    }
    chars
}

/// The text that consists of the given characters.
pub fn from_chars(chars: &Vec<char>) -> (text: String)
    ensures
        text@ == chars@,
{
    let mut text = String::new();
    for i in 0..chars.len()
        invariant
            text@ == chars@.take(i as int),
    {
        text.push(chars[i]);
    }
    text
}

/// Whether two texts hold the same characters.
pub fn same_text(a: &str, b: &str) -> (same: bool)
    ensures
        same == (a@ == b@),
{
    a.to_owned() == b.to_owned()
}

/// Whether the characters of `part` stand in `whole` from position `start` on.
fn stands_at(whole: &Vec<char>, part: &Vec<char>, start: usize) -> (yes: bool)
    requires
        start + part@.len() <= whole@.len(),
    ensures
        yes == (whole@.subrange(start as int, start + part@.len()) == part@),
{
    let total: usize = whole.len();
    let ghost window = whole@.subrange(start as int, start + part@.len());
    for i in 0..part.len()
        invariant
            start + part@.len() <= whole@.len() == total,
            window == whole@.subrange(start as int, start + part@.len()),
            forall|j: int| 0 <= j < i ==> window[j] == part@[j],
    {
        if part[i] != whole[start + i] {
            assert(window[i as int] != part@[i as int]);
            return false;
        }
        assert(window[i as int] == part@[i as int]);
    }
    assert(window =~= part@);
    true
}

/// Whether `text` begins with `prefix`.
pub fn starts_with(text: &str, prefix: &str) -> (yes: bool)
    ensures
        yes == prefix@.is_prefix_of(text@),
{
    let whole = to_chars(text);
    let part = to_chars(prefix);
    part.len() <= whole.len() && stands_at(&whole, &part, 0)
}

/// Whether `text` ends with `suffix`.
pub fn ends_with(text: &str, suffix: &str) -> (yes: bool)
    ensures
        yes == suffix@.is_suffix_of(text@),
{
    let whole = to_chars(text);
    let part = to_chars(suffix);
    part.len() <= whole.len() && stands_at(&whole, &part, whole.len() - part.len())
}

/// A line without the carriage return that may stand before its line feed.
pub open spec fn without_return(line: Seq<char>) -> Seq<char> {
    if line.len() > 0 && line.last() == '\r' {
        line.drop_last()
    } else {
        line
    }
}

/// The position of the first line feed of a text, or its length where it has none.
pub open spec fn line_end(text: Seq<char>) -> int
    decreases text.len(),
{
    if text.len() == 0 || text[0] == '\n' {
        0
    } else {
        1 + line_end(text.drop_first())
    }
}

/// The lines of a text. Each ends at a line feed, which is not part of it, nor
/// is a carriage return right before it. The last line need not be ended; what
/// follows the last line feed is a line only if there is something.
pub open spec fn lines(text: Seq<char>) -> Seq<Seq<char>>
    decreases text.len(),
{
    let end = line_end(text);
    if text.len() == 0 {
        Seq::empty()
    } else if 0 <= end < text.len() {
        seq![without_return(text.take(end))] + lines(text.skip(end + 1))
    } else {
        seq![text]
    }
}

/// A text whose first line feed stands behind `line` starts with that line.
proof fn lemma_line_end(line: Seq<char>, rest: Seq<char>)
    requires
        !line.contains('\n'),
    ensures
        line_end(line + rest) == line.len() + line_end(rest),
    decreases line.len(),
{
    if line.len() == 0 {
        assert(line + rest =~= rest);
    } else {
        assert((line + rest)[0] == line[0]);
        assert(line.contains(line[0]));
        assert forall|c: char| line.drop_first().contains(c) implies line.contains(c) by {
            let i = choose|i: int| 0 <= i < line.drop_first().len() && line.drop_first()[i] == c;
            assert(line[i + 1] == c);
        }
        assert((line + rest).drop_first() =~= line.drop_first() + rest);
        lemma_line_end(line.drop_first(), rest);
    }
}

/// An ended line is the first line of its text, and the others follow.
pub proof fn lemma_lines_ended(line: Seq<char>, rest: Seq<char>)
    requires
        !line.contains('\n'),
    ensures
        lines(line + seq!['\n'] + rest) == seq![without_return(line)] + lines(rest),
{
    let tail = seq!['\n'] + rest;
    let text = line + seq!['\n'] + rest;
    assert(text =~= line + tail);
    assert(tail[0] == '\n');
    lemma_line_end(line, tail);
    assert(text.take(line.len() as int) =~= line);
    assert(text.skip((line.len() + 1) as int) =~= rest);
}

/// A text without a line feed is one line, unless it is empty.
pub proof fn lemma_lines_open(line: Seq<char>)
    requires
        !line.contains('\n'),
    ensures
        lines(line) == (if line.len() == 0 { Seq::<Seq<char>>::empty() } else { seq![line] }),
{
    lemma_line_end(line, Seq::empty());
    assert(line + Seq::<char>::empty() =~= line);
}

/// The character of a decimal digit.
pub open spec fn digit(value: nat) -> char {
    (48 + value) as u8 as char
}

/// The decimal digits of a number, without leading zeros.
pub open spec fn digits(number: nat) -> Seq<char>
    decreases number,
{
    if number < 10 {
        seq![digit(number)]
    } else {
        digits(number / 10).push(digit(number % 10))
    }
}

/// Digits brought to at least `width` characters by zeros before them.
pub open spec fn zero_filled(digits: Seq<char>, width: nat) -> Seq<char> {
    if digits.len() < width {
        Seq::new((width - digits.len()) as nat, |i: int| '0') + digits
    } else {
        digits
    }
}

/// A number in decimal with at least `width` characters: a sign where it is
/// negative, then zeros as needed, then its digits.
pub open spec fn zero_padded(number: int, width: nat) -> Seq<char>
    recommends
        width > 0,
{
    if number < 0 {
        seq!['-'] + zero_filled(digits((-number) as nat), (width - 1) as nat)
    } else {
        zero_filled(digits(number as nat), width)
    }
}

/// Writes the decimal digits of a number.
fn write_digits(number: u32) -> (written: Vec<char>)
    ensures
        written@ == digits(number as nat),
    decreases number,
{
    let last: char = (48u8 + (number % 10) as u8) as char;
    if number < 10 {
        vec![last]
    } else {
        let mut written = write_digits(number / 10);
        written.push(last);
        written
    }
}

/// Appends a number in decimal with at least `width` characters.
pub fn push_padded(text: &mut String, number: i32, width: usize)
    requires
        width > 0,
    ensures
        final(text)@ == old(text)@ + zero_padded(number as int, width as nat),
{
    let ghost start = text@;
    let magnitude: u32 = if number < 0 {
        (-(number as i64)) as u32
    } else {
        number as u32
    };
    let written = write_digits(magnitude);
    let mut room: usize = width;
    if number < 0 {
        text.push('-');
        room = room - 1;
    }
    let ghost signed = text@;
    let zeros: usize = if written.len() < room { room - written.len() } else { 0 };
    for i in 0..zeros
        invariant
            text@ == signed + Seq::new(i as nat, |i: int| '0'),
    {
        text.push('0');
        assert(text@ =~= signed + Seq::new((i + 1) as nat, |i: int| '0'));
    }
    let ghost filled = text@;
    for i in 0..written.len()
        invariant
            text@ == filled + written@.take(i as int),
    {
        text.push(written[i]);
        assert(text@ =~= filled + written@.take(i + 1));
    }
    assert(written@.take(written@.len() as int) =~= written@);
    assert(text@ =~= start + zero_padded(number as int, width as nat));
}

/// The number that decimal digits stand for.
spec fn value_of(digits: Seq<char>) -> int
    decreases digits.len(),
{
    if digits.len() == 0 {
        0
    } else {
        10 * value_of(digits.drop_last()) + (digits.last() as int - 48)
    }
}

/// Digits are digits, and stand for the number that they were written for.
proof fn lemma_digits(number: nat)
    ensures
        value_of(digits(number)) == number,
        digits(number).len() > 0,
        forall|i: int|
            0 <= i < digits(number).len() ==> '0' <= #[trigger] digits(number)[i] <= '9',
    decreases number,
{
    if number < 10 {
        assert(digits(number).drop_last() =~= Seq::<char>::empty());
        assert(value_of(Seq::<char>::empty()) == 0);
    } else {
        lemma_digits(number / 10);
        assert(digits(number).drop_last() =~= digits(number / 10));
    }
}

/// Zeros before digits do not change the number.
proof fn lemma_zeros_before(zeros: nat, digits: Seq<char>)
    ensures
        value_of(Seq::new(zeros, |i: int| '0') + digits) == value_of(digits),
    decreases zeros + digits.len(),
{
    let all = Seq::new(zeros, |i: int| '0') + digits;
    if digits.len() > 0 {
        lemma_zeros_before(zeros, digits.drop_last());
        assert(all.drop_last() =~= Seq::new(zeros, |i: int| '0') + digits.drop_last());
    } else if zeros > 0 {
        lemma_zeros_before((zeros - 1) as nat, digits);
        assert(all.drop_last() =~= Seq::new((zeros - 1) as nat, |i: int| '0') + digits);
    }
}

/// Digits filled up with zeros are digits, and stand for the same number.
proof fn lemma_zero_filled(number: nat, width: nat)
    ensures
        value_of(zero_filled(digits(number), width)) == number,
        zero_filled(digits(number), width).len() > 0,
        '0' <= zero_filled(digits(number), width)[0] <= '9',
{
    lemma_digits(number);
    if digits(number).len() < width {
        lemma_zeros_before((width - digits(number).len()) as nat, digits(number));
    }
}

/// What a number is written as tells it from every other number.
pub proof fn lemma_zero_padded_injective(a: int, b: int, width: nat)
    requires
        width > 0,
        zero_padded(a, width) == zero_padded(b, width),
    ensures
        a == b,
{
    let written = zero_padded(a, width);
    let narrow = (width - 1) as nat;
    if a < 0 {
        lemma_zero_filled((-a) as nat, narrow);
        assert(written.drop_first() =~= zero_filled(digits((-a) as nat), narrow));
    } else {
        lemma_zero_filled(a as nat, width);
    }
    if b < 0 {
        lemma_zero_filled((-b) as nat, narrow);
        assert(written.drop_first() =~= zero_filled(digits((-b) as nat), narrow));
    } else {
        lemma_zero_filled(b as nat, width);
    }
}

/// A number below one hundred takes two characters.
pub proof fn lemma_two_digits(number: nat)
    requires
        number < 100,
    ensures
        zero_padded(number as int, 2).len() == 2,
{
    reveal_with_fuel(digits, 3);
}

/// A number is written in at least so many characters: nothing but its decimal digits,
/// most significant first, with zeros before them as needed.
pub proof fn law_numbers_are_written_in_decimal(number: int)
    ensures
        0 <= number < 100 ==> zero_padded(number, 2).map_values(|c: char| c as int) == seq![
            48 + number / 10,
            48 + number % 10,
        ],
        0 <= number < 10_000 ==> zero_padded(number, 4).map_values(|c: char| c as int) == seq![
            48 + number / 1000,
            48 + number / 100 % 10,
            48 + number / 10 % 10,
            48 + number % 10,
        ],
        -1000 < number < 0 ==> zero_padded(number, 4).map_values(|c: char| c as int) == seq![
            45,
            48 + -number / 100,
            48 + -number / 10 % 10,
            48 + -number % 10,
        ],
        -10_000 < number <= -1000 ==> zero_padded(number, 4).map_values(|c: char| c as int)
            == seq![
            45,
            48 + -number / 1000,
            48 + -number / 100 % 10,
            48 + -number / 10 % 10,
            48 + -number % 10,
        ],
{
    reveal_with_fuel(digits, 5);
    let as_int = |c: char| c as int;
    if 0 <= number < 100 {
        assert(zero_padded(number, 2).map_values(as_int) =~= seq![48 + number / 10, 48 + number % 10]);
    }
    if 0 <= number < 10_000 {
        assert(zero_padded(number, 4).map_values(as_int) =~= seq![
            48 + number / 1000,
            48 + number / 100 % 10,
            48 + number / 10 % 10,
            48 + number % 10,
        ]);
    }
    if -1000 < number < 0 {
        assert(zero_padded(number, 4).map_values(as_int) =~= seq![
            45,
            48 + -number / 100,
            48 + -number / 10 % 10,
            48 + -number % 10,
        ]);
    }
    if -10_000 < number <= -1000 {
        assert(zero_padded(number, 4).map_values(as_int) =~= seq![
            45,
            48 + -number / 1000,
            48 + -number / 100 % 10,
            48 + -number / 10 % 10,
            48 + -number % 10,
        ]);
    }
}

/// A text taken apart into its characters and put together again is the same text, and
/// has as many characters as it has.
pub proof fn law_text_is_its_characters(text: &str, chars: Vec<char>, again: String)
    requires
        call_ensures(to_chars, (text,), chars),
        call_ensures(from_chars, (&chars,), again),
    ensures
        chars@.len() == text@.len(),
        forall|i: int| 0 <= i < text@.len() ==> chars@[i] == text@[i],
        again@ == text@,
{
}

/// A text begins with another exactly if it is that one and something behind it.
pub proof fn law_prefix_and_rest_make_the_text(text: &str, prefix: &str, yes: bool)
    requires
        call_ensures(starts_with, (text, prefix), yes),
    ensures
        yes <==> exists|rest: Seq<char>| text@ == #[trigger] (prefix@ + rest),
{
    if yes {
        let rest = text@.skip(prefix@.len() as int);
        assert(text@.subrange(0, prefix@.len() as int) == prefix@);
        assert(text@ =~= prefix@ + rest);
    }
    if exists|rest: Seq<char>| text@ == #[trigger] (prefix@ + rest) {
        let rest = choose|rest: Seq<char>| text@ == #[trigger] (prefix@ + rest);
        assert(text@.subrange(0, prefix@.len() as int) =~= prefix@);
    }
}

/// A text ends with another exactly if it is something and that one behind it.
pub proof fn law_front_and_suffix_make_the_text(text: &str, suffix: &str, yes: bool)
    requires
        call_ensures(ends_with, (text, suffix), yes),
    ensures
        yes <==> exists|front: Seq<char>| text@ == #[trigger] (front + suffix@),
{
    let start = text@.len() - suffix@.len();
    if yes {
        let front = text@.take(start);
        assert(text@.subrange(start, text@.len() as int) == suffix@);
        assert(text@ =~= front + suffix@);
    }
    if exists|front: Seq<char>| text@ == #[trigger] (front + suffix@) {
        let front = choose|front: Seq<char>| text@ == #[trigger] (front + suffix@);
        assert(text@.subrange(start, text@.len() as int) =~= suffix@);
    }
}

/// Texts are the same exactly if they are as long and have the same character at every
/// place.
pub proof fn law_same_texts_agree_everywhere(a: &str, b: &str, same: bool)
    requires
        call_ensures(same_text, (a, b), same),
    ensures
        same <==> a@.len() == b@.len() && forall|i: int|
            0 <= i < a@.len() ==> #[trigger] a@[i] == b@[i],
{
    if a@.len() == b@.len() && forall|i: int| 0 <= i < a@.len() ==> #[trigger] a@[i] == b@[i] {
        assert(a@ =~= b@);
    }
}

/// A number that is written behind a text leaves the text as it was, and takes at least
/// so many characters. What is written is a sign where the number is negative, then
/// zeros, then digits; a further digit in the number is a further digit written.
pub proof fn law_number_is_written_behind(text: &mut String, number: i32, width: usize)
    requires
        call_ensures(push_padded, (text, number, width), ()),
        width > 0,
    ensures
        ({
            let size: int = if number < 0 {
                -number
            } else {
                number as int
            };
            let sign: Seq<char> = if number < 0 {
                seq!['-']
            } else {
                Seq::empty()
            };
            let shown = digits(size as nat);
            let zeros = final(text)@.len() - old(text)@.len() - sign.len() - shown.len();
            &&& (old(text)@ + sign).is_prefix_of(final(text)@)
            &&& shown.is_suffix_of(final(text)@)
            &&& sign.len() + zeros + shown.len() >= width
            &&& zeros >= 0
            &&& zeros > 0 ==> sign.len() + zeros + shown.len() == width
            &&& forall|i: int|
                old(text)@.len() + sign.len() <= i < old(text)@.len() + sign.len() + zeros
                    ==> #[trigger] final(text)@[i] == '0'
            &&& shown.len() > 0
            &&& shown.last() as int == 48 + size % 10
            &&& shown.drop_last() == (if size < 10 {
                Seq::empty()
            } else {
                digits((size / 10) as nat)
            })
        }),
{
    let size: int = if number < 0 {
        -number
    } else {
        number as int
    };
    let sign: Seq<char> = if number < 0 {
        seq!['-']
    } else {
        Seq::empty()
    };
    let shown = digits(size as nat);
    let all = final(text)@;
    let start = old(text)@ + sign;
    let room = width - sign.len();
    let filled = zero_filled(shown, room as nat);
    assert(all =~= start + filled);
    assert(all.subrange(0, start.len() as int) =~= start);
    assert(all.subrange(all.len() - shown.len(), all.len() as int) =~= shown);
    assert(shown.drop_last() =~= (if size < 10 {
        Seq::empty()
    } else {
        digits((size / 10) as nat)
    }));
}

} // verus!
