//! Verified operations on text: trimming, splitting, joining and the reading
//! of unsigned decimal numbers.

use vstd::prelude::*;
use vstd::utf8::{decode_utf8, valid_utf8};

verus! {

/// `str`'s equality holds exactly between texts with the same characters.
pub assume_specification[ <str as PartialEq<str>>::eq ](a: &str, b: &str) -> (r: bool)
    ensures
        r == (a@ == b@),
;

/// Whether two texts have the same characters.
pub fn same_text(a: &str, b: &str) -> (r: bool)
    ensures
        r == (a@ == b@),
{
    *a == *b
}

/// What the error of `String::from_utf8` says of bytes that are not valid UTF-8.
pub uninterp spec fn utf8_error_text(bytes: Seq<u8>) -> Seq<char>;

/// Calls `String::from_utf8`: it succeeds exactly on valid UTF-8 and then
/// gives the encoded text. Otherwise the message of its error, which depends
/// on the bytes alone, is returned.
#[verifier::external_body]
pub(crate) fn text_from_utf8(bytes: Vec<u8>) -> (r: Result<String, String>)
    ensures
        r is Ok <==> valid_utf8(bytes@),
        r matches Ok(text) ==> text@ == decode_utf8(bytes@),
        r matches Err(message) ==> message@ == utf8_error_text(bytes@),
{
    String::from_utf8(bytes).map_err(|error| error.to_string())
}

/// `text` without one line break at its end, be it `\n` or `\r\n`.
pub open spec fn trimmed(text: Seq<char>) -> Seq<char> {
    if text.len() > 0 && text.last() == '\n' {
        let line = text.drop_last();
        if line.len() > 0 && line.last() == '\r' {
            line.drop_last()
        } else {
            line
        }
    } else {
        text
    }
}

/// Removes one line break (`\n` or `\r\n`) from the end of `s`, if it has one.
pub fn trim_newline(s: &mut String)
    ensures
        final(s)@ == trimmed(old(s)@),
{
    let n: usize = s.as_str().unicode_len();
    if n > 0 && s.as_str().get_char(n - 1) == '\n' {
        if n > 1 && s.as_str().get_char(n - 2) == '\r' {
            *s = s.as_str().substring_char(0, n - 2).to_owned();
        } else {
            *s = s.as_str().substring_char(0, n - 1).to_owned();
        }
    }
}

/// Trimming removes at most two characters, all of them at the end, and
/// nothing at all unless the text ends in a line feed.
pub proof fn law_trimmed_keeps_the_line(text: Seq<char>)
    ensures
        trimmed(text).is_prefix_of(text),
        text.len() - 2 <= trimmed(text).len() <= text.len(),
        text.len() == 0 || text.last() != '\n' ==> trimmed(text) == text,
{
}

/// Exactly one line ending is taken away: any text comes back from `\r\n`, one
/// that does not end in `\r` comes back from `\n`, and one that does not end in
/// `\n` stays as it is.
pub proof fn law_trimmed_undoes_line_ending(line: Seq<char>)
    ensures
        line.len() == 0 || line.last() != '\n' ==> trimmed(line) == line,
        line.len() == 0 || line.last() != '\r' ==> trimmed(line.push('\n')) == line,
        trimmed(line.push('\r').push('\n')) == line,
{
    assert(line.push('\n').drop_last() == line);
    assert(line.push('\r').push('\n').drop_last() == line.push('\r'));
    assert(line.push('\r').drop_last() == line);
}

/// The pieces of `text` between the occurrences of `separator`; always at least one.
pub open spec fn segments(text: Seq<char>, separator: char) -> Seq<Seq<char>>
    decreases text.len(),
{
    if text.len() == 0 {
        seq![Seq::empty()]
    } else {
        let earlier = segments(text.drop_last(), separator);
        if text.last() == separator {
            earlier.push(Seq::empty())
        } else {
            earlier.drop_last().push(earlier.last().push(text.last()))
        }
    }
}

pub proof fn lemma_segments_nonempty(text: Seq<char>, separator: char)
    ensures
        segments(text, separator).len() > 0,
    decreases text.len(),
{
    if text.len() > 0 {
        lemma_segments_nonempty(text.drop_last(), separator);
    }
}

/// The characters of each text of a list.
pub open spec fn views(texts: Seq<String>) -> Seq<Seq<char>> {
    texts.map_values(|t: String| t@)
}

/// Splits `text` at every `separator`.
pub fn split_text(text: &str, separator: char) -> (pieces: Vec<String>)
    ensures
        views(pieces@) == segments(text@, separator),
{
    let n: usize = text.unicode_len();
    let mut pieces: Vec<String> = Vec::new();
    let mut start: usize = 0;
    let mut i: usize = 0;
    assert(text@.take(0) == Seq::<char>::empty());
    assert(views(pieces@).push(text@.subrange(0, 0)) == segments(text@.take(0), separator));
    while i < n
        invariant
            n == text@.len(),
            start <= i <= n,
            views(pieces@).push(text@.subrange(start as int, i as int)) == segments(
                text@.take(i as int),
                separator,
            ),
        decreases n - i,
    {
        let ghost before = pieces@;
        let ghost earlier = segments(text@.take(i as int), separator);
        let c: char = text.get_char(i);
        proof {
            assert(text@.take(i + 1).drop_last() == text@.take(i as int));
            assert(earlier.drop_last() == views(before));
            assert(earlier.last() == text@.subrange(start as int, i as int));
        }
        if c == separator {
            let ghost from = start as int;
            pieces.push(text.substring_char(start, i).to_owned());
            start = i + 1;
            proof {
                assert(views(pieces@) == views(before).push(text@.subrange(from, i as int)));
                assert(text@.subrange(start as int, i + 1) == Seq::<char>::empty());
            }
        } else {
            assert(text@.subrange(start as int, i + 1) == text@.subrange(
                start as int,
                i as int,
            ).push(c));
        }
        i = i + 1;
    }
    let ghost before = pieces@;
    pieces.push(text.substring_char(start, n).to_owned());
    proof {
        assert(views(pieces@) == views(before).push(text@.subrange(start as int, n as int)));
        assert(text@.take(n as int) == text@);
    }
    pieces
}

/// A text without the separator is one piece.
pub proof fn lemma_segments_single(text: Seq<char>, separator: char)
    requires
        !text.contains(separator),
    ensures
        segments(text, separator) == seq![text],
    decreases text.len(),
{
    if text.len() > 0 {
        let init = text.drop_last();
        assert(!init.contains(separator)) by {
            if init.contains(separator) {
                let i = init.index_of(separator);
                assert(text[i] == separator);
            }
        }
        lemma_segments_single(init, separator);
        assert(text[text.len() - 1] != separator);
        assert(init.push(text.last()) == text);
        assert(segments(text, separator) =~= seq![text]);
    } else {
        assert(text =~= Seq::empty());
    }
}

/// A separator ends the pieces of what stands before it.
pub proof fn lemma_segments_join(front: Seq<char>, back: Seq<char>, separator: char)
    requires
        !back.contains(separator),
    ensures
        segments(front.push(separator) + back, separator) == segments(front, separator).push(back),
    decreases back.len(),
{
    let whole = front.push(separator) + back;
    if back.len() == 0 {
        assert(whole =~= front.push(separator));
        assert(whole.drop_last() =~= front);
        assert(back =~= Seq::empty());
    } else {
        let init = back.drop_last();
        assert(!init.contains(separator)) by {
            if init.contains(separator) {
                let i = init.index_of(separator);
                assert(back[i] == separator);
            }
        }
        lemma_segments_join(front, init, separator);
        assert(whole.drop_last() =~= front.push(separator) + init);
        assert(back[back.len() - 1] != separator);
        let earlier = segments(front, separator).push(init);
        assert(earlier.drop_last() =~= segments(front, separator));
        assert(init.push(back.last()) =~= back);
    }
}

/// An optional text.
pub open spec fn optional(text: Option<String>) -> Option<Seq<char>> {
    match text {
        Some(text) => Some(text@),
        None => None,
    }
}

/// The texts of a list, one after the other with `separator` in between.
pub open spec fn joined(texts: Seq<Seq<char>>, separator: Seq<char>) -> Seq<char>
    decreases texts.len(),
{
    if texts.len() == 0 {
        Seq::empty()
    } else if texts.len() == 1 {
        texts[0]
    } else {
        joined(texts.drop_last(), separator) + separator + texts.last()
    }
}

/// Joins texts with `separator` in between.
pub fn join_texts(texts: &Vec<String>, separator: &str) -> (r: String)
    ensures
        r@ == joined(views(texts@), separator@),
{
    let mut r: String = String::new();
    let mut i: usize = 0;
    while i < texts.len()
        invariant
            i <= texts@.len(),
            r@ == joined(views(texts@).take(i as int), separator@),
        decreases texts@.len() - i,
    {
        proof {
            assert(views(texts@).take(i + 1).drop_last() =~= views(texts@).take(i as int));
            assert(views(texts@).take(i + 1).last() == texts@[i as int]@);
        }
        if i > 0 {
            r.append(separator);
            r.append(texts[i].as_str());
        } else {
            r.append(texts[i].as_str());
            assert(r@ =~= texts@[0]@);
        }
        i = i + 1;
    }
    assert(views(texts@).take(i as int) =~= views(texts@));
    r
}

/// A decimal digit.
pub open spec fn is_digit(c: char) -> bool {
    '0' <= c <= '9'
}

/// A text of nothing but decimal digits.
pub open spec fn all_digits(text: Seq<char>) -> bool {
    forall|i: int| 0 <= i < text.len() ==> is_digit(#[trigger] text[i])
}

/// The number that a text of decimal digits writes.
pub open spec fn decimal(digits: Seq<char>) -> int
    decreases digits.len(),
{
    if digits.len() == 0 {
        0
    } else {
        10 * decimal(digits.drop_last()) + (digits.last() as int - '0' as int)
    }
}

/// The digits of an unsigned number: the text without a leading `+`.
pub open spec fn unsigned_digits(text: Seq<char>) -> Seq<char> {
    if text.len() > 0 && text[0] == '+' {
        text.skip(1)
    } else {
        text
    }
}

/// The unsigned number that `text` writes, if it writes one up to `limit`:
/// decimal digits, at least one, after an optional `+`.
pub open spec fn unsigned_number(text: Seq<char>, limit: int) -> Option<int> {
    let digits = unsigned_digits(text);
    if digits.len() > 0 && all_digits(digits) && decimal(digits) <= limit {
        Some(decimal(digits))
    } else {
        None
    }
}

/// More digits never make the number smaller.
proof fn lemma_decimal_grows(digits: Seq<char>, i: int)
    requires
        all_digits(digits),
        0 <= i <= digits.len(),
    ensures
        0 <= decimal(digits.take(i)) <= decimal(digits),
    decreases digits.len(),
{
    if digits.len() > 0 {
        let init = digits.drop_last();
        assert forall|k: int| 0 <= k < init.len() implies is_digit(#[trigger] init[k]) by {
            assert(is_digit(digits[k]));
        }
        assert(is_digit(digits[digits.len() - 1]));
        if i < digits.len() {
            lemma_decimal_grows(init, i);
            assert(init.take(i) =~= digits.take(i));
        } else {
            lemma_decimal_grows(init, init.len() as int);
            assert(init.take(init.len() as int) =~= init);
            assert(digits.take(i) =~= digits);
        }
    } else {
        assert(digits.take(i) =~= digits);
    }
}

/// Reads an unsigned decimal number up to `limit`.
pub fn parse_unsigned(text: &str, limit: u64) -> (r: Option<u64>)
    ensures
        r is Some <==> unsigned_number(text@, limit as int) is Some,
        r matches Some(n) ==> unsigned_number(text@, limit as int) == Some(n as int),
{
    let n: usize = text.unicode_len();
    let mut i: usize = 0;
    if n > 0 && text.get_char(0) == '+' {
        i = 1;
    }
    let ghost start = i as int;
    let ghost digits = unsigned_digits(text@);
    if i == n {
        return None;
    }
    let mut value: u64 = 0;
    assert(digits.take(0) =~= Seq::<char>::empty());
    while i < n
        invariant
            n == text@.len(),
            0 <= start <= i <= n,
            start < n,
            digits == text@.skip(start),
            digits == unsigned_digits(text@),
            forall|k: int| 0 <= k < i - start ==> is_digit(#[trigger] digits[k]),
            value == decimal(digits.take(i - start)),
            value <= limit,
        decreases n - i,
    {
        let c: char = text.get_char(i);
        assert(c == digits[i - start]);
        if c < '0' || c > '9' {
            return None;
        }
        let digit: u64 = (c as u32 - '0' as u32) as u64;
        let ghost longer = digits.take(i - start + 1);
        proof {
            assert(longer.drop_last() =~= digits.take(i - start));
            assert(longer.last() == c);
            assert(decimal(longer) == 10 * value + digit);
            if all_digits(digits) {
                lemma_decimal_grows(digits, i - start + 1);
            }
        }
        if value > u64::MAX / 10 || digit > u64::MAX - 10 * value {
            return None;
        }
        value = 10 * value + digit;
        if value > limit {
            return None;
        }
        i = i + 1;
    }
    assert(digits.take(n - start) =~= digits);
    Some(value)
}

/// The pieces before and after a separator are pieces of the whole.
pub proof fn lemma_segments_concat(front: Seq<char>, back: Seq<char>, separator: char)
    ensures
        segments(front.push(separator) + back, separator) == segments(front, separator) + segments(
            back,
            separator,
        ),
    decreases back.len(),
{
    let whole = front.push(separator) + back;
    lemma_segments_nonempty(back, separator);
    if back.len() == 0 {
        assert(whole =~= front.push(separator));
        assert(whole.drop_last() =~= front);
        assert(segments(whole, separator) =~= segments(front, separator) + segments(
            back,
            separator,
        ));
    } else {
        let init = back.drop_last();
        lemma_segments_concat(front, init, separator);
        lemma_segments_nonempty(init, separator);
        assert(whole.drop_last() =~= front.push(separator) + init);
        assert(segments(whole, separator) =~= segments(front, separator) + segments(
            back,
            separator,
        ));
    }
}

/// Texts are joined one after the other, with the separator before each but the first.
pub proof fn law_joined(front: Seq<Seq<char>>, last: Seq<char>, separator: Seq<char>)
    ensures
        joined(Seq::empty(), separator) == Seq::<char>::empty(),
        joined(seq![last], separator) == last,
        front.len() > 0 ==> joined(front.push(last), separator) == joined(front, separator)
            + separator + last,
{
    assert(front.push(last).drop_last() =~= front);
}

/// Splitting cuts a text at every separator and loses nothing: no piece holds
/// the separator, and the pieces joined by it are the text.
pub proof fn law_pieces_make_up_the_text(text: Seq<char>, separator: char)
    ensures
        segments(text, separator).len() > 0,
        forall|i: int|
            0 <= i < segments(text, separator).len() ==> !(#[trigger] segments(
                text,
                separator,
            )[i]).contains(separator),
        joined(segments(text, separator), seq![separator]) == text,
    decreases text.len(),
{
    let pieces = segments(text, separator);
    if text.len() > 0 {
        let init = text.drop_last();
        let c = text.last();
        let earlier = segments(init, separator);
        law_pieces_make_up_the_text(init, separator);
        assert(text =~= init.push(c));
        if c == separator {
            assert(pieces.drop_last() =~= earlier);
            assert(joined(pieces, seq![separator]) =~= init.push(c));
            assert forall|i: int| 0 <= i < pieces.len() implies !(
            #[trigger] pieces[i]).contains(separator) by {
                if i < earlier.len() {
                    assert(!earlier[i].contains(separator));
                }
            }
        } else {
            let front = earlier.drop_last();
            let last = earlier.last();
            assert(pieces.drop_last() =~= front);
            assert(earlier =~= front.push(last));
            if front.len() > 0 {
                assert(joined(pieces, seq![separator]) =~= (joined(front, seq![separator]) + seq![
                    separator,
                ] + last).push(c));
            } else {
                assert(joined(pieces, seq![separator]) == last.push(c));
                assert(last == init);
            }
            assert forall|i: int| 0 <= i < pieces.len() implies !(
            #[trigger] pieces[i]).contains(separator) by {
                if i < front.len() {
                    assert(pieces[i] == earlier[i]);
                    assert(!earlier[i].contains(separator));
                } else {
                    assert(!earlier[earlier.len() - 1].contains(separator));
                    if last.push(c).contains(separator) {
                        let k = last.push(c).index_of(separator);
                        assert(k < last.len());
                        assert(last[k] == separator);
                    }
                }
            }
        }
    } else {
        assert(pieces =~= seq![Seq::<char>::empty()]);
    }
}

/// How unsigned numbers are written: a digit stands for itself, another digit
/// behind a number multiplies it by ten and adds the digit, a plus sign before
/// a number without one changes nothing, and all else is no number. A number
/// beyond the limit is none.
pub proof fn law_unsigned_number(text: Seq<char>, c: char, limit: int)
    requires
        limit >= 9,
    ensures
        unsigned_number(Seq::empty(), limit) is None,
        unsigned_number(seq!['+'], limit) is None,
        '0' <= c <= '9' ==> unsigned_number(seq![c], limit) == Some(c as int - '0' as int),
        !('0' <= c <= '9') ==> unsigned_number(text.push(c), limit) is None,
        unsigned_number(text, limit) matches Some(n) ==> 0 <= n <= limit,
        '0' <= c <= '9' ==> (unsigned_number(text, limit) matches Some(n) ==> unsigned_number(
            text.push(c),
            limit,
        ) == (if 10 * n + (c as int - '0' as int) <= limit {
            Some(10 * n + (c as int - '0' as int))
        } else {
            None
        })),
        text.len() > 0 && text != seq!['+'] && unsigned_number(text, limit) is None
            ==> unsigned_number(text.push(c), limit) is None,
        text.len() > 0 && text[0] != '+' ==> unsigned_number(seq!['+'] + text, limit)
            == unsigned_number(text, limit),
{
    let digits = unsigned_digits(text);
    let longer = unsigned_digits(text.push(c));
    assert(unsigned_digits(Seq::<char>::empty()).len() == 0);
    assert(unsigned_digits(seq!['+']).len() == 0);
    if '0' <= c <= '9' {
        reveal_with_fuel(decimal, 2);
        assert(unsigned_digits(seq![c]) =~= seq![c]);
        assert(seq![c].drop_last() =~= Seq::<char>::empty());
        assert(all_digits(seq![c]));
    }
    if text.len() > 0 {
        assert(longer =~= digits.push(c));
        assert(longer.drop_last() =~= digits);
        assert(longer.last() == c);
        if all_digits(digits) {
            lemma_decimal_grows(digits, 0);
            assert(digits.take(0) =~= Seq::<char>::empty());
        }
        if all_digits(longer) {
            assert forall|k: int| 0 <= k < digits.len() implies is_digit(#[trigger] digits[k]) by {
                assert(is_digit(longer[k]));
            }
            assert(is_digit(longer[longer.len() - 1]));
        }
        if all_digits(digits) && is_digit(c) {
            assert forall|k: int| 0 <= k < longer.len() implies is_digit(#[trigger] longer[k]) by {
                if k < digits.len() {
                    assert(is_digit(digits[k]));
                }
            }
        }
        if text[0] == '+' {
            if digits.len() == 0 {
                assert(text =~= seq!['+']);
            }
        } else {
            let signed = seq!['+'] + text;
            assert(signed.skip(1) =~= text);
        }
    } else {
        assert(text.push(c) =~= seq![c]);
        if !('0' <= c <= '9') {
            if c == '+' {
                assert(longer.len() == 0);
            } else {
                assert(longer =~= seq![c]);
                assert(!is_digit(longer[0]));
            }
        }
    }
}

/// Each text of a list is kept, in its place, and an optional text is what it holds.
pub proof fn law_texts(texts: Seq<String>, text: Option<String>)
    ensures
        views(texts).len() == texts.len(),
        forall|i: int| 0 <= i < texts.len() ==> #[trigger] views(texts)[i] == texts[i]@,
        text is None <==> optional(text) is None,
        text matches Some(t) ==> optional(text) == Some(t@),
{
}

} // verus!
