//! What texts are built of, and what they are taken apart into.
use crate::text;
use vstd::prelude::*;

verus! {

/// A number below ten is written as the one character that comes that many places
/// after `0`; any other as its tenth part, rounded down, and then its last digit.
pub proof fn law_decimals_are_written_digit_by_digit(tens: nat, ones: nat)
    requires
        ones < 10,
    ensures
        text::decimal(ones).len() == 1,
        text::decimal(ones)[0] as int == 48 + ones,
        tens > 0 ==> text::decimal(10 * tens + ones) == text::decimal(tens) + text::decimal(ones),
{
    assert('0' as int == 48);
    if tens > 0 {
        let n = 10 * tens + ones;
        assert(n / 10 == tens && n % 10 == ones);
        assert(text::digits(n, 10) =~= text::digits(tens, 10) + text::digits(ones, 10));
    }
}

/// A number below sixteen is written in hexadecimal as one character, `0` to `9` and
/// then `a` to `f`; any other as its sixteenth part, rounded down, and then its last
/// digit.
pub proof fn law_hexadecimals_are_written_digit_by_digit(sixteens: nat, ones: nat)
    requires
        ones < 16,
    ensures
        text::hexadecimal(ones).len() == 1,
        ones < 10 ==> text::hexadecimal(ones)[0] as int == 48 + ones,
        ones >= 10 ==> text::hexadecimal(ones)[0] as int == 97 + (ones - 10),
        sixteens > 0 ==> text::hexadecimal(16 * sixteens + ones) == text::hexadecimal(sixteens) + text::hexadecimal(
            ones,
        ),
{
    assert('0' as int == 48 && 'a' as int == 97);
    if sixteens > 0 {
        let n = 16 * sixteens + ones;
        assert(n / 16 == sixteens && n % 16 == ones);
        assert(text::digits(n, 16) =~= text::digits(sixteens, 16) + text::digits(ones, 16));
    }
}

/// A number of 64 bits that was written in decimal reads back as that number, with or
/// without a plus sign and zeros in front of it.
pub proof fn law_written_numbers_read_back(n: u64)
    ensures
        text::unsigned_value(text::decimal(n as nat)) == Some(n),
        text::unsigned_value(seq!['+'] + text::decimal(n as nat)) == Some(n),
        text::unsigned_value(seq!['0'] + text::decimal(n as nat)) == Some(n),
{
    let s = text::decimal(n as nat);
    lemma_decimal_value(n as nat);
    assert(s[0] != '+');
    assert((seq!['+'] + s).skip(1) =~= s);
    let padded = seq!['0'] + s;
    assert(padded[0] == '0');
    lemma_leading_zero(s);
    assert forall|i: int| 0 <= i < padded.len() implies text::is_digit(#[trigger] padded[i]) by {
        if i > 0 {
            assert(padded[i] == s[i - 1]);
        }
    }
}

/// A decimal text has digits alone, at least one, and stands for its number.
proof fn lemma_decimal_value(n: nat)
    ensures
        text::decimal(n).len() > 0,
        text::all_digits(text::decimal(n)),
        text::digits_value(text::decimal(n)) == n,
    decreases n,
{
    let s = text::decimal(n);
    assert('0' as int == 48 && '9' as int == 57);
    reveal_with_fuel(text::digits_value, 2);
    if n < 10 {
        assert(s.drop_last() =~= Seq::empty());
        assert(s.last() as int == 48 + n);
    } else {
        lemma_decimal_value(n / 10);
        assert(s.drop_last() =~= text::decimal(n / 10));
        assert(s.last() as int == 48 + n % 10);
        assert forall|i: int| 0 <= i < s.len() implies text::is_digit(#[trigger] s[i]) by {
            if i < s.len() - 1 {
                assert(s[i] == text::decimal(n / 10)[i]);
            }
        }
    }
}

proof fn lemma_leading_zero(s: Seq<char>)
    ensures
        text::digits_value(seq!['0'] + s) == text::digits_value(s),
    decreases s.len(),
{
    let padded = seq!['0'] + s;
    assert('0' as int == 48);
    if s.len() == 0 {
        reveal_with_fuel(text::digits_value, 2);
        assert(padded.drop_last() =~= Seq::empty());
        assert(padded.last() == '0');
    } else {
        lemma_leading_zero(s.drop_last());
        assert(padded.drop_last() =~= seq!['0'] + s.drop_last());
        assert(padded.last() == s.last());
    }
}

/// A text stands for a number exactly if it is made of the characters `0` to `9`, at
/// least one, perhaps after one plus sign, and the number is one of 64 bits.
pub proof fn law_what_stands_for_a_number(s: Seq<char>, body: Seq<char>)
    requires
        s.len() > 0 && s[0] == '+' ==> body == s.skip(1),
        s.len() == 0 || s[0] != '+' ==> body == s,
    ensures
        text::unsigned_value(s) is Some <==> body.len() > 0 && text::digits_value(body) <= u64::MAX && forall|i: int|
            0 <= i < body.len() ==> 48 <= (#[trigger] body[i]) as int <= 57,
        text::unsigned_value(s) matches Some(n) ==> n == text::digits_value(body),
{
    assert('0' as int == 48 && '9' as int == 57);
    if text::all_digits(body) {
        assert forall|i: int| 0 <= i < body.len() implies 48 <= (#[trigger] body[i]) as int <= 57 by {
            assert(text::is_digit(body[i]));
        }
    } else {
        let i = choose|i: int| 0 <= i < body.len() && !text::is_digit(#[trigger] body[i]);
        assert(!(48 <= body[i] as int <= 57));
    }
}

/// The characters that separate words: tab, line feed, vertical tab, form feed,
/// carriage return, space, next line, and the spaces and separators of other scripts.
pub proof fn law_what_separates_words(c: char)
    ensures
        text::white_space(c) <==> set![
            0x09int,
            0x0a,
            0x0b,
            0x0c,
            0x0d,
            0x20,
            0x85,
            0xa0,
            0x1680,
            0x2000,
            0x2001,
            0x2002,
            0x2003,
            0x2004,
            0x2005,
            0x2006,
            0x2007,
            0x2008,
            0x2009,
            0x200a,
            0x2028,
            0x2029,
            0x202f,
            0x205f,
            0x3000,
        ].contains(c as int),
{
}

/// The words of a text, read from a place on: what separates them is skipped, and a
/// word goes on until it is separated from what follows or the text ends; then come
/// the words from there on.
pub proof fn law_the_next_word(s: Seq<char>, from: nat, start: int, end: int)
    requires
        from <= start < end <= s.len(),
        forall|i: int| from <= i < start ==> text::white_space(#[trigger] s[i]),
        forall|i: int| start <= i < end ==> !text::white_space(#[trigger] s[i]),
        end < s.len() ==> text::white_space(s[end]),
    ensures
        text::words(s, from) == seq![s.subrange(start, end)] + text::words(s, end as nat),
{
    lemma_word_start(s, from, start);
    lemma_word_end(s, start as nat, end);
}

/// Where nothing but separators is left there is no further word.
pub proof fn law_no_further_word(s: Seq<char>, from: nat)
    requires
        from <= s.len(),
        forall|i: int| from <= i < s.len() ==> text::white_space(#[trigger] s[i]),
    ensures
        text::words(s, from).len() == 0,
{
    lemma_word_start(s, from, s.len() as int);
}

proof fn lemma_word_start(s: Seq<char>, from: nat, start: int)
    requires
        from <= start <= s.len(),
        forall|i: int| from <= i < start ==> text::white_space(#[trigger] s[i]),
        start < s.len() ==> !text::white_space(s[start]),
    ensures
        text::word_start(s, from) == start,
    decreases start - from,
{
    if from < start {
        assert(text::white_space(s[from as int]));
        lemma_word_start(s, from + 1, start);
    }
}

proof fn lemma_word_end(s: Seq<char>, from: nat, end: int)
    requires
        from <= end <= s.len(),
        forall|i: int| from <= i < end ==> !text::white_space(#[trigger] s[i]),
        end < s.len() ==> text::white_space(s[end]),
    ensures
        text::word_end(s, from) == end,
    decreases end - from,
{
    if from < end {
        assert(!text::white_space(s[from as int]));
        lemma_word_end(s, from + 1, end);
    }
}

/// Trimming takes off all of the characters at the end that are the given one, and
/// nothing more.
pub proof fn law_trimming_takes_one_character_off_the_end(s: Seq<char>, c: char, kept: int)
    requires
        0 <= kept <= s.len(),
        forall|i: int| kept <= i < s.len() ==> #[trigger] s[i] == c,
        kept > 0 ==> s[kept - 1] != c,
    ensures
        text::trimmed_end(s, c) == s.take(kept),
    decreases s.len(),
{
    if kept < s.len() {
        let init = s.drop_last();
        assert(s[s.len() - 1] == c);
        assert forall|i: int| kept <= i < init.len() implies #[trigger] init[i] == c by {
            assert(init[i] == s[i]);
        }
        law_trimming_takes_one_character_off_the_end(init, c, kept);
        assert(init.take(kept) =~= s.take(kept));
    } else {
        assert(s.take(kept) =~= s);
    }
}

/// The lines of a text, read from a place on: a line goes on to the next line feed, and
/// the lines after that follow. A carriage return right before the line feed belongs
/// to the end of the line.
pub proof fn law_the_next_line(s: Seq<char>, from: nat, end: int)
    requires
        from <= end < s.len(),
        s[end] == '\n',
        forall|i: int| from <= i < end ==> #[trigger] s[i] != '\n',
    ensures
        text::lines_of(s, from) == seq![
            if from < end && s[end - 1] == '\r' {
                s.subrange(from as int, end - 1)
            } else {
                s.subrange(from as int, end)
            },
        ] + text::lines_of(s, (end + 1) as nat),
{
    lemma_line_end(s, from, end);
    let line = s.subrange(from as int, end);
    if from < end {
        assert(line.last() == s[end - 1]);
        assert(line.drop_last() =~= s.subrange(from as int, end - 1));
    }
}

/// What comes after the last line feed is a line, as it stands, if it is anything.
pub proof fn law_the_last_line(s: Seq<char>, from: nat)
    requires
        from <= s.len(),
        forall|i: int| from <= i < s.len() ==> #[trigger] s[i] != '\n',
    ensures
        from < s.len() ==> text::lines_of(s, from) == seq![s.subrange(from as int, s.len() as int)],
        from == s.len() ==> text::lines_of(s, from).len() == 0,
{
    lemma_line_end(s, from, s.len() as int);
    if from < s.len() {
        assert(text::lines_of(s, s.len() + 1) == Seq::<Seq<char>>::empty());
        assert(text::lines_of(s, from) =~= seq![s.subrange(from as int, s.len() as int)]);
    }
}

proof fn lemma_line_end(s: Seq<char>, from: nat, end: int)
    requires
        from <= end <= s.len(),
        forall|i: int| from <= i < end ==> #[trigger] s[i] != '\n',
        end < s.len() ==> s[end] == '\n',
    ensures
        text::line_end(s, from) == end,
    decreases end - from,
{
    if from < end {
        assert(s[from as int] != '\n');
        lemma_line_end(s, from + 1, end);
    }
}

/// What a list of texts says, one by one.
pub proof fn law_texts_are_told_one_by_one(list: Seq<String>, i: int)
    requires
        0 <= i < list.len(),
    ensures
        text::texts(list).len() == list.len(),
        text::texts(list)[i] == list[i]@,
{
}

/// Whether the characters from `from` to before `to` are `0` to `9`.
pub open spec fn digits_between(s: Seq<char>, from: int, to: int) -> bool {
    forall|i: int| from <= i < to ==> 48 <= (#[trigger] s[i]) as int <= 57
}

/// Whether the characters from `from` on are an exponent: an `e` of either case, and
/// then digits, at least one, perhaps after a sign. Nothing is one too.
pub open spec fn exponent_from(s: Seq<char>, from: int) -> bool {
    ||| from == s.len()
    ||| {
        &&& from + 1 < s.len()
        &&& s[from] == 'e' || s[from] == 'E'
        &&& digits_between(s, from + 1, s.len() as int)
    }
    ||| {
        &&& from + 2 < s.len()
        &&& s[from] == 'e' || s[from] == 'E'
        &&& s[from + 1] == '+' || s[from + 1] == '-'
        &&& digits_between(s, from + 2, s.len() as int)
    }
}

/// Whether a text is `whole` digits, then perhaps a point and more digits up to before
/// `end`, then perhaps an exponent. There is a digit before or after the point.
pub open spec fn is_number_with(s: Seq<char>, whole: int, end: int) -> bool {
    &&& 0 <= whole <= end <= s.len()
    &&& digits_between(s, 0, whole)
    &&& whole == end && whole > 0 || {
        &&& whole < end
        &&& s[whole] == '.'
        &&& digits_between(s, whole + 1, end)
        &&& whole > 0 || end > whole + 1
    }
    &&& exponent_from(s, end)
}

/// A text is an unsigned decimal number exactly if it can be read as one: digits with
/// a point before, among or after them, or none, and perhaps an exponent.
pub proof fn law_what_is_a_decimal_number(s: Seq<char>)
    ensures
        text::is_unsigned_decimal(s) <==> exists|whole: int, end: int| #[trigger] is_number_with(s, whole, end),
{
    let w = text::digit_end(s, 0) as int;
    lemma_digit_end(s, 0);
    if w < s.len() && s[w] == '.' {
        let e = text::digit_end(s, (w + 1) as nat) as int;
        lemma_digit_end(s, (w + 1) as nat);
        lemma_exponent(s, e);
        if text::is_unsigned_decimal(s) {
            assert(is_number_with(s, w, e));
        }
    } else {
        lemma_exponent(s, w);
        if text::is_unsigned_decimal(s) {
            assert(is_number_with(s, w, w));
        }
    }
    if exists|whole: int, end: int| #[trigger] is_number_with(s, whole, end) {
        let (whole, end) = choose|whole: int, end: int| #[trigger] is_number_with(s, whole, end);
        lemma_only_reading(s, whole, end);
    }
}

proof fn lemma_only_reading(s: Seq<char>, whole: int, end: int)
    requires
        is_number_with(s, whole, end),
    ensures
        text::is_unsigned_decimal(s),
{
    assert('.' as int == 46 && 'e' as int == 101 && 'E' as int == 69);
    lemma_digit_end_is(s, 0, whole);
    if whole < end {
        lemma_digit_end_is(s, (whole + 1) as nat, end);
    }
    lemma_exponent(s, end);
}

proof fn lemma_digit_end(s: Seq<char>, from: nat)
    requires
        from <= s.len(),
    ensures
        from <= text::digit_end(s, from) <= s.len(),
        digits_between(s, from as int, text::digit_end(s, from) as int),
    decreases s.len() - from,
{
    assert('0' as int == 48 && '9' as int == 57);
    if from < s.len() && text::is_digit(s[from as int]) {
        lemma_digit_end(s, from + 1);
    }
}

proof fn lemma_digit_end_is(s: Seq<char>, from: nat, end: int)
    requires
        from <= end <= s.len(),
        digits_between(s, from as int, end),
        end < s.len() ==> !(48 <= s[end] as int <= 57),
    ensures
        text::digit_end(s, from) == end,
    decreases end - from,
{
    assert('0' as int == 48 && '9' as int == 57);
    if from < end {
        assert(48 <= s[from as int] as int <= 57);
        lemma_digit_end_is(s, from + 1, end);
    }
}

proof fn lemma_exponent(s: Seq<char>, from: int)
    requires
        0 <= from <= s.len(),
    ensures
        text::is_exponent(s.skip(from)) <==> exponent_from(s, from),
{
    let tail = s.skip(from);
    assert('0' as int == 48 && '9' as int == 57 && 'A' as int == 65 && 'Z' as int == 90);
    assert('e' as int == 101 && 'E' as int == 69 && '+' as int == 43 && '-' as int == 45);
    if from < s.len() {
        assert(tail[0] == s[from]);
        assert(text::lower(tail[0]) == 'e' <==> s[from] == 'e' || s[from] == 'E') by {
            if 65 <= s[from] as int <= 90 {
                assert(text::lower(s[from]) as int == s[from] as int + 32);
            }
        }
        let rest = tail.skip(1);
        assert(rest =~= s.skip(from + 1));
        lemma_all_digits(s, from + 1);
        if from + 1 < s.len() {
            assert(rest[0] == s[from + 1]);
            assert(rest.skip(1) =~= s.skip(from + 2));
            lemma_all_digits(s, from + 2);
            if s[from + 1] == '+' || s[from + 1] == '-' {
                assert(!digits_between(s, from + 1, s.len() as int)) by {
                    assert(!(48 <= s[from + 1] as int <= 57));
                }
            }
        }
    }
}

proof fn lemma_all_digits(s: Seq<char>, from: int)
    requires
        0 <= from <= s.len(),
    ensures
        text::all_digits(s.skip(from)) <==> digits_between(s, from, s.len() as int),
{
    let tail = s.skip(from);
    assert('0' as int == 48 && '9' as int == 57);
    if text::all_digits(tail) {
        assert forall|i: int| from <= i < s.len() implies 48 <= (#[trigger] s[i]) as int <= 57 by {
            assert(text::is_digit(tail[i - from]));
        }
    }
    if digits_between(s, from, s.len() as int) {
        assert forall|i: int| 0 <= i < tail.len() implies text::is_digit(#[trigger] tail[i]) by {
            assert(tail[i] == s[from + i]);
        }
    }
}

/// A text stands for a floating-point number exactly if, after a sign or none, it is
/// an unsigned decimal number, or says infinity or no number, in letters of either
/// case.
pub proof fn law_what_stands_for_a_floating_point_number(s: Seq<char>, body: Seq<char>)
    requires
        s.len() > 0 && (s[0] == '+' || s[0] == '-') ==> body == s.skip(1),
        s.len() == 0 || (s[0] != '+' && s[0] != '-') ==> body == s,
    ensures
        text::is_decimal(s) <==> {
            ||| exists|whole: int, end: int| #[trigger] is_number_with(body, whole, end)
            ||| spells(body, "inf"@)
            ||| spells(body, "infinity"@)
            ||| spells(body, "nan"@)
        },
{
    law_what_is_a_decimal_number(body);
    lemma_spells(body, "inf"@);
    lemma_spells(body, "infinity"@);
    lemma_spells(body, "nan"@);
}

/// Whether a text is the word, letter by letter, each letter of the Latin alphabet in
/// either case: an upper-case letter comes 32 places before the lower-case one.
pub open spec fn spells(s: Seq<char>, word: Seq<char>) -> bool {
    s.len() == word.len() && forall|i: int|
        0 <= i < s.len() ==> {
            ||| #[trigger] s[i] == word[i] && !(65 <= word[i] as int <= 90)
            ||| 65 <= s[i] as int <= 90 && s[i] as int + 32 == word[i] as int
        }
}

proof fn lemma_spells(s: Seq<char>, word: Seq<char>)
    ensures
        text::same_letters(s, word) <==> spells(s, word),
{
    assert('A' as int == 65 && 'Z' as int == 90);
    assert forall|c: char| 65 <= c as int <= 90 implies #[trigger] text::lower(c) as int == c as int + 32 by {}
    if text::same_letters(s, word) {
        assert forall|i: int| 0 <= i < s.len() implies {
            ||| #[trigger] s[i] == word[i] && !(65 <= word[i] as int <= 90)
            ||| 65 <= s[i] as int <= 90 && s[i] as int + 32 == word[i] as int
        } by {
            assert(text::lower(s[i]) == word[i]);
        }
    }
    if spells(s, word) {
        assert forall|i: int| 0 <= i < s.len() implies text::lower(#[trigger] s[i]) == word[i] by {
            if 65 <= s[i] as int <= 90 {
                assert(text::lower(s[i]) as int == s[i] as int + 32);
                assert(text::lower(s[i]) as int == word[i] as int);
            }
        }
    }
}

} // verus!
