//! Building, comparing and taking apart text.
//!
//! Numbers are written in decimal or in hexadecimal without leading zeros.
use vstd::prelude::*;

verus! {

/// The character of a single hexadecimal digit; decimal digits come first.
pub open spec fn digit_char(d: nat) -> char
    recommends
        d < 16,
{
    if d < 10 {
        (('0' as nat) + d) as char
    } else {
        (('a' as nat) + d - 10) as char
    }
}

/// `n` written in base `base`, most significant digit first, with no leading zero.
pub open spec fn digits(n: nat, base: nat) -> Seq<char>
    decreases n,
{
    if base < 2 || n < base {
        seq![digit_char(n)]
    } else {
        proof {
            vstd::arithmetic::div_mod::lemma_div_decreases(n as int, base as int);
        }
        digits(n / base, base).push(digit_char(n % base))
    }
}

/// `n` written in decimal.
pub open spec fn decimal(n: nat) -> Seq<char> {
    digits(n, 10)
}

/// `n` written in hexadecimal.
pub open spec fn hexadecimal(n: nat) -> Seq<char> {
    digits(n, 16)
}

/// The digit `d` as text.
fn digit_text(d: u128) -> (s: &'static str)
    requires
        d < 16,
    ensures
        s@ == seq![digit_char(d as nat)],
{
    proof {
        reveal_strlit("0");
        reveal_strlit("1");
        reveal_strlit("2");
        reveal_strlit("3");
        reveal_strlit("4");
        reveal_strlit("5");
        reveal_strlit("6");
        reveal_strlit("7");
        reveal_strlit("8");
        reveal_strlit("9");
        reveal_strlit("a");
        reveal_strlit("b");
        reveal_strlit("c");
        reveal_strlit("d");
        reveal_strlit("e");
        reveal_strlit("f");
    }
    let s: &'static str = match d {
        0 => "0",
        1 => "1",
        2 => "2",
        3 => "3",
        4 => "4",
        5 => "5",
        6 => "6",
        7 => "7",
        8 => "8",
        9 => "9",
        10 => "a",
        11 => "b",
        12 => "c",
        13 => "d",
        14 => "e",
        _ => "f",
    };
    assert(s@ =~= seq![digit_char(d as nat)]);
    s
}

/// Appends `n` in base `base` to `out`.
fn push_digits(out: &mut String, n: u128, base: u128)
    requires
        2 <= base <= 16,
    ensures
        final(out)@ == old(out)@ + digits(n as nat, base as nat),
    decreases n,
{
    if n < base {
        out.append(digit_text(n));
    } else {
        proof {
            vstd::arithmetic::div_mod::lemma_div_decreases(n as int, base as int);
        }
        push_digits(out, n / base, base);
        out.append(digit_text(n % base));
        assert(out@ =~= old(out)@ + digits(n as nat, base as nat));
    }
}

/// Appends `n` in decimal to `out`.
pub fn push_decimal(out: &mut String, n: u64)
    ensures
        final(out)@ == old(out)@ + decimal(n as nat),
{
    push_digits(out, n as u128, 10)
}

/// Appends `n` in hexadecimal to `out`.
pub fn push_hexadecimal(out: &mut String, n: u128)
    ensures
        final(out)@ == old(out)@ + hexadecimal(n as nat),
{
    push_digits(out, n, 16)
}

/// Whether two texts have the same characters.
pub fn same_text(a: &str, b: &str) -> (same: bool)
    ensures
        same == (a@ == b@),
{
    a.to_owned() == b.to_owned()
}

/// The characters of a text.
pub fn chars_of(s: &str) -> (chars: Vec<char>)
    ensures
        chars@ == s@,
{
    let mut chars: Vec<char> = Vec::new();
    for c in it: s.chars()
        invariant
            it.seq() == s@,
            chars@ == s@.take(it.index() as int),
    {
        chars.push(c);
    }
    assert(s@.take(s@.len() as int) =~= s@);
    chars
}

/// Whether a character separates words: one with the Unicode property
/// `White_Space`.
pub open spec fn white_space(c: char) -> bool {
    let n = c as nat;
    ||| 0x9 <= n <= 0xd
    ||| n == 0x20
    ||| n == 0x85
    ||| n == 0xa0
    ||| n == 0x1680
    ||| 0x2000 <= n <= 0x200a
    ||| n == 0x2028
    ||| n == 0x2029
    ||| n == 0x202f
    ||| n == 0x205f
    ||| n == 0x3000
}

/// Whether a character separates words.
pub fn is_white_space(c: char) -> (b: bool)
    ensures
        b == white_space(c),
{
    let n: u32 = c as u32;
    (0x9 <= n && n <= 0xd) || n == 0x20 || n == 0x85 || n == 0xa0 || n == 0x1680 || (0x2000 <= n && n <= 0x200a) || n
        == 0x2028 || n == 0x2029 || n == 0x202f || n == 0x205f || n == 0x3000
}

/// The first place from `from` on that is not white space, or the end.
pub open spec fn word_start(s: Seq<char>, from: nat) -> nat
    decreases s.len() - from,
{
    if from < s.len() && white_space(s[from as int]) {
        word_start(s, from + 1)
    } else {
        from
    }
}

/// The first place from `from` on that is white space, or the end.
pub open spec fn word_end(s: Seq<char>, from: nat) -> nat
    decreases s.len() - from,
{
    if from < s.len() && !white_space(s[from as int]) {
        word_end(s, from + 1)
    } else {
        from
    }
}

/// A word does not end before it starts, nor beyond the text.
pub proof fn lemma_word_bounds(s: Seq<char>, from: nat)
    requires
        from <= s.len(),
    ensures
        from <= word_start(s, from) <= s.len(),
        from <= word_end(s, from) <= s.len(),
        word_start(s, from) < s.len() ==> !white_space(s[word_start(s, from) as int]) && word_end(
            s,
            word_start(s, from),
        ) > word_start(s, from),
    decreases s.len() - from,
{
    if from < s.len() {
        lemma_word_bounds(s, from + 1);
    }
}

/// The words of a text from `from` on: what stands between white space.
pub open spec fn words(s: Seq<char>, from: nat) -> Seq<Seq<char>>
    decreases s.len() - from,
{
    let start = word_start(s, from);
    let end = word_end(s, start);
    if from <= start < end <= s.len() {
        seq![s.subrange(start as int, end as int)] + words(s, end)
    } else {
        Seq::empty()
    }
}

/// What a list of texts says.
pub open spec fn texts(list: Seq<String>) -> Seq<Seq<char>> {
    list.map_values(|t: String| t@)
}

/// The words of a text.
pub fn split_words(s: &str) -> (list: Vec<String>)
    ensures
        texts(list@) == words(s@, 0),
{
    let chars: Vec<char> = chars_of(s);
    let mut list: Vec<String> = Vec::new();
    let mut at: usize = 0;
    assert(texts(list@) + words(s@, 0) =~= words(s@, 0));
    while at < chars.len()
        invariant
            at <= chars.len(),
            chars@ == s@,
            texts(list@) + words(s@, at as nat) == words(s@, 0),
        decreases chars.len() - at,
    {
        let ghost from = at as nat;
        proof {
            lemma_word_bounds(s@, from);
        }
        while at < chars.len() && is_white_space(chars[at])
            invariant
                from <= at <= chars.len(),
                chars@ == s@,
                word_start(s@, at as nat) == word_start(s@, from),
            decreases chars.len() - at,
        {
            at += 1;
        }
        let start: usize = at;
        while at < chars.len() && !is_white_space(chars[at])
            invariant
                start <= at <= chars.len(),
                chars@ == s@,
                word_end(s@, at as nat) == word_end(s@, start as nat),
            decreases chars.len() - at,
        {
            at += 1;
        }
        if start < at {
            let ghost before = list@;
            let word: String = s.substring_char(start, at).to_owned();
            list.push(word);
            assert(texts(list@) =~= texts(before).push(word@));
            assert(texts(before) + (seq![word@] + words(s@, at as nat)) =~= texts(list@) + words(s@, at as nat));
        } else {
            assert(words(s@, from) =~= Seq::empty());
            assert(words(s@, at as nat) =~= Seq::empty());
        }
    }
    assert(words(s@, at as nat) =~= Seq::empty());
    assert(texts(list@) =~= words(s@, 0));
    list
}

/// The text without the characters `c` at its end.
pub open spec fn trimmed_end(s: Seq<char>, c: char) -> Seq<char>
    decreases s.len(),
{
    if s.len() > 0 && s.last() == c {
        trimmed_end(s.drop_last(), c)
    } else {
        s
    }
}

/// The text without the characters `c` at its end.
pub fn trim_end(s: &str, c: char) -> (trimmed: &str)
    ensures
        trimmed@ == trimmed_end(s@, c),
{
    let chars: Vec<char> = chars_of(s);
    let mut end: usize = chars.len();
    assert(s@.take(end as int) =~= s@);
    while end > 0 && chars[end - 1] == c
        invariant
            end <= chars.len(),
            chars@ == s@,
            trimmed_end(s@.take(end as int), c) == trimmed_end(s@, c),
        decreases end,
    {
        assert(s@.take(end as int).drop_last() =~= s@.take(end - 1));
        end -= 1;
    }
    assert(s@.take(end as int) =~= s@.subrange(0, end as int));
    assert(end > 0 ==> s@.take(end as int).last() == chars@[end - 1]);
    s.substring_char(0, end)
}

/// Whether a character is a decimal digit.
pub open spec fn is_digit(c: char) -> bool {
    '0' <= c && c <= '9'
}

/// Whether a text is made of decimal digits alone.
pub open spec fn all_digits(s: Seq<char>) -> bool {
    forall|i: int| 0 <= i < s.len() ==> is_digit(#[trigger] s[i])
}

/// The number that decimal digits stand for.
pub open spec fn digits_value(s: Seq<char>) -> nat
    decreases s.len(),
{
    if s.len() == 0 {
        0
    } else {
        digits_value(s.drop_last()) * 10 + (s.last() as nat - '0' as nat) as nat
    }
}

/// The text without a plus sign at its beginning.
pub open spec fn without_plus(s: Seq<char>) -> Seq<char> {
    if s.len() > 0 && s[0] == '+' {
        s.skip(1)
    } else {
        s
    }
}

/// The number that a text stands for: digits, perhaps after a plus sign, of a value
/// that fits in 64 bits.
pub open spec fn unsigned_value(s: Seq<char>) -> Option<u64> {
    let digits = without_plus(s);
    if digits.len() > 0 && all_digits(digits) && digits_value(digits) <= u64::MAX {
        Some(digits_value(digits) as u64)
    } else {
        None
    }
}

/// More digits make no smaller number.
proof fn lemma_digits_grow(s: Seq<char>, n: int)
    requires
        0 <= n <= s.len(),
    ensures
        digits_value(s.take(n)) <= digits_value(s),
    decreases s.len() - n,
{
    if n < s.len() {
        assert(s.take(n + 1).drop_last() =~= s.take(n));
        lemma_digits_grow(s, n + 1);
    } else {
        assert(s.take(n) =~= s);
    }
}

/// The number that a text stands for, if it is one of 64 bits.
pub fn parse_unsigned(s: &str) -> (value: Option<u64>)
    ensures
        value == unsigned_value(s@),
{
    let chars: Vec<char> = chars_of(s);
    let start: usize = if chars.len() > 0 && chars[0] == '+' {
        1
    } else {
        0
    };
    let ghost digits = without_plus(s@);
    assert(digits =~= s@.skip(start as int));
    if start == chars.len() {
        return None;
    }
    let mut value: u64 = 0;
    let mut at: usize = start;
    assert(digits.take(0) =~= Seq::empty());
    while at < chars.len()
        invariant
            start <= at <= chars.len(),
            chars@ == s@,
            digits == without_plus(s@),
            digits == s@.skip(start as int),
            all_digits(digits.take(at - start)),
            value == digits_value(digits.take(at - start)),
        decreases chars.len() - at,
    {
        let c: char = chars[at];
        let ghost n = at - start;
        assert(digits[n] == c);
        if !('0' <= c && c <= '9') {
            assert(!is_digit(digits[n]));
            return None;
        }
        assert(digits.take(n + 1).drop_last() =~= digits.take(n));
        assert(all_digits(digits.take(n + 1)));
        let digit: u64 = (c as u32 - '0' as u32) as u64;
        proof {
            lemma_digits_grow(digits, n + 1);
        }
        if value > (u64::MAX - digit) / 10 {
            assert(value * 10 + digit > u64::MAX);
            return None;
        }
        value = value * 10 + digit;
        at += 1;
    }
    assert(digits.take(at - start) =~= digits);
    Some(value)
}

/// The first line feed from `from` on, or the end.
pub open spec fn line_end(s: Seq<char>, from: nat) -> nat
    decreases s.len() - from,
{
    if from < s.len() && s[from as int] != '\n' {
        line_end(s, from + 1)
    } else {
        from
    }
}

proof fn lemma_line_bounds(s: Seq<char>, from: nat)
    requires
        from <= s.len(),
    ensures
        from <= line_end(s, from) <= s.len(),
    decreases s.len() - from,
{
    if from < s.len() {
        lemma_line_bounds(s, from + 1);
    }
}

/// A line without the carriage return that belongs to its end.
pub open spec fn without_return(line: Seq<char>, ended: bool) -> Seq<char> {
    if ended && line.len() > 0 && line.last() == '\r' {
        line.drop_last()
    } else {
        line
    }
}

/// The lines of a text from `from` on. A line ends in a line feed, perhaps after a
/// carriage return; the last one need not.
pub open spec fn lines_of(s: Seq<char>, from: nat) -> Seq<Seq<char>>
    decreases s.len() + 1 - from,
{
    let end = line_end(s, from);
    if from < s.len() && from <= end <= s.len() {
        seq![without_return(s.subrange(from as int, end as int), end < s.len())] + lines_of(s, end + 1)
    } else {
        Seq::empty()
    }
}

/// The lines of a text.
pub fn split_lines(s: &str) -> (list: Vec<String>)
    ensures
        texts(list@) == lines_of(s@, 0),
{
    let chars: Vec<char> = chars_of(s);
    let mut list: Vec<String> = Vec::new();
    let mut at: usize = 0;
    assert(texts(list@) + lines_of(s@, 0) =~= lines_of(s@, 0));
    while at < chars.len()
        invariant
            at <= chars.len(),
            chars@ == s@,
            texts(list@) + lines_of(s@, at as nat) == lines_of(s@, 0),
        decreases chars.len() - at,
    {
        let start: usize = at;
        proof {
            lemma_line_bounds(s@, start as nat);
        }
        while at < chars.len() && chars[at] != '\n'
            invariant
                start <= at <= chars.len(),
                chars@ == s@,
                line_end(s@, at as nat) == line_end(s@, start as nat),
            decreases chars.len() - at,
        {
            at += 1;
        }
        let ended: bool = at < chars.len();
        let mut end: usize = at;
        if ended && start < at && chars[at - 1] == '\r' {
            end = at - 1;
            assert(s@.subrange(start as int, at as int).drop_last() =~= s@.subrange(start as int, end as int));
        }
        assert(start < at ==> s@.subrange(start as int, at as int).last() == chars@[at - 1]);
        let ghost before = list@;
        let line: String = s.substring_char(start, end).to_owned();
        assert(line@ == without_return(s@.subrange(start as int, at as int), ended));
        list.push(line);
        assert(texts(list@) =~= texts(before).push(line@));
        assert(texts(before) + (seq![line@] + lines_of(s@, at as nat + 1)) =~= texts(list@) + lines_of(
            s@,
            at as nat + 1,
        ));
        if ended {
            at += 1;
        } else {
            assert(lines_of(s@, at as nat) =~= lines_of(s@, at as nat + 1));
        }
    }
    assert(texts(list@) =~= lines_of(s@, 0));
    list
}

/// The first place from `from` on that is not a digit, or the end.
pub open spec fn digit_end(s: Seq<char>, from: nat) -> nat
    decreases s.len() - from,
{
    if from < s.len() && is_digit(s[from as int]) {
        digit_end(s, from + 1)
    } else {
        from
    }
}

/// A letter of the Latin alphabet in lower case, any other character as it is.
pub open spec fn lower(c: char) -> char {
    if 'A' <= c && c <= 'Z' {
        (c as nat + 32) as char
    } else {
        c
    }
}

/// Whether two texts differ at most in the case of Latin letters; `b` is in lower
/// case.
pub open spec fn same_letters(a: Seq<char>, b: Seq<char>) -> bool {
    a.len() == b.len() && forall|i: int| 0 <= i < a.len() ==> lower(#[trigger] a[i]) == b[i]
}

/// The text without a sign at its beginning.
pub open spec fn without_sign(s: Seq<char>) -> Seq<char> {
    if s.len() > 0 && (s[0] == '+' || s[0] == '-') {
        s.skip(1)
    } else {
        s
    }
}

/// Whether a text is the exponent of a decimal number, or nothing.
pub open spec fn is_exponent(s: Seq<char>) -> bool {
    s.len() == 0 || (lower(s[0]) == 'e' && without_sign(s.skip(1)).len() > 0 && all_digits(without_sign(s.skip(1))))
}

/// Whether a text is a decimal number without a sign: digits, with a point before,
/// among or after them, and perhaps an exponent.
pub open spec fn is_unsigned_decimal(s: Seq<char>) -> bool {
    let whole = digit_end(s, 0);
    if whole < s.len() && s[whole as int] == '.' {
        let end = digit_end(s, whole + 1);
        (whole > 0 || end > whole + 1) && is_exponent(s.skip(end as int))
    } else {
        whole > 0 && is_exponent(s.skip(whole as int))
    }
}

/// Whether a text stands for a floating-point number: a decimal number, infinity or
/// no number, perhaps after a sign.
pub open spec fn is_decimal(s: Seq<char>) -> bool {
    let rest = without_sign(s);
    ||| same_letters(rest, "inf"@)
    ||| same_letters(rest, "infinity"@)
    ||| same_letters(rest, "nan"@)
    ||| is_unsigned_decimal(rest)
}

proof fn lemma_digit_bounds(s: Seq<char>, from: nat)
    requires
        from <= s.len(),
    ensures
        from <= digit_end(s, from) <= s.len(),
        forall|i: int| from <= i < digit_end(s, from) ==> is_digit(#[trigger] s[i]),
        digit_end(s, from) < s.len() ==> !is_digit(s[digit_end(s, from) as int]),
    decreases s.len() - from,
{
    if from < s.len() {
        lemma_digit_bounds(s, from + 1);
    }
}

/// The first place from `from` on that is not a digit, or the end.
fn skip_digits(chars: &Vec<char>, from: usize) -> (end: usize)
    requires
        from <= chars.len(),
    ensures
        end == digit_end(chars@, from as nat),
        from <= end <= chars.len(),
{
    let mut at: usize = from;
    while at < chars.len() && '0' <= chars[at] && chars[at] <= '9'
        invariant
            from <= at <= chars.len(),
            digit_end(chars@, at as nat) == digit_end(chars@, from as nat),
        decreases chars.len() - at,
    {
        at += 1;
    }
    at
}

/// A letter of the Latin alphabet in lower case, any other character as it is.
fn to_lower(c: char) -> (l: char)
    ensures
        l == lower(c),
{
    match c {
        'A' => 'a',
        'B' => 'b',
        'C' => 'c',
        'D' => 'd',
        'E' => 'e',
        'F' => 'f',
        'G' => 'g',
        'H' => 'h',
        'I' => 'i',
        'J' => 'j',
        'K' => 'k',
        'L' => 'l',
        'M' => 'm',
        'N' => 'n',
        'O' => 'o',
        'P' => 'p',
        'Q' => 'q',
        'R' => 'r',
        'S' => 's',
        'T' => 't',
        'U' => 'u',
        'V' => 'v',
        'W' => 'w',
        'X' => 'x',
        'Y' => 'y',
        'Z' => 'z',
        _ => c,
    }
}

/// Whether two texts differ at most in the case of Latin letters; `b` is in lower
/// case.
fn eq_letters(a: &Vec<char>, b: &str) -> (same: bool)
    ensures
        same == same_letters(a@, b@),
{
    let letters: Vec<char> = chars_of(b);
    if a.len() != letters.len() {
        return false;
    }
    let mut i: usize = 0;
    while i < a.len()
        invariant
            i <= a.len(),
            a.len() == letters.len(),
            letters@ == b@,
            forall|j: int| 0 <= j < i ==> lower(#[trigger] a@[j]) == b@[j],
        decreases a.len() - i,
    {
        if to_lower(a[i]) != letters[i] {
            assert(lower(a@[i as int]) != b@[i as int]);
            return false;
        }
        i += 1;
    }
    true
}

/// Whether the characters from `from` on are the exponent of a decimal number, or
/// none.
fn exponent_follows(chars: &Vec<char>, from: usize) -> (b: bool)
    requires
        from <= chars.len(),
    ensures
        b == is_exponent(chars@.skip(from as int)),
{
    let ghost rest = chars@.skip(from as int);
    if from == chars.len() {
        return true;
    }
    assert(rest[0] == chars@[from as int]);
    if to_lower(chars[from]) != 'e' {
        return false;
    }
    let mut start: usize = from + 1;
    assert(rest.skip(1) =~= chars@.skip(from + 1));
    if start < chars.len() && (chars[start] == '+' || chars[start] == '-') {
        start += 1;
        assert(rest.skip(1).skip(1) =~= chars@.skip(start as int));
    }
    let ghost digits = without_sign(rest.skip(1));
    assert(digits =~= chars@.skip(start as int));
    let end: usize = skip_digits(chars, start);
    proof {
        lemma_digit_bounds(chars@, start as nat);
        if end == chars.len() {
            assert forall|i: int| 0 <= i < digits.len() implies is_digit(#[trigger] digits[i]) by {
                assert(digits[i] == chars@[start + i]);
            }
        } else {
            assert(digits[end - start] == chars@[end as int]);
        }
    }
    start < chars.len() && end == chars.len()
}

/// Whether a text stands for a floating-point number.
pub fn is_decimal_text(s: &str) -> (b: bool)
    ensures
        b == is_decimal(s@),
{
    let all: Vec<char> = chars_of(s);
    let signed: bool = all.len() > 0 && (all[0] == '+' || all[0] == '-');
    let chars: Vec<char> = if signed {
        chars_of(s.substring_char(1, all.len()))
    } else {
        all
    };
    assert(chars@ =~= without_sign(s@));
    if eq_letters(&chars, "inf") || eq_letters(&chars, "infinity") || eq_letters(&chars, "nan") {
        return true;
    }
    let whole: usize = skip_digits(&chars, 0);
    if whole < chars.len() && chars[whole] == '.' {
        let end: usize = skip_digits(&chars, whole + 1);
        (whole > 0 || end > whole + 1) && exponent_follows(&chars, end)
    } else {
        whole > 0 && exponent_follows(&chars, whole)
    }
}

} // verus!
