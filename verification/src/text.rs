//! Text primitives: characters, decimal numbers, number literals, trimming
//! and splitting. Texts are modelled as `Seq<char>`.

use vstd::prelude::*;
use vstd::std_specs::iter::IteratorSpec;
use vstd::string::StrSliceExecFns;

verus! {

/// Whether `c` is white space: whether it has the Unicode property
/// `White_Space`. These are the controls from tab to carriage return, the
/// space, the next-line control, the no-break space, and the spaces and
/// separators of the general punctuation and of the ideographic block.
pub open spec fn is_white_space(c: char) -> bool {
    let code = c as u32;
    ||| 0x09 <= code <= 0x0D
    ||| code == 0x20
    ||| code == 0x85
    ||| code == 0xA0
    ||| code == 0x1680
    ||| 0x2000 <= code <= 0x200A
    ||| code == 0x2028
    ||| code == 0x2029
    ||| code == 0x202F
    ||| code == 0x205F
    ||| code == 0x3000
}

/// Whether `c` is white space.
pub fn is_white_space_char(c: char) -> (b: bool)
    ensures
        b == is_white_space(c),
{
    let code = c as u32;
    (0x09 <= code && code <= 0x0D) || code == 0x20 || code == 0x85 || code == 0xA0 || code
        == 0x1680 || (0x2000 <= code && code <= 0x200A) || code == 0x2028 || code == 0x2029
        || code == 0x202F || code == 0x205F || code == 0x3000
}

/// The part of `text` from character `from` up to character `to`.
fn part_of(text: &str, from: usize, to: usize) -> (part: String)
    requires
        from <= to <= text@.len(),
    ensures
        part@ == text@.subrange(from as int, to as int),
{
    text.substring_char(from, to).to_owned()
}

/// The characters of `text`, in order.
pub fn chars_of(text: &str) -> (chars: Vec<char>)
    ensures
        chars@ == text@,
{
    let mut chars: Vec<char> = Vec::new();
    for c in it: text.chars()
        invariant
            it.seq() == text@,
            chars@ == it.seq().take(it.index()),
    {
        chars.push(c);
    }
    chars
}

// ---------------------------------------------------------------------------
// Decimal numbers
// ---------------------------------------------------------------------------

/// An ASCII decimal digit.
pub open spec fn is_digit(c: char) -> bool {
    '0' <= c && c <= '9'
}

/// The number that the digit `c` stands for.
pub open spec fn digit_value(c: char) -> nat {
    (c as u32 - '0' as u32) as nat
}

/// Every character of `s` is a decimal digit.
pub open spec fn all_digits(s: Seq<char>) -> bool {
    forall|i: int| 0 <= i < s.len() ==> is_digit(#[trigger] s[i])
}

/// The number written by the digits `s`, most significant digit first.
pub open spec fn decimal_value(s: Seq<char>) -> nat
    decreases s.len(),
{
    if s.len() == 0 {
        0
    } else {
        decimal_value(s.drop_last()) * 10 + digit_value(s.last())
    }
}

/// `text` without one leading `+`, if it has one.
pub open spec fn without_plus(text: Seq<char>) -> Seq<char> {
    if text.len() > 0 && text[0] == '+' {
        text.skip(1)
    } else {
        text
    }
}

/// The unsigned number that `text` writes, if it writes one that is at most
/// `max`: an optional `+`, then one or more decimal digits, and nothing else.
pub open spec fn unsigned_number(text: Seq<char>, max: nat) -> Option<nat> {
    let digits = without_plus(text);
    if digits.len() > 0 && all_digits(digits) && decimal_value(digits) <= max {
        Some(decimal_value(digits))
    } else {
        None
    }
}

/// What `text` denotes as a `u32`.
pub open spec fn u32_of(text: Seq<char>) -> Option<u32> {
    match unsigned_number(text, u32::MAX as nat) {
        Some(n) => Some(n as u32),
        None => None,
    }
}

/// What `text` denotes as a `u64`.
pub open spec fn u64_of(text: Seq<char>) -> Option<u64> {
    match unsigned_number(text, u64::MAX as nat) {
        Some(n) => Some(n as u64),
        None => None,
    }
}

/// A number written with digits is at least the number written by any of
/// its prefixes.
proof fn lemma_decimal_value_prefix(s: Seq<char>, k: int)
    requires
        0 <= k <= s.len(),
    ensures
        decimal_value(s.take(k)) <= decimal_value(s),
    decreases s.len(),
{
    if k == s.len() {
        assert(s.take(k) == s);
    } else {
        assert(s.drop_last().take(k) == s.take(k));
        lemma_decimal_value_prefix(s.drop_last(), k);
    }
}

/// Reads `chars` as an unsigned number that is at most `max`.
fn parse_unsigned(chars: &Vec<char>, max: u64) -> (r: Option<u64>)
    ensures
        unsigned_number(chars@, max as nat) == match r {
            Some(n) => Some(n as nat),
            None => None,
        },
{
    let n = chars.len();
    let start: usize = if n > 0 && chars[0] == '+' {
        1
    } else {
        0
    };
    let ghost digits = without_plus(chars@);
    if start == n {
        return None;
    }
    let mut acc: u64 = 0;
    let mut i: usize = start;
    while i < n
        invariant
            start <= i <= n,
            n == chars.len(),
            digits == chars@.skip(start as int),
            digits == without_plus(chars@),
            all_digits(digits.take(i - start)),
            acc == decimal_value(digits.take(i - start)),
            acc <= max,
        decreases n - i,
    {
        let c = chars[i];
        let ghost next = digits.take(i + 1 - start);
        assert(next.drop_last() == digits.take(i - start));
        if !(c >= '0' && c <= '9') {
            assert(!is_digit(digits[i - start]));
            return None;
        }
        let d: u64 = (c as u64) - ('0' as u64);
        if d > max || acc > (max - d) / 10 {
            proof {
                lemma_decimal_value_prefix(digits, i + 1 - start);
            }
            return None;
        }
        acc = acc * 10 + d;
        i = i + 1;
    }
    assert(digits.take(i - start) == digits);
    Some(acc)
}

/// Reads `text` as a `u32`: an optional `+` and decimal digits.
pub fn parse_u32(text: &str) -> (r: Option<u32>)
    ensures
        r == u32_of(text@),
{
    let chars = chars_of(text);
    match parse_unsigned(&chars, 0xFFFF_FFFF) {
        Some(n) => Some(n as u32),
        None => None,
    }
}

/// Reads `text` as a `u64`: an optional `+` and decimal digits.
pub fn parse_u64(text: &str) -> (r: Option<u64>)
    ensures
        r == u64_of(text@),
{
    let chars = chars_of(text);
    parse_unsigned(&chars, 0xFFFF_FFFF_FFFF_FFFF)
}

// ---------------------------------------------------------------------------
// Number literals
// ---------------------------------------------------------------------------

/// How many decimal digits `s` begins with.
pub open spec fn digit_run(s: Seq<char>) -> nat
    decreases s.len(),
{
    if s.len() > 0 && is_digit(s[0]) {
        1 + digit_run(s.skip(1))
    } else {
        0
    }
}

/// A sign character.
pub open spec fn is_sign(c: char) -> bool {
    c == '+' || c == '-'
}

/// `s` without one leading sign, if it has one.
pub open spec fn without_sign(s: Seq<char>) -> Seq<char> {
    if s.len() > 0 && is_sign(s[0]) {
        s.skip(1)
    } else {
        s
    }
}

/// The code of `c`, with the ASCII capitals mapped to their small letters.
pub open spec fn folded_code(c: char) -> u32 {
    if 'A' <= c && c <= 'Z' {
        (c as u32 + 32) as u32
    } else {
        c as u32
    }
}

/// `s` spells `word`, letter case aside.
pub open spec fn spells(s: Seq<char>, word: Seq<char>) -> bool {
    &&& s.len() == word.len()
    &&& forall|i: int| 0 <= i < s.len() ==> folded_code(#[trigger] s[i]) == folded_code(word[i])
}

/// An exponent: `e` or `E`, an optional sign, one or more digits.
pub open spec fn is_exponent(s: Seq<char>) -> bool {
    &&& s.len() > 0
    &&& (s[0] == 'e' || s[0] == 'E')
    &&& without_sign(s.skip(1)).len() > 0
    &&& all_digits(without_sign(s.skip(1)))
}

/// A decimal number: digits, optionally a point and more digits, with at
/// least one digit before or after the point, and optionally an exponent.
pub open spec fn is_decimal_number(s: Seq<char>) -> bool {
    let whole = digit_run(s);
    let rest = s.skip(whole as int);
    let pointed = rest.len() > 0 && rest[0] == '.';
    let fraction = if pointed {
        digit_run(rest.skip(1))
    } else {
        0
    };
    let tail = if pointed {
        rest.skip(1 + fraction as int)
    } else {
        rest
    };
    whole + fraction > 0 && (tail.len() == 0 || is_exponent(tail))
}

/// Whether `s` is a number literal: an optional sign, then a decimal number
/// or one of the words `inf`, `infinity`, `nan` in any letter case.
pub open spec fn is_number_literal(s: Seq<char>) -> bool {
    let body = without_sign(s);
    ||| is_decimal_number(body)
    ||| spells(body, "inf"@)
    ||| spells(body, "infinity"@)
    ||| spells(body, "nan"@)
}

/// The digits at the front of a text are digits, what follows them is none,
/// and they are the whole text exactly when the text is all digits.
proof fn lemma_digit_run_bound(s: Seq<char>)
    ensures
        digit_run(s) <= s.len(),
        all_digits(s.take(digit_run(s) as int)),
        digit_run(s) < s.len() ==> !is_digit(s[digit_run(s) as int]),
        all_digits(s) <==> digit_run(s) == s.len(),
    decreases s.len(),
{
    if s.len() > 0 && is_digit(s[0]) {
        let t = s.skip(1);
        lemma_digit_run_bound(t);
        let n = digit_run(s) as int;
        assert forall|i: int| 0 <= i < n implies is_digit(#[trigger] s.take(n)[i]) by {
            if i > 0 {
                assert(s.take(n)[i] == t.take(n - 1)[i - 1]);
            }
        }
        if all_digits(s) {
            assert forall|i: int| 0 <= i < t.len() implies is_digit(#[trigger] t[i]) by {}
        }
        if digit_run(s) == s.len() {
            assert(s.take(n) == s);
        }
    }
}

/// Digits that are followed by no digit are all the digits at the front.
proof fn lemma_digit_run_of_digits(digits: Seq<char>, rest: Seq<char>)
    requires
        all_digits(digits),
        rest.len() == 0 || !is_digit(rest[0]),
    ensures
        digit_run(digits + rest) == digits.len(),
    decreases digits.len(),
{
    let s = digits + rest;
    if digits.len() > 0 {
        assert(s.skip(1) == digits.skip(1) + rest);
        assert forall|i: int| 0 <= i < digits.skip(1).len() implies is_digit(
            #[trigger] digits.skip(1)[i],
        ) by {}
        lemma_digit_run_of_digits(digits.skip(1), rest);
    }
}

/// The parts that make a decimal number: digits before the point, the
/// point or none, digits after the point, and an exponent or nothing.
pub open spec fn decimal_parts(
    whole: Seq<char>,
    point: bool,
    fraction: Seq<char>,
    exponent: Seq<char>,
) -> bool {
    &&& all_digits(whole)
    &&& all_digits(fraction)
    &&& point || fraction.len() == 0
    &&& whole.len() + fraction.len() > 0
    &&& exponent.len() == 0 || is_exponent(exponent)
}

/// The text that the parts of a decimal number make.
pub open spec fn decimal_text(
    whole: Seq<char>,
    point: bool,
    fraction: Seq<char>,
    exponent: Seq<char>,
) -> Seq<char> {
    whole + (if point {
        seq!['.']
    } else {
        Seq::empty()
    }) + fraction + exponent
}

/// The decimal numbers are the texts of the form
/// `( Digit+ | Digit+ '.' Digit* | Digit* '.' Digit+ ) Exp?`.
pub proof fn law_decimal_number_shape(s: Seq<char>)
    ensures
        is_decimal_number(s) <==> exists|
            whole: Seq<char>,
            point: bool,
            fraction: Seq<char>,
            exponent: Seq<char>,
        |
            decimal_parts(whole, point, fraction, exponent) && s == #[trigger] decimal_text(
                whole,
                point,
                fraction,
                exponent,
            ),
{
    if is_decimal_number(s) {
        lemma_digit_run_bound(s);
        let whole = s.take(digit_run(s) as int);
        let rest = s.skip(digit_run(s) as int);
        let point = rest.len() > 0 && rest[0] == '.';
        if point {
            lemma_digit_run_bound(rest.skip(1));
            let fraction = rest.skip(1).take(digit_run(rest.skip(1)) as int);
            let exponent = rest.skip(1 + digit_run(rest.skip(1)) as int);
            assert(s == decimal_text(whole, point, fraction, exponent));
        } else {
            let fraction = Seq::<char>::empty();
            assert(s == decimal_text(whole, point, fraction, rest));
        }
    }
    if exists|whole: Seq<char>, point: bool, fraction: Seq<char>, exponent: Seq<char>|
        decimal_parts(whole, point, fraction, exponent) && s == #[trigger] decimal_text(
            whole,
            point,
            fraction,
            exponent,
        ) {
        let (whole, point, fraction, exponent) = choose|
            whole: Seq<char>,
            point: bool,
            fraction: Seq<char>,
            exponent: Seq<char>,
        |
            decimal_parts(whole, point, fraction, exponent) && s == #[trigger] decimal_text(
                whole,
                point,
                fraction,
                exponent,
            );
        let mark = if point {
            seq!['.']
        } else {
            Seq::<char>::empty()
        };
        let after_whole = mark + fraction + exponent;
        assert(s == whole + after_whole);
        lemma_digit_run_of_digits(whole, after_whole);
        assert(s.skip(whole.len() as int) == after_whole);
        if point {
            assert(after_whole.skip(1) == fraction + exponent);
            lemma_digit_run_of_digits(fraction, exponent);
            assert(after_whole.skip(1 + fraction.len() as int) == exponent);
        }
    }
}

/// Counts the decimal digits of `chars` that follow index `from` without a gap.
fn count_digits(chars: &Vec<char>, from: usize) -> (n: usize)
    requires
        from <= chars.len(),
    ensures
        n == digit_run(chars@.skip(from as int)),
        from + n <= chars.len(),
{
    let len = chars.len();
    let mut i: usize = from;
    while i < len
        invariant
            from <= i <= len,
            len == chars.len(),
            digit_run(chars@.skip(from as int)) == (i - from) + digit_run(chars@.skip(i as int)),
        decreases len - i,
    {
        let c = chars[i];
        if !(c >= '0' && c <= '9') {
            return i - from;
        }
        assert(chars@.skip(i as int).skip(1) == chars@.skip(i + 1));
        i = i + 1;
    }
    i - from
}

/// The code of `c`, with an ASCII capital mapped to its small letter.
fn folded(c: char) -> (code: u32)
    ensures
        code == folded_code(c),
{
    if c >= 'A' && c <= 'Z' {
        (c as u32) + 32
    } else {
        c as u32
    }
}

/// Whether the characters of `chars` from index `from` on spell `word`,
/// letter case aside.
fn spells_from(chars: &Vec<char>, from: usize, word: &str) -> (b: bool)
    requires
        from <= chars.len(),
    ensures
        b == spells(chars@.skip(from as int), word@),
{
    let letters = chars_of(word);
    let len = chars.len();
    if len - from != letters.len() {
        return false;
    }
    let ghost s = chars@.skip(from as int);
    let mut i: usize = 0;
    while i < letters.len()
        invariant
            from <= len,
            len == chars.len(),
            len - from == letters.len(),
            i <= letters.len(),
            s == chars@.skip(from as int),
            letters@ == word@,
            forall|j: int| 0 <= j < i ==> folded_code(#[trigger] s[j]) == folded_code(word@[j]),
        decreases letters.len() - i,
    {
        if folded(chars[from + i]) != folded(letters[i]) {
            assert(folded_code(s[i as int]) != folded_code(word@[i as int]));
            return false;
        }
        i = i + 1;
    }
    true
}

/// Whether the characters of `chars` from index `from` on are an exponent.
fn is_exponent_from(chars: &Vec<char>, from: usize) -> (b: bool)
    requires
        from <= chars.len(),
    ensures
        b == is_exponent(chars@.skip(from as int)),
{
    let len = chars.len();
    let ghost s = chars@.skip(from as int);
    if from == len {
        return false;
    }
    let c = chars[from];
    if !(c == 'e' || c == 'E') {
        return false;
    }
    let mut at: usize = from + 1;
    if at < len && (chars[at] == '+' || chars[at] == '-') {
        at = at + 1;
    }
    assert(without_sign(s.skip(1)) == chars@.skip(at as int));
    let digits = count_digits(chars, at);
    proof {
        lemma_digit_run_bound(chars@.skip(at as int));
    }
    at < len && at + digits == len
}

/// Whether the characters of `chars` from index `from` on are a decimal
/// number.
fn is_decimal_number_from(chars: &Vec<char>, from: usize) -> (b: bool)
    requires
        from <= chars.len(),
    ensures
        b == is_decimal_number(chars@.skip(from as int)),
{
    let len = chars.len();
    let ghost s = chars@.skip(from as int);
    let whole = count_digits(chars, from);
    let mut at: usize = from + whole;
    let ghost rest = s.skip(whole as int);
    assert(rest == chars@.skip(at as int));
    let mut fraction: usize = 0;
    if at < len && chars[at] == '.' {
        assert(rest.skip(1) == chars@.skip(at + 1));
        fraction = count_digits(chars, at + 1);
        assert(rest.skip(1 + fraction) == chars@.skip(at + 1 + fraction));
        at = at + 1 + fraction;
    }
    if whole == 0 && fraction == 0 {
        return false;
    }
    if at == len {
        return true;
    }
    is_exponent_from(chars, at)
}

/// Whether `text` is a number literal: what follows an optional sign is a
/// decimal number with an optional exponent, or one of `inf`, `infinity`,
/// `nan` in any letter case.
pub fn is_number_text(text: &str) -> (b: bool)
    ensures
        b == is_number_literal(text@),
{
    let chars = chars_of(text);
    let len = chars.len();
    let from: usize = if len > 0 && (chars[0] == '+' || chars[0] == '-') {
        1
    } else {
        0
    };
    assert(without_sign(chars@) == chars@.skip(from as int));
    is_decimal_number_from(&chars, from) || spells_from(&chars, from, "inf") || spells_from(
        &chars,
        from,
        "infinity",
    ) || spells_from(&chars, from, "nan")
}

// ---------------------------------------------------------------------------
// Trimming and splitting
// ---------------------------------------------------------------------------

/// The texts of a list of strings.
pub open spec fn texts(list: Seq<String>) -> Seq<Seq<char>> {
    list.map_values(|s: String| s@)
}

/// `s` without the white space at its front.
pub open spec fn trim_start(s: Seq<char>) -> Seq<char>
    decreases s.len(),
{
    if s.len() > 0 && is_white_space(s[0]) {
        trim_start(s.skip(1))
    } else {
        s
    }
}

/// `s` without the white space at its end.
pub open spec fn trim_end(s: Seq<char>) -> Seq<char>
    decreases s.len(),
{
    if s.len() > 0 && is_white_space(s.last()) {
        trim_end(s.drop_last())
    } else {
        s
    }
}

/// `s` without the white space at its front and at its end.
pub open spec fn trimmed(s: Seq<char>) -> Seq<char> {
    trim_end(trim_start(s))
}

/// The index of the first `c` in `s`, or the length of `s` if it holds none.
pub open spec fn first_position(s: Seq<char>, c: char) -> nat
    decreases s.len(),
{
    if s.len() == 0 || s[0] == c {
        0
    } else {
        1 + first_position(s.skip(1), c)
    }
}

/// The pieces of `s` between the occurrences of `sep`. A text without `sep`
/// is one piece, also when it is empty.
pub open spec fn split_on(s: Seq<char>, sep: char) -> Seq<Seq<char>>
    decreases s.len(),
{
    let cut = first_position(s, sep) as int;
    if cut >= s.len() {
        seq![s]
    } else {
        seq![s.take(cut)] + split_on(s.skip(cut + 1), sep)
    }
}

/// Every piece trimmed.
pub open spec fn trim_all(pieces: Seq<Seq<char>>) -> Seq<Seq<char>> {
    pieces.map_values(|p: Seq<char>| trimmed(p))
}

/// `s` without one carriage return at its end, if it has one.
pub open spec fn without_cr(s: Seq<char>) -> Seq<char> {
    if s.len() > 0 && s.last() == '\r' {
        s.drop_last()
    } else {
        s
    }
}

/// The lines of `s`. A line ends with a line feed, or with a carriage
/// return and a line feed; neither belongs to the line. What follows the
/// last line feed is a line too, unless it is empty.
pub open spec fn lines_of(s: Seq<char>) -> Seq<Seq<char>>
    decreases s.len(),
{
    let cut = first_position(s, '\n') as int;
    if s.len() == 0 {
        Seq::empty()
    } else if cut >= s.len() {
        seq![s]
    } else {
        seq![without_cr(s.take(cut))] + lines_of(s.skip(cut + 1))
    }
}

/// `first_position` is the least index at which the character stands.
proof fn lemma_first_position(s: Seq<char>, c: char)
    ensures
        first_position(s, c) <= s.len(),
        first_position(s, c) < s.len() ==> s[first_position(s, c) as int] == c,
        forall|i: int| 0 <= i < first_position(s, c) ==> #[trigger] s[i] != c,
    decreases s.len(),
{
    if s.len() > 0 && s[0] != c {
        let t = s.skip(1);
        lemma_first_position(t, c);
        assert forall|i: int| 0 <= i < first_position(s, c) implies #[trigger] s[i] != c by {
            if i > 0 {
                assert(s[i] == t[i - 1]);
            }
        }
    }
}

/// The first `c` of `s` is where no earlier character is `c`.
proof fn lemma_first_position_is(s: Seq<char>, c: char, at: int)
    requires
        0 <= at <= s.len(),
        forall|i: int| 0 <= i < at ==> #[trigger] s[i] != c,
        at < s.len() ==> s[at] == c,
    ensures
        first_position(s, c) == at,
{
    lemma_first_position(s, c);
}

/// What is left of `s` without the white space at its front begins where
/// the first character stands that is no white space.
proof fn lemma_trim_start(s: Seq<char>) -> (a: int)
    ensures
        0 <= a <= s.len(),
        trim_start(s) == s.skip(a),
        forall|i: int| 0 <= i < a ==> is_white_space(#[trigger] s[i]),
        a < s.len() ==> !is_white_space(s[a]),
    decreases s.len(),
{
    if s.len() > 0 && is_white_space(s[0]) {
        let t = s.skip(1);
        let b = lemma_trim_start(t);
        assert forall|i: int| 0 <= i < b + 1 implies is_white_space(#[trigger] s[i]) by {
            if i > 0 {
                assert(s[i] == t[i - 1]);
            }
        }
        b + 1
    } else {
        0
    }
}

/// What is left of `s` without the white space at its end ends behind the
/// last character that is no white space.
proof fn lemma_trim_end(s: Seq<char>) -> (b: int)
    ensures
        0 <= b <= s.len(),
        trim_end(s) == s.take(b),
        forall|i: int| b <= i < s.len() ==> is_white_space(#[trigger] s[i]),
        0 < b ==> !is_white_space(s[b - 1]),
    decreases s.len(),
{
    if s.len() > 0 && is_white_space(s.last()) {
        let t = s.drop_last();
        let b = lemma_trim_end(t);
        assert forall|i: int| b <= i < s.len() implies is_white_space(#[trigger] s[i]) by {
            if i < t.len() {
                assert(s[i] == t[i]);
            }
        }
        b
    } else {
        s.len() as int
    }
}

/// Trimming keeps the part of a text from its first to its last character
/// that is no white space, and drops nothing but white space.
pub proof fn law_trimmed_is_the_middle(s: Seq<char>)
    ensures
        exists|a: int, b: int|
            {
                &&& 0 <= a <= b <= s.len()
                &&& trimmed(s) == #[trigger] s.subrange(a, b)
                &&& forall|i: int| 0 <= i < a ==> is_white_space(#[trigger] s[i])
                &&& forall|i: int| b <= i < s.len() ==> is_white_space(#[trigger] s[i])
                &&& a < b ==> !is_white_space(s[a]) && !is_white_space(s[b - 1])
            },
{
    let a = lemma_trim_start(s);
    let t = s.skip(a);
    let n = lemma_trim_end(t);
    let b = a + n;
    assert forall|i: int| b <= i < s.len() implies is_white_space(#[trigger] s[i]) by {
        assert(s[i] == t[i - a]);
    }
    assert(0 <= a <= b <= s.len() && trimmed(s) == s.subrange(a, b) && (forall|i: int|
        0 <= i < a ==> is_white_space(#[trigger] s[i])) && (forall|i: int|
        b <= i < s.len() ==> is_white_space(#[trigger] s[i])) && (a < b ==> !is_white_space(s[a])
        && !is_white_space(s[b - 1])));
}

/// The pieces put together again, with `sep` between every two of them.
pub open spec fn joined(pieces: Seq<Seq<char>>, sep: char) -> Seq<char>
    decreases pieces.len(),
{
    if pieces.len() == 0 {
        Seq::empty()
    } else if pieces.len() == 1 {
        pieces[0]
    } else {
        pieces[0] + seq![sep] + joined(pieces.skip(1), sep)
    }
}

/// Splitting cuts a text at every separator and nowhere else: no piece
/// holds the separator, and the pieces with the separator between them are
/// the text.
pub proof fn law_split_cuts_at_each_separator(s: Seq<char>, sep: char)
    ensures
        split_on(s, sep).len() >= 1,
        forall|k: int, i: int|
            0 <= k < split_on(s, sep).len() && 0 <= i < split_on(s, sep)[k].len()
                ==> #[trigger] split_on(s, sep)[k][i] != sep,
        joined(split_on(s, sep), sep) == s,
    decreases s.len(),
{
    lemma_first_position(s, sep);
    let cut = first_position(s, sep) as int;
    if cut < s.len() {
        let rest = s.skip(cut + 1);
        law_split_cuts_at_each_separator(rest, sep);
        let pieces = split_on(s, sep);
        assert(pieces.skip(1) == split_on(rest, sep));
        assert forall|k: int, i: int|
            0 <= k < pieces.len() && 0 <= i < pieces[k].len() implies #[trigger] pieces[k][i]
            != sep by {}
    }
}

/// No line holds a line feed.
pub proof fn law_lines_hold_no_line_feed(s: Seq<char>)
    ensures
        forall|k: int, i: int|
            0 <= k < lines_of(s).len() && 0 <= i < lines_of(s)[k].len() ==> #[trigger] lines_of(
                s,
            )[k][i] != '\n',
    decreases s.len(),
{
    lemma_first_position(s, '\n');
    let cut = first_position(s, '\n') as int;
    if s.len() > 0 && cut < s.len() {
        let rest = s.skip(cut + 1);
        law_lines_hold_no_line_feed(rest);
        let lines = lines_of(s);
        assert forall|k: int, i: int|
            0 <= k < lines.len() && 0 <= i < lines[k].len() implies #[trigger] lines[k][i]
            != '\n' by {
            if k > 0 {
                assert(lines[k] == lines_of(rest)[k - 1]);
            }
        }
    }
}

/// The bounds of the trimmed part of `chars[from..to]`.
fn trim_range(chars: &Vec<char>, from: usize, to: usize) -> (r: (usize, usize))
    requires
        from <= to <= chars.len(),
    ensures
        from <= r.0 <= r.1 <= to,
        chars@.subrange(r.0 as int, r.1 as int) == trimmed(chars@.subrange(from as int, to as int)),
{
    let mut a: usize = from;
    while a < to && is_white_space_char(chars[a])
        invariant
            from <= a <= to <= chars.len(),
            trim_start(chars@.subrange(from as int, to as int)) == trim_start(
                chars@.subrange(a as int, to as int),
            ),
        decreases to - a,
    {
        assert(chars@.subrange(a as int, to as int).skip(1) == chars@.subrange(a + 1, to as int));
        a = a + 1;
    }
    let mut b: usize = to;
    while b > a && is_white_space_char(chars[b - 1])
        invariant
            a <= b <= to <= chars.len(),
            trim_end(chars@.subrange(a as int, to as int)) == trim_end(
                chars@.subrange(a as int, b as int),
            ),
        decreases b - a,
    {
        assert(chars@.subrange(a as int, b as int).drop_last() == chars@.subrange(
            a as int,
            b - 1,
        ));
        b = b - 1;
    }
    (a, b)
}

/// `text` without the white space at its front and at its end.
pub fn trim(text: &str) -> (r: String)
    ensures
        r@ == trimmed(text@),
{
    let chars = chars_of(text);
    let (a, b) = trim_range(&chars, 0, chars.len());
    assert(chars@.subrange(0, chars.len() as int) == chars@);
    part_of(text, a, b)
}

/// Splits `text` at each `sep` and trims every piece.
pub fn split_trimmed(text: &str, sep: char) -> (parts: Vec<String>)
    ensures
        texts(parts@) == trim_all(split_on(text@, sep)),
{
    let chars = chars_of(text);
    let len = chars.len();
    let mut parts: Vec<String> = Vec::new();
    let mut start: usize = 0;
    let mut i: usize = 0;
    assert(chars@.skip(0) == chars@);
    while i < len
        invariant
            start <= i <= len,
            len == chars.len(),
            chars@ == text@,
            forall|j: int| start <= j < i ==> #[trigger] chars@[j] != sep,
            texts(parts@) + trim_all(split_on(chars@.skip(start as int), sep)) == trim_all(
                split_on(chars@, sep),
            ),
        decreases len - i,
    {
        if chars[i] == sep {
            let ghost rest = chars@.skip(start as int);
            proof {
                assert forall|j: int| 0 <= j < i - start implies #[trigger] rest[j] != sep by {}
                lemma_first_position_is(rest, sep, i - start);
                assert(rest.take(i - start) == chars@.subrange(start as int, i as int));
                assert(rest.skip(i - start + 1) == chars@.skip(i + 1));
            }
            let (a, b) = trim_range(&chars, start, i);
            let piece = part_of(text, a, b);
            let ghost before = texts(parts@);
            parts.push(piece);
            assert(texts(parts@) == before.push(trimmed(rest.take(i - start))));
            start = i + 1;
        }
        i = i + 1;
    }
    let ghost rest = chars@.skip(start as int);
    proof {
        assert forall|j: int| 0 <= j < len - start implies #[trigger] rest[j] != sep by {}
        lemma_first_position_is(rest, sep, len - start);
    }
    let (a, b) = trim_range(&chars, start, len);
    let piece = part_of(text, a, b);
    let ghost before = texts(parts@);
    parts.push(piece);
    assert(texts(parts@) == before.push(trimmed(rest)));
    parts
}

/// The lines of `text`.
pub fn split_lines(text: &str) -> (lines: Vec<String>)
    ensures
        texts(lines@) == lines_of(text@),
{
    let chars = chars_of(text);
    let len = chars.len();
    let mut lines: Vec<String> = Vec::new();
    let mut start: usize = 0;
    let mut i: usize = 0;
    assert(chars@.skip(0) == chars@);
    while i < len
        invariant
            start <= i <= len,
            len == chars.len(),
            chars@ == text@,
            forall|j: int| start <= j < i ==> #[trigger] chars@[j] != '\n',
            texts(lines@) + lines_of(chars@.skip(start as int)) == lines_of(chars@),
        decreases len - i,
    {
        if chars[i] == '\n' {
            let ghost rest = chars@.skip(start as int);
            proof {
                assert forall|j: int| 0 <= j < i - start implies #[trigger] rest[j] != '\n' by {}
                lemma_first_position_is(rest, '\n', i - start);
                assert(rest.take(i - start) == chars@.subrange(start as int, i as int));
                assert(rest.skip(i - start + 1) == chars@.skip(i + 1));
            }
            let end: usize = if i > start && chars[i - 1] == '\r' {
                i - 1
            } else {
                i
            };
            assert(chars@.subrange(start as int, end as int) == without_cr(
                chars@.subrange(start as int, i as int),
            ));
            let line = part_of(text, start, end);
            let ghost before = texts(lines@);
            lines.push(line);
            assert(texts(lines@) == before.push(without_cr(rest.take(i - start))));
            start = i + 1;
        }
        i = i + 1;
    }
    let ghost rest = chars@.skip(start as int);
    if start < len {
        proof {
            assert forall|j: int| 0 <= j < len - start implies #[trigger] rest[j] != '\n' by {}
            lemma_first_position_is(rest, '\n', len - start);
        }
        let line = part_of(text, start, len);
        let ghost before = texts(lines@);
        lines.push(line);
        assert(texts(lines@) == before.push(rest));
    }
    lines
}

/// Whether `a` and `b` are the same text.
pub fn same_text(a: &str, b: &str) -> (same: bool)
    ensures
        same == (a@ == b@),
{
    broadcast use vstd::string::group_string_axioms;

    let mut left = a.chars();
    let mut right = b.chars();
    let ghost mut seen: int = 0;
    loop
        invariant
            0 <= seen <= a@.len(),
            seen <= b@.len(),
            left.remaining() == a@.skip(seen),
            right.remaining() == b@.skip(seen),
            a@.take(seen) == b@.take(seen),
        decreases a@.len() - seen,
    {
        let x = left.next();
        let y = right.next();
        match (x, y) {
            (Some(c), Some(d)) => {
                if c != d {
                    return false;
                }
                proof {
                    seen = seen + 1;
                }
            },
            (None, None) => {
                assert(a@.take(seen) == a@ && b@.take(seen) == b@);
                return true;
            },
            _ => {
                return false;
            },
        }
    }
}

} // verus!
