//! Text primitives: order, prefixes, slices, trimming and decimal numerals.
//!
//! A text is modelled by its sequence of characters.

use vstd::prelude::*;
use vstd::std_specs::iter::IteratorSpec;

verus! {

// ---------------------------------------------------------------------------
// Order
// ---------------------------------------------------------------------------

/// `a` and `b` agree before `i`, and at `i` the text `a` has ended or holds the
/// smaller character.
pub open spec fn differs_below(a: Seq<char>, b: Seq<char>, i: int) -> bool {
    &&& 0 <= i <= a.len()
    &&& i < b.len()
    &&& forall|j: int| 0 <= j < i ==> a[j] == b[j]
    &&& (i == a.len() || a[i] < b[i])
}

/// The lexicographic order of texts by code point, which is also the order of
/// their UTF-8 encodings.
pub open spec fn text_lt(a: Seq<char>, b: Seq<char>) -> bool {
    exists|i: int| differs_below(a, b, i)
}

/// No text sorts before itself.
pub proof fn lemma_text_lt_irreflexive(a: Seq<char>)
    ensures
        !text_lt(a, a),
{
}

/// The order is transitive.
pub proof fn lemma_text_lt_transitive(a: Seq<char>, b: Seq<char>, c: Seq<char>)
    requires
        text_lt(a, b),
        text_lt(b, c),
    ensures
        text_lt(a, c),
{
    let i = choose|i: int| differs_below(a, b, i);
    let j = choose|j: int| differs_below(b, c, j);
    let k = if i < j { i } else { j };
    assert(differs_below(a, c, k));
}

/// The order is asymmetric.
pub proof fn lemma_text_lt_asymmetric(a: Seq<char>, b: Seq<char>)
    requires
        text_lt(a, b),
    ensures
        !text_lt(b, a),
        a != b,
{
    if text_lt(b, a) {
        lemma_text_lt_transitive(a, b, a);
        lemma_text_lt_irreflexive(a);
    }
    if a == b {
        lemma_text_lt_irreflexive(a);
    }
}

/// The length of the longest common prefix of `a` and `b`, counted from `i`.
spec fn common_prefix(a: Seq<char>, b: Seq<char>, i: int) -> int
    decreases a.len() - i,
{
    if 0 <= i < a.len() && i < b.len() && a[i] == b[i] {
        common_prefix(a, b, i + 1)
    } else {
        i
    }
}

proof fn lemma_common_prefix(a: Seq<char>, b: Seq<char>, i: int)
    requires
        0 <= i <= a.len(),
        i <= b.len(),
        forall|j: int| 0 <= j < i ==> a[j] == b[j],
    ensures
        ({
            let n = common_prefix(a, b, i);
            &&& i <= n <= a.len()
            &&& n <= b.len()
            &&& forall|j: int| 0 <= j < n ==> a[j] == b[j]
            &&& (n == a.len() || n == b.len() || a[n] != b[n])
        }),
    decreases a.len() - i,
{
    if i < a.len() && i < b.len() && a[i] == b[i] {
        lemma_common_prefix(a, b, i + 1);
    }
}

/// Two different texts are ordered one way or the other.
pub proof fn lemma_text_lt_total(a: Seq<char>, b: Seq<char>)
    ensures
        a == b || text_lt(a, b) || text_lt(b, a),
{
    lemma_common_prefix(a, b, 0);
    let n = common_prefix(a, b, 0);
    if n == a.len() && n == b.len() {
        assert(a =~= b);
    } else if n == a.len() {
        assert(differs_below(a, b, n));
    } else if n == b.len() {
        assert(differs_below(b, a, n));
    } else if a[n] < b[n] {
        assert(differs_below(a, b, n));
    } else {
        assert(differs_below(b, a, n));
    }
}

/// Whether `a` sorts before `b`.
pub fn sorts_before(a: &str, b: &str) -> (before: bool)
    ensures
        before == text_lt(a@, b@),
{
    let mut left = a.chars();
    let mut right = b.chars();
    let ghost mut i: int = 0;
    loop
        invariant
            0 <= i <= a@.len(),
            i <= b@.len(),
            left.remaining() == a@.skip(i),
            right.remaining() == b@.skip(i),
            forall|j: int| 0 <= j < i ==> a@[j] == b@[j],
        decreases a@.len() - i,
    {
        let x = left.next();
        let y = right.next();
        match y {
            None => {
                assert(i == b@.len());
                return false;
            },
            Some(d) => {
                match x {
                    None => {
                        assert(differs_below(a@, b@, i));
                        return true;
                    },
                    Some(c) => {
                        assert(c == a@[i] && d == b@[i]);
                        if c != d {
                            if c < d {
                                assert(differs_below(a@, b@, i));
                                return true;
                            }
                            assert(differs_below(b@, a@, i));
                            proof {
                                lemma_text_lt_asymmetric(b@, a@);
                            }
                            return false;
                        }
                        proof {
                            assert(a@.skip(i).drop_first() =~= a@.skip(i + 1));
                            assert(b@.skip(i).drop_first() =~= b@.skip(i + 1));
                            i = i + 1;
                        }
                    },
                }
            },
        }
    }
}

// ---------------------------------------------------------------------------
// Equality, prefixes and membership
// ---------------------------------------------------------------------------

/// Whether `a` and `b` hold the same characters.
pub fn same_text(a: &str, b: &str) -> (same: bool)
    ensures
        same == (a@ == b@),
{
    let mut left = a.chars();
    let mut right = b.chars();
    let ghost mut i: int = 0;
    loop
        invariant
            0 <= i <= a@.len(),
            i <= b@.len(),
            left.remaining() == a@.skip(i),
            right.remaining() == b@.skip(i),
            forall|j: int| 0 <= j < i ==> a@[j] == b@[j],
        decreases a@.len() - i,
    {
        match (left.next(), right.next()) {
            (None, None) => {
                assert(a@ =~= b@);
                return true;
            },
            (Some(c), Some(d)) => {
                assert(c == a@[i] && d == b@[i]);
                if c != d {
                    return false;
                }
                proof {
                    assert(a@.skip(i).drop_first() =~= a@.skip(i + 1));
                    assert(b@.skip(i).drop_first() =~= b@.skip(i + 1));
                    i = i + 1;
                }
            },
            (None, Some(_)) => {
                return false;
            },
            (Some(_), None) => {
                return false;
            },
        }
    }
}

/// The view of an optional text.
pub open spec fn opt_view(text: Option<String>) -> Option<Seq<char>> {
    match text {
        Some(t) => Some(t@),
        None => None,
    }
}

/// Whether `text` begins with `prefix`.
pub fn starts_with(text: &str, prefix: &str) -> (starts: bool)
    ensures
        starts == prefix@.is_prefix_of(text@),
{
    let mut left = prefix.chars();
    let mut right = text.chars();
    let ghost mut i: int = 0;
    loop
        invariant
            0 <= i <= prefix@.len(),
            i <= text@.len(),
            left.remaining() == prefix@.skip(i),
            right.remaining() == text@.skip(i),
            forall|j: int| 0 <= j < i ==> prefix@[j] == text@[j],
        decreases prefix@.len() - i,
    {
        match left.next() {
            None => {
                assert(prefix@ =~= text@.subrange(0, prefix@.len() as int));
                return true;
            },
            Some(c) => match right.next() {
                None => {
                    return false;
                },
                Some(d) => {
                    assert(c == prefix@[i] && d == text@[i]);
                    if c != d {
                        assert(prefix@.len() <= text@.len() ==> text@.subrange(
                            0,
                            prefix@.len() as int,
                        )[i] == text@[i]);
                        return false;
                    }
                    proof {
                        assert(prefix@.skip(i).drop_first() =~= prefix@.skip(i + 1));
                        assert(text@.skip(i).drop_first() =~= text@.skip(i + 1));
                        i = i + 1;
                    }
                },
            },
        }
    }
}

/// The characters of `text`, one element each.
pub fn characters(text: &str) -> (chars: Vec<char>)
    ensures
        chars@ == text@,
{
    let mut chars: Vec<char> = Vec::new();
    let mut rest = text.chars();
    loop
        invariant
            chars@.len() <= text@.len(),
            chars@ == text@.take(chars@.len() as int),
            rest.remaining() == text@.skip(chars@.len() as int),
        decreases text@.len() - chars@.len(),
    {
        match rest.next() {
            None => {
                assert(text@.take(chars@.len() as int) =~= text@);
                return chars;
            },
            Some(c) => {
                let ghost n = chars@.len() as int;
                chars.push(c);
                proof {
                    assert(text@.skip(n).drop_first() =~= text@.skip(n + 1));
                    assert(text@.take(n).push(text@[n]) =~= text@.take(n + 1));
                }
            },
        }
    }
}

/// Whether `text` holds the character `wanted`.
pub fn has_char(text: &str, wanted: char) -> (has: bool)
    ensures
        has == text@.contains(wanted),
{
    let chars = characters(text);
    let mut i: usize = 0;
    while i < chars.len()
        invariant
            i <= chars.len(),
            chars@ == text@,
            forall|j: int| 0 <= j < i ==> text@[j] != wanted,
        decreases chars.len() - i,
    {
        if chars[i] == wanted {
            assert(text@[i as int] == wanted);
            return true;
        }
        i = i + 1;
    }
    false
}

/// `part` stands in `text` at `at`.
pub open spec fn occurs_at(text: Seq<char>, part: Seq<char>, at: int) -> bool {
    &&& 0 <= at
    &&& at + part.len() <= text.len()
    &&& text.subrange(at, at + part.len()) == part
}

/// `part` stands somewhere in `text`.
pub open spec fn occurs_in(text: Seq<char>, part: Seq<char>) -> bool {
    exists|at: int| occurs_at(text, part, at)
}

/// Whether `part` stands somewhere in `text`.
pub fn has_part(text: &str, part: &str) -> (has: bool)
    ensures
        has == occurs_in(text@, part@),
{
    let hay = characters(text);
    let needle = characters(part);
    if needle.len() > hay.len() {
        return false;
    }
    let last: usize = hay.len() - needle.len();
    let mut at: usize = 0;
    loop
        invariant
            at <= last,
            last == hay@.len() - needle@.len(),
            hay@ == text@,
            needle@ == part@,
            forall|k: int| 0 <= k < at ==> !occurs_at(text@, part@, k),
        decreases last - at,
    {
        let mut j: usize = 0;
        while j < needle.len() && hay[at + j] == needle[j]
            invariant
                j <= needle.len(),
                at <= last,
                last == hay.len() - needle.len(),
                forall|k: int| 0 <= k < j ==> hay@[at + k] == needle@[k],
            decreases needle.len() - j,
        {
            j = j + 1;
        }
        if j == needle.len() {
            assert(text@.subrange(at as int, at + part@.len()) =~= part@);
            assert(occurs_at(text@, part@, at as int));
            return true;
        }
        assert(!occurs_at(text@, part@, at as int)) by {
            assert(text@.subrange(at as int, at + part@.len())[j as int] == text@[at + j]);
        }
        if at == last {
            return false;
        }
        at = at + 1;
    }
}

// ---------------------------------------------------------------------------
// Trimming
// ---------------------------------------------------------------------------

/// The characters with the Unicode property `White_Space`.
pub open spec fn white_space(c: char) -> bool {
    ||| '\u{9}' <= c <= '\u{d}'
    ||| c == '\u{20}'
    ||| c == '\u{85}'
    ||| c == '\u{a0}'
    ||| c == '\u{1680}'
    ||| '\u{2000}' <= c <= '\u{200a}'
    ||| c == '\u{2028}'
    ||| c == '\u{2029}'
    ||| c == '\u{202f}'
    ||| c == '\u{205f}'
    ||| c == '\u{3000}'
}

/// Whether `c` is white space.
pub fn is_white_space(c: char) -> (white: bool)
    ensures
        white == white_space(c),
{
    ('\u{9}' <= c && c <= '\u{d}') || c == '\u{20}' || c == '\u{85}' || c == '\u{a0}' || c
        == '\u{1680}' || ('\u{2000}' <= c && c <= '\u{200a}') || c == '\u{2028}' || c == '\u{2029}'
        || c == '\u{202f}' || c == '\u{205f}' || c == '\u{3000}'
}

/// `text` without its leading white space.
pub open spec fn trimmed_start(text: Seq<char>) -> Seq<char>
    decreases text.len(),
{
    if text.len() > 0 && white_space(text.first()) {
        trimmed_start(text.drop_first())
    } else {
        text
    }
}

/// `text` without its trailing white space.
pub open spec fn trimmed_end(text: Seq<char>) -> Seq<char>
    decreases text.len(),
{
    if text.len() > 0 && white_space(text.last()) {
        trimmed_end(text.drop_last())
    } else {
        text
    }
}

/// `text` without the white space at either end.
pub open spec fn trimmed(text: Seq<char>) -> Seq<char> {
    trimmed_end(trimmed_start(text))
}

/// `text` without the white space at either end.
pub fn trim(text: &str) -> (inner: &str)
    ensures
        inner@ == trimmed(text@),
{
    let chars = characters(text);
    let mut from: usize = 0;
    proof {
        assert(text@.skip(0) =~= text@);
    }
    while from < chars.len() && is_white_space(chars[from])
        invariant
            from <= chars.len(),
            chars@ == text@,
            trimmed_start(text@) == trimmed_start(text@.skip(from as int)),
        decreases chars.len() - from,
    {
        proof {
            assert(text@.skip(from as int).drop_first() =~= text@.skip(from + 1));
        }
        from = from + 1;
    }
    let ghost rest = text@.skip(from as int);
    assert(trimmed_start(text@) == rest) by {
        if from < chars.len() {
            assert(rest.first() == text@[from as int]);
        }
    }
    let mut to: usize = chars.len();
    proof {
        assert(text@.subrange(from as int, to as int) =~= rest);
    }
    while to > from && is_white_space(chars[to - 1])
        invariant
            from <= to <= chars.len(),
            chars@ == text@,
            trimmed_end(rest) == trimmed_end(text@.subrange(from as int, to as int)),
        decreases to,
    {
        proof {
            let part = text@.subrange(from as int, to as int);
            assert(part.last() == text@[to - 1]);
            assert(part.drop_last() =~= text@.subrange(from as int, to - 1));
        }
        to = to - 1;
    }
    proof {
        let part = text@.subrange(from as int, to as int);
        if to > from {
            assert(part.last() == text@[to - 1]);
        }
        assert(trimmed_end(part) == part);
    }
    text.substring_char(from, to)
}

// ---------------------------------------------------------------------------
// Letter case
// ---------------------------------------------------------------------------

/// `text` with every letter in upper case, by Unicode's mapping.
pub uninterp spec fn uppercase(text: Seq<char>) -> Seq<char>;

/// `text` with every letter in lower case, by Unicode's mapping.
pub uninterp spec fn lowercase(text: Seq<char>) -> Seq<char>;

/// `str::to_uppercase`: the result depends on the text alone.
#[verifier::external_body]
pub(crate) fn to_upper(text: &str) -> (upper: String)
    ensures
        upper@ == uppercase(text@),
{
    text.to_uppercase()
}

/// `str::to_lowercase`: the result depends on the text alone, and it is empty
/// for the empty text.
#[verifier::external_body]
pub(crate) fn to_lower(text: &str) -> (lower: String)
    ensures
        lower@ == lowercase(text@),
        text@.len() == 0 ==> lower@.len() == 0,
{
    text.to_lowercase()
}

// ---------------------------------------------------------------------------
// Decimal numerals
// ---------------------------------------------------------------------------

/// `String::push` appends one character.
pub assume_specification[ std::string::String::push ](s: &mut std::string::String, ch: char)
    ensures
        final(s)@ == old(s)@.push(ch),
;

/// The character of the digit `d`.
pub open spec fn digit_char(d: nat) -> char {
    (48 + d) as char
}

/// The decimal numeral of `n`, without leading zeros.
pub open spec fn decimal_text(n: nat) -> Seq<char>
    decreases n,
{
    if n < 10 {
        seq![digit_char(n)]
    } else {
        decimal_text(n / 10).push(digit_char(n % 10))
    }
}

/// Whether `c` is an ASCII decimal digit.
pub open spec fn is_digit(c: char) -> bool {
    '0' <= c <= '9'
}

/// Whether every character of `text` is a decimal digit.
pub open spec fn all_digits(text: Seq<char>) -> bool {
    forall|i: int| 0 <= i < text.len() ==> is_digit(#[trigger] text[i])
}

/// The number that a sequence of digits writes.
pub open spec fn numeral_value(text: Seq<char>) -> int
    decreases text.len(),
{
    if text.len() == 0 {
        0
    } else {
        10 * numeral_value(text.drop_last()) + (text.last() as int - 48)
    }
}

/// `text` without one leading plus sign.
pub open spec fn unsigned_part(text: Seq<char>) -> Seq<char> {
    if text.len() > 0 && text[0] == '+' {
        text.skip(1)
    } else {
        text
    }
}

/// The `u32` that `text` writes: an optional plus sign and at least one digit.
pub open spec fn number_in(text: Seq<char>) -> Option<u32> {
    let digits = unsigned_part(text);
    if digits.len() > 0 && all_digits(digits) && numeral_value(digits) <= u32::MAX {
        Some(numeral_value(digits) as u32)
    } else {
        None
    }
}

/// A numeral writes a number that its decimal text reads back.
pub proof fn lemma_decimal_round_trip(n: nat)
    ensures
        all_digits(decimal_text(n)),
        numeral_value(decimal_text(n)) == n,
        decimal_text(n).len() > 0,
    decreases n,
{
    let text = decimal_text(n);
    if n < 10 {
        assert(text.drop_last() =~= Seq::<char>::empty());
        assert(numeral_value(text.drop_last()) == 0);
    } else {
        lemma_decimal_round_trip(n / 10);
        assert(text.drop_last() =~= decimal_text(n / 10));
    }
}

/// Reading the numeral of a `u32` gives the number back.
pub proof fn lemma_number_in_decimal(n: u32)
    ensures
        number_in(decimal_text(n as nat)) == Some(n),
{
    lemma_decimal_round_trip(n as nat);
    let text = decimal_text(n as nat);
    assert(is_digit(text[0]));
}

/// The decimal numeral of `n`.
pub fn decimal(n: u64) -> (text: String)
    ensures
        text@ == decimal_text(n as nat),
    decreases n,
{
    if n < 10 {
        let mut text = String::new();
        text.push((48 + n as u8) as char);
        assert(text@ =~= seq![digit_char(n as nat)]);
        text
    } else {
        let mut text = decimal(n / 10);
        text.push((48 + (n % 10) as u8) as char);
        text
    }
}

proof fn lemma_numeral_prefix(text: Seq<char>, i: int)
    requires
        all_digits(text),
        0 <= i <= text.len(),
    ensures
        0 <= numeral_value(text.take(i)) <= numeral_value(text),
    decreases text.len(),
{
    if i == text.len() {
        assert(text.take(i) =~= text);
        if text.len() > 0 {
            assert(is_digit(text[text.len() - 1]));
            lemma_numeral_prefix(text.drop_last(), 0);
        }
    } else {
        assert(text.drop_last().take(i) =~= text.take(i));
        assert(all_digits(text.drop_last())) by {
            assert forall|k: int| 0 <= k < text.drop_last().len() implies is_digit(
                #[trigger] text.drop_last()[k],
            ) by {
                assert(is_digit(text[k]));
            }
        }
        lemma_numeral_prefix(text.drop_last(), i);
        assert(is_digit(text[text.len() - 1]));
    }
}

/// Reads `text` as a `u32`.
pub fn parse_number(text: &str) -> (number: Option<u32>)
    ensures
        number == number_in(text@),
{
    let chars = characters(text);
    let signed: bool = chars.len() > 0 && chars[0] == '+';
    let from: usize = if signed {
        1
    } else {
        0
    };
    let ghost digits = unsigned_part(text@);
    assert(digits =~= text@.skip(from as int));
    if from == chars.len() {
        return None;
    }
    let mut value: u64 = 0;
    let mut i: usize = from;
    while i < chars.len()
        invariant
            from <= i <= chars.len(),
            from < chars.len(),
            chars@ == text@,
            digits == text@.skip(from as int),
            digits == unsigned_part(text@),
            value <= u32::MAX,
            value == numeral_value(digits.take(i - from)),
            forall|k: int| 0 <= k < i - from ==> is_digit(#[trigger] digits[k]),
        decreases chars.len() - i,
    {
        let c: char = chars[i];
        assert(c == digits[i - from]);
        if !('0' <= c && c <= '9') {
            assert(!is_digit(digits[i - from]));
            return None;
        }
        let d: u64 = c as u64 - 48;
        value = value * 10 + d;
        proof {
            let n = i - from;
            assert(digits.take(n + 1).drop_last() =~= digits.take(n));
            assert(digits.take(n + 1).last() == c);
        }
        i = i + 1;
        if value > u32::MAX as u64 {
            proof {
                if all_digits(digits) {
                    lemma_numeral_prefix(digits, i - from);
                }
            }
            return None;
        }
    }
    proof {
        assert(digits.take(i - from) =~= digits);
    }
    Some(value as u32)
}

// ---------------------------------------------------------------------------
// Laws
// ---------------------------------------------------------------------------

/// The first difference decides the order: the smaller character comes first,
/// and so does a text before all that continue it.
pub proof fn law_first_difference_decides(
    common: Seq<char>,
    c: char,
    d: char,
    left: Seq<char>,
    right: Seq<char>,
)
    ensures
        c < d ==> text_lt(common.push(c) + left, common.push(d) + right),
        text_lt(common, common.push(c) + left),
        !text_lt(common.push(c) + left, common),
{
    let a = common.push(c) + left;
    let b = common.push(d) + right;
    let n = common.len() as int;
    if c < d {
        assert(differs_below(a, b, n));
    }
    assert(differs_below(common, a, n));
    lemma_text_lt_asymmetric(common, a);
}

/// Whether one text sorts before another is told by the first difference.
pub proof fn law_sorts_before(a: &str, b: &str, before: bool, i: int)
    requires
        call_ensures(sorts_before, (a, b), before),
        0 <= i < a@.len(),
        i < b@.len(),
        a@.take(i) == b@.take(i),
        a@[i] != b@[i],
    ensures
        before <==> a@[i] < b@[i],
{
    assert forall|j: int| 0 <= j < i implies a@[j] == b@[j] by {
        assert(a@.take(i)[j] == a@[j] && b@.take(i)[j] == b@[j]);
    }
    if a@[i] < b@[i] {
        assert(differs_below(a@, b@, i));
    } else {
        assert(differs_below(b@, a@, i));
        lemma_text_lt_asymmetric(b@, a@);
    }
}

/// A part is found exactly where the text is something before it, the part, and
/// something behind it.
pub proof fn law_parts_are_found(text: &str, part: &str, has: bool)
    requires
        call_ensures(has_part, (text, part), has),
    ensures
        has <==> exists|before: Seq<char>, behind: Seq<char>|
            text@ == #[trigger] (before + part@ + behind),
{
    if has {
        let at = choose|at: int| occurs_at(text@, part@, at);
        let before = text@.take(at);
        let behind = text@.skip(at + part@.len());
        assert forall|k: int| at <= k < at + part@.len() implies text@[k] == part@[k - at] by {
            assert(text@.subrange(at, at + part@.len())[k - at] == part@[k - at]);
        }
        assert(text@ =~= before + part@ + behind);
    }
    if exists|before: Seq<char>, behind: Seq<char>|
        text@ == #[trigger] (before + part@ + behind) {
        let (before, behind) = choose|before: Seq<char>, behind: Seq<char>|
            text@ == #[trigger] (before + part@ + behind);
        let at = before.len() as int;
        assert(text@.subrange(at, at + part@.len()) =~= part@);
        assert(occurs_at(text@, part@, at));
    }
}

/// White space by code point: the control characters from tab to carriage
/// return, the space, and Unicode's other spaces and line ends.
pub proof fn law_white_space(c: char, white: bool)
    requires
        call_ensures(is_white_space, (c,), white),
    ensures
        ({
            let code = c as int;
            white <==> (9 <= code <= 13 || code == 32 || code == 0x85 || code == 0xa0 || code
                == 0x1680 || 0x2000 <= code <= 0x200a || code == 0x2028 || code == 0x2029 || code
                == 0x202f || code == 0x205f || code == 0x3000)
        }),
{
}

proof fn lemma_trimmed_start(text: Seq<char>) -> (n: int)
    ensures
        0 <= n <= text.len(),
        trimmed_start(text) == text.skip(n),
        forall|i: int| 0 <= i < n ==> white_space(#[trigger] text[i]),
        n < text.len() ==> !white_space(text[n]),
    decreases text.len(),
{
    if text.len() > 0 && white_space(text.first()) {
        let rest = text.drop_first();
        let m = lemma_trimmed_start(rest);
        assert(rest.skip(m) =~= text.skip(m + 1));
        assert forall|i: int| 0 <= i < m + 1 implies white_space(#[trigger] text[i]) by {
            if i > 0 {
                assert(rest[i - 1] == text[i]);
            }
        }
        m + 1
    } else {
        assert(text.skip(0) =~= text);
        0
    }
}

proof fn lemma_trimmed_end(text: Seq<char>) -> (n: int)
    ensures
        0 <= n <= text.len(),
        trimmed_end(text) == text.take(n),
        forall|i: int| n <= i < text.len() ==> white_space(#[trigger] text[i]),
        n > 0 ==> !white_space(text[n - 1]),
    decreases text.len(),
{
    if text.len() > 0 && white_space(text.last()) {
        let rest = text.drop_last();
        let m = lemma_trimmed_end(rest);
        assert(rest.take(m) =~= text.take(m));
        assert forall|i: int| m <= i < text.len() implies white_space(#[trigger] text[i]) by {
            if i < rest.len() {
                assert(rest[i] == text[i]);
            }
        }
        m
    } else {
        assert(text.take(text.len() as int) =~= text);
        text.len() as int
    }
}

/// Trimming takes white space off both ends and nothing else: what is left
/// stands in one piece in the text, with white space around it, and neither
/// begins nor ends with any.
pub proof fn law_trim_takes_the_ends_off(text: &str, inner: &str)
    requires
        call_ensures(trim, (text,), inner),
    ensures
        inner@.len() > 0 ==> !white_space(inner@[0]) && !white_space(inner@.last()),
        exists|from: int, to: int|
            0 <= from <= to <= text@.len() && inner@ == #[trigger] text@.subrange(from, to) && (
            forall|i: int|
                (0 <= i < from || to <= i < text@.len()) ==> white_space(#[trigger] text@[i])),
{
    let from = lemma_trimmed_start(text@);
    let rest = text@.skip(from);
    let n = lemma_trimmed_end(rest);
    let to = from + n;
    assert(rest.take(n) =~= text@.subrange(from, to));
    assert forall|i: int| (0 <= i < from || to <= i < text@.len()) implies white_space(
        #[trigger] text@[i],
    ) by {
        if i >= to {
            assert(rest[i - from] == text@[i]);
        }
    }
    if n > 0 {
        assert(inner@[0] == rest[0] && rest[0] == text@[from]);
        assert(inner@.last() == rest[n - 1]);
    }
}

/// A number is written digit by digit in base ten: a number below ten is one
/// digit, and another digit behind a numeral makes ten times as much and it.
pub proof fn law_numerals_are_decimal(n: u64, digit: u64, numeral: String, longer: String)
    requires
        0 < n <= u64::MAX / 10 - 1,
        digit < 10,
        call_ensures(decimal, (n,), numeral),
        call_ensures(decimal, ((10 * n + digit) as u64,), longer),
    ensures
        longer@ == numeral@.push((48 + digit) as char),
        n < 10 ==> numeral@ == seq![(48 + n) as char],
{
    let m = 10 * n + digit;
    assert(m / 10 == n && m % 10 == digit);
}

/// A numeral that fits thirty-two bits is read as its number, also behind one
/// plus sign; a text with anything but digits, or without any, is none.
pub proof fn law_numbers_read_back(n: u32, numeral: String, text: &str, number: Option<u32>)
    requires
        call_ensures(decimal, (n as u64,), numeral),
        call_ensures(parse_number, (text,), number),
    ensures
        text@ == numeral@ ==> number == Some(n),
        text@ == seq!['+'] + numeral@ ==> number == Some(n),
        text@.len() == 0 ==> number is None,
        (exists|i: int|
            0 < i < text@.len() && !('0' <= #[trigger] text@[i] <= '9')) ==> number is None,
        text@.len() > 0 && text@[0] != '+' && !('0' <= text@[0] <= '9') ==> number is None,
{
    lemma_number_in_decimal(n);
    let digits = unsigned_part(text@);
    if text@ == seq!['+'] + numeral@ {
        assert(text@.skip(1) =~= numeral@);
        lemma_decimal_round_trip(n as nat);
        assert(is_digit(numeral@[0]));
        assert(unsigned_part(numeral@) == numeral@);
    }
    if exists|i: int| 0 < i < text@.len() && !('0' <= #[trigger] text@[i] <= '9') {
        let i = choose|i: int| 0 < i < text@.len() && !('0' <= #[trigger] text@[i] <= '9');
        if text@[0] == '+' {
            assert(digits[i - 1] == text@[i]);
        } else {
            assert(digits[i] == text@[i]);
        }
    }
    if text@.len() > 0 && text@[0] != '+' && !('0' <= text@[0] <= '9') {
        assert(digits[0] == text@[0]);
    }
}

/// Texts are the same where they have the same characters, a prefix is what a
/// text begins with, and a character is found where it stands.
pub proof fn law_texts_are_compared_by_characters(
    a: &str,
    b: &str,
    same: bool,
    starts: bool,
    c: char,
    has: bool,
    chars: Vec<char>,
)
    requires
        call_ensures(same_text, (a, b), same),
        call_ensures(starts_with, (a, b), starts),
        call_ensures(has_char, (a, c), has),
        call_ensures(characters, (a,), chars),
    ensures
        same <==> a@.len() == b@.len() && forall|i: int|
            0 <= i < a@.len() ==> #[trigger] a@[i] == b@[i],
        starts <==> exists|rest: Seq<char>| a@ == #[trigger] (b@ + rest),
        has <==> exists|i: int| 0 <= i < a@.len() && #[trigger] a@[i] == c,
        chars@.len() == a@.len(),
        forall|i: int| 0 <= i < a@.len() ==> #[trigger] chars@[i] == a@[i],
{
    if a@.len() == b@.len() && forall|i: int| 0 <= i < a@.len() ==> #[trigger] a@[i] == b@[i] {
        assert(a@ =~= b@);
    }
    if b@.is_prefix_of(a@) {
        assert(a@ =~= b@ + a@.skip(b@.len() as int));
    }
    if exists|rest: Seq<char>| a@ == #[trigger] (b@ + rest) {
        let rest = choose|rest: Seq<char>| a@ == #[trigger] (b@ + rest);
        assert(a@.take(b@.len() as int) =~= b@);
    }
    if a@.contains(c) {
        let i = choose|i: int| 0 <= i < a@.len() && a@[i] == c;
        assert(a@[i] == c);
    }
}

} // verus!
