//! Text helpers: decimal numbers, comparison and ordering of strings by their UTF-8 bytes.

use vstd::prelude::*;
use vstd::string::*;
use vstd::utf8::*;

verus! {

/// `String::push` appends one character at the end.
pub assume_specification[ String::push ](text: &mut String, ch: char)
    ensures
        final(text)@ == old(text)@.push(ch),
;

/// The character of a decimal digit.
pub open spec fn digit_char(digit: nat) -> char {
    (('0' as u32 + digit) as u32) as char
}

/// A number in decimal, without leading zeros.
pub open spec fn decimal(n: nat) -> Seq<char>
    decreases n,
{
    if n < 10 {
        seq![digit_char(n)]
    } else {
        decimal(n / 10).push(digit_char(n % 10))
    }
}

/// The character for a digit below ten.
fn digit_to_char(digit: u8) -> (ch: char)
    requires
        digit < 10,
    ensures
        ch == digit_char(digit as nat),
{
    (48u8 + digit) as char
}

/// Writes a number in decimal.
pub fn decimal_text(n: u128) -> (text: String)
    ensures
        text@ == decimal(n as nat),
    decreases n,
{
    if n < 10 {
        let mut text = String::new();
        text.push(digit_to_char(n as u8));
        assert(text@ =~= seq![digit_char(n as nat)]);
        text
    } else {
        let mut text = decimal_text(n / 10);
        text.push(digit_to_char((n % 10) as u8));
        text
    }
}

/// Whether a character is one of the ten ASCII digits.
pub open spec fn is_digit(ch: char) -> bool {
    '0' <= ch && ch <= '9'
}

/// The value of an ASCII digit.
pub open spec fn digit_value(ch: char) -> nat {
    (ch as u32 - '0' as u32) as nat
}

/// The value that a run of digits spells.
pub open spec fn digits_value(digits: Seq<char>) -> nat
    decreases digits.len(),
{
    if digits.len() == 0 {
        0
    } else {
        digits_value(digits.drop_last()) * 10 + digit_value(digits.last())
    }
}

/// What is left of a number's text once one leading plus sign is taken off.
pub open spec fn unsigned_digits(text: Seq<char>) -> Seq<char> {
    if text.len() > 0 && text[0] == '+' {
        text.skip(1)
    } else {
        text
    }
}

/// The number that a text spells: an optional plus sign followed by one or more digits, with a
/// value of at most `max`.
pub open spec fn parse_number(text: Seq<char>, max: nat) -> Option<nat> {
    let digits = unsigned_digits(text);
    if digits.len() > 0 && (forall|i: int| 0 <= i < digits.len() ==> is_digit(#[trigger] digits[i]))
        && digits_value(digits) <= max {
        Some(digits_value(digits))
    } else {
        None
    }
}

proof fn lemma_digits_prefix_is_smaller(digits: Seq<char>, n: int)
    requires
        0 <= n <= digits.len(),
    ensures
        digits_value(digits.take(n)) <= digits_value(digits),
    decreases digits.len() - n,
{
    if n < digits.len() {
        lemma_digits_prefix_is_smaller(digits, n + 1);
        assert(digits.take(n + 1).drop_last() =~= digits.take(n));
    } else {
        assert(digits.take(n) =~= digits);
    }
}

/// The characters of a string, in order.
pub fn text_chars(text: &str) -> (chars: Vec<char>)
    ensures
        chars@ == text@,
{
    let mut chars: Vec<char> = Vec::new();
    for ch in it: text.chars()
        invariant
            chars@ == text@.take(it.index()),
            it.seq() == text@,
    {
        chars.push(ch);
        assert(text@.take(it.index() + 1) =~= text@.take(it.index()).push(ch));
    }
    assert(text@.take(text@.len() as int) =~= text@);
    chars
}

/// Reads an unsigned decimal number of at most `max`; a leading plus sign is accepted.
pub fn parse_unsigned(text: &str, max: u64) -> (number: Option<u64>)
    ensures
        match number {
            Some(n) => parse_number(text@, max as nat) == Some(n as nat),
            None => parse_number(text@, max as nat) is None,
        },
{
    let chars = text_chars(text);
    let start: usize = if chars.len() > 0 && chars[0] == '+' {
        1
    } else {
        0
    };
    let ghost digits = unsigned_digits(text@);
    assert(digits =~= text@.skip(start as int));
    if chars.len() == start {
        return None;
    }
    let mut value: u64 = 0;
    let mut i: usize = start;
    assert(digits.take(0) =~= Seq::<char>::empty());
    while i < chars.len()
        invariant
            chars@ == text@,
            digits == unsigned_digits(text@),
            digits == text@.skip(start as int),
            start <= i <= chars.len(),
            start < chars.len(),
            forall|j: int| 0 <= j < i - start ==> is_digit(#[trigger] digits[j]),
            value == digits_value(digits.take(i - start)),
            value <= max,
        decreases chars.len() - i,
    {
        let ch = chars[i];
        assert(ch == digits[i - start]);
        if !('0' <= ch && ch <= '9') {
            return None;
        }
        let digit: u64 = ((ch as u32) - 48u32) as u64;
        let wide: u128 = (value as u128) * 10 + (digit as u128);
        proof {
            assert(digits.take(i - start + 1).drop_last() =~= digits.take(i - start));
            assert(digits.take(i - start + 1).last() == ch);
            lemma_digits_prefix_is_smaller(digits, i - start + 1);
        }
        if wide > max as u128 {
            return None;
        }
        value = wide as u64;
        i = i + 1;
    }
    assert(digits.take(digits.len() as int) =~= digits);
    Some(value)
}

/// Strings with the same UTF-8 bytes are the same string.
pub proof fn lemma_same_bytes_same_text(a: Seq<char>, b: Seq<char>)
    requires
        encode_utf8(a) == encode_utf8(b),
    ensures
        a == b,
{
    encode_utf8_decode_utf8(a);
    encode_utf8_decode_utf8(b);
}

/// The place at which `a` goes before `b`: up to `i` they agree, and there `a` either ends or
/// holds the smaller byte.
pub open spec fn goes_before_at(a: Seq<u8>, b: Seq<u8>, i: int) -> bool {
    &&& 0 <= i <= a.len()
    &&& i < b.len()
    &&& forall|j: int| 0 <= j < i ==> a[j] == #[trigger] b[j]
    &&& i == a.len() || a[i] < b[i]
}

/// The lexicographic order of byte strings.
pub open spec fn bytes_before(a: Seq<u8>, b: Seq<u8>) -> bool {
    exists|i: int| goes_before_at(a, b, i)
}

/// The order of strings: that of their UTF-8 bytes.
pub open spec fn text_before(a: Seq<char>, b: Seq<char>) -> bool {
    bytes_before(encode_utf8(a), encode_utf8(b))
}

/// How two strings lie to each other.
#[derive(Clone, Copy, Debug, PartialEq, Eq)]
pub enum TextOrder {
    Before,
    Same,
    After,
}

/// No string goes before itself, and of two strings at most one goes before the other.
pub proof fn lemma_text_order_is_strict(a: Seq<char>, b: Seq<char>)
    ensures
        !text_before(a, a),
        !(text_before(a, b) && text_before(b, a)),
{
    let x = encode_utf8(a);
    let y = encode_utf8(b);
    if bytes_before(x, y) && bytes_before(y, x) {
        let i = choose|i: int| goes_before_at(x, y, i);
        let j = choose|j: int| goes_before_at(y, x, j);
        assert(goes_before_at(x, y, i) && goes_before_at(y, x, j));
        if i < j {
            assert(y[i] == x[i]);
        } else if j < i {
            assert(x[j] == y[j]);
        }
    }
    if bytes_before(x, x) {
        let i = choose|i: int| goes_before_at(x, x, i);
        assert(goes_before_at(x, x, i));
    }
}

/// The order of strings is transitive.
pub proof fn lemma_text_order_is_transitive(a: Seq<char>, b: Seq<char>, c: Seq<char>)
    requires
        text_before(a, b),
        text_before(b, c),
    ensures
        text_before(a, c),
{
    let x = encode_utf8(a);
    let y = encode_utf8(b);
    let z = encode_utf8(c);
    let i = choose|i: int| goes_before_at(x, y, i);
    let j = choose|j: int| goes_before_at(y, z, j);
    assert(goes_before_at(x, y, i) && goes_before_at(y, z, j));
    let k = if i < j {
        i
    } else {
        j
    };
    assert forall|m: int| 0 <= m < k implies x[m] == #[trigger] z[m] by {
        assert(x[m] == y[m]);
        assert(y[m] == z[m]);
    }
    if i < j {
        assert(y[i] == z[i]);
    } else if j < i {
        assert(x[j] == y[j]);
    }
    assert(goes_before_at(x, z, k));
}

/// Of two strings one goes before the other, unless they are the same.
pub fn order_text(a: &str, b: &str) -> (order: TextOrder)
    ensures
        match order {
            TextOrder::Before => text_before(a@, b@),
            TextOrder::Same => a@ == b@,
            TextOrder::After => text_before(b@, a@),
        },
{
    let x = a.as_bytes();
    let y = b.as_bytes();
    let mut i: usize = 0;
    while i < x.len() && i < y.len()
        invariant
            x@ == encode_utf8(a@),
            y@ == encode_utf8(b@),
            i <= x.len(),
            i <= y.len(),
            forall|j: int| 0 <= j < i ==> x@[j] == #[trigger] y@[j],
            forall|j: int| 0 <= j < i ==> y@[j] == #[trigger] x@[j],
        decreases x.len() - i,
    {
        if x[i] < y[i] {
            assert(goes_before_at(x@, y@, i as int));
            return TextOrder::Before;
        }
        if y[i] < x[i] {
            assert(goes_before_at(y@, x@, i as int));
            return TextOrder::After;
        }
        i = i + 1;
    }
    if i < y.len() {
        assert(goes_before_at(x@, y@, i as int));
        TextOrder::Before
    } else if i < x.len() {
        assert(goes_before_at(y@, x@, i as int));
        TextOrder::After
    } else {
        assert(x@ =~= y@);
        proof {
            lemma_same_bytes_same_text(a@, b@);
        }
        TextOrder::Same
    }
}

/// Whether two strings hold the same characters.
pub fn same_text(a: &str, b: &str) -> (same: bool)
    ensures
        same == (a@ == b@),
{
    let order = order_text(a, b);
    proof {
        lemma_text_order_is_strict(a@, b@);
        lemma_text_order_is_strict(b@, a@);
    }
    match order {
        TextOrder::Same => true,
        TextOrder::Before => false,
        TextOrder::After => false,
    }
}

/// Whether a string begins with another.
pub open spec fn has_prefix(text: Seq<char>, prefix: Seq<char>) -> bool {
    prefix.len() <= text.len() && text.take(prefix.len() as int) == prefix
}

/// What follows a prefix, where the string begins with it.
pub open spec fn after_prefix(text: Seq<char>, prefix: Seq<char>) -> Option<Seq<char>> {
    if has_prefix(text, prefix) {
        Some(text.skip(prefix.len() as int))
    } else {
        None
    }
}

/// Takes a prefix off a string.
pub fn value_after_prefix(text: &str, prefix: &str) -> (value: Option<String>)
    ensures
        match value {
            Some(rest) => after_prefix(text@, prefix@) == Some(rest@),
            None => after_prefix(text@, prefix@) is None,
        },
{
    let n = prefix.unicode_len();
    let total = text.unicode_len();
    if total < n {
        return None;
    }
    let head = text.substring_char(0, n);
    assert(text@.subrange(0, n as int) =~= text@.take(n as int));
    if same_text(head, prefix) {
        let rest = text.substring_char(n, total);
        assert(text@.subrange(n as int, total as int) =~= text@.skip(n as int));
        Some(rest.to_owned())
    } else {
        None
    }
}

/// Taking a prefix off what begins with it leaves the rest.
pub proof fn law_prefix_comes_off(prefix: Seq<char>, value: Seq<char>)
    ensures
        after_prefix(prefix + value, prefix) == Some(value),
{
    assert((prefix + value).take(prefix.len() as int) =~= prefix);
    assert((prefix + value).skip(prefix.len() as int) =~= value);
}

/// What begins with one prefix does not begin with another that differs from it somewhere.
pub proof fn lemma_other_prefix(prefix: Seq<char>, value: Seq<char>, other: Seq<char>, i: int)
    requires
        0 <= i < prefix.len(),
        i < other.len(),
        prefix[i] != other[i],
    ensures
        after_prefix(prefix + value, other) is None,
{
    if has_prefix(prefix + value, other) {
        assert((prefix + value).take(other.len() as int)[i] == other[i]);
    }
}

proof fn lemma_decimal(n: nat)
    ensures
        decimal(n).len() > 0,
        forall|i: int| 0 <= i < decimal(n).len() ==> is_digit(#[trigger] decimal(n)[i]),
        digits_value(decimal(n)) == n,
    decreases n,
{
    let last = digit_char(n % 10);
    assert(is_digit(last) && digit_value(last) == n % 10);
    if n < 10 {
        assert(decimal(n).drop_last() =~= Seq::<char>::empty());
        assert(digits_value(decimal(n).drop_last()) == 0);
        assert(decimal(n).last() == last);
    } else {
        lemma_decimal(n / 10);
        assert(decimal(n).drop_last() =~= decimal(n / 10));
        assert forall|i: int| 0 <= i < decimal(n).len() implies is_digit(#[trigger] decimal(n)[i]) by {
            if i < decimal(n / 10).len() {
                assert(decimal(n)[i] == decimal(n / 10)[i]);
            }
        }
    }
}

/// A number that was written in decimal is read back, with or without a plus sign and leading
/// zeros; and it is read only up to the limit.
pub proof fn law_decimal_is_read_back(n: nat, max: nat)
    ensures
        parse_number(decimal(n), max) == if n <= max {
            Some(n)
        } else {
            None
        },
        parse_number(seq!['+'] + decimal(n), max) == parse_number(decimal(n), max),
        parse_number(seq!['0'] + decimal(n), max) == parse_number(decimal(n), max),
        decimal(n).len() > 1 ==> decimal(n)[0] != '0',
    decreases n,
{
    lemma_decimal(n);
    let digits = decimal(n);
    assert(is_digit(digits[0]));
    assert((seq!['+'] + digits).skip(1) =~= digits);
    let padded = seq!['0'] + digits;
    lemma_leading_zero(digits);
    assert(padded[0] == '0');
    assert forall|i: int| 0 <= i < padded.len() implies is_digit(#[trigger] padded[i]) by {
        if i > 0 {
            assert(padded[i] == digits[i - 1]);
        }
    }
    if n >= 10 {
        law_decimal_is_read_back(n / 10, max);
        assert(digits[0] == decimal(n / 10)[0]);
        if n / 10 < 10 {
            assert(decimal(n / 10)[0] == digit_char(n / 10));
            assert(digit_value(digit_char(n / 10)) == n / 10);
            assert(digit_value('0') == 0);
        } else {
            lemma_decimal(n / 10 / 10);
            assert(decimal(n / 10).len() > 1);
        }
    }
}

proof fn lemma_leading_zero(digits: Seq<char>)
    ensures
        digits_value(seq!['0'] + digits) == digits_value(digits),
    decreases digits.len(),
{
    let padded = seq!['0'] + digits;
    if digits.len() == 0 {
        assert(padded.drop_last() =~= Seq::<char>::empty());
        assert(padded.last() == '0');
        assert(digits_value(padded.drop_last()) == 0);
        assert(digits_value(padded) == digits_value(padded.drop_last()) * 10 + digit_value('0'));
    } else {
        lemma_leading_zero(digits.drop_last());
        assert(padded.drop_last() =~= seq!['0'] + digits.drop_last());
        assert(padded.last() == digits.last());
    }
}

/// Only digits make a number: a text is read as a number only if it is not empty and, but for one
/// plus sign before all else, holds nothing but digits; and one more digit makes ten times the
/// number and that digit.
pub proof fn law_numbers_are_made_of_digits(text: Seq<char>, digit: char, max: nat)
    ensures
        parse_number(text, max) is Some ==> {
            &&& text.len() > 0
            &&& text != seq!['+']
            &&& forall|i: int|
                0 <= i < text.len() ==> '0' <= #[trigger] text[i] <= '9' || i == 0 && text[i] == '+'
        },
        parse_number(text, max) matches Some(n) ==> parse_number(text.push(digit), max) == if '0'
            <= digit <= '9' && n * 10 + (digit as u32 - '0' as u32) <= max {
            Some((n * 10 + (digit as u32 - '0' as u32)) as nat)
        } else {
            None
        },
{
    let digits = unsigned_digits(text);
    if parse_number(text, max) is Some {
        assert forall|i: int| 0 <= i < text.len() implies '0' <= #[trigger] text[i] <= '9' || i == 0
            && text[i] == '+' by {
            if text[0] == '+' {
                if i > 0 {
                    assert(is_digit(digits[i - 1]));
                }
            } else {
                assert(is_digit(digits[i]));
            }
        }
        let longer = unsigned_digits(text.push(digit));
        assert(longer =~= digits.push(digit));
        assert(longer.drop_last() =~= digits);
        assert(longer[digits.len() as int] == digit);
        if is_digit(digit) {
            assert forall|i: int| 0 <= i < longer.len() implies is_digit(#[trigger] longer[i]) by {
                if i < digits.len() {
                    assert(longer[i] == digits[i]);
                }
            }
        }
    }
}

/// The order of byte strings is decided where they first differ, by the smaller byte, whatever
/// follows and however long it is; and a string goes before all that it begins.
pub proof fn law_first_difference_decides(
    shared: Seq<u8>,
    low: u8,
    high: u8,
    after_low: Seq<u8>,
    after_high: Seq<u8>,
)
    requires
        low < high,
    ensures
        bytes_before(shared.push(low) + after_low, shared.push(high) + after_high),
        !bytes_before(shared.push(high) + after_high, shared.push(low) + after_low),
        bytes_before(shared, shared.push(low) + after_low),
        !bytes_before(shared.push(low) + after_low, shared),
{
    let a = shared.push(low) + after_low;
    let b = shared.push(high) + after_high;
    let n = shared.len() as int;
    assert(a[n] == low && b[n] == high);
    assert forall|j: int| 0 <= j < n implies a[j] == #[trigger] b[j] by {}
    assert(goes_before_at(a, b, n));
    if bytes_before(b, a) {
        let i = choose|i: int| goes_before_at(b, a, i);
        assert(goes_before_at(b, a, i));
        if i < n {
            assert(a[i] == b[i]);
        } else if i > n {
            assert(b[n] == a[n]);
        }
    }
    assert forall|j: int| 0 <= j < n implies shared[j] == #[trigger] a[j] by {}
    assert(goes_before_at(shared, a, n));
    if bytes_before(a, shared) {
        let i = choose|i: int| goes_before_at(a, shared, i);
        assert(goes_before_at(a, shared, i));
        assert(a[i] == shared[i]);
    }
}

/// Texts are told apart: two texts are found the same exactly if they are, character for
/// character, and of two others one goes before the other, by their bytes.
pub proof fn law_texts_are_told_apart(a: &str, b: &str, same: bool, order: TextOrder)
    requires
        call_ensures(same_text, (a, b), same),
        call_ensures(order_text, (a, b), order),
    ensures
        same <==> a@ == b@,
        order == TextOrder::Same <==> same,
        order == TextOrder::Before <==> bytes_before(encode_utf8(a@), encode_utf8(b@)),
        order == TextOrder::After <==> bytes_before(encode_utf8(b@), encode_utf8(a@)),
{
    lemma_text_order_is_strict(a@, b@);
    lemma_text_order_is_strict(b@, a@);
}

/// A written number is read back, and what is no number is not.
pub proof fn law_written_numbers_are_read_back(
    n: u64,
    text: String,
    copy: &str,
    max: u64,
    read: Option<u64>,
)
    requires
        call_ensures(decimal_text, (n as u128,), text),
        copy@ == text@,
        call_ensures(parse_unsigned, (copy, max), read),
    ensures
        read == if n <= max {
            Some(n)
        } else {
            None
        },
{
    law_decimal_is_read_back(n as nat, max as nat);
}

} // verus!
