//! Text: what the protocols and the screens need of strings.

use vstd::prelude::*;
use vstd::string::StringExecFns;
use vstd::utf8;

verus! {

/// `std::str::from_utf8`: the text that `bytes` encode, or `None` where they are
/// not UTF-8.
#[verifier::external_body]
pub(crate) fn utf8_text(bytes: &[u8]) -> (r: Option<&str>)
    ensures
        r is Some <==> utf8::valid_utf8(bytes@),
        r matches Some(s) ==> s@ == utf8::decode_utf8(bytes@),
{
    std::str::from_utf8(bytes).ok()
}

/// `String::push` appends a character.
pub assume_specification[ String::push ](s: &mut String, c: char)
    ensures
        final(s)@ == old(s)@.push(c),
;

/// `String::clear` removes all characters.
pub assume_specification[ String::clear ](s: &mut String)
    ensures
        final(s)@ == Seq::<char>::empty(),
;

/// `String::insert` puts a character at a byte position, which on ASCII text is
/// a character position. It panics on a position behind the end.
pub assume_specification[ String::insert ](s: &mut String, idx: usize, c: char)
    requires
        utf8::is_ascii_chars(old(s)@),
        idx <= old(s)@.len(),
    ensures
        final(s)@ == old(s)@.insert(idx as int, c),
;

/// `String::insert_str` puts text at a byte position, which on ASCII text is a
/// character position. It panics on a position behind the end.
pub assume_specification[ String::insert_str ](s: &mut String, idx: usize, string: &str)
    requires
        utf8::is_ascii_chars(old(s)@),
        idx <= old(s)@.len(),
    ensures
        final(s)@ == old(s)@.take(idx as int) + string@ + old(s)@.skip(idx as int),
;

/// `String::remove` takes out the character at a byte position, which on ASCII
/// text is a character position. It panics where there is none.
pub assume_specification[ String::remove ](s: &mut String, idx: usize) -> (c: char)
    requires
        utf8::is_ascii_chars(old(s)@),
        idx < old(s)@.len(),
    ensures
        c == old(s)@[idx as int],
        final(s)@ == old(s)@.remove(idx as int),
;

/// Two pieces of text in a row.
pub fn concat(a: &str, b: &str) -> (r: String)
    ensures
        r@ == a@ + b@,
{
    let mut s = a.to_owned();
    s.append(b);
    s
}

/// Three pieces of text in a row.
pub fn concat3(a: &str, b: &str, c: &str) -> (r: String)
    ensures
        r@ == a@ + b@ + c@,
{
    let mut s = concat(a, b);
    s.append(c);
    s
}

/// Equal bytes mean equal text.
pub proof fn lemma_encode_injective(a: Seq<char>, b: Seq<char>)
    ensures
        utf8::encode_utf8(a) == utf8::encode_utf8(b) <==> a == b,
{
    utf8::encode_utf8_decode_utf8(a);
    utf8::encode_utf8_decode_utf8(b);
}

/// The bytes of two pieces of text in a row are those of the first and those of
/// the second.
pub proof fn lemma_encode_concat(a: Seq<char>, b: Seq<char>)
    ensures
        utf8::encode_utf8(a + b) == utf8::encode_utf8(a) + utf8::encode_utf8(b),
    decreases a.len(),
{
    if a.len() == 0 {
        assert(a + b =~= b);
        assert(utf8::encode_utf8(a) + utf8::encode_utf8(b) =~= utf8::encode_utf8(b));
    } else {
        assert((a + b).drop_first() =~= a.drop_first() + b);
        lemma_encode_concat(a.drop_first(), b);
        assert(utf8::encode_utf8(a + b) =~= utf8::encode_utf8(a) + utf8::encode_utf8(b));
    }
}

/// Whether two slices hold the same bytes.
pub fn bytes_eq(a: &[u8], b: &[u8]) -> (r: bool)
    ensures
        r == (a@ == b@),
{
    if a.len() != b.len() {
        return false;
    }
    let mut i: usize = 0;
    while i < a.len()
        invariant
            a@.len() == b@.len(),
            i <= a@.len(),
            a@.take(i as int) == b@.take(i as int),
        decreases a@.len() - i,
    {
        if a[i] != b[i] {
            assert(a@[i as int] != b@[i as int]);
            return false;
        }
        i = i + 1;
        assert(a@.take(i as int) =~= a@.take(i - 1).push(a@[i - 1]));
        assert(b@.take(i as int) =~= b@.take(i - 1).push(b@[i - 1]));
    }
    assert(a@.take(a@.len() as int) =~= a@);
    assert(b@.take(b@.len() as int) =~= b@);
    true
}

/// Whether two pieces of text are the same.
pub fn text_eq(a: &str, b: &str) -> (r: bool)
    ensures
        r == (a@ == b@),
{
    proof {
        lemma_encode_injective(a@, b@);
    }
    bytes_eq(a.as_bytes(), b.as_bytes())
}

/// Whether `s` ends with `end`.
pub open spec fn ends_with(s: Seq<u8>, end: Seq<u8>) -> bool {
    end.len() <= s.len() && s.skip(s.len() - end.len()) == end
}

/// Whether the bytes of `s` end with those of `end`.
pub fn text_ends_with(s: &str, end: &str) -> (r: bool)
    ensures
        r == ends_with(utf8::encode_utf8(s@), utf8::encode_utf8(end@)),
{
    let a = s.as_bytes();
    let b = end.as_bytes();
    if b.len() > a.len() {
        return false;
    }
    let tail = vstd::slice::slice_subrange(a, a.len() - b.len(), a.len());
    assert(tail@ =~= a@.skip(a@.len() - b@.len()));
    bytes_eq(tail, b)
}

/// The character of a decimal digit.
pub open spec fn digit_char(d: nat) -> char {
    (0x30 + d) as char
}

/// A number in decimal.
pub open spec fn decimal_text(n: nat) -> Seq<char>
    decreases n,
{
    if n < 10 {
        seq![digit_char(n)]
    } else {
        decimal_text(n / 10).push(digit_char(n % 10))
    }
}

/// Writes a number in decimal.
pub fn decimal(n: u64) -> (r: String)
    ensures
        r@ == decimal_text(n as nat),
    decreases n,
{
    let digit: u8 = 0x30 + (n % 10) as u8;
    if n < 10 {
        let mut s = String::new();
        s.push(digit as char);
        assert(s@ =~= decimal_text(n as nat));
        s
    } else {
        let mut s = decimal(n / 10);
        s.push(digit as char);
        s
    }
}

/// Whether a character is a decimal digit.
pub open spec fn is_digit(c: char) -> bool {
    '0' <= c <= '9'
}

/// The number that decimal digits spell.
pub open spec fn decimal_value(s: Seq<char>) -> nat
    decreases s.len(),
{
    if s.len() == 0 {
        0
    } else {
        decimal_value(s.drop_last()) * 10 + (s.last() as u32 - 0x30) as nat
    }
}

/// `s` without the plus sign in front of it, if there is one.
pub open spec fn without_plus(s: Seq<char>) -> Seq<char> {
    if s.len() > 0 && s[0] == '+' {
        s.skip(1)
    } else {
        s
    }
}

/// The number that `s` spells in decimal, with or without a plus sign in front,
/// where it is one of at most sixteen bits.
pub open spec fn u16_text(s: Seq<char>) -> Option<u16> {
    let digits = without_plus(s);
    if digits.len() > 0 && (forall|i: int| 0 <= i < digits.len() ==> is_digit(#[trigger] digits[i]))
        && decimal_value(digits) <= 0xffff {
        Some(decimal_value(digits) as u16)
    } else {
        None
    }
}

/// More digits never spell less.
proof fn lemma_decimal_grows(s: Seq<char>, n: int)
    requires
        0 <= n <= s.len(),
        forall|i: int| 0 <= i < s.len() ==> is_digit(#[trigger] s[i]),
    ensures
        decimal_value(s.take(n)) <= decimal_value(s),
    decreases s.len(),
{
    if n < s.len() {
        lemma_decimal_grows(s.drop_last(), n);
        assert(s.drop_last().take(n) =~= s.take(n));
    } else {
        assert(s.take(n) =~= s);
    }
}

/// Reads a number of at most sixteen bits.
pub fn parse_u16(s: &str) -> (r: Option<u16>)
    ensures
        r == u16_text(s@),
{
    let ghost plus = s@.len() > 0 && s@[0] == '+';
    let ghost digits = without_plus(s@);
    if !s.is_ascii() {
        proof {
            let i = choose|i: int| 0 <= i < s@.len() && !('\0' <= #[trigger] s@[i] <= '\u{7f}');
            if plus {
                assert(i > 0);
                assert(digits[i - 1] == s@[i]);
                assert(!is_digit(digits[i - 1]));
            } else {
                assert(!is_digit(digits[i]));
            }
        }
        return None;
    }
    let b = s.as_bytes();
    assert(b@.len() == s@.len());
    assert(forall|i: int| 0 <= i < s@.len() ==> b@[i] == s@[i] as u8);
    let start: usize = if b.len() > 0 && b[0] == 0x2b {
        1
    } else {
        0
    };
    assert((start == 1) == plus);
    assert(digits =~= s@.skip(start as int));
    if b.len() == start {
        return None;
    }
    let mut value: u32 = 0;
    let mut i: usize = start;
    assert(digits.take(0) =~= Seq::<char>::empty());
    while i < b.len()
        invariant
            b@.len() == s@.len(),
            forall|k: int|
                0 <= k < s@.len() ==> b@[k] == #[trigger] s@[k] as u8 && '\0' <= s@[k] <= '\u{7f}',
            start <= i <= b@.len(),
            start <= 1,
            digits == s@.skip(start as int),
            digits == without_plus(s@),
            forall|k: int| 0 <= k < i - start ==> is_digit(#[trigger] digits[k]),
            value == decimal_value(digits.take(i - start)),
            value <= 0xffff,
        decreases b@.len() - i,
    {
        let c = b[i];
        assert(digits[i - start] == s@[i as int]);
        let ghost ch: char = s@[i as int];
        assert(c == ch as u8);
        assert(ch as u32 <= 0x7f);
        assert(c == ch as u32);
        if c < 0x30 || c > 0x39 {
            assert(!is_digit(digits[i - start]));
            return None;
        }
        value = value * 10 + (c - 0x30) as u32;
        i = i + 1;
        let ghost front = digits.take(i - start);
        assert(front.drop_last() =~= digits.take(i - start - 1));
        assert(front.last() == digits[i - start - 1]);
        if value > 0xffff {
            proof {
                if forall|k: int| 0 <= k < digits.len() ==> is_digit(#[trigger] digits[k]) {
                    lemma_decimal_grows(digits, i - start);
                }
            }
            return None;
        }
    }
    assert(digits.take(i - start) =~= digits);
    Some(value as u16)
}

/// What is written in decimal consists of digits, and spells the number.
pub proof fn lemma_decimal_text(n: nat)
    ensures
        decimal_text(n).len() > 0,
        forall|i: int| 0 <= i < decimal_text(n).len() ==> is_digit(#[trigger] decimal_text(n)[i]),
        decimal_value(decimal_text(n)) == n,
    decreases n,
{
    let d = n % 10;
    let c = digit_char(d);
    assert('0' <= c <= '9');
    assert(c as u32 - 0x30 == d);
    if n < 10 {
        let s = decimal_text(n);
        assert(s.drop_last() =~= Seq::<char>::empty());
        assert(decimal_value(s.drop_last()) == 0);
    } else {
        lemma_decimal_text(n / 10);
        assert(decimal_text(n).drop_last() =~= decimal_text(n / 10));
    }
}

/// A port that is written in decimal is read as it was written.
pub proof fn law_port_round_trip(port: u16)
    ensures
        u16_text(decimal_text(port as nat)) == Some(port),
{
    lemma_decimal_text(port as nat);
    assert(is_digit(decimal_text(port as nat)[0]));
}

} // verus!
