//! Utilities for encoding and decoding varints.

use crate::error::{ErrorView, SharedError};
use crate::reader::ByteReader;
use vstd::arithmetic::power2;
use vstd::prelude::*;

verus! {

/// The varint of `v`: seven bits to a byte, the lowest first, and the high bit
/// set on every byte but the last.
pub open spec fn varint_bytes(v: nat) -> Seq<u8>
    decreases v,
{
    if v < 0x80 {
        seq![v as u8]
    } else {
        seq![(v % 0x80 + 0x80) as u8] + varint_bytes(v / 0x80)
    }
}

/// The number that the low seven bits of each byte of `s` spell, the lowest
/// first.
pub open spec fn varint_value(s: Seq<u8>) -> nat
    decreases s.len(),
{
    if s.len() == 0 {
        0
    } else {
        varint_value(s.drop_last()) + (s.last() % 0x80) as nat * power2::pow2(
            (7 * (s.len() - 1)) as nat,
        )
    }
}

/// How many bytes at the front of `s` have their high bit set.
pub open spec fn continued(s: Seq<u8>) -> nat
    decreases s.len(),
{
    if s.len() == 0 || s[0] < 0x80 {
        0
    } else {
        1 + continued(s.drop_first())
    }
}

/// How many bytes of `s` the decoding of a varint reads: up to the first whose
/// high bit is clear, and never more than ten.
pub open spec fn varint_used(s: Seq<u8>) -> nat {
    if continued(s) >= 10 {
        10
    } else if continued(s) >= s.len() {
        s.len()
    } else {
        continued(s) + 1
    }
}

/// The varint at the front of `s`, with its length. Bits from the 64th on are
/// dropped.
pub open spec fn varint_read(s: Seq<u8>) -> Result<(u64, nat), ErrorView> {
    if continued(s) >= 10 {
        Err(ErrorView::VarIntDecode)
    } else if continued(s) >= s.len() {
        Err(ErrorView::Read)
    } else {
        Ok(
            (
                (varint_value(s.take(varint_used(s) as int)) % 0x1_0000_0000_0000_0000) as u64,
                varint_used(s),
            ),
        )
    }
}

/// Encodes a u64 as a varint: the bytes stand at the front of the array, and
/// their number beside it.
#[must_use]
pub fn encode_varint(value: u64) -> (r: ([u8; 10], usize))
    ensures
        r.0@.take(r.1 as int) == varint_bytes(value as nat),
        1 <= r.1 <= 10,
        forall|i: int| r.1 <= i < 10 ==> r.0@[i] == 0,
{
    let mut rest: u64 = value;
    let mut index: usize = 0;
    let mut buf: [u8; 10] = [0u8; 10];
    assert(rest <= u64::MAX >> 0u64) by (bit_vector);
    while rest >= 0x80
        invariant
            index <= 9,
            rest <= u64::MAX >> ((7 * index) as u64),
            buf@.take(index as int) + varint_bytes(rest as nat) == varint_bytes(value as nat),
            forall|i: int| index <= i < 10 ==> buf@[i] == 0,
        decreases rest,
    {
        let ghost before = buf@;
        let low: u8 = (rest as u8 & 0x7F) | 0x80;
        assert(low == (rest % 0x80 + 0x80)) by (bit_vector)
            requires
                low == (rest as u8 & 0x7F) | 0x80,
        ;
        proof {
            let i = index as u64;
            assert(i < 9 && (rest >> 7) <= u64::MAX >> ((7 * (i + 1)) as u64) && rest >> 7 == rest
                / 0x80) by (bit_vector)
                requires
                    rest >= 0x80,
                    i <= 9,
                    rest <= u64::MAX >> ((7 * i) as u64),
            ;
        }
        buf[index] = low;
        index = index + 1;
        rest = rest >> 7;
        assert(buf@.take(index as int) =~= before.take(index - 1).push(low));
        assert(buf@.take(index as int) + varint_bytes(rest as nat) =~= before.take(index - 1) + (
        seq![low] + varint_bytes(rest as nat)));
    }
    let ghost before = buf@;
    let last: u8 = rest as u8;
    assert(last == rest) by (bit_vector)
        requires
            last == rest as u8,
            rest < 0x80,
    ;
    buf[index] = last;
    index = index + 1;
    assert(buf@.take(index as int) =~= before.take(index - 1) + seq![last]);
    (buf, index)
}

/// What is known of the bytes that precede the end of a run of set high bits.
proof fn lemma_continued(s: Seq<u8>, n: int)
    requires
        0 <= n <= s.len(),
        forall|i: int| 0 <= i < n ==> s[i] >= 0x80,
    ensures
        continued(s) >= n,
        n < s.len() && s[n] < 0x80 ==> continued(s) == n,
        n == s.len() ==> continued(s) == n,
    decreases n,
{
    if n > 0 {
        assert forall|i: int| 0 <= i < n - 1 implies s.drop_first()[i] >= 0x80 by {
            assert(s.drop_first()[i] == s[i + 1]);
        }
        lemma_continued(s.drop_first(), n - 1);
    }
}

/// One step of decoding: what setting the bits of the next byte makes of the
/// value so far.
proof fn lemma_decode_step(acc: u64, byte: u8, i: u64)
    requires
        i <= 9,
        acc < power2::pow2((7 * i) as nat),
    ensures
        (acc | ((byte & 0x7f) as u64) << ((7 * i) as u64)) == (acc + (byte % 0x80) as nat
            * power2::pow2((7 * i) as nat)) % 0x1_0000_0000_0000_0000,
        i < 9 ==> acc + (byte % 0x80) as nat * power2::pow2((7 * i) as nat) < power2::pow2(
            (7 * (i + 1)) as nat,
        ) <= 0x1_0000_0000_0000_0000,
{
    let x = byte % 0x80;
    assert(byte & 0x7f == byte % 0x80) by (bit_vector);
    let e = (7 * i) as nat;
    let p = power2::pow2(e);
    power2::lemma_pow2_adds(e, 7);
    power2::lemma2_to64();
    power2::lemma2_to64_rest();
    let sh = (7 * i) as u64;
    if i < 9 {
        assert(acc + x as nat * p < p * 128) by (nonlinear_arith)
            requires
                acc < p,
                x <= 127,
        ;
        if e < 63 {
            power2::lemma_pow2_strictly_increases(e, 63);
        }
        assert(p * 128 <= 0x8000_0000_0000_0000) by {
            if e + 7 < 63 {
                power2::lemma_pow2_strictly_increases(e + 7, 63);
            }
        }
        assert(x as nat * p <= 127 * p) by (nonlinear_arith)
            requires
                x <= 127,
        ;
        vstd::bits::lemma_u64_shl_is_mul(x as u64, sh);
        vstd::bits::lemma_u64_shl_is_mul(1, sh);
        assert((acc | (x as u64) << sh) == acc + ((x as u64) << sh)) by (bit_vector)
            requires
                acc < 1u64 << sh,
                sh <= 56,
                x < 128,
        ;
    } else {
        let q = (x as u64) << 63;
        assert((x % 2 == 0 ==> q == 0) && (x % 2 == 1 ==> q == 0x8000_0000_0000_0000)) by (bit_vector)
            requires
                q == (x as u64) << 63,
        ;
        assert((acc | q) == acc + q) by (bit_vector)
            requires
                acc < 0x8000_0000_0000_0000,
                q == 0 || q == 0x8000_0000_0000_0000,
        ;
        assert(x as nat * p == x as nat * 0x8000_0000_0000_0000);
        vstd::arithmetic::div_mod::lemma_fundamental_div_mod_converse(
            acc + x as nat * p,
            0x1_0000_0000_0000_0000,
            (x / 2) as int,
            acc + q,
        );
    }
}

/// Decodes a varint from a stream, while also writing the bytes that were read
/// to a buffer.
pub fn decode_varint(stream: &mut ByteReader, buf: &mut Vec<u8>) -> (r: Result<
    (u64, usize),
    SharedError,
>)
    ensures
        match r {
            Ok((value, len)) => varint_read(old(stream)@) == Ok::<(u64, nat), ErrorView>(
                (value, len as nat),
            ),
            Err(e) => varint_read(old(stream)@) == Err::<(u64, nat), ErrorView>(e@),
        },
        final(stream)@ == old(stream)@.skip(varint_used(old(stream)@) as int),
        final(buf)@ == old(buf)@ + old(stream)@.take(varint_used(old(stream)@) as int),
{
    let ghost s = stream@;
    let mut result: u64 = 0;
    let mut i: u64 = 0;
    assert(s.take(0) =~= Seq::<u8>::empty());
    assert(s.skip(0) =~= s);
    assert(buf@ + s.take(0) =~= buf@);
    proof {
        power2::lemma2_to64();
    }
    while i < 10
        invariant
            s == old(stream)@,
            i <= 10,
            i <= s.len(),
            forall|k: int| 0 <= k < i ==> s[k] >= 0x80,
            i <= 9 ==> result == varint_value(s.take(i as int)) && result < power2::pow2(
                (7 * i) as nat,
            ),
            stream@ == s.skip(i as int),
            buf@ == old(buf)@ + s.take(i as int),
        decreases 10 - i,
    {
        let byte = match stream.read_u8() {
            Ok(b) => b,
            Err(e) => {
                proof {
                    lemma_continued(s, i as int);
                }
                return Err(e);
            },
        };
        let ghost next = s.take(i + 1);
        proof {
            lemma_decode_step(result, byte, i);
            assert(next.drop_last() =~= s.take(i as int));
            assert(next.last() == byte);
            assert(stream@ =~= s.skip(i + 1));
        }
        buf.push(byte);
        assert(buf@ =~= old(buf)@ + s.take(i + 1));
        result = result | ((byte & 0x7f) as u64) << (7 * i);
        assert((byte & 0x80 == 0) == (byte < 0x80)) by (bit_vector);
        if byte & 0x80 == 0 {
            proof {
                lemma_continued(s, i as int);
            }
            return Ok((result, i as usize + 1));
        }
        proof {
            if i < 9 {
                vstd::arithmetic::div_mod::lemma_small_mod(
                    varint_value(next),
                    0x1_0000_0000_0000_0000,
                );
            }
        }
        i = i + 1;
    }
    proof {
        lemma_continued(s, 10);
    }
    Err(SharedError::VarIntDecode)
}

/// Bytes put in front of `s` with their low seven bits count 0x80 times less
/// than those behind them.
proof fn lemma_value_prepend(b: u8, s: Seq<u8>)
    ensures
        varint_value(seq![b] + s) == (b % 0x80) as nat + 0x80 * varint_value(s),
    decreases s.len(),
{
    let whole = seq![b] + s;
    power2::lemma2_to64();
    if s.len() == 0 {
        assert(whole.drop_last() =~= Seq::<u8>::empty());
        assert(s =~= Seq::<u8>::empty());
        assert(varint_value(Seq::<u8>::empty()) == 0);
        assert(whole.last() == b);
        assert((b % 0x80) as nat * power2::pow2(0) == (b % 0x80) as nat) by (nonlinear_arith)
            requires
                power2::pow2(0) == 1,
        ;
    } else {
        lemma_value_prepend(b, s.drop_last());
        assert(whole.drop_last() =~= seq![b] + s.drop_last());
        let e = (7 * (s.len() - 1)) as nat;
        power2::lemma_pow2_adds(e, 7);
        assert(whole.last() == s.last());
        assert((7 * (whole.len() - 1)) as nat == e + 7);
        let x = (s.last() % 0x80) as nat;
        let p = power2::pow2(e);
        assert(x * (p * 0x80) == 0x80 * (x * p)) by (nonlinear_arith);
        assert(0x80 * (varint_value(s.drop_last()) + x * p) == 0x80 * varint_value(s.drop_last())
            + 0x80 * (x * p)) by (nonlinear_arith);
    }
}

/// The form of a varint: its value, and its high bits.
proof fn lemma_varint_bytes(v: nat)
    ensures
        varint_value(varint_bytes(v)) == v,
        varint_bytes(v).len() >= 1,
        forall|i: int| 0 <= i < varint_bytes(v).len() - 1 ==> varint_bytes(v)[i] >= 0x80,
        varint_bytes(v).last() < 0x80,
    decreases v,
{
    let b = varint_bytes(v);
    power2::lemma2_to64();
    if v < 0x80 {
        lemma_value_prepend(v as u8, Seq::<u8>::empty());
        assert(b =~= seq![v as u8] + Seq::<u8>::empty());
    } else {
        let tail = varint_bytes(v / 0x80);
        lemma_varint_bytes(v / 0x80);
        lemma_value_prepend((v % 0x80 + 0x80) as u8, tail);
        assert forall|i: int| 0 <= i < b.len() - 1 implies b[i] >= 0x80 by {
            if i > 0 {
                assert(b[i] == tail[i - 1]);
            }
        }
        assert(b.last() == tail.last());
    }
}

/// A number of at most 7 * n bits takes at most n bytes.
proof fn lemma_varint_len(v: nat, n: nat)
    requires
        n >= 1,
        v < power2::pow2(7 * n),
    ensures
        varint_bytes(v).len() <= n,
    decreases n,
{
    power2::lemma2_to64();
    if v >= 0x80 {
        assert(n > 1);
        let m = (n - 1) as nat;
        power2::lemma_pow2_adds(7 * m, 7);
        assert(v / 0x80 < power2::pow2(7 * m));
        lemma_varint_len(v / 0x80, m);
    }
}

/// What is decoded is what was encoded, whatever follows it.
pub proof fn law_varint_round_trip(value: u64, rest: Seq<u8>)
    ensures
        varint_read(varint_bytes(value as nat) + rest) == Ok::<(u64, nat), ErrorView>(
            (value, varint_bytes(value as nat).len()),
        ),
        varint_used(varint_bytes(value as nat) + rest) == varint_bytes(value as nat).len(),
{
    let v = value as nat;
    let b = varint_bytes(v);
    let s = b + rest;
    lemma_varint_bytes(v);
    power2::lemma2_to64_rest();
    power2::lemma_pow2_strictly_increases(64, 70);
    lemma_varint_len(v, 10);
    let n = b.len() - 1;
    assert forall|i: int| 0 <= i < n implies s[i] >= 0x80 by {
        assert(s[i] == b[i]);
    }
    assert(s[n] == b.last());
    lemma_continued(s, n);
    assert(s.take(n + 1) =~= b);
}

/// A varint of a u64 takes between one and ten bytes.
pub proof fn law_varint_length(value: u64)
    ensures
        1 <= varint_bytes(value as nat).len() <= 10,
{
    lemma_varint_bytes(value as nat);
    power2::lemma2_to64_rest();
    power2::lemma_pow2_strictly_increases(64, 70);
    lemma_varint_len(value as nat, 10);
}

/// The run of set high bits at the front of `s`, as its positions.
proof fn lemma_continued_run(s: Seq<u8>)
    ensures
        continued(s) <= s.len(),
        forall|i: int| 0 <= i < continued(s) ==> s[i] >= 0x80,
        continued(s) < s.len() ==> s[continued(s) as int] < 0x80,
    decreases s.len(),
{
    if s.len() > 0 && s[0] >= 0x80 {
        lemma_continued_run(s.drop_first());
        assert forall|i: int| 0 <= i < continued(s) implies s[i] >= 0x80 by {
            if i > 0 {
                assert(s[i] == s.drop_first()[i - 1]);
            }
        }
    }
}

/// A varint that does not run into the end of what has been received is read
/// in the same way once more has been received.
pub proof fn law_varint_prefix(s: Seq<u8>, more: Seq<u8>)
    ensures
        varint_used(s) <= s.len(),
        varint_read(s) != Err::<(u64, nat), ErrorView>(ErrorView::Read) ==> varint_read(s + more)
            == varint_read(s) && varint_used(s + more) == varint_used(s),
{
    lemma_continued_run(s);
    if varint_read(s) != Err::<(u64, nat), ErrorView>(ErrorView::Read) {
        let n = continued(s) as int;
        let whole = s + more;
        assert forall|i: int| 0 <= i < n implies whole[i] >= 0x80 by {
            assert(whole[i] == s[i]);
        }
        if n < s.len() {
            assert(whole[n] == s[n]);
        }
        lemma_continued(whole, n);
        assert(whole.take(varint_used(s) as int) =~= s.take(varint_used(s) as int));
    }
}

/// A varint is read byte by byte: one whose high bit is clear ends it, and one
/// whose high bit is set puts its seven other bits below what follows. None has
/// more than ten bytes, and none ends where there are no more bytes.
pub proof fn law_varint_is_read_byte_by_byte(b: u8, s: Seq<u8>)
    ensures
        varint_read(Seq::<u8>::empty()) == Err::<(u64, nat), ErrorView>(ErrorView::Read),
        b < 0x80 ==> varint_read(seq![b] + s) == Ok::<(u64, nat), ErrorView>((b as u64, 1)),
        b >= 0x80 ==> varint_read(seq![b] + s) == match varint_read(s) {
            Ok((v, n)) => if n < 10 {
                Ok::<(u64, nat), ErrorView>(
                    (((b - 0x80 + 0x80 * v) % 0x1_0000_0000_0000_0000) as u64, n + 1),
                )
            } else {
                Err(ErrorView::VarIntDecode)
            },
            Err(e) => if e == ErrorView::Read && s.len() < 9 {
                Err(ErrorView::Read)
            } else {
                Err(ErrorView::VarIntDecode)
            },
        },
{
    let whole = seq![b] + s;
    assert(whole.drop_first() =~= s);
    lemma_continued_run(s);
    if b < 0x80 {
        assert(continued(whole) == 0);
        assert(whole.take(1) =~= seq![b] + Seq::<u8>::empty());
        lemma_value_prepend(b, Seq::<u8>::empty());
    } else {
        assert(continued(whole) == 1 + continued(s));
        if continued(s) < 9 && continued(s) < s.len() {
            let n = varint_used(s) as int;
            let front = s.take(n);
            assert(whole.take(n + 1) =~= seq![b] + front);
            lemma_value_prepend(b, front);
            let v = varint_value(front);
            assert(b % 0x80 == b - 0x80);
            assert((b - 0x80 + 0x80 * v) % 0x1_0000_0000_0000_0000 == (b - 0x80 + 0x80 * (v
                % 0x1_0000_0000_0000_0000)) % 0x1_0000_0000_0000_0000);
        }
    }
}

/// The varint of a number is as short as it can be: its last byte is 0 only for
/// the number 0, which takes one byte.
pub proof fn law_varint_is_short(value: u64)
    ensures
        value == 0 <==> varint_bytes(value as nat).last() == 0,
        value < 0x80 <==> varint_bytes(value as nat).len() == 1,
{
    lemma_varint_shortest(value as nat);
}

proof fn lemma_varint_shortest(v: nat)
    ensures
        varint_bytes(v).len() > 0,
        v == 0 <==> varint_bytes(v).last() == 0,
        v < 0x80 <==> varint_bytes(v).len() == 1,
    decreases v,
{
    if v >= 0x80 {
        lemma_varint_shortest(v / 0x80);
    }
}

} // verus!
