//! How numbers and addresses are written, and which numbers are read.

use crate::net;
use crate::net::{IpAddr, Peer, SocketAddr};
use crate::text;
use crate::text::{decimal, parse_u16};
use vstd::prelude::*;

verus! {

/// Numbers are written in decimal: a digit for itself, and another digit behind
/// any number but 0 for ten times that number and the digit.
pub proof fn law_decimals_are_written(n: nat, d: nat)
    requires
        d < 10,
    ensures
        text::decimal_text(d) == seq!["0123456789"@[d as int]],
        n > 0 ==> text::decimal_text(10 * n + d) == text::decimal_text(n) + text::decimal_text(d),
{
    reveal_strlit("0123456789");
    if n > 0 {
        assert((10 * n + d) / 10 == n && (10 * n + d) % 10 == d);
    }
}

proof fn lemma_zeros_count_nothing(zeros: nat, s: Seq<char>)
    ensures
        text::decimal_value(Seq::new(zeros, |i: int| '0') + s) == text::decimal_value(s),
    decreases s.len(), zeros,
{
    let all = Seq::new(zeros, |i: int| '0') + s;
    if s.len() > 0 {
        assert(all.drop_last() =~= Seq::new(zeros, |i: int| '0') + s.drop_last());
        lemma_zeros_count_nothing(zeros, s.drop_last());
    } else if zeros > 0 {
        let fewer = (zeros - 1) as nat;
        assert(all.drop_last() =~= Seq::new(fewer, |i: int| '0') + s);
        lemma_zeros_count_nothing(fewer, s);
    } else {
        assert(all =~= s);
    }
}

/// A number in decimal is read as a port where it is at most 65535, whatever
/// zeros stand in front of it, and with or without a plus sign in front of all.
pub proof fn law_ports_are_read(n: nat, zeros: nat)
    ensures
        ({
            let digits = Seq::new(zeros, |i: int| '0') + text::decimal_text(n);
            let read = if n <= 65535 {
                Some(n as u16)
            } else {
                None
            };
            text::u16_text(digits) == read && text::u16_text("+"@ + digits) == read
        }),
{
    reveal_strlit("+");
    let front = Seq::new(zeros, |i: int| '0');
    let written = text::decimal_text(n);
    let digits = front + written;
    text::lemma_decimal_text(n);
    lemma_zeros_count_nothing(zeros, written);
    assert forall|i: int| 0 <= i < digits.len() implies text::is_digit(#[trigger] digits[i]) by {
        if i < zeros {
            assert(digits[i] == '0');
        } else {
            assert(digits[i] == written[i - zeros]);
        }
    }
    assert(text::is_digit(digits[0]));
    assert(("+"@ + digits).skip(1) =~= digits);
}

/// What is empty, or a plus sign alone, or holds anything but digits behind it, is
/// no port.
pub proof fn law_other_texts_are_no_ports(s: Seq<char>, i: int)
    requires
        s.len() == 0 || s == "+"@ || (0 <= i < s.len() && !('0' <= s[i] <= '9') && (i > 0 || s[i]
            != '+')),
    ensures
        text::u16_text(s) is None,
{
    reveal_strlit("+");
    if 0 <= i < s.len() && !('0' <= s[i] <= '9') && (i > 0 || s[i] != '+') {
        let digits = text::without_plus(s);
        if s[0] == '+' {
            assert(digits[i - 1] == s[i]);
            assert(!text::is_digit(digits[i - 1]));
        } else {
            assert(!text::is_digit(digits[i]));
        }
    }
}

/// An address of the fourth version is written as its four octets in decimal, with
/// dots between them, and the port behind a colon.
pub proof fn law_v4_addresses_are_written(a: u8, b: u8, c: u8, d: u8, port: u16, zone: u32)
    ensures
        ({
            let ip = IpAddr::V4((a * 0x1000000 + b * 0x10000 + c * 0x100 + d) as u32);
            let addr = SocketAddr { ip, port };
            let written = text::decimal_text(a as nat) + "."@ + text::decimal_text(b as nat) + "."@
                + text::decimal_text(c as nat) + "."@ + text::decimal_text(d as nat);
            &&& ip.text() == written
            &&& addr.text() == written + ":"@ + text::decimal_text(port as nat)
            &&& (Peer { addr, zone }).text() == addr.text()
        }),
{
    reveal_strlit(".");
    reveal_with_fuel(net::octets, 5);
    let v = (a * 0x1000000 + b * 0x10000 + c * 0x100 + d) as nat;
    assert(v % 0x100 == d && v / 0x100 == a * 0x10000 + b * 0x100 + c);
    let v3 = v / 0x100;
    assert(v3 % 0x100 == c && v3 / 0x100 == a * 0x100 + b);
    let v2 = v3 / 0x100;
    assert(v2 % 0x100 == b && v2 / 0x100 == a);
    let o = net::octets(v, 4);
    assert(o =~= seq![a, b, c, d]);
    let written = text::decimal_text(a as nat) + "."@ + text::decimal_text(b as nat) + "."@
        + text::decimal_text(c as nat) + "."@ + text::decimal_text(d as nat);
    assert(net::v4_text(v as u32) =~= written);
}

/// Numbers are written in hexadecimal with small letters: a digit for itself, and
/// another digit behind any number but 0 for sixteen times that number and the
/// digit.
pub proof fn law_hexadecimals_are_written(n: nat, d: nat)
    requires
        d < 16,
    ensures
        net::hex_text(d) == seq!["0123456789abcdef"@[d as int]],
        n > 0 ==> net::hex_text(16 * n + d) == net::hex_text(n) + net::hex_text(d),
{
    reveal_strlit("0123456789abcdef");
    if n > 0 {
        assert((16 * n + d) / 16 == n && (16 * n + d) % 16 == d);
    }
}

/// Segments in hexadecimal, with colons between them.
pub open spec fn with_colons(s: Seq<u16>) -> Seq<char>
    decreases s.len(),
{
    if s.len() == 0 {
        Seq::empty()
    } else if s.len() == 1 {
        net::hex_text(s[0] as nat)
    } else {
        net::hex_text(s[0] as nat) + ":"@ + with_colons(s.drop_first())
    }
}

proof fn lemma_with_colons(s: Seq<u16>)
    ensures
        net::joined(s) == with_colons(s),
    decreases s.len(),
{
    reveal_strlit(":");
    if s.len() == 2 {
        reveal_with_fuel(net::joined, 3);
        reveal_with_fuel(with_colons, 3);
        assert(net::joined(s) =~= with_colons(s));
    } else if s.len() > 2 {
        let front = s.drop_last();
        let back = s.drop_first();
        let inner = front.drop_first();
        assert(inner =~= back.drop_last());
        lemma_with_colons(front);
        lemma_with_colons(back);
        lemma_with_colons(inner);
        assert(net::joined(s) =~= with_colons(front).push(':') + net::hex_text(s.last() as nat));
        assert(with_colons(front) == net::hex_text(s[0] as nat) + ":"@ + with_colons(inner));
        assert(with_colons(back) == net::joined(inner).push(':') + net::hex_text(s.last() as nat));
        assert(net::joined(s) =~= with_colons(s));
    }
}

/// The number of an address of the sixth version with these segments.
pub open spec fn number_of(s: Seq<u16>) -> nat
    decreases s.len(),
{
    if s.len() == 0 {
        0
    } else {
        number_of(s.drop_last()) * 0x10000 + s.last() as nat
    }
}

proof fn lemma_segments(s: Seq<u16>)
    ensures
        net::segments(number_of(s), s.len()) == s,
    decreases s.len(),
{
    if s.len() > 0 {
        lemma_segments(s.drop_last());
        let v = number_of(s);
        assert(v / 0x10000 == number_of(s.drop_last()) && v % 0x10000 == s.last());
        assert(net::segments(v, s.len()) =~= s);
    } else {
        assert(net::segments(0, 0) =~= s);
    }
}

/// Whether zeros stand in `s` from `i` on, `n` of them.
pub open spec fn has_zeros(s: Seq<u16>, i: int, n: int) -> bool {
    0 <= i && i + n <= s.len() && forall|j: int| i <= j < i + n ==> #[trigger] s[j] == 0
}

proof fn lemma_zeros_from(s: Seq<u16>, i: int)
    requires
        0 <= i <= s.len(),
    ensures
        has_zeros(s, i, net::zeros_from(s, i) as int),
        i + net::zeros_from(s, i) < s.len() ==> s[i + net::zeros_from(s, i)] != 0,
    decreases s.len() - i,
{
    if i < s.len() && s[i] == 0 {
        lemma_zeros_from(s, i + 1);
    }
}

proof fn lemma_longest_zeros(s: Seq<u16>, n: nat)
    ensures
        ({
            let (start, len) = net::longest_zeros(s, n);
            &&& forall|i: int| 0 <= i < n ==> #[trigger] net::zeros_from(s, i) <= len
            &&& len == 0 ==> start == 0
            &&& len > 0 ==> start < n && net::zeros_from(s, start as int) == len && forall|i: int|
                0 <= i < start ==> #[trigger] net::zeros_from(s, i) < len
        }),
    decreases n,
{
    if n > 0 {
        lemma_longest_zeros(s, (n - 1) as nat);
    }
}

/// Whether an address of the sixth version stands for one of the fourth: five
/// zeros, and ffff, in front of it.
pub open spec fn is_mapped(s: Seq<u16>) -> bool {
    has_zeros(s, 0, 5) && s[5] == 0xffff
}

proof fn lemma_numbers(s: Seq<u16>)
    requires
        s.len() == 8,
    ensures
        number_of(s) <= u128::MAX,
        number_of(s) / 0x1_0000_0000 == 0xffff <==> is_mapped(s),
        number_of(s) % 0x1_0000_0000 == s[6] * 0x10000 + s[7],
{
    reveal_with_fuel(number_of, 9);
    let s7 = s.drop_last();
    let s6 = s7.drop_last();
    let s5 = s6.drop_last();
    let s4 = s5.drop_last();
    let s3 = s4.drop_last();
    let s2 = s3.drop_last();
    let s1 = s2.drop_last();
    assert(s1.drop_last() =~= Seq::<u16>::empty());
    assert(number_of(s1) == s[0]);
    assert(number_of(s2) == number_of(s1) * 0x10000 + s[1]);
    assert(number_of(s3) == number_of(s2) * 0x10000 + s[2]);
    assert(number_of(s4) == number_of(s3) * 0x10000 + s[3]);
    assert(number_of(s5) == number_of(s4) * 0x10000 + s[4]);
    assert(number_of(s6) == number_of(s5) * 0x10000 + s[5]);
    assert(number_of(s) == number_of(s6) * 0x1_0000_0000 + s[6] * 0x10000 + s[7]);
    assert(number_of(s) / 0x1_0000_0000 == number_of(s6));
    if number_of(s6) == 0xffff {
        assert(number_of(s5) == 0 && s[5] == 0xffff);
        assert(number_of(s4) == 0 && s[4] == 0);
        assert(number_of(s3) == 0 && s[3] == 0);
        assert(number_of(s2) == 0 && s[2] == 0);
        assert(number_of(s1) == 0 && s[1] == 0);
    }
    if is_mapped(s) {
        assert(s[0] == 0 && s[1] == 0 && s[2] == 0 && s[3] == 0 && s[4] == 0);
    }
}

/// An address of the sixth version without neighbouring zeros is written as its
/// eight segments in hexadecimal, with colons between them.
pub proof fn law_v6_addresses_are_written(s: Seq<u16>)
    requires
        s.len() == 8,
        forall|i: int| 0 <= i < 7 ==> !has_zeros(s, i, 2),
    ensures
        IpAddr::V6(number_of(s) as u128).text() == with_colons(s),
{
    lemma_segments(s);
    lemma_numbers(s);
    lemma_longest_zeros(s, 8);
    lemma_with_colons(s);
    let (start, len) = net::longest_zeros(s, 8);
    if len > 1 {
        lemma_zeros_from(s, start as int);
        assert(has_zeros(s, start as int, 2));
    }
    if is_mapped(s) {
        assert(has_zeros(s, 0, 2));
    }
}

/// Of an address of the sixth version, the longest row of two or more zeros, the
/// first of several, is written as two colons.
pub proof fn law_v6_zeros_are_left_out(s: Seq<u16>, start: int, len: int)
    requires
        s.len() == 8,
        !is_mapped(s),
        len >= 2,
        has_zeros(s, start, len),
        forall|i: int, n: int| #[trigger]
            has_zeros(s, i, n) ==> n <= len && (n == len ==> start <= i),
    ensures
        IpAddr::V6(number_of(s) as u128).text() == with_colons(s.take(start)) + "::"@
            + with_colons(s.skip(start + len)),
{
    lemma_segments(s);
    lemma_numbers(s);
    lemma_longest_zeros(s, 8);
    lemma_with_colons(s.take(start));
    lemma_with_colons(s.skip(start + len));
    let (first, most) = net::longest_zeros(s, 8);
    lemma_zeros_from(s, start);
    assert(net::zeros_from(s, start) >= len) by {
        let z = net::zeros_from(s, start);
        if z < len {
            assert(s[start + z] == 0);
        }
    }
    lemma_zeros_from(s, first as int);
    assert(has_zeros(s, first as int, most as int));
    assert(first == start && most == len);
}

/// An address of the sixth version that stands for one of the fourth ends in that
/// address.
pub proof fn law_mapped_addresses_are_written(s: Seq<u16>)
    requires
        s.len() == 8,
        is_mapped(s),
    ensures
        IpAddr::V6(number_of(s) as u128).text() == "::ffff:"@ + IpAddr::V4(
            (s[6] * 0x10000 + s[7]) as u32,
        ).text(),
{
    lemma_numbers(s);
}

/// The port of an address of the sixth version stands behind brackets around the
/// address, and the zone of the other end of a connection, where it has one, in
/// them.
pub proof fn law_v6_ports_are_written(v: u128, port: u16, zone: u32)
    ensures
        ({
            let ip = IpAddr::V6(v);
            let addr = SocketAddr { ip, port };
            let behind = "]:"@ + text::decimal_text(port as nat);
            &&& addr.text() == "["@ + ip.text() + behind
            &&& (Peer { addr, zone }).text() == if zone == 0 {
                addr.text()
            } else {
                "["@ + ip.text() + "%"@ + text::decimal_text(zone as nat) + behind
            }
        }),
{
    let ip = IpAddr::V6(v);
    let addr = SocketAddr { ip, port };
    let behind = "]:"@ + text::decimal_text(port as nat);
    assert(addr.text() =~= "["@ + ip.text() + behind);
    assert("["@ + ip.text() + "%"@ + text::decimal_text(zone as nat) + behind =~= "["@ + ip.text()
        + "%"@ + text::decimal_text(zone as nat) + "]:"@ + text::decimal_text(port as nat));
}

/// What is said here of numbers and addresses is said of what is written and read.
pub proof fn law_addresses_are_written_so(
    n: u64,
    number: String,
    port: &str,
    read: Option<u16>,
    ip: IpAddr,
    host: String,
    addr: SocketAddr,
    place: String,
    peer: Peer,
    other: String,
)
    requires
        call_ensures(decimal, (n,), number),
        call_ensures(parse_u16, (port,), read),
        call_ensures(IpAddr::to_text, (&ip,), host),
        call_ensures(SocketAddr::to_text, (&addr,), place),
        call_ensures(Peer::to_text, (&peer,), other),
    ensures
        number@ == text::decimal_text(n as nat),
        read == text::u16_text(port@),
        host@ == ip.text(),
        place@ == addr.text(),
        other@ == peer.text(),
{
}

} // verus!
