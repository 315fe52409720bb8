//! Addresses, and how they are written.

use crate::text;
use vstd::prelude::*;
use vstd::string::StringExecFns;

verus! {

/// The address of a host, as the number whose bytes are its octets, the most
/// significant first.
#[derive(Debug, Clone, Copy, PartialEq, Eq, Structural, PartialOrd, Ord, Hash)]
pub enum IpAddr {
    V4(u32),
    V6(u128),
}

/// The address of a host, and a port on it.
#[derive(Debug, Clone, Copy, PartialEq, Eq, Structural, PartialOrd, Ord, Hash)]
pub struct SocketAddr {
    pub ip: IpAddr,
    pub port: u16,
}

/// The other end of a connection: its address, and the zone that the address
/// belongs to, where it is one of the sixth version. Zone 0 is none.
#[derive(Debug, Clone, Copy, PartialEq, Eq, Structural, Hash)]
pub struct Peer {
    pub addr: SocketAddr,
    pub zone: u32,
}

/// The last `n` octets of a number, the most significant first.
pub open spec fn octets(v: nat, n: nat) -> Seq<u8>
    decreases n,
{
    if n == 0 {
        Seq::empty()
    } else {
        octets(v / 0x100, (n - 1) as nat).push((v % 0x100) as u8)
    }
}

/// The last `n` groups of sixteen bits of a number, the most significant first.
pub open spec fn segments(v: nat, n: nat) -> Seq<u16>
    decreases n,
{
    if n == 0 {
        Seq::empty()
    } else {
        segments(v / 0x10000, (n - 1) as nat).push((v % 0x10000) as u16)
    }
}

/// The character of a hexadecimal digit.
pub open spec fn hex_char(d: nat) -> char {
    if d < 10 {
        (0x30 + d) as char
    } else {
        (0x57 + d) as char
    }
}

/// A number in hexadecimal.
pub open spec fn hex_text(n: nat) -> Seq<char>
    decreases n,
{
    if n < 16 {
        seq![hex_char(n)]
    } else {
        hex_text(n / 16).push(hex_char(n % 16))
    }
}

/// Segments in hexadecimal, with colons between them.
pub open spec fn joined(s: Seq<u16>) -> Seq<char>
    decreases s.len(),
{
    if s.len() == 0 {
        Seq::empty()
    } else if s.len() == 1 {
        hex_text(s[0] as nat)
    } else {
        joined(s.drop_last()).push(':') + hex_text(s.last() as nat)
    }
}

/// How many zeros stand in a row in `s` from `i` on.
pub open spec fn zeros_from(s: Seq<u16>, i: int) -> nat
    decreases s.len() - i,
{
    if i < 0 || i >= s.len() || s[i] != 0 {
        0
    } else {
        1 + zeros_from(s, i + 1)
    }
}

/// Where the longest row of zeros starts that starts before `n`, the first of
/// several, and how long it is.
pub open spec fn longest_zeros(s: Seq<u16>, n: nat) -> (nat, nat)
    decreases n,
{
    if n == 0 {
        (0, 0)
    } else {
        let (start, len) = longest_zeros(s, (n - 1) as nat);
        if zeros_from(s, n - 1) > len {
            ((n - 1) as nat, zeros_from(s, n - 1))
        } else {
            (start, len)
        }
    }
}

/// Four octets in decimal, with dots between them.
pub open spec fn v4_text(v: u32) -> Seq<char> {
    let o = octets(v as nat, 4);
    text::decimal_text(o[0] as nat).push('.') + text::decimal_text(o[1] as nat).push('.')
        + text::decimal_text(o[2] as nat).push('.') + text::decimal_text(o[3] as nat)
}

/// Eight segments, with the longest row of zeros, if it is one of two or more,
/// written as two colons. An address that stands for one of the fourth version
/// ends in that address.
pub open spec fn v6_text(v: u128) -> Seq<char> {
    let s = segments(v as nat, 8);
    let (start, len) = longest_zeros(s, 8);
    if v / 0x1_0000_0000 == 0xffff {
        "::ffff:"@ + v4_text((v % 0x1_0000_0000) as u32)
    } else if len > 1 {
        joined(s.take(start as int)) + "::"@ + joined(s.skip((start + len) as int))
    } else {
        joined(s)
    }
}

impl IpAddr {
    /// How the address is written.
    pub open spec fn text(self) -> Seq<char> {
        match self {
            IpAddr::V4(v) => v4_text(v),
            IpAddr::V6(v) => v6_text(v),
        }
    }
}

impl SocketAddr {
    /// How the address is written, with the port behind it.
    pub open spec fn text(self) -> Seq<char> {
        match self.ip {
            IpAddr::V4(v) => v4_text(v) + ":"@ + text::decimal_text(self.port as nat),
            IpAddr::V6(v) => "["@ + v6_text(v) + "]:"@ + text::decimal_text(self.port as nat),
        }
    }
}

impl Peer {
    /// How the other end is written.
    pub open spec fn text(self) -> Seq<char> {
        match self.addr.ip {
            IpAddr::V6(v) if self.zone != 0 => "["@ + v6_text(v) + "%"@ + text::decimal_text(
                self.zone as nat,
            ) + "]:"@ + text::decimal_text(self.addr.port as nat),
            _ => self.addr.text(),
        }
    }
}

fn hex(n: u16) -> (r: String)
    ensures
        r@ == hex_text(n as nat),
    decreases n,
{
    let d: u8 = (n % 16) as u8;
    let c: u8 = if d < 10 {
        0x30 + d
    } else {
        0x57 + d
    };
    if n < 16 {
        let mut s = String::new();
        s.push(c as char);
        assert(s@ =~= hex_text(n as nat));
        s
    } else {
        let mut s = hex(n / 16);
        s.push(c as char);
        s
    }
}

fn join_segments(s: &[u16]) -> (r: String)
    ensures
        r@ == joined(s@),
{
    let mut out = String::new();
    let mut i: usize = 0;
    while i < s.len()
        invariant
            i <= s@.len(),
            out@ == joined(s@.take(i as int)),
        decreases s@.len() - i,
    {
        if i > 0 {
            out.push(':');
        }
        let digits = hex(s[i]);
        out.append(digits.as_str());
        let ghost front = s@.take(i + 1);
        assert(front.drop_last() =~= s@.take(i as int));
        assert(i == 0 ==> out@ =~= hex_text(s@[0] as nat));
        i = i + 1;
    }
    assert(s@.take(i as int) =~= s@);
    out
}

fn split_segments(v: u128) -> (r: Vec<u16>)
    ensures
        r@ == segments(v as nat, 8),
{
    split_n(v, 8)
}

fn split_n(v: u128, n: usize) -> (r: Vec<u16>)
    ensures
        r@ == segments(v as nat, n as nat),
    decreases n,
{
    if n == 0 {
        Vec::new()
    } else {
        let mut r = split_n(v / 0x10000, n - 1);
        r.push((v % 0x10000) as u16);
        r
    }
}

proof fn lemma_segments_len(v: nat, n: nat)
    ensures
        segments(v, n).len() == n,
    decreases n,
{
    if n > 0 {
        lemma_segments_len(v / 0x10000, (n - 1) as nat);
    }
}

proof fn lemma_zeros_bound(s: Seq<u16>, i: int)
    ensures
        0 <= i <= s.len() ==> i + zeros_from(s, i) <= s.len(),
    decreases s.len() - i,
{
    if 0 <= i < s.len() && s[i] == 0 {
        lemma_zeros_bound(s, i + 1);
    }
}

proof fn lemma_zeros_run(s: Seq<u16>, i: int, n: nat)
    requires
        0 <= i,
        i + n <= s.len(),
        forall|k: int| i <= k < i + n ==> s[k] == 0,
    ensures
        zeros_from(s, i) == n + zeros_from(s, i + n),
    decreases n,
{
    if n > 0 {
        lemma_zeros_run(s, i + 1, (n - 1) as nat);
    }
}

proof fn lemma_longest_bound(s: Seq<u16>, n: nat)
    requires
        n <= s.len(),
    ensures
        longest_zeros(s, n).0 + longest_zeros(s, n).1 <= s.len(),
    decreases n,
{
    if n > 0 {
        lemma_longest_bound(s, (n - 1) as nat);
        lemma_zeros_bound(s, n - 1);
    }
}

fn count_zeros(s: &[u16], i: usize) -> (r: usize)
    requires
        i <= s@.len(),
    ensures
        r == zeros_from(s@, i as int),
        i + r <= s@.len(),
{
    let mut n: usize = 0;
    while i + n < s.len() && s[i + n] == 0
        invariant
            i + n <= s.len(),
            forall|k: int| i <= k < i + n ==> s@[k] == 0,
        decreases s@.len() - i - n,
    {
        n = n + 1;
    }
    proof {
        lemma_zeros_run(s@, i as int, n as nat);
    }
    n
}

fn find_zeros(s: &[u16]) -> (r: (usize, usize))
    ensures
        (r.0 as nat, r.1 as nat) == longest_zeros(s@, s@.len()),
        r.0 + r.1 <= s@.len(),
{
    let mut start: usize = 0;
    let mut len: usize = 0;
    let mut i: usize = 0;
    while i < s.len()
        invariant
            i <= s@.len(),
            (start as nat, len as nat) == longest_zeros(s@, i as nat),
        decreases s@.len() - i,
    {
        let n: usize = count_zeros(s, i);
        if n > len {
            start = i;
            len = n;
        }
        i = i + 1;
    }
    proof {
        lemma_longest_bound(s@, s@.len());
    }
    (start, len)
}

fn write_v4(v: u32) -> (r: String)
    ensures
        r@ == v4_text(v),
{
    proof {
        reveal_with_fuel(octets, 5);
    }
    let mut s = text::decimal((v / 0x1000000 % 0x100) as u64);
    s.push('.');
    let b = text::decimal((v / 0x10000 % 0x100) as u64);
    s.append(b.as_str());
    s.push('.');
    let c = text::decimal((v / 0x100 % 0x100) as u64);
    s.append(c.as_str());
    s.push('.');
    let d = text::decimal((v % 0x100) as u64);
    s.append(d.as_str());
    assert(s@ =~= v4_text(v));
    s
}

fn write_v6(v: u128) -> (r: String)
    ensures
        r@ == v6_text(v),
{
    if v / 0x1_0000_0000 == 0xffff {
        let tail = write_v4((v % 0x1_0000_0000) as u32);
        return text::concat("::ffff:", tail.as_str());
    }
    let s = split_segments(v);
    proof {
        lemma_segments_len(v as nat, 8);
    }
    let (start, len) = find_zeros(s.as_slice());
    if len > 1 {
        let head = vstd::slice::slice_subrange(s.as_slice(), 0, start);
        let tail = vstd::slice::slice_subrange(s.as_slice(), start + len, s.len());
        assert(head@ =~= s@.take(start as int));
        assert(tail@ =~= s@.skip(start + len));
        let a = join_segments(head);
        let b = join_segments(tail);
        text::concat3(a.as_str(), "::", b.as_str())
    } else {
        join_segments(s.as_slice())
    }
}

impl IpAddr {
    /// Writes the address.
    pub fn to_text(&self) -> (r: String)
        ensures
            r@ == self.text(),
    {
        match *self {
            IpAddr::V4(v) => write_v4(v),
            IpAddr::V6(v) => write_v6(v),
        }
    }
}

impl SocketAddr {
    /// Writes the address, with the port behind it.
    pub fn to_text(&self) -> (r: String)
        ensures
            r@ == self.text(),
    {
        let host = self.ip.to_text();
        let port = text::decimal(self.port as u64);
        match self.ip {
            IpAddr::V4(_) => text::concat3(host.as_str(), ":", port.as_str()),
            IpAddr::V6(_) => {
                let open = text::concat("[", host.as_str());
                text::concat3(open.as_str(), "]:", port.as_str())
            },
        }
    }
}

impl Peer {
    /// Writes the other end.
    pub fn to_text(&self) -> (r: String)
        ensures
            r@ == self.text(),
    {
        match self.addr.ip {
            IpAddr::V6(v) if self.zone != 0 => {
                let host = write_v6(v);
                let zone = text::decimal(self.zone as u64);
                let port = text::decimal(self.addr.port as u64);
                let open = text::concat("[", host.as_str());
                let inner = text::concat3(open.as_str(), "%", zone.as_str());
                text::concat3(inner.as_str(), "]:", port.as_str())
            },
            _ => self.addr.to_text(),
        }
    }
}

} // verus!
