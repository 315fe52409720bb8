//! The servers on the local network, which announce themselves.

use crate::client_impls::menu;
use crate::client_impls::types::{ServerInfo, ServerView};
use crate::net;
use crate::net::IpAddr;
use crate::search;
use crate::text;
use crate::text::{concat3, decimal, parse_u16, text_eq, utf8_text};
use vstd::prelude::*;
use vstd::utf8;

verus! {

/// Whether `part` stands in `s` from `i` on.
pub open spec fn stands_at(s: Seq<char>, part: Seq<char>, i: int) -> bool {
    0 <= i && i + part.len() <= s.len() && s.subrange(i, i + part.len()) == part
}

/// Where `part` stands first in `s`.
pub open spec fn find(s: Seq<char>, part: Seq<char>) -> Option<int> {
    search::first_where(Seq::new(s.len() + 1, |i: int| i), |i: int| stands_at(s, part, i))
}

/// What an announcement says, or why it says nothing.
#[derive(Debug)]
pub enum Announcement {
    /// A server.
    Found(ServerInfo),
    /// It is not text, and is passed over.
    Skipped,
    /// It lacks a mark, which ends the search for servers.
    Broken,
}

/// An [`Announcement`] with its texts as sequences.
pub enum AnnouncementView {
    Found(ServerView),
    Skipped,
    Broken,
}

impl View for Announcement {
    type V = AnnouncementView;

    open spec fn view(&self) -> AnnouncementView {
        match *self {
            Announcement::Found(info) => AnnouncementView::Found(info@),
            Announcement::Skipped => AnnouncementView::Skipped,
            Announcement::Broken => AnnouncementView::Broken,
        }
    }
}

/// The marks around the message of the day and the port.
pub const MOTD_START: &'static str = "[MOTD]";

pub const MOTD_END: &'static str = "[/MOTD]";

pub const ADDR_START: &'static str = "[AD]";

pub const ADDR_END: &'static str = "[/AD]";

/// The port of a server that announces none.
pub const DEFAULT_PORT: u16 = 25565;

/// Where the marks stand, if all are there: those around the message of the day,
/// then those around the port.
pub open spec fn marks(s: Seq<char>) -> Option<(int, int, int, int)> {
    match (find(s, MOTD_START@), find(s, MOTD_END@), find(s, ADDR_START@), find(s, ADDR_END@)) {
        (Some(a), Some(b), Some(c), Some(d)) => Some((a, b, c, d)),
        _ => None,
    }
}

/// Whether no mark that ends something stands before the end of the one that
/// starts it.
pub open spec fn in_order(s: Seq<char>) -> bool {
    marks(s) matches Some((a, b, c, d)) ==> a + MOTD_START@.len() <= b && c + ADDR_START@.len() <= d
}

/// Whether the marks of an announcement are in order.
pub open spec fn announced_in_order(bytes: Seq<u8>) -> bool {
    utf8::valid_utf8(bytes) ==> in_order(utf8::decode_utf8(bytes))
}

/// The server that announced itself with this text.
pub open spec fn announced(s: Seq<char>, from: IpAddr) -> AnnouncementView {
    match marks(s) {
        Some((a, b, c, d)) => {
            let port = match text::u16_text(s.subrange((c + ADDR_START@.len()) as int, d)) {
                Some(port) => port,
                None => DEFAULT_PORT,
            };
            AnnouncementView::Found(
                ServerView {
                    motd: s.subrange((a + MOTD_START@.len()) as int, b),
                    ip: from.text() + ":"@ + text::decimal_text(port as nat),
                },
            )
        },
        None => AnnouncementView::Broken,
    }
}

/// What an announcement says.
pub open spec fn announcement(bytes: Seq<u8>, from: IpAddr) -> AnnouncementView {
    if utf8::valid_utf8(bytes) {
        announced(utf8::decode_utf8(bytes), from)
    } else {
        AnnouncementView::Skipped
    }
}

/// The characters of a text.
fn characters(s: &str) -> (r: Vec<char>)
    ensures
        r@ == s@,
{
    let mut out: Vec<char> = Vec::new();
    for c in it: s.chars()
        invariant
            it.seq() == s@,
            out@ == s@.take(it.index() as int),
    {
        assert(s@.take(it.index() + 1) =~= s@.take(it.index() as int).push(c));
        out.push(c);
    }
    assert(s@.take(s@.len() as int) =~= s@);
    out
}

/// Whether `part` stands in `s` from `i` on.
fn is_at(s: &Vec<char>, part: &Vec<char>, i: usize) -> (r: bool)
    requires
        i <= s@.len(),
    ensures
        r == stands_at(s@, part@, i as int),
{
    if part.len() > s.len() - i {
        return false;
    }
    let ghost sub = s@.subrange(i as int, i + part@.len());
    let mut k: usize = 0;
    while k < part.len()
        invariant
            k <= part@.len(),
            i + part@.len() <= s.len(),
            sub == s@.subrange(i as int, i + part@.len()),
            forall|j: int| 0 <= j < k ==> sub[j] == part@[j],
        decreases part@.len() - k,
    {
        if s[i + k] != part[k] {
            assert(sub[k as int] != part@[k as int]);
            return false;
        }
        k = k + 1;
    }
    assert(sub =~= part@);
    true
}

/// Where `part` stands first in `s`.
fn find_text(s: &Vec<char>, part: &str) -> (r: Option<usize>)
    ensures
        match r {
            Some(i) => find(s@, part@) == Some(i as int) && i + part@.len() <= s@.len(),
            None => find(s@, part@) is None,
        },
{
    let p = characters(part);
    let ghost places = Seq::new(s@.len() + 1, |i: int| i);
    let ghost here = |i: int| stands_at(s@, part@, i);
    let mut i: usize = 0;
    loop
        invariant
            i <= s@.len(),
            p@ == part@,
            places == Seq::new(s@.len() + 1, |i: int| i),
            here == (|i: int| stands_at(s@, part@, i)),
            forall|j: int| 0 <= j < i ==> !here(#[trigger] places[j]),
        decreases s@.len() - i,
    {
        assert(places[i as int] == i);
        if is_at(s, &p, i) {
            proof {
                search::lemma_found(places, here, i as int);
            }
            return Some(i);
        }
        if i == s.len() {
            proof {
                search::lemma_absent(places, here);
            }
            return None;
        }
        i = i + 1;
    }
}

/// The characters of `s` from `start` to before `end`.
fn cut(s: &Vec<char>, start: usize, end: usize) -> (r: String)
    requires
        start <= end <= s@.len(),
    ensures
        r@ == s@.subrange(start as int, end as int),
{
    let mut out = String::new();
    let mut i: usize = start;
    assert(s@.subrange(start as int, start as int) =~= Seq::<char>::empty());
    while i < end
        invariant
            start <= i <= end <= s@.len(),
            out@ == s@.subrange(start as int, i as int),
        decreases end - i,
    {
        out.push(s[i]);
        i = i + 1;
        assert(s@.subrange(start as int, i as int) =~= s@.subrange(start as int, i - 1).push(
            s@[i - 1],
        ));
    }
    out
}

/// Where the marks stand, if all are there.
fn find_marks(s: &Vec<char>) -> (r: Option<(usize, usize, usize, usize)>)
    ensures
        match r {
            Some((a, b, c, d)) => marks(s@) == Some((a as int, b as int, c as int, d as int)) && a
                + MOTD_START@.len() <= s@.len() && b <= s@.len() && c + ADDR_START@.len()
                <= s@.len() && d <= s@.len(),
            None => marks(s@) is None,
        },
{
    let a: usize = match find_text(s, MOTD_START) {
        Some(i) => i,
        None => return None,
    };
    let b: usize = match find_text(s, MOTD_END) {
        Some(i) => i,
        None => return None,
    };
    let c: usize = match find_text(s, ADDR_START) {
        Some(i) => i,
        None => return None,
    };
    let d: usize = match find_text(s, ADDR_END) {
        Some(i) => i,
        None => return None,
    };
    Some((a, b, c, d))
}

/// Whether the marks of an announcement are in order.
pub fn is_in_order(bytes: &[u8]) -> (r: bool)
    ensures
        r == announced_in_order(bytes@),
{
    proof {
        reveal_strlit("[MOTD]");
        reveal_strlit("[AD]");
    }
    match utf8_text(bytes) {
        Some(text) => {
            let s = characters(text);
            match find_marks(&s) {
                Some((a, b, c, d)) => {
                    assert(a + 6 <= s.len() && c + 4 <= s.len());
                    a + 6 <= b && c + 4 <= d
                },
                None => true,
            }
        },
        None => true,
    }
}

/// Reads an announcement that came from this address.
pub fn read_announcement(bytes: &[u8], from: IpAddr) -> (r: Announcement)
    requires
        announced_in_order(bytes@),
    ensures
        r@ == announcement(bytes@, from),
        r matches Announcement::Found(info) ==> utf8::is_ascii_chars(info.ip@),
{
    proof {
        reveal_strlit("[MOTD]");
        reveal_strlit("[AD]");
    }
    let text = match utf8_text(bytes) {
        Some(text) => text,
        None => return Announcement::Skipped,
    };
    let s = characters(text);
    let (a, b, c, d) = match find_marks(&s) {
        Some(marks) => marks,
        None => return Announcement::Broken,
    };
    let motd = cut(&s, a + 6, b);
    let digits = cut(&s, c + 4, d);
    let port: u16 = match parse_u16(digits.as_str()) {
        Some(port) => port,
        None => DEFAULT_PORT,
    };
    let host = from.to_text();
    let number = decimal(port as u64);
    let ip = concat3(host.as_str(), ":", number.as_str());
    proof {
        law_announced_address_is_clean(from, port);
    }
    Announcement::Found(ServerInfo { motd, ip })
}

/// A number in decimal holds nothing that cannot be typed.
proof fn lemma_decimal_clean(n: nat)
    ensures
        menu::clean(text::decimal_text(n)),
    decreases n,
{
    let d = n % 10;
    let c = text::digit_char(d);
    assert('0' <= c <= '9');
    if n >= 10 {
        lemma_decimal_clean(n / 10);
    }
}

/// A number in hexadecimal holds nothing that cannot be typed.
proof fn lemma_hex_clean(n: nat)
    ensures
        menu::clean(net::hex_text(n)),
    decreases n,
{
    let c = net::hex_char(n % 16);
    assert('0' <= c <= '9' || 'a' <= c <= 'f');
    if n >= 16 {
        lemma_hex_clean(n / 16);
    }
}

/// Segments hold nothing that cannot be typed.
proof fn lemma_joined_clean(s: Seq<u16>)
    ensures
        menu::clean(net::joined(s)),
    decreases s.len(),
{
    if s.len() == 1 {
        lemma_hex_clean(s[0] as nat);
    } else if s.len() > 1 {
        lemma_joined_clean(s.drop_last());
        lemma_hex_clean(s.last() as nat);
    }
}

/// An address of the fourth version holds nothing that cannot be typed.
proof fn lemma_v4_clean(v: u32)
    ensures
        menu::clean(net::v4_text(v)),
{
    let o = net::octets(v as nat, 4);
    lemma_decimal_clean(o[0] as nat);
    lemma_decimal_clean(o[1] as nat);
    lemma_decimal_clean(o[2] as nat);
    lemma_decimal_clean(o[3] as nat);
}

/// The address of a server that was found can be taken over into the menu: it
/// holds nothing that cannot be typed.
pub proof fn law_announced_address_is_clean(from: IpAddr, port: u16)
    ensures
        menu::clean(from.text() + ":"@ + text::decimal_text(port as nat)),
        utf8::is_ascii_chars(from.text() + ":"@ + text::decimal_text(port as nat)),
{
    reveal_strlit(":");
    reveal_strlit("::");
    reveal_strlit("::ffff:");
    lemma_decimal_clean(port as nat);
    match from {
        IpAddr::V4(v) => lemma_v4_clean(v),
        IpAddr::V6(v) => {
            let s = net::segments(v as nat, 8);
            let (start, len) = net::longest_zeros(s, 8);
            lemma_v4_clean((v % 0x1_0000_0000) as u32);
            lemma_joined_clean(s);
            lemma_joined_clean(s.take(start as int));
            lemma_joined_clean(s.skip((start + len) as int));
        },
    }
    let all = from.text() + ":"@ + text::decimal_text(port as nat);
    assert(menu::clean(all));
    assert forall|i: int| 0 <= i < all.len() implies '\0' <= #[trigger] all[i] <= '\u{7f}' by {
        assert(menu::typeable(all[i]));
    }
}

/// How a server announces itself.
pub open spec fn announcement_text(motd: Seq<char>, port: u16) -> Seq<char> {
    MOTD_START@ + motd + MOTD_END@ + ADDR_START@ + text::decimal_text(port as nat) + ADDR_END@
}

/// A part that stands at a place, and at none before it, is found there.
proof fn lemma_find(s: Seq<char>, part: Seq<char>, at: int)
    requires
        stands_at(s, part, at),
        forall|i: int| 0 <= i < at ==> !#[trigger] stands_at(s, part, i),
    ensures
        find(s, part) == Some(at),
{
    let places = Seq::new(s.len() + 1, |i: int| i);
    let here = |i: int| stands_at(s, part, i);
    assert forall|j: int| 0 <= j < at implies !here(#[trigger] places[j]) by {
        assert(!stands_at(s, part, j));
    }
    search::lemma_found(places, here, at);
}

/// A part does not stand where one of its characters differs.
proof fn lemma_stands_not(s: Seq<char>, part: Seq<char>, i: int, k: int)
    requires
        0 <= k < part.len(),
        0 <= i,
        i + k < s.len() ==> s[i + k] != part[k],
    ensures
        !stands_at(s, part, i),
{
    if stands_at(s, part, i) {
        assert(s.subrange(i, i + part.len())[k] == s[i + k]);
    }
}

/// A part whose only opening bracket is its first character, and that does not
/// stand in a message, does not stand in an announcement from a place in that
/// message on either: what follows the message is an opening bracket.
proof fn lemma_not_in_message(s: Seq<char>, motd: Seq<char>, part: Seq<char>, i: int)
    requires
        motd.len() + 6 < s.len(),
        s.subrange(6, 6 + motd.len() as int) == motd,
        s[6 + motd.len() as int] == '[',
        find(motd, part) is None,
        forall|k: int| 0 < k < part.len() ==> #[trigger] part[k] != '[',
        6 <= i < motd.len() + 6,
    ensures
        !stands_at(s, part, i),
{
    let n = motd.len() as int;
    if i + part.len() <= n + 6 {
        if stands_at(s, part, i) {
            assert(motd.subrange(i - 6, i - 6 + part.len()) =~= s.subrange(i, i + part.len()));
            assert(stands_at(motd, part, i - 6));
            let places = Seq::new(motd.len() + 1, |i: int| i);
            let here = |i: int| stands_at(motd, part, i);
            search::law_first_where(places, here);
            assert(here(places[i - 6]));
        }
    } else {
        lemma_stands_not(s, part, i, n + 6 - i);
    }
}

/// A server that announces itself is found, with the message of the day and the
/// port that it announced, as long as the message holds none of the marks that
/// follow it.
pub proof fn law_announcement_is_understood(motd: Seq<char>, port: u16, from: IpAddr)
    requires
        find(motd, MOTD_END@) is None,
        find(motd, ADDR_START@) is None,
        find(motd, ADDR_END@) is None,
    ensures
        in_order(announcement_text(motd, port)),
        announced(announcement_text(motd, port), from) == AnnouncementView::Found(
            ServerView { motd, ip: from.text() + ":"@ + text::decimal_text(port as nat) },
        ),
{
    reveal_strlit("[MOTD]");
    reveal_strlit("[/MOTD]");
    reveal_strlit("[AD]");
    reveal_strlit("[/AD]");
    let s = announcement_text(motd, port);
    let digits = text::decimal_text(port as nat);
    text::lemma_decimal_text(port as nat);
    text::law_port_round_trip(port);
    let n = motd.len() as int;
    let d = digits.len() as int;
    let b = 6 + n;
    let c = 13 + n;
    let e = 17 + n + d;
    assert(s.subrange(0, 6) =~= MOTD_START@);
    assert(s.subrange(b, b + 7) =~= MOTD_END@);
    assert(s.subrange(c, c + 4) =~= ADDR_START@);
    assert(s.subrange(e, e + 5) =~= ADDR_END@);
    assert(s.subrange(6, b) =~= motd);
    assert(s.subrange(c + 4, e) =~= digits);
    assert(forall|i: int| 6 <= i < b ==> s[i] == motd[i - 6]);
    assert(forall|i: int| c + 4 <= i < e ==> s[i] == digits[i - c - 4]);
    lemma_find(s, MOTD_START@, 0);
    assert forall|i: int| 0 <= i < b implies !#[trigger] stands_at(s, MOTD_END@, i) by {
        if i == 0 {
            lemma_stands_not(s, MOTD_END@, i, 1);
        } else if 6 <= i {
            lemma_not_in_message(s, motd, MOTD_END@, i);
        } else {
            lemma_stands_not(s, MOTD_END@, i, 0);
        }
    }
    lemma_find(s, MOTD_END@, b);
    assert forall|i: int| 0 <= i < c implies !#[trigger] stands_at(s, ADDR_START@, i) by {
        if i == 0 || i == b {
            lemma_stands_not(s, ADDR_START@, i, 1);
        } else if 6 <= i < b {
            lemma_not_in_message(s, motd, ADDR_START@, i);
        } else {
            lemma_stands_not(s, ADDR_START@, i, 0);
        }
    }
    lemma_find(s, ADDR_START@, c);
    assert forall|i: int| 0 <= i < e implies !#[trigger] stands_at(s, ADDR_END@, i) by {
        if i == 0 || i == c {
            lemma_stands_not(s, ADDR_END@, i, 1);
        } else if i == b {
            lemma_stands_not(s, ADDR_END@, i, 2);
        } else if 6 <= i < b {
            lemma_not_in_message(s, motd, ADDR_END@, i);
        } else {
            lemma_stands_not(s, ADDR_END@, i, 0);
        }
    }
    lemma_find(s, ADDR_END@, e);
}

/// Whether `part` stands in `s` at `i`, and nowhere before.
pub open spec fn stands_first(s: Seq<char>, part: Seq<char>, i: int) -> bool {
    stands_at(s, part, i) && forall|j: int| 0 <= j < i ==> !#[trigger] stands_at(s, part, j)
}

/// In an announcement that holds all the marks, the message of the day is what
/// stands between the first `[MOTD]` and the first `[/MOTD]`, and the port what
/// stands between the first `[AD]` and the first `[/AD]`, or 25565 where that is
/// none. The address is that of the host from which the announcement came.
pub proof fn law_marks_are_followed(
    bytes: Seq<u8>,
    from: IpAddr,
    a: int,
    b: int,
    c: int,
    d: int,
)
    requires
        utf8::valid_utf8(bytes),
        stands_first(utf8::decode_utf8(bytes), "[MOTD]"@, a),
        stands_first(utf8::decode_utf8(bytes), "[/MOTD]"@, b),
        stands_first(utf8::decode_utf8(bytes), "[AD]"@, c),
        stands_first(utf8::decode_utf8(bytes), "[/AD]"@, d),
        a + 6 <= b,
        c + 4 <= d,
    ensures
        ({
            let s = utf8::decode_utf8(bytes);
            let port = match text::u16_text(s.subrange(c + 4, d)) {
                Some(port) => port,
                None => 25565u16,
            };
            announcement(bytes, from) == AnnouncementView::Found(
                ServerView {
                    motd: s.subrange(a + 6, b),
                    ip: from.text() + ":"@ + text::decimal_text(port as nat),
                },
            )
        }),
{
    reveal_strlit("[MOTD]");
    reveal_strlit("[AD]");
    let s = utf8::decode_utf8(bytes);
    lemma_find(s, "[MOTD]"@, a);
    lemma_find(s, "[/MOTD]"@, b);
    lemma_find(s, "[AD]"@, c);
    lemma_find(s, "[/AD]"@, d);
}

/// An announcement that lacks one of the marks is broken, and one that is not
/// text is passed over.
pub proof fn law_marks_are_needed(bytes: Seq<u8>, from: IpAddr, mark: Seq<char>)
    requires
        mark == "[MOTD]"@ || mark == "[/MOTD]"@ || mark == "[AD]"@ || mark == "[/AD]"@,
    ensures
        utf8::valid_utf8(bytes) && (forall|i: int|
            !#[trigger] stands_at(utf8::decode_utf8(bytes), mark, i)) ==> announcement(bytes, from)
            == AnnouncementView::Broken,
        !utf8::valid_utf8(bytes) ==> announcement(bytes, from) == AnnouncementView::Skipped,
{
    let s = utf8::decode_utf8(bytes);
    if forall|i: int| !#[trigger] stands_at(s, mark, i) {
        let places = Seq::new(s.len() + 1, |i: int| i);
        search::lemma_absent(places, |i: int| stands_at(s, mark, i));
        assert(find(s, mark) is None);
    }
}

/// The marks are in order exactly where neither end stands before its start.
pub proof fn law_ends_follow_their_starts(bytes: Seq<u8>, a: int, b: int, c: int, d: int)
    requires
        utf8::valid_utf8(bytes),
        stands_first(utf8::decode_utf8(bytes), "[MOTD]"@, a),
        stands_first(utf8::decode_utf8(bytes), "[/MOTD]"@, b),
        stands_first(utf8::decode_utf8(bytes), "[AD]"@, c),
        stands_first(utf8::decode_utf8(bytes), "[/AD]"@, d),
    ensures
        announced_in_order(bytes) <==> a + 6 <= b && c + 4 <= d,
{
    reveal_strlit("[MOTD]");
    reveal_strlit("[AD]");
    let s = utf8::decode_utf8(bytes);
    lemma_find(s, "[MOTD]"@, a);
    lemma_find(s, "[/MOTD]"@, b);
    lemma_find(s, "[AD]"@, c);
    lemma_find(s, "[/AD]"@, d);
}

/// Servers that were found already, each once.
#[derive(Debug)]
pub struct FoundServers {
    servers: Vec<ServerInfo>,
}

impl FoundServers {
    /// The servers.
    pub closed spec fn view(&self) -> Seq<ServerView> {
        self.servers@.map_values(|s: ServerInfo| s@)
    }

    #[verifier::type_invariant]
    spec fn each_once(self) -> bool {
        self.view().no_duplicates()
    }

    /// No servers.
    pub fn new() -> (r: Self)
        ensures
            r@ == Seq::<ServerView>::empty(),
    {
        let servers: Vec<ServerInfo> = Vec::new();
        assert(servers@.map_values(|s: ServerInfo| s@) =~= Seq::<ServerView>::empty());
        FoundServers { servers }
    }

    /// Whether this server was found already.
    pub fn contains(&self, info: &ServerInfo) -> (r: bool)
        ensures
            r == self@.contains(info@),
    {
        let mut i: usize = 0;
        while i < self.servers.len()
            invariant
                i <= self.servers@.len(),
                forall|j: int| 0 <= j < i ==> #[trigger] self@[j] != info@,
            decreases self.servers@.len() - i,
        {
            let other = &self.servers[i];
            assert(self@[i as int] == other@);
            if text_eq(other.motd.as_str(), info.motd.as_str()) && text_eq(
                other.ip.as_str(),
                info.ip.as_str(),
            ) {
                return true;
            }
            i = i + 1;
        }
        false
    }

    /// Takes in a server that was not found before.
    pub fn insert(&mut self, info: ServerInfo)
        requires
            !old(self)@.contains(info@),
        ensures
            final(self)@ == old(self)@.push(info@),
            final(self)@.no_duplicates(),
    {
        proof {
            use_type_invariant(&*self);
        }
        let ghost before = self@;
        let mut servers: Vec<ServerInfo> = Vec::new();
        std::mem::swap(&mut servers, &mut self.servers);
        servers.push(info);
        assert(servers@.map_values(|s: ServerInfo| s@) =~= before.push(info@));
        *self = FoundServers { servers };
    }
}

/// A server is known exactly from the time on at which it was found.
pub proof fn law_servers_are_found_once(
    found: &mut FoundServers,
    info: ServerInfo,
    other: ServerInfo,
    before: bool,
    after: bool,
)
    requires
        call_ensures(FoundServers::contains, (old(found), &other), before),
        call_ensures(FoundServers::insert, (found, info), ()),
        call_ensures(FoundServers::contains, (final(found), &other), after),
    ensures
        after <==> before || (other.motd@ == info.motd@ && other.ip@ == info.ip@),
{
    let list = old(found)@;
    assert(list.push(info@).contains(other@) <==> list.contains(other@) || other@ == info@) by {
        assert(list.push(info@)[list.len() as int] == info@);
        if list.contains(other@) {
            let i = choose|i: int| 0 <= i < list.len() && list[i] == other@;
            assert(list.push(info@)[i] == other@);
        }
    }
}

/// What is said here of announcements is said of what is read of them.
pub proof fn law_announcements_are_read_so(bytes: &[u8], from: IpAddr, read: Announcement)
    requires
        call_ensures(read_announcement, (bytes, from), read),
    ensures
        read@ == announcement(bytes@, from),
{
}

} // verus!
