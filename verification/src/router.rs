//! Where the proxy sends whom.

use crate::byte_map::ByteMap;
use crate::codec;
use crate::limiter;
use crate::limiter::{Limiter, LimiterView, Quota};
use crate::net;
use crate::net::IpAddr;
use crate::packet;
use crate::random::{random_id, random_word};
use crate::reader;
use crate::text;
use crate::text::{concat3, text_ends_with};
use std::collections::HashMap;
use vstd::prelude::*;
use vstd::utf8;

verus! {

/// The servers by their domains, the connections that are waited for by their
/// numbers, and the limits of the hosts.
///
/// A server is known by what reaches it, and so is a connection that is waited
/// for.
#[derive(Debug)]
#[verifier::reject_recursive_types(S)]
#[verifier::reject_recursive_types(P)]
pub struct Router<S, P> {
    base: String,
    domain_map: ByteMap<S>,
    play_connect_map: HashMap<u128, P>,
    limits_v4: HashMap<u32, Limiter>,
    limits_v6: HashMap<u128, Limiter>,
    ip_quota: Quota,
}

/// What a [`Router`] knows.
#[verifier::ext_equal]
#[verifier::reject_recursive_types(S)]
#[verifier::reject_recursive_types(P)]
pub struct RouterView<S, P> {
    /// What every domain ends with.
    pub base: Seq<char>,
    /// The servers by their domains.
    pub domains: Map<Seq<u8>, S>,
    /// The connections that are waited for by their numbers.
    pub plays: Map<u128, P>,
    /// The limits of the hosts that came.
    pub limits: Map<IpAddr, LimiterView>,
    /// How many connections of a host are replenished in a second, and how many
    /// may come at once.
    pub ip_quota: (u32, u32),
}

/// Three words with dashes between them.
pub open spec fn prefix_text(first: Seq<char>, second: Seq<char>, third: Seq<char>) -> Seq<char> {
    first + "-"@ + second + "-"@ + third
}

/// Whether `s` consists of three of the words with dashes between them.
pub open spec fn is_prefix(words: Seq<String>, s: Seq<char>) -> bool {
    exists|first: String, second: String, third: String|
        words.contains(first) && words.contains(second) && words.contains(third) && s
            == #[trigger] prefix_text(first@, second@, third@)
}

/// The domain with this prefix.
pub open spec fn domain_text(prefix: Seq<char>, base: Seq<char>) -> Seq<char> {
    prefix + "."@ + base
}

/// Whether a requested domain is assigned: it has to end with the base, and no
/// server may have it already.
pub open spec fn granted<S, P>(router: RouterView<S, P>, req: Option<&str>) -> bool {
    match req {
        Some(s) => text::ends_with(utf8::encode_utf8(s@), utf8::encode_utf8(router.base))
            && !router.domains.dom().contains(utf8::encode_utf8(s@)),
        None => false,
    }
}

/// Whether a server has the domain with this prefix.
pub open spec fn is_taken<S>(domains: Map<Seq<u8>, S>, prefix: Seq<char>, base: Seq<char>) -> bool {
    domains.dom().contains(utf8::encode_utf8(domain_text(prefix, base)))
}

/// What assigning a domain to a server leads to. It is the requested one where
/// that is granted, and else one that no server has, whose prefix consists of
/// three of the words. Where every such domain is taken, none is assigned.
pub open spec fn is_assigned<S, P>(
    before: RouterView<S, P>,
    after: RouterView<S, P>,
    send: S,
    req: Option<&str>,
    words: Seq<String>,
    domain: Option<Seq<char>>,
) -> bool {
    &&& granted(before, req) ==> domain == Some(req.unwrap()@)
    &&& !granted(before, req) ==> match domain {
        Some(d) => exists|prefix: Seq<char>| #[trigger]
            is_prefix(words, prefix) && !is_taken(before.domains, prefix, before.base) && d
                == domain_text(prefix, before.base),
        None => forall|prefix: Seq<char>| #[trigger]
            is_prefix(words, prefix) ==> is_taken(before.domains, prefix, before.base),
    }
    &&& after == match domain {
        Some(d) => RouterView {
            domains: before.domains.insert(utf8::encode_utf8(d), send),
            ..before
        },
        None => before,
    }
}

/// What asking for a host leads to, and whether it is turned away. A host that
/// comes for the first time gets a limiter of its own.
pub open spec fn rate_checked<S, P>(router: RouterView<S, P>, ip: IpAddr, now: u64) -> (
    RouterView<S, P>,
    bool,
) {
    let limit = if router.limits.dom().contains(ip) {
        router.limits[ip]
    } else {
        limiter::unasked(router.ip_quota)
    };
    let (after, through) = limiter::asked(limit, now);
    (RouterView { limits: router.limits.insert(ip, after), ..router }, !through)
}

/// How often a name or a number is drawn before a free one is looked for in
/// order.
pub const DRAWS: u64 = 65536;

/// Three words with dashes between them.
pub fn make_prefix(first: &str, second: &str, third: &str) -> (r: String)
    ensures
        r@ == prefix_text(first@, second@, third@),
{
    let front = concat3(first, "-", second);
    concat3(front.as_str(), "-", third)
}

/// Three words with dashes between them, unless a server has the domain with
/// that prefix.
fn free_prefix<T>(map: &ByteMap<T>, base: &str, first: &str, second: &str, third: &str) -> (r:
    Option<String>)
    ensures
        match r {
            Some(s) => s@ == prefix_text(first@, second@, third@) && !is_taken(map@, s@, base@),
            None => is_taken(map@, prefix_text(first@, second@, third@), base@),
        },
{
    let s = make_prefix(first, second, third);
    let domain = concat3(s.as_str(), ".", base);
    if map.contains_key(domain.as_str().as_bytes()) {
        None
    } else {
        Some(s)
    }
}

/// Looks for a third word that makes up a free prefix.
fn find_third<T>(map: &ByteMap<T>, base: &str, words: &Vec<String>, first: &str, second: &str) -> (r:
    Option<String>)
    ensures
        match r {
            Some(s) => !is_taken(map@, s@, base@) && exists|k: int|
                0 <= k < words@.len() && s@ == prefix_text(
                    first@,
                    second@,
                    (#[trigger] words@[k])@,
                ),
            None => forall|k: int|
                0 <= k < words@.len() ==> is_taken(
                    map@,
                    prefix_text(first@, second@, (#[trigger] words@[k])@),
                    base@,
                ),
        },
{
    let mut i: usize = 0;
    while i < words.len()
        invariant
            i <= words@.len(),
            forall|k: int|
                0 <= k < i ==> is_taken(
                    map@,
                    prefix_text(first@, second@, (#[trigger] words@[k])@),
                    base@,
                ),
        decreases words@.len() - i,
    {
        if let Some(s) = free_prefix(map, base, first, second, words[i].as_str()) {
            return Some(s);
        }
        i = i + 1;
    }
    None
}

/// Looks for a second and a third word that make up a free prefix.
fn find_second<T>(map: &ByteMap<T>, base: &str, words: &Vec<String>, first: &str) -> (r: Option<
    String,
>)
    ensures
        match r {
            Some(s) => !is_taken(map@, s@, base@) && exists|j: int, k: int|
                0 <= j < words@.len() && 0 <= k < words@.len() && s@ == #[trigger] prefix_text(
                    first@,
                    words@[j]@,
                    words@[k]@,
                ),
            None => forall|j: int, k: int|
                0 <= j < words@.len() && 0 <= k < words@.len() ==> is_taken(
                    map@,
                    #[trigger] prefix_text(first@, words@[j]@, words@[k]@),
                    base@,
                ),
        },
{
    let mut i: usize = 0;
    while i < words.len()
        invariant
            i <= words@.len(),
            forall|j: int, k: int|
                0 <= j < i && 0 <= k < words@.len() ==> is_taken(
                    map@,
                    #[trigger] prefix_text(first@, words@[j]@, words@[k]@),
                    base@,
                ),
        decreases words@.len() - i,
    {
        if let Some(s) = find_third(map, base, words, first, words[i].as_str()) {
            assert(exists|k: int|
                0 <= k < words@.len() && s@ == prefix_text(
                    first@,
                    words@[i as int]@,
                    (#[trigger] words@[k])@,
                ));
            return Some(s);
        }
        i = i + 1;
    }
    None
}

/// Looks for three words that make up a free prefix.
fn find_prefix<T>(map: &ByteMap<T>, base: &str, words: &Vec<String>) -> (r: Option<String>)
    ensures
        r matches Some(s) ==> is_prefix(words@, s@) && !is_taken(map@, s@, base@),
        r is None ==> forall|s: Seq<char>| #[trigger]
            is_prefix(words@, s) ==> is_taken(map@, s, base@),
{
    let mut i: usize = 0;
    while i < words.len()
        invariant
            i <= words@.len(),
            forall|h: int, j: int, k: int|
                0 <= h < i && 0 <= j < words@.len() && 0 <= k < words@.len() ==> is_taken(
                    map@,
                    #[trigger] prefix_text(words@[h]@, words@[j]@, words@[k]@),
                    base@,
                ),
        decreases words@.len() - i,
    {
        if let Some(s) = find_second(map, base, words, words[i].as_str()) {
            proof {
                let (j, k) = choose|j: int, k: int|
                    0 <= j < words@.len() && 0 <= k < words@.len() && s@ == #[trigger] prefix_text(
                        words@[i as int]@,
                        words@[j]@,
                        words@[k]@,
                    );
                assert(words@.contains(words@[i as int]));
                assert(words@.contains(words@[j]));
                assert(words@.contains(words@[k]));
            }
            return Some(s);
        }
        i = i + 1;
    }
    proof {
        assert forall|s: Seq<char>| #[trigger] is_prefix(words@, s) implies is_taken(
            map@,
            s,
            base@,
        ) by {
            let (first, second, third) = choose|first: String, second: String, third: String|
                words@.contains(first) && words@.contains(second) && words@.contains(third) && s
                    == #[trigger] prefix_text(first@, second@, third@);
            let h = choose|h: int| 0 <= h < words@.len() && words@[h] == first;
            let j = choose|j: int| 0 <= j < words@.len() && words@[j] == second;
            let k = choose|k: int| 0 <= k < words@.len() && words@[k] == third;
            assert(s == prefix_text(words@[h]@, words@[j]@, words@[k]@));
        }
    }
    None
}

/// Draws three words that make up the prefix of a domain that no server has.
/// The result is `None` where there is none.
pub fn get_random_prefix<T>(map: &ByteMap<T>, base: &str, words: &Vec<String>) -> (r: Option<
    String,
>)
    ensures
        r matches Some(s) ==> is_prefix(words@, s@) && !is_taken(map@, s@, base@),
        r is None ==> forall|s: Seq<char>| #[trigger]
            is_prefix(words@, s) ==> is_taken(map@, s, base@),
{
    let mut left: u64 = DRAWS;
    while left > 0
        decreases left,
    {
        if let (Some(first), Some(second), Some(third)) = (
            random_word(words.as_slice()),
            random_word(words.as_slice()),
            random_word(words.as_slice()),
        ) {
            if let Some(s) = free_prefix(
                map,
                base,
                first.as_str(),
                second.as_str(),
                third.as_str(),
            ) {
                assert(is_prefix(words@, s@));
                return Some(s);
            }
        }
        left = left - 1;
    }
    find_prefix(map, base, words)
}

/// A finite set that holds every number below another has at least as many
/// members.
proof fn lemma_numbers_below(set: Set<u128>, n: nat)
    requires
        set.finite(),
        n <= u128::MAX,
        forall|k: u128| k < n ==> #[trigger] set.contains(k),
    ensures
        set.len() >= n,
    decreases n,
{
    if n > 0 {
        let last = (n - 1) as u128;
        let rest = set.remove(last);
        assert(set.contains(last));
        assert forall|k: u128| k < n - 1 implies #[trigger] rest.contains(k) by {
            assert(set.contains(k));
        }
        lemma_numbers_below(rest, (n - 1) as nat);
    }
}

/// Draws a number that is no key of the map.
pub fn get_random_id<T>(map: &HashMap<u128, T>) -> (r: u128)
    ensures
        !map@.dom().contains(r),
{
    broadcast use vstd::std_specs::hash::group_hash_axioms;

    let mut left: u64 = DRAWS;
    while left > 0
        decreases left,
    {
        let n: u128 = random_id();
        if !map.contains_key(&n) {
            return n;
        }
        left = left - 1;
    }
    let len: usize = map.len();
    let mut id: u128 = 0;
    while map.contains_key(&id)
        invariant
            len == map@.len(),
            id <= len,
            forall|k: u128| k < id ==> #[trigger] map@.dom().contains(k),
        decreases len - id,
    {
        proof {
            lemma_numbers_below(map@.dom(), (id + 1) as nat);
        }
        id = id + 1;
    }
    id
}

impl<S, P> Router<S, P> {
    /// What the router knows.
    pub closed spec fn view(&self) -> RouterView<S, P> {
        RouterView {
            base: self.base@,
            domains: self.domain_map@,
            plays: self.play_connect_map@,
            limits: Map::new(
                |ip: IpAddr|
                    match ip {
                        IpAddr::V4(v) => self.limits_v4@.dom().contains(v),
                        IpAddr::V6(v) => self.limits_v6@.dom().contains(v),
                    },
                |ip: IpAddr|
                    match ip {
                        IpAddr::V4(v) => self.limits_v4@[v]@,
                        IpAddr::V6(v) => self.limits_v6@[v]@,
                    },
            ),
            ip_quota: self.ip_quota@,
        }
    }

    /// A router that knows nobody.
    pub fn new(base: &str, ip_quota: Quota) -> (r: Self)
        ensures
            r@ == (RouterView::<S, P> {
                base: base@,
                domains: Map::empty(),
                plays: Map::empty(),
                limits: Map::empty(),
                ip_quota: ip_quota@,
            }),
    {
        broadcast use vstd::std_specs::hash::group_hash_axioms;

        let r = Router {
            base: base.to_owned(),
            domain_map: ByteMap::new(),
            play_connect_map: HashMap::new(),
            limits_v4: HashMap::new(),
            limits_v6: HashMap::new(),
            ip_quota,
        };
        assert(r@.limits =~= Map::empty());
        r
    }

    /// Whether a host is turned away that connects at this time, in nanoseconds.
    pub fn check_ratelimit(&mut self, ip: IpAddr, now: u64) -> (r: bool)
        requires
            now <= limiter::LATEST,
        ensures
            (final(self)@, r) == rate_checked(old(self)@, ip, now),
    {
        broadcast use vstd::std_specs::hash::group_hash_axioms;

        let known = match ip {
            IpAddr::V4(v) => self.limits_v4.remove(&v),
            IpAddr::V6(v) => self.limits_v6.remove(&v),
        };
        let limiter = match known {
            Some(limiter) => limiter,
            None => Limiter::new(self.ip_quota),
        };
        let (limiter, through) = limiter.ask(now);
        let ghost after = limiter@;
        match ip {
            IpAddr::V4(v) => {
                let _none = self.limits_v4.insert(v, limiter);
            },
            IpAddr::V6(v) => {
                let _none = self.limits_v6.insert(v, limiter);
            },
        }
        assert(self@.limits =~= old(self)@.limits.insert(ip, after));
        !through
    }

    /// Assigns the requested domain to a server, where it is granted.
    fn add_requested(&mut self, send: S, req: &str) -> (r: Result<String, S>)
        ensures
            match r {
                Ok(domain) => granted(old(self)@, Some(req)) && domain@ == req@ && final(self)@ == (
                RouterView {
                    domains: old(self)@.domains.insert(utf8::encode_utf8(req@), send),
                    ..old(self)@
                }),
                Err(s) => !granted(old(self)@, Some(req)) && s == send && final(self)@
                    == old(self)@,
            },
    {
        if text_ends_with(req, self.base.as_str()) && !self.domain_map.contains_key(
            req.as_bytes(),
        ) {
            self.domain_map.insert(copied(req.as_bytes()), send);
            Ok(req.to_owned())
        } else {
            Err(send)
        }
    }

    /// Assigns the domain with this prefix to a server.
    fn add_prefix(&mut self, send: S, prefix: &str) -> (r: String)
        ensures
            r@ == domain_text(prefix@, old(self)@.base),
            final(self)@ == (RouterView {
                domains: old(self)@.domains.insert(utf8::encode_utf8(r@), send),
                ..old(self)@
            }),
    {
        let domain = concat3(prefix, ".", self.base.as_str());
        self.domain_map.insert(copied(domain.as_str().as_bytes()), send);
        domain
    }

    /// Assigns a domain to a server: the requested one where it is granted, and
    /// else the one whose prefix is these three words, unless a server has that
    /// already.
    pub fn add_drawn(
        &mut self,
        send: S,
        req: Option<&str>,
        first: &str,
        second: &str,
        third: &str,
    ) -> (r: Option<String>)
        ensures
            ({
                let before = old(self)@;
                let prefix = prefix_text(first@, second@, third@);
                let domain = if granted(before, req) {
                    req.unwrap()@
                } else {
                    domain_text(prefix, before.base)
                };
                if !granted(before, req) && is_taken(before.domains, prefix, before.base) {
                    r is None && final(self)@ == before
                } else {
                    &&& r matches Some(d) && d@ == domain
                    &&& final(self)@ == (RouterView {
                        domains: before.domains.insert(utf8::encode_utf8(domain), send),
                        ..before
                    })
                }
            }),
            r matches Some(d) ==> !old(self)@.domains.dom().contains(utf8::encode_utf8(d@)),
    {
        let send = match req {
            Some(s) => match self.add_requested(send, s) {
                Ok(domain) => return Some(domain),
                Err(send) => send,
            },
            None => send,
        };
        match free_prefix(&self.domain_map, self.base.as_str(), first, second, third) {
            Some(prefix) => Some(self.add_prefix(send, prefix.as_str())),
            None => None,
        }
    }

    /// Assigns a domain to a server: the requested one where it is granted, and
    /// else one whose prefix is drawn from the words. The result is `None` where
    /// every domain that the words make up is taken.
    pub fn add_server(&mut self, send: S, req: Option<&str>, words: &Vec<String>) -> (r: Option<
        String,
    >)
        ensures
            is_assigned(old(self)@, final(self)@, send, req, words@, codec::opt_string(r)),
            r matches Some(d) ==> !old(self)@.domains.dom().contains(utf8::encode_utf8(d@)),
    {
        let send = match req {
            Some(s) => match self.add_requested(send, s) {
                Ok(domain) => return Some(domain),
                Err(send) => send,
            },
            None => send,
        };
        match get_random_prefix(&self.domain_map, self.base.as_str(), words) {
            Some(prefix) => {
                assert(is_prefix(words@, prefix@));
                Some(self.add_prefix(send, prefix.as_str()))
            },
            None => None,
        }
    }

    /// Waits for a connection under this number, unless one is waited for under
    /// it already.
    pub fn add_id(&mut self, send: P, id: u128) -> (r: Result<(), P>)
        ensures
            match r {
                Ok(()) => !old(self)@.plays.dom().contains(id) && final(self)@ == (RouterView {
                    plays: old(self)@.plays.insert(id, send),
                    ..old(self)@
                }),
                Err(p) => old(self)@.plays.dom().contains(id) && p == send && final(self)@
                    == old(self)@,
            },
    {
        broadcast use vstd::std_specs::hash::group_hash_axioms;

        if self.play_connect_map.contains_key(&id) {
            return Err(send);
        }
        let _none = self.play_connect_map.insert(id, send);
        Ok(())
    }

    /// Waits for a connection under a number that is free.
    pub fn add_random_id(&mut self, send: P) -> (r: u128)
        ensures
            !old(self)@.plays.dom().contains(r),
            final(self)@ == (RouterView { plays: old(self)@.plays.insert(r, send), ..old(self)@ }),
    {
        let id = get_random_id(&self.play_connect_map);
        let _ok = self.add_id(send, id);
        id
    }

    /// Takes out the connection that is waited for under this number.
    pub fn get_id(&mut self, id: u128) -> (r: Option<P>)
        ensures
            final(self)@ == (RouterView { plays: old(self)@.plays.remove(id), ..old(self)@ }),
            match r {
                Some(p) => old(self)@.plays.dom().contains(id) && p == old(self)@.plays[id],
                None => !old(self)@.plays.dom().contains(id),
            },
    {
        broadcast use vstd::std_specs::hash::group_hash_axioms;

        let r = self.play_connect_map.remove(&id);
        assert(self@.plays =~= old(self)@.plays.remove(id));
        r
    }

    /// Stops waiting for a connection under this number.
    pub fn remove_id(&mut self, id: u128) -> (r: Option<P>)
        ensures
            final(self)@ == (RouterView { plays: old(self)@.plays.remove(id), ..old(self)@ }),
            match r {
                Some(p) => old(self)@.plays.dom().contains(id) && p == old(self)@.plays[id],
                None => !old(self)@.plays.dom().contains(id),
            },
    {
        self.get_id(id)
    }

    /// The server with this domain.
    pub fn get_domain(&self, prefix: &[u8]) -> (r: Option<&S>)
        ensures
            match r {
                Some(s) => self@.domains.dom().contains(prefix@) && *s == self@.domains[prefix@],
                None => !self@.domains.dom().contains(prefix@),
            },
    {
        self.domain_map.get(prefix)
    }

    /// Takes this domain from its server.
    pub fn remove_prefix(&mut self, prefix: &[u8]) -> (r: Option<S>)
        ensures
            final(self)@ == (RouterView {
                domains: old(self)@.domains.remove(prefix@),
                ..old(self)@
            }),
            match r {
                Some(s) => old(self)@.domains.dom().contains(prefix@) && s
                    == old(self)@.domains[prefix@],
                None => !old(self)@.domains.dom().contains(prefix@),
            },
    {
        self.domain_map.remove(prefix)
    }
}

/// The same bytes, held on their own.
fn copied(bytes: &[u8]) -> (r: Vec<u8>)
    ensures
        r@ == bytes@,
{
    let mut v: Vec<u8> = Vec::new();
    v.extend_from_slice(bytes);
    assert(v@ =~= bytes@);
    v
}

/// A server that is assigned a domain takes none from another server, and when
/// it is gone, everything is as it was before.
pub proof fn law_servers_keep_their_domains<S, P>(
    before: RouterView<S, P>,
    after: RouterView<S, P>,
    send: S,
    req: Option<&str>,
    words: Seq<String>,
    domain: Option<Seq<char>>,
    other: Seq<u8>,
)
    requires
        is_assigned(before, after, send, req, words, domain),
    ensures
        before.domains.dom().contains(other) ==> after.domains.dom().contains(other)
            && after.domains[other] == before.domains[other],
        domain matches Some(d) ==> {
            let key = utf8::encode_utf8(d);
            &&& !before.domains.dom().contains(key)
            &&& after.domains.dom().contains(key) && after.domains[key] == send
            &&& after.domains.remove(key) == before.domains
        },
{
    if let Some(d) = domain {
        let key = utf8::encode_utf8(d);
        assert(!before.domains.dom().contains(key));
        assert(before.domains.insert(key, send).remove(key) =~= before.domains);
    }
}

/// A server gets a domain as long as the one that it requests is granted, or one
/// that the words make up is free. From then on that domain leads to it.
pub proof fn law_servers_get_a_domain<S, P>(
    before: RouterView<S, P>,
    after: RouterView<S, P>,
    send: S,
    req: Option<&str>,
    words: Seq<String>,
    domain: Option<Seq<char>>,
)
    requires
        is_assigned(before, after, send, req, words, domain),
        granted(before, req) || exists|prefix: Seq<char>| #[trigger]
            is_prefix(words, prefix) && !is_taken(before.domains, prefix, before.base),
    ensures
        domain matches Some(d) && after.domains.dom().contains(utf8::encode_utf8(d))
            && after.domains[utf8::encode_utf8(d)] == send,
{
}

/// Every domain that is assigned ends with the base.
pub proof fn law_domains_end_with_the_base(prefix: Seq<char>, base: Seq<char>)
    ensures
        text::ends_with(utf8::encode_utf8(domain_text(prefix, base)), utf8::encode_utf8(base)),
{
    text::lemma_encode_concat(prefix + "."@, base);
    let all = utf8::encode_utf8(domain_text(prefix, base));
    let end = utf8::encode_utf8(base);
    assert(all.skip(all.len() - end.len()) =~= end);
}

/// A client that asks for the domain that a server was assigned, to log in, is
/// led to that server, also after another server was assigned a domain.
pub proof fn law_client_reaches_its_server<S, P>(
    before: RouterView<S, P>,
    after: RouterView<S, P>,
    domain: Seq<char>,
    send: S,
    other: S,
    req: Option<&str>,
    words: Seq<String>,
    assigned: Option<Seq<char>>,
    version: u64,
    port: Seq<u8>,
    intent: u64,
    len: u64,
    username: Seq<char>,
    more: Seq<u8>,
)
    requires
        before.domains.dom().contains(utf8::encode_utf8(domain)),
        before.domains[utf8::encode_utf8(domain)] == send,
        is_assigned(before, after, other, req, words, assigned),
        utf8::encode_utf8(domain).len() <= 255,
        port.len() == 2,
        intent == 2 || intent == 3,
        utf8::encode_utf8(username).len() <= 16,
    ensures
        ({
            let sent = packet::handshake_bytes(version, domain, port, intent) + (
            packet::login_bytes(len, username) + more);
            let (opening, t) = packet::opening_step(
                packet::Tap { rest: sent, kept: Seq::empty() },
            );
            &&& opening matches Ok(o)
            &&& before.domains[utf8::encode_utf8(o.hostname)] == send
            &&& after.domains.dom().contains(utf8::encode_utf8(o.hostname))
            &&& after.domains[utf8::encode_utf8(o.hostname)] == send
            &&& o.username == Some(username)
            &&& t.kept == sent
        }),
{
    let sent = packet::handshake_bytes(version, domain, port, intent) + (packet::login_bytes(
        len,
        username,
    ) + more);
    let t = packet::Tap { rest: sent, kept: Seq::empty() };
    packet::law_login_is_understood(
        version,
        domain,
        port,
        intent,
        len,
        username,
        more,
        Seq::empty(),
    );
    law_servers_keep_their_domains(
        before,
        after,
        other,
        req,
        words,
        assigned,
        utf8::encode_utf8(domain),
    );
    packet::law_opening_keeps_every_byte(t);
    assert(Seq::<u8>::empty() + sent =~= sent);
}

/// A client that asks for the domain that a server was assigned, to see its
/// status, is led to that server, also after another server was assigned a
/// domain.
pub proof fn law_status_comes_from_its_server<S, P>(
    before: RouterView<S, P>,
    after: RouterView<S, P>,
    domain: Seq<char>,
    send: S,
    other: S,
    req: Option<&str>,
    words: Seq<String>,
    assigned: Option<Seq<char>>,
    version: u64,
    port: Seq<u8>,
    more: Seq<u8>,
)
    requires
        before.domains.dom().contains(utf8::encode_utf8(domain)),
        before.domains[utf8::encode_utf8(domain)] == send,
        is_assigned(before, after, other, req, words, assigned),
        utf8::encode_utf8(domain).len() <= 255,
        port.len() == 2,
    ensures
        ({
            let sent = packet::handshake_bytes(version, domain, port, 1) + more;
            let (opening, t) = packet::opening_step(
                packet::Tap { rest: sent, kept: Seq::empty() },
            );
            &&& opening matches Ok(o)
            &&& before.domains[utf8::encode_utf8(o.hostname)] == send
            &&& after.domains.dom().contains(utf8::encode_utf8(o.hostname))
            &&& after.domains[utf8::encode_utf8(o.hostname)] == send
            &&& o.username is None
            &&& t.kept == sent
        }),
{
    let sent = packet::handshake_bytes(version, domain, port, 1) + more;
    packet::law_status_is_understood(version, domain, port, more, Seq::empty());
    law_servers_keep_their_domains(
        before,
        after,
        other,
        req,
        words,
        assigned,
        utf8::encode_utf8(domain),
    );
    packet::law_opening_keeps_every_byte(packet::Tap { rest: sent, kept: Seq::empty() });
    assert(Seq::<u8>::empty() + sent =~= sent);
}

/// A server that sends back the number that it was sent, in sixteen octets, is
/// connected to the client that waits under that number.
pub proof fn law_number_leads_to_the_client<S, P>(before: RouterView<S, P>, id: u128, send: P)
    ensures
        ({
            let plays = before.plays.insert(id, send);
            let read = reader::big_endian(net::octets(id as nat, 16)) as u128;
            plays.dom().contains(read) && plays[read] == send
        }),
{
    codec::law_id_round_trip(id);
}

/// What asking for these hosts, one after the other at one time, leads to.
pub open spec fn rates_checked<S, P>(
    router: RouterView<S, P>,
    ips: Seq<IpAddr>,
    now: u64,
) -> RouterView<S, P>
    decreases ips.len(),
{
    if ips.len() == 0 {
        router
    } else {
        rate_checked(rates_checked(router, ips.drop_last(), now), ips.last(), now).0
    }
}

/// How often a host connects.
pub open spec fn connections(ips: Seq<IpAddr>, ip: IpAddr) -> nat
    decreases ips.len(),
{
    if ips.len() == 0 {
        0
    } else {
        connections(ips.drop_last(), ip) + if ips.last() == ip {
            1nat
        } else {
            0
        }
    }
}

/// What is known of a host that connected this often at one time.
proof fn lemma_rates_checked<S, P>(
    router: RouterView<S, P>,
    ips: Seq<IpAddr>,
    ip: IpAddr,
    now: u64,
)
    requires
        !router.limits.dom().contains(ip),
        router.ip_quota.1 > 0,
    ensures
        ({
            let after = rates_checked(router, ips, now);
            let n = connections(ips, ip);
            let burst = router.ip_quota.1;
            let through = if n < burst {
                n
            } else {
                burst as nat
            };
            &&& after.ip_quota == router.ip_quota
            &&& after.limits.dom().contains(ip) <==> n > 0
            &&& n > 0 ==> after.limits[ip] == (LimiterView {
                recharge: router.ip_quota.0,
                burst,
                now,
                times: Seq::new(through, |i: int| now),
            })
        }),
    decreases ips.len(),
{
    if ips.len() > 0 {
        let front = ips.drop_last();
        lemma_rates_checked(router, front, ip, now);
        if ips.last() == ip {
            let (recharge, burst) = router.ip_quota;
            let n = connections(front, ip);
            let times = Seq::new(
                if n < burst {
                    n
                } else {
                    burst as nat
                },
                |i: int| now,
            );
            limiter::law_burst_is_the_most(times.len(), recharge, burst, now);
            assert(Seq::<u64>::empty() =~= Seq::new(0, |i: int| now));
            assert(times.push(now) =~= Seq::new(times.len() + 1, |i: int| now));
        }
    }
}

/// Of the connections that a host makes at one time, as many are let through as
/// the quota says may come at once, and the next is turned away. How often other
/// hosts connect changes nothing.
pub proof fn law_burst_of_a_host<S, P>(
    router: RouterView<S, P>,
    ips: Seq<IpAddr>,
    ip: IpAddr,
    now: u64,
)
    requires
        !router.limits.dom().contains(ip),
        router.ip_quota.1 > 0,
    ensures
        rate_checked(rates_checked(router, ips, now), ip, now).1 <==> connections(ips, ip)
            >= router.ip_quota.1,
{
    let (recharge, burst) = router.ip_quota;
    let n = connections(ips, ip);
    let times = Seq::new(
        if n < burst {
            n
        } else {
            burst as nat
        },
        |i: int| now,
    );
    lemma_rates_checked(router, ips, ip, now);
    limiter::law_burst_is_the_most(times.len(), recharge, burst, now);
    assert(Seq::<u64>::empty() =~= Seq::new(0, |i: int| now));
}

} // verus!
