//! What servers and hosts may rely on: which domains are assigned, and how often
//! a host may come.

use crate::limiter;
use crate::limiter::{Limiter, LimiterView, Quota};
use crate::net::IpAddr;
use crate::router;
use crate::router::{Router, RouterView};
use crate::text;
use vstd::prelude::*;
use vstd::utf8;

verus! {

/// A server that requests a domain that ends with the base, and that no server
/// has, is assigned that domain. Nothing else changes.
pub proof fn law_free_domains_are_granted<S, P>(
    before: RouterView<S, P>,
    after: RouterView<S, P>,
    send: S,
    req: &str,
    front: Seq<char>,
    words: Seq<String>,
    domain: Option<Seq<char>>,
)
    requires
        router::is_assigned(before, after, send, Some(req), words, domain),
        req@ == front + before.base,
        !before.domains.dom().contains(utf8::encode_utf8(req@)),
    ensures
        domain == Some(req@),
        after == (RouterView {
            domains: before.domains.insert(utf8::encode_utf8(req@), send),
            ..before
        }),
{
    text::lemma_encode_concat(front, before.base);
    let all = utf8::encode_utf8(req@);
    let end = utf8::encode_utf8(before.base);
    assert(all.skip(all.len() - end.len()) =~= end);
}

/// The domain that three words make up.
pub open spec fn made_of(words: Seq<String>, i: int, j: int, k: int, base: Seq<char>) -> Seq<char> {
    words[i]@ + "-"@ + words[j]@ + "-"@ + words[k]@ + "."@ + base
}

/// Whether a request is out of the question: there is none, a server has the
/// domain already, or it does not end with the base.
pub open spec fn is_out_of_the_question<S, P>(before: RouterView<S, P>, req: Option<&str>) -> bool {
    match req {
        None => true,
        Some(s) => before.domains.dom().contains(utf8::encode_utf8(s@)) || forall|front: Seq<u8>|
            #[trigger] (front + utf8::encode_utf8(before.base)) != utf8::encode_utf8(s@),
    }
}

/// A server that requests no domain, or one that is out of the question, is
/// assigned one that no server has, made of three of the words, with dashes
/// between them, in front of the base.
pub proof fn law_other_domains_are_made_of_words<S, P>(
    before: RouterView<S, P>,
    after: RouterView<S, P>,
    send: S,
    req: Option<&str>,
    words: Seq<String>,
    domain: Option<Seq<char>>,
)
    requires
        router::is_assigned(before, after, send, req, words, domain),
        is_out_of_the_question(before, req),
    ensures
        domain matches Some(d) ==> {
            &&& !before.domains.dom().contains(utf8::encode_utf8(d))
            &&& exists|i: int, j: int, k: int|
                0 <= i < words.len() && 0 <= j < words.len() && 0 <= k < words.len() && d
                    == #[trigger] made_of(words, i, j, k, before.base)
            &&& after == (RouterView {
                domains: before.domains.insert(utf8::encode_utf8(d), send),
                ..before
            })
        },
        domain is None ==> after == before,
{
    if let Some(s) = req {
        if router::granted(before, req) {
            let all = utf8::encode_utf8(s@);
            let end = utf8::encode_utf8(before.base);
            assert(all.take(all.len() - end.len()) + end =~= all);
        }
    }
    if let Some(d) = domain {
        let prefix = choose|prefix: Seq<char>| #[trigger]
            router::is_prefix(words, prefix) && !router::is_taken(
                before.domains,
                prefix,
                before.base,
            ) && d == router::domain_text(prefix, before.base);
        let (first, second, third) = choose|first: String, second: String, third: String|
            words.contains(first) && words.contains(second) && words.contains(third) && prefix
                == #[trigger] router::prefix_text(first@, second@, third@);
        let i = choose|i: int| 0 <= i < words.len() && words[i] == first;
        let j = choose|j: int| 0 <= j < words.len() && words[j] == second;
        let k = choose|k: int| 0 <= k < words.len() && words[k] == third;
        assert(d == made_of(words, i, j, k, before.base));
    }
}

/// As long as three words make up a domain that no server has, every server is
/// assigned one.
pub proof fn law_words_do_not_run_out<S, P>(
    before: RouterView<S, P>,
    after: RouterView<S, P>,
    send: S,
    req: Option<&str>,
    words: Seq<String>,
    domain: Option<Seq<char>>,
    i: int,
    j: int,
    k: int,
)
    requires
        router::is_assigned(before, after, send, req, words, domain),
        0 <= i < words.len(),
        0 <= j < words.len(),
        0 <= k < words.len(),
        !before.domains.dom().contains(utf8::encode_utf8(made_of(words, i, j, k, before.base))),
    ensures
        domain is Some,
{
    let prefix = router::prefix_text(words[i]@, words[j]@, words[k]@);
    assert(words.contains(words[i]) && words.contains(words[j]) && words.contains(words[k]));
    assert(router::is_prefix(words, prefix));
    assert(!router::is_taken(before.domains, prefix, before.base));
}

/// How often one host comes changes nothing for another, nor for the servers and
/// the connections that are waited for. The limits of a host are the quota of the
/// router when it comes for the first time, and are kept from then on.
pub proof fn law_hosts_are_limited_apart<S, P>(
    before: RouterView<S, P>,
    ip: IpAddr,
    other: IpAddr,
    now: u64,
)
    requires
        other != ip,
    ensures
        ({
            let (after, away) = router::rate_checked(before, ip, now);
            let fresh = LimiterView {
                recharge: before.ip_quota.0,
                burst: before.ip_quota.1,
                now: 0,
                times: Seq::empty(),
            };
            let limit = if before.limits.dom().contains(ip) {
                before.limits[ip]
            } else {
                fresh
            };
            &&& after.base == before.base && after.domains == before.domains && after.plays
                == before.plays && after.ip_quota == before.ip_quota
            &&& after.limits.dom() == before.limits.dom().insert(ip)
            &&& before.limits.dom().contains(other) ==> after.limits[other] == before.limits[other]
            &&& (after.limits[ip], !away) == limiter::asked(limit, now)
        }),
{
}

/// A host that was let through is counted, at the time at which it came, and one
/// that was turned away is not. Time does not run backward.
pub proof fn law_only_those_let_through_count(l: LimiterView, now: u64)
    ensures
        ({
            let (after, through) = limiter::asked(l, now);
            &&& after.recharge == l.recharge && after.burst == l.burst
            &&& after.now >= l.now && after.now >= now && (after.now == l.now || after.now == now)
            &&& through ==> after.times == l.times.push(after.now)
            &&& !through ==> after.times == l.times
            &&& through == limiter::lets_through(l.times, l.recharge, l.burst, after.now)
        }),
{
}

/// In a second, as many connections are replenished as the quota says: the time
/// that one takes is a second divided by that number, in whole nanoseconds, and
/// at least one.
pub proof fn law_a_second_replenishes_the_quota(recharge: u32)
    requires
        recharge > 0,
    ensures
        limiter::interval(recharge) >= 1,
        recharge <= 1_000_000_000 ==> limiter::interval(recharge) * recharge <= 1_000_000_000 < (
        limiter::interval(recharge) + 1) * recharge,
        recharge > 1_000_000_000 ==> limiter::interval(recharge) == 1,
{
    let d = recharge as int;
    let q = 1_000_000_000int / d;
    vstd::arithmetic::div_mod::lemma_fundamental_div_mod(1_000_000_000, d);
    vstd::arithmetic::div_mod::lemma_mod_bound(1_000_000_000, d);
    assert(d * q == q * d) by (nonlinear_arith);
    assert((q + 1) * d == q * d + d) by (nonlinear_arith);
    if d <= 1_000_000_000 {
        assert(q >= 1) by (nonlinear_arith)
            requires
                q * d + d > 1_000_000_000,
                d <= 1_000_000_000,
                q * d >= 0,
                d > 0,
        ;
    } else {
        assert(q == 0) by (nonlinear_arith)
            requires
                q * d <= 1_000_000_000,
                d > 1_000_000_000,
                q >= 0,
        ;
    }
}

/// Connections count up the time of the next, an interval each, at least from
/// the time since which they came.
proof fn lemma_next_arrival(times: Seq<u64>, interval: nat, since: u64, n: nat)
    requires
        n <= times.len(),
        forall|i: int| times.len() - n <= i < times.len() ==> #[trigger] times[i] >= since,
    ensures
        n > 0 ==> limiter::next_arrival(times, interval) >= since + n * interval,
    decreases n,
{
    if n > 0 {
        let front = times.drop_last();
        lemma_next_arrival(front, interval, since, (n - 1) as nat);
        assert(times.last() >= since);
        assert(n * interval == (n - 1) * interval + interval) by (nonlinear_arith)
            requires
                n > 0,
        ;
        if n == 1 {
            assert((n - 1) * interval == 0) by (nonlinear_arith)
                requires
                    n == 1,
            ;
        }
    }
}

/// A host is never let through more often than the quota allows: of the
/// connections that came since some time, there are no more than may come at
/// once, and one for each interval that has passed.
pub proof fn law_no_more_than_the_quota(
    times: Seq<u64>,
    recharge: u32,
    burst: u32,
    since: u64,
    n: nat,
    now: u64,
)
    requires
        burst > 0,
        recharge > 0,
        since <= now,
        n <= times.len(),
        forall|i: int| times.len() - n <= i < times.len() ==> #[trigger] times[i] >= since,
        limiter::lets_through(times, recharge, burst, now),
    ensures
        (n + 1 - burst) * limiter::interval(recharge) <= now - since,
{
    let i = limiter::interval(recharge);
    lemma_next_arrival(times, i, since, n);
    assert((n + 1 - burst) * i == n * i - i * (burst - 1)) by (nonlinear_arith);
    if n == 0 {
        assert((n + 1 - burst) * i <= 0) by (nonlinear_arith)
            requires
                n == 0,
                burst >= 1,
                i >= 0,
        ;
    }
}

/// Whether connections came at least an interval after each other.
pub open spec fn is_spaced(times: Seq<u64>, interval: nat) -> bool {
    forall|i: int| 0 < i < times.len() ==> times[i - 1] + interval <= #[trigger] times[i]
}

proof fn lemma_spaced(times: Seq<u64>, interval: nat)
    requires
        is_spaced(times, interval),
    ensures
        limiter::next_arrival(times, interval) == if times.len() == 0 {
            0
        } else {
            times.last() + interval
        },
    decreases times.len(),
{
    if times.len() > 0 {
        let front = times.drop_last();
        assert forall|i: int| 0 < i < front.len() implies front[i - 1] + interval
            <= #[trigger] front[i] by {
            assert(times[i - 1] + interval <= times[i]);
        }
        lemma_spaced(front, interval);
        if front.len() > 0 {
            assert(times[times.len() - 2] + interval <= times[times.len() - 1]);
        }
    }
}

/// A host that always waits for the interval is never turned away.
pub proof fn law_patient_hosts_are_let_through(
    times: Seq<u64>,
    recharge: u32,
    burst: u32,
    now: u64,
)
    requires
        burst > 0,
        is_spaced(times, limiter::interval(recharge)),
        times.len() > 0 ==> times.last() + limiter::interval(recharge) <= now,
    ensures
        limiter::lets_through(times, recharge, burst, now),
{
    lemma_spaced(times, limiter::interval(recharge));
    assert(0 <= limiter::interval(recharge) * (burst - 1)) by (nonlinear_arith)
        requires
            burst > 0,
    ;
}

/// A connection that is waited for under a number that was free is found under it,
/// once, and then everything is as it was before.
pub proof fn law_connections_are_found_once<S, P>(
    adding: &mut Router<S, P>,
    taking: &mut Router<S, P>,
    send: P,
    id: u128,
    added: Result<(), P>,
    found: Option<P>,
)
    requires
        call_ensures(Router::<S, P>::add_id, (adding, send, id), added),
        call_ensures(Router::<S, P>::get_id, (taking, id), found),
        old(taking)@ == final(adding)@,
        !old(adding)@.plays.dom().contains(id),
    ensures
        added is Ok,
        found == Some(send),
        final(taking)@ == old(adding)@,
        !final(taking)@.plays.dom().contains(id),
{
    assert(old(adding)@.plays.insert(id, send).remove(id) =~= old(adding)@.plays);
}

/// A number under which a connection is waited for is not given to another, and
/// nothing is found under one that is free.
pub proof fn law_numbers_are_given_once<S, P>(
    adding: &mut Router<S, P>,
    taking: &mut Router<S, P>,
    drawing: &mut Router<S, P>,
    send: P,
    id: u128,
    added: Result<(), P>,
    found: Option<P>,
    drawn: u128,
)
    requires
        call_ensures(Router::<S, P>::add_id, (adding, send, id), added),
        call_ensures(Router::<S, P>::get_id, (taking, id), found),
        call_ensures(Router::<S, P>::add_random_id, (drawing, send), drawn),
        old(drawing)@ == old(adding)@,
        old(adding)@.plays.dom().contains(id),
        !old(taking)@.plays.dom().contains(id),
    ensures
        added == Err::<(), P>(send),
        final(adding)@ == old(adding)@,
        found is None,
        final(taking)@.plays == old(taking)@.plays,
        drawn != id,
        final(drawing)@.plays[drawn] == send,
        final(drawing)@.plays[id] == old(drawing)@.plays[id],
{
    assert(old(taking)@.plays.remove(id) =~= old(taking)@.plays);
}

/// The domain that a server is assigned leads to it, until it is taken from it
/// again, and then everything is as it was before.
pub proof fn law_domains_lead_to_their_servers<S, P>(
    adding: &mut Router<S, P>,
    router: Router<S, P>,
    removing: &mut Router<S, P>,
    send: S,
    req: Option<&str>,
    words: Vec<String>,
    domain: Option<String>,
    key: &[u8],
    found: Option<&S>,
    removed: Option<S>,
)
    requires
        call_ensures(Router::<S, P>::add_server, (adding, send, req, &words), domain),
        call_ensures(Router::<S, P>::get_domain, (&router, key), found),
        call_ensures(Router::<S, P>::remove_prefix, (removing, key), removed),
        router@ == final(adding)@,
        old(removing)@ == router@,
        domain matches Some(d) && key@ == utf8::encode_utf8(d@),
    ensures
        found == Some(&send),
        removed == Some(send),
        final(removing)@ == old(adding)@,
{
    let before = old(adding)@;
    assert(before.domains.insert(key@, send).remove(key@) =~= before.domains);
}

/// With three words drawn, a server that requests a domain that it cannot have is
/// assigned the one that they make up, unless a server has that already.
pub proof fn law_drawn_words_make_the_domain<S, P>(
    adding: &mut Router<S, P>,
    send: S,
    req: Option<&str>,
    first: &str,
    second: &str,
    third: &str,
    domain: Option<String>,
)
    requires
        call_ensures(Router::<S, P>::add_drawn, (adding, send, req, first, second, third), domain),
        is_out_of_the_question(old(adding)@, req),
    ensures
        ({
            let before = old(adding)@;
            let made = first@ + "-"@ + second@ + "-"@ + third@ + "."@ + before.base;
            if before.domains.dom().contains(utf8::encode_utf8(made)) {
                domain is None && final(adding)@ == before
            } else {
                &&& domain matches Some(d) && d@ == made
                &&& final(adding)@ == (RouterView {
                    domains: before.domains.insert(utf8::encode_utf8(made), send),
                    ..before
                })
            }
        }),
{
    let before = old(adding)@;
    if let Some(s) = req {
        if router::granted(before, req) {
            let all = utf8::encode_utf8(s@);
            let end = utf8::encode_utf8(before.base);
            assert(all.take(all.len() - end.len()) + end =~= all);
        }
    }
}

/// A router knows nobody at first, and has the base and the quota that it was made
/// with.
pub proof fn law_routers_begin_empty<S, P>(
    base: &str,
    recharge: u32,
    burst: u32,
    quota: Quota,
    router: Router<S, P>,
)
    requires
        call_ensures(Quota::new, (recharge, burst), quota),
        call_ensures(Router::<S, P>::new, (base, quota), router),
    ensures
        router@.base == base@,
        router@.domains == Map::<Seq<u8>, S>::empty(),
        router@.plays == Map::<u128, P>::empty(),
        router@.limits == Map::<IpAddr, LimiterView>::empty(),
        router@.ip_quota == (recharge, burst),
{
}

/// What is said here of how often a host may come is said of every connection that
/// the router is asked about.
pub proof fn law_the_router_limits_so<S, P>(
    router: &mut Router<S, P>,
    ip: IpAddr,
    now: u64,
    away: bool,
    limiter: Limiter,
    asked: (Limiter, bool),
)
    requires
        call_ensures(Router::<S, P>::check_ratelimit, (router, ip, now), away),
        call_ensures(Limiter::ask, (limiter, now), asked),
    ensures
        (final(router)@, away) == router::rate_checked(old(router)@, ip, now),
        (asked.0@, asked.1) == limiter::asked(limiter@, now),
{
}

} // verus!
