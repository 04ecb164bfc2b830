//! Virtual network stack: owns one process's routing table and gives routes
//! their semantics.
//!
//! A route maps a destination CIDR to a next-hop router, with two optional
//! time thresholds: `preferred_until` (after which the route is stale but
//! still usable) and `expires_at` (after which it is invalid). The table
//! keeps routes in insertion order and never holds two routes with the same
//! destination CIDR: adding a route whose destination already exists
//! replaces that entry in place, so the entry keeps its original position.
//!
//! Resolution returns the most specific (longest-prefix) non-expired route
//! covering an address; on equal prefix lengths the route inserted first
//! wins. Expiry is checked lazily on every read, and `sweep` physically
//! removes expired entries; raw enumeration (`route_count`, `route_at`)
//! still lists them until then.
//!
//! The table is exclusively owned by one process's stack instance; callers
//! that share it between threads must serialize all operations behind one
//! lock, which Rust's `&mut` discipline makes unavoidable here.

use vstd::prelude::*;
use crate::wire::{Address, Cidr, OptionalTimestamp};

verus! {

/// Semantic or state errors of the stack, independent of memory safety.
#[derive(Clone, Copy, Debug, PartialEq, Eq, Structural)]
pub enum NetworkError {
    /// The route's prefix length and address family are inconsistent.
    InvalidRoute,
    /// No entry with the given key exists.
    NotFound,
    /// An entry with the given key already exists.
    AlreadyExists,
}

/// One routing table entry.
#[derive(Clone, Copy, Debug, PartialEq, Eq, Structural)]
pub struct Route {
    pub destination: Cidr,
    pub via_router: Address,
    pub preferred_until: OptionalTimestamp,
    pub expires_at: OptionalTimestamp,
}

impl Route {
    /// A route is well-formed when its destination CIDR is.
    pub open spec fn wf(self) -> bool {
        self.destination.wf()
    }

    /// The route's expiry threshold has elapsed: the route is invalid and
    /// eligible for removal.
    pub open spec fn expired(self, now: u64) -> bool {
        match self.expires_at {
            OptionalTimestamp::Present { nanos } => nanos <= now,
            OptionalTimestamp::Absent => false,
        }
    }

    /// The route's preference threshold has elapsed: the route is stale
    /// (unpreferred) though still valid until it expires.
    pub open spec fn stale(self, now: u64) -> bool {
        match self.preferred_until {
            OptionalTimestamp::Present { nanos } => nanos <= now,
            OptionalTimestamp::Absent => false,
        }
    }

    /// Runtime check of `expired`.
    pub fn is_expired(&self, now: u64) -> (r: bool)
        ensures
            r == self.expired(now),
    {
        match self.expires_at {
            OptionalTimestamp::Present { nanos } => nanos <= now,
            OptionalTimestamp::Absent => false,
        }
    }

    /// Runtime check of `stale`.
    pub fn is_stale(&self, now: u64) -> (r: bool)
        ensures
            r == self.stale(now),
    {
        match self.preferred_until {
            OptionalTimestamp::Present { nanos } => nanos <= now,
            OptionalTimestamp::Absent => false,
        }
    }
}

/// The destination CIDR covers the address: same family, and the address
/// agrees with the destination on the first `prefix_len` bits, counted from
/// the most significant end of the numeric address value.
pub open spec fn cidr_covers(c: Cidr, a: Address) -> bool {
    match (c.address, a) {
        (Address::V4 { bits: d }, Address::V4 { bits: x }) => {
            c.prefix_len == 0 || (d >> ((32 - c.prefix_len) as u32)) == (x >> ((32
                - c.prefix_len) as u32))
        },
        (Address::V6 { lo: dlo, hi: dhi }, Address::V6 { lo: xlo, hi: xhi }) => {
            if c.prefix_len == 0 {
                true
            } else if c.prefix_len <= 64 {
                (dhi >> ((64 - c.prefix_len) as u64)) == (xhi >> ((64 - c.prefix_len) as u64))
            } else {
                dhi == xhi && (dlo >> ((128 - c.prefix_len) as u64)) == (xlo >> ((128
                    - c.prefix_len) as u64))
            }
        },
        _ => false,
    }
}

/// Runtime check of `cidr_covers`.
pub fn covers(c: &Cidr, a: &Address) -> (r: bool)
    requires
        c.wf(),
    ensures
        r == cidr_covers(*c, *a),
{
    match (&c.address, a) {
        (Address::V4 { bits: d }, Address::V4 { bits: x }) => {
            c.prefix_len == 0 || (*d >> ((32 - c.prefix_len) as u32)) == (*x >> ((32
                - c.prefix_len) as u32))
        },
        (Address::V6 { lo: dlo, hi: dhi }, Address::V6 { lo: xlo, hi: xhi }) => {
            if c.prefix_len == 0 {
                true
            } else if c.prefix_len <= 64 {
                (*dhi >> ((64 - c.prefix_len) as u64)) == (*xhi >> ((64 - c.prefix_len) as u64))
            } else {
                *dhi == *xhi && (*dlo >> ((128 - c.prefix_len) as u64)) == (*xlo >> ((128
                    - c.prefix_len) as u64))
            }
        },
        _ => false,
    }
}

/// The route takes part in resolution for this address at this time: it
/// covers the address and has not expired.
pub open spec fn route_matches(rt: Route, a: Address, now: u64) -> bool {
    cidr_covers(rt.destination, a) && !rt.expired(now)
}

/// Index of the first route with the given destination, or -1 if none.
pub open spec fn find_dest(s: Seq<Route>, d: Cidr) -> int
    decreases s.len(),
{
    if s.len() == 0 {
        -1
    } else if s[0].destination == d {
        0
    } else {
        let rest = find_dest(s.subrange(1, s.len() as int), d);
        if rest == -1 {
            -1
        } else {
            rest + 1
        }
    }
}

/// The table after adding a route: the entry with the same destination is
/// replaced in place if one exists, otherwise the route is appended.
pub open spec fn spec_add_route(s: Seq<Route>, rt: Route) -> Seq<Route> {
    let i = find_dest(s, rt.destination);
    if i == -1 {
        s.push(rt)
    } else {
        s.update(i, rt)
    }
}

/// Table invariant: every route is well-formed and no two routes share a
/// destination CIDR.
pub open spec fn wf_routes(s: Seq<Route>) -> bool {
    &&& forall|i: int| 0 <= i < s.len() ==> (#[trigger] s[i]).wf()
    &&& forall|i: int, j: int|
        #![trigger s[i], s[j]]
        0 <= i < j < s.len() ==> s[i].destination != s[j].destination
}

/// Index of the route that resolution picks: among matching routes, the one
/// with the longest prefix, and among those the first inserted; -1 if no
/// route matches.
pub open spec fn resolve_idx(s: Seq<Route>, a: Address, now: u64) -> int
    decreases s.len(),
{
    if s.len() == 0 {
        -1
    } else {
        let rest = resolve_idx(s.subrange(1, s.len() as int), a, now);
        if rest == -1 {
            if route_matches(s[0], a, now) {
                0
            } else {
                -1
            }
        } else {
            if route_matches(s[0], a, now) && s[0].destination.prefix_len >= s[rest
                + 1].destination.prefix_len {
                0
            } else {
                rest + 1
            }
        }
    }
}

/// What resolution returns on the whole table.
pub open spec fn resolve_spec(s: Seq<Route>, a: Address, now: u64) -> Option<Route> {
    if resolve_idx(s, a, now) == -1 {
        None
    } else {
        Some(s[resolve_idx(s, a, now)])
    }
}

/// Characterization of `find_dest`: it returns the first index holding the
/// destination, and -1 exactly when no index holds it.
pub proof fn lemma_find_dest(s: Seq<Route>, d: Cidr)
    ensures
        -1 <= find_dest(s, d) < s.len(),
        find_dest(s, d) == -1 ==> forall|i: int|
            0 <= i < s.len() ==> (#[trigger] s[i]).destination != d,
        find_dest(s, d) != -1 ==> s[find_dest(s, d)].destination == d,
        find_dest(s, d) != -1 ==> forall|j: int|
            0 <= j < find_dest(s, d) ==> (#[trigger] s[j]).destination != d,
    decreases s.len(),
{
    if s.len() == 0 {
    } else if s[0].destination == d {
    } else {
        let tail = s.subrange(1, s.len() as int);
        lemma_find_dest(tail, d);
        assert forall|i: int| 1 <= i < s.len() implies s[i] == tail[i - 1] by {}
    }
}

/// Converse: if index `i` holds the destination and no earlier index does,
/// `find_dest` returns `i`.
pub proof fn lemma_find_dest_at(s: Seq<Route>, d: Cidr, i: int)
    requires
        0 <= i < s.len(),
        s[i].destination == d,
        forall|j: int| 0 <= j < i ==> (#[trigger] s[j]).destination != d,
    ensures
        find_dest(s, d) == i,
    decreases s.len(),
{
    if i == 0 {
    } else {
        let tail = s.subrange(1, s.len() as int);
        assert forall|j: int| 0 <= j < i - 1 implies (#[trigger] tail[j]).destination != d by {
            assert(tail[j] == s[j + 1]);
        }
        assert(tail[i - 1] == s[i]);
        lemma_find_dest_at(tail, d, i - 1);
    }
}

/// Adding a well-formed route to a well-formed table keeps the table
/// well-formed.
pub proof fn lemma_add_preserves_wf(s: Seq<Route>, rt: Route)
    requires
        wf_routes(s),
        rt.wf(),
    ensures
        wf_routes(spec_add_route(s, rt)),
{
    lemma_find_dest(s, rt.destination);
    let i = find_dest(s, rt.destination);
    let t = spec_add_route(s, rt);
    if i == -1 {
        assert forall|p: int, q: int|
            #![trigger t[p], t[q]]
            0 <= p < q < t.len() implies t[p].destination != t[q].destination by {
            if q < s.len() {
                assert(t[p] == s[p] && t[q] == s[q]);
            } else {
                assert(t[p] == s[p] && t[q] == rt);
            }
        }
    } else {
        assert(s[i].destination == rt.destination);
        assert forall|p: int, q: int|
            #![trigger t[p], t[q]]
            0 <= p < q < t.len() implies t[p].destination != t[q].destination by {
            assert(t[p] == if p == i {
                rt
            } else {
                s[p]
            });
            assert(t[q] == if q == i {
                rt
            } else {
                s[q]
            });
        }
    }
}

/// Characterization of `resolve_idx`: the index it returns matches, carries
/// a prefix at least as long as every matching route's, and is the earliest
/// index among those with that prefix length; -1 means nothing matches.
pub proof fn lemma_resolve_idx(s: Seq<Route>, a: Address, now: u64)
    ensures
        -1 <= resolve_idx(s, a, now) < s.len(),
        resolve_idx(s, a, now) == -1 ==> forall|i: int|
            0 <= i < s.len() ==> !route_matches(#[trigger] s[i], a, now),
        resolve_idx(s, a, now) != -1 ==> route_matches(s[resolve_idx(s, a, now)], a, now),
        resolve_idx(s, a, now) != -1 ==> forall|j: int|
            0 <= j < s.len() && route_matches(#[trigger] s[j], a, now)
                ==> s[j].destination.prefix_len <= s[resolve_idx(
                s,
                a,
                now,
            )].destination.prefix_len,
        resolve_idx(s, a, now) != -1 ==> forall|j: int|
            0 <= j < resolve_idx(s, a, now) && route_matches(#[trigger] s[j], a, now)
                ==> s[j].destination.prefix_len < s[resolve_idx(
                s,
                a,
                now,
            )].destination.prefix_len,
    decreases s.len(),
{
    if s.len() == 0 {
    } else {
        let tail = s.subrange(1, s.len() as int);
        lemma_resolve_idx(tail, a, now);
        assert forall|i: int| 1 <= i < s.len() implies s[i] == tail[i - 1] by {}
    }
}

/// How the resolution index changes when a route is appended: the new route
/// wins only where it matches and carries a strictly longer prefix than the
/// previous winner.
pub proof fn lemma_resolve_idx_push(s: Seq<Route>, x: Route, a: Address, now: u64)
    ensures
        resolve_idx(s.push(x), a, now) == {
            let k = resolve_idx(s, a, now);
            if k == -1 {
                if route_matches(x, a, now) {
                    s.len() as int
                } else {
                    -1
                }
            } else {
                if route_matches(x, a, now) && x.destination.prefix_len
                    > s[k].destination.prefix_len {
                    s.len() as int
                } else {
                    k
                }
            }
        },
    decreases s.len(),
{
    let t = s.push(x);
    if s.len() == 0 {
        assert(t.subrange(1, t.len() as int) =~= Seq::<Route>::empty());
        assert(t[0] == x);
        assert(resolve_idx(Seq::<Route>::empty(), a, now) == -1);
        assert(resolve_idx(t, a, now) == (if route_matches(x, a, now) {
            0int
        } else {
            -1int
        }));
    } else {
        let tail = s.subrange(1, s.len() as int);
        let tp = tail.push(x);
        lemma_resolve_idx_push(tail, x, a, now);
        lemma_resolve_idx(tail, a, now);
        lemma_resolve_idx(s, a, now);
        lemma_resolve_idx(tp, a, now);
        assert(t.subrange(1, t.len() as int) =~= tp);
        assert(t[0] == s[0]);
        assert forall|i: int| 1 <= i < s.len() implies s[i] == tail[i - 1] by {}
        assert forall|i: int| 0 <= i < s.len() implies t[i] == s[i] by {}
        assert forall|i: int| 0 <= i < tail.len() implies tp[i] == tail[i] by {}
        assert(t[t.len() - 1] == x);
        assert(tp[tail.len() as int] == x);
        let kt = resolve_idx(tail, a, now);
        let rest_t = resolve_idx(tp, a, now);
        assert(resolve_idx(s, a, now) == (if kt == -1 {
            if route_matches(s[0], a, now) {
                0int
            } else {
                -1int
            }
        } else {
            if route_matches(s[0], a, now) && s[0].destination.prefix_len >= s[kt
                + 1].destination.prefix_len {
                0int
            } else {
                kt + 1
            }
        }));
        assert(resolve_idx(t, a, now) == (if rest_t == -1 {
            if route_matches(t[0], a, now) {
                0int
            } else {
                -1int
            }
        } else {
            if route_matches(t[0], a, now) && t[0].destination.prefix_len >= t[rest_t
                + 1].destination.prefix_len {
                0int
            } else {
                rest_t + 1
            }
        }));
        if kt != -1 {
            assert(tp[kt] == tail[kt]);
            assert(s[kt + 1] == tail[kt]);
        }
    }
}

/// Every element of a filtered sequence is an element of the original.
pub proof fn lemma_filter_subset(s: Seq<Route>, pred: spec_fn(Route) -> bool)
    ensures
        forall|p: int|
            0 <= p < s.filter(pred).len() ==> s.contains(#[trigger] s.filter(pred)[p]),
    decreases s.len(),
{
    reveal(Seq::filter);
    let out = s.filter(pred);
    if s.len() == 0 {
    } else {
        let t = s.drop_last();
        let x = s.last();
        lemma_filter_subset(t, pred);
        let ft = t.filter(pred);
        assert forall|p: int| 0 <= p < out.len() implies s.contains(#[trigger] out[p]) by {
            if pred(x) && p == out.len() - 1 {
                assert(out[p] == x && s[s.len() - 1] == x);
            } else {
                assert(out[p] == ft[p]);
                assert(t.contains(ft[p]));
                let j = choose|j: int| 0 <= j < t.len() && t[j] == ft[p];
                assert(s[j] == ft[p]);
            }
        }
    }
}

/// Sweeping keeps the table invariant: filtering out expired routes cannot
/// introduce duplicate destinations or ill-formed routes.
pub proof fn lemma_filter_keeps_wf(s: Seq<Route>, now: u64)
    requires
        wf_routes(s),
    ensures
        wf_routes(s.filter(|rt: Route| !rt.expired(now))),
    decreases s.len(),
{
    reveal(Seq::filter);
    let pred = |rt: Route| !rt.expired(now);
    let out = s.filter(pred);
    lemma_filter_subset(s, pred);
    assert forall|p: int| 0 <= p < out.len() implies (#[trigger] out[p]).wf() by {
        let j = choose|j: int| 0 <= j < s.len() && s[j] == out[p];
    }
    if s.len() == 0 {
    } else {
        let t = s.drop_last();
        let x = s.last();
        assert(wf_routes(t)) by {
            assert forall|i: int| 0 <= i < t.len() implies (#[trigger] t[i]).wf() by {
                assert(t[i] == s[i]);
            }
        }
        lemma_filter_keeps_wf(t, now);
        lemma_filter_subset(t, pred);
        let ft = t.filter(pred);
        assert forall|p: int, q: int|
            #![trigger out[p], out[q]]
            0 <= p < q < out.len() implies out[p].destination != out[q].destination by {
            if pred(x) && q == out.len() - 1 {
                assert(out[q] == x);
                assert(out[p] == ft[p]);
                assert(t.contains(ft[p]));
                let j = choose|j: int| 0 <= j < t.len() && t[j] == ft[p];
                assert(s[j] == out[p] && s[s.len() - 1] == x);
            } else {
                assert(out[p] == ft[p] && out[q] == ft[q]);
            }
        }
    }
}

/// Law: after a successful add, resolving an address inside the added
/// route's destination returns exactly that route, provided the route is
/// not yet expired and no other live route in the resulting table covers
/// the address with an equal or longer prefix.
pub proof fn lemma_add_then_resolve(s: Seq<Route>, rt: Route, a: Address, now: u64)
    requires
        wf_routes(s),
        rt.wf(),
        cidr_covers(rt.destination, a),
        !rt.expired(now),
        forall|j: int|
            0 <= j < spec_add_route(s, rt).len() && (#[trigger] spec_add_route(s, rt)[j]).destination
                != rt.destination && route_matches(spec_add_route(s, rt)[j], a, now)
                ==> spec_add_route(s, rt)[j].destination.prefix_len
                < rt.destination.prefix_len,
    ensures
        resolve_spec(spec_add_route(s, rt), a, now) == Some(rt),
{
    let t = spec_add_route(s, rt);
    lemma_add_preserves_wf(s, rt);
    lemma_find_dest(s, rt.destination);
    let fd = find_dest(s, rt.destination);
    let ia: int = if fd == -1 {
        s.len() as int
    } else {
        fd
    };
    assert(t[ia] == rt);
    lemma_resolve_idx(t, a, now);
    let k = resolve_idx(t, a, now);
    assert(route_matches(t[ia], a, now));
    assert(k != -1);
    if t[k].destination != rt.destination {
        assert(t[k].destination.prefix_len < rt.destination.prefix_len);
        assert(rt.destination.prefix_len <= t[k].destination.prefix_len);
        assert(false);
    } else if k != ia {
        assert(t[k].destination != t[ia].destination);
        assert(false);
    }
    assert(t[k] == rt);
}

/// Law: resolution picks a most specific route — whatever it returns has a
/// prefix at least as long as that of every live route covering the
/// address, and something is returned whenever one matches.
pub proof fn lemma_resolve_most_specific(s: Seq<Route>, a: Address, now: u64, j: int)
    requires
        0 <= j < s.len(),
        route_matches(s[j], a, now),
    ensures
        resolve_spec(s, a, now) is Some,
        resolve_spec(s, a, now) matches Some(b) ==> route_matches(b, a, now)
            && s[j].destination.prefix_len <= b.destination.prefix_len,
{
    lemma_resolve_idx(s, a, now);
}

/// Law: resolution comes back empty exactly when no live route covers the
/// address.
pub proof fn lemma_resolve_none(s: Seq<Route>, a: Address, now: u64)
    ensures
        (resolve_spec(s, a, now) is None) <==> (forall|i: int|
            0 <= i < s.len() ==> !route_matches(#[trigger] s[i], a, now)),
{
    lemma_resolve_idx(s, a, now);
}

/// Law: ties on prefix length go to insertion order. If the route at index
/// `i` matches and no live covering route is more specific, resolution
/// returns an entry no later than `i`: the first-inserted of the most
/// specific matching routes wins.
pub proof fn lemma_first_inserted_wins(s: Seq<Route>, a: Address, now: u64, i: int)
    requires
        0 <= i < s.len(),
        route_matches(s[i], a, now),
        forall|k: int|
            0 <= k < s.len() && route_matches(#[trigger] s[k], a, now)
                ==> s[k].destination.prefix_len <= s[i].destination.prefix_len,
    ensures
        resolve_idx(s, a, now) != -1,
        resolve_idx(s, a, now) <= i,
        resolve_spec(s, a, now) == Some(s[resolve_idx(s, a, now)]),
{
    lemma_resolve_idx(s, a, now);
    let k = resolve_idx(s, a, now);
    if k > i {
        assert(s[i].destination.prefix_len < s[k].destination.prefix_len);
        assert(s[k].destination.prefix_len <= s[i].destination.prefix_len);
        assert(false);
    }
}

/// Law: a route whose expiry has elapsed is never returned by resolution,
/// though raw enumeration still lists it until a sweep removes it.
pub proof fn lemma_expired_route_not_resolved(s: Seq<Route>, a: Address, now: u64, i: int)
    requires
        wf_routes(s),
        0 <= i < s.len(),
        s[i].expired(now),
    ensures
        resolve_spec(s, a, now) != Some(s[i]),
{
    lemma_resolve_idx(s, a, now);
    let k = resolve_idx(s, a, now);
    if k != -1 && s[k] == s[i] {
        if k != i {
            assert(s[k].destination != s[i].destination);
        }
        assert(route_matches(s[k], a, now));
        assert(false);
    }
}

/// Law: sweeping is invisible to resolution. Physically removing the
/// expired routes at time `now` changes nothing about what resolution
/// returns at `now`, since resolution already skips them.
pub proof fn lemma_sweep_preserves_resolution(s: Seq<Route>, a: Address, now: u64)
    ensures
        resolve_spec(s.filter(|rt: Route| !rt.expired(now)), a, now) == resolve_spec(s, a, now),
    decreases s.len(),
{
    reveal(Seq::filter);
    let pred = |rt: Route| !rt.expired(now);
    if s.len() == 0 {
        assert(s.filter(pred) =~= Seq::<Route>::empty());
    } else {
        let t = s.drop_last();
        let x = s.last();
        lemma_sweep_preserves_resolution(t, a, now);
        assert(s =~= t.push(x));
        lemma_resolve_idx_push(t, x, a, now);
        lemma_resolve_idx(t, a, now);
        lemma_resolve_idx(s, a, now);
        let ft = t.filter(pred);
        lemma_resolve_idx(ft, a, now);
        let kt = resolve_idx(t, a, now);
        let kf = resolve_idx(ft, a, now);
        if pred(x) {
            assert(s.filter(pred) == ft.push(x));
            lemma_resolve_idx_push(ft, x, a, now);
            lemma_resolve_idx(ft.push(x), a, now);
            if kt != -1 {
                assert(kf != -1);
                assert(ft[kf] == t[kt]);
                assert(s[kt] == t[kt]);
                assert((ft.push(x))[kf] == ft[kf]);
                assert(s[s.len() - 1] == x);
                assert((ft.push(x))[ft.len() as int] == x);
            }
        } else {
            assert(s.filter(pred) == ft);
            assert(!route_matches(x, a, now));
            if kt != -1 {
                assert(s[kt] == t[kt]);
            }
        }
    }
}

/// One process's routing table: an insertion-ordered collection of routes
/// with pairwise distinct destination CIDRs.
pub struct RoutingTable {
    routes: Vec<Route>,
}

impl View for RoutingTable {
    type V = Seq<Route>;

    closed spec fn view(&self) -> Seq<Route> {
        self.routes@
    }
}

impl RoutingTable {
    /// Table invariant; established by `new` and preserved by every method.
    pub open spec fn wf(self) -> bool {
        wf_routes(self@)
    }

    /// An empty routing table.
    pub fn new() -> (r: RoutingTable)
        ensures
            r@ == Seq::<Route>::empty(),
            r.wf(),
    {
        RoutingTable { routes: Vec::new() }
    }

    /// Number of entries, expired ones included: raw enumeration counts a
    /// route until a sweep removes it.
    pub fn route_count(&self) -> (r: usize)
        ensures
            r == self@.len(),
    {
        self.routes.len()
    }

    /// The entry at one position of the insertion order, expired or not.
    pub fn route_at(&self, i: usize) -> (r: Route)
        requires
            i < self@.len(),
        ensures
            r == self@[i as int],
    {
        *vstd::std_specs::vec::vec_index(&self.routes, i)
    }

    /// Inserts the route keyed by `destination`, replacing in place any
    /// entry with that exact destination. Succeeds even if the route is
    /// already expired: the caller's timestamps are trusted at this
    /// boundary, and a sweep may remove the entry later. Fails only when
    /// the destination CIDR itself is inconsistent, which the stack
    /// re-validates as the authority over its own state.
    pub fn route_add(
        &mut self,
        destination: Cidr,
        via_router: Address,
        preferred_until: OptionalTimestamp,
        expires_at: OptionalTimestamp,
    ) -> (r: Result<(), NetworkError>)
        requires
            old(self).wf(),
        ensures
            final(self).wf(),
            !destination.wf() ==> r == Err::<(), NetworkError>(NetworkError::InvalidRoute)
                && final(self)@ == old(self)@,
            destination.wf() ==> r == Ok::<(), NetworkError>(()) && final(self)@ == spec_add_route(
                old(self)@,
                Route { destination, via_router, preferred_until, expires_at },
            ),
    {
        if !destination.is_wf() {
            return Err(NetworkError::InvalidRoute);
        }
        let rt = Route { destination, via_router, preferred_until, expires_at };
        let n = self.routes.len();
        let mut i: usize = 0;
        while i < n
            invariant
                old(self).wf(),
                destination.wf(),
                rt == (Route { destination, via_router, preferred_until, expires_at }),
                n == self@.len(),
                i <= n,
                self@ == old(self)@,
                forall|j: int| 0 <= j < i ==> (#[trigger] self@[j]).destination != destination,
            decreases n - i,
        {
            if self.routes[i].destination == destination {
                proof {
                    lemma_find_dest_at(self@, destination, i as int);
                    lemma_add_preserves_wf(self@, rt);
                }
                self.routes.set(i, rt);
                return Ok(());
            }
            i = i + 1;
        }
        proof {
            lemma_find_dest(self@, destination);
            lemma_add_preserves_wf(self@, rt);
        }
        self.routes.push(rt);
        Ok(())
    }

    /// Removes the route with exactly this destination; fails with
    /// `NotFound`, leaving the table unchanged, when no such entry exists.
    pub fn route_remove(&mut self, destination: Cidr) -> (r: Result<(), NetworkError>)
        requires
            old(self).wf(),
        ensures
            final(self).wf(),
            r == Err::<(), NetworkError>(NetworkError::NotFound) <==> find_dest(
                old(self)@,
                destination,
            ) == -1,
            find_dest(old(self)@, destination) == -1 ==> final(self)@ == old(self)@,
            find_dest(old(self)@, destination) != -1 ==> r == Ok::<(), NetworkError>(())
                && final(self)@ == old(self)@.remove(find_dest(old(self)@, destination)),
    {
        let n = self.routes.len();
        let mut i: usize = 0;
        while i < n
            invariant
                old(self).wf(),
                n == self@.len(),
                i <= n,
                self@ == old(self)@,
                forall|j: int| 0 <= j < i ==> (#[trigger] self@[j]).destination != destination,
            decreases n - i,
        {
            if self.routes[i].destination == destination {
                proof {
                    lemma_find_dest_at(self@, destination, i as int);
                    let t = self@.remove(i as int);
                    assert forall|p: int, q: int|
                        #![trigger t[p], t[q]]
                        0 <= p < q < t.len() implies t[p].destination != t[q].destination by {
                        assert(t[p] == if p < i {
                            self@[p]
                        } else {
                            self@[p + 1]
                        });
                        assert(t[q] == if q < i {
                            self@[q]
                        } else {
                            self@[q + 1]
                        });
                    }
                    assert forall|p: int| 0 <= p < t.len() implies (#[trigger] t[p]).wf() by {
                        assert(t[p] == if p < i {
                            self@[p]
                        } else {
                            self@[p + 1]
                        });
                    }
                }
                self.routes.remove(i);
                return Ok(());
            }
            i = i + 1;
        }
        proof {
            lemma_find_dest(self@, destination);
        }
        Err(NetworkError::NotFound)
    }

    /// Longest-prefix resolution at time `now`: returns the most specific
    /// non-expired route covering the address, the first inserted on equal
    /// prefix lengths, or nothing when no live route covers it.
    pub fn route_resolve(&self, address: &Address, now: u64) -> (r: Option<Route>)
        requires
            self.wf(),
        ensures
            r == resolve_spec(self@, *address, now),
    {
        let n = self.routes.len();
        let mut best: Option<Route> = None;
        let mut i: usize = 0;
        proof {
            assert(self@.subrange(0, 0) =~= Seq::<Route>::empty());
        }
        while i < n
            invariant
                self.wf(),
                n == self@.len(),
                i <= n,
                best == resolve_spec(self@.subrange(0, i as int), *address, now),
                best matches Some(b) ==> exists|k: int|
                    0 <= k < i && #[trigger] self@[k] == b,
            decreases n - i,
        {
            let ghost pre = self@.subrange(0, i as int);
            let rt = self.routes[i];
            proof {
                lemma_resolve_idx_push(pre, rt, *address, now);
                lemma_resolve_idx(pre, *address, now);
                assert(self@.subrange(0, i + 1) =~= pre.push(rt));
            }
            let matches_here = covers(&rt.destination, address) && !rt.is_expired(now);
            match &best {
                Option::None => {
                    if matches_here {
                        best = Some(rt);
                    }
                },
                Option::Some(b) => {
                    if matches_here && rt.destination.prefix_len > b.destination.prefix_len {
                        best = Some(rt);
                    }
                },
            }
            i = i + 1;
        }
        proof {
            assert(self@.subrange(0, n as int) =~= self@);
        }
        best
    }

    /// Physically removes every route whose expiry has elapsed at `now`,
    /// keeping the surviving routes in their insertion order.
    pub fn sweep(&mut self, now: u64)
        requires
            old(self).wf(),
        ensures
            final(self).wf(),
            final(self)@ == old(self)@.filter(|rt: Route| !rt.expired(now)),
    {
        let n = self.routes.len();
        let mut kept: Vec<Route> = Vec::new();
        let mut i: usize = 0;
        proof {
            reveal(Seq::filter);
            assert(self@.subrange(0, 0) =~= Seq::<Route>::empty());
        }
        while i < n
            invariant
                self.wf(),
                self@ == old(self)@,
                n == self@.len(),
                i <= n,
                kept@ == self@.subrange(0, i as int).filter(|rt: Route| !rt.expired(now)),
            decreases n - i,
        {
            let ghost pre = self@.subrange(0, i as int);
            let rt = self.routes[i];
            proof {
                reveal(Seq::filter);
                let post = self@.subrange(0, i + 1);
                assert(post =~= pre.push(rt));
                assert(post.drop_last() =~= pre);
                assert(post.last() == rt);
            }
            if !rt.is_expired(now) {
                kept.push(rt);
            }
            i = i + 1;
        }
        proof {
            assert(self@.subrange(0, n as int) =~= self@);
            lemma_filter_keeps_wf(self@, now);
        }
        self.routes = kept;
    }
}

} // verus!
