//! Who is asking, and how often: client addresses and the rate limiter.
use vstd::prelude::*;

use std::collections::HashMap;

use crate::text;

verus! {

// ---------------------------------------------------------------------------
// Addresses
// ---------------------------------------------------------------------------

/// An IP address, by its number.
#[derive(Debug, Clone, Copy, PartialEq, Eq, Structural)]
pub enum IpAddress {
    V4(u32),
    V6(u128),
}

/// A network of addresses: those that agree with `ip` in the first `prefix`
/// bits.
#[derive(Debug, Clone, Copy)]
pub struct Network {
    pub ip: IpAddress,
    pub prefix: u8,
}

impl Network {
    /// The prefix is no longer than an address.
    pub open spec fn wf(self) -> bool {
        match self.ip {
            IpAddress::V4(_) => self.prefix <= 32,
            IpAddress::V6(_) => self.prefix <= 128,
        }
    }
}

/// The address is in the network: it is of the same kind, and agrees with it in
/// the bits of the prefix.
pub open spec fn in_network(net: Network, ip: IpAddress) -> bool {
    match (net.ip, ip) {
        (IpAddress::V4(a), IpAddress::V4(b)) => {
            let host = vstd::arithmetic::power2::pow2((32 - net.prefix) as nat);
            a as nat / host == b as nat / host
        },
        (IpAddress::V6(a), IpAddress::V6(b)) => {
            let host = vstd::arithmetic::power2::pow2((128 - net.prefix) as nat);
            a as nat / host == b as nat / host
        },
        _ => false,
    }
}

/// `ipnet::IpNet`, which only passes between the functions below.
#[verifier::external_type_specification]
#[verifier::external_body]
pub struct ExIpNet(ipnet::IpNet);

/// The network that `ipnet` reads from a text, if it reads as one.
pub uninterp spec fn network_read(s: Seq<char>) -> Option<Network>;

/// The address that a text writes, if it writes one.
pub uninterp spec fn address_read(s: Seq<char>) -> Option<IpAddress>;

/// The four bytes of an address, from the highest, in decimal with dots between.
pub open spec fn dotted(a: u32) -> Seq<char> {
    text::dec(a as nat / 0x100_0000) + "."@ + text::dec(a as nat / 0x1_0000 % 0x100) + "."@
        + text::dec(a as nat / 0x100 % 0x100) + "."@ + text::dec(a as nat % 0x100)
}

/// A network as an `ipnet::IpNet`. Nothing is claimed of it: the test of
/// membership calls it on its arguments.
#[verifier::external_body]
fn to_net(ip: &IpAddress, prefix: u8) -> ipnet::IpNet {
    match ip {
        IpAddress::V4(a) => ipnet::IpNet::V4(
            ipnet::Ipv4Net::new((*a).into(), prefix).unwrap_or_default(),
        ),
        IpAddress::V6(a) => ipnet::IpNet::V6(
            ipnet::Ipv6Net::new((*a).into(), prefix).unwrap_or_default(),
        ),
    }
}

/// What an `ipnet::IpNet` holds. Nothing is claimed of it: the functions that
/// read text call it on their result.
#[verifier::external_body]
fn from_net(n: ipnet::IpNet) -> Network {
    match n {
        ipnet::IpNet::V4(v) => Network {
            ip: IpAddress::V4(v.addr().into()),
            prefix: v.prefix_len(),
        },
        ipnet::IpNet::V6(v) => Network {
            ip: IpAddress::V6(v.addr().into()),
            prefix: v.prefix_len(),
        },
    }
}

/// `str::parse` at `ipnet::IpNet`: whether the text writes a network, and which,
/// are functions of the text, and its prefix fits its address.
#[verifier::external_body]
fn parse_network(s: &str) -> (r: Option<Network>)
    ensures
        r == network_read(s@),
        r is Some ==> r->0.wf(),
{
    s.parse::<ipnet::IpNet>().ok().map(from_net)
}

/// `ipnet::IpNet::contains` for an address: the two are of the same kind and
/// agree in the bits of the prefix.
#[verifier::external_body]
fn network_holds(net: &Network, ip: &IpAddress) -> (r: bool)
    requires
        net.wf(),
    ensures
        r == in_network(*net, *ip),
{
    to_net(&net.ip, net.prefix).contains(&to_net(ip, 0).addr())
}

/// `str::parse` at the address type that `ipnet::IpNet::new` takes: whether the
/// text writes an address, and which, are functions of the text. Four decimal
/// numbers with dots between write the address of those bytes.
#[verifier::external_body]
fn parse_address(s: &str) -> (r: Option<IpAddress>)
    ensures
        r == address_read(s@),
        forall|a: u32| #[trigger] dotted(a) == s@ ==> r == Some(IpAddress::V4(a)),
{
    s.parse().ok().and_then(|a| ipnet::IpNet::new(a, 0).ok()).map(|n| from_net(n).ip)
}

/// The networks that the pieces of a list write; what writes none is left out.
pub open spec fn networks_read(pieces: Seq<Seq<char>>) -> Seq<Network>
    decreases pieces.len(),
{
    if pieces.len() == 0 {
        Seq::empty()
    } else {
        let front = networks_read(pieces.drop_last());
        match network_read(text::trim(pieces.last())) {
            Some(n) => front.push(n),
            None => front,
        }
    }
}

/// Every prefix is no longer than its address.
pub open spec fn all_wf(nets: Seq<Network>) -> bool {
    forall|i: int| 0 <= i < nets.len() ==> (#[trigger] nets[i]).wf()
}

/// The networks that a list with commas writes; what writes none is left out.
pub fn read_networks(list: &str) -> (r: Vec<Network>)
    ensures
        r@ == networks_read(text::split(list@, ',')),
        all_wf(r@),
{
    let pieces = text::split_on(list, ',');
    let ghost all = text::views(pieces@);
    let mut out: Vec<Network> = Vec::new();
    let mut i: usize = 0;
    proof {
        assert(out@ == networks_read(all.take(0)));
    }
    while i < pieces.len()
        invariant
            all == text::views(pieces@),
            i <= pieces@.len(),
            out@ == networks_read(all.take(i as int)),
            all_wf(out@),
        decreases pieces@.len() - i,
    {
        proof {
            assert(all.take(i + 1).drop_last() == all.take(i as int));
            assert(all.take(i + 1).last() == pieces@[i as int]@);
        }
        let t = text::trim_white(pieces[i].as_str());
        if let Some(n) = parse_network(t.as_str()) {
            out.push(n);
        }
        i = i + 1;
    }
    proof {
        assert(all.take(i as int) == all);
    }
    out
}

// ---------------------------------------------------------------------------
// The client behind a proxy
// ---------------------------------------------------------------------------

/// The peer is in one of the networks.
pub open spec fn trusted(nets: Seq<Network>, peer: IpAddress) -> bool {
    exists|i: int| 0 <= i < nets.len() && in_network(#[trigger] nets[i], peer)
}

/// The address that a list of forwarders names first.
pub open spec fn forwarded(list: Option<Seq<char>>) -> Option<IpAddress> {
    match list {
        Some(s) => address_read(text::trim(text::split(s, ',')[0])),
        None => None,
    }
}

/// The client of a request: the address that is forwarded, where the peer is a
/// trusted proxy and an address is forwarded, else the peer.
pub open spec fn client(
    nets: Seq<Network>,
    peer: IpAddress,
    first: Option<IpAddress>,
) -> IpAddress {
    if trusted(nets, peer) {
        match first {
            Some(ip) => ip,
            None => peer,
        }
    } else {
        peer
    }
}

/// What a peer says of forwarders counts for nothing unless the peer is a
/// trusted proxy.
pub proof fn law_only_proxies_forward(
    nets: Seq<Network>,
    peer: IpAddress,
    first: Option<IpAddress>,
)
    requires
        !trusted(nets, peer),
    ensures
        client(nets, peer, first) == peer,
{
}

fn is_trusted(nets: &Vec<Network>, peer: &IpAddress) -> (r: bool)
    requires
        all_wf(nets@),
    ensures
        r == trusted(nets@, *peer),
{
    let mut i: usize = 0;
    while i < nets.len()
        invariant
            all_wf(nets@),
            i <= nets@.len(),
            forall|k: int| 0 <= k < i ==> !in_network(#[trigger] nets@[k], *peer),
        decreases nets@.len() - i,
    {
        if network_holds(&nets[i], peer) {
            return true;
        }
        i = i + 1;
    }
    false
}

/// The peer of a request that came without one.
pub fn unknown_peer() -> (r: IpAddress)
    ensures
        r == IpAddress::V4(0),
{
    IpAddress::V4(0)
}

// ---------------------------------------------------------------------------
// The limiter
// ---------------------------------------------------------------------------

/// The most addresses that are tracked.
pub const MAX_TRACKED_IPS: usize = 10_000;

/// `std::time::Instant`, which only passes between the functions below.
#[verifier::external_type_specification]
#[verifier::external_body]
pub struct ExInstant(std::time::Instant);

/// `std::time::Instant::now`. Nothing is claimed of the time.
#[verifier::external_body]
pub(crate) fn clock() -> std::time::Instant {
    std::time::Instant::now()
}

/// `std::time::Instant::elapsed`, in nanoseconds. Nothing is claimed of the
/// time.
#[verifier::external_body]
pub(crate) fn nanos_since(start: &std::time::Instant) -> u128 {
    start.elapsed().as_nanos()
}

/// How often each address may ask in a stretch of time.
pub struct RateLimiter {
    started: std::time::Instant,
    v4: HashMap<u32, Vec<u128>>,
    v6: HashMap<u128, Vec<u128>>,
    max_requests: usize,
    window_secs: u64,
    max_tracked_ips: usize,
    trusted_proxies: Vec<Network>,
}

/// What a limiter holds.
#[verifier::ext_equal]
pub struct LimiterView {
    /// When each address asked, in nanoseconds from some start, as far as it
    /// matters.
    pub v4: Map<u32, Seq<u128>>,
    pub v6: Map<u128, Seq<u128>>,
    pub max_requests: nat,
    pub window: nat,
    pub max_tracked: nat,
    pub proxies: Seq<Network>,
}

/// The moments in a map of vectors.
pub open spec fn moments<K>(m: Map<K, Vec<u128>>) -> Map<K, Seq<u128>> {
    m.map_values(|v: Vec<u128>| v@)
}

impl View for RateLimiter {
    type V = LimiterView;

    closed spec fn view(&self) -> LimiterView {
        LimiterView {
            v4: moments(self.v4@),
            v6: moments(self.v6@),
            max_requests: self.max_requests as nat,
            window: self.window_secs as nat * 1_000_000_000,
            max_tracked: self.max_tracked_ips as nat,
            proxies: self.trusted_proxies@,
        }
    }
}

/// How long before `now` the moment `t` was; nothing where it was not before.
pub open spec fn age(now: u128, t: u128) -> int {
    if now >= t {
        now - t
    } else {
        0
    }
}

/// The moments that are still within the window at `now`, in their order.
pub open spec fn recent(q: Seq<u128>, now: u128, window: nat) -> Seq<u128>
    decreases q.len(),
{
    if q.len() == 0 {
        q
    } else if age(now, q.last()) < window {
        recent(q.drop_last(), now, window).push(q.last())
    } else {
        recent(q.drop_last(), now, window)
    }
}

impl LimiterView {
    /// The address is tracked.
    pub open spec fn tracks(self, ip: IpAddress) -> bool {
        match ip {
            IpAddress::V4(a) => self.v4.contains_key(a),
            IpAddress::V6(a) => self.v6.contains_key(a),
        }
    }

    /// When the address asked, as far as it matters.
    pub open spec fn asked(self, ip: IpAddress) -> Seq<u128> {
        if !self.tracks(ip) {
            Seq::empty()
        } else {
            match ip {
                IpAddress::V4(a) => self.v4[a],
                IpAddress::V6(a) => self.v6[a],
            }
        }
    }

    /// The limiter with these moments for an address.
    pub open spec fn with(self, ip: IpAddress, q: Seq<u128>) -> LimiterView {
        match ip {
            IpAddress::V4(a) => LimiterView { v4: self.v4.insert(a, q), ..self },
            IpAddress::V6(a) => LimiterView { v6: self.v6.insert(a, q), ..self },
        }
    }

    /// How many addresses are tracked.
    pub open spec fn population(self) -> nat {
        self.v4.dom().len() + self.v6.dom().len()
    }

    /// The limits are kept: not too many addresses are tracked, and none asked
    /// too often.
    pub open spec fn wf(self) -> bool {
        &&& self.v4.dom().finite()
        &&& self.v6.dom().finite()
        &&& all_wf(self.proxies)
        &&& self.population() <= self.max_tracked
        &&& forall|ip: IpAddress| (#[trigger] self.asked(ip)).len() <= self.max_requests
    }
}

/// A request of `ip` at `now`: the limiter after it, and whether it is let
/// through. An address that is not tracked yet is refused where too many are.
pub open spec fn asked_at(l: LimiterView, ip: IpAddress, now: u128) -> (LimiterView, bool) {
    if !l.tracks(ip) && l.population() >= l.max_tracked {
        (l, false)
    } else {
        let q = recent(l.asked(ip), now, l.window);
        if q.len() >= l.max_requests {
            (l.with(ip, q), false)
        } else {
            (l.with(ip, q.push(now)), true)
        }
    }
}

fn still_recent(q: &Vec<u128>, now: u128, window_secs: u64) -> (r: Vec<u128>)
    ensures
        r@ == recent(q@, now, window_secs as nat * 1_000_000_000),
{
    let window: u128 = window_secs as u128 * 1_000_000_000;
    let mut out: Vec<u128> = Vec::new();
    let mut i: usize = 0;
    proof {
        assert(out@ == recent(q@.take(0), now, window as nat));
    }
    while i < q.len()
        invariant
            window == window_secs as nat * 1_000_000_000,
            i <= q@.len(),
            out@ == recent(q@.take(i as int), now, window as nat),
        decreases q@.len() - i,
    {
        proof {
            assert(q@.take(i + 1).drop_last() == q@.take(i as int));
        }
        let t: u128 = q[i];
        let old_by: u128 = if now >= t {
            now - t
        } else {
            0
        };
        if old_by < window {
            out.push(t);
        }
        i = i + 1;
    }
    proof {
        assert(q@.take(i as int) == q@);
    }
    out
}

impl RateLimiter {
    /// A limiter that trusts no proxy.
    pub fn new(max_requests: usize, window_secs: u64) -> (r: RateLimiter)
        ensures
            r@ == idle_limiter(max_requests as nat, window_secs, Seq::empty()),
            r@.wf(),
    {
        RateLimiter::with_trusted_proxies(max_requests, window_secs, Vec::new())
    }

    /// A limiter that trusts the proxies in these networks.
    pub fn with_trusted_proxies(
        max_requests: usize,
        window_secs: u64,
        proxies: Vec<Network>,
    ) -> (r: RateLimiter)
        requires
            all_wf(proxies@),
        ensures
            r@ == idle_limiter(max_requests as nat, window_secs, proxies@),
            r@.wf(),
    {
        broadcast use vstd::std_specs::hash::group_hash_axioms;

        let r = RateLimiter {
            started: clock(),
            v4: HashMap::new(),
            v6: HashMap::new(),
            max_requests,
            window_secs,
            max_tracked_ips: MAX_TRACKED_IPS,
            trusted_proxies: proxies,
        };
        proof {
            assert(r@ =~= idle_limiter(max_requests as nat, window_secs, proxies@));
            assert(r@.v4.dom() =~= Set::empty());
            assert(r@.v6.dom() =~= Set::empty());
        }
        r
    }

    /// The client of a request that came from `peer` with this list of
    /// forwarders. Where the peer is trusted and the list starts with four decimal
    /// numbers with dots between, it is the address of those bytes.
    pub fn client_ip_for(&self, forwarded_for: Option<&str>, peer: IpAddress) -> (r: IpAddress)
        requires
            self@.wf(),
        ensures
            r == client(
                self@.proxies,
                peer,
                forwarded(
                    match forwarded_for {
                        Some(s) => Some(s@),
                        None => None,
                    },
                ),
            ),
            forwarded_for matches Some(s) ==> (trusted(self@.proxies, peer) ==> forall|a: u32|
                text::trim(text::split(s@, ',')[0]) == #[trigger] dotted(a) ==> r
                    == IpAddress::V4(a)),
    {
        let first = match forwarded_for {
            Some(s) => {
                proof {
                    text::lemma_split_nonempty(s@, ',');
                }
                let pieces = text::split_on(s, ',');
                proof {
                    assert(text::views(pieces@)[0] == pieces@[0]@);
                }
                let t = text::trim_white(pieces[0].as_str());
                parse_address(t.as_str())
            },
            None => None,
        };
        self.client_given(peer, first)
    }

    /// The client of a request that came from `peer`, where `first` is the
    /// address that its list of forwarders names first.
    pub fn client_given(&self, peer: IpAddress, first: Option<IpAddress>) -> (r: IpAddress)
        requires
            self@.wf(),
        ensures
            r == client(self@.proxies, peer, first),
    {
        if !is_trusted(&self.trusted_proxies, &peer) {
            return peer;
        }
        match first {
            Some(ip) => ip,
            None => peer,
        }
    }

    fn times(&self, ip: &IpAddress) -> (r: Option<Vec<u128>>)
        ensures
            match r {
                Some(q) => self@.tracks(*ip) && q@ == self@.asked(*ip),
                None => !self@.tracks(*ip),
            },
    {
        broadcast use vstd::std_specs::hash::group_hash_axioms;

        match ip {
            IpAddress::V4(a) => match self.v4.get(a) {
                Some(q) => Some(q.clone()),
                None => None,
            },
            IpAddress::V6(a) => match self.v6.get(a) {
                Some(q) => Some(q.clone()),
                None => None,
            },
        }
    }

    fn set_times(&mut self, ip: IpAddress, q: Vec<u128>)
        ensures
            final(self)@ == old(self)@.with(ip, q@),
    {
        broadcast use vstd::std_specs::hash::group_hash_axioms;

        match ip {
            IpAddress::V4(a) => {
                self.v4.insert(a, q);
            },
            IpAddress::V6(a) => {
                self.v6.insert(a, q);
            },
        }
        proof {
            assert(self@.v4 =~= old(self)@.with(ip, q@).v4);
            assert(self@.v6 =~= old(self)@.with(ip, q@).v6);
        }
    }

    /// A request of `ip` at the moment `now`, in nanoseconds from some start:
    /// whether it is let through.
    pub fn check_at(&mut self, ip: IpAddress, now: u128) -> (r: bool)
        requires
            old(self)@.wf(),
        ensures
            (final(self)@, r) == asked_at(old(self)@, ip, now),
            final(self)@.wf(),
    {
        broadcast use vstd::std_specs::hash::group_hash_axioms;

        let ghost before = self@;
        proof {
            law_limits_are_kept(before, ip, now);
            assert(self.v4@.dom() =~= before.v4.dom());
            assert(self.v6@.dom() =~= before.v6.dom());
        }
        let known = self.times(&ip);
        let count: u128 = self.v4.len() as u128 + self.v6.len() as u128;
        let q = match known {
            Some(q) => q,
            None => {
                if count >= self.max_tracked_ips as u128 {
                    return false;
                }
                Vec::new()
            },
        };
        let mut q = still_recent(&q, now, self.window_secs);
        if q.len() >= self.max_requests {
            self.set_times(ip, q);
            return false;
        }
        q.push(now);
        self.set_times(ip, q);
        true
    }

    /// A request of `ip` now: whether it is let through.
    pub fn check(&mut self, ip: IpAddress) -> (r: bool)
        requires
            old(self)@.wf(),
        ensures
            exists|now: u128| (final(self)@, r) == #[trigger] asked_at(old(self)@, ip, now),
            final(self)@.wf(),
    {
        let now: u128 = nanos_since(&self.started);
        self.check_at(ip, now)
    }
}

/// A limiter that has seen no request.
pub open spec fn idle_limiter(
    max_requests: nat,
    window_secs: u64,
    proxies: Seq<Network>,
) -> LimiterView {
    LimiterView {
        v4: Map::empty(),
        v6: Map::empty(),
        max_requests,
        window: window_secs as nat * 1_000_000_000,
        max_tracked: MAX_TRACKED_IPS as nat,
        proxies,
    }
}

// ---------------------------------------------------------------------------
// Laws of the limiter
// ---------------------------------------------------------------------------

proof fn lemma_recent_shrinks(q: Seq<u128>, now: u128, window: nat)
    ensures
        recent(q, now, window).len() <= q.len(),
    decreases q.len(),
{
    if q.len() > 0 {
        lemma_recent_shrinks(q.drop_last(), now, window);
    }
}

/// Whatever is asked, not too many addresses are tracked, and for none are more
/// requests kept than it may make.
pub proof fn law_limits_are_kept(l: LimiterView, ip: IpAddress, now: u128)
    requires
        l.wf(),
    ensures
        asked_at(l, ip, now).0.wf(),
{
    let q = recent(l.asked(ip), now, l.window);
    lemma_recent_shrinks(l.asked(ip), now, l.window);
    let after = asked_at(l, ip, now).0;
    if l.tracks(ip) || l.population() < l.max_tracked {
        assert(l.asked(ip).len() <= l.max_requests);
        assert forall|other: IpAddress| (#[trigger] after.asked(other)).len()
            <= after.max_requests by {
            if other != ip {
                assert(after.asked(other) == l.asked(other));
            }
        }
    }
}

/// A request of one address changes nothing for any other.
pub proof fn law_addresses_are_kept_apart(
    l: LimiterView,
    ip: IpAddress,
    now: u128,
    other: IpAddress,
)
    requires
        other != ip,
    ensures
        asked_at(l, ip, now).0.asked(other) == l.asked(other),
        asked_at(l, ip, now).0.tracks(other) == l.tracks(other),
{
}

/// Requests of one address at these moments, one by one: the moments that are
/// kept, and those at which a request was let through.
pub open spec fn served(times: Seq<u128>, max: nat, window: nat) -> (Seq<u128>, Seq<u128>)
    decreases times.len(),
{
    if times.len() == 0 {
        (Seq::empty(), Seq::empty())
    } else {
        let (kept, passed) = served(times.drop_last(), max, window);
        let now = times.last();
        let q = recent(kept, now, window);
        if q.len() >= max {
            (q, passed)
        } else {
            (q.push(now), passed.push(now))
        }
    }
}

/// The moments do not run backwards.
pub open spec fn rising(times: Seq<u128>) -> bool {
    forall|i: int, j: int| 0 <= i <= j < times.len() ==> times[i] <= times[j]
}

proof fn lemma_recent_twice(q: Seq<u128>, earlier: u128, now: u128, window: nat)
    requires
        earlier <= now,
        forall|i: int| 0 <= i < q.len() ==> #[trigger] q[i] <= earlier,
    ensures
        recent(recent(q, earlier, window), now, window) == recent(q, now, window),
    decreases q.len(),
{
    if q.len() > 0 {
        let front = q.drop_last();
        assert forall|i: int| 0 <= i < front.len() implies #[trigger] front[i] <= earlier by {
            assert(front[i] == q[i]);
        }
        lemma_recent_twice(front, earlier, now, window);
        assert(q[q.len() - 1] <= earlier);
        let r = recent(front, earlier, window);
        if age(earlier, q.last()) < window {
            assert(r.push(q.last()).drop_last() == r);
        }
    }
}

proof fn lemma_served(times: Seq<u128>, max: nat, window: nat)
    requires
        rising(times),
    ensures
        ({
            let (kept, passed) = served(times, max, window);
            &&& forall|i: int| 0 <= i < passed.len() ==> times.len() > 0 && #[trigger] passed[i]
                <= times.last()
            &&& window > 0 && times.len() > 0 ==> kept == recent(passed, times.last(), window)
            &&& times.len() == 0 ==> passed.len() == 0 && kept.len() == 0
        }),
    decreases times.len(),
{
    if times.len() > 0 {
        let front = times.drop_last();
        let now = times.last();
        assert(rising(front)) by {
            assert forall|i: int, j: int| 0 <= i <= j < front.len() implies front[i]
                <= front[j] by {
                assert(front[i] == times[i] && front[j] == times[j]);
            }
        }
        lemma_served(front, max, window);
        let (kept, passed) = served(front, max, window);
        let q = recent(kept, now, window);
        if front.len() > 0 {
            let earlier = front.last();
            assert(earlier == times[times.len() - 2] && now == times[times.len() - 1]);
            assert forall|i: int| 0 <= i < passed.len() implies #[trigger] passed[i] <= now by {}
            if window > 0 {
                lemma_recent_twice(passed, earlier, now, window);
            }
        } else {
            assert(kept =~= Seq::empty());
            assert(passed =~= Seq::empty());
        }
        assert(window > 0 ==> q == recent(passed, now, window));
        let all = served(times, max, window).1;
        if q.len() < max {
            assert(all.drop_last() == passed);
            assert forall|i: int| 0 <= i < all.len() implies #[trigger] all[i] <= now by {
                if i < passed.len() {
                    assert(all[i] == passed[i]);
                }
            }
        }
    }
}

/// Among the requests of one address, as time goes on, no more are let through
/// within a window than allowed: whenever one is let through, it is among at
/// most the allowed number that were let through less than a window before.
pub proof fn law_no_window_overflows(times: Seq<u128>, max: nat, window: nat)
    requires
        rising(times),
        times.len() > 0,
        served(times, max, window).1.len() > served(times.drop_last(), max, window).1.len(),
    ensures
        recent(served(times, max, window).1, times.last(), window).len() <= max,
{
    let front = times.drop_last();
    assert(rising(front)) by {
        assert forall|i: int, j: int| 0 <= i <= j < front.len() implies front[i] <= front[j] by {
            assert(front[i] == times[i] && front[j] == times[j]);
        }
    }
    lemma_served(times, max, window);
    lemma_served(front, max, window);
    if window == 0 {
        lemma_recent_none(served(times, max, window).1, times.last());
    }
}

proof fn lemma_recent_none(q: Seq<u128>, now: u128)
    ensures
        recent(q, now, 0).len() == 0,
    decreases q.len(),
{
    if q.len() > 0 {
        lemma_recent_none(q.drop_last(), now);
    }
}

/// A request is let through exactly when fewer than the allowed number were let
/// through less than a window before it, whatever was refused meanwhile.
pub proof fn law_let_through_while_the_window_has_room(
    times: Seq<u128>,
    now: u128,
    max: nat,
    window: nat,
)
    requires
        rising(times.push(now)),
    ensures
        served(times.push(now), max, window).1 == (if recent(
            served(times, max, window).1,
            now,
            window,
        ).len() < max {
            served(times, max, window).1.push(now)
        } else {
            served(times, max, window).1
        }),
{
    let all = times.push(now);
    assert(all.drop_last() == times);
    assert(rising(times)) by {
        assert forall|i: int, j: int| 0 <= i <= j < times.len() implies times[i] <= times[j] by {
            assert(times[i] == all[i] && times[j] == all[j]);
        }
    }
    lemma_served(times, max, window);
    let (kept, passed) = served(times, max, window);
    if window == 0 {
        lemma_recent_none(kept, now);
        lemma_recent_none(passed, now);
    } else if times.len() > 0 {
        assert(times.last() == all[all.len() - 2] && now == all[all.len() - 1]);
        lemma_recent_twice(passed, times.last(), now, window);
    }
}

/// The moments that a limiter keeps for an address are those of its requests, one
/// after the other, from the first on; only an address that is not tracked while
/// no more can be is left out.
pub proof fn law_limiter_serves(l: LimiterView, ip: IpAddress, times: Seq<u128>, now: u128)
    requires
        l.tracks(ip) || l.population() < l.max_tracked,
        l.asked(ip) == served(times, l.max_requests, l.window).0,
    ensures
        asked_at(l, ip, now).0.tracks(ip),
        asked_at(l, ip, now).0.asked(ip) == served(times.push(now), l.max_requests, l.window).0,
        asked_at(l, ip, now).1 <==> served(times.push(now), l.max_requests, l.window).1.len()
            > served(times, l.max_requests, l.window).1.len(),
{
    assert(times.push(now).drop_last() == times);
}

/// A limiter lets a request through exactly when fewer than the allowed number of
/// that address were let through less than a window before it; only an address
/// that is not tracked while no more can be is left out.
pub proof fn law_limiter_lets_through_while_the_window_has_room(
    l: LimiterView,
    ip: IpAddress,
    times: Seq<u128>,
    now: u128,
)
    requires
        l.tracks(ip) || l.population() < l.max_tracked,
        l.asked(ip) == served(times, l.max_requests, l.window).0,
        rising(times.push(now)),
    ensures
        asked_at(l, ip, now).1 <==> recent(
            served(times, l.max_requests, l.window).1,
            now,
            l.window,
        ).len() < l.max_requests,
{
    law_limiter_serves(l, ip, times, now);
    law_let_through_while_the_window_has_room(times, now, l.max_requests, l.window);
}

// ---------------------------------------------------------------------------
// What the limiter is for
// ---------------------------------------------------------------------------

/// The moments that still count are exactly those less than a window before, in
/// their order; one that lies ahead counts as just now.
pub proof fn law_recent_is_less_than_a_window_ago(q: Seq<u128>, now: u128, window: nat)
    ensures
        recent(q, now, window) == q.filter(
            |t: u128|
                (if t <= now {
                    now - t
                } else {
                    0
                }) < window,
        ),
    decreases q.len(),
{
    reveal(Seq::filter);
    if q.len() > 0 {
        law_recent_is_less_than_a_window_ago(q.drop_last(), now, window);
    } else {
        assert(q =~= Seq::<u128>::empty());
    }
}

/// A request is let through exactly when fewer than the allowed number of moments
/// of its address lie less than a window before it; it then counts itself, and a
/// refused one does not. An address that is not tracked while no more can be is
/// refused, and nothing else about the limiter changes.
pub proof fn law_requests_are_counted(l: LimiterView, ip: IpAddress, now: u128)
    ensures
        ({
            let (after, passed) = asked_at(l, ip, now);
            &&& after.max_requests == l.max_requests
            &&& after.window == l.window
            &&& after.max_tracked == l.max_tracked
            &&& after.proxies == l.proxies
        }),
        l.tracks(ip) || l.population() < l.max_tracked ==> ({
            let (after, passed) = asked_at(l, ip, now);
            let fresh = l.asked(ip).filter(
                |t: u128|
                    (if t <= now {
                        now - t
                    } else {
                        0
                    }) < l.window,
            );
            &&& passed <==> fresh.len() < l.max_requests
            &&& after.tracks(ip)
            &&& passed ==> after.asked(ip) == fresh.push(now)
            &&& !passed ==> after.asked(ip) == fresh
        }),
        !l.tracks(ip) && l.population() >= l.max_tracked ==> asked_at(l, ip, now) == (l, false),
{
    law_recent_is_less_than_a_window_ago(l.asked(ip), now, l.window);
}

/// A new limiter has seen no address, allows what it is told to within as many
/// seconds as it is told, and tracks at most ten thousand addresses.
pub proof fn law_new_limiters_are_idle(
    max_requests: nat,
    window_secs: u64,
    proxies: Seq<Network>,
    ip: IpAddress,
)
    ensures
        ({
            let l = idle_limiter(max_requests, window_secs, proxies);
            &&& !l.tracks(ip)
            &&& l.asked(ip).len() == 0
            &&& l.population() == 0
            &&& l.max_requests == max_requests
            &&& l.window == window_secs * 1_000_000_000
            &&& l.max_tracked == 10_000
            &&& l.proxies == proxies
        }),
{
    let l = idle_limiter(max_requests, window_secs, proxies);
    assert(l.v4.dom() =~= Set::<u32>::empty());
    assert(l.v6.dom() =~= Set::<u128>::empty());
}

/// A network holds its own address; with the longest prefix it holds no other, and
/// with none it holds every address of its kind. It never holds one of the other
/// kind.
pub proof fn law_networks_hold_their_addresses(net: Network, a: u32, b: u32, x: u128, y: u128)
    ensures
        in_network(net, net.ip),
        in_network((Network { ip: IpAddress::V4(a), prefix: 32 }), IpAddress::V4(b)) <==> a == b,
        in_network((Network { ip: IpAddress::V4(a), prefix: 0 }), IpAddress::V4(b)),
        in_network((Network { ip: IpAddress::V6(x), prefix: 128 }), IpAddress::V6(y)) <==> x == y,
        net.ip is V4 ==> !in_network(net, IpAddress::V6(x)),
        net.ip is V6 ==> !in_network(net, IpAddress::V4(a)),
        in_network((Network { ip: IpAddress::V4(a), prefix: 24 }), IpAddress::V4(b)) <==> a as int
            / 256 == b as int / 256,
        in_network((Network { ip: IpAddress::V4(a), prefix: 16 }), IpAddress::V4(b)) <==> a as int
            / 65536 == b as int / 65536,
        in_network((Network { ip: IpAddress::V4(a), prefix: 8 }), IpAddress::V4(b)) <==> a as int
            / 16777216 == b as int / 16777216,
{
    vstd::arithmetic::power2::lemma2_to64();
    lemma_v4_network(a, b, 32, 1);
    lemma_v4_network(a, b, 24, 256);
    lemma_v4_network(a, b, 16, 65536);
    lemma_v4_network(a, b, 8, 16777216);
    lemma_v4_network(a, b, 0, 4294967296);
    let one = Network { ip: IpAddress::V6(x), prefix: 128 };
    assert((128 - one.prefix) as nat == 0nat);
    let host = vstd::arithmetic::power2::pow2(0);
    assert(x as nat / host == x as nat) by (nonlinear_arith)
        requires
            host == 1,
    ;
    assert(y as nat / host == y as nat) by (nonlinear_arith)
        requires
            host == 1,
    ;
}

proof fn lemma_v4_network(a: u32, b: u32, prefix: u8, n: nat)
    requires
        prefix <= 32,
        n > 0,
        vstd::arithmetic::power2::pow2((32 - prefix) as nat) == n,
    ensures
        in_network((Network { ip: IpAddress::V4(a), prefix }), IpAddress::V4(b)) <==> a as nat / n
            == b as nat / n,
{
    let net = Network { ip: IpAddress::V4(a), prefix };
    assert((32 - net.prefix) as nat == (32 - prefix) as nat);
    let host = vstd::arithmetic::power2::pow2((32 - net.prefix) as nat);
    assert(host == n);
    assert(in_network(net, IpAddress::V4(b)) <==> a as nat / host == b as nat / host);
}

/// A request behind a trusted proxy is that of the address that the proxy names, and
/// of the proxy where it names none; any other is its peer's. A peer is trusted
/// exactly when one of the networks holds it.
pub proof fn law_clients_are_told_by_proxies(
    nets: Seq<Network>,
    peer: IpAddress,
    ip: IpAddress,
    more: Network,
)
    ensures
        client(nets, peer, None) == peer,
        trusted(nets, peer) ==> client(nets, peer, Some(ip)) == ip,
        !trusted(nets, peer) ==> client(nets, peer, Some(ip)) == peer,
        !trusted(Seq::empty(), peer),
        trusted(nets.push(more), peer) <==> trusted(nets, peer) || in_network(more, peer),
{
    let all = nets.push(more);
    if trusted(nets, peer) {
        let i = choose|i: int| 0 <= i < nets.len() && in_network(#[trigger] nets[i], peer);
        assert(all[i] == nets[i]);
    }
    if in_network(more, peer) {
        assert(all[nets.len() as int] == more);
    }
    if trusted(all, peer) {
        let i = choose|i: int| 0 <= i < all.len() && in_network(#[trigger] all[i], peer);
        if i < nets.len() {
            assert(nets[i] == all[i]);
        }
    }
}

/// The networks of two lists are those of the one and those of the other; a piece
/// that writes one gives that one, and a piece that writes none gives none.
pub proof fn law_networks_are_read_one_by_one(
    a: Seq<Seq<char>>,
    b: Seq<Seq<char>>,
    one: Seq<char>,
)
    ensures
        networks_read(a + b) == networks_read(a) + networks_read(b),
        network_read(text::trim(one)) matches Some(n) ==> networks_read(seq![one]) == seq![n],
        network_read(text::trim(one)) is None ==> networks_read(seq![one]).len() == 0,
        networks_read(Seq::empty()).len() == 0,
    decreases b.len(),
{
    let none = Seq::<Seq<char>>::empty();
    assert(seq![one].drop_last() =~= none);
    assert(networks_read(none) =~= Seq::<Network>::empty());
    if network_read(text::trim(one)) is Some {
        assert(networks_read(seq![one]) =~= seq![network_read(text::trim(one))->0]);
    }
    if b.len() > 0 {
        law_networks_are_read_one_by_one(a, b.drop_last(), one);
        assert((a + b).drop_last() =~= a + b.drop_last());
        assert(networks_read(a + b) =~= networks_read(a) + networks_read(b));
    } else {
        assert(a + b =~= a);
        assert(networks_read(a + b) =~= networks_read(a) + networks_read(b));
    }
}

/// An address in dots has its four bytes in decimal, from the highest, and the
/// address is made up of them.
pub proof fn law_dotted_addresses_have_four_bytes(a: u32)
    ensures
        ({
            let b3 = a as nat / 0x100_0000;
            let b2 = a as nat / 0x1_0000 % 0x100;
            let b1 = a as nat / 0x100 % 0x100;
            let b0 = a as nat % 0x100;
            &&& a as nat == b3 * 0x100_0000 + b2 * 0x1_0000 + b1 * 0x100 + b0
            &&& text::split(dotted(a), '.') == seq![
                text::dec(b3),
                text::dec(b2),
                text::dec(b1),
                text::dec(b0),
            ]
        }),
{
    let w = text::dec(a as nat / 0x100_0000);
    let x = text::dec(a as nat / 0x1_0000 % 0x100);
    let y = text::dec(a as nat / 0x100 % 0x100);
    let z = text::dec(a as nat % 0x100);
    lemma_no_dot(a as nat / 0x100_0000);
    lemma_no_dot(a as nat / 0x1_0000 % 0x100);
    lemma_no_dot(a as nat / 0x100 % 0x100);
    lemma_no_dot(a as nat % 0x100);
    lemma_four_pieces(w, x, y, z);
}

proof fn lemma_four_pieces(w: Seq<char>, x: Seq<char>, y: Seq<char>, z: Seq<char>)
    requires
        !w.contains('.'),
        !x.contains('.'),
        !y.contains('.'),
        !z.contains('.'),
    ensures
        text::split(w + "."@ + x + "."@ + y + "."@ + z, '.') == seq![w, x, y, z],
{
    reveal_strlit(".");
    let dot = seq!['.'];
    assert("."@ =~= dot);
    text::law_splitting_splits_at_each_separator(w, '.', x);
    text::law_splitting_splits_at_each_separator(x, '.', y);
    text::law_splitting_splits_at_each_separator(y, '.', z);
    text::law_splitting_splits_at_each_separator(z, '.', w);
    let one = w + dot + x;
    assert(text::split(one, '.') == seq![w] + seq![x]);
    text::law_splitting_splits_at_each_separator(one, '.', y);
    let two = one + dot + y;
    assert(text::split(two, '.') == seq![w] + seq![x] + seq![y]);
    text::law_splitting_splits_at_each_separator(two, '.', z);
    assert(text::split(two + dot + z, '.') == seq![w] + seq![x] + seq![y] + seq![z]);
    assert(seq![w] + seq![x] + seq![y] + seq![z] =~= seq![w, x, y, z]);
}

proof fn lemma_no_dot(n: nat)
    ensures
        !text::dec(n).contains('.'),
{
    text::lemma_dec_digits(n);
    let d = text::dec(n);
    assert forall|i: int| 0 <= i < d.len() implies d[i] != '.' by {
        assert('0' <= d[i] <= '9');
    }
}

/// Of a list of forwarders only the first counts, without the blanks round it; no list
/// names none.
pub proof fn law_the_first_forwarder_counts(first: Seq<char>, rest: Seq<char>)
    requires
        !first.contains(','),
    ensures
        forwarded(Some(first)) == address_read(text::trim(first)),
        forwarded(Some(first + seq![','] + rest)) == address_read(text::trim(first)),
        forwarded(None) is None,
{
    text::law_splitting_splits_at_each_separator(first, ',', rest);
    assert((seq![first] + text::split(rest, ','))[0] == first);
}

/// Addresses of both kinds count: one that is not tracked yet makes one more, and one
/// that is tracked makes no more.
pub proof fn law_addresses_count_once(l: LimiterView, ip: IpAddress, q: Seq<u128>)
    requires
        l.v4.dom().finite(),
        l.v6.dom().finite(),
    ensures
        !l.tracks(ip) ==> l.with(ip, q).population() == l.population() + 1,
        l.tracks(ip) ==> l.with(ip, q).population() == l.population(),
        l.with(ip, q).tracks(ip),
        l.with(ip, q).asked(ip) == q,
{
    match ip {
        IpAddress::V4(a) => {
            assert(l.v4.insert(a, q).dom() =~= l.v4.dom().insert(a));
        },
        IpAddress::V6(a) => {
            assert(l.v6.insert(a, q).dom() =~= l.v6.dom().insert(a));
        },
    }
}

}
