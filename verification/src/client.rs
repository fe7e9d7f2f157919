use std::collections::HashMap;
use vstd::prelude::*;
use vstd::std_specs::hash::*;
use vstd::std_specs::iter::IteratorSpec;

verus! {

broadcast use vstd::std_specs::hash::group_hash_axioms;

/// Milliseconds after the last datagram for which a client counts as alive.
pub const LIVENESS_TIMEOUT_MS: u64 = 5000;

/// Milliseconds between two sweeps of the registry.
pub const SWEEP_INTERVAL_MS: u64 = 3000;

/// Where a client's datagrams come from: an IPv4 address, as the number
/// its four octets spell in network order, and a port.
#[derive(Clone, Copy, Debug, PartialEq, Eq, Hash, Structural)]
pub struct PeerAddr {
    pub ip: u32,
    pub port: u16,
}

impl PeerAddr {
    /// The address with these octets and this port.
    pub fn from_octets(a: u8, b: u8, c: u8, d: u8, port: u16) -> (r: Self)
        ensures
            r.ip == a as int * 16777216 + b as int * 65536 + c as int * 256 + d as int,
            r.port == port,
    {
        let ip: u32 = (a as u32) * 16777216 + (b as u32) * 65536 + (c as u32) * 256 + (d as u32);
        PeerAddr { ip, port }
    }

    /// The number that stands for the address where it keys a map: the
    /// host in the upper bits, the port in the lowest sixteen.
    pub open spec fn spec_key(self) -> u64 {
        (self.ip as int * 65536 + self.port as int) as u64
    }

    /// The number that stands for the address where it keys a map.
    pub fn key(&self) -> (k: u64)
        ensures
            k == self.spec_key(),
    {
        (self.ip as u64) * 65536 + (self.port as u64)
    }

    /// The same host on another port.
    pub fn with_port(self, port: u16) -> (r: Self)
        ensures
            r == (PeerAddr { ip: self.ip, port }),
    {
        PeerAddr { ip: self.ip, port }
    }

    /// Whether two addresses are the same host and port.
    pub fn same(&self, other: &PeerAddr) -> (r: bool)
        ensures
            r == (*self == *other),
    {
        self.ip == other.ip && self.port == other.port
    }
}

/// Whether a client last heard at `last` is past the timeout at `now`:
/// strictly more than `timeout` has gone by.
pub open spec fn is_stale(last: u64, now: u64, timeout: u64) -> bool {
    now - last > timeout
}

fn stale(last: u64, now: u64, timeout: u64) -> (r: bool)
    ensures
        r == is_stale(last, now, timeout),
{
    now > last && now - last > timeout
}

/// One client and the time of its last datagram, in milliseconds of a
/// clock that never runs backwards.
#[derive(Clone, Copy, Debug)]
pub struct ClientStatus {
    pub address: PeerAddr,
    pub last_heartbeat: u64,
}

impl ClientStatus {
    /// A client first heard at `now`.
    pub fn new(address: PeerAddr, now: u64) -> (r: Self)
        ensures
            r.address == address,
            r.last_heartbeat == now,
    {
        ClientStatus { address, last_heartbeat: now }
    }

    /// Records a datagram that arrived at `now`.
    pub fn update_heartbeat(&mut self, now: u64)
        ensures
            final(self).address == old(self).address,
            final(self).last_heartbeat == now,
    {
        self.last_heartbeat = now;
    }

    /// Whether the client counts as alive at `now`.
    pub fn is_active(&self, now: u64) -> (r: bool)
        ensures
            r == !is_stale(self.last_heartbeat, now, LIVENESS_TIMEOUT_MS),
    {
        !stale(self.last_heartbeat, now, LIVENESS_TIMEOUT_MS)
    }
}

/// Two clients are the same where their addresses are, whenever each was
/// last heard.
impl PartialEq for ClientStatus {
    fn eq(&self, other: &Self) -> (r: bool) {
        self.address.same(&other.address)
    }
}

impl Eq for ClientStatus {

}

impl vstd::std_specs::cmp::PartialEqSpecImpl for ClientStatus {
    open spec fn obeys_eq_spec() -> bool {
        true
    }

    open spec fn eq_spec(&self, other: &Self) -> bool {
        self.address == other.address
    }
}

/// The entries as a map from address to the time last heard.
pub open spec fn table(m: Map<u64, ClientStatus>) -> Map<PeerAddr, u64> {
    Map::new(
        |a: PeerAddr| m.contains_key(a.spec_key()),
        |a: PeerAddr| m[a.spec_key()].last_heartbeat,
    )
}

/// Every entry stands under the key of its own address.
pub open spec fn keyed(m: Map<u64, ClientStatus>) -> bool {
    forall|k: u64| m.contains_key(k) ==> (#[trigger] m[k]).address.spec_key() == k
}

/// Two addresses with the same key are the same address.
pub proof fn lemma_key_injective(a: PeerAddr, b: PeerAddr)
    requires
        a.spec_key() == b.spec_key(),
    ensures
        a == b,
{
}

/// The clients that are past the timeout at `now`.
pub open spec fn stale_keys(m: Map<PeerAddr, u64>, now: u64, timeout: u64) -> Set<PeerAddr> {
    Set::new(|a: PeerAddr| m.contains_key(a) && is_stale(m[a], now, timeout))
}

/// The clients that are not past the timeout at `now`, each with its time.
pub open spec fn retained(m: Map<PeerAddr, u64>, now: u64, timeout: u64) -> Map<PeerAddr, u64> {
    Map::new(|a: PeerAddr| m.contains_key(a) && !is_stale(m[a], now, timeout), |a: PeerAddr| m[a])
}

/// Whether `k` is among the first `n` of `keys`.
spec fn visited(keys: Seq<u64>, n: int, k: u64) -> bool {
    exists|j: int| 0 <= j < n && j < keys.len() && #[trigger] keys[j] == k
}

/// Whether the entry under `k` is still there once the first `n` keys
/// have been examined.
spec fn survives(
    all: Map<u64, ClientStatus>,
    keys: Seq<u64>,
    n: int,
    now: u64,
    timeout: u64,
    k: u64,
) -> bool {
    all.contains_key(k) && !(visited(keys, n, k) && is_stale(all[k].last_heartbeat, now, timeout))
}

/// Whether the client at `a` was removed while the first `n` keys were
/// examined.
spec fn swept(
    all: Map<u64, ClientStatus>,
    keys: Seq<u64>,
    n: int,
    now: u64,
    timeout: u64,
    a: PeerAddr,
) -> bool {
    let k = a.spec_key();
    all.contains_key(k) && all[k].address == a && visited(keys, n, k) && is_stale(
        all[k].last_heartbeat,
        now,
        timeout,
    )
}

/// What examining the key at index `i` changes.
proof fn lemma_sweep_step(
    all: Map<u64, ClientStatus>,
    keys: Seq<u64>,
    i: int,
    now: u64,
    timeout: u64,
)
    requires
        keyed(all),
        keys.no_duplicates(),
        0 <= i < keys.len(),
        all.contains_key(keys[i]),
    ensures
        !visited(keys, i, keys[i]),
        forall|q: u64|
            survives(all, keys, i + 1, now, timeout, q) <==> survives(all, keys, i, now, timeout, q)
                && !(q == keys[i] && is_stale(all[q].last_heartbeat, now, timeout)),
        forall|a: PeerAddr|
            swept(all, keys, i + 1, now, timeout, a) <==> swept(all, keys, i, now, timeout, a) || (a
                == all[keys[i]].address && is_stale(all[keys[i]].last_heartbeat, now, timeout)),
{
    let k = keys[i];
    if visited(keys, i, k) {
        let j = choose|j: int| 0 <= j < i && j < keys.len() && keys[j] == k;
        assert(keys[j] != keys[i]);
    }
    assert forall|q: u64| visited(keys, i + 1, q) <==> (visited(keys, i, q) || q == k) by {
        if visited(keys, i + 1, q) {
            let j = choose|j: int| 0 <= j < i + 1 && j < keys.len() && keys[j] == q;
            if j < i {
                assert(visited(keys, i, q));
            }
        }
        if visited(keys, i, q) {
            let j = choose|j: int| 0 <= j < i && j < keys.len() && keys[j] == q;
            assert(0 <= j < i + 1 && keys[j] == q);
        }
        if q == k {
            assert(keys[i] == q);
        }
    }
    assert forall|a: PeerAddr|
        swept(all, keys, i + 1, now, timeout, a) <==> swept(all, keys, i, now, timeout, a) || (a
            == all[k].address && is_stale(all[k].last_heartbeat, now, timeout)) by {
        if a.spec_key() == k {
            lemma_key_injective(a, all[k].address);
        }
    }
}

/// Once every key has been examined, what is left and what was removed
/// are the clients within and past the timeout.
proof fn lemma_sweep_done(
    all: Map<u64, ClientStatus>,
    keys: Seq<u64>,
    now: u64,
    timeout: u64,
)
    requires
        keyed(all),
        keys.to_set() == all.dom(),
    ensures
        forall|q: u64|
            survives(all, keys, keys.len() as int, now, timeout, q) <==> all.contains_key(q)
                && !is_stale(all[q].last_heartbeat, now, timeout),
        forall|a: PeerAddr|
            swept(all, keys, keys.len() as int, now, timeout, a) <==> stale_keys(
                table(all),
                now,
                timeout,
            ).contains(a),
{
    assert forall|k: u64| all.contains_key(k) implies visited(keys, keys.len() as int, k) by {
        assert(keys.to_set().contains(k));
        let j = choose|j: int| 0 <= j < keys.len() && keys[j] == k;
        assert(keys[j] == k);
    }
    assert forall|a: PeerAddr|
        swept(all, keys, keys.len() as int, now, timeout, a) <==> stale_keys(
            table(all),
            now,
            timeout,
        ).contains(a) by {
        if all.contains_key(a.spec_key()) {
            lemma_key_injective(a, all[a.spec_key()].address);
        }
    }
}

fn keys_of(m: &HashMap<u64, ClientStatus>) -> (r: Vec<u64>)
    ensures
        r@.no_duplicates(),
        r@.to_set() == m@.dom(),
{
    let mut out: Vec<u64> = Vec::new();
    for k in it: m.keys()
        invariant
            out@.len() == it.index(),
            forall|j: int| 0 <= j < out@.len() ==> out@[j] == *it.seq()[j],
            it.seq() == spec_keys_iter(m).remaining(),
    {
        out.push(*k);
    }
    assert(out@ =~= spec_keys_iter(m).remaining().unref());
    out
}

/// The clients that are alive, each with the time of its last datagram.
pub struct ClientRegistry {
    clients: HashMap<u64, ClientStatus>,
}

impl View for ClientRegistry {
    type V = Map<PeerAddr, u64>;

    closed spec fn view(&self) -> Map<PeerAddr, u64> {
        table(self.clients@)
    }
}

impl ClientRegistry {
    /// Every client stands under the key of its own address.
    pub closed spec fn wf(&self) -> bool {
        keyed(self.clients@)
    }

    /// A registry without clients.
    pub fn new() -> (r: Self)
        ensures
            r.wf(),
            r@ == Map::<PeerAddr, u64>::empty(),
    {
        let r = ClientRegistry { clients: HashMap::new() };
        assert(r@ =~= Map::<PeerAddr, u64>::empty());
        r
    }

    /// The time of the client's last datagram, if the client is known.
    pub fn last_heartbeat(&self, addr: PeerAddr) -> (r: Option<u64>)
        requires
            self.wf(),
        ensures
            r == (if self@.contains_key(addr) {
                Some(self@[addr])
            } else {
                None
            }),
    {
        let k: u64 = addr.key();
        match self.clients.get(&k) {
            Some(client) => Some(client.last_heartbeat),
            None => None,
        }
    }

    /// Records a datagram from `addr` at `now`. Returns whether this is the
    /// client's first contact, that is whether it was unknown before.
    pub fn touch(&mut self, addr: PeerAddr, now: u64) -> (created: bool)
        requires
            old(self).wf(),
        ensures
            final(self).wf(),
            created == !old(self)@.contains_key(addr),
            final(self)@ == old(self)@.insert(addr, now),
    {
        let k: u64 = addr.key();
        let created: bool = !self.clients.contains_key(&k);
        let mut client: ClientStatus = match self.clients.get(&k) {
            Some(known) => *known,
            None => ClientStatus::new(addr, now),
        };
        client.update_heartbeat(now);
        self.clients.insert(k, client);
        proof {
            assert forall|a: PeerAddr| a.spec_key() == k implies a == addr by {
                lemma_key_injective(a, addr);
            }
            assert(self@ =~= old(self)@.insert(addr, now));
        }
        created
    }

    /// Removes the clients that are past `timeout` at `now` and returns
    /// their addresses, each once. The others stay as they are.
    pub fn sweep(&mut self, now: u64, timeout: u64) -> (removed: Vec<PeerAddr>)
        requires
            old(self).wf(),
        ensures
            final(self).wf(),
            removed@.no_duplicates(),
            removed@.to_set() == stale_keys(old(self)@, now, timeout),
            final(self)@ == retained(old(self)@, now, timeout),
    {
        let keys: Vec<u64> = keys_of(&self.clients);
        let mut removed: Vec<PeerAddr> = Vec::new();
        let ghost all = self.clients@;
        let mut i: usize = 0;
        while i < keys.len()
            invariant
                i <= keys.len(),
                keys@.no_duplicates(),
                keys@.to_set() == all.dom(),
                keyed(all),
                forall|q: u64|
                    #![trigger self.clients@.contains_key(q)]
                    self.clients@.contains_key(q) <==> survives(all, keys@, i as int, now, timeout, q),
                forall|q: u64| self.clients@.contains_key(q) ==> self.clients@[q] == all[q],
                removed@.no_duplicates(),
                forall|a: PeerAddr|
                    #![trigger removed@.contains(a)]
                    removed@.contains(a) <==> swept(all, keys@, i as int, now, timeout, a),
            decreases keys.len() - i,
        {
            let k: u64 = keys[i];
            let ghost before = self.clients@;
            let ghost taken = removed@;
            proof {
                assert(keys@.to_set().contains(keys@[i as int]));
                lemma_sweep_step(all, keys@, i as int, now, timeout);
                assert(before.contains_key(k) && before[k] == all[k]);
            }
            let gone: Option<PeerAddr> = match self.clients.get(&k) {
                Some(client) => if stale(client.last_heartbeat, now, timeout) {
                    Some(client.address)
                } else {
                    None
                },
                None => None,
            };
            match gone {
                Some(addr) => {
                    self.clients.remove(&k);
                    removed.push(addr);
                    proof {
                        assert(!taken.contains(addr));
                        assert forall|a: PeerAddr| removed@.contains(a) <==> taken.contains(a) || a
                            == addr by {
                            if removed@.contains(a) {
                                let j = choose|j: int| 0 <= j < removed@.len() && removed@[j] == a;
                                if j < taken.len() {
                                    assert(taken[j] == a);
                                }
                            }
                            if taken.contains(a) {
                                let j = choose|j: int| 0 <= j < taken.len() && taken[j] == a;
                                assert(removed@[j] == a);
                            }
                            if a == addr {
                                assert(removed@[taken.len() as int] == a);
                            }
                        }
                        assert forall|a: int, b: int|
                            0 <= a < b < removed@.len() implies removed@[a] != removed@[b] by {
                            if b == taken.len() {
                                assert(taken.contains(taken[a]));
                            }
                        }
                    }
                },
                None => {},
            }
            proof {
                assert forall|q: u64|
                    #![trigger self.clients@.contains_key(q)]
                    self.clients@.contains_key(q) <==> survives(all, keys@, i + 1, now, timeout, q) by {
                    assert(before.contains_key(q) <==> survives(all, keys@, i as int, now, timeout, q));
                }
                assert forall|a: PeerAddr|
                    #![trigger removed@.contains(a)]
                    removed@.contains(a) <==> swept(all, keys@, i + 1, now, timeout, a) by {
                    assert(taken.contains(a) <==> swept(all, keys@, i as int, now, timeout, a));
                }
            }
            i += 1;
        }
        proof {
            lemma_sweep_done(all, keys@, now, timeout);
            assert forall|q: u64| self.clients@.contains_key(q) implies (
            #[trigger] self.clients@[q]).address.spec_key() == q by {
                assert(self.clients@[q] == all[q]);
            }
            assert(self@ =~= retained(old(self)@, now, timeout));
            assert(removed@.to_set() =~= stale_keys(old(self)@, now, timeout));
        }
        removed
    }

    /// Forgets every client.
    pub fn clear(&mut self)
        ensures
            final(self).wf(),
            final(self)@ == Map::<PeerAddr, u64>::empty(),
    {
        self.clients.clear();
        assert(self@ =~= Map::<PeerAddr, u64>::empty());
    }
}

/// Within one liveness cycle a client is new once: after a datagram at
/// `first`, a sweep at `now` that comes no later than the timeout after
/// it keeps the client, so the next datagram finds it known.
pub proof fn lemma_touch_once_per_cycle(
    m: Map<PeerAddr, u64>,
    addr: PeerAddr,
    first: u64,
    now: u64,
    timeout: u64,
)
    requires
        now - first <= timeout,
    ensures
        m.insert(addr, first).contains_key(addr),
        retained(m.insert(addr, first), now, timeout).contains_key(addr),
        retained(m.insert(addr, first), now, timeout)[addr] == first,
        !stale_keys(m.insert(addr, first), now, timeout).contains(addr),
{
}

/// Once the timeout has gone by since a client's last datagram, a sweep
/// removes it, and its next datagram is a first contact again.
pub proof fn lemma_touch_after_expiry(
    m: Map<PeerAddr, u64>,
    addr: PeerAddr,
    first: u64,
    now: u64,
    timeout: u64,
)
    requires
        now - first > timeout,
    ensures
        stale_keys(m.insert(addr, first), now, timeout).contains(addr),
        !retained(m.insert(addr, first), now, timeout).contains_key(addr),
{
}

/// A sweep removes exactly the clients last heard strictly more than the
/// timeout before `now`; every other client stays, with its time.
pub proof fn lemma_sweep_exact(m: Map<PeerAddr, u64>, addr: PeerAddr, now: u64, timeout: u64)
    requires
        m.contains_key(addr),
    ensures
        stale_keys(m, now, timeout).contains(addr) <==> m[addr] + timeout < now,
        retained(m, now, timeout).contains_key(addr) <==> m[addr] + timeout >= now,
        retained(m, now, timeout).contains_key(addr) ==> retained(m, now, timeout)[addr] == m[addr],
        stale_keys(m, now, timeout).contains(addr) != retained(m, now, timeout).contains_key(addr),
{
}

} // verus!
