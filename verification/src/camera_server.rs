//! The camera streamer's bookkeeping of its streaming clients: one client per
//! network address, started and stopped on command, and all of them stopped
//! when the streamer shuts down.
use vstd::prelude::*;

verus! {

/// The network address of a node's endpoint that receives a stream.
#[derive(Debug, Clone, Copy, PartialEq, Eq, Structural)]
pub struct StreamAddress {
    pub network_id: u16,
    pub node_id: u8,
    pub port_id: u8,
}

/// A pair of the list is keyed by `a`.
pub open spec fn has_address<C>(s: Seq<(StreamAddress, C)>, a: StreamAddress) -> bool {
    exists|i: int| 0 <= i < s.len() && (#[trigger] s[i]).0 == a
}

/// No two pairs of the list have the same address.
pub open spec fn distinct_addresses<C>(s: Seq<(StreamAddress, C)>) -> bool {
    forall|i: int, j: int|
        0 <= i < s.len() && 0 <= j < s.len() && i != j ==> (#[trigger] s[i]).0 != (#[trigger] s[j]).0
}

/// The list of pairs read as a map from address to client.
pub open spec fn pairs_map<C>(s: Seq<(StreamAddress, C)>) -> Map<StreamAddress, C> {
    Map::new(
        |a: StreamAddress| has_address(s, a),
        |a: StreamAddress| s[choose|i: int| 0 <= i < s.len() && (#[trigger] s[i]).0 == a].1,
    )
}

proof fn lemma_pairs_map_at<C>(s: Seq<(StreamAddress, C)>, i: int)
    requires
        distinct_addresses(s),
        0 <= i < s.len(),
    ensures
        pairs_map(s).dom().contains(s[i].0),
        pairs_map(s)[s[i].0] == s[i].1,
{
    let a = s[i].0;
    assert(has_address(s, a));
    let j = choose|j: int| 0 <= j < s.len() && (#[trigger] s[j]).0 == a;
    assert(j == i);
}

/// Removing the pair at `i` from a list without repeated addresses removes
/// its address from the map.
proof fn lemma_pairs_map_remove<C>(s: Seq<(StreamAddress, C)>, i: int)
    requires
        distinct_addresses(s),
        0 <= i < s.len(),
    ensures
        distinct_addresses(s.remove(i)),
        pairs_map(s.remove(i)) == pairs_map(s).remove(s[i].0),
{
    let r = s.remove(i);
    assert forall|p: int, q: int|
        0 <= p < r.len() && 0 <= q < r.len() && p != q implies (#[trigger] r[p]).0 != (
    #[trigger] r[q]).0 by {
        let pp = if p < i {
            p
        } else {
            p + 1
        };
        let qq = if q < i {
            q
        } else {
            q + 1
        };
        assert(r[p] == s[pp]);
        assert(r[q] == s[qq]);
    }
    assert forall|a: StreamAddress| #[trigger]
        pairs_map(r).dom().contains(a) <==> pairs_map(s).remove(s[i].0).dom().contains(a) by {
        if has_address(r, a) {
            let k = choose|k: int| 0 <= k < r.len() && (#[trigger] r[k]).0 == a;
            let kk = if k < i {
                k
            } else {
                k + 1
            };
            assert(r[k] == s[kk]);
            assert(has_address(s, a));
        }
        if has_address(s, a) && a != s[i].0 {
            let k = choose|k: int| 0 <= k < s.len() && (#[trigger] s[k]).0 == a;
            let kk = if k < i {
                k
            } else {
                k - 1
            };
            assert(r[kk] == s[k]);
            assert(has_address(r, a));
        }
    }
    assert forall|a: StreamAddress| #[trigger] pairs_map(r).dom().contains(a) implies pairs_map(
        r,
    )[a] == pairs_map(s).remove(s[i].0)[a] by {
        let k = choose|k: int| 0 <= k < r.len() && (#[trigger] r[k]).0 == a;
        let kk = if k < i {
            k
        } else {
            k + 1
        };
        assert(r[k] == s[kk]);
        lemma_pairs_map_at(r, k);
        lemma_pairs_map_at(s, kk);
    }
    assert(pairs_map(r) =~= pairs_map(s).remove(s[i].0));
}

/// Appending a pair whose address is not in the list adds it to the map.
proof fn lemma_pairs_map_push<C>(s: Seq<(StreamAddress, C)>, a: StreamAddress, c: C)
    requires
        distinct_addresses(s),
        !has_address(s, a),
    ensures
        distinct_addresses(s.push((a, c))),
        pairs_map(s.push((a, c))) == pairs_map(s).insert(a, c),
{
    let t = s.push((a, c));
    assert forall|p: int, q: int|
        0 <= p < t.len() && 0 <= q < t.len() && p != q implies (#[trigger] t[p]).0 != (
    #[trigger] t[q]).0 by {
        if p < s.len() {
            assert(t[p] == s[p]);
        }
        if q < s.len() {
            assert(t[q] == s[q]);
        }
    }
    assert forall|b: StreamAddress| #[trigger]
        pairs_map(t).dom().contains(b) <==> pairs_map(s).insert(a, c).dom().contains(b) by {
        if has_address(t, b) && b != a {
            let k = choose|k: int| 0 <= k < t.len() && (#[trigger] t[k]).0 == b;
            assert(k < s.len());
            assert(t[k] == s[k]);
            assert(has_address(s, b));
        }
        if has_address(s, b) {
            let k = choose|k: int| 0 <= k < s.len() && (#[trigger] s[k]).0 == b;
            assert(t[k] == s[k]);
            assert(has_address(t, b));
        }
        if b == a {
            assert(t[s.len() as int].0 == a);
            assert(has_address(t, b));
        }
    }
    assert forall|b: StreamAddress| #[trigger] pairs_map(t).dom().contains(b) implies pairs_map(
        t,
    )[b] == pairs_map(s).insert(a, c)[b] by {
        let k = choose|k: int| 0 <= k < t.len() && (#[trigger] t[k]).0 == b;
        lemma_pairs_map_at(t, k);
        if k < s.len() {
            assert(t[k] == s[k]);
            lemma_pairs_map_at(s, k);
        }
    }
    assert(pairs_map(t) =~= pairs_map(s).insert(a, c));
}

/// The streaming clients, at most one per address.
pub struct ClientRegistry<C> {
    clients: Vec<(StreamAddress, C)>,
}

impl<C> View for ClientRegistry<C> {
    type V = Map<StreamAddress, C>;

    /// The clients, by address.
    closed spec fn view(&self) -> Map<StreamAddress, C> {
        pairs_map(self.clients@)
    }
}

impl<C> ClientRegistry<C> {
    pub closed spec fn wf(&self) -> bool {
        distinct_addresses(self.clients@)
    }

    /// No client.
    pub fn new() -> (r: Self)
        ensures
            r.wf(),
            r@ == Map::<StreamAddress, C>::empty(),
    {
        let r = ClientRegistry { clients: Vec::new() };
        assert(r@ =~= Map::<StreamAddress, C>::empty());
        r
    }

    fn index_of(&self, address: StreamAddress) -> (r: Option<usize>)
        requires
            self.wf(),
        ensures
            r matches Some(i) ==> i < self.clients@.len() && self.clients@[i as int].0 == address,
            r is None ==> !has_address(self.clients@, address),
    {
        let mut i: usize = 0;
        while i < self.clients.len()
            invariant
                i <= self.clients@.len(),
                forall|j: int| 0 <= j < i ==> (#[trigger] self.clients@[j]).0 != address,
            decreases self.clients@.len() - i,
        {
            if self.clients[i].0 == address {
                return Some(i);
            }
            i = i + 1;
        }
        None
    }

    /// Takes the client of `address` out of the registry, if there is one.
    fn take(&mut self, address: StreamAddress) -> (r: Option<C>)
        requires
            old(self).wf(),
        ensures
            final(self).wf(),
            final(self)@ == old(self)@.remove(address),
            r == old(self)@.get(address),
            !has_address(final(self).clients@, address),
    {
        match self.index_of(address) {
            Some(i) => {
                let ghost before = self.clients@;
                proof {
                    lemma_pairs_map_at(before, i as int);
                    lemma_pairs_map_remove(before, i as int);
                }
                let (_, client) = self.clients.remove(i);
                proof {
                    if has_address(self.clients@, address) {
                        let k = choose|k: int|
                            0 <= k < self.clients@.len() && (#[trigger] self.clients@[k]).0
                                == address;
                        lemma_pairs_map_at(self.clients@, k);
                    }
                }
                Some(client)
            },
            None => {
                assert(self@ =~= self@.remove(address));
                None
            },
        }
    }

    /// Registers `client` as the client streaming to `address`. A client
    /// already registered there leaves the registry and is returned.
    pub fn start(&mut self, address: StreamAddress, client: C) -> (replaced: Option<C>)
        requires
            old(self).wf(),
        ensures
            final(self).wf(),
            final(self)@ == old(self)@.insert(address, client),
            replaced == old(self)@.get(address),
    {
        let replaced = self.take(address);
        let ghost mid = self.clients@;
        proof {
            lemma_pairs_map_push(mid, address, client);
        }
        self.clients.push((address, client));
        assert(self@ =~= old(self)@.insert(address, client));
        replaced
    }

    /// Removes the client streaming to `address` and returns it; `None` when
    /// no client streams there.
    pub fn stop(&mut self, address: StreamAddress) -> (stopped: Option<C>)
        requires
            old(self).wf(),
        ensures
            final(self).wf(),
            final(self)@ == old(self)@.remove(address),
            stopped == old(self)@.get(address),
    {
        self.take(address)
    }

    /// Removes every client and returns them with their addresses.
    pub fn drain(&mut self) -> (all: Vec<(StreamAddress, C)>)
        requires
            old(self).wf(),
        ensures
            final(self).wf(),
            final(self)@ == Map::<StreamAddress, C>::empty(),
            distinct_addresses(all@),
            pairs_map(all@) == old(self)@,
    {
        let mut all: Vec<(StreamAddress, C)> = Vec::new();
        std::mem::swap(&mut all, &mut self.clients);
        assert(self@ =~= Map::<StreamAddress, C>::empty());
        all
    }

    /// The number of clients.
    pub fn len(&self) -> (n: usize)
        requires
            self.wf(),
        ensures
            n == self@.len(),
    {
        proof {
            lemma_pairs_map_len(self.clients@);
        }
        self.clients.len()
    }
}

/// A list without repeated addresses has as many pairs as its map has keys.
proof fn lemma_pairs_map_len<C>(s: Seq<(StreamAddress, C)>)
    requires
        distinct_addresses(s),
    ensures
        pairs_map(s).dom().finite(),
        pairs_map(s).len() == s.len(),
    decreases s.len(),
{
    if s.len() == 0 {
        assert(pairs_map(s).dom() =~= Set::<StreamAddress>::empty());
    } else {
        let d = s.drop_last();
        assert(distinct_addresses(d)) by {
            assert forall|p: int, q: int|
                0 <= p < d.len() && 0 <= q < d.len() && p != q implies (#[trigger] d[p]).0 != (
            #[trigger] d[q]).0 by {
                assert(d[p] == s[p]);
                assert(d[q] == s[q]);
            }
        }
        lemma_pairs_map_len(d);
        let last = s.last();
        assert(!has_address(d, last.0)) by {
            if has_address(d, last.0) {
                let k = choose|k: int| 0 <= k < d.len() && (#[trigger] d[k]).0 == last.0;
                assert(d[k] == s[k]);
                assert(s[s.len() - 1] == last);
            }
        }
        lemma_pairs_map_push(d, last.0, last.1);
        assert(d.push((last.0, last.1)) =~= s);
    }
}

/// A client started at an address is the one that a later stop there
/// returns, and after the stop no client streams there.
pub proof fn law_stop_returns_started<C>(clients: Map<StreamAddress, C>, address: StreamAddress, client: C)
    ensures
        clients.insert(address, client).get(address) == Some(client),
        !clients.insert(address, client).remove(address).dom().contains(address),
{
}

} // verus!
