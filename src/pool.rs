//! The peer pool: each peer address (`ip:port`) with the channel that reaches it, at most one
//! channel per address.

use vstd::prelude::*;

verus! {

/// Why a membership change was refused.
#[derive(Clone, Copy, Debug, PartialEq, Eq, Structural)]
pub enum PoolError {
    /// The address is not in the pool.
    UnknownNode,
}

/// The peers of this node, in the order they joined the pool.
pub struct Pool<C> {
    peers: Vec<(String, C)>,
}

/// Whether `addr` is one of the addresses in `peers`.
pub open spec fn has_addr<C>(peers: Seq<(Seq<char>, C)>, addr: Seq<char>) -> bool {
    exists|i: int| 0 <= i < peers.len() && (#[trigger] peers[i]).0 == addr
}

/// The channel of `addr`, if it is a peer.
pub open spec fn channel_of<C>(peers: Seq<(Seq<char>, C)>, addr: Seq<char>) -> Option<C> {
    if has_addr(peers, addr) {
        Some(peers[choose|i: int| 0 <= i < peers.len() && (#[trigger] peers[i]).0 == addr].1)
    } else {
        None
    }
}

/// Addresses are unique.
pub open spec fn distinct_addrs<C>(peers: Seq<(Seq<char>, C)>) -> bool {
    forall|i: int, j: int| 0 <= i < j < peers.len() ==> (#[trigger] peers[i]).0 != (#[trigger] peers[j]).0
}

proof fn lemma_channel_at<C>(peers: Seq<(Seq<char>, C)>, i: int)
    requires
        distinct_addrs(peers),
        0 <= i < peers.len(),
    ensures
        channel_of(peers, peers[i].0) == Some(peers[i].1),
{
    let k = choose|k: int| 0 <= k < peers.len() && (#[trigger] peers[k]).0 == peers[i].0;
    if k != i {
        if k < i {
            assert(peers[k].0 != peers[i].0);
        } else {
            assert(peers[i].0 != peers[k].0);
        }
    }
}

impl<C> View for Pool<C> {
    type V = Seq<(Seq<char>, C)>;

    closed spec fn view(&self) -> Seq<(Seq<char>, C)> {
        self.peers@.map_values(|p: (String, C)| (p.0@, p.1))
    }
}

impl<C> Pool<C> {
    /// No peer has the same address as another.
    pub open spec fn wf(&self) -> bool {
        distinct_addrs(self@)
    }

    /// A pool without peers.
    pub fn new() -> (r: Pool<C>)
        ensures
            r@ == Seq::<(Seq<char>, C)>::empty(),
            r.wf(),
    {
        Pool { peers: Vec::new() }
    }

    fn find(&self, addr: &String) -> (r: Option<usize>)
        ensures
            match r {
                Some(i) => i < self@.len() && self@[i as int].0 == addr@,
                None => !has_addr(self@, addr@),
            },
    {
        let mut i: usize = 0;
        while i < self.peers.len()
            invariant
                i <= self@.len(),
                self@.len() == self.peers@.len(),
                forall|j: int| 0 <= j < i ==> (#[trigger] self@[j]).0 != addr@,
            decreases self@.len() - i,
        {
            proof {
                assert(self@[i as int].0 == self.peers@[i as int].0@);
            }
            if self.peers[i].0 == *addr {
                return Some(i);
            }
            i = i + 1;
        }
        None
    }

    /// The cached channel of `addr`, if it is a peer.
    pub fn lookup(&self, addr: &String) -> (r: Option<&C>)
        requires
            self.wf(),
        ensures
            match r {
                Some(c) => channel_of(self@, addr@) == Some(*c),
                None => channel_of(self@, addr@) is None,
            },
    {
        match self.find(addr) {
            Some(i) => {
                proof {
                    lemma_channel_at(self@, i as int);
                }
                Some(&self.peers[i].1)
            },
            None => None,
        }
    }

    /// Puts the channel of `addr` in the pool: it replaces the channel that `addr` had, or joins
    /// the pool last.
    pub fn upsert(&mut self, addr: String, channel: C)
        requires
            old(self).wf(),
        ensures
            final(self).wf(),
            channel_of(final(self)@, addr@) == Some(channel),
            has_addr(old(self)@, addr@) ==> final(self)@.len() == old(self)@.len(),
            !has_addr(old(self)@, addr@) ==> final(self)@ == old(self)@.push((addr@, channel)),
            forall|a: Seq<char>| a != addr@ ==> channel_of(#[trigger] final(self)@, a) == channel_of(old(self)@, a),
    {
        let ghost a = addr@;
        match self.find(&addr) {
            Some(i) => {
                self.peers.set(i, (addr, channel));
                proof {
                    assert(self@ =~= old(self)@.update(i as int, (a, channel)));
                    lemma_channel_at(self@, i as int);
                    assert forall|b: Seq<char>| b != a implies channel_of(#[trigger] self@, b) == channel_of(old(self)@, b) by {
                        if has_addr(old(self)@, b) {
                            let k = choose|k: int| 0 <= k < old(self)@.len() && (#[trigger] old(self)@[k]).0 == b;
                            lemma_channel_at(old(self)@, k);
                            lemma_channel_at(self@, k);
                        } else {
                            assert(!has_addr(self@, b));
                        }
                    }
                }
            },
            None => {
                self.peers.push((addr, channel));
                proof {
                    assert(self@ =~= old(self)@.push((a, channel)));
                    lemma_channel_at(self@, self@.len() - 1);
                    assert forall|b: Seq<char>| b != a implies channel_of(#[trigger] self@, b) == channel_of(old(self)@, b) by {
                        if has_addr(old(self)@, b) {
                            let k = choose|k: int| 0 <= k < old(self)@.len() && (#[trigger] old(self)@[k]).0 == b;
                            lemma_channel_at(old(self)@, k);
                            lemma_channel_at(self@, k);
                        } else {
                            if has_addr(self@, b) {
                                let k = choose|k: int| 0 <= k < self@.len() && (#[trigger] self@[k]).0 == b;
                                assert(self@[k] == old(self)@[k]);
                            }
                        }
                    }
                }
            },
        }
    }

    /// Evicts `ip`; an address that is not a peer is refused.
    pub fn remove(&mut self, ip: &String) -> (r: Result<String, PoolError>)
        requires
            old(self).wf(),
        ensures
            final(self).wf(),
            r is Ok <==> has_addr(old(self)@, ip@),
            r matches Ok(m) ==> m@ == "Removed Node"@,
            r matches Err(e) ==> e == PoolError::UnknownNode && final(self)@ == old(self)@,
            !has_addr(final(self)@, ip@),
            forall|a: Seq<char>| a != ip@ ==> channel_of(#[trigger] final(self)@, a) == channel_of(old(self)@, a),
    {
        match self.find(ip) {
            Some(i) => {
                let ghost before = self@;
                let _ = self.peers.remove(i);
                proof {
                    assert(self@ =~= before.remove(i as int));
                    assert forall|b: Seq<char>| b != ip@ implies channel_of(#[trigger] self@, b) == channel_of(before, b) by {
                        if has_addr(before, b) {
                            let k = choose|k: int| 0 <= k < before.len() && (#[trigger] before[k]).0 == b;
                            lemma_channel_at(before, k);
                            let k2 = if k < i { k } else { k - 1 };
                            assert(self@[k2] == before[k]);
                            lemma_channel_at(self@, k2);
                        } else {
                            if has_addr(self@, b) {
                                let k = choose|k: int| 0 <= k < self@.len() && (#[trigger] self@[k]).0 == b;
                                if k < i {
                                    assert(self@[k] == before[k]);
                                } else {
                                    assert(self@[k] == before[k + 1]);
                                }
                            }
                        }
                    }
                    if has_addr(self@, ip@) {
                        let k = choose|k: int| 0 <= k < self@.len() && (#[trigger] self@[k]).0 == ip@;
                        if k < i {
                            assert(before[k] == self@[k]);
                        } else {
                            assert(before[k + 1] == self@[k]);
                        }
                    }
                }
                Ok(String::from_str("Removed Node"))
            },
            None => Err(PoolError::UnknownNode),
        }
    }

    /// The peer addresses, in pool order.
    pub fn get_ips(&self) -> (r: Vec<String>)
        ensures
            r@.map_values(|s: String| s@) == self@.map_values(|p: (Seq<char>, C)| p.0),
    {
        let mut out: Vec<String> = Vec::new();
        let mut i: usize = 0;
        while i < self.peers.len()
            invariant
                i <= self.peers@.len(),
                self@.len() == self.peers@.len(),
                out@.map_values(|s: String| s@) == self@.map_values(|p: (Seq<char>, C)| p.0).take(i as int),
            decreases self.peers@.len() - i,
        {
            let ghost before = out@.map_values(|s: String| s@);
            let a = self.peers[i].0.clone();
            proof {
                assert(self@[i as int].0 == self.peers@[i as int].0@);
                assert(a@ == self.peers@[i as int].0@);
            }
            out.push(a);
            proof {
                assert(out@.map_values(|s: String| s@) =~= before.push(a@));
                assert(out@.map_values(|s: String| s@) =~= self@.map_values(|p: (Seq<char>, C)| p.0).take(i + 1));
            }
            i = i + 1;
        }
        proof {
            assert(self@.map_values(|p: (Seq<char>, C)| p.0).take(i as int) =~= self@.map_values(|p: (Seq<char>, C)| p.0));
        }
        out
    }

    /// The number of peers.
    pub fn len(&self) -> (r: usize)
        ensures
            r == self@.len(),
    {
        self.peers.len()
    }

    /// The address and channel of the `i`-th peer, for fanning a request out to every peer.
    pub fn peer(&self, i: usize) -> (r: (&String, &C))
        requires
            i < self@.len(),
        ensures
            r.0@ == self@[i as int].0,
            *r.1 == self@[i as int].1,
    {
        (&self.peers[i].0, &self.peers[i].1)
    }
}

/// A dial is needed only for an address that the pool does not hold: once one caller has put
/// the channel of `addr` in, every later lookup of `addr` finds that same channel.
pub proof fn lemma_single_dial<C>(peers: Seq<(Seq<char>, C)>, addr: Seq<char>, channel: C)
    requires
        distinct_addrs(peers),
        !has_addr(peers, addr),
    ensures
        distinct_addrs(peers.push((addr, channel))),
        channel_of(peers.push((addr, channel)), addr) == Some(channel),
{
    let grown = peers.push((addr, channel));
    assert forall|i: int, j: int| 0 <= i < j < grown.len() implies (#[trigger] grown[i]).0 != (#[trigger] grown[j]).0 by {
        if j == peers.len() {
            assert(grown[i] == peers[i]);
        } else {
            assert(grown[i] == peers[i] && grown[j] == peers[j]);
        }
    }
    lemma_channel_at(grown, peers.len() as int);
}

} // verus!
