//! Quorum bookkeeping for the fan-out of a read or write to the peers: the local node is one vote
//! already cast, peers' successes are gathered until the rest of the quorum is in.

use vstd::prelude::*;

verus! {

/// Peer votes that a quorum still needs once the local node has voted.
pub fn needed_votes(quorum: usize) -> (r: usize)
    requires
        quorum >= 1,
    ensures
        r == quorum - 1,
{
    quorum - 1
}

/// The successful peer responses gathered so far, towards a number of needed votes.
pub struct QuorumTally<T> {
    needed: usize,
    responses: Vec<T>,
}

impl<T> QuorumTally<T> {
    pub closed spec fn needed_spec(&self) -> nat {
        self.needed as nat
    }

    pub closed spec fn responses_spec(&self) -> Seq<T> {
        self.responses@
    }

    /// The quorum is met once as many successes as needed are in.
    pub open spec fn met(&self) -> bool {
        self.responses_spec().len() >= self.needed_spec()
    }

    /// A tally that waits for `needed` successes; with none needed it is met at once.
    pub fn new(needed: usize) -> (r: QuorumTally<T>)
        ensures
            r.needed_spec() == needed,
            r.responses_spec() == Seq::<T>::empty(),
    {
        QuorumTally { needed, responses: Vec::new() }
    }

    /// Whether enough successes are in; the fan-out stops waiting once this holds.
    pub fn is_met(&self) -> (r: bool)
        ensures
            r == self.met(),
    {
        self.responses.len() >= self.needed
    }

    /// Counts one completed request: a success (`Some`) is kept as a vote, a failure (`None`)
    /// only logged by the caller. Returns whether the quorum is now met.
    pub fn record(&mut self, outcome: Option<T>) -> (r: bool)
        requires
            !old(self).met(),
        ensures
            final(self).needed_spec() == old(self).needed_spec(),
            final(self).responses_spec() == match outcome {
                Some(x) => old(self).responses_spec().push(x),
                None => old(self).responses_spec(),
            },
            r == final(self).met(),
            final(self).responses_spec().len() <= final(self).needed_spec(),
    {
        match outcome {
            Some(x) => {
                self.responses.push(x);
            },
            None => {},
        }
        self.responses.len() >= self.needed
    }

    /// The votes gathered and whether they make the quorum; partial success is not an error.
    pub fn finish(self) -> (r: (Vec<T>, bool))
        ensures
            r.0@ == self.responses_spec(),
            r.1 == self.met(),
    {
        let met = self.responses.len() >= self.needed;
        (self.responses, met)
    }
}

/// How a quorum operation went: the votes counted (the local one included) against those
/// required, and whether they were enough.
#[derive(Clone, Copy, Debug, PartialEq, Eq, Structural)]
pub struct QuorumOutcome {
    pub required: usize,
    pub achieved: usize,
    pub met: bool,
}

/// The outcome of a write whose quorum is `quorum` and to which `peer_votes` peers agreed.
pub fn write_outcome(quorum: usize, peer_votes: usize) -> (r: QuorumOutcome)
    requires
        peer_votes < usize::MAX,
    ensures
        r.required == quorum,
        r.achieved == peer_votes + 1,
        r.met == (peer_votes + 1 >= quorum),
{
    QuorumOutcome { required: quorum, achieved: peer_votes + 1, met: peer_votes + 1 >= quorum }
}

/// A REMOVE took effect if the local store or any peer removed the key.
pub fn removal_confirmed(local: bool, peers: &Vec<bool>) -> (r: bool)
    ensures
        r == (local || exists|i: int| 0 <= i < peers@.len() && peers@[i]),
{
    if local {
        return true;
    }
    let mut i: usize = 0;
    while i < peers.len()
        invariant
            i <= peers@.len(),
            forall|j: int| 0 <= j < i ==> !peers@[j],
        decreases peers@.len() - i,
    {
        if peers[i] {
            return true;
        }
        i = i + 1;
    }
    false
}

} // verus!
