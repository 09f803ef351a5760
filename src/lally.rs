//! The node: its store, its durability hooks and its peers, and the handlers that a peer's
//! request runs (they apply locally and log; they never fan out again).

pub mod config;

use crate::aol::{operation_record, AppendOnlyLog};
use crate::convergence::reading_of;
use crate::operation::{KVResult, Operation};
use crate::repair::{correction_name, latest, read_repair, readings, value_at, GetKvResponse, RepairPlan};
use crate::store::apply_spec;
use crate::pool::Pool;
use crate::store::{add_spec, remove_spec, SlotView, Store};
use crate::timestamp::representable;
use vstd::prelude::*;

verus! {

/// The durability hooks of a node; every mutation is handed to each of them, in registration
/// order, before it is applied.
pub struct Hooks {
    hooks: Vec<AppendOnlyLog>,
}

impl Hooks {
    /// What each hook has waiting to be written.
    pub closed spec fn pending(&self) -> Seq<Seq<Seq<char>>> {
        self.hooks@.map_values(|h: AppendOnlyLog| h.pending())
    }

    /// No hooks yet.
    pub fn new() -> (r: Hooks)
        ensures
            r.pending() == Seq::<Seq<Seq<char>>>::empty(),
    {
        Hooks { hooks: Vec::new() }
    }

    /// Adds a hook after those already registered.
    pub fn register(&mut self, hook: AppendOnlyLog)
        ensures
            final(self).pending() == old(self).pending().push(hook.pending()),
    {
        self.hooks.push(hook);
        proof {
            assert(self.pending() =~= old(self).pending().push(hook.pending()));
        }
    }

    /// The number of hooks.
    pub fn len(&self) -> (r: usize)
        ensures
            r == self.pending().len(),
    {
        self.hooks.len()
    }

    /// Hands a mutation to every hook: each enqueues its record.
    pub fn invoke_all(&mut self, operation: &Operation)
        requires
            representable(operation.timestamp),
        ensures
            final(self).pending().len() == old(self).pending().len(),
            forall|i: int|
                0 <= i < old(self).pending().len() ==> #[trigger] final(self).pending()[i] == old(
                    self,
                ).pending()[i].push(operation_record(*operation)),
    {
        let n = self.hooks.len();
        let mut i: usize = 0;
        while i < n
            invariant
                n == old(self).pending().len(),
                i <= n,
                self.pending().len() == n,
                representable(operation.timestamp),
                forall|j: int| 0 <= j < i ==> #[trigger] self.pending()[j] == old(self).pending()[j].push(operation_record(*operation)),
                forall|j: int| i <= j < n ==> #[trigger] self.pending()[j] == old(self).pending()[j],
            decreases n - i,
        {
            let ghost before = self.pending();
            let mut h = self.hooks.remove(i);
            h.invoke(operation);
            self.hooks.insert(i, h);
            proof {
                assert(self.pending() =~= before.update(i as int, before[i as int].push(operation_record(*operation))));
            }
            i = i + 1;
        }
    }

    /// Takes the waiting records of the `i`-th hook, oldest first, for its flush task.
    pub fn drain(&mut self, i: usize) -> (r: Vec<String>)
        requires
            i < old(self).pending().len(),
        ensures
            r@.map_values(|s: String| s@) == old(self).pending()[i as int],
            final(self).pending() == old(self).pending().update(i as int, Seq::<Seq<char>>::empty()),
    {
        let ghost before = self.pending();
        let mut h = self.hooks.remove(i);
        let lines = h.drain();
        self.hooks.insert(i, h);
        proof {
            assert(self.pending() =~= before.update(i as int, Seq::<Seq<char>>::empty()));
        }
        lines
    }
}

/// One node of the cluster. `C` is the type of a channel to a peer.
pub struct Lally<C> {
    pub store: Store,
    pub hooks: Hooks,
    pub pool: Pool<C>,
}

impl<C> Lally<C> {
    /// A node with an empty store, no hooks and no peers.
    pub fn new() -> (r: Lally<C>)
        ensures
            r.store@ == Map::<Seq<char>, SlotView>::empty(),
            r.hooks.pending() == Seq::<Seq<Seq<char>>>::empty(),
            r.pool@ == Seq::<(Seq<char>, C)>::empty(),
            r.pool.wf(),
    {
        Lally { store: Store::new(), hooks: Hooks::new(), pool: Pool::new() }
    }

    /// Runs an ADD that a peer sent: logs it, then applies it under the timestamp guard.
    pub fn add_kv(&mut self, operation: &Operation) -> (r: KVResult)
        requires
            operation.value is Some,
            representable(operation.timestamp),
        ensures
            final(self).store@ == add_spec(old(self).store@, operation.key@, operation.value->0@, operation.timestamp),
            r.success == !(old(self).store@.contains_key(operation.key@) && !crate::timestamp::ts_lt(
                old(self).store@[operation.key@].1,
                operation.timestamp,
            )),
            r.value is None,
            r.timestamp == Some(final(self).store@[operation.key@].1),
            final(self).hooks.pending().len() == old(self).hooks.pending().len(),
            forall|i: int|
                0 <= i < old(self).hooks.pending().len() ==> #[trigger] final(self).hooks.pending()[i] == old(
                    self,
                ).hooks.pending()[i].push(operation_record(*operation)),
            final(self).pool@ == old(self).pool@,
    {
        self.hooks.invoke_all(operation);
        self.store.add(operation)
    }

    /// Runs a REMOVE that a peer sent: logs it, then applies it under the timestamp guard.
    pub fn remove_kv(&mut self, operation: &Operation) -> (r: KVResult)
        requires
            representable(operation.timestamp),
        ensures
            final(self).store@ == remove_spec(old(self).store@, operation.key@, operation.timestamp),
            r.success == crate::store::remove_applies(old(self).store@, operation.key@, operation.timestamp),
            r.value is None,
            r.timestamp == if r.success {
                Some(operation.timestamp)
            } else {
                None
            },
            final(self).hooks.pending().len() == old(self).hooks.pending().len(),
            forall|i: int|
                0 <= i < old(self).hooks.pending().len() ==> #[trigger] final(self).hooks.pending()[i] == old(
                    self,
                ).hooks.pending()[i].push(operation_record(*operation)),
            final(self).pool@ == old(self).pool@,
    {
        self.hooks.invoke_all(operation);
        self.store.remove(operation)
    }

    /// Settles a client GET of `operation.key`: the local answer joins the peers' answers (as
    /// source `local`, last), read-repair picks the latest, and when the local answer is stale the
    /// corrective write is applied to the local store at once. The plan's stale sources other than
    /// `local` are left for the caller to correct.
    pub fn settle_get(&mut self, operation: &Operation, peers: Vec<(String, GetKvResponse)>) -> (r: RepairPlan)
        ensures
            ({
                let local = reading_of("local"@, old(self).store@, operation.key@);
                let vs = readings(peers@).push(local);
                &&& latest(vs) is None ==> (r.value is None && r.timestamp is None && r.correction is None
                    && final(self).store@ == old(self).store@)
                &&& latest(vs) matches Some(t) ==> {
                    &&& r.timestamp == Some(t)
                    &&& crate::operation::opt_view(r.value) == value_at(vs, t)
                    &&& r.correction matches Some(c) && c.key@ == operation.key@ && c.timestamp == t
                        && crate::operation::opt_view(c.value) == value_at(vs, t) && c.name@ == correction_name(
                        value_at(vs, t),
                    )
                    &&& r.stale@.map_values(|s: String| s@) == crate::repair::stale_sources(vs, t)
                    &&& final(self).store@ == if local.2 == Some(t) {
                        old(self).store@
                    } else {
                        apply_spec(old(self).store@, correction_name(value_at(vs, t)), operation.key@, value_at(vs, t), t)
                    }
                }
            }),
            final(self).hooks.pending() == old(self).hooks.pending(),
            final(self).pool@ == old(self).pool@,
    {
        let local = self.store.get(operation);
        let local_ts = local.timestamp;
        let mut responses = peers;
        let ghost before = responses@;
        responses.push((String::from_str("local"), GetKvResponse { value: local.value, timestamp: local_ts }));
        proof {
            reveal_strlit("local");
            assert(readings(responses@) =~= readings(before).push(
                reading_of("local"@, old(self).store@, operation.key@),
            ));
        }
        let plan = read_repair(&operation.key, &responses);
        match (&plan.correction, plan.timestamp) {
            (Some(c), Some(t)) => {
                let fresh = match local_ts {
                    Some(u) => u.seconds == t.seconds && u.nanos == t.nanos,
                    None => false,
                };
                if !fresh {
                    self.store.apply(c);
                }
            },
            _ => {},
        }
        plan
    }

    /// Runs a GET that a peer sent: reads the local store only.
    pub fn get_kv(&self, operation: &Operation) -> (r: KVResult)
        ensures
            r.success == (self.store@.contains_key(operation.key@) && self.store@[operation.key@].2),
            r.success ==> (r.value matches Some(v) && v@ == self.store@[operation.key@].0),
            !r.success ==> r.value is None,
            r.timestamp == if self.store@.contains_key(operation.key@) {
                Some(self.store@[operation.key@].1)
            } else {
                None
            },
    {
        self.store.get(operation)
    }
}

} // verus!
