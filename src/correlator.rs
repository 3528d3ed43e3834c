//! Correlation of engine responses with the requests that are waiting for them.
use std::collections::HashMap;
use vstd::prelude::*;

verus! {

broadcast use vstd::std_specs::hash::group_hash_axioms;

/// The table of requests that wait for a response, keyed by request id.
///
/// Each waiting request has a slot: whatever the caller waits on. Ids are handed
/// out in increasing order and are never reused.
pub struct Correlator<S> {
    next: u64,
    pending: HashMap<u64, S>,
}

/// How a wait on a request's slot ended.
pub enum WaitOutcome<V> {
    /// The response came, with this value.
    Delivered(V),
    /// The deadline passed first.
    TimedOut,
    /// The slot was dropped without a value.
    Dropped,
}

/// Why a request produced no value.
#[derive(Clone, Copy, Debug, PartialEq, Eq)]
pub enum RequestFailure {
    Timeout,
    Cancelled,
}

/// The slots left after resolving the ids of `order` one after another, and what each
/// of those resolutions handed back.
pub open spec fn resolve_all<S>(m: Map<u64, S>, order: Seq<u64>) -> Seq<Option<S>>
    decreases order.len(),
{
    if order.len() == 0 {
        Seq::empty()
    } else {
        let id = order[0];
        let got = if m.contains_key(id) {
            Some(m[id])
        } else {
            None
        };
        seq![got] + resolve_all(m.remove(id), order.drop_first())
    }
}

impl<S> Correlator<S> {
    /// The id that the next request gets.
    pub closed spec fn next_spec(&self) -> u64 {
        self.next
    }

    /// The slots of the requests that still wait, by id.
    pub closed spec fn slots(&self) -> Map<u64, S> {
        self.pending@
    }

    /// An empty table; the first id is 1.
    pub fn new() -> (r: Self)
        ensures
            r.next_spec() == 1,
            r.slots() == Map::<u64, S>::empty(),
    {
        Correlator { next: 1, pending: HashMap::new() }
    }

    /// Hands out the next id, or `None` once every id has been used.
    pub fn next_id(&mut self) -> (r: Option<u64>)
        ensures
            final(self).slots() == old(self).slots(),
            old(self).next_spec() < u64::MAX ==> r == Some(old(self).next_spec())
                && final(self).next_spec() == old(self).next_spec() + 1,
            old(self).next_spec() == u64::MAX ==> r is None && final(self).next_spec()
                == old(self).next_spec(),
    {
        if self.next == u64::MAX {
            None
        } else {
            let id = self.next;
            self.next = self.next + 1;
            Some(id)
        }
    }

    /// Records that the request `id` waits on `slot`.
    pub fn register(&mut self, id: u64, slot: S)
        ensures
            final(self).slots() == old(self).slots().insert(id, slot),
            final(self).next_spec() == old(self).next_spec(),
    {
        self.pending.insert(id, slot);
    }

    /// Takes out the slot of request `id`, for the response to be delivered to it.
    /// `None`, with nothing changed, where no request `id` waits (it may have timed out).
    pub fn resolve(&mut self, id: u64) -> (r: Option<S>)
        ensures
            final(self).slots() == old(self).slots().remove(id),
            final(self).next_spec() == old(self).next_spec(),
            match r {
                Some(s) => old(self).slots().contains_key(id) && s == old(self).slots()[id],
                None => !old(self).slots().contains_key(id),
            },
    {
        self.pending.remove(&id)
    }

    /// Whether request `id` still waits.
    pub fn is_pending(&self, id: u64) -> (r: bool)
        ensures
            r == self.slots().contains_key(id),
    {
        self.pending.contains_key(&id)
    }

    /// Settles the wait of request `id`: the value where it came; otherwise the failure,
    /// and after a timeout the request no longer waits, so that a late response finds
    /// nothing to deliver to.
    pub fn finish<V>(&mut self, id: u64, outcome: WaitOutcome<V>) -> (r: Result<V, RequestFailure>)
        ensures
            final(self).next_spec() == old(self).next_spec(),
            match outcome {
                WaitOutcome::Delivered(v) => r == Ok::<V, RequestFailure>(v) && final(self).slots()
                    == old(self).slots(),
                WaitOutcome::TimedOut => r == Err::<V, RequestFailure>(RequestFailure::Timeout)
                    && final(self).slots() == old(self).slots().remove(id),
                WaitOutcome::Dropped => r == Err::<V, RequestFailure>(RequestFailure::Cancelled)
                    && final(self).slots() == old(self).slots(),
            },
    {
        match outcome {
            WaitOutcome::Delivered(v) => Ok(v),
            WaitOutcome::TimedOut => {
                self.pending.remove(&id);
                Err(RequestFailure::Timeout)
            },
            WaitOutcome::Dropped => Err(RequestFailure::Cancelled),
        }
    }
}

/// Resolving waiting requests in any order hands each one its own slot and no other:
/// the `k`-th resolution gives the slot registered under `order[k]`.
pub proof fn lemma_correlation<S>(m: Map<u64, S>, order: Seq<u64>)
    requires
        order.no_duplicates(),
        forall|k: int| 0 <= k < order.len() ==> m.contains_key(#[trigger] order[k]),
    ensures
        resolve_all(m, order).len() == order.len(),
        forall|k: int| 0 <= k < order.len() ==> #[trigger] resolve_all(m, order)[k] == Some(m[order[k]]),
    decreases order.len(),
{
    if order.len() > 0 {
        let id = order[0];
        let rest = order.drop_first();
        let m2 = m.remove(id);
        assert forall|k: int| 0 <= k < rest.len() implies m2.contains_key(#[trigger] rest[k]) by {
            assert(rest[k] == order[k + 1]);
            assert(order[k + 1] != order[0]);
        }
        assert(rest.no_duplicates()) by {
            assert forall|i: int, j: int| 0 <= i < rest.len() && 0 <= j < rest.len() && i != j implies rest[i] != rest[j] by {
                assert(rest[i] == order[i + 1] && rest[j] == order[j + 1]);
            }
        }
        lemma_correlation(m2, rest);
        assert forall|k: int| 0 <= k < order.len() implies #[trigger] resolve_all(m, order)[k] == Some(m[order[k]]) by {
            if k > 0 {
                assert(order[k] == rest[k - 1]);
                assert(order[k] != id);
                assert(m2[order[k]] == m[order[k]]);
            }
        }
    }
}

/// The slot tables of a run of responses, one after another: each response with a
/// distinct id takes its id's slot out of the table (as `resolve` and the session's
/// `handle_message` do). Then the `i`-th response finds exactly the slot that was
/// registered under its id before the run began, whatever the order of the ids: each
/// result goes to the caller that made the request, never to another.
pub proof fn lemma_delivery_in_any_order<S>(tables: Seq<Map<u64, S>>, ids: Seq<u64>)
    requires
        tables.len() == ids.len() + 1,
        ids.no_duplicates(),
        forall|i: int| 0 <= i < ids.len() ==> tables[i + 1] == tables[i].remove(#[trigger] ids[i]),
    ensures
        forall|i: int|
            0 <= i < ids.len() ==> (#[trigger] tables[i].contains_key(ids[i]) <==> tables[0].contains_key(ids[i])),
        forall|i: int|
            0 <= i < ids.len() && tables[0].contains_key(ids[i]) ==> #[trigger] tables[i][ids[i]] == tables[0][ids[i]],
{
    assert forall|i: int| 0 <= i < ids.len() implies (#[trigger] tables[i].contains_key(ids[i])
        <==> tables[0].contains_key(ids[i])) by {
        lemma_untouched(tables, ids, i, ids[i]);
    }
    assert forall|i: int| 0 <= i < ids.len() && tables[0].contains_key(ids[i]) implies #[trigger] tables[i][ids[i]]
        == tables[0][ids[i]] by {
        lemma_untouched(tables, ids, i, ids[i]);
    }
}

proof fn lemma_untouched<S>(tables: Seq<Map<u64, S>>, ids: Seq<u64>, j: int, k: u64)
    requires
        tables.len() == ids.len() + 1,
        forall|i: int| 0 <= i < ids.len() ==> tables[i + 1] == tables[i].remove(#[trigger] ids[i]),
        0 <= j <= ids.len(),
        forall|i: int| 0 <= i < j ==> ids[i] != k,
    ensures
        tables[j].contains_key(k) <==> tables[0].contains_key(k),
        tables[0].contains_key(k) ==> tables[j][k] == tables[0][k],
    decreases j,
{
    if j > 0 {
        lemma_untouched(tables, ids, j - 1, k);
        let p = j - 1;
        assert(tables[p + 1] == tables[p].remove(ids[p]));
        assert(p + 1 == j);
    }
}

/// Requests started one after another, each under the id its table then held next (as
/// `next_id` and the session's `send_request` hand them out), get consecutive ids from
/// the first table's: none is ever used twice.
pub proof fn lemma_consecutive_ids<S>(tables: Seq<Correlator<S>>, ids: Seq<u64>)
    requires
        tables.len() == ids.len() + 1,
        forall|i: int| 0 <= i < ids.len() ==> #[trigger] ids[i] == tables[i].next_spec(),
        forall|i: int| 0 <= i < ids.len() ==> #[trigger] tables[i + 1].next_spec() == tables[i].next_spec() + 1,
    ensures
        forall|i: int| 0 <= i < ids.len() ==> #[trigger] ids[i] == tables[0].next_spec() + i,
        tables[ids.len() as int].next_spec() == tables[0].next_spec() + ids.len(),
        ids.no_duplicates(),
{
    assert forall|i: int| 0 <= i <= ids.len() implies #[trigger] tables[i].next_spec() == tables[0].next_spec() + i by {
        lemma_next_after(tables, ids, i);
    }
    assert forall|i: int| 0 <= i < ids.len() implies #[trigger] ids[i] == tables[0].next_spec() + i by {
        assert(tables[i].next_spec() == tables[0].next_spec() + i);
    }
}

proof fn lemma_next_after<S>(tables: Seq<Correlator<S>>, ids: Seq<u64>, j: int)
    requires
        tables.len() == ids.len() + 1,
        forall|i: int| 0 <= i < ids.len() ==> #[trigger] ids[i] == tables[i].next_spec(),
        forall|i: int| 0 <= i < ids.len() ==> #[trigger] tables[i + 1].next_spec() == tables[i].next_spec() + 1,
        0 <= j <= ids.len(),
    ensures
        tables[j].next_spec() == tables[0].next_spec() + j,
    decreases j,
{
    if j > 0 {
        lemma_next_after(tables, ids, j - 1);
        let p = j - 1;
        assert(ids[p] == tables[p].next_spec());
        assert(tables[p + 1].next_spec() == tables[p].next_spec() + 1);
    }
}

/// After a request timed out, a response that arrives for it finds no slot and leaves
/// the table as it was.
pub proof fn lemma_late_response<S>(m: Map<u64, S>, id: u64)
    ensures
        !m.remove(id).contains_key(id),
        m.remove(id).remove(id) == m.remove(id),
{
    assert(m.remove(id).remove(id) =~= m.remove(id));
}

} // verus!
