use vstd::prelude::*;
use crate::keyed::StringMap;

verus! {

/// One committed event: the aggregate it belongs to, its place in that aggregate's log
/// (1-based, without gaps) and what happened.
pub struct EventEnvelope<E> {
    pub aggregate_id: String,
    pub sequence: usize,
    pub payload: E,
}

#[derive(Debug, PartialEq, Eq, Structural)]
pub enum PersistenceError {
    /// The log has moved on since the version that the writer read.
    OptimisticLockError,
    /// The log cannot number that many events.
    CapacityExceeded,
}

/// Each envelope of `log` names `id` and stands at the place its sequence number gives.
pub open spec fn well_sequenced<E>(id: Seq<char>, log: Seq<EventEnvelope<E>>) -> bool {
    forall|j: int| 0 <= j < log.len() ==> (#[trigger] log[j]).aggregate_id@ == id && log[j].sequence == j + 1
}

/// The payloads of a log, in order.
pub open spec fn payloads<E>(log: Seq<EventEnvelope<E>>) -> Seq<E> {
    log.map_values(|e: EventEnvelope<E>| e.payload)
}

/// `after` is `before` with envelopes carrying `events` appended.
pub open spec fn appended<E>(before: Seq<EventEnvelope<E>>, after: Seq<EventEnvelope<E>>, events: Seq<E>) -> bool {
    &&& after.len() == before.len() + events.len()
    &&& after.subrange(0, before.len() as int) == before
    &&& payloads(after.subrange(before.len() as int, after.len() as int)) == events
}

/// The payloads that `after` holds beyond the length of `before`.
pub open spec fn added_events<E>(before: Seq<EventEnvelope<E>>, after: Seq<EventEnvelope<E>>) -> Seq<E> {
    payloads(after.subrange(before.len() as int, after.len() as int))
}

/// Per-aggregate append-only logs of events.
pub struct EventStore<E> {
    logs: StringMap<Vec<EventEnvelope<E>>>,
}

impl<E> EventStore<E> {
    /// The log of aggregate `id`; empty for an aggregate without events.
    pub closed spec fn log(&self, id: Seq<char>) -> Seq<EventEnvelope<E>> {
        if self.logs@.contains_key(id) {
            self.logs@[id]@
        } else {
            Seq::empty()
        }
    }

    #[verifier::type_invariant]
    closed spec fn wf(&self) -> bool {
        &&& forall|id: Seq<char>| #[trigger] self.logs@.contains_key(id) ==> well_sequenced(id, self.logs@[id]@)
    }

    pub fn new() -> (r: Self)
        ensures
            forall|id: Seq<char>| #[trigger] r.log(id) == Seq::<EventEnvelope<E>>::empty(),
    {
        EventStore { logs: StringMap::new() }
    }

    /// The number of events of aggregate `id`.
    pub fn version(&self, id: &str) -> (r: usize)
        ensures
            r == self.log(id@).len(),
    {
        match self.logs.get(id) {
            Some(log) => log.len(),
            None => 0,
        }
    }

    /// The events of aggregate `id`, oldest first. Each carries `id` and its 1-based place in
    /// the log, so the aggregate's version, the length of its log, is the number of events ever
    /// appended to it.
    pub fn events(&self, id: &str) -> (r: &[EventEnvelope<E>])
        ensures
            r@ == self.log(id@),
            well_sequenced(id@, r@),
    {
        proof { use_type_invariant(self); }
        match self.logs.get(id) {
            Some(log) => log.as_slice(),
            None => &[],
        }
    }

    /// Appends `events` to the log of `id` if that log still has `expected_version` events.
    pub fn commit(&mut self, id: &str, expected_version: usize, events: Vec<E>) -> (r: Result<(), PersistenceError>)
        ensures
            match r {
                Ok(()) => {
                    &&& expected_version == old(self).log(id@).len()
                    &&& expected_version + events@.len() <= usize::MAX
                    &&& appended(old(self).log(id@), final(self).log(id@), events@)
                    &&& forall|other: Seq<char>| other != id@ ==> #[trigger] final(self).log(other) == old(self).log(other)
                },
                Err(PersistenceError::OptimisticLockError) => {
                    &&& expected_version != old(self).log(id@).len()
                    &&& forall|other: Seq<char>| #[trigger] final(self).log(other) == old(self).log(other)
                },
                Err(PersistenceError::CapacityExceeded) => {
                    &&& expected_version == old(self).log(id@).len()
                    &&& expected_version + events@.len() > usize::MAX
                    &&& forall|other: Seq<char>| #[trigger] final(self).log(other) == old(self).log(other)
                },
            },
    {
        proof { use_type_invariant(&*self); }
        let current = self.version(id);
        if current != expected_version {
            return Err(PersistenceError::OptimisticLockError);
        }
        if events.len() > usize::MAX - current {
            return Err(PersistenceError::CapacityExceeded);
        }
        let ghost before = *self;
        let ghost old_log = self.log(id@);
        let ghost new_events = events@;
        let mut logs: StringMap<Vec<EventEnvelope<E>>> = StringMap::new();
        std::mem::swap(&mut logs, &mut self.logs);
        let mut log = match logs.take(id) {
            Some(l) => l,
            None => Vec::new(),
        };
        let key = id.to_owned();
        let mut rest = events;
        let mut k: usize = 0;
        while rest.len() > 0
            invariant
                key@ == id@,
                k <= new_events.len(),
                rest@ == new_events.subrange(k as int, new_events.len() as int),
                current + new_events.len() <= usize::MAX,
                log@.len() == current + k,
                log@.subrange(0, current as int) == old_log,
                payloads(log@.subrange(current as int, log@.len() as int)) == new_events.subrange(0, k as int),
                well_sequenced(id@, log@),
            decreases rest@.len(),
        {
            let e = rest.remove(0);
            let ghost log_before = log@;
            log.push(EventEnvelope { aggregate_id: key.clone(), sequence: current + k + 1, payload: e });
            proof {
                assert(log@.subrange(0, current as int) =~= log_before.subrange(0, current as int));
                assert(payloads(log@.subrange(current as int, log@.len() as int)) =~= new_events.subrange(0, k + 1));
            }
            k = k + 1;
        }
        proof {
            assert(new_events.subrange(0, k as int) =~= new_events);
        }
        logs.insert(key, log);
        self.logs = logs;
        proof {
            assert forall|other: Seq<char>| other != id@ implies #[trigger] self.log(other) == before.log(other) by {}
        }
        Ok(())
    }
}

} // verus!
