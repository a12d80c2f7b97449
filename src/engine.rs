use vstd::prelude::*;
use crate::aggregate::Aggregate;
use crate::event_store::{added_events, appended, payloads, EventEnvelope, EventStore, PersistenceError};

verus! {

/// The view of an aggregate after `events`, starting from `state`.
pub open spec fn fold_events<A: Aggregate>(state: A::V, events: Seq<A::Event>) -> A::V
    decreases events.len(),
{
    if events.len() == 0 {
        state
    } else {
        A::spec_apply(fold_events::<A>(state, events.drop_last()), events.last())
    }
}

/// The view of an aggregate whose log holds `events`.
pub open spec fn replay<A: Aggregate>(events: Seq<A::Event>) -> A::V {
    fold_events::<A>(A::spec_initial(), events)
}

/// Replaying is deterministic: the same ordered events folded twice from the same state give
/// the same state, whatever the length of the sequence.
pub proof fn lemma_fold_deterministic<A: Aggregate>(s1: A::V, s2: A::V, e1: Seq<A::Event>, e2: Seq<A::Event>)
    requires
        s1 == s2,
        e1 == e2,
    ensures
        fold_events::<A>(s1, e1) == fold_events::<A>(s2, e2),
    decreases e1.len(),
{
    if e1.len() > 0 {
        lemma_fold_deterministic::<A>(s1, s2, e1.drop_last(), e2.drop_last());
    }
}

/// Folding is deterministic and may be split anywhere: folding `a` and then `b` gives the state
/// that folding `a + b` from the same start gives. So a state kept up to date event by event
/// equals the state that a fresh replay of the whole log computes.
pub proof fn lemma_fold_split<A: Aggregate>(state: A::V, a: Seq<A::Event>, b: Seq<A::Event>)
    ensures
        fold_events::<A>(fold_events::<A>(state, a), b) == fold_events::<A>(state, a + b),
    decreases b.len(),
{
    if b.len() == 0 {
        assert(a + b =~= a);
    } else {
        lemma_fold_split::<A>(state, a, b.drop_last());
        assert((a + b).drop_last() =~= a + b.drop_last());
        assert((a + b).last() == b.last());
    }
}

/// After an append, the replayed state is the old replayed state with the appended events
/// folded in.
pub proof fn lemma_replay_appended<A: Aggregate>(
    before: Seq<EventEnvelope<A::Event>>,
    after: Seq<EventEnvelope<A::Event>>,
    events: Seq<A::Event>,
)
    requires
        appended(before, after, events),
    ensures
        replay::<A>(payloads(after)) == fold_events::<A>(replay::<A>(payloads(before)), events),
{
    let added = after.subrange(before.len() as int, after.len() as int);
    assert(after =~= before + added);
    assert(payloads(after) =~= payloads(before) + payloads(added));
    lemma_fold_split::<A>(A::spec_initial(), payloads(before), events);
}

/// All events of a list of batches, batch after batch.
pub open spec fn concat_batches<E>(batches: Seq<Seq<E>>) -> Seq<E>
    decreases batches.len(),
{
    if batches.len() == 0 {
        Seq::empty()
    } else {
        concat_batches(batches.drop_last()) + batches.last()
    }
}

/// A log that starts empty and grows only by appends holds exactly the appended events, in
/// order; its version, its length, is the total number of events ever appended.
pub proof fn lemma_log_is_all_appends<E>(logs: Seq<Seq<EventEnvelope<E>>>, batches: Seq<Seq<E>>)
    requires
        logs.len() == batches.len() + 1,
        logs[0].len() == 0,
        forall|i: int| 0 <= i < batches.len() ==> appended(#[trigger] logs[i], logs[i + 1], batches[i]),
    ensures
        payloads(logs.last()) == concat_batches(batches),
        logs.last().len() == concat_batches(batches).len(),
    decreases batches.len(),
{
    if batches.len() == 0 {
        assert(payloads(logs.last()) =~= Seq::<E>::empty());
    } else {
        let n: int = batches.len() - 1;
        lemma_log_is_all_appends(logs.drop_last(), batches.drop_last());
        let before = logs[n];
        let after = logs[n + 1];
        assert(appended(logs[n], logs[n + 1], batches[n]));
        assert(logs.drop_last().last() == before);
        assert(after =~= after.subrange(0, before.len() as int) + after.subrange(before.len() as int, after.len() as int));
        assert(payloads(after) =~= payloads(before) + payloads(after.subrange(before.len() as int, after.len() as int)));
    }
}

/// Two writers that read the same version race: once the first has appended a non-empty batch,
/// the log no longer has the version that the second expects, so the second's commit fails
/// with a conflict.
pub proof fn lemma_one_writer_wins_race<E>(
    before: Seq<EventEnvelope<E>>,
    after: Seq<EventEnvelope<E>>,
    first: Seq<E>,
)
    requires
        appended(before, after, first),
        first.len() > 0,
    ensures
        after.len() != before.len(),
{
}

/// Why a command was not carried out.
pub enum AggregateError<X> {
    /// The aggregate refused the command.
    UserError(X),
    /// Another writer appended to the aggregate since it was read; the command may be retried.
    AggregateConflict,
    /// The log could not take the events.
    PersistenceError,
}

/// Where the events that a commit added go next.
pub trait Query<A: Aggregate>: View {
    /// Whether `after` is a view that the events of one commit to aggregate `aggregate_id`
    /// may leave, starting from `before`.
    spec fn dispatched(before: Self::V, aggregate_id: Seq<char>, events: Seq<EventEnvelope<A::Event>>, after: Self::V) -> bool;

    fn dispatch(&mut self, aggregate_id: &str, events: &[EventEnvelope<A::Event>])
        ensures
            Self::dispatched(old(self)@, aggregate_id@, events@, final(self)@),
    ;
}

/// A query that ignores every event.
pub struct NoQuery;

impl View for NoQuery {
    type V = ();

    open spec fn view(&self) -> () {
        ()
    }
}

impl<A: Aggregate> Query<A> for NoQuery {
    open spec fn dispatched(before: (), aggregate_id: Seq<char>, events: Seq<EventEnvelope<A::Event>>, after: ()) -> bool {
        true
    }

    fn dispatch(&mut self, aggregate_id: &str, events: &[EventEnvelope<A::Event>]) {
    }
}

/// Two queries that both receive every commit, the first before the second. Nesting pairs
/// registers any number of queries.
pub struct Both<Q1, Q2> {
    pub first: Q1,
    pub second: Q2,
}

impl<Q1: View, Q2: View> View for Both<Q1, Q2> {
    type V = (Q1::V, Q2::V);

    open spec fn view(&self) -> (Q1::V, Q2::V) {
        (self.first@, self.second@)
    }
}

impl<A: Aggregate, Q1: Query<A>, Q2: Query<A>> Query<A> for Both<Q1, Q2> {
    open spec fn dispatched(
        before: (Q1::V, Q2::V),
        aggregate_id: Seq<char>,
        events: Seq<EventEnvelope<A::Event>>,
        after: (Q1::V, Q2::V),
    ) -> bool {
        Q1::dispatched(before.0, aggregate_id, events, after.0) && Q2::dispatched(before.1, aggregate_id, events, after.1)
    }

    fn dispatch(&mut self, aggregate_id: &str, events: &[EventEnvelope<A::Event>]) {
        self.first.dispatch(aggregate_id, events);
        self.second.dispatch(aggregate_id, events);
    }
}

/// Loads aggregates by replaying their logs, lets them decide commands, and commits what
/// they decide under an expected-version check.
pub struct CqrsFramework<A: Aggregate> {
    store: EventStore<A::Event>,
}

impl<A: Aggregate> View for CqrsFramework<A> {
    type V = Map<Seq<char>, Seq<EventEnvelope<A::Event>>>;

    /// Every aggregate id with its log (empty for an aggregate without events).
    closed spec fn view(&self) -> Map<Seq<char>, Seq<EventEnvelope<A::Event>>> {
        Map::new(|id: Seq<char>| true, |id: Seq<char>| self.log(id))
    }
}

impl<A: Aggregate> CqrsFramework<A> {
    /// The view holds every id, with its log.
    pub proof fn lemma_view_is_logs(&self)
        ensures
            forall|id: Seq<char>| #[trigger] self@.contains_key(id),
            forall|id: Seq<char>| #[trigger] self@[id] == self.log(id),
    {
    }

    /// The log of aggregate `id`.
    pub closed spec fn log(&self, id: Seq<char>) -> Seq<EventEnvelope<A::Event>> {
        self.store.log(id)
    }

    /// The current view of aggregate `id`.
    pub open spec fn state(&self, id: Seq<char>) -> A::V {
        replay::<A>(payloads(self.log(id)))
    }

    pub fn new() -> (r: Self)
        ensures
            forall|id: Seq<char>| #[trigger] r.log(id) == Seq::<EventEnvelope<A::Event>>::empty(),
    {
        CqrsFramework { store: EventStore::new() }
    }

    /// The events of aggregate `id`, oldest first.
    pub fn events(&self, id: &str) -> (r: &[EventEnvelope<A::Event>])
        ensures
            r@ == self.log(id@),
            crate::event_store::well_sequenced(id@, r@),
    {
        self.store.events(id)
    }

    /// The aggregate's state, replayed from its log, and its version.
    pub fn load_aggregate(&self, id: &str) -> (r: (A, usize))
        ensures
            r.0@ == self.state(id@),
            r.1 == self.log(id@).len(),
    {
        let events = self.store.events(id);
        let mut state = A::initial();
        let mut i: usize = 0;
        while i < events.len()
            invariant
                i <= events@.len(),
                state@ == fold_events::<A>(A::spec_initial(), payloads(events@.subrange(0, i as int))),
            decreases events@.len() - i,
        {
            let ghost before = state@;
            state.apply(&events[i].payload);
            proof {
                let p = payloads(events@.subrange(0, i + 1));
                assert(p.drop_last() =~= payloads(events@.subrange(0, i as int)));
                assert(p.last() == events@[i as int].payload);
            }
            i = i + 1;
        }
        proof {
            assert(events@.subrange(0, i as int) =~= events@);
        }
        (state, i)
    }

    /// Appends `events` to aggregate `id` if its log still has `expected_version` events.
    pub fn commit(&mut self, id: &str, expected_version: usize, events: Vec<A::Event>) -> (r: Result<(), AggregateError<A::Error>>)
        ensures
            match r {
                Ok(()) => {
                    &&& expected_version == old(self).log(id@).len()
                    &&& expected_version + events@.len() <= usize::MAX
                    &&& appended(old(self).log(id@), final(self).log(id@), events@)
                    &&& forall|other: Seq<char>| other != id@ ==> #[trigger] final(self).log(other) == old(self).log(other)
                },
                Err(AggregateError::AggregateConflict) => {
                    &&& expected_version != old(self).log(id@).len()
                    &&& forall|other: Seq<char>| #[trigger] final(self).log(other) == old(self).log(other)
                },
                Err(AggregateError::PersistenceError) => {
                    &&& expected_version == old(self).log(id@).len()
                    &&& expected_version + events@.len() > usize::MAX
                    &&& forall|other: Seq<char>| #[trigger] final(self).log(other) == old(self).log(other)
                },
                Err(AggregateError::UserError(_)) => false,
            },
    {
        match self.store.commit(id, expected_version, events) {
            Ok(()) => Ok(()),
            Err(PersistenceError::OptimisticLockError) => Err(AggregateError::AggregateConflict),
            Err(PersistenceError::CapacityExceeded) => Err(AggregateError::PersistenceError),
        }
    }

    /// Carries out `command` on aggregate `id` and hands the events it committed to `query`.
    pub fn execute_with<Q: Query<A>>(&mut self, id: &str, command: A::Command, query: &mut Q) -> (r: Result<
        (),
        AggregateError<A::Error>,
    >)
        ensures
            match r {
                Ok(()) => {
                    let events = added_events(old(self).log(id@), final(self).log(id@));
                    {
                        &&& A::spec_handle(old(self).state(id@), command, Ok(events))
                        &&& appended(old(self).log(id@), final(self).log(id@), events)
                        &&& final(self).log(id@).len() <= usize::MAX
                        &&& forall|other: Seq<char>| other != id@ ==> #[trigger] final(self).log(other) == old(self).log(other)
                        &&& Q::dispatched(
                            old(query)@,
                            id@,
                            final(self).log(id@).subrange(old(self).log(id@).len() as int, final(self).log(id@).len() as int),
                            final(query)@,
                        )
                    }
                },
                Err(AggregateError::UserError(e)) => {
                    &&& A::spec_handle(old(self).state(id@), command, Err(e))
                    &&& forall|other: Seq<char>| #[trigger] final(self).log(other) == old(self).log(other)
                    &&& final(query)@ == old(query)@
                },
                Err(AggregateError::PersistenceError) => exists|events: Seq<A::Event>|
                    {
                        &&& A::spec_handle(old(self).state(id@), command, Ok(events))
                        &&& old(self).log(id@).len() + events.len() > usize::MAX
                        &&& forall|other: Seq<char>| #[trigger] final(self).log(other) == old(self).log(other)
                        &&& final(query)@ == old(query)@
                    },
                Err(AggregateError::AggregateConflict) => false,
            },
    {
        let (state, version) = self.load_aggregate(id);
        match state.handle(command) {
            Err(e) => Err(AggregateError::UserError(e)),
            Ok(events) => {
                match self.commit(id, version, events) {
                    Ok(()) => {
                        let log = self.store.events(id);
                        query.dispatch(id, &log[version..log.len()]);
                        Ok(())
                    },
                    Err(AggregateError::PersistenceError) => Err(AggregateError::PersistenceError),
                    Err(_) => Err(AggregateError::AggregateConflict),
                }
            },
        }
    }

    /// Carries out `command` on aggregate `id`.
    pub fn execute(&mut self, id: &str, command: A::Command) -> (r: Result<(), AggregateError<A::Error>>)
        ensures
            match r {
                Ok(()) => {
                    let events = added_events(old(self).log(id@), final(self).log(id@));
                    {
                        &&& A::spec_handle(old(self).state(id@), command, Ok(events))
                        &&& appended(old(self).log(id@), final(self).log(id@), events)
                        &&& forall|other: Seq<char>| other != id@ ==> #[trigger] final(self).log(other) == old(self).log(other)
                    }
                },
                Err(AggregateError::UserError(e)) => {
                    &&& A::spec_handle(old(self).state(id@), command, Err(e))
                    &&& forall|other: Seq<char>| #[trigger] final(self).log(other) == old(self).log(other)
                },
                Err(AggregateError::PersistenceError) => exists|events: Seq<A::Event>|
                    {
                        &&& A::spec_handle(old(self).state(id@), command, Ok(events))
                        &&& old(self).log(id@).len() + events.len() > usize::MAX
                        &&& forall|other: Seq<char>| #[trigger] final(self).log(other) == old(self).log(other)
                    },
                Err(AggregateError::AggregateConflict) => false,
            },
    {
        let mut none = NoQuery;
        self.execute_with(id, command, &mut none)
    }
}

} // verus!
