use vstd::prelude::*;
use vstd::string::StringExecFns;
use crate::aggregate::Aggregate;
use crate::engine::{replay, Query};
use crate::event_store::payloads;
use crate::event_store::EventEnvelope;
use crate::keyed::StringMap;

verus! {

/// A read model that folds the committed events of aggregates of kind `A`.
pub trait ReadModel<A: Aggregate>: Sized + View {
    /// The view of a read model that has folded no event.
    spec fn spec_default() -> Self::V;

    /// The view after folding one more event.
    spec fn spec_update(view: Self::V, event: EventEnvelope<A::Event>) -> Self::V;

    fn default_view() -> (r: Self)
        ensures
            r@ == Self::spec_default(),
    ;

    fn update(&mut self, event: &EventEnvelope<A::Event>)
        ensures
            final(self)@ == Self::spec_update(old(self)@, *event),
    ;
}

/// The view after folding `events`, oldest first, into `view`.
pub open spec fn fold_updates<A: Aggregate, V: ReadModel<A>>(view: V::V, events: Seq<EventEnvelope<A::Event>>) -> V::V
    decreases events.len(),
{
    if events.len() == 0 {
        view
    } else {
        V::spec_update(fold_updates::<A, V>(view, events.drop_last()), events.last())
    }
}

/// Folding may be split anywhere: folding `a` and then `b` gives what folding `a + b` gives.
pub proof fn lemma_fold_updates_split<A: Aggregate, V: ReadModel<A>>(
    view: V::V,
    a: Seq<EventEnvelope<A::Event>>,
    b: Seq<EventEnvelope<A::Event>>,
)
    ensures
        fold_updates::<A, V>(fold_updates::<A, V>(view, a), b) == fold_updates::<A, V>(view, a + b),
    decreases b.len(),
{
    if b.len() == 0 {
        assert(a + b =~= a);
    } else {
        lemma_fold_updates_split::<A, V>(view, a, b.drop_last());
        assert((a + b).drop_last() =~= a + b.drop_last());
        assert((a + b).last() == b.last());
    }
}

/// An aggregate that serves as its own read model, folding each event's payload as `apply`
/// does from its initial state, shows after a log exactly the state that replaying the log gives.
pub proof fn lemma_own_view_is_replay<A: Aggregate + ReadModel<A>>(events: Seq<EventEnvelope<A::Event>>)
    requires
        <A as ReadModel<A>>::spec_default() == A::spec_initial(),
        forall|v: A::V, e: EventEnvelope<A::Event>| #[trigger] <A as ReadModel<A>>::spec_update(v, e) == A::spec_apply(v, e.payload),
    ensures
        fold_updates::<A, A>(<A as ReadModel<A>>::spec_default(), events) == replay::<A>(payloads(events)),
    decreases events.len(),
{
    if events.len() > 0 {
        lemma_own_view_is_replay::<A>(events.drop_last());
        assert(payloads(events).drop_last() =~= payloads(events.drop_last()));
        assert(payloads(events).last() == events.last().payload);
    }
}

/// The view that an individual projector keeps of such an aggregate stays in step with the
/// aggregate's log: if before a commit it shows the replay of the log at a version equal to the
/// log's length (a view never stored counts as the default view at version 0), then after the
/// commit's events it shows the replay of the longer log, at the longer log's length.
pub proof fn lemma_own_view_tracks_log<A: Aggregate + ReadModel<A>>(
    entries: Map<Seq<char>, (A::V, u64)>,
    id: Seq<char>,
    before: Seq<EventEnvelope<A::Event>>,
    after: Seq<EventEnvelope<A::Event>>,
)
    requires
        <A as ReadModel<A>>::spec_default() == A::spec_initial(),
        forall|v: A::V, e: EventEnvelope<A::Event>| #[trigger] <A as ReadModel<A>>::spec_update(v, e) == A::spec_apply(v, e.payload),
        before.len() < after.len() <= u64::MAX,
        after.subrange(0, before.len() as int) == before,
        (if entries.contains_key(id) {
            entries[id]
        } else {
            (<A as ReadModel<A>>::spec_default(), 0u64)
        }) == (replay::<A>(payloads(before)), before.len() as u64),
    ensures
        project::<A, A>(entries, id, after.subrange(before.len() as int, after.len() as int))[id] == (
            replay::<A>(payloads(after)),
            after.len() as u64,
        ),
{
    let added = after.subrange(before.len() as int, after.len() as int);
    assert(before + added =~= after);
    lemma_own_view_is_replay::<A>(before);
    lemma_own_view_is_replay::<A>(after);
    lemma_fold_updates_split::<A, A>(<A as ReadModel<A>>::spec_default(), before, added);
}

/// Where a stored view stands: its id, and the number of events folded into it.
pub struct ViewContext {
    pub view_instance_id: String,
    pub version: u64,
}

impl ViewContext {
    pub fn new(view_instance_id: String, version: u64) -> (r: ViewContext)
        ensures
            r.view_instance_id == view_instance_id,
            r.version == version,
    {
        ViewContext { view_instance_id, version }
    }
}

#[derive(Debug, PartialEq, Eq, Structural)]
pub enum ViewError {
    /// The stored view has moved on since the version the writer read.
    VersionConflict,
}

/// Views keyed by view id, each with its version.
pub struct ViewStore<V> {
    views: StringMap<(V, u64)>,
}

impl<V: View> ViewStore<V> {
    /// The stored views with their versions.
    pub closed spec fn entries(&self) -> Map<Seq<char>, (V::V, u64)> {
        self.views@.map_values(|p: (V, u64)| (p.0@, p.1))
    }

    /// The version of view `id`; 0 for a view that was never stored.
    pub open spec fn version_of(&self, id: Seq<char>) -> u64 {
        if self.entries().contains_key(id) {
            self.entries()[id].1
        } else {
            0
        }
    }

    pub fn new() -> (r: Self)
        ensures
            r.entries() == Map::<Seq<char>, (V::V, u64)>::empty(),
    {
        let r = ViewStore { views: StringMap::new() };
        assert(r.entries() =~= Map::<Seq<char>, (V::V, u64)>::empty());
        r
    }

    /// The view stored under `id`.
    pub fn load(&self, id: &str) -> (r: Option<&V>)
        ensures
            match r {
                Some(v) => self.entries().contains_key(id@) && v@ == self.entries()[id@].0,
                None => !self.entries().contains_key(id@),
            },
    {
        match self.views.get(id) {
            Some(p) => Some(&p.0),
            None => None,
        }
    }

    /// The view stored under `id`, with its context.
    pub fn load_with_context(&self, id: &str) -> (r: Option<(&V, ViewContext)>)
        ensures
            match r {
                Some((v, c)) => {
                    &&& self.entries().contains_key(id@)
                    &&& v@ == self.entries()[id@].0
                    &&& c.view_instance_id@ == id@
                    &&& c.version == self.entries()[id@].1
                },
                None => !self.entries().contains_key(id@),
            },
    {
        match self.views.get(id) {
            Some(p) => Some((&p.0, ViewContext { view_instance_id: id.to_owned(), version: p.1 })),
            None => None,
        }
    }

    /// Stores `view` under the context's id with version `new_version`, if the stored view is
    /// still at the context's version (a view never stored is at version 0).
    pub fn update_view(&mut self, view: V, context: ViewContext, new_version: u64) -> (r: Result<(), ViewError>)
        ensures
            r is Ok <==> old(self).version_of(context.view_instance_id@) == context.version,
            r is Ok ==> final(self).entries() == old(self).entries().insert(
                context.view_instance_id@,
                (view@, new_version),
            ),
            r is Err ==> final(self).entries() == old(self).entries(),
    {
        let current = match self.views.get(context.view_instance_id.as_str()) {
            Some(p) => p.1,
            None => 0,
        };
        if current != context.version {
            return Err(ViewError::VersionConflict);
        }
        self.put(context.view_instance_id, view, new_version);
        Ok(())
    }

    /// Takes out the view under `id` with its version.
    pub(crate) fn take(&mut self, id: &str) -> (r: Option<(V, u64)>)
        ensures
            final(self).entries() == old(self).entries().remove(id@),
            match r {
                Some((v, n)) => old(self).entries().contains_key(id@) && old(self).entries()[id@] == (v@, n),
                None => !old(self).entries().contains_key(id@),
            },
    {
        let r = self.views.take(id);
        proof {
            assert(self.entries() =~= old(self).entries().remove(id@));
        }
        r
    }

    /// Stores `view` under `id` with version `version`.
    pub(crate) fn put(&mut self, id: String, view: V, version: u64)
        ensures
            final(self).entries() == old(self).entries().insert(id@, (view@, version)),
    {
        let ghost v = view@;
        self.views.insert(id, (view, version));
        proof {
            assert(self.entries() =~= old(self).entries().insert(id@, (v, version)));
        }
    }
}

/// Something that is told about a view after a projector has stored it: it receives the
/// stored view, its view id and the events that were just folded into it. What it does with
/// them is its own affair; nothing it does reaches the caller of the commit.
pub trait OutboundAdapter<A: Aggregate, V: View>: View {
    /// Whether the adapter may go from `before` to `after` when told of `view`, stored under
    /// `view_id` after `events`.
    spec fn notified(
        before: Self::V,
        view: V::V,
        view_id: Seq<char>,
        events: Seq<EventEnvelope<A::Event>>,
        after: Self::V,
    ) -> bool;

    fn on_update(&mut self, view: &V, view_id: &str, events: &[EventEnvelope<A::Event>])
        ensures
            Self::notified(old(self)@, view@, view_id@, events@, final(self)@),
    ;
}

/// An adapter that ignores what it is told.
pub struct NoAdapter;

impl View for NoAdapter {
    type V = ();

    open spec fn view(&self) -> () {
        ()
    }
}

impl<A: Aggregate, V: View> OutboundAdapter<A, V> for NoAdapter {
    open spec fn notified(
        before: (),
        view: V::V,
        view_id: Seq<char>,
        events: Seq<EventEnvelope<A::Event>>,
        after: (),
    ) -> bool {
        true
    }

    fn on_update(&mut self, view: &V, view_id: &str, events: &[EventEnvelope<A::Event>]) {
    }
}

/// An adapter that keeps, in order, the view id and the number of events of every
/// notification it receives.
pub struct Outbox {
    pub notices: Vec<(String, usize)>,
}

impl View for Outbox {
    type V = Seq<(Seq<char>, nat)>;

    open spec fn view(&self) -> Seq<(Seq<char>, nat)> {
        self.notices@.map_values(|n: (String, usize)| (n.0@, n.1 as nat))
    }
}

impl Outbox {
    pub fn new() -> (r: Outbox)
        ensures
            r@ == Seq::<(Seq<char>, nat)>::empty(),
    {
        let r = Outbox { notices: Vec::new() };
        assert(r@ =~= Seq::<(Seq<char>, nat)>::empty());
        r
    }
}

impl<A: Aggregate, V: View> OutboundAdapter<A, V> for Outbox {
    open spec fn notified(
        before: Seq<(Seq<char>, nat)>,
        view: V::V,
        view_id: Seq<char>,
        events: Seq<EventEnvelope<A::Event>>,
        after: Seq<(Seq<char>, nat)>,
    ) -> bool {
        after == before.push((view_id, events.len()))
    }

    fn on_update(&mut self, view: &V, view_id: &str, events: &[EventEnvelope<A::Event>]) {
        let ghost before = self@;
        self.notices.push((view_id.to_owned(), events.len()));
        assert(self@ =~= before.push((view_id@, events@.len())));
    }
}

/// Keeps one view up to date from committed events: one view per aggregate (the view id is
/// the aggregate id), or one view for all aggregates of a kind under a fixed view id. After
/// each write it tells its outbound adapters, in the order they were attached.
pub struct Projector<V, D = NoAdapter> {
    store: ViewStore<V>,
    collection_id: Option<String>,
    adapters: Vec<D>,
}

/// The view and version that a projector starts from for `view_id`: the stored one, or the
/// default view at version 0.
pub open spec fn start_of<A: Aggregate, V: ReadModel<A>>(entries: Map<Seq<char>, (V::V, u64)>, view_id: Seq<char>) -> (
    V::V,
    u64,
) {
    if entries.contains_key(view_id) {
        entries[view_id]
    } else {
        (V::spec_default(), 0u64)
    }
}

/// Whether a projector writes for a commit of `events`: there is an event, and the version
/// stays within `u64::MAX`.
pub open spec fn writes<A: Aggregate, V: ReadModel<A>>(
    entries: Map<Seq<char>, (V::V, u64)>,
    view_id: Seq<char>,
    events: Seq<EventEnvelope<A::Event>>,
) -> bool {
    events.len() > 0 && start_of::<A, V>(entries, view_id).1 + events.len() <= u64::MAX
}

/// What a projector does with the events of one commit: it loads the view (or starts from the
/// default view at version 0), folds the events into it in order, and stores it with its
/// version advanced by their number. A batch that would carry the version past `u64::MAX`
/// is left out.
pub open spec fn project<A: Aggregate, V: ReadModel<A>>(
    entries: Map<Seq<char>, (V::V, u64)>,
    view_id: Seq<char>,
    events: Seq<EventEnvelope<A::Event>>,
) -> Map<Seq<char>, (V::V, u64)> {
    let (start, version) = start_of::<A, V>(entries, view_id);
    if !writes::<A, V>(entries, view_id, events) {
        entries
    } else {
        entries.insert(view_id, (fold_updates::<A, V>(start, events), (version + events.len()) as u64))
    }
}

/// The projector's state: its views with their versions, its fixed view id (if any) and its
/// adapters, in order.
pub type ProjectorState<VV, DV> = (Map<Seq<char>, (VV, u64)>, Option<Seq<char>>, Seq<DV>);

impl<V: View, D: View> View for Projector<V, D> {
    type V = ProjectorState<V::V, D::V>;

    closed spec fn view(&self) -> ProjectorState<V::V, D::V> {
        (
            self.store.entries(),
            match self.collection_id {
                Some(c) => Some(c@),
                None => None,
            },
            self.adapters@.map_values(|d: D| d@),
        )
    }
}

impl<V: View, D: View> Projector<V, D> {
    /// The views that the projector keeps, with their versions.
    pub open spec fn entries(&self) -> Map<Seq<char>, (V::V, u64)> {
        self@.0
    }

    /// The fixed view id of a collection projector.
    pub open spec fn collection_id(&self) -> Option<Seq<char>> {
        self@.1
    }

    /// The states of the projector's adapters, in the order they are told.
    pub open spec fn adapters(&self) -> Seq<D::V> {
        self@.2
    }

    /// A projector that keeps one view per aggregate in `store`.
    pub fn for_individual(store: ViewStore<V>) -> (r: Self)
        ensures
            r.entries() == store.entries(),
            r.collection_id() == None::<Seq<char>>,
            r.adapters() == Seq::<D::V>::empty(),
    {
        let r = Projector { store, collection_id: None, adapters: Vec::new() };
        assert(r.adapters() =~= Seq::<D::V>::empty());
        r
    }

    /// A projector that keeps one view for all aggregates of kind `A` in `store`, under the
    /// id `<aggregate type>-collection`.
    pub fn for_collection<A: Aggregate>(store: ViewStore<V>) -> (r: Self)
        ensures
            r.entries() == store.entries(),
            r.collection_id() == Some(A::spec_aggregate_type() + "-collection"@),
            r.adapters() == Seq::<D::V>::empty(),
    {
        let mut id = A::aggregate_type();
        id.append("-collection");
        let r = Projector { store, collection_id: Some(id), adapters: Vec::new() };
        assert(r.adapters() =~= Seq::<D::V>::empty());
        r
    }

    /// A projector that keeps one view for all aggregates in `store`, under `view_id`.
    pub fn with_view_id(store: ViewStore<V>, view_id: &str) -> (r: Self)
        ensures
            r.entries() == store.entries(),
            r.collection_id() == Some(view_id@),
            r.adapters() == Seq::<D::V>::empty(),
    {
        let r = Projector { store, collection_id: Some(view_id.to_owned()), adapters: Vec::new() };
        assert(r.adapters() =~= Seq::<D::V>::empty());
        r
    }

    /// The same projector with `adapter` told last after each write.
    pub fn with_adapter(self, adapter: D) -> (r: Self)
        ensures
            r.entries() == self.entries(),
            r.collection_id() == self.collection_id(),
            r.adapters() == self.adapters().push(adapter@),
    {
        let mut r = self;
        let ghost before = r.adapters@;
        r.adapters.push(adapter);
        assert(r.adapters() =~= self.adapters().push(adapter@));
        r
    }

    /// The store that the projector writes.
    pub fn store(&self) -> (r: &ViewStore<V>)
        ensures
            r.entries() == self.entries(),
    {
        &self.store
    }

    /// The projector's adapters, in the order they are told.
    pub fn adapter_list(&self) -> (r: &Vec<D>)
        ensures
            r@.map_values(|d: D| d@) == self.adapters(),
    {
        &self.adapters
    }
}

impl<A: Aggregate, V: ReadModel<A>, D: OutboundAdapter<A, V>> Query<A> for Projector<V, D> {
    /// The view is written as `project` says; when it is written, each adapter is told once of
    /// the stored view, its view id and the events.
    open spec fn dispatched(
        before: ProjectorState<V::V, D::V>,
        aggregate_id: Seq<char>,
        events: Seq<EventEnvelope<A::Event>>,
        after: ProjectorState<V::V, D::V>,
    ) -> bool {
        let view_id = match before.1 {
            Some(c) => c,
            None => aggregate_id,
        };
        &&& after.0 == project::<A, V>(before.0, view_id, events)
        &&& after.1 == before.1
        &&& if writes::<A, V>(before.0, view_id, events) {
            &&& after.2.len() == before.2.len()
            &&& forall|i: int|
                0 <= i < before.2.len() ==> D::notified(
                    #[trigger] before.2[i],
                    after.0[view_id].0,
                    view_id,
                    events,
                    after.2[i],
                )
        } else {
            after.2 == before.2
        }
    }

    fn dispatch(&mut self, aggregate_id: &str, events: &[EventEnvelope<A::Event>]) {
        if events.len() == 0 {
            return;
        }
        let view_id = match &self.collection_id {
            Some(c) => c.clone(),
            None => aggregate_id.to_owned(),
        };
        let ghost before = self.store.entries();
        let (mut view, version) = match self.store.take(view_id.as_str()) {
            Some(p) => p,
            None => (V::default_view(), 0),
        };
        if version as u128 + events.len() as u128 > u64::MAX as u128 {
            self.store.put(view_id, view, version);
            proof {
                assert(self.store.entries() =~= before);
                assert(project::<A, V>(before, view_id@, events@) == before);
            }
            return;
        }
        let mut i: usize = 0;
        while i < events.len()
            invariant
                i <= events@.len(),
                view@ == fold_updates::<A, V>(start_of::<A, V>(before, view_id@).0, events@.subrange(0, i as int)),
            decreases events@.len() - i,
        {
            view.update(&events[i]);
            proof {
                assert(events@.subrange(0, i + 1).drop_last() =~= events@.subrange(0, i as int));
            }
            i = i + 1;
        }
        proof {
            assert(events@.subrange(0, i as int) =~= events@);
        }
        self.store.put(view_id.clone(), view, version + events.len() as u64);
        proof {
            assert(self.store.entries() =~= project::<A, V>(before, view_id@, events@));
        }
        let stored = match self.store.load(view_id.as_str()) {
            Some(v) => v,
            None => { return; },
        };
        let mut pending: Vec<D> = Vec::new();
        std::mem::swap(&mut pending, &mut self.adapters);
        let ghost told = pending@;
        let count = pending.len();
        let mut done: Vec<D> = Vec::new();
        let mut k: usize = 0;
        while pending.len() > 0
            invariant
                k <= told.len(),
                told.len() == count,
                pending@ == told.subrange(k as int, told.len() as int),
                done@.len() == k,
                forall|j: int|
                    0 <= j < k ==> D::notified(
                        #[trigger] told[j]@,
                        stored@,
                        view_id@,
                        events@,
                        done@[j]@,
                    ),
            decreases pending@.len(),
        {
            let mut adapter = pending.remove(0);
            proof {
                assert(adapter == told[k as int]);
            }
            adapter.on_update(stored, view_id.as_str(), events);
            done.push(adapter);
            k = k + 1;
        }
        self.adapters = done;
        proof {
            let b2 = told.map_values(|d: D| d@);
            assert forall|j: int| 0 <= j < b2.len() implies D::notified(
                #[trigger] b2[j],
                self.store.entries()[view_id@].0,
                view_id@,
                events@,
                self@.2[j],
            ) by {
                assert(b2[j] == told[j]@);
            }
        }
    }
}

/// One view per aggregate, kept together in a single read model keyed by aggregate id.
pub struct Collection<V> {
    items: StringMap<V>,
}

impl<V: View> View for Collection<V> {
    type V = Map<Seq<char>, V::V>;

    closed spec fn view(&self) -> Map<Seq<char>, V::V> {
        self.items@.map_values(|v: V| v@)
    }
}

impl<V: View> Collection<V> {
    /// The view of aggregate `id`.
    pub fn get(&self, id: &str) -> (r: Option<&V>)
        ensures
            match r {
                Some(v) => self@.contains_key(id@) && v@ == self@[id@],
                None => !self@.contains_key(id@),
            },
    {
        self.items.get(id)
    }
}

impl<A: Aggregate, V: ReadModel<A>> ReadModel<A> for Collection<V> {
    open spec fn spec_default() -> Map<Seq<char>, V::V> {
        Map::empty()
    }

    /// The event goes to the view of its own aggregate, which starts as the default view.
    open spec fn spec_update(view: Map<Seq<char>, V::V>, event: EventEnvelope<A::Event>) -> Map<Seq<char>, V::V> {
        let id = event.aggregate_id@;
        let item = if view.contains_key(id) {
            view[id]
        } else {
            V::spec_default()
        };
        view.insert(id, V::spec_update(item, event))
    }

    fn default_view() -> (r: Self) {
        let r = Collection { items: StringMap::new() };
        assert(r@ =~= Map::<Seq<char>, V::V>::empty());
        r
    }

    fn update(&mut self, event: &EventEnvelope<A::Event>) {
        let ghost before = self@;
        let mut item = match self.items.take(event.aggregate_id.as_str()) {
            Some(v) => v,
            None => V::default_view(),
        };
        item.update(event);
        self.items.insert(event.aggregate_id.clone(), item);
        proof {
            assert(self@ =~= Self::spec_update(before, *event));
        }
    }
}

} // verus!
