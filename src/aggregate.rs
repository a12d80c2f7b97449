use vstd::prelude::*;

verus! {

/// A consistency boundary whose state is the fold of its own events.
///
/// The state is described by its view; `handle` decides, `apply` records.
pub trait Aggregate: Sized + View {
    type Command;
    type Event;
    type Error;

    /// The name of this kind of aggregate.
    spec fn spec_aggregate_type() -> Seq<char>;

    /// The view of an aggregate that has seen no event.
    spec fn spec_initial() -> Self::V;

    /// The view after one more event.
    spec fn spec_apply(state: Self::V, event: Self::Event) -> Self::V;

    /// Whether `result` is an answer that `handle` may give to `command` in `state`.
    spec fn spec_handle(
        state: Self::V,
        command: Self::Command,
        result: Result<Seq<Self::Event>, Self::Error>,
    ) -> bool;

    fn aggregate_type() -> (r: String)
        ensures
            r@ == Self::spec_aggregate_type(),
    ;

    fn initial() -> (r: Self)
        ensures
            r@ == Self::spec_initial(),
    ;

    fn apply(&mut self, event: &Self::Event)
        ensures
            final(self)@ == Self::spec_apply(old(self)@, *event),
    ;

    fn handle(&self, command: Self::Command) -> (r: Result<Vec<Self::Event>, Self::Error>)
        ensures
            Self::spec_handle(self@, command, events_view(r)),
    ;
}

/// The events of a `handle` result as a sequence.
pub open spec fn events_view<E, X>(r: Result<Vec<E>, X>) -> Result<Seq<E>, X> {
    match r {
        Ok(v) => Ok(v@),
        Err(e) => Err(e),
    }
}

} // verus!
