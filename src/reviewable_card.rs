use vstd::prelude::*;
use crate::event_store::EventEnvelope;
use crate::learning_session::LearningSessionEvent;
use crate::scheduling::new_card;
use crate::views::{ViewContext, ViewError, ViewStore};

verus! {

/// The scheduler's long-term state of one flashcard, keyed by the flashcard's id.
pub struct ReviewableCard {
    pub flashcard_id: String,
    pub fsrs_card: rs_fsrs::Card,
}

pub struct ReviewableCardModel {
    pub flashcard_id: Seq<char>,
    pub fsrs_card: rs_fsrs::Card,
}

impl View for ReviewableCard {
    type V = ReviewableCardModel;

    open spec fn view(&self) -> ReviewableCardModel {
        ReviewableCardModel { flashcard_id: self.flashcard_id@, fsrs_card: self.fsrs_card }
    }
}

/// The card's state after `event`: an answer to the card replaces it, any other event leaves it.
pub open spec fn card_after(view: ReviewableCardModel, event: LearningSessionEvent) -> ReviewableCardModel {
    match event {
        LearningSessionEvent::CardAnswered { card_id, updated_card, .. } => ReviewableCardModel {
            flashcard_id: card_id@,
            fsrs_card: updated_card,
        },
        _ => view,
    }
}

impl ReviewableCard {
    /// The state of flashcard `flashcard_id` before any review.
    pub fn new(flashcard_id: &str) -> (r: ReviewableCard)
        ensures
            r@.flashcard_id == flashcard_id@,
    {
        ReviewableCard { flashcard_id: flashcard_id.to_owned(), fsrs_card: new_card() }
    }

    /// Folds one event of a learning session.
    pub fn update(&mut self, event: &EventEnvelope<LearningSessionEvent>)
        ensures
            final(self)@ == card_after(old(self)@, event.payload),
    {
        match &event.payload {
            LearningSessionEvent::CardAnswered { card_id, updated_card, .. } => {
                self.flashcard_id = card_id.clone();
                self.fsrs_card = updated_card.clone();
            },
            _ => {},
        }
    }
}

/// Starts the learning state of flashcard `flashcard_id`, unless it has one: a card with no
/// review history, at version 0.
pub fn create_reviewable_card(store: &mut ViewStore<ReviewableCard>, flashcard_id: &str) -> (r: Result<(), ViewError>)
    ensures
        r is Ok,
        old(store).entries().contains_key(flashcard_id@) ==> final(store).entries() == old(store).entries(),
        !old(store).entries().contains_key(flashcard_id@) ==> {
            &&& final(store).entries().contains_key(flashcard_id@)
            &&& final(store).entries()[flashcard_id@].0.flashcard_id == flashcard_id@
            &&& final(store).entries()[flashcard_id@].1 == 0
            &&& final(store).entries().remove(flashcard_id@) == old(store).entries()
        },
{
    if store.load(flashcard_id).is_some() {
        return Ok(());
    }
    let card = ReviewableCard::new(flashcard_id);
    let r = store.update_view(card, ViewContext::new(flashcard_id.to_owned(), 0), 0);
    proof {
        assert(final(store).entries().remove(flashcard_id@) =~= old(store).entries());
    }
    r
}

/// The stored card states after one event: an answer replaces the answered card's state and
/// advances its version by one (up to `u64::MAX`).
pub open spec fn record_answer(
    entries: Map<Seq<char>, (ReviewableCardModel, u64)>,
    event: LearningSessionEvent,
) -> Map<Seq<char>, (ReviewableCardModel, u64)> {
    match event {
        LearningSessionEvent::CardAnswered { card_id, updated_card, .. } => {
            let version: u64 = if entries.contains_key(card_id@) {
                entries[card_id@].1
            } else {
                0
            };
            entries.insert(
                card_id@,
                (
                    ReviewableCardModel { flashcard_id: card_id@, fsrs_card: updated_card },
                    if version < u64::MAX { (version + 1) as u64 } else { version },
                ),
            )
        },
        _ => entries,
    }
}

/// The stored card states after `events`, oldest first.
pub open spec fn record_answers(
    entries: Map<Seq<char>, (ReviewableCardModel, u64)>,
    events: Seq<EventEnvelope<LearningSessionEvent>>,
) -> Map<Seq<char>, (ReviewableCardModel, u64)>
    decreases events.len(),
{
    if events.len() == 0 {
        entries
    } else {
        record_answer(record_answers(entries, events.drop_last()), events.last().payload)
    }
}

/// Folds the answers among `events` into the card states of `store`.
pub fn project_answers(store: &mut ViewStore<ReviewableCard>, events: &[EventEnvelope<LearningSessionEvent>])
    ensures
        final(store).entries() == record_answers(old(store).entries(), events@),
{
    let mut i: usize = 0;
    while i < events.len()
        invariant
            i <= events@.len(),
            store.entries() == record_answers(old(store).entries(), events@.subrange(0, i as int)),
        decreases events@.len() - i,
    {
        let event = &events[i];
        let ghost before = store.entries();
        match &event.payload {
            LearningSessionEvent::CardAnswered { card_id, .. } => {
                let (mut view, version) = match store.take(card_id.as_str()) {
                    Some(p) => p,
                    None => (ReviewableCard::new(card_id.as_str()), 0),
                };
                view.update(event);
                let next: u64 = if version < u64::MAX { version + 1 } else { version };
                store.put(card_id.clone(), view, next);
                proof {
                    assert(store.entries() =~= record_answer(before, event.payload));
                }
            },
            _ => {},
        }
        proof {
            assert(events@.subrange(0, i + 1).drop_last() =~= events@.subrange(0, i as int));
        }
        i = i + 1;
    }
    proof {
        assert(events@.subrange(0, i as int) =~= events@);
    }
}

} // verus!
