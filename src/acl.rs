use vstd::prelude::*;
use crate::deck::{Deck, DeckEvent};
use crate::engine::{CqrsFramework, Query};
use crate::event_store::{payloads, EventEnvelope};
use crate::flashcard::{Flashcard, FlashcardEvent};
use crate::scheduled_review::{ScheduledReview, ScheduledReviewCommand, ScheduledReviewEvent};
use crate::learning_session::LearningSession;
use crate::reviewable_card::{create_reviewable_card, project_answers, record_answers, ReviewableCard, ReviewableCardModel};
use crate::views::{Projector, ViewStore};

verus! {

/// The learning domain's read side: one view per learning session, and the scheduler state of
/// every card that the learning domain knows.
///
/// It listens to two domains. Events of learning sessions update both parts. Events of decks
/// pass the anti-corruption layer: a flashcard added to a deck becomes a card with no review
/// history, unless the learning domain already has one with that id.
pub struct LearningReadModels {
    sessions: Projector<LearningSession>,
    reviewable_cards: ViewStore<ReviewableCard>,
}

/// The learning states of cards by flashcard id, with their versions.
pub type CardStates = Map<Seq<char>, (ReviewableCardModel, u64)>;

/// The session projector's state: session views by session id, with their versions, its fixed
/// view id, and its adapters.
pub type SessionViews = crate::views::ProjectorState<crate::learning_session::LearningSessionModel, ()>;

impl View for LearningReadModels {
    type V = (SessionViews, CardStates);

    closed spec fn view(&self) -> (SessionViews, CardStates) {
        (self.sessions@, self.reviewable_cards.entries())
    }
}

/// The ids of the flashcards that `events` add and that `known` does not hold.
pub open spec fn new_card_ids(known: Set<Seq<char>>, events: Seq<EventEnvelope<DeckEvent>>) -> Set<Seq<char>>
    decreases events.len(),
{
    if events.len() == 0 {
        Set::empty()
    } else {
        let earlier = new_card_ids(known, events.drop_last());
        match events.last().payload {
            DeckEvent::FlashcardAdded(dto) => if known.contains(dto.id@) {
                earlier
            } else {
                earlier.insert(dto.id@)
            },
            _ => earlier,
        }
    }
}

/// What the anti-corruption layer does with the events of a deck: each card state already
/// stored stays as it is; each flashcard that the events add and that has no state gets one,
/// for its own id, at version 0; nothing else changes.
pub open spec fn translated(before: CardStates, events: Seq<EventEnvelope<DeckEvent>>, after: CardStates) -> bool {
    let added = new_card_ids(before.dom(), events);
    &&& after.dom() == before.dom() + added
    &&& forall|k: Seq<char>| #[trigger] before.contains_key(k) ==> after[k] == before[k]
    &&& forall|k: Seq<char>| #[trigger] added.contains(k) ==> after[k].0.flashcard_id == k && after[k].1 == 0
}

impl LearningReadModels {
    /// Read models with no session and no card.
    pub fn new() -> (r: Self)
        ensures
            r@.0.0 == Map::<Seq<char>, (crate::learning_session::LearningSessionModel, u64)>::empty(),
            r@.0.1 == None::<Seq<char>>,
            r@.1 == CardStates::empty(),
    {
        LearningReadModels { sessions: Projector::for_individual(ViewStore::new()), reviewable_cards: ViewStore::new() }
    }

    /// The projector of the learning session views.
    pub fn sessions(&self) -> (r: &Projector<LearningSession>)
        ensures
            r@ == self@.0,
    {
        &self.sessions
    }

    /// The scheduler states of cards.
    pub fn reviewable_cards(&self) -> (r: &ViewStore<ReviewableCard>)
        ensures
            r.entries() == self@.1,
    {
        &self.reviewable_cards
    }

    /// Starts the learning state of flashcard `flashcard_id`, unless it has one.
    pub fn create_reviewable_card(&mut self, flashcard_id: &str) -> (r: Result<(), crate::views::ViewError>)
        ensures
            r is Ok,
            final(self)@.0 == old(self)@.0,
            old(self)@.1.contains_key(flashcard_id@) ==> final(self)@.1 == old(self)@.1,
            !old(self)@.1.contains_key(flashcard_id@) ==> {
                &&& final(self)@.1.contains_key(flashcard_id@)
                &&& final(self)@.1[flashcard_id@].0.flashcard_id == flashcard_id@
                &&& final(self)@.1[flashcard_id@].1 == 0
                &&& final(self)@.1.remove(flashcard_id@) == old(self)@.1
            },
    {
        create_reviewable_card(&mut self.reviewable_cards, flashcard_id)
    }
}

impl Query<Deck> for LearningReadModels {
    open spec fn dispatched(
        before: (SessionViews, CardStates),
        aggregate_id: Seq<char>,
        events: Seq<EventEnvelope<DeckEvent>>,
        after: (SessionViews, CardStates),
    ) -> bool {
        after.0 == before.0 && translated(before.1, events, after.1)
    }

    fn dispatch(&mut self, aggregate_id: &str, events: &[EventEnvelope<DeckEvent>]) {
        let ghost start = self@.1;
        proof {
            assert(new_card_ids(start.dom(), events@.subrange(0, 0)) == Set::<Seq<char>>::empty());
            assert(start.dom() + Set::<Seq<char>>::empty() =~= start.dom());
        }
        let mut i: usize = 0;
        while i < events.len()
            invariant
                i <= events@.len(),
                self@.0 == old(self)@.0,
                start == old(self)@.1,
                translated(start, events@.subrange(0, i as int), self@.1),
            decreases events@.len() - i,
        {
            let ghost before = self@.1;
            let ghost added = new_card_ids(start.dom(), events@.subrange(0, i as int));
            match &events[i].payload {
                DeckEvent::FlashcardAdded(dto) => {
                    let _ = create_reviewable_card(&mut self.reviewable_cards, dto.id.as_str());
                    proof {
                        let after = self@.1;
                        let added2 = new_card_ids(start.dom(), events@.subrange(0, i + 1));
                        assert(events@.subrange(0, i + 1).drop_last() =~= events@.subrange(0, i as int));
                        if before.contains_key(dto.id@) {
                            if !start.contains_key(dto.id@) {
                                assert(added.contains(dto.id@));
                            }
                            assert(added2 =~= added);
                        } else {
                            assert(after =~= before.insert(dto.id@, after[dto.id@]));
                        }
                        assert(after.dom() =~= start.dom() + added2);
                    }
                },
                _ => {
                    proof {
                        assert(events@.subrange(0, i + 1).drop_last() =~= events@.subrange(0, i as int));
                    }
                },
            }
            i = i + 1;
        }
        proof {
            assert(events@.subrange(0, i as int) =~= events@);
        }
    }
}

impl Query<LearningSession> for LearningReadModels {
    /// Session views as an individual projector keeps them; card states take the answers.
    open spec fn dispatched(
        before: (SessionViews, CardStates),
        aggregate_id: Seq<char>,
        events: Seq<EventEnvelope<crate::learning_session::LearningSessionEvent>>,
        after: (SessionViews, CardStates),
    ) -> bool {
        &&& <Projector<LearningSession> as Query<LearningSession>>::dispatched(before.0, aggregate_id, events, after.0)
        &&& after.1 == record_answers(before.1, events)
    }

    fn dispatch(&mut self, aggregate_id: &str, events: &[EventEnvelope<crate::learning_session::LearningSessionEvent>]) {
        self.sessions.dispatch(aggregate_id, events);
        project_answers(&mut self.reviewable_cards, events);
    }
}

/// Whether `event` creates flashcard `id`.
pub open spec fn creates(event: FlashcardEvent, id: Seq<char>) -> bool {
    event matches FlashcardEvent::FlashcardCreated { id: c, .. } && c@ == id
}

/// Whether `events` hold a `FlashcardCreated` for flashcard `id`.
pub open spec fn creates_card(events: Seq<EventEnvelope<FlashcardEvent>>, id: Seq<char>) -> bool {
    exists|i: int| 0 <= i < events.len() && creates((#[trigger] events[i]).payload, id)
}

/// What the integration does with the events of stand-alone flashcards: a scheduled review
/// that already has events stays as it is; one that has none gets a single
/// `ScheduledReviewCreated` for each flashcard the events create; no other log changes.
pub open spec fn reviews_scheduled(
    before: Map<Seq<char>, Seq<EventEnvelope<ScheduledReviewEvent>>>,
    events: Seq<EventEnvelope<FlashcardEvent>>,
    after: Map<Seq<char>, Seq<EventEnvelope<ScheduledReviewEvent>>>,
) -> bool {
    &&& forall|id: Seq<char>| #[trigger] after.contains_key(id) == before.contains_key(id)
    &&& forall|id: Seq<char>| before.contains_key(id) && (before[id].len() > 0 || !creates_card(events, id))
        ==> #[trigger] after[id] == before[id]
    &&& forall|id: Seq<char>| before.contains_key(id) && before[id].len() == 0 && creates_card(events, id) ==> {
        &&& (#[trigger] after[id]).len() == 1
        &&& after[id][0].payload matches ScheduledReviewEvent::ScheduledReviewCreated { id: c } && c@ == id
    }
}

/// The anti-corruption layer from stand-alone flashcards to scheduled reviews: each flashcard
/// created gets a scheduled review under its own id, unless one exists already.
pub struct CardManagementLearningIntegration {
    reviews: CqrsFramework<ScheduledReview>,
}

impl View for CardManagementLearningIntegration {
    type V = Map<Seq<char>, Seq<EventEnvelope<ScheduledReviewEvent>>>;

    closed spec fn view(&self) -> Map<Seq<char>, Seq<EventEnvelope<ScheduledReviewEvent>>> {
        self.reviews@
    }
}

impl CardManagementLearningIntegration {
    /// An integration that issues its commands to `reviews`.
    pub fn new(reviews: CqrsFramework<ScheduledReview>) -> (r: Self)
        ensures
            r@ == reviews@,
    {
        CardManagementLearningIntegration { reviews }
    }

    /// The engine of the scheduled reviews.
    pub fn reviews(&self) -> (r: &CqrsFramework<ScheduledReview>)
        ensures
            r@ == self@,
    {
        &self.reviews
    }

    /// Schedules a review for flashcard `card_id`, unless its scheduled review has events.
    pub fn create_review_for_card(&mut self, card_id: &str)
        ensures
            forall|id: Seq<char>| #[trigger] final(self)@.contains_key(id),
            forall|id: Seq<char>| id != card_id@ ==> #[trigger] final(self)@[id] == old(self)@[id],
            old(self)@[card_id@].len() > 0 ==> final(self)@[card_id@] == old(self)@[card_id@],
            old(self)@[card_id@].len() == 0 ==> {
                &&& final(self)@[card_id@].len() == 1
                &&& final(self)@[card_id@][0].payload matches ScheduledReviewEvent::ScheduledReviewCreated { id: c } && c@ == card_id@
            },
    {
        proof {
            old(self).reviews.lemma_view_is_logs();
        }
        if self.reviews.events(card_id).len() > 0 {
            return;
        }
        let command = ScheduledReviewCommand::CreateScheduledReview { id: card_id.to_owned() };
        let _ = self.reviews.execute(card_id, command);
        proof {
            self.reviews.lemma_view_is_logs();
            let after = self.reviews.log(card_id@);
            assert(after.subrange(0, 0) =~= Seq::<EventEnvelope<ScheduledReviewEvent>>::empty());
            assert(payloads(after.subrange(0, after.len() as int))[0] == after[0].payload);
        }
    }
}

impl Query<Flashcard> for CardManagementLearningIntegration {
    open spec fn dispatched(
        before: Map<Seq<char>, Seq<EventEnvelope<ScheduledReviewEvent>>>,
        aggregate_id: Seq<char>,
        events: Seq<EventEnvelope<FlashcardEvent>>,
        after: Map<Seq<char>, Seq<EventEnvelope<ScheduledReviewEvent>>>,
    ) -> bool {
        reviews_scheduled(before, events, after)
    }

    fn dispatch(&mut self, aggregate_id: &str, events: &[EventEnvelope<FlashcardEvent>]) {
        let ghost start = self@;
        proof {
            self.reviews.lemma_view_is_logs();
        }
        let mut i: usize = 0;
        while i < events.len()
            invariant
                i <= events@.len(),
                start == old(self)@,
                forall|id: Seq<char>| #[trigger] start.contains_key(id),
                reviews_scheduled(start, events@.subrange(0, i as int), self@),
            decreases events@.len() - i,
        {
            let ghost before = self@;
            let ghost prefix = events@.subrange(0, i as int);
            let ghost longer = events@.subrange(0, i + 1);
            match &events[i].payload {
                FlashcardEvent::FlashcardCreated { id, .. } => {
                    self.create_review_for_card(id.as_str());
                    proof {
                        assert forall|k: Seq<char>| #[trigger] creates_card(longer, k) == (creates_card(prefix, k) || k == id@) by {
                            if creates_card(prefix, k) {
                                let j = choose|j: int| 0 <= j < prefix.len() && creates((#[trigger] prefix[j]).payload, k);
                                assert(longer[j] == prefix[j]);
                            }
                            if k == id@ {
                                assert(longer[i as int] == events@[i as int]);
                            }
                            if creates_card(longer, k) && k != id@ {
                                let j = choose|j: int| 0 <= j < longer.len() && creates((#[trigger] longer[j]).payload, k);
                                assert(j != i);
                                assert(prefix[j] == longer[j]);
                            }
                        }
                    }
                },
                FlashcardEvent::FlashcardDeleted { .. } => {
                    proof {
                        assert forall|k: Seq<char>| #[trigger] creates_card(longer, k) == creates_card(prefix, k) by {
                            if creates_card(prefix, k) {
                                let j = choose|j: int| 0 <= j < prefix.len() && creates((#[trigger] prefix[j]).payload, k);
                                assert(longer[j] == prefix[j]);
                            }
                            if creates_card(longer, k) {
                                let j = choose|j: int| 0 <= j < longer.len() && creates((#[trigger] longer[j]).payload, k);
                                assert(j != i);
                                assert(prefix[j] == longer[j]);
                            }
                        }
                    }
                },
            }
            i = i + 1;
        }
        proof {
            assert(events@.subrange(0, i as int) =~= events@);
        }
    }
}

} // verus!
