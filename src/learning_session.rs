use vstd::prelude::*;
use std::collections::VecDeque;
use crate::aggregate::Aggregate;
use crate::event_store::EventEnvelope;
use crate::views::ReadModel;
use crate::scheduling::{card_lapse_count, card_review_count, lapse_count, review_count, review_card_now};
use crate::value_objects::{Language, SessionStatus};

verus! {

/// The views of a sequence of card ids.
pub open spec fn ids_view(ids: Seq<String>) -> Seq<Seq<char>> {
    ids.map_values(|s: String| s@)
}

/// One pass of a user through the due cards of a deck.
pub struct LearningSession {
    pub id: String,
    pub deck_id: String,
    /// The "front" of the cards in this session.
    pub question_language: Option<Language>,
    /// The "back" of the cards in this session.
    pub answer_language: Option<Language>,
    /// The cards still to be presented, first in front.
    pub cards_to_review: VecDeque<String>,
    pub current_card_id: Option<String>,
    pub status: SessionStatus,
}

pub struct LearningSessionModel {
    pub id: Seq<char>,
    pub deck_id: Seq<char>,
    pub question_language: Option<Language>,
    pub answer_language: Option<Language>,
    pub cards_to_review: Seq<Seq<char>>,
    pub current_card_id: Option<Seq<char>>,
    pub status: SessionStatus,
}

impl View for LearningSession {
    type V = LearningSessionModel;

    open spec fn view(&self) -> LearningSessionModel {
        LearningSessionModel {
            id: self.id@,
            deck_id: self.deck_id@,
            question_language: self.question_language,
            answer_language: self.answer_language,
            cards_to_review: ids_view(self.cards_to_review@),
            current_card_id: match self.current_card_id {
                Some(c) => Some(c@),
                None => None,
            },
            status: self.status,
        }
    }
}

pub enum LearningSessionCommand {
    /// Opens a session over a deck; the cards to review are chosen outside the domain.
    StartSession {
        session_id: String,
        deck_id: String,
        cards_to_review: Vec<String>,
        question_language: Language,
        answer_language: Language,
    },
    /// Ends a session before all its cards were reviewed.
    AbandonSession,
    /// The user's answer to the card that is presented.
    AnswerCard { rating: rs_fsrs::Rating, card_before_review: rs_fsrs::Card },
}

pub enum LearningSessionEvent {
    /// A session was started over an initial queue of cards.
    SessionStarted {
        session_id: String,
        deck_id: String,
        cards_to_review: Vec<String>,
        question_language: Language,
        answer_language: Language,
    },
    /// The session was given up before its queue ran out.
    SessionAbandoned,
    /// Every card of the session has been reviewed.
    SessionCompleted,
    /// A card is shown to the user.
    CardPresented { card_id: String },
    /// A card was answered, and its schedule computed anew.
    CardAnswered { card_id: String, rating: rs_fsrs::Rating, updated_card: rs_fsrs::Card },
}

#[derive(Debug, PartialEq, Eq, Structural)]
pub enum LearningSessionError {
    SessionAlreadyStarted,
    SessionNotFound,
    SessionNotActive,
    NoCardToAnswer,
    /// The card has been reviewed, or forgotten, as often as its counters can record.
    ReviewCountExhausted,
}

/// The text that describes a session error to a user.
pub open spec fn session_error_text(e: LearningSessionError) -> Seq<char> {
    match e {
        LearningSessionError::SessionAlreadyStarted => "Learning session has already been started."@,
        LearningSessionError::SessionNotFound => "No learning session found."@,
        LearningSessionError::SessionNotActive => "Learning session is not active."@,
        LearningSessionError::NoCardToAnswer => "No card is currently presented to answer."@,
        LearningSessionError::ReviewCountExhausted => "The card cannot record another review."@,
    }
}

impl LearningSessionError {
    /// The text that describes the error to a user.
    pub fn message(&self) -> (r: &'static str)
        ensures
            r@ == session_error_text(*self),
    {
        match self {
            LearningSessionError::SessionAlreadyStarted => "Learning session has already been started.",
            LearningSessionError::SessionNotFound => "No learning session found.",
            LearningSessionError::SessionNotActive => "Learning session is not active.",
            LearningSessionError::NoCardToAnswer => "No card is currently presented to answer.",
            LearningSessionError::ReviewCountExhausted => "The card cannot record another review.",
        }
    }
}

impl LearningSessionEvent {
    /// The name of the event's variant.
    pub fn event_type(&self) -> (r: String)
        ensures
            r@ == match self {
                LearningSessionEvent::SessionStarted { .. } => "SessionStarted"@,
                LearningSessionEvent::SessionAbandoned => "SessionAbandoned"@,
                LearningSessionEvent::SessionCompleted => "SessionCompleted"@,
                LearningSessionEvent::CardPresented { .. } => "CardPresented"@,
                LearningSessionEvent::CardAnswered { .. } => "CardAnswered"@,
            },
    {
        match self {
            LearningSessionEvent::SessionStarted { .. } => "SessionStarted".to_owned(),
            LearningSessionEvent::SessionAbandoned => "SessionAbandoned".to_owned(),
            LearningSessionEvent::SessionCompleted => "SessionCompleted".to_owned(),
            LearningSessionEvent::CardPresented { .. } => "CardPresented".to_owned(),
            LearningSessionEvent::CardAnswered { .. } => "CardAnswered".to_owned(),
        }
    }

    /// The schema version of the event's payload.
    pub fn event_version(&self) -> (r: String)
        ensures
            r@ == "1"@,
    {
        "1".to_owned()
    }
}

/// The event that follows an answer, or the first event of a session: the next card of
/// the queue, or the end of the session if the queue is empty.
pub open spec fn is_next_of(queue: Seq<Seq<char>>, event: LearningSessionEvent) -> bool {
    if queue.len() > 0 {
        event matches LearningSessionEvent::CardPresented { card_id } && card_id@ == queue[0]
    } else {
        event is SessionCompleted
    }
}

/// The events of an answer in a session that is in progress with a card presented:
/// the answer to the current card, then the next card or the end of the session.
pub open spec fn is_answer_of(
    state: LearningSessionModel,
    rating: rs_fsrs::Rating,
    events: Seq<LearningSessionEvent>,
) -> bool {
    &&& events.len() == 2
    &&& (events[0] matches LearningSessionEvent::CardAnswered { card_id, rating: r, .. }
        && Some(card_id@) == state.current_card_id && r == rating)
    &&& is_next_of(state.cards_to_review, events[1])
}

/// The refusal, if any, of a command that needs a session in progress: a session without an
/// identity is not found; one with an identity must be in progress.
pub open spec fn active_check(state: LearningSessionModel) -> Option<LearningSessionError> {
    if state.id.len() == 0 {
        Some(LearningSessionError::SessionNotFound)
    } else if state.status != SessionStatus::InProgress {
        Some(LearningSessionError::SessionNotActive)
    } else {
        None
    }
}

/// Whether a session may start: it has no identity yet and has never been started.
pub open spec fn may_start(state: LearningSessionModel) -> bool {
    state.id.len() == 0 && state.status == SessionStatus::NotStarted
}

/// Whether the scheduler can record one more review of `card`: neither its review count nor
/// its lapse count is at `i32::MAX`.
pub open spec fn can_record_review(card: rs_fsrs::Card) -> bool {
    review_count(card) < i32::MAX && lapse_count(card) < i32::MAX
}

/// The answer to `AnswerCard { rating, .. }` when the scheduler returns `updated`.
pub open spec fn answer_result(
    state: LearningSessionModel,
    rating: rs_fsrs::Rating,
    updated: rs_fsrs::Card,
    result: Result<Seq<LearningSessionEvent>, LearningSessionError>,
) -> bool {
    match active_check(state) {
        Some(e) => result == Err::<Seq<LearningSessionEvent>, LearningSessionError>(e),
        None => match state.current_card_id {
            None => result == Err::<Seq<LearningSessionEvent>, LearningSessionError>(
                LearningSessionError::NoCardToAnswer,
            ),
            Some(_) => match result {
                Ok(events) => is_answer_of(state, rating, events) && (events[0] matches LearningSessionEvent::CardAnswered { updated_card, .. }
                    && updated_card == updated),
                Err(_) => false,
            },
        },
    }
}

impl LearningSession {
    /// Decides an `AnswerCard` whose new scheduler state has already been computed.
    pub fn answer_card_with(&self, rating: rs_fsrs::Rating, updated_card: rs_fsrs::Card) -> (r: Result<
        Vec<LearningSessionEvent>,
        LearningSessionError,
    >)
        ensures
            answer_result(self@, rating, updated_card, crate::aggregate::events_view(r)),
    {
        if self.id.as_str().is_empty() {
            return Err(LearningSessionError::SessionNotFound);
        }
        if self.status != SessionStatus::InProgress {
            return Err(LearningSessionError::SessionNotActive);
        }
        let card_id = match &self.current_card_id {
            Some(c) => c.clone(),
            None => { return Err(LearningSessionError::NoCardToAnswer); },
        };
        let next = if self.cards_to_review.len() > 0 {
            LearningSessionEvent::CardPresented { card_id: self.cards_to_review[0].clone() }
        } else {
            LearningSessionEvent::SessionCompleted
        };
        let events = vec![
            LearningSessionEvent::CardAnswered { card_id, rating, updated_card },
            next,
        ];
        Ok(events)
    }
}

impl Aggregate for LearningSession {
    type Command = LearningSessionCommand;
    type Event = LearningSessionEvent;
    type Error = LearningSessionError;

    open spec fn spec_aggregate_type() -> Seq<char> {
        "learning_session"@
    }

    fn aggregate_type() -> (r: String) {
        "learning_session".to_owned()
    }

    open spec fn spec_initial() -> LearningSessionModel {
        LearningSessionModel {
            id: Seq::empty(),
            deck_id: Seq::empty(),
            question_language: None,
            answer_language: None,
            cards_to_review: Seq::empty(),
            current_card_id: None,
            status: SessionStatus::NotStarted,
        }
    }

    open spec fn spec_apply(state: LearningSessionModel, event: LearningSessionEvent) -> LearningSessionModel {
        match event {
            LearningSessionEvent::SessionStarted {
                session_id,
                deck_id,
                cards_to_review,
                question_language,
                answer_language,
            } => LearningSessionModel {
                id: session_id@,
                deck_id: deck_id@,
                cards_to_review: ids_view(cards_to_review@),
                question_language: Some(question_language),
                answer_language: Some(answer_language),
                status: SessionStatus::InProgress,
                ..state
            },
            LearningSessionEvent::SessionAbandoned | LearningSessionEvent::SessionCompleted => LearningSessionModel {
                status: SessionStatus::Completed,
                current_card_id: None,
                cards_to_review: Seq::empty(),
                ..state
            },
            LearningSessionEvent::CardPresented { card_id } => LearningSessionModel {
                current_card_id: Some(card_id@),
                cards_to_review: if state.cards_to_review.len() > 0 {
                    state.cards_to_review.drop_first()
                } else {
                    state.cards_to_review
                },
                ..state
            },
            LearningSessionEvent::CardAnswered { .. } => state,
        }
    }

    open spec fn spec_handle(
        state: LearningSessionModel,
        command: LearningSessionCommand,
        result: Result<Seq<LearningSessionEvent>, LearningSessionError>,
    ) -> bool {
        match command {
            LearningSessionCommand::StartSession {
                session_id,
                deck_id,
                cards_to_review,
                question_language,
                answer_language,
            } => if !may_start(state) {
                result == Err::<Seq<LearningSessionEvent>, LearningSessionError>(
                    LearningSessionError::SessionAlreadyStarted,
                )
            } else {
                match result {
                    Ok(events) => events.len() == 2 && events[0] == (LearningSessionEvent::SessionStarted {
                        session_id,
                        deck_id,
                        cards_to_review,
                        question_language,
                        answer_language,
                    }) && is_next_of(ids_view(cards_to_review@), events[1]),
                    Err(_) => false,
                }
            },
            LearningSessionCommand::AbandonSession => match active_check(state) {
                Some(e) => result == Err::<Seq<LearningSessionEvent>, LearningSessionError>(e),
                None => result == Ok::<Seq<LearningSessionEvent>, LearningSessionError>(
                    seq![LearningSessionEvent::SessionAbandoned],
                ),
            },
            LearningSessionCommand::AnswerCard { rating, card_before_review } => match active_check(state) {
                Some(e) => result == Err::<Seq<LearningSessionEvent>, LearningSessionError>(e),
                None => match state.current_card_id {
                    None => result == Err::<Seq<LearningSessionEvent>, LearningSessionError>(
                        LearningSessionError::NoCardToAnswer,
                    ),
                    Some(_) => if !can_record_review(card_before_review) {
                        result == Err::<Seq<LearningSessionEvent>, LearningSessionError>(
                            LearningSessionError::ReviewCountExhausted,
                        )
                    } else {
                        match result {
                            Ok(events) => is_answer_of(state, rating, events),
                            Err(_) => false,
                        }
                    },
                },
            },
        }
    }

    fn initial() -> (r: Self) {
        let r = LearningSession {
            id: String::new(),
            deck_id: String::new(),
            question_language: None,
            answer_language: None,
            cards_to_review: VecDeque::new(),
            current_card_id: None,
            status: SessionStatus::NotStarted,
        };
        assert(ids_view(r.cards_to_review@) =~= Seq::empty());
        r
    }

    fn apply(&mut self, event: &LearningSessionEvent) {
        match event {
            LearningSessionEvent::SessionStarted {
                session_id,
                deck_id,
                cards_to_review,
                question_language,
                answer_language,
            } => {
                let mut queue: VecDeque<String> = VecDeque::new();
                let mut i: usize = 0;
                while i < cards_to_review.len()
                    invariant
                        i <= cards_to_review@.len(),
                        queue@.len() == i,
                        forall|j: int| 0 <= j < i ==> #[trigger] queue@[j]@ == cards_to_review@[j]@,
                    decreases cards_to_review@.len() - i,
                {
                    queue.push_back(cards_to_review[i].clone());
                    i = i + 1;
                }
                assert(ids_view(queue@) =~= ids_view(cards_to_review@));
                self.id = session_id.clone();
                self.deck_id = deck_id.clone();
                self.cards_to_review = queue;
                self.question_language = Some(*question_language);
                self.answer_language = Some(*answer_language);
                self.status = SessionStatus::InProgress;
            },
            LearningSessionEvent::SessionAbandoned | LearningSessionEvent::SessionCompleted => {
                self.status = SessionStatus::Completed;
                self.current_card_id = None;
                self.cards_to_review.clear();
                assert(ids_view(self.cards_to_review@) =~= Seq::empty());
            },
            LearningSessionEvent::CardPresented { card_id } => {
                self.current_card_id = Some(card_id.clone());
                if self.cards_to_review.len() > 0 {
                    let ghost before = self.cards_to_review@;
                    self.cards_to_review.pop_front();
                    assert(ids_view(self.cards_to_review@) =~= ids_view(before).drop_first());
                }
            },
            LearningSessionEvent::CardAnswered { .. } => {},
        }
    }

    fn handle(&self, command: LearningSessionCommand) -> (r: Result<Vec<LearningSessionEvent>, LearningSessionError>) {
        match command {
            LearningSessionCommand::StartSession {
                session_id,
                deck_id,
                cards_to_review,
                question_language,
                answer_language,
            } => {
                if !self.id.as_str().is_empty() || self.status != SessionStatus::NotStarted {
                    return Err(LearningSessionError::SessionAlreadyStarted);
                }
                let next = if cards_to_review.len() > 0 {
                    LearningSessionEvent::CardPresented { card_id: cards_to_review[0].clone() }
                } else {
                    LearningSessionEvent::SessionCompleted
                };
                let events = vec![
                    LearningSessionEvent::SessionStarted {
                        session_id,
                        deck_id,
                        cards_to_review,
                        question_language,
                        answer_language,
                    },
                    next,
                ];
                Ok(events)
            },
            LearningSessionCommand::AbandonSession => {
                if self.id.as_str().is_empty() {
                    return Err(LearningSessionError::SessionNotFound);
                }
                if self.status != SessionStatus::InProgress {
                    return Err(LearningSessionError::SessionNotActive);
                }
                let events = vec![LearningSessionEvent::SessionAbandoned];
                assert(events@ =~= seq![LearningSessionEvent::SessionAbandoned]);
                Ok(events)
            },
            LearningSessionCommand::AnswerCard { rating, card_before_review } => {
                // The scheduler runs only for an answer that will be accepted, and never on a card
                // whose counters cannot take one more review.
                if self.id.as_str().is_empty() || self.status != SessionStatus::InProgress || self.current_card_id.is_none() {
                    return self.answer_card_with(rating, card_before_review);
                }
                if card_review_count(&card_before_review) == i32::MAX || card_lapse_count(&card_before_review) == i32::MAX {
                    return Err(LearningSessionError::ReviewCountExhausted);
                }
                let updated_card = review_card_now(card_before_review, rating);
                self.answer_card_with(rating, updated_card)
            },
        }
    }
}

/// Starting a session over an empty queue never presents a card: a session with no identity
/// that has not started answers with exactly its start followed by its completion, and any
/// other answer is a refusal.
pub proof fn lemma_empty_start_completes(
    state: LearningSessionModel,
    session_id: String,
    deck_id: String,
    cards_to_review: Vec<String>,
    question_language: Language,
    answer_language: Language,
    result: Result<Seq<LearningSessionEvent>, LearningSessionError>,
)
    requires
        cards_to_review@.len() == 0,
        <LearningSession as Aggregate>::spec_handle(
            state,
            LearningSessionCommand::StartSession { session_id, deck_id, cards_to_review, question_language, answer_language },
            result,
        ),
    ensures
        may_start(state) <==> result is Ok,
        result matches Ok(events) ==> {
            &&& events.len() == 2
            &&& events[0] is SessionStarted
            &&& events[1] is SessionCompleted
            &&& forall|i: int| 0 <= i < events.len() ==> !(#[trigger] events[i] is CardPresented)
        },
{
    if let Ok(events) = result {
        assert forall|i: int| 0 <= i < events.len() implies !(#[trigger] events[i] is CardPresented) by {
            assert(i == 0 || i == 1);
        }
    }
}

/// Answering when no card is presented always fails and so produces no event: a session
/// without an identity is not found, one that is not in progress is not active, and one in
/// progress has no card to answer.
pub proof fn lemma_answer_without_card_fails(
    state: LearningSessionModel,
    rating: rs_fsrs::Rating,
    card_before_review: rs_fsrs::Card,
    result: Result<Seq<LearningSessionEvent>, LearningSessionError>,
)
    requires
        state.current_card_id is None,
        <LearningSession as Aggregate>::spec_handle(
            state,
            LearningSessionCommand::AnswerCard { rating, card_before_review },
            result,
        ),
    ensures
        result is Err,
        state.id.len() == 0 ==> result == Err::<Seq<LearningSessionEvent>, LearningSessionError>(
            LearningSessionError::SessionNotFound,
        ),
        state.id.len() > 0 && state.status != SessionStatus::InProgress ==> result == Err::<
            Seq<LearningSessionEvent>,
            LearningSessionError,
        >(LearningSessionError::SessionNotActive),
        state.id.len() > 0 && state.status == SessionStatus::InProgress ==> result == Err::<
            Seq<LearningSessionEvent>,
            LearningSessionError,
        >(LearningSessionError::NoCardToAnswer),
{
}

/// A card is presented exactly while the session is in progress, and a session that is not in
/// progress has no card waiting.
pub open spec fn session_consistent(state: LearningSessionModel) -> bool {
    &&& (state.current_card_id is Some <==> state.status == SessionStatus::InProgress)
    &&& state.status != SessionStatus::InProgress ==> state.cards_to_review.len() == 0
}

/// Every batch of events that `handle` accepts takes a consistent session to a consistent
/// session; the initial session is consistent, so every session built from its log is.
pub proof fn lemma_commands_keep_session_consistent(
    state: LearningSessionModel,
    command: LearningSessionCommand,
    events: Seq<LearningSessionEvent>,
)
    requires
        session_consistent(state),
        <LearningSession as Aggregate>::spec_handle(state, command, Ok(events)),
    ensures
        session_consistent(crate::engine::fold_events::<LearningSession>(state, events)),
        session_consistent(<LearningSession as Aggregate>::spec_initial()),
{
    if events.len() == 2 {
        let first = events.drop_last();
        assert(first.drop_last().len() == 0);
        assert(first.last() == events[0]);
        assert(crate::engine::fold_events::<LearningSession>(state, first.drop_last()) == state);
        let s1 = <LearningSession as Aggregate>::spec_apply(state, events[0]);
        assert(crate::engine::fold_events::<LearningSession>(state, first) == s1);
        let s2 = <LearningSession as Aggregate>::spec_apply(s1, events[1]);
        assert(crate::engine::fold_events::<LearningSession>(state, events) == s2);
        match command {
            LearningSessionCommand::StartSession { cards_to_review, .. } => {
                assert(s1.cards_to_review == ids_view(cards_to_review@));
            },
            _ => {},
        }
    } else {
        assert(events.len() == 1);
        assert(events.drop_last().len() == 0);
        assert(crate::engine::fold_events::<LearningSession>(state, events.drop_last()) == state);
    }
}

/// Every batch of events that `handle` accepts is non-empty and leaves the session started:
/// a session whose status is `NotStarted` has never accepted a command.
pub proof fn lemma_accepted_commands_start_session(
    state: LearningSessionModel,
    command: LearningSessionCommand,
    events: Seq<LearningSessionEvent>,
)
    requires
        <LearningSession as Aggregate>::spec_handle(state, command, Ok(events)),
    ensures
        events.len() > 0,
        crate::engine::fold_events::<LearningSession>(state, events).status != SessionStatus::NotStarted,
{
    if events.len() == 2 {
        let first = events.drop_last();
        assert(first.drop_last().len() == 0);
        assert(first.last() == events[0]);
        assert(crate::engine::fold_events::<LearningSession>(state, first.drop_last()) == state);
        let s1 = <LearningSession as Aggregate>::spec_apply(state, events[0]);
        assert(crate::engine::fold_events::<LearningSession>(state, first) == s1);
        assert(crate::engine::fold_events::<LearningSession>(state, events) == <LearningSession as Aggregate>::spec_apply(
            s1,
            events[1],
        ));
    } else {
        assert(events.drop_last().len() == 0);
        assert(crate::engine::fold_events::<LearningSession>(state, events.drop_last()) == state);
    }
}

/// As a read model, the aggregate folds its own events.
impl ReadModel<LearningSession> for LearningSession {
    open spec fn spec_default() -> LearningSessionModel {
        <LearningSession as Aggregate>::spec_initial()
    }

    open spec fn spec_update(view: LearningSessionModel, event: EventEnvelope<<LearningSession as Aggregate>::Event>) -> LearningSessionModel {
        <LearningSession as Aggregate>::spec_apply(view, event.payload)
    }

    fn default_view() -> (r: Self) {
        <LearningSession as Aggregate>::initial()
    }

    fn update(&mut self, event: &EventEnvelope<<LearningSession as Aggregate>::Event>) {
        self.apply(&event.payload);
    }
}

} // verus!
