use flashcards::aggregate::Aggregate;
use flashcards::deck::{Deck, DeckCommand, DeckError, DeckEvent, Flashcard, FlashcardDto};
use flashcards::engine::{AggregateError, CqrsFramework};
use flashcards::event_store::EventEnvelope;
use flashcards::flashcard::{Flashcard as StandaloneFlashcard, FlashcardCommand, FlashcardError, FlashcardEvent};
use flashcards::learning_session::{
    LearningSession, LearningSessionCommand, LearningSessionError, LearningSessionEvent,
};
use flashcards::scheduled_review::{
    ScheduledReview, ScheduledReviewCommand, ScheduledReviewError, ScheduledReviewEvent,
};
use flashcards::value_objects::{Language, SessionStatus};

fn ids(v: &[&str]) -> Vec<String> {
    v.iter().map(|s| s.to_string()).collect()
}

fn start(session: &str, cards: &[&str]) -> LearningSessionCommand {
    LearningSessionCommand::StartSession {
        session_id: session.to_string(),
        deck_id: "D1".to_string(),
        cards_to_review: ids(cards),
        question_language: Language::Dutch,
        answer_language: Language::English,
    }
}

fn envelope<E>(id: &str, sequence: usize, payload: E) -> EventEnvelope<E> {
    EventEnvelope { aggregate_id: id.to_string(), sequence, payload }
}

fn started_session(cards: &[&str]) -> LearningSession {
    let mut s = LearningSession::initial();
    let events = s.handle(start("S1", cards)).ok().unwrap();
    for e in &events {
        s.apply(e);
    }
    s
}

#[test]
fn start_with_empty_queue_completes_at_once() {
    let s = LearningSession::initial();
    let events = s.handle(start("S1", &[])).ok().unwrap();
    assert_eq!(events.len(), 2);
    assert!(matches!(events[0], LearningSessionEvent::SessionStarted { .. }));
    assert!(matches!(events[1], LearningSessionEvent::SessionCompleted));
    assert!(!events.iter().any(|e| matches!(e, LearningSessionEvent::CardPresented { .. })));
}

#[test]
fn start_presents_first_card_of_queue() {
    let s = LearningSession::initial();
    let events = s.handle(start("S1", &["c1", "c2", "c3"])).ok().unwrap();
    assert_eq!(events.len(), 2);
    match &events[0] {
        LearningSessionEvent::SessionStarted { session_id, cards_to_review, question_language, .. } => {
            assert_eq!(session_id, "S1");
            assert_eq!(cards_to_review, &ids(&["c1", "c2", "c3"]));
            assert_eq!(*question_language, Language::Dutch);
        }
        _ => panic!("expected SessionStarted"),
    }
    match &events[1] {
        LearningSessionEvent::CardPresented { card_id } => assert_eq!(card_id, "c1"),
        _ => panic!("expected CardPresented"),
    }
}

#[test]
fn applying_start_sets_queue_and_current_card() {
    let s = started_session(&["c1", "c2", "c3"]);
    assert_eq!(s.status, SessionStatus::InProgress);
    assert_eq!(s.current_card_id.as_deref(), Some("c1"));
    assert_eq!(s.cards_to_review.iter().cloned().collect::<Vec<_>>(), ids(&["c2", "c3"]));
    assert_eq!(s.question_language, Some(Language::Dutch));
    assert_eq!(s.answer_language, Some(Language::English));
}

#[test]
fn start_twice_is_refused() {
    let s = started_session(&["c1"]);
    assert_eq!(s.handle(start("S1", &["c1"])).err(), Some(LearningSessionError::SessionAlreadyStarted));
}

#[test]
fn commands_before_start_find_no_session() {
    let s = LearningSession::initial();
    assert_eq!(s.handle(LearningSessionCommand::AbandonSession).err(), Some(LearningSessionError::SessionNotFound));
    let answer = LearningSessionCommand::AnswerCard {
        rating: rs_fsrs::Rating::Good,
        card_before_review: rs_fsrs::Card::new(),
    };
    assert_eq!(s.handle(answer).err(), Some(LearningSessionError::SessionNotFound));
}

#[test]
fn answer_without_current_card_fails() {
    let mut s = started_session(&["c1"]);
    s.current_card_id = None;
    let answer = LearningSessionCommand::AnswerCard {
        rating: rs_fsrs::Rating::Good,
        card_before_review: rs_fsrs::Card::new(),
    };
    assert_eq!(s.handle(answer).err(), Some(LearningSessionError::NoCardToAnswer));
}

#[test]
fn answer_presents_next_card_then_completes() {
    let mut s = started_session(&["c1", "c2"]);
    let events = s.answer_card_with(rs_fsrs::Rating::Good, rs_fsrs::Card::new()).ok().unwrap();
    assert_eq!(events.len(), 2);
    match &events[0] {
        LearningSessionEvent::CardAnswered { card_id, rating, .. } => {
            assert_eq!(card_id, "c1");
            assert_eq!(*rating, rs_fsrs::Rating::Good);
        }
        _ => panic!("expected CardAnswered"),
    }
    match &events[1] {
        LearningSessionEvent::CardPresented { card_id } => assert_eq!(card_id, "c2"),
        _ => panic!("expected CardPresented"),
    }
    for e in &events {
        s.apply(e);
    }
    let events = s.answer_card_with(rs_fsrs::Rating::Easy, rs_fsrs::Card::new()).ok().unwrap();
    assert!(matches!(events[1], LearningSessionEvent::SessionCompleted));
    for e in &events {
        s.apply(e);
    }
    assert_eq!(s.status, SessionStatus::Completed);
    assert_eq!(s.current_card_id, None);
    assert_eq!(
        s.handle(LearningSessionCommand::AbandonSession).err(),
        Some(LearningSessionError::SessionNotActive)
    );
}

#[test]
fn answer_reviews_the_card_with_the_scheduler() {
    let s = started_session(&["c1"]);
    let before = rs_fsrs::Card::new();
    let answer = LearningSessionCommand::AnswerCard { rating: rs_fsrs::Rating::Good, card_before_review: before.clone() };
    let events = s.handle(answer).ok().unwrap();
    match &events[0] {
        LearningSessionEvent::CardAnswered { updated_card, .. } => {
            assert_eq!(updated_card.reps, before.reps + 1);
            assert_ne!(updated_card.state, rs_fsrs::State::New);
        }
        _ => panic!("expected CardAnswered"),
    }
}

#[test]
fn abandon_clears_pending_queue() {
    let mut s = started_session(&["c1", "c2", "c3"]);
    assert_eq!(s.cards_to_review.len(), 2);
    let events = s.handle(LearningSessionCommand::AbandonSession).ok().unwrap();
    assert_eq!(events.len(), 1);
    assert!(matches!(events[0], LearningSessionEvent::SessionAbandoned));
    s.apply(&events[0]);
    assert_eq!(s.status, SessionStatus::Completed);
    assert!(s.cards_to_review.is_empty());
    assert_eq!(s.current_card_id, None);
}

#[test]
fn session_event_names() {
    assert_eq!(LearningSessionEvent::SessionCompleted.event_type(), "SessionCompleted");
    assert_eq!(LearningSessionEvent::CardPresented { card_id: "c".to_string() }.event_type(), "CardPresented");
    assert_eq!(LearningSessionEvent::SessionAbandoned.event_version(), "1");
    assert_eq!(LearningSessionError::NoCardToAnswer.message(), "No card is currently presented to answer.");
}

fn created_deck() -> Deck {
    let mut d = Deck::initial();
    let events = d
        .handle(DeckCommand::CreateDeck { id: "D1".to_string(), name: "Deck one".to_string() })
        .ok()
        .unwrap();
    for e in &events {
        d.apply(e);
    }
    d
}

fn add(d: &mut Deck, id: &str, dutch: &str) {
    let command = DeckCommand::AddFlashcard {
        dutch: dutch.to_string(),
        mandarin: "m".to_string(),
        pinyin: "p".to_string(),
        english: "e".to_string(),
    };
    let events = d.handle_with_id(command, id.to_string()).ok().unwrap();
    for e in &events {
        d.apply(e);
    }
}

#[test]
fn deck_create_twice_is_refused() {
    let d = created_deck();
    assert_eq!(d.id, "D1");
    assert_eq!(d.name, "Deck one");
    let r = d.handle(DeckCommand::CreateDeck { id: "D1".to_string(), name: "x".to_string() });
    assert!(matches!(r, Err(DeckError::DeckAlreadyExists)));
}

#[test]
fn deck_commands_need_a_deck() {
    let d = Deck::initial();
    let r = d.handle(DeckCommand::RenameDeck { id: "D1".to_string(), new_name: "x".to_string() });
    assert!(matches!(r, Err(DeckError::DeckNotFound)));
    assert_eq!(DeckError::DeckNotFound.message(), "Deck not found.");
}

#[test]
fn deck_add_generates_a_fresh_id() {
    let mut d = created_deck();
    let command = DeckCommand::AddFlashcard {
        dutch: "hond".to_string(),
        mandarin: "狗".to_string(),
        pinyin: "gǒu".to_string(),
        english: "dog".to_string(),
    };
    let events = d.handle(command).ok().unwrap();
    assert_eq!(events.len(), 1);
    let id = match &events[0] {
        DeckEvent::FlashcardAdded(dto) => {
            assert_eq!(dto.dutch, "hond");
            assert_eq!(dto.english, "dog");
            dto.id.clone()
        }
        _ => panic!("expected FlashcardAdded"),
    };
    assert_eq!(id.len(), 36);
    d.apply(&events[0]);
    assert_eq!(d.flashcards.len(), 1);
    assert_eq!(d.flashcards[&id].pinyin, "gǒu");
}

#[test]
fn deck_remove_and_update_keep_order() {
    let mut d = created_deck();
    add(&mut d, "a", "een");
    add(&mut d, "b", "twee");
    add(&mut d, "c", "drie");
    let events = d
        .handle(DeckCommand::UpdateFlashcardContent {
            flashcard_id: "a".to_string(),
            dutch: "één".to_string(),
            mandarin: "m".to_string(),
            pinyin: "p".to_string(),
            english: "one".to_string(),
        })
        .ok()
        .unwrap();
    d.apply(&events[0]);
    let events = d.handle(DeckCommand::RemoveFlashcard { flashcard_id: "b".to_string() }).ok().unwrap();
    d.apply(&events[0]);
    assert_eq!(d.flashcard_ids(), ids(&["a", "c"]));
    assert_eq!(d.flashcards["a"].dutch, "één");
}

#[test]
fn deck_unknown_flashcard_is_refused() {
    let d = created_deck();
    let r = d.handle(DeckCommand::RemoveFlashcard { flashcard_id: "zz".to_string() });
    match r {
        Err(DeckError::FlashcardNotFound(id)) => {
            assert_eq!(id, "zz");
            assert_eq!(
                DeckError::FlashcardNotFound(id).message(),
                "Flashcard with ID `zz` does not exist in the deck."
            );
        }
        _ => panic!("expected FlashcardNotFound"),
    }
}

#[test]
fn flashcard_from_dto_keeps_fields() {
    let dto = FlashcardDto {
        id: "i".to_string(),
        dutch: "d".to_string(),
        mandarin: "m".to_string(),
        pinyin: "p".to_string(),
        english: "e".to_string(),
    };
    let f = Flashcard::from(dto);
    assert_eq!((f.id.as_str(), f.dutch.as_str(), f.english.as_str()), ("i", "d", "e"));
    assert_eq!(DeckEvent::FlashcardRemoved { flashcard_id: "i".to_string() }.event_type(), "FlashcardRemoved");
}

#[test]
fn standalone_flashcard_lifecycle() {
    let mut f = StandaloneFlashcard::initial();
    let events = f
        .handle(FlashcardCommand::CreateFlashcard {
            id: "f1".to_string(),
            question: "q".to_string(),
            answer: "a".to_string(),
        })
        .ok()
        .unwrap();
    f.apply(&events[0]);
    assert_eq!((f.id.as_str(), f.question.as_str(), f.answer.as_str()), ("f1", "q", "a"));
    let events = f.handle(FlashcardCommand::DeleteFlashcard { id: "f1".to_string() }).ok().unwrap();
    assert_eq!(events[0].event_type(), "FlashcardDeleted");
    f.apply(&events[0]);
    assert_eq!((f.id.as_str(), f.question.as_str(), f.answer.as_str()), ("f1", "", ""));
    assert!(matches!(events[0], FlashcardEvent::FlashcardDeleted { .. }));
}

#[test]
fn scheduled_review_lifecycle() {
    let mut r = ScheduledReview::initial();
    let events = r.handle(ScheduledReviewCommand::CreateScheduledReview { id: "r1".to_string() }).ok().unwrap();
    assert!(matches!(&events[0], ScheduledReviewEvent::ScheduledReviewCreated { id } if id == "r1"));
    r.apply(&events[0]);
    assert_eq!(r.id, "r1");
    assert_eq!(ScheduledReview::aggregate_type(), "scheduled_review");
}

#[test]
fn replay_is_deterministic() {
    let mut engine: CqrsFramework<LearningSession> = CqrsFramework::new();
    engine.execute("S1", start("S1", &["c1", "c2"])).ok().unwrap();
    engine.execute("S1", LearningSessionCommand::AbandonSession).ok().unwrap();
    let (a, va) = engine.load_aggregate("S1");
    let (b, vb) = engine.load_aggregate("S1");
    assert_eq!(va, vb);
    assert_eq!(a.id, b.id);
    assert_eq!(a.status, b.status);
    assert_eq!(a.current_card_id, b.current_card_id);
    assert_eq!(a.cards_to_review, b.cards_to_review);
    assert_eq!(a.status, SessionStatus::Completed);
}

#[test]
fn version_counts_all_appended_events() {
    let mut engine: CqrsFramework<LearningSession> = CqrsFramework::new();
    engine.execute("S1", start("S1", &["c1", "c2"])).ok().unwrap();
    assert_eq!(engine.load_aggregate("S1").1, 2);
    engine.execute("S1", LearningSessionCommand::AbandonSession).ok().unwrap();
    assert_eq!(engine.load_aggregate("S1").1, 3);
    let seqs: Vec<usize> = engine.events("S1").iter().map(|e| e.sequence).collect();
    assert_eq!(seqs, vec![1, 2, 3]);
    assert!(engine.events("S1").iter().all(|e| e.aggregate_id == "S1"));
    assert_eq!(engine.load_aggregate("other").1, 0);
}

#[test]
fn refused_command_appends_nothing() {
    let mut engine: CqrsFramework<LearningSession> = CqrsFramework::new();
    engine.execute("S1", start("S1", &["c1"])).ok().unwrap();
    let (mut s, _) = engine.load_aggregate("S1");
    s.current_card_id = None;
    let r = engine.execute("S1", start("S1", &["c1"]));
    assert!(matches!(r, Err(AggregateError::UserError(LearningSessionError::SessionAlreadyStarted))));
    assert_eq!(engine.events("S1").len(), 2);
}

#[test]
fn racing_writers_one_wins() {
    let mut engine: CqrsFramework<Deck> = CqrsFramework::new();
    engine
        .execute("D1", DeckCommand::CreateDeck { id: "D1".to_string(), name: "n".to_string() })
        .ok()
        .unwrap();
    let (first, v1) = engine.load_aggregate("D1");
    let (second, v2) = engine.load_aggregate("D1");
    assert_eq!(v1, v2);
    let e1 = first
        .handle_with_id(
            DeckCommand::RenameDeck { id: "D1".to_string(), new_name: "a".to_string() },
            "x".to_string(),
        )
        .ok()
        .unwrap();
    let e2 = second
        .handle_with_id(
            DeckCommand::RenameDeck { id: "D1".to_string(), new_name: "b".to_string() },
            "y".to_string(),
        )
        .ok()
        .unwrap();
    assert!(engine.commit("D1", v1, e1).is_ok());
    assert!(matches!(engine.commit("D1", v2, e2), Err(AggregateError::AggregateConflict)));
    assert_eq!(engine.load_aggregate("D1").0.name, "a");
    assert_eq!(engine.load_aggregate("D1").1, 2);
}

#[test]
fn envelope_fields() {
    let e = envelope("S1", 1, LearningSessionEvent::SessionCompleted);
    assert_eq!(e.aggregate_id, "S1");
    assert_eq!(e.sequence, 1);
}

#[test]
fn value_object_defaults() {
    assert_eq!(SessionStatus::default(), SessionStatus::NotStarted);
    assert_eq!(LearningSession::initial().status, SessionStatus::NotStarted);
    assert_eq!(LearningSession::aggregate_type(), "learning_session");
    assert_eq!(Deck::aggregate_type(), "deck");
    assert_ne!(flashcards::value_objects::AnswerQuality::Again, flashcards::value_objects::AnswerQuality::Easy);
}

#[test]
fn scheduled_review_event_names() {
    let e = ScheduledReviewEvent::ScheduledReviewDeleted { id: "r".to_string() };
    assert_eq!(e.event_type(), "ScheduledReviewDeleted");
    assert_eq!(e.event_version(), "1");
    let mut r = ScheduledReview::initial();
    r.apply(&e);
    assert_eq!(r.id, "r");
}

#[test]
fn standalone_flashcard_identity_rules() {
    let f = StandaloneFlashcard::initial();
    let r = f.handle(FlashcardCommand::DeleteFlashcard { id: "f1".to_string() });
    assert_eq!(r.err(), Some(FlashcardError::FlashcardNotFound));
    let mut f = StandaloneFlashcard::initial();
    let create = FlashcardCommand::CreateFlashcard {
        id: "f1".to_string(),
        question: "q".to_string(),
        answer: "a".to_string(),
    };
    let events = f.handle(create).ok().unwrap();
    f.apply(&events[0]);
    let again = FlashcardCommand::CreateFlashcard {
        id: "f1".to_string(),
        question: "q".to_string(),
        answer: "a".to_string(),
    };
    assert_eq!(f.handle(again).err(), Some(FlashcardError::FlashcardAlreadyExists));
}

#[test]
fn scheduled_review_identity_rules() {
    let r = ScheduledReview::initial();
    let delete = ScheduledReviewCommand::DeleteScheduledReview { id: "r1".to_string() };
    assert_eq!(r.handle(delete).err(), Some(ScheduledReviewError::ScheduledReviewNotFound));
    let mut r = ScheduledReview::initial();
    let events = r.handle(ScheduledReviewCommand::CreateScheduledReview { id: "r1".to_string() }).ok().unwrap();
    r.apply(&events[0]);
    let again = ScheduledReviewCommand::CreateScheduledReview { id: "r1".to_string() };
    assert_eq!(r.handle(again).err(), Some(ScheduledReviewError::ScheduledReviewAlreadyExists));
}

#[test]
fn session_identity_decides_start() {
    let mut s = LearningSession::initial();
    s.id = "S0".to_string();
    assert_eq!(s.handle(start("S1", &["c1"])).err(), Some(LearningSessionError::SessionAlreadyStarted));
}

#[test]
fn session_without_identity_is_not_found() {
    let s = started_session_with_id("", &["c1", "c2"]);
    assert_eq!(s.status, SessionStatus::InProgress);
    assert_eq!(s.handle(LearningSessionCommand::AbandonSession).err(), Some(LearningSessionError::SessionNotFound));
    let answer = LearningSessionCommand::AnswerCard {
        rating: rs_fsrs::Rating::Good,
        card_before_review: rs_fsrs::Card::new(),
    };
    assert_eq!(s.handle(answer).err(), Some(LearningSessionError::SessionNotFound));
}

#[test]
fn answer_refused_when_counters_are_full() {
    let s = started_session(&["c1"]);
    let mut card = rs_fsrs::Card::new();
    card.reps = i32::MAX;
    let answer = LearningSessionCommand::AnswerCard { rating: rs_fsrs::Rating::Again, card_before_review: card };
    assert_eq!(s.handle(answer).err(), Some(LearningSessionError::ReviewCountExhausted));
    let mut card = rs_fsrs::Card::new();
    card.lapses = i32::MAX;
    let answer = LearningSessionCommand::AnswerCard { rating: rs_fsrs::Rating::Again, card_before_review: card };
    assert_eq!(s.handle(answer).err(), Some(LearningSessionError::ReviewCountExhausted));
    assert_eq!(LearningSessionError::ReviewCountExhausted.message(), "The card cannot record another review.");
}

fn started_session_with_id(id: &str, cards: &[&str]) -> LearningSession {
    let mut s = LearningSession::initial();
    let events = s.handle(start(id, cards)).ok().unwrap();
    for e in &events {
        s.apply(e);
    }
    s
}
