use flashcards::acl::{CardManagementLearningIntegration, LearningReadModels};
use flashcards::flashcard::{Flashcard, FlashcardCommand};
use flashcards::scheduled_review::{ScheduledReview, ScheduledReviewEvent};
use flashcards::application::Application;
use flashcards::deck::{Deck, DeckCommand};
use flashcards::engine::{Both, CqrsFramework, NoQuery};
use flashcards::learning_session::LearningSessionEvent;
use flashcards::reviewable_card::{create_reviewable_card, ReviewableCard};
use flashcards::value_objects::Language;
use flashcards::views::{Collection, NoAdapter, Outbox, Projector, ViewContext, ViewError, ViewStore};

fn add_card(app: &mut Application, deck: &str, dutch: &str, english: &str) {
    app.add_flashcard_to_deck(deck, dutch.to_string(), "m".to_string(), "p".to_string(), english.to_string())
        .unwrap();
}

#[test]
fn scenario_deck_view_holds_added_flashcard() {
    let mut app = Application::new();
    let id = app.create_new_deck(Some("D1".to_string()), "Deck one".to_string()).unwrap();
    assert_eq!(id, "D1");
    app.add_flashcard_to_deck(
        "D1",
        "hond".to_string(),
        "狗".to_string(),
        "gǒu".to_string(),
        "dog".to_string(),
    )
    .unwrap();
    let deck = app.deck_views().load("D1").unwrap();
    assert_eq!(deck.name, "Deck one");
    assert_eq!(deck.flashcards.len(), 1);
    let (key, card) = deck.flashcards.get_index(0).unwrap();
    assert_eq!(key.len(), 36);
    assert_eq!(&card.id, key);
    assert_eq!(card.dutch, "hond");
    assert_eq!(card.english, "dog");
    assert_eq!(app.deck_views().load_with_context("D1").unwrap().1.version, 2);
    assert!(app.card_states().load(key).is_some());
}

#[test]
fn create_deck_twice_and_missing_deck() {
    let mut app = Application::new();
    app.create_new_deck(Some("D1".to_string()), "n".to_string()).unwrap();
    assert_eq!(
        app.create_new_deck(Some("D1".to_string()), "n".to_string()),
        Err("Invalid deck name provided.".to_string())
    );
    let r = app.add_flashcard_to_deck("nope", "a".to_string(), "b".to_string(), "c".to_string(), "d".to_string());
    assert_eq!(r, Err("Deck not found.".to_string()));
    let generated = app.create_new_deck(None, "other".to_string()).unwrap();
    assert_eq!(generated.len(), 36);
}

#[test]
fn scenario_session_over_three_cards() {
    let mut app = Application::new();
    app.create_new_deck(Some("D1".to_string()), "Deck one".to_string()).unwrap();
    add_card(&mut app, "D1", "hond", "dog");
    add_card(&mut app, "D1", "kat", "cat");
    add_card(&mut app, "D1", "vis", "fish");
    let card_ids: Vec<String> = app.deck_views().load("D1").unwrap().flashcards.keys().cloned().collect();
    let session = app.start_session_for_deck("D1", Language::Dutch, Language::English).unwrap();
    let events = app.session_events(&session);
    assert_eq!(events.len(), 2);
    assert!(matches!(events[0].payload, LearningSessionEvent::SessionStarted { .. }));
    match &events[1].payload {
        LearningSessionEvent::CardPresented { card_id } => assert_eq!(card_id, &card_ids[0]),
        _ => panic!("expected CardPresented"),
    }
    for _ in 0..3 {
        app.answer_current_card(&session, rs_fsrs::Rating::Good).unwrap();
    }
    let events = app.session_events(&session);
    assert!(matches!(events.last().unwrap().payload, LearningSessionEvent::SessionCompleted));
    let view = app.session_views().load(&session).unwrap();
    assert_eq!(view.current_card_id, None);
    for id in &card_ids {
        let (state, context) = app.card_states().load_with_context(id).unwrap();
        assert_eq!(&state.flashcard_id, id);
        assert_eq!(state.fsrs_card.reps, 1);
        assert_eq!(context.version, 1);
    }
    assert_eq!(
        app.answer_current_card(&session, rs_fsrs::Rating::Good),
        Err("No current card in session to answer".to_string())
    );
}

#[test]
fn session_needs_deck_and_cards() {
    let mut app = Application::new();
    assert_eq!(
        app.start_session_for_deck("D1", Language::Dutch, Language::English),
        Err("Deck not found".to_string())
    );
    app.create_new_deck(Some("D1".to_string()), "n".to_string()).unwrap();
    assert_eq!(
        app.start_session_for_deck("D1", Language::Dutch, Language::English),
        Err("This deck has no cards to review.".to_string())
    );
    assert_eq!(
        app.answer_current_card("S?", rs_fsrs::Rating::Good),
        Err("Learning session not found".to_string())
    );
}

#[test]
fn collection_projector_keeps_one_view_per_aggregate() {
    let mut engine: CqrsFramework<Deck> = CqrsFramework::new();
    let mut projector: Projector<Collection<Deck>> = Projector::for_collection::<Deck>(ViewStore::new());
    engine
        .execute_with("D1", DeckCommand::CreateDeck { id: "D1".to_string(), name: "one".to_string() }, &mut projector)
        .ok()
        .unwrap();
    engine
        .execute_with("D2", DeckCommand::CreateDeck { id: "D2".to_string(), name: "two".to_string() }, &mut projector)
        .ok()
        .unwrap();
    let (all, context) = projector.store().load_with_context("deck-collection").unwrap();
    assert_eq!(context.view_instance_id, "deck-collection");
    assert_eq!(context.version, 2);
    assert_eq!(all.get("D1").unwrap().name, "one");
    assert_eq!(all.get("D2").unwrap().name, "two");
    assert!(all.get("D3").is_none());
}

#[test]
fn both_queries_receive_the_commit() {
    let mut engine: CqrsFramework<Deck> = CqrsFramework::new();
    let mut queries = Both { first: Projector::<Deck>::for_individual(ViewStore::new()), second: NoQuery };
    engine
        .execute_with("D1", DeckCommand::CreateDeck { id: "D1".to_string(), name: "one".to_string() }, &mut queries)
        .ok()
        .unwrap();
    assert_eq!(queries.first.store().load("D1").unwrap().name, "one");
    let mut named = Projector::<Deck>::with_view_id(ViewStore::new(), "latest");
    engine
        .execute_with("D1", DeckCommand::RenameDeck { id: "D1".to_string(), new_name: "uno".to_string() }, &mut named)
        .ok()
        .unwrap();
    assert_eq!(named.store().load("latest").unwrap().name, "uno");
}

#[test]
fn view_update_checks_version() {
    let mut store: ViewStore<ReviewableCard> = ViewStore::new();
    let r = store.update_view(ReviewableCard::new("c1"), ViewContext::new("c1".to_string(), 3), 4);
    assert_eq!(r, Err(ViewError::VersionConflict));
    assert!(store.load("c1").is_none());
    assert_eq!(store.update_view(ReviewableCard::new("c1"), ViewContext::new("c1".to_string(), 0), 1), Ok(()));
    assert_eq!(store.load_with_context("c1").unwrap().1.version, 1);
    let r = store.update_view(ReviewableCard::new("c1"), ViewContext::new("c1".to_string(), 0), 1);
    assert_eq!(r, Err(ViewError::VersionConflict));
}

#[test]
fn creating_reviewable_card_is_idempotent() {
    let mut store: ViewStore<ReviewableCard> = ViewStore::new();
    assert_eq!(create_reviewable_card(&mut store, "c1"), Ok(()));
    let first = store.load("c1").unwrap().fsrs_card.clone();
    assert_eq!(create_reviewable_card(&mut store, "c1"), Ok(()));
    assert_eq!(store.load("c1").unwrap().fsrs_card, first);
    assert_eq!(store.load_with_context("c1").unwrap().1.version, 0);
    let mut read = LearningReadModels::new();
    assert_eq!(read.create_reviewable_card("c2"), Ok(()));
    assert_eq!(read.reviewable_cards().load("c2").unwrap().flashcard_id, "c2");
}

#[test]
fn created_flashcards_get_one_scheduled_review() {
    let mut cards: CqrsFramework<Flashcard> = CqrsFramework::new();
    let mut acl = CardManagementLearningIntegration::new(CqrsFramework::<ScheduledReview>::new());
    let create = |id: &str| FlashcardCommand::CreateFlashcard {
        id: id.to_string(),
        question: "q".to_string(),
        answer: "a".to_string(),
    };
    cards.execute_with("f1", create("f1"), &mut acl).ok().unwrap();
    assert!(cards.execute_with("f1", create("f1"), &mut acl).is_err());
    cards.execute_with("copy", create("f1"), &mut acl).ok().unwrap();
    cards
        .execute_with("f1", FlashcardCommand::DeleteFlashcard { id: "f1".to_string() }, &mut acl)
        .ok()
        .unwrap();
    let events = acl.reviews().events("f1");
    assert_eq!(events.len(), 1);
    assert!(matches!(&events[0].payload, ScheduledReviewEvent::ScheduledReviewCreated { id } if id == "f1"));
    assert_eq!(acl.reviews().load_aggregate("f1").0.id, "f1");
    assert_eq!(cards.events("f1").len(), 2);
    acl.create_review_for_card("f2");
    assert_eq!(acl.reviews().events("f2").len(), 1);
}

#[test]
fn session_with_chosen_id() {
    let mut app = Application::new();
    app.create_new_deck(Some("D1".to_string()), "n".to_string()).unwrap();
    add_card(&mut app, "D1", "hond", "dog");
    let id = app.start_session_with_id("S1".to_string(), "D1", Language::Dutch, Language::English).unwrap();
    assert_eq!(id, "S1");
    assert_eq!(
        app.start_session_with_id("S1".to_string(), "D1", Language::Dutch, Language::English),
        Err("Learning session has already been started.".to_string())
    );
    let view = app.session_views().load("S1").unwrap();
    assert_eq!(view.deck_id, "D1");
    assert!(view.current_card_id.is_some());
    assert!(view.cards_to_review.is_empty());
}

#[test]
fn adapters_are_told_after_each_write() {
    let mut engine: CqrsFramework<Deck> = CqrsFramework::new();
    let mut projector: Projector<Collection<Deck>, Outbox> =
        Projector::for_collection::<Deck>(ViewStore::new()).with_adapter(Outbox::new()).with_adapter(Outbox::new());
    engine
        .execute_with("D1", DeckCommand::CreateDeck { id: "D1".to_string(), name: "one".to_string() }, &mut projector)
        .ok()
        .unwrap();
    engine
        .execute_with("D2", DeckCommand::CreateDeck { id: "D2".to_string(), name: "two".to_string() }, &mut projector)
        .ok()
        .unwrap();
    assert!(engine
        .execute_with("D2", DeckCommand::CreateDeck { id: "D2".to_string(), name: "x".to_string() }, &mut projector)
        .is_err());
    let adapters = projector.adapter_list();
    assert_eq!(adapters.len(), 2);
    for outbox in adapters {
        assert_eq!(
            outbox.notices,
            vec![("deck-collection".to_string(), 1), ("deck-collection".to_string(), 1)]
        );
    }
    let plain: Projector<Deck, NoAdapter> = Projector::for_individual(ViewStore::new()).with_adapter(NoAdapter);
    assert_eq!(plain.adapter_list().len(), 1);
}

#[test]
fn started_session_log_holds_two_events() {
    let mut app = Application::new();
    app.create_new_deck(Some("D1".to_string()), "n".to_string()).unwrap();
    add_card(&mut app, "D1", "hond", "dog");
    let session = app.start_session_with_id("S1".to_string(), "D1", Language::Dutch, Language::English).unwrap();
    assert_eq!(app.session_events(&session).len(), 2);
}
