use vstd::prelude::*;
use crate::acl::LearningReadModels;
use crate::aggregate::Aggregate;
use crate::deck::{deck_error_text, Deck, DeckCommand, DeckError, DeckEvent};
use crate::engine::{AggregateError, Both, CqrsFramework};
use crate::event_store::{payloads, EventEnvelope};
use crate::ids::new_id;
use crate::learning_session::{session_error_text, LearningSession, LearningSessionCommand, LearningSessionError, LearningSessionEvent};
use crate::reviewable_card::ReviewableCard;
use crate::value_objects::{Language, SessionStatus};
use crate::views::{lemma_own_view_tracks_log, Projector, ReadModel, ViewStore};

verus! {

/// The text of an engine error: the aggregate's own message for a refusal.
pub open spec fn error_text<X>(e: AggregateError<X>, user: spec_fn(X) -> Seq<char>) -> Seq<char> {
    match e {
        AggregateError::UserError(x) => user(x),
        AggregateError::AggregateConflict => "aggregate conflict"@,
        AggregateError::PersistenceError => "the event log is full"@,
    }
}

fn deck_failure(e: AggregateError<DeckError>) -> (r: String)
    ensures
        r@ == error_text(e, |x: DeckError| deck_error_text(x)),
{
    match e {
        AggregateError::UserError(x) => x.message(),
        AggregateError::AggregateConflict => "aggregate conflict".to_owned(),
        AggregateError::PersistenceError => "the event log is full".to_owned(),
    }
}

fn session_failure(e: AggregateError<LearningSessionError>) -> (r: String)
    ensures
        r@ == error_text(e, |x: LearningSessionError| session_error_text(x)),
{
    match e {
        AggregateError::UserError(x) => x.message().to_owned(),
        AggregateError::AggregateConflict => "aggregate conflict".to_owned(),
        AggregateError::PersistenceError => "the event log is full".to_owned(),
    }
}

/// The ids of `deck`'s flashcards that have a learning state, in the deck's order.
pub open spec fn reviewable_ids(
    deck: Seq<Seq<char>>,
    cards: Map<Seq<char>, (crate::reviewable_card::ReviewableCardModel, u64)>,
) -> Seq<Seq<char>> {
    deck.filter(|id: Seq<char>| cards.contains_key(id))
}

/// The ids of the flashcards of `deck` that `cards` holds a learning state for, in the deck's order.
pub fn select_cards_to_review(deck: &Deck, cards: &ViewStore<ReviewableCard>) -> (r: Vec<String>)
    ensures
        crate::learning_session::ids_view(r@) == reviewable_ids(
            deck@.flashcards.map_values(|e: (Seq<char>, crate::deck::FlashcardModel)| e.0),
            cards.entries(),
        ),
{
    let ids = deck.flashcard_ids();
    let ghost keys = deck@.flashcards.map_values(|e: (Seq<char>, crate::deck::FlashcardModel)| e.0);
    let mut selected: Vec<String> = Vec::new();
    let mut i: usize = 0;
    while i < ids.len()
        invariant
            i <= ids@.len(),
            ids@.len() == keys.len(),
            forall|j: int| 0 <= j < ids@.len() ==> #[trigger] ids@[j]@ == keys[j],
            crate::learning_session::ids_view(selected@) == reviewable_ids(keys.subrange(0, i as int), cards.entries()),
        decreases ids@.len() - i,
    {
        let ghost before = selected@;
        if cards.load(ids[i].as_str()).is_some() {
            selected.push(ids[i].clone());
        }
        proof {
            let p = keys.subrange(0, i + 1);
            assert(p.drop_last() =~= keys.subrange(0, i as int));
            assert(p.last() == keys[i as int]);
            reveal(Seq::filter);
            assert(crate::learning_session::ids_view(selected@) =~= reviewable_ids(p, cards.entries()));
        }
        i = i + 1;
    }
    proof {
        assert(keys.subrange(0, i as int) =~= keys);
    }
    selected
}

/// Session `id` was started over the reviewable cards of deck view `deck_id`: its log, empty
/// before, took the start of the session and the first card, and no other log changed.
pub open spec fn session_started(
    before: Application,
    after: Application,
    deck_id: Seq<char>,
    question_language: Language,
    answer_language: Language,
    id: Seq<char>,
) -> bool {
    let cards = before.cards_of(deck_id);
    &&& before.deck_view_entries().contains_key(deck_id)
    &&& before.session_log(id).len() == 0
    &&& cards.len() > 0
    &&& forall|other: Seq<char>| other != id ==> #[trigger] after.session_log(other) == before.session_log(other)
    &&& exists|events: Seq<LearningSessionEvent>|
        {
            &&& crate::event_store::appended(before.session_log(id), after.session_log(id), events)
            &&& events.len() == 2
            &&& events[0] matches LearningSessionEvent::SessionStarted {
                session_id, deck_id: d, cards_to_review, question_language: q, answer_language: a }
                && session_id@ == id && d@ == deck_id && crate::learning_session::ids_view(cards_to_review@) == cards
                && q == question_language && a == answer_language
            &&& crate::learning_session::is_next_of(cards, events[1])
            &&& after.session_state(id) == crate::engine::fold_events::<LearningSession>(before.session_state(id), events)
        }
}

/// The two domains wired together: decks and learning sessions, each with its engine, and
/// their read models. Deck events reach the deck views and, through the anti-corruption layer,
/// the learning domain's card states; session events reach the session views and card states.
pub struct Application {
    decks: CqrsFramework<Deck>,
    sessions: CqrsFramework<LearningSession>,
    read: Both<Projector<Deck>, LearningReadModels>,
}

/// The view of `id` with its version, or the default view at version 0 where none is stored.
pub open spec fn shown<V>(entries: Map<Seq<char>, (V, u64)>, id: Seq<char>, default: V) -> (V, u64) {
    if entries.contains_key(id) {
        entries[id]
    } else {
        (default, 0)
    }
}

impl Application {
    /// The projectors key views by aggregate id; a session that has not started has an empty
    /// log; and every deck view and session view is the replay of its aggregate's log, at a
    /// version equal to the length of that log.
    pub closed spec fn wf(&self) -> bool {
        &&& self.read.first.collection_id() == None::<Seq<char>>
        &&& self.read.second@.0.1 == None::<Seq<char>>
        &&& forall|id: Seq<char>| #[trigger] self.deck_log(id).len() <= usize::MAX
        &&& forall|id: Seq<char>| #[trigger] self.session_log(id).len() <= usize::MAX
        &&& forall|id: Seq<char>|
            #[trigger] self.session_state(id).status == SessionStatus::NotStarted ==> self.session_log(id).len() == 0
        &&& forall|id: Seq<char>|
            #[trigger] shown(self.deck_view_entries(), id, <Deck as Aggregate>::spec_initial()) == (
                self.deck_state(id),
                self.deck_log(id).len() as u64,
            )
        &&& forall|id: Seq<char>|
            #[trigger] shown(self.session_view_entries(), id, <LearningSession as Aggregate>::spec_initial()) == (
                self.session_state(id),
                self.session_log(id).len() as u64,
            )
    }

    /// A session that has not started has an empty log, and a stored deck or session view shows
    /// its aggregate's replayed state, at a version equal to the number of events in the
    /// aggregate's log.
    pub proof fn lemma_views_track_logs(&self, id: Seq<char>)
        requires
            self.wf(),
        ensures
            self.session_state(id).status == SessionStatus::NotStarted ==> self.session_log(id).len() == 0,
            shown(self.deck_view_entries(), id, <Deck as Aggregate>::spec_initial()) == (
                self.deck_state(id),
                self.deck_log(id).len() as u64,
            ),
            shown(self.session_view_entries(), id, <LearningSession as Aggregate>::spec_initial()) == (
                self.session_state(id),
                self.session_log(id).len() as u64,
            ),
    {
    }

    /// The log of deck `id`.
    pub closed spec fn deck_log(&self, id: Seq<char>) -> Seq<EventEnvelope<DeckEvent>> {
        self.decks.log(id)
    }

    /// The log of learning session `id`.
    pub closed spec fn session_log(&self, id: Seq<char>) -> Seq<EventEnvelope<LearningSessionEvent>> {
        self.sessions.log(id)
    }

    /// The state of deck `id`, replayed from its log.
    pub closed spec fn deck_state(&self, id: Seq<char>) -> crate::deck::DeckModel {
        self.decks.state(id)
    }

    /// The state of learning session `id`, replayed from its log.
    pub closed spec fn session_state(&self, id: Seq<char>) -> crate::learning_session::LearningSessionModel {
        self.sessions.state(id)
    }

    /// The ids of the flashcards of deck view `deck_id` that have a learning state, in the
    /// deck's order.
    pub open spec fn cards_of(&self, deck_id: Seq<char>) -> Seq<Seq<char>> {
        reviewable_ids(
            self.deck_view_entries()[deck_id].0.flashcards.map_values(|e: (Seq<char>, crate::deck::FlashcardModel)| e.0),
            self.card_state_entries(),
        )
    }

    /// The deck views, by deck id, with their versions.
    pub closed spec fn deck_view_entries(&self) -> Map<Seq<char>, (crate::deck::DeckModel, u64)> {
        self.read.first.entries()
    }

    /// The learning session views, by session id, with their versions.
    pub closed spec fn session_view_entries(&self) -> Map<Seq<char>, (crate::learning_session::LearningSessionModel, u64)> {
        self.read.second@.0.0
    }

    /// The learning states of cards, by flashcard id, with their versions.
    pub closed spec fn card_state_entries(&self) -> Map<Seq<char>, (crate::reviewable_card::ReviewableCardModel, u64)> {
        self.read.second@.1
    }

    /// No deck, no session, no view.
    pub fn new() -> (r: Self)
        ensures
            r.wf(),
            forall|id: Seq<char>| #[trigger] r.deck_log(id).len() == 0,
            forall|id: Seq<char>| #[trigger] r.session_log(id).len() == 0,
            forall|id: Seq<char>| #[trigger] r.deck_state(id) == <Deck as Aggregate>::spec_initial(),
            forall|id: Seq<char>| #[trigger] r.session_state(id) == <LearningSession as Aggregate>::spec_initial(),
            r.deck_view_entries().is_empty(),
            r.session_view_entries().is_empty(),
            r.card_state_entries().is_empty(),
    {
        let r = Application {
            decks: CqrsFramework::new(),
            sessions: CqrsFramework::new(),
            read: Both { first: Projector::for_individual(ViewStore::new()), second: LearningReadModels::new() },
        };
        proof {
            assert forall|id: Seq<char>| #[trigger] r.deck_state(id) == <Deck as Aggregate>::spec_initial() by {
                assert(payloads(r.deck_log(id)) =~= Seq::<DeckEvent>::empty());
            }
            assert forall|id: Seq<char>| #[trigger] r.session_state(id) == <LearningSession as Aggregate>::spec_initial() by {
                assert(payloads(r.session_log(id)) =~= Seq::<LearningSessionEvent>::empty());
            }
        }
        r
    }

    /// The deck views.
    pub fn deck_views(&self) -> (r: &ViewStore<Deck>)
        ensures
            r.entries() == self.deck_view_entries(),
    {
        self.read.first.store()
    }

    /// The learning session views.
    pub fn session_views(&self) -> (r: &ViewStore<LearningSession>)
        ensures
            r.entries() == self.session_view_entries(),
    {
        self.read.second.sessions().store()
    }

    /// The learning states of cards.
    pub fn card_states(&self) -> (r: &ViewStore<ReviewableCard>)
        ensures
            r.entries() == self.card_state_entries(),
    {
        self.read.second.reviewable_cards()
    }

    /// The events of learning session `id`, oldest first.
    pub fn session_events(&self, id: &str) -> (r: &[EventEnvelope<LearningSessionEvent>])
        ensures
            r@ == self.session_log(id@),
    {
        self.sessions.events(id)
    }

    /// The events of deck `id`, oldest first.
    pub fn deck_events(&self, id: &str) -> (r: &[EventEnvelope<DeckEvent>])
        ensures
            r@ == self.deck_log(id@),
    {
        self.decks.events(id)
    }

    fn execute_deck(&mut self, id: &str, command: DeckCommand) -> (r: Result<(), AggregateError<DeckError>>)
        requires
            old(self).wf(),
        ensures
            final(self).wf(),
            forall|other: Seq<char>| other != id@ ==> #[trigger] final(self).deck_log(other) == old(self).deck_log(other),
            forall|s: Seq<char>| #[trigger] final(self).session_log(s) == old(self).session_log(s),
            match r {
                Ok(()) => {
                    let events = crate::event_store::added_events(old(self).deck_log(id@), final(self).deck_log(id@));
                    &&& <Deck as Aggregate>::spec_handle(old(self).deck_state(id@), command, Ok(events))
                    &&& crate::event_store::appended(old(self).deck_log(id@), final(self).deck_log(id@), events)
                },
                Err(AggregateError::UserError(e)) => {
                    &&& <Deck as Aggregate>::spec_handle(old(self).deck_state(id@), command, Err(e))
                    &&& final(self).deck_log(id@) == old(self).deck_log(id@)
                },
                Err(AggregateError::PersistenceError) => exists|events: Seq<DeckEvent>|
                    {
                        &&& <Deck as Aggregate>::spec_handle(old(self).deck_state(id@), command, Ok(events))
                        &&& old(self).deck_log(id@).len() + events.len() > usize::MAX
                        &&& final(self).deck_log(id@) == old(self).deck_log(id@)
                    },
                Err(AggregateError::AggregateConflict) => false,
            },
    {
        let r = self.decks.execute_with(id, command, &mut self.read);
        proof {
            assert(old(self).deck_log(id@) == old(self).decks.log(id@));
            assert(self.deck_log(id@) == self.decks.log(id@));
            assert(old(self).deck_state(id@) == old(self).decks.state(id@));
            assert forall|v: crate::deck::DeckModel, e: EventEnvelope<DeckEvent>|
                #[trigger] <Deck as ReadModel<Deck>>::spec_update(v, e) == <Deck as Aggregate>::spec_apply(v, e.payload) by {}
            let before = old(self).deck_log(id@);
            let after = self.deck_log(id@);
            assert(usize::MAX <= u64::MAX);
            assert(old(self).deck_log(id@).len() <= usize::MAX);
            assert forall|k: Seq<char>|
                #[trigger] shown(self.deck_view_entries(), k, <Deck as Aggregate>::spec_initial()) == (
                    self.deck_state(k),
                    self.deck_log(k).len() as u64,
                ) by {
                assert(shown(old(self).deck_view_entries(), k, <Deck as Aggregate>::spec_initial()) == (
                    old(self).deck_state(k),
                    old(self).deck_log(k).len() as u64,
                ));
                if r is Ok && k == id@ && before.len() < after.len() {
                    lemma_own_view_tracks_log::<Deck>(old(self).deck_view_entries(), k, before, after);
                } else if r is Ok && k == id@ {
                    assert(after =~= before);
                }
            }
            assert forall|k: Seq<char>|
                #[trigger] shown(self.session_view_entries(), k, <LearningSession as Aggregate>::spec_initial()) == (
                    self.session_state(k),
                    self.session_log(k).len() as u64,
                ) by {
                assert(shown(old(self).session_view_entries(), k, <LearningSession as Aggregate>::spec_initial()) == (
                    old(self).session_state(k),
                    old(self).session_log(k).len() as u64,
                ));
            }
            assert forall|k: Seq<char>|
                #[trigger] self.session_state(k).status == SessionStatus::NotStarted implies self.session_log(k).len() == 0 by {
                assert(old(self).session_state(k).status == SessionStatus::NotStarted ==> old(self).session_log(k).len() == 0);
            }
            assert(self.read.first.collection_id() == None::<Seq<char>>);
            assert(self.read.second@.0.1 == None::<Seq<char>>);
            assert forall|k: Seq<char>| #[trigger] self.deck_log(k).len() <= usize::MAX by {
                assert(old(self).deck_log(k).len() <= usize::MAX);
                assert(self.deck_log(k) == self.decks.log(k));
                assert(old(self).deck_log(k) == old(self).decks.log(k));
            }
            assert forall|k: Seq<char>| #[trigger] self.session_log(k).len() <= usize::MAX by {
                assert(old(self).session_log(k).len() <= usize::MAX);
                assert(self.session_log(k) == self.sessions.log(k));
                assert(old(self).session_log(k) == old(self).sessions.log(k));
            }
        }
        r
    }

    fn execute_session(&mut self, id: &str, command: LearningSessionCommand) -> (r: Result<(), AggregateError<LearningSessionError>>)
        requires
            old(self).wf(),
        ensures
            final(self).wf(),
            forall|other: Seq<char>| other != id@ ==> #[trigger] final(self).session_log(other) == old(self).session_log(other),
            forall|d: Seq<char>| #[trigger] final(self).deck_log(d) == old(self).deck_log(d),
            match r {
                Ok(()) => {
                    let events = crate::event_store::added_events(old(self).session_log(id@), final(self).session_log(id@));
                    &&& <LearningSession as Aggregate>::spec_handle(old(self).session_state(id@), command, Ok(events))
                    &&& crate::event_store::appended(old(self).session_log(id@), final(self).session_log(id@), events)
                },
                Err(AggregateError::UserError(e)) => {
                    &&& <LearningSession as Aggregate>::spec_handle(old(self).session_state(id@), command, Err(e))
                    &&& final(self).session_log(id@) == old(self).session_log(id@)
                },
                Err(AggregateError::PersistenceError) => exists|events: Seq<LearningSessionEvent>|
                    {
                        &&& <LearningSession as Aggregate>::spec_handle(old(self).session_state(id@), command, Ok(events))
                        &&& old(self).session_log(id@).len() + events.len() > usize::MAX
                        &&& final(self).session_log(id@) == old(self).session_log(id@)
                    },
                Err(AggregateError::AggregateConflict) => false,
            },
    {
        let ghost cmd = command;
        let r = self.sessions.execute_with(id, command, &mut self.read.second);
        proof {
            assert forall|k: Seq<char>|
                #[trigger] self.session_state(k).status == SessionStatus::NotStarted implies self.session_log(k).len() == 0 by {
                assert(self.session_state(k) == self.sessions.state(k));
                assert(old(self).session_state(k) == old(self).sessions.state(k));
                assert(self.session_log(k) == self.sessions.log(k));
                assert(old(self).session_log(k) == old(self).sessions.log(k));
                if r is Ok && k == id@ {
                    let events = crate::event_store::added_events(old(self).session_log(k), self.session_log(k));
                    crate::learning_session::lemma_accepted_commands_start_session(old(self).session_state(k), cmd, events);
                    crate::engine::lemma_replay_appended::<LearningSession>(old(self).session_log(k), self.session_log(k), events);
                } else {
                    assert(old(self).session_state(k).status == SessionStatus::NotStarted ==> old(self).session_log(k).len() == 0);
                }
            }
            assert(old(self).session_log(id@) == old(self).sessions.log(id@));
            assert(self.session_log(id@) == self.sessions.log(id@));
            assert(old(self).session_state(id@) == old(self).sessions.state(id@));
            assert forall|v: crate::learning_session::LearningSessionModel, e: EventEnvelope<LearningSessionEvent>|
                #[trigger] <LearningSession as ReadModel<LearningSession>>::spec_update(v, e)
                    == <LearningSession as Aggregate>::spec_apply(v, e.payload) by {}
            let before = old(self).session_log(id@);
            let after = self.session_log(id@);
            assert(usize::MAX <= u64::MAX);
            assert(old(self).session_log(id@).len() <= usize::MAX);
            assert forall|k: Seq<char>|
                #[trigger] shown(self.session_view_entries(), k, <LearningSession as Aggregate>::spec_initial()) == (
                    self.session_state(k),
                    self.session_log(k).len() as u64,
                ) by {
                assert(shown(old(self).session_view_entries(), k, <LearningSession as Aggregate>::spec_initial()) == (
                    old(self).session_state(k),
                    old(self).session_log(k).len() as u64,
                ));
                if r is Ok && k == id@ && before.len() < after.len() {
                    lemma_own_view_tracks_log::<LearningSession>(old(self).session_view_entries(), k, before, after);
                } else if r is Ok && k == id@ {
                    assert(after =~= before);
                }
            }
            assert forall|k: Seq<char>|
                #[trigger] shown(self.deck_view_entries(), k, <Deck as Aggregate>::spec_initial()) == (
                    self.deck_state(k),
                    self.deck_log(k).len() as u64,
                ) by {
                assert(shown(old(self).deck_view_entries(), k, <Deck as Aggregate>::spec_initial()) == (
                    old(self).deck_state(k),
                    old(self).deck_log(k).len() as u64,
                ));
            }
            assert(self.read.first.collection_id() == None::<Seq<char>>);
            assert(self.read.second@.0.1 == None::<Seq<char>>);
            assert forall|k: Seq<char>| #[trigger] self.deck_log(k).len() <= usize::MAX by {
                assert(old(self).deck_log(k).len() <= usize::MAX);
                assert(self.deck_log(k) == self.decks.log(k));
                assert(old(self).deck_log(k) == old(self).decks.log(k));
            }
            assert forall|k: Seq<char>| #[trigger] self.session_log(k).len() <= usize::MAX by {
                assert(old(self).session_log(k).len() <= usize::MAX);
                assert(self.session_log(k) == self.sessions.log(k));
                assert(old(self).session_log(k) == old(self).sessions.log(k));
            }
        }
        r
    }

    /// Creates a deck named `name` under `deck_id`, or under a new random id when none is given,
    /// and returns its id.
    pub fn create_new_deck(&mut self, deck_id: Option<String>, name: String) -> (r: Result<String, String>)
        requires
            old(self).wf(),
        ensures
            final(self).wf(),
            forall|s: Seq<char>| #[trigger] final(self).session_log(s) == old(self).session_log(s),
            match r {
                Ok(id) => {
                    &&& deck_id matches Some(d) ==> id@ == d@
                    &&& deck_id is None ==> id@.len() == 36
                    &&& old(self).deck_state(id@).id.len() == 0
                    &&& crate::event_store::appended(
                        old(self).deck_log(id@),
                        final(self).deck_log(id@),
                        seq![DeckEvent::DeckCreated { id, name }],
                    )
                    &&& forall|other: Seq<char>| other != id@ ==> #[trigger] final(self).deck_log(other) == old(self).deck_log(other)
                    &&& final(self).deck_state(id@).id == id@
                    &&& final(self).deck_state(id@).name == name@
                    &&& final(self).deck_state(id@).flashcards == old(self).deck_state(id@).flashcards
                },
                Err(_) => forall|d: Seq<char>| #[trigger] final(self).deck_log(d) == old(self).deck_log(d),
            },
            deck_id matches Some(d) && old(self).deck_state(d@).id.len() == 0 && old(self).deck_log(d@).len() < usize::MAX
                ==> r is Ok,
            deck_id matches Some(d) && old(self).deck_state(d@).id.len() > 0 ==> (r matches Err(t) && t@
                == "Invalid deck name provided."@),
    {
        let id = match deck_id {
            Some(d) => d,
            None => new_id(),
        };
        let ghost name_value = name;
        let command = DeckCommand::CreateDeck { id: id.clone(), name };
        match self.execute_deck(id.as_str(), command) {
            Ok(()) => {
                proof {
                    let events = seq![DeckEvent::DeckCreated { id, name: name_value }];
                    let st = old(self).deck_state(id@);
                    crate::engine::lemma_replay_appended::<Deck>(old(self).deck_log(id@), self.deck_log(id@), events);
                    assert(events.drop_last() =~= Seq::<DeckEvent>::empty());
                    assert(crate::engine::fold_events::<Deck>(st, events.drop_last()) == st);
                    assert(self.deck_state(id@) == <Deck as Aggregate>::spec_apply(st, events.last()));
                }
                Ok(id)
            },
            Err(e) => Err(deck_failure(e)),
        }
    }

    /// Adds a flashcard with the four texts to deck `deck_id`; the deck chooses its id.
    pub fn add_flashcard_to_deck(
        &mut self,
        deck_id: &str,
        dutch: String,
        mandarin: String,
        pinyin: String,
        english: String,
    ) -> (r: Result<(), String>)
        requires
            old(self).wf(),
        ensures
            final(self).wf(),
            forall|s: Seq<char>| #[trigger] final(self).session_log(s) == old(self).session_log(s),
            forall|other: Seq<char>| other != deck_id@ ==> #[trigger] final(self).deck_log(other) == old(self).deck_log(other),
            match r {
                Ok(()) => exists|id: String|
                    {
                        &&& id@.len() == 36
                        &&& old(self).deck_state(deck_id@).id.len() > 0
                        &&& crate::event_store::appended(
                            old(self).deck_log(deck_id@),
                            final(self).deck_log(deck_id@),
                            seq![DeckEvent::FlashcardAdded(crate::deck::FlashcardDto { id, dutch, mandarin, pinyin, english })],
                        )
                        &&& final(self).deck_state(deck_id@) == crate::deck::DeckModel {
                            flashcards: crate::deck::entries_insert(
                                old(self).deck_state(deck_id@).flashcards,
                                id@,
                                crate::deck::FlashcardModel { id: id@, dutch: dutch@, mandarin: mandarin@, pinyin: pinyin@, english: english@ },
                            ),
                            ..old(self).deck_state(deck_id@)
                        }
                    },
                Err(text) => {
                    &&& final(self).deck_log(deck_id@) == old(self).deck_log(deck_id@)
                    &&& old(self).deck_state(deck_id@).id.len() == 0 ==> text@ == "Deck not found."@
                },
            },
            old(self).deck_state(deck_id@).id.len() > 0 && old(self).deck_log(deck_id@).len() < usize::MAX ==> r is Ok,
    {
        let ghost texts = (dutch, mandarin, pinyin, english);
        let command = DeckCommand::AddFlashcard { dutch, mandarin, pinyin, english };
        match self.execute_deck(deck_id, command) {
            Ok(()) => {
                proof {
                    let events = crate::event_store::added_events(old(self).deck_log(deck_id@), self.deck_log(deck_id@));
                    crate::engine::lemma_replay_appended::<Deck>(old(self).deck_log(deck_id@), self.deck_log(deck_id@), events);
                    assert(events.drop_last() =~= Seq::<DeckEvent>::empty());
                    let new_id = choose|new_id: String|
                        new_id@.len() == 36 && Ok::<Seq<DeckEvent>, DeckError>(events) == crate::deck::deck_decision(old(self).deck_state(deck_id@), command, new_id);
                    let dto = crate::deck::FlashcardDto { id: new_id, dutch: texts.0, mandarin: texts.1, pinyin: texts.2, english: texts.3 };
                    assert(events == seq![DeckEvent::FlashcardAdded(dto)]);
                    let st = old(self).deck_state(deck_id@);
                    assert(crate::engine::fold_events::<Deck>(st, events.drop_last()) == st);
                    assert(self.deck_state(deck_id@) == <Deck as Aggregate>::spec_apply(st, events.last()));
                }
                Ok(())
            },
            Err(e) => Err(deck_failure(e)),
        }
    }

    /// Starts a learning session over the cards of deck `deck_id` that have a learning state,
    /// under a new random id, and returns that id.
    pub fn start_session_for_deck(&mut self, deck_id: &str, question_language: Language, answer_language: Language) -> (r:
        Result<String, String>)
        requires
            old(self).wf(),
        ensures
            final(self).wf(),
            forall|d: Seq<char>| #[trigger] final(self).deck_log(d) == old(self).deck_log(d),
            !old(self).deck_view_entries().contains_key(deck_id@) ==> (r matches Err(t) && t@ == "Deck not found"@),
            old(self).deck_view_entries().contains_key(deck_id@) && old(self).cards_of(deck_id@).len() == 0 ==> (r matches Err(
                t,
            ) && t@ == "This deck has no cards to review."@),
            match r {
                Ok(id) => id@.len() == 36 && session_started(*old(self), *final(self), deck_id@, question_language, answer_language, id@),
                Err(_) => forall|s: Seq<char>| #[trigger] final(self).session_log(s) == old(self).session_log(s),
            },
            old(self).deck_view_entries().contains_key(deck_id@) && old(self).cards_of(deck_id@).len() > 0 && r is Err
                ==> exists|drawn: Seq<char>|
                {
                    &&& drawn.len() == 36
                    &&& (old(self).session_state(drawn).status != crate::value_objects::SessionStatus::NotStarted
                        || old(self).session_log(drawn).len() + 2 > usize::MAX)
                },
    {
        let session_id = new_id();
        self.start_session_with_id(session_id, deck_id, question_language, answer_language)
    }

    /// Starts a learning session with id `session_id` over the cards of deck `deck_id` that
    /// have a learning state, and returns the session's id.
    pub fn start_session_with_id(
        &mut self,
        session_id: String,
        deck_id: &str,
        question_language: Language,
        answer_language: Language,
    ) -> (r: Result<String, String>)
        requires
            old(self).wf(),
        ensures
            final(self).wf(),
            forall|d: Seq<char>| #[trigger] final(self).deck_log(d) == old(self).deck_log(d),
            !old(self).deck_view_entries().contains_key(deck_id@) ==> (r matches Err(t) && t@ == "Deck not found"@),
            old(self).deck_view_entries().contains_key(deck_id@) && old(self).cards_of(deck_id@).len() == 0 ==> (r matches Err(
                t,
            ) && t@ == "This deck has no cards to review."@),
            match r {
                Ok(id) => id@ == session_id@ && session_started(*old(self), *final(self), deck_id@, question_language, answer_language, id@),
                Err(_) => forall|s: Seq<char>| #[trigger] final(self).session_log(s) == old(self).session_log(s),
            },
            ({
                &&& old(self).deck_view_entries().contains_key(deck_id@)
                &&& old(self).cards_of(deck_id@).len() > 0
                &&& old(self).session_state(session_id@).status == crate::value_objects::SessionStatus::NotStarted
                &&& old(self).session_log(session_id@).len() + 2 <= usize::MAX
            }) ==> r is Ok,
    {
        let deck = match self.read.first.store().load(deck_id) {
            Some(d) => d,
            None => { return Err("Deck not found".to_owned()); },
        };
        let cards_to_review = select_cards_to_review(deck, self.read.second.reviewable_cards());
        if cards_to_review.len() == 0 {
            return Err("This deck has no cards to review.".to_owned());
        }
        let command = LearningSessionCommand::StartSession {
            session_id: session_id.clone(),
            deck_id: deck_id.to_owned(),
            cards_to_review,
            question_language,
            answer_language,
        };
        match self.execute_session(session_id.as_str(), command) {
            Ok(()) => {
                proof {
                    crate::engine::lemma_replay_appended::<LearningSession>(
                        old(self).session_log(session_id@),
                        self.session_log(session_id@),
                        crate::event_store::added_events(old(self).session_log(session_id@), self.session_log(session_id@)),
                    );
                }
                Ok(session_id)
            },
            Err(e) => Err(session_failure(e)),
        }
    }

    /// Answers the card that learning session `session_id` presents, with `rating`.
    pub fn answer_current_card(&mut self, session_id: &str, rating: rs_fsrs::Rating) -> (r: Result<(), String>)
        requires
            old(self).wf(),
        ensures
            final(self).wf(),
            forall|d: Seq<char>| #[trigger] final(self).deck_log(d) == old(self).deck_log(d),
            forall|other: Seq<char>| other != session_id@ ==> #[trigger] final(self).session_log(other) == old(self).session_log(other),
            !old(self).session_view_entries().contains_key(session_id@) ==> (r matches Err(t) && t@ == "Learning session not found"@),
            old(self).session_view_entries().contains_key(session_id@) && old(self).session_view_entries()[session_id@].0.current_card_id is None
                ==> (r matches Err(t) && t@ == "No current card in session to answer"@),
            ({
                &&& old(self).session_view_entries().contains_key(session_id@)
                &&& old(self).session_view_entries()[session_id@].0.current_card_id matches Some(c)
                &&& !old(self).card_state_entries().contains_key(c)
            }) ==> (r matches Err(t) && t@ == "Reviewable card data not found"@),
            ({
                &&& old(self).session_state(session_id@).id.len() > 0
                &&& old(self).session_state(session_id@).status == crate::value_objects::SessionStatus::InProgress
                &&& old(self).session_state(session_id@).current_card_id is Some
                &&& old(self).card_state_entries().contains_key(old(self).session_state(session_id@).current_card_id->0)
                &&& crate::learning_session::can_record_review(
                    old(self).card_state_entries()[old(self).session_state(session_id@).current_card_id->0].0.fsrs_card,
                )
                &&& old(self).session_log(session_id@).len() + 2 <= usize::MAX
            }) ==> r is Ok,
            match r {
                Ok(()) => exists|events: Seq<LearningSessionEvent>|
                    {
                        &&& crate::learning_session::is_answer_of(old(self).session_state(session_id@), rating, events)
                        &&& crate::event_store::appended(
                            old(self).session_log(session_id@),
                            final(self).session_log(session_id@),
                            events,
                        )
                        &&& final(self).session_state(session_id@) == crate::engine::fold_events::<LearningSession>(
                            old(self).session_state(session_id@),
                            events,
                        )
                    },
                Err(_) => final(self).session_log(session_id@) == old(self).session_log(session_id@),
            },
    {
        proof {
            self.lemma_views_track_logs(session_id@);
        }
        let card_id = match self.read.second.sessions().store().load(session_id) {
            Some(view) => match &view.current_card_id {
                Some(c) => c.clone(),
                None => { return Err("No current card in session to answer".to_owned()); },
            },
            None => { return Err("Learning session not found".to_owned()); },
        };
        let card = match self.read.second.reviewable_cards().load(card_id.as_str()) {
            Some(c) => c.fsrs_card.clone(),
            None => { return Err("Reviewable card data not found".to_owned()); },
        };
        let command = LearningSessionCommand::AnswerCard { rating, card_before_review: card };
        match self.execute_session(session_id, command) {
            Ok(()) => {
                proof {
                    crate::engine::lemma_replay_appended::<LearningSession>(
                        old(self).session_log(session_id@),
                        self.session_log(session_id@),
                        crate::event_store::added_events(old(self).session_log(session_id@), self.session_log(session_id@)),
                    );
                }
                Ok(())
            },
            Err(e) => Err(session_failure(e)),
        }
    }
}

} // verus!
