use vstd::prelude::*;
use crate::aggregate::Aggregate;
use crate::event_store::EventEnvelope;
use crate::views::ReadModel;

verus! {

/// A stand-alone flashcard with one question and one answer.
pub struct Flashcard {
    pub id: String,
    pub question: String,
    pub answer: String,
}

pub struct FlashcardState {
    pub id: Seq<char>,
    pub question: Seq<char>,
    pub answer: Seq<char>,
}

impl View for Flashcard {
    type V = FlashcardState;

    open spec fn view(&self) -> FlashcardState {
        FlashcardState { id: self.id@, question: self.question@, answer: self.answer@ }
    }
}

pub enum FlashcardCommand {
    CreateFlashcard { id: String, question: String, answer: String },
    DeleteFlashcard { id: String },
}

pub enum FlashcardEvent {
    FlashcardCreated { id: String, question: String, answer: String },
    FlashcardDeleted { id: String },
}

#[derive(Debug, PartialEq, Eq, Structural)]
pub enum FlashcardError {
    /// The flashcard was created before.
    FlashcardAlreadyExists,
    /// The flashcard was never created.
    FlashcardNotFound,
}

impl FlashcardEvent {
    /// The name of the event's variant.
    pub fn event_type(&self) -> (r: String)
        ensures
            r@ == match self {
                FlashcardEvent::FlashcardCreated { .. } => "FlashcardCreated"@,
                FlashcardEvent::FlashcardDeleted { .. } => "FlashcardDeleted"@,
            },
    {
        match self {
            FlashcardEvent::FlashcardCreated { .. } => "FlashcardCreated".to_owned(),
            FlashcardEvent::FlashcardDeleted { .. } => "FlashcardDeleted".to_owned(),
        }
    }

    /// The schema version of the event's payload.
    pub fn event_version(&self) -> (r: String)
        ensures
            r@ == "1"@,
    {
        "1".to_owned()
    }
}

impl Aggregate for Flashcard {
    type Command = FlashcardCommand;
    type Event = FlashcardEvent;
    type Error = FlashcardError;

    open spec fn spec_aggregate_type() -> Seq<char> {
        "flashcard"@
    }

    fn aggregate_type() -> (r: String) {
        "flashcard".to_owned()
    }

    open spec fn spec_initial() -> FlashcardState {
        FlashcardState { id: Seq::empty(), question: Seq::empty(), answer: Seq::empty() }
    }

    /// Deleting keeps the id and empties both texts.
    open spec fn spec_apply(state: FlashcardState, event: FlashcardEvent) -> FlashcardState {
        match event {
            FlashcardEvent::FlashcardCreated { id, question, answer } => FlashcardState {
                id: id@,
                question: question@,
                answer: answer@,
            },
            FlashcardEvent::FlashcardDeleted { id } => FlashcardState {
                id: id@,
                question: Seq::empty(),
                answer: Seq::empty(),
            },
        }
    }

    open spec fn spec_handle(
        state: FlashcardState,
        command: FlashcardCommand,
        result: Result<Seq<FlashcardEvent>, FlashcardError>,
    ) -> bool {
        let created = state.id.len() > 0;
        result == match command {
            FlashcardCommand::CreateFlashcard { id, question, answer } => if created {
                Err(FlashcardError::FlashcardAlreadyExists)
            } else {
                Ok(seq![FlashcardEvent::FlashcardCreated { id, question, answer }])
            },
            FlashcardCommand::DeleteFlashcard { id } => if !created {
                Err(FlashcardError::FlashcardNotFound)
            } else {
                Ok(seq![FlashcardEvent::FlashcardDeleted { id }])
            },
        }
    }

    fn initial() -> (r: Self) {
        Flashcard { id: String::new(), question: String::new(), answer: String::new() }
    }

    fn apply(&mut self, event: &FlashcardEvent) {
        match event {
            FlashcardEvent::FlashcardCreated { id, question, answer } => {
                self.id = id.clone();
                self.question = question.clone();
                self.answer = answer.clone();
            },
            FlashcardEvent::FlashcardDeleted { id } => {
                self.id = id.clone();
                self.question = String::new();
                self.answer = String::new();
            },
        }
    }

    fn handle(&self, command: FlashcardCommand) -> (r: Result<Vec<FlashcardEvent>, FlashcardError>) {
        let created = !self.id.as_str().is_empty();
        let event = match command {
            FlashcardCommand::CreateFlashcard { id, question, answer } => {
                if created {
                    return Err(FlashcardError::FlashcardAlreadyExists);
                }
                FlashcardEvent::FlashcardCreated { id, question, answer }
            },
            FlashcardCommand::DeleteFlashcard { id } => {
                if !created {
                    return Err(FlashcardError::FlashcardNotFound);
                }
                FlashcardEvent::FlashcardDeleted { id }
            },
        };
        let events = vec![event];
        assert(events@ =~= seq![event]);
        Ok(events)
    }
}

/// As a read model, the aggregate folds its own events.
impl ReadModel<Flashcard> for Flashcard {
    open spec fn spec_default() -> FlashcardState {
        <Flashcard as Aggregate>::spec_initial()
    }

    open spec fn spec_update(view: FlashcardState, event: EventEnvelope<<Flashcard as Aggregate>::Event>) -> FlashcardState {
        <Flashcard as Aggregate>::spec_apply(view, event.payload)
    }

    fn default_view() -> (r: Self) {
        <Flashcard as Aggregate>::initial()
    }

    fn update(&mut self, event: &EventEnvelope<<Flashcard as Aggregate>::Event>) {
        self.apply(&event.payload);
    }
}

} // verus!
