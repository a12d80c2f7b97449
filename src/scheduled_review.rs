use vstd::prelude::*;
use crate::aggregate::Aggregate;
use crate::event_store::EventEnvelope;
use crate::views::ReadModel;

verus! {

/// The scheduling entity that the learning domain keeps for one flashcard.
pub struct ScheduledReview {
    pub id: String,
    pub question: String,
    pub answer: String,
}

pub struct ScheduledReviewModel {
    pub id: Seq<char>,
    pub question: Seq<char>,
    pub answer: Seq<char>,
}

impl View for ScheduledReview {
    type V = ScheduledReviewModel;

    open spec fn view(&self) -> ScheduledReviewModel {
        ScheduledReviewModel { id: self.id@, question: self.question@, answer: self.answer@ }
    }
}

pub enum ScheduledReviewCommand {
    CreateScheduledReview { id: String },
    DeleteScheduledReview { id: String },
}

pub enum ScheduledReviewEvent {
    ScheduledReviewCreated { id: String },
    ScheduledReviewDeleted { id: String },
}

#[derive(Debug, PartialEq, Eq, Structural)]
pub enum ScheduledReviewError {
    /// The scheduled review was created before.
    ScheduledReviewAlreadyExists,
    /// The scheduled review was never created.
    ScheduledReviewNotFound,
}

impl ScheduledReviewEvent {
    /// The name of the event's variant.
    pub fn event_type(&self) -> (r: String)
        ensures
            r@ == match self {
                ScheduledReviewEvent::ScheduledReviewCreated { .. } => "ScheduledReviewCreated"@,
                ScheduledReviewEvent::ScheduledReviewDeleted { .. } => "ScheduledReviewDeleted"@,
            },
    {
        match self {
            ScheduledReviewEvent::ScheduledReviewCreated { .. } => "ScheduledReviewCreated".to_owned(),
            ScheduledReviewEvent::ScheduledReviewDeleted { .. } => "ScheduledReviewDeleted".to_owned(),
        }
    }

    /// The schema version of the event's payload.
    pub fn event_version(&self) -> (r: String)
        ensures
            r@ == "1"@,
    {
        "1".to_owned()
    }
}

impl Aggregate for ScheduledReview {
    type Command = ScheduledReviewCommand;
    type Event = ScheduledReviewEvent;
    type Error = ScheduledReviewError;

    open spec fn spec_aggregate_type() -> Seq<char> {
        "scheduled_review"@
    }

    fn aggregate_type() -> (r: String) {
        "scheduled_review".to_owned()
    }

    open spec fn spec_initial() -> ScheduledReviewModel {
        ScheduledReviewModel { id: Seq::empty(), question: Seq::empty(), answer: Seq::empty() }
    }

    open spec fn spec_apply(state: ScheduledReviewModel, event: ScheduledReviewEvent) -> ScheduledReviewModel {
        match event {
            ScheduledReviewEvent::ScheduledReviewCreated { id } => ScheduledReviewModel { id: id@, ..state },
            ScheduledReviewEvent::ScheduledReviewDeleted { id } => ScheduledReviewModel { id: id@, ..state },
        }
    }

    open spec fn spec_handle(
        state: ScheduledReviewModel,
        command: ScheduledReviewCommand,
        result: Result<Seq<ScheduledReviewEvent>, ScheduledReviewError>,
    ) -> bool {
        let created = state.id.len() > 0;
        result == match command {
            ScheduledReviewCommand::CreateScheduledReview { id } => if created {
                Err(ScheduledReviewError::ScheduledReviewAlreadyExists)
            } else {
                Ok(seq![ScheduledReviewEvent::ScheduledReviewCreated { id }])
            },
            ScheduledReviewCommand::DeleteScheduledReview { id } => if !created {
                Err(ScheduledReviewError::ScheduledReviewNotFound)
            } else {
                Ok(seq![ScheduledReviewEvent::ScheduledReviewDeleted { id }])
            },
        }
    }

    fn initial() -> (r: Self) {
        ScheduledReview { id: String::new(), question: String::new(), answer: String::new() }
    }

    fn apply(&mut self, event: &ScheduledReviewEvent) {
        match event {
            ScheduledReviewEvent::ScheduledReviewCreated { id } => { self.id = id.clone(); },
            ScheduledReviewEvent::ScheduledReviewDeleted { id } => { self.id = id.clone(); },
        }
    }

    fn handle(&self, command: ScheduledReviewCommand) -> (r: Result<Vec<ScheduledReviewEvent>, ScheduledReviewError>) {
        let created = !self.id.as_str().is_empty();
        let event = match command {
            ScheduledReviewCommand::CreateScheduledReview { id } => {
                if created {
                    return Err(ScheduledReviewError::ScheduledReviewAlreadyExists);
                }
                ScheduledReviewEvent::ScheduledReviewCreated { id }
            },
            ScheduledReviewCommand::DeleteScheduledReview { id } => {
                if !created {
                    return Err(ScheduledReviewError::ScheduledReviewNotFound);
                }
                ScheduledReviewEvent::ScheduledReviewDeleted { id }
            },
        };
        let events = vec![event];
        assert(events@ =~= seq![event]);
        Ok(events)
    }
}

/// As a read model, the aggregate folds its own events.
impl ReadModel<ScheduledReview> for ScheduledReview {
    open spec fn spec_default() -> ScheduledReviewModel {
        <ScheduledReview as Aggregate>::spec_initial()
    }

    open spec fn spec_update(view: ScheduledReviewModel, event: EventEnvelope<<ScheduledReview as Aggregate>::Event>) -> ScheduledReviewModel {
        <ScheduledReview as Aggregate>::spec_apply(view, event.payload)
    }

    fn default_view() -> (r: Self) {
        <ScheduledReview as Aggregate>::initial()
    }

    fn update(&mut self, event: &EventEnvelope<<ScheduledReview as Aggregate>::Event>) {
        self.apply(&event.payload);
    }
}

} // verus!
