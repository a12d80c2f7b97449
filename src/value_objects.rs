use vstd::prelude::*;

verus! {

/// A language, or text representation, in which a flashcard can be shown.
#[derive(Clone, Copy, Debug, PartialEq, Eq, Hash, Structural)]
pub enum Language {
    Dutch,
    Mandarin,
    Pinyin,
    English,
}

/// The user's own judgement of an answer.
#[derive(Clone, Copy, Debug, PartialEq, Eq, Structural)]
pub enum AnswerQuality {
    Again,
    Hard,
    Good,
    Easy,
}

/// Where a learning session stands.
#[derive(Clone, Copy, Debug, PartialEq, Eq, Structural)]
pub enum SessionStatus {
    NotStarted,
    InProgress,
    Completed,
}

impl Default for SessionStatus {
    /// The status of a session that nothing has happened to yet.
    fn default() -> (r: SessionStatus)
        ensures
            r == SessionStatus::NotStarted,
    {
        SessionStatus::NotStarted
    }
}

} // verus!
