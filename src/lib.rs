// An event-sourced model of a spaced-repetition flashcard application.
//
// The engine: `aggregate` is what an aggregate implements, `event_store` keeps one
// append-only log per aggregate with optimistic appends, and `engine` replays logs, carries
// out commands and hands committed events on. The read side: `views` holds read models, the
// view store and projectors; `keyed` is the string-keyed map under them. The domains: `deck`,
// `flashcard`, `learning_session`, `scheduled_review`, `reviewable_card` and
// `value_objects`; `acl` carries deck events into the learning domain. Outside services:
// `scheduling` (the spaced-repetition scheduler) and `ids` (random ids). `application` wires
// both domains together with their read models.

pub mod aggregate;
pub mod event_store;
pub mod engine;
pub mod keyed;
pub mod views;

pub mod value_objects;
pub mod deck;
pub mod flashcard;
pub mod learning_session;
pub mod scheduled_review;
pub mod reviewable_card;
pub mod acl;
pub mod application;

pub mod ids;
pub mod scheduling;
