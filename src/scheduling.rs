use vstd::prelude::*;

verus! {

/// The scheduler's state of one card (stability, difficulty, due date, review count).
#[verifier::external_type_specification]
#[verifier::external_body]
pub struct ExCard(rs_fsrs::Card);

/// How well a card was recalled.
#[verifier::external_type_specification]
#[verifier::external_body]
pub struct ExRating(rs_fsrs::Rating);

/// Relies on `<rs_fsrs::Card as Clone>::clone`, which is derived and copies every field.
pub assume_specification[ <rs_fsrs::Card as Clone>::clone ](card: &rs_fsrs::Card) -> (r: rs_fsrs::Card)
    ensures
        r == *card,
;

/// The number of reviews that a card records (its `reps` field).
pub uninterp spec fn review_count(card: rs_fsrs::Card) -> i32;

/// The number of lapses that a card records (its `lapses` field).
pub uninterp spec fn lapse_count(card: rs_fsrs::Card) -> i32;

/// Relies on the public field `rs_fsrs::Card::reps`, read as it is.
#[verifier::external_body]
pub(crate) fn card_review_count(card: &rs_fsrs::Card) -> (r: i32)
    ensures
        r == review_count(*card),
{
    card.reps
}

/// Relies on the public field `rs_fsrs::Card::lapses`, read as it is.
#[verifier::external_body]
pub(crate) fn card_lapse_count(card: &rs_fsrs::Card) -> (r: i32)
    ensures
        r == lapse_count(*card),
{
    card.lapses
}

/// Relies on `rs_fsrs::FSRS::next` with the default parameters, taken at the instant that
/// `chrono::Utc::now` reads from the system clock: the card's state after a review with
/// `rating`. It depends on the time, so nothing is stated of it. The scheduler adds one to
/// the card's review count, and to its lapse count for a forgotten card, so both must be
/// below `i32::MAX`.
#[verifier::external_body]
pub(crate) fn review_card_now(card: rs_fsrs::Card, rating: rs_fsrs::Rating) -> (r: rs_fsrs::Card)
    requires
        review_count(card) < i32::MAX,
        lapse_count(card) < i32::MAX,
{
    rs_fsrs::FSRS::new(rs_fsrs::Parameters::default()).next(card, chrono::Utc::now(), rating).card
}

/// Relies on `rs_fsrs::Card::new`: a card with no review history.
#[verifier::external_body]
pub(crate) fn new_card() -> (r: rs_fsrs::Card) {
    rs_fsrs::Card::new()
}

} // verus!
