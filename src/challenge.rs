//! The challenge record: created pending, answered once, then judged.

use vstd::prelude::*;
use crate::codec::{hex_lower, object_id_hex};
use crate::puzzle::GRID_SIZE;

verus! {

/// The twelve bytes of a challenge's identifier, as the document store
/// assigns them.
#[derive(Clone, Copy, Debug)]
pub struct ChallengeId {
    pub bytes: [u8; 12],
}

/// Relies on `ObjectId::new` of the `bson` crate that `mongodb` carries,
/// which makes a fresh identifier from the time, the process and a counter.
#[verifier::external_body]
fn fresh_object_id() -> (r: [u8; 12]) {
    mongodb::bson::oid::ObjectId::new().bytes()
}

/// Relies on `chrono::Utc::now` and `DateTime::timestamp`: the current time
/// in seconds since the Unix epoch.
#[verifier::external_body]
fn now_seconds() -> (r: i64) {
    chrono::Utc::now().timestamp()
}

impl ChallengeId {
    /// Allocates a fresh identifier.
    pub fn fresh() -> (r: ChallengeId) {
        ChallengeId { bytes: fresh_object_id() }
    }

    /// The identifier as lower-case hex, two digits per byte.
    pub fn to_hex(&self) -> (r: String)
        ensures
            r@ == hex_lower(self.bytes@),
    {
        object_id_hex(self.bytes)
    }
}

/// One issued puzzle: the cell that was hidden and, once the solver has
/// answered, the cell they named and when.
#[derive(Clone, Debug)]
pub struct Challenge {
    pub id: ChallengeId,
    pub expected: u32,
    pub submitted: Option<u32>,
    pub answered_at: Option<i64>,
}

/// Why an answer was not recorded.
#[derive(Clone, Copy, Debug, PartialEq, Eq, Structural)]
pub enum AnswerError {
    /// The challenge already holds an answer; only the first one counts.
    AlreadyAnswered,
}

impl Challenge {
    /// The hidden cell is a cell of the grid that puzzles are issued with,
    /// and the answer and its time are both there or both absent.
    pub open spec fn wf(self) -> bool {
        &&& self.expected < GRID_SIZE * GRID_SIZE
        &&& (self.submitted is Some <==> self.answered_at is Some)
    }

    /// The challenge holds an answer.
    pub open spec fn is_answered(self) -> bool {
        self.submitted is Some
    }

    /// The challenge after an answer `submitted` given at time `at`, under
    /// the rule that only the first answer counts.
    pub open spec fn after_answer(self, submitted: u32, at: i64) -> Challenge {
        if self.is_answered() {
            self
        } else {
            Challenge { submitted: Some(submitted), answered_at: Some(at), ..self }
        }
    }

    /// Whether the solver found the hidden cell, once they have answered.
    pub open spec fn verdict(self) -> Option<bool> {
        match self.submitted {
            Some(s) => Some(s == self.expected),
            None => None,
        }
    }

    /// A pending challenge with identifier `id` that hides cell `expected`.
    pub fn new(id: ChallengeId, expected: u32) -> (r: Challenge)
        requires
            expected < GRID_SIZE * GRID_SIZE,
        ensures
            r.wf(),
            !r.is_answered(),
            r.id == id,
            r.expected == expected,
    {
        Challenge { id, expected, submitted: None, answered_at: None }
    }

    /// A pending challenge with a fresh identifier that hides cell
    /// `expected`.
    pub fn create(expected: u32) -> (r: Challenge)
        requires
            expected < GRID_SIZE * GRID_SIZE,
        ensures
            r.wf(),
            !r.is_answered(),
            r.expected == expected,
    {
        Challenge::new(ChallengeId::fresh(), expected)
    }

    /// Records the answer `submitted`, given at time `at`. A challenge that
    /// already holds an answer keeps it, and the call fails.
    pub fn record_answer(&mut self, submitted: u32, at: i64) -> (r: Result<(), AnswerError>)
        ensures
            old(self).wf() ==> final(self).wf(),
            *final(self) == old(self).after_answer(submitted, at),
            r is Err <==> old(self).is_answered(),
            r matches Err(e) ==> e == AnswerError::AlreadyAnswered,
    {
        if self.submitted.is_some() {
            return Err(AnswerError::AlreadyAnswered);
        }
        self.submitted = Some(submitted);
        self.answered_at = Some(at);
        Ok(())
    }

    /// Records the answer `submitted` at the current time. A challenge that
    /// already holds an answer keeps it, and the call fails.
    pub fn submit_answer(&mut self, submitted: u32) -> (r: Result<(), AnswerError>)
        ensures
            old(self).wf() ==> final(self).wf(),
            exists|at: i64| *final(self) == #[trigger] old(self).after_answer(submitted, at),
            r is Err <==> old(self).is_answered(),
    {
        let at = now_seconds();
        let r = self.record_answer(submitted, at);
        assert(*self == old(self).after_answer(submitted, at));
        r
    }
}

/// The verdict on an answered challenge: its identifier in hex, whether the
/// solver found the hidden cell, and when they answered.
#[derive(Clone, Debug)]
pub struct ChallengeCheckDto {
    pub id: String,
    pub success: bool,
    pub timestamp: i64,
}

impl ChallengeCheckDto {
    /// Gathers a verdict, writing the identifier in hex.
    pub fn new(id: ChallengeId, success: bool, timestamp: i64) -> (r: Self)
        ensures
            r.id@ == hex_lower(id.bytes@),
            r.success == success,
            r.timestamp == timestamp,
    {
        ChallengeCheckDto { id: id.to_hex(), success, timestamp }
    }
}

/// Judges an answered challenge; a pending one has no verdict yet.
pub fn verify(c: &Challenge) -> (r: Option<ChallengeCheckDto>)
    requires
        c.wf(),
    ensures
        r is Some <==> c.is_answered(),
        r matches Some(d) ==> {
            &&& Some(d.success) == c.verdict()
            &&& Some(d.timestamp) == c.answered_at
            &&& d.id@ == hex_lower(c.id.bytes@)
        },
{
    match (c.submitted, c.answered_at) {
        (Some(s), Some(at)) => Some(ChallengeCheckDto::new(c.id, s == c.expected, at)),
        _ => None,
    }
}

/// Where a challenge stands when its status is asked for.
#[derive(Clone, Debug)]
pub enum Status {
    /// No challenge has that identifier.
    NotFound,
    /// The challenge exists and has no answer yet.
    Pending,
    /// The challenge has been answered; here is the verdict.
    Answered(ChallengeCheckDto),
}

/// The status of the challenge that a lookup found, or of none.
pub fn check_status(found: Option<Challenge>) -> (r: Status)
    requires
        found matches Some(c) ==> c.wf(),
    ensures
        found is None <==> r is NotFound,
        found matches Some(c) ==> (!c.is_answered() <==> r is Pending),
        r matches Status::Answered(d) ==> found matches Some(c) && {
            &&& Some(d.success) == c.verdict()
            &&& Some(d.timestamp) == c.answered_at
            &&& d.id@ == hex_lower(c.id.bytes@)
        },
{
    match found {
        None => Status::NotFound,
        Some(c) => match verify(&c) {
            Some(d) => Status::Answered(d),
            None => Status::Pending,
        },
    }
}

/// Answering a pending challenge with the hidden cell wins, and with any
/// other cell loses.
pub proof fn lemma_answer_round_trip(c: Challenge, submitted: u32, at: i64)
    requires
        c.wf(),
        !c.is_answered(),
    ensures
        c.after_answer(submitted, at).wf(),
        c.after_answer(submitted, at).is_answered(),
        c.after_answer(c.expected, at).verdict() == Some(true),
        submitted != c.expected ==> c.after_answer(submitted, at).verdict() == Some(false),
{
}

/// Only the first answer counts: a second answer leaves the challenge, and
/// its verdict, as the first one made them.
pub proof fn lemma_first_answer_stands(c: Challenge, first: u32, t1: i64, second: u32, t2: i64)
    requires
        c.wf(),
        !c.is_answered(),
    ensures
        c.after_answer(first, t1).after_answer(second, t2) == c.after_answer(first, t1),
        c.after_answer(first, t1).after_answer(second, t2).verdict() == Some(first == c.expected),
{
}

} // verus!
