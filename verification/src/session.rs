//! One round of "guess the number".
//!
//! A [`GuessingSession`] owns a secret target. Every guess is answered with an
//! [`Outcome`]; the first exact guess moves the session from `Active` to `Won`,
//! where it stays.

use crate::error::ErrorKind;
use crate::input::{parse_guess, parsed_guess};
use crate::random::sample_inclusive;
use vstd::prelude::*;

verus! {

/// Where a session stands in its life.
#[derive(Clone, Copy, Debug, PartialEq, Eq, Structural)]
pub enum SessionState {
    /// The target has not been guessed yet.
    Active,
    /// The target was guessed; nothing changes the session any more.
    Won,
}

/// The answer to one guess.
#[derive(Clone, Copy, Debug, PartialEq, Eq, Structural)]
pub enum Outcome {
    /// The guess lies below the target.
    TooLow,
    /// The guess lies above the target.
    TooHigh,
    /// The guess is the target, or the session was won before.
    Correct,
}

impl Outcome {
    /// The words in which the game gives this answer to the player.
    pub open spec fn message_text(self) -> Seq<char> {
        match self {
            Outcome::TooLow => "Ta frio!"@,
            Outcome::TooHigh => "Ta quente!"@,
            Outcome::Correct => "Você venceu!"@,
        }
    }

    /// The words in which the game gives this answer to the player.
    pub fn message(&self) -> (text: &'static str)
        ensures
            text@ == self.message_text(),
    {
        match self {
            Outcome::TooLow => "Ta frio!",
            Outcome::TooHigh => "Ta quente!",
            Outcome::Correct => "Você venceu!",
        }
    }
}

/// What a session is, as plain mathematics: its contracts speak of this value.
pub struct SessionModel {
    /// The secret number, which is fixed when the session is made.
    pub target: nat,
    /// Whether the target has been guessed.
    pub state: SessionState,
}

/// How `candidate` compares with `target`.
pub open spec fn compare_guess(target: nat, candidate: nat) -> Outcome {
    if candidate < target {
        Outcome::TooLow
    } else if candidate > target {
        Outcome::TooHigh
    } else {
        Outcome::Correct
    }
}

impl SessionModel {
    /// The answer that a session in this condition gives to `candidate`.
    /// A won session answers `Correct` to everything.
    pub open spec fn answer(self, candidate: nat) -> Outcome {
        match self.state {
            SessionState::Active => compare_guess(self.target, candidate),
            SessionState::Won => Outcome::Correct,
        }
    }

    /// The condition of the session after it has answered `candidate`.
    pub open spec fn after(self, candidate: nat) -> SessionModel {
        if self.state == SessionState::Active && candidate == self.target {
            SessionModel { target: self.target, state: SessionState::Won }
        } else {
            self
        }
    }
}

/// A secret target and the state of the round played for it.
#[derive(Debug)]
pub struct GuessingSession {
    target: u32,
    state: SessionState,
}

impl View for GuessingSession {
    type V = SessionModel;

    closed spec fn view(&self) -> SessionModel {
        SessionModel { target: self.target as nat, state: self.state }
    }
}

impl GuessingSession {
    /// A fresh session whose target is drawn at random between `range_low`
    /// and `range_high`, both included. A range whose lower bound lies above
    /// its upper bound is refused with `InvalidRange`.
    pub fn create(range_low: u32, range_high: u32) -> (created: Result<GuessingSession, ErrorKind>)
        ensures
            range_low > range_high ==> created == Err::<GuessingSession, ErrorKind>(
                ErrorKind::InvalidRange,
            ),
            range_low <= range_high ==> created is Ok && created->Ok_0@.state
                == SessionState::Active && range_low <= created->Ok_0@.target <= range_high,
    {
        match GuessingSession::create_with_diagnostic(range_low, range_high, false) {
            Ok((session, _)) => Ok(session),
            Err(kind) => Err(kind),
        }
    }

    /// As [`GuessingSession::create`], and with the target handed out beside
    /// the session where `reveal` asks for it, so that the caller can show it
    /// while trying the game out. Without `reveal` the target stays inside the
    /// session.
    pub fn create_with_diagnostic(
        range_low: u32,
        range_high: u32,
        reveal: bool,
    ) -> (created: Result<(GuessingSession, Option<u32>), ErrorKind>)
        ensures
            range_low > range_high ==> created == Err::<(GuessingSession, Option<u32>), ErrorKind>(
                ErrorKind::InvalidRange,
            ),
            range_low <= range_high ==> created is Ok && ({
                let (session, diagnostic) = created->Ok_0;
                &&& session@.state == SessionState::Active
                &&& range_low <= session@.target <= range_high
                &&& reveal ==> diagnostic == Some(session@.target as u32)
                &&& !reveal ==> diagnostic.is_none()
            }),
    {
        if range_low > range_high {
            return Err(ErrorKind::InvalidRange);
        }
        let target: u32 = sample_inclusive(range_low, range_high);
        let diagnostic = if reveal {
            Some(target)
        } else {
            None
        };
        Ok((GuessingSession::with_target(target), diagnostic))
    }

    /// A fresh session for a target that the caller has chosen.
    pub fn with_target(target: u32) -> (session: GuessingSession)
        ensures
            session@ == (SessionModel { target: target as nat, state: SessionState::Active }),
    {
        GuessingSession { target, state: SessionState::Active }
    }

    /// Answers one guess. The first exact guess wins the session; a won
    /// session is left as it is and answers `Correct`.
    pub fn submit_guess(&mut self, candidate: u32) -> (outcome: Outcome)
        ensures
            outcome == old(self)@.answer(candidate as nat),
            final(self)@ == old(self)@.after(candidate as nat),
            final(self)@.target == old(self)@.target,
            old(self)@.state == SessionState::Active && candidate < old(self)@.target ==> ({
                &&& outcome == Outcome::TooLow
                &&& final(self)@.state == SessionState::Active
            }),
            old(self)@.state == SessionState::Active && candidate > old(self)@.target ==> ({
                &&& outcome == Outcome::TooHigh
                &&& final(self)@.state == SessionState::Active
            }),
            candidate == old(self)@.target ==> ({
                &&& outcome == Outcome::Correct
                &&& final(self)@.state == SessionState::Won
            }),
            old(self)@.state == SessionState::Won ==> ({
                &&& outcome == Outcome::Correct
                &&& final(self)@.state == SessionState::Won
            }),
    {
        match self.state {
            SessionState::Won => Outcome::Correct,
            SessionState::Active => {
                if candidate < self.target {
                    Outcome::TooLow
                } else if candidate > self.target {
                    Outcome::TooHigh
                } else {
                    self.state = SessionState::Won;
                    Outcome::Correct
                }
            },
        }
    }

    /// Takes one line of input as the next move. A line that holds a guess is
    /// answered as [`GuessingSession::submit_guess`] answers it, and the guess
    /// is handed back with the answer. Any other line is `InvalidInput` and
    /// leaves the session as it was, so that the player can be asked again.
    pub fn submit_line(&mut self, line: &str) -> (turn: Result<(u32, Outcome), ErrorKind>)
        ensures
            (match parsed_guess(line@) {
                Ok(guess) => {
                    &&& turn == Ok::<(u32, Outcome), ErrorKind>(
                        (guess, old(self)@.answer(guess as nat)),
                    )
                    &&& final(self)@ == old(self)@.after(guess as nat)
                },
                Err(_) => {
                    &&& turn == Err::<(u32, Outcome), ErrorKind>(ErrorKind::InvalidInput)
                    &&& final(self)@ == old(self)@
                },
            }),
    {
        match parse_guess(line) {
            Ok(guess) => {
                let outcome = self.submit_guess(guess);
                Ok((guess, outcome))
            },
            Err(kind) => Err(kind),
        }
    }

    /// The target of a session is a number of 32 bits.
    pub proof fn lemma_target_fits(&self)
        ensures
            self@.target <= u32::MAX,
    {
    }

    /// Where the session stands.
    pub fn state(&self) -> (state: SessionState)
        ensures
            state == self@.state,
    {
        self.state
    }

    /// Whether the target has been guessed, which ends the round.
    pub fn is_won(&self) -> (won: bool)
        ensures
            won == (self@.state == SessionState::Won),
    {
        match self.state {
            SessionState::Won => true,
            SessionState::Active => false,
        }
    }
}

/// The condition of a session after it has answered each of `guesses` in
/// turn.
pub open spec fn after_all(session: SessionModel, guesses: Seq<nat>) -> SessionModel
    decreases guesses.len(),
{
    if guesses.len() == 0 {
        session
    } else {
        after_all(session, guesses.drop_last()).after(guesses.last())
    }
}

/// A guess below the target of an active session is answered `TooLow`, and
/// the session stays as it was: active, with the same target.
pub proof fn lemma_low_guess_keeps_active(session: SessionModel, candidate: nat)
    requires
        session.state == SessionState::Active,
        candidate < session.target,
    ensures
        session.answer(candidate) == Outcome::TooLow,
        session.after(candidate).state == SessionState::Active,
        session.after(candidate) == session,
{
}

/// A guess above the target of an active session is answered `TooHigh`, and
/// the session stays as it was: active, with the same target.
pub proof fn lemma_high_guess_keeps_active(session: SessionModel, candidate: nat)
    requires
        session.state == SessionState::Active,
        candidate > session.target,
    ensures
        session.answer(candidate) == Outcome::TooHigh,
        session.after(candidate).state == SessionState::Active,
        session.after(candidate) == session,
{
}

/// The target itself is answered `Correct`, and the session is won after it.
pub proof fn lemma_exact_guess_wins(session: SessionModel)
    ensures
        session.answer(session.target) == Outcome::Correct,
        session.after(session.target).state == SessionState::Won,
{
}

/// Guessing the target a second time changes nothing: the answer is `Correct`
/// again and the session stays won.
pub proof fn lemma_exact_guess_twice(session: SessionModel)
    ensures
        ({
            let won = session.after(session.target);
            &&& won.answer(session.target) == Outcome::Correct
            &&& won.after(session.target) == won
        }),
{
}

/// A won session is at its end: it answers `Correct` to every guess, and no
/// guess changes it.
pub proof fn lemma_won_is_absorbing(session: SessionModel, candidate: nat)
    requires
        session.state == SessionState::Won,
    ensures
        session.answer(candidate) == Outcome::Correct,
        session.after(candidate) == session,
{
}

/// No guess changes the target.
pub proof fn lemma_target_is_fixed(session: SessionModel, candidate: nat)
    ensures
        session.after(candidate).target == session.target,
{
}

/// An active session is won by the guess that equals its target, and by no
/// other.
pub proof fn lemma_won_only_by_exact_guess(session: SessionModel, candidate: nat)
    requires
        session.state == SessionState::Active,
    ensures
        session.after(candidate).state == SessionState::Won <==> candidate == session.target,
        session.answer(candidate) == Outcome::Correct <==> candidate == session.target,
{
}

/// However many guesses a session answers, its target stays, and it is won
/// after them exactly if it was won before or the target was among them.
pub proof fn lemma_won_iff_target_guessed(session: SessionModel, guesses: Seq<nat>)
    ensures
        after_all(session, guesses).target == session.target,
        after_all(session, guesses).state == SessionState::Won <==> (session.state
            == SessionState::Won || guesses.contains(session.target)),
    decreases guesses.len(),
{
    if guesses.len() > 0 {
        let earlier = guesses.drop_last();
        lemma_won_iff_target_guessed(session, earlier);
        if guesses.contains(session.target) && guesses.last() != session.target {
            let at = choose|at: int| 0 <= at < guesses.len() && guesses[at] == session.target;
            assert(earlier[at] == session.target);
        }
    }
}

} // verus!
