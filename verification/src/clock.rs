//! Where an invocation takes the time from.

use solana_program::clock::Clock;
use solana_program::program_error::ProgramError;
use solana_program::sysvar::Sysvar;
use vstd::prelude::*;

verus! {

/// The clock that a handler consults when it stamps a record.
#[derive(Debug, PartialEq, Eq)]
pub enum TimeSource {
    /// The host's clock, asked when the time is needed.
    Host,
    /// A clock that reads this Unix time.
    Fixed(i64),
    /// A clock that cannot be read, and fails with this error.
    Unavailable(ProgramError),
}

impl TimeSource {
    /// Whether reading this clock may give `answer`. Of the host's clock
    /// nothing is known beforehand; the other two have one answer each.
    pub open spec fn may_answer(self, answer: Result<i64, ProgramError>) -> bool {
        match self {
            TimeSource::Host => true,
            TimeSource::Fixed(now) => answer == Ok::<i64, ProgramError>(now),
            TimeSource::Unavailable(error) => answer == Err::<i64, ProgramError>(error),
        }
    }

    /// Every clock has an answer that it may give.
    pub proof fn lemma_may_answer(self)
        ensures
            exists|answer: Result<i64, ProgramError>| #[trigger] self.may_answer(answer),
    {
        match self {
            TimeSource::Host => {
                assert(self.may_answer(Ok(0)));
            },
            TimeSource::Fixed(now) => {
                assert(self.may_answer(Ok(now)));
            },
            TimeSource::Unavailable(error) => {
                assert(self.may_answer(Err(error)));
            },
        }
    }

    /// Reads the clock.
    pub fn read(self) -> (answer: Result<i64, ProgramError>)
        ensures
            self.may_answer(answer),
    {
        match self {
            TimeSource::Host => host_unix_timestamp(),
            TimeSource::Fixed(now) => Ok(now),
            TimeSource::Unavailable(error) => Err(error),
        }
    }
}

/// Asks the host for the current Unix time, through `Clock::get` of
/// `solana_program`, and keeps the `unix_timestamp` field of the answer.
///
/// Nothing is claimed of the outcome: the host decides whether it answers
/// and with what, and two calls may differ.
#[verifier::external_body]
pub(crate) fn host_unix_timestamp() -> (answer: Result<i64, ProgramError>) {
    match Clock::get() {
        Ok(clock) => Ok(clock.unix_timestamp),
        Err(error) => Err(error),
    }
}

} // verus!
