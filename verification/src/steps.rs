//! Decisions that alternate with outside work.
//!
//! A handler that looks at the outside world between its checks is written as a
//! function of what has been seen so far. It answers with the next thing to look
//! at, or with what to do. Its contract lists the checks in their order.
use crate::io_error::IoFailure;
use vstd::prelude::*;

verus! {

/// The next thing to look at, or what to do.
pub enum Step<P, V> {
    Ask(P),
    Done(V),
}

/// One check of a list: it lets the next check speak, needs something that has
/// not been seen yet, or settles the matter.
pub enum Check<P, V> {
    Pass,
    Ask(P),
    Stop(V),
}

impl<P, V> Check<P, V> {
    /// `Ok` where the check passes, and the step that it calls for where it does
    /// not.
    pub fn settle(self) -> (settled: Result<(), Step<P, V>>)
        ensures
            match self {
                Check::Pass => settled is Ok,
                Check::Ask(probe) => settled == Err::<(), Step<P, V>>(Step::Ask(probe)),
                Check::Stop(verdict) => settled == Err::<(), Step<P, V>>(Step::Done(verdict)),
            },
    {
        match self {
            Check::Pass => Ok(()),
            Check::Ask(probe) => Err(Step::Ask(probe)),
            Check::Stop(verdict) => Err(Step::Done(verdict)),
        }
    }

    /// This check and, where it passes, the next one.
    pub open spec fn followed_by(self, next: Check<P, V>) -> Check<P, V> {
        match self {
            Check::Pass => next,
            _ => self,
        }
    }

    /// What a list of checks comes to, given what to do where all of them pass.
    pub open spec fn otherwise(self, verdict: V) -> Step<P, V> {
        match self {
            Check::Pass => Step::Done(verdict),
            Check::Ask(probe) => Step::Ask(probe),
            Check::Stop(verdict) => Step::Done(verdict),
        }
    }
}

/// A check that settles the matter where a condition holds.
pub open spec fn stop_if<P, V>(condition: bool, verdict: V) -> Check<P, V> {
    if condition {
        Check::Stop(verdict)
    } else {
        Check::Pass
    }
}

/// A check that something has been done and has not failed.
pub open spec fn succeeded<T, P, V>(seen: Option<Result<T, IoFailure>>, probe: P) -> Check<
    P,
    Result<V, IoFailure>,
> {
    match seen {
        None => Check::Ask(probe),
        Some(Ok(_)) => Check::Pass,
        Some(Err(failure)) => Check::Stop(Err(failure)),
    }
}

/// What something that has been done has come to; where it has not been done or
/// has failed, the step that follows from that.
pub fn must_succeed<T: Copy, P, V>(seen: &Option<Result<T, IoFailure>>, probe: P) -> (result: Result<
    T,
    Step<P, Result<V, IoFailure>>,
>)
    ensures
        match succeeded::<T, P, V>(*seen, probe) {
            Check::Pass => result is Ok && *seen == Some(Ok::<T, IoFailure>(result->Ok_0)),
            Check::Ask(probe) => result == Err::<T, Step<P, Result<V, IoFailure>>>(
                Step::Ask(probe),
            ),
            Check::Stop(verdict) => result == Err::<T, Step<P, Result<V, IoFailure>>>(
                Step::Done(verdict),
            ),
        },
{
    match seen {
        None => Err(Step::Ask(probe)),
        Some(Ok(value)) => Ok(*value),
        Some(Err(failure)) => Err(Step::Done(Err(*failure))),
    }
}

} // verus!
