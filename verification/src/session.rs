//! The timer of one interaction: it measures how long the session and the
//! response took and records the outcome in the metrics, once.

use vstd::prelude::*;
use std::time::{Duration, Instant};
use crate::metrics::{
    after_abandon, after_response, after_session, metrics_mut, MetricsSlot, MetricsView,
};
use crate::text::{count_words, word_count};

verus! {

/// A point on the monotonic clock of the standard library.
#[verifier::external_type_specification]
#[verifier::external_body]
pub struct ExInstant(Instant);

/// `Instant::now` reads the monotonic clock; nothing is known of the value.
pub assume_specification[ Instant::now ]() -> Instant;

/// `Instant::elapsed` gives the time since the instant was taken; nothing is
/// known of the value.
pub assume_specification[ Instant::elapsed ](start: &Instant) -> Duration;

/// `Duration::as_secs` gives the whole seconds of a span; nothing is said of
/// the value.
pub assume_specification[ Duration::as_secs ](span: &Duration) -> u64;

/// What the metrics in a slot become when a response of `words` words,
/// written in `response_secs` seconds, completes a session of
/// `session_secs` seconds. An empty slot stays empty.
pub open spec fn finished(
    m: Option<MetricsView>,
    words: u64,
    response_secs: u64,
    session_secs: u64,
) -> Option<MetricsView> {
    match m {
        Some(v) => Some(after_session(after_response(v, words, response_secs), session_secs)),
        None => None,
    }
}

/// What the metrics in a slot become when a session of `session_secs`
/// seconds is abandoned.
pub open spec fn abandoned(m: Option<MetricsView>, session_secs: u64) -> Option<MetricsView> {
    match m {
        Some(v) => Some(after_session(after_abandon(v), session_secs)),
        None => None,
    }
}

/// What the metrics in a slot become when a timer leaves its scope after
/// `session_secs` seconds: the session is recorded only if the timer was not
/// finalized before and some time has passed.
pub open spec fn flushed(m: Option<MetricsView>, finalized: bool, session_secs: u64) -> Option<
    MetricsView,
> {
    match m {
        Some(v) => if finalized || session_secs == 0 {
            Some(v)
        } else {
            Some(after_session(v, session_secs))
        },
        None => None,
    }
}

/// Once a session was finished or abandoned, leaving the scope records
/// nothing more, whatever time has passed.
pub proof fn lemma_no_second_record(
    m: Option<MetricsView>,
    words: u64,
    response_secs: u64,
    session_secs: u64,
    exit_secs: u64,
)
    ensures
        flushed(finished(m, words, response_secs, session_secs), true, exit_secs) == finished(
            m,
            words,
            response_secs,
            session_secs,
        ),
        flushed(abandoned(m, session_secs), true, exit_secs) == abandoned(m, session_secs),
        flushed(flushed(m, false, session_secs), true, exit_secs) == flushed(
            m,
            false,
            session_secs,
        ),
{
}

/// Measures one interaction.
pub struct SessionTimer {
    session_start: Instant,
    response_start: Option<Instant>,
    finalized: bool,
}

impl SessionTimer {
    /// Whether the outcome of the session has been recorded.
    pub closed spec fn is_finalized(&self) -> bool {
        self.finalized
    }

    /// The instant at which the session began.
    pub closed spec fn session_start(&self) -> Instant {
        self.session_start
    }

    /// Whether the writing of the response has begun.
    pub closed spec fn response_started(&self) -> bool {
        self.response_start is Some
    }

    /// Starts the session now.
    pub fn new() -> (t: SessionTimer)
        ensures
            !t.is_finalized(),
            !t.response_started(),
    {
        SessionTimer { session_start: Instant::now(), response_start: None, finalized: false }
    }

    /// Marks the beginning of the response now; a later call replaces an
    /// earlier mark. The beginning of the session stays what it was and
    /// nothing is recorded.
    pub fn start_response(&mut self)
        ensures
            final(self).response_started(),
            final(self).is_finalized() == old(self).is_finalized(),
            final(self).session_start() == old(self).session_start(),
    {
        self.response_start = Some(Instant::now());
    }

    /// Whether the outcome has been recorded.
    pub fn finalized(&self) -> (r: bool)
        ensures
            r == self.is_finalized(),
    {
        self.finalized
    }

    /// The seconds since the session began.
    fn session_seconds(&self) -> u64 {
        self.session_start.elapsed().as_secs()
    }

    /// The seconds since the response began; zero where it never began.
    fn response_seconds(&self) -> (secs: u64)
        ensures
            !self.response_started() ==> secs == 0,
    {
        match &self.response_start {
            Some(start) => start.elapsed().as_secs(),
            None => 0,
        }
    }

    /// Records a completed response of `response` that took `response_secs`
    /// seconds, in a session of `session_secs` seconds, and finalizes the
    /// timer.
    pub fn finish_after(
        &mut self,
        response: &str,
        response_secs: u64,
        session_secs: u64,
        slot: &mut MetricsSlot,
    )
        requires
            old(slot).wf(),
        ensures
            final(slot).wf(),
            final(self).is_finalized(),
            final(self).response_started() == old(self).response_started(),
            final(self).session_start() == old(self).session_start(),
            final(slot).state() == finished(
                old(slot).state(),
                count_words(response@) as u64,
                response_secs,
                session_secs,
            ),
    {
        let words = word_count(response);
        match metrics_mut(slot) {
            Some(m) => {
                m.response_completed(words, response_secs);
                m.session_completed(session_secs);
            },
            None => {},
        }
        self.finalized = true;
    }

    /// Records the completed response `response` with the time that has
    /// passed, and finalizes the timer. A response whose beginning was never
    /// marked is recorded as having taken no time.
    pub fn finish_with_response(&mut self, response: &str, slot: &mut MetricsSlot)
        requires
            old(slot).wf(),
        ensures
            final(slot).wf(),
            final(self).is_finalized(),
            final(self).response_started() == old(self).response_started(),
            final(self).session_start() == old(self).session_start(),
            exists|response_secs: u64, session_secs: u64|
                {
                    &&& old(self).response_started() || response_secs == 0
                    &&& final(slot).state() == #[trigger] finished(
                        old(slot).state(),
                        count_words(response@) as u64,
                        response_secs,
                        session_secs,
                    )
                },
    {
        let session_secs = self.session_seconds();
        let response_secs = self.response_seconds();
        self.finish_after(response, response_secs, session_secs, slot);
    }

    /// Records an abandoned response in a session of `session_secs` seconds,
    /// and finalizes the timer.
    pub fn abandon_after(&mut self, session_secs: u64, slot: &mut MetricsSlot)
        requires
            old(slot).wf(),
        ensures
            final(slot).wf(),
            final(self).is_finalized(),
            final(self).response_started() == old(self).response_started(),
            final(self).session_start() == old(self).session_start(),
            final(slot).state() == abandoned(old(slot).state(), session_secs),
    {
        match metrics_mut(slot) {
            Some(m) => {
                m.response_abandoned();
                m.session_completed(session_secs);
            },
            None => {},
        }
        self.finalized = true;
    }

    /// Records an abandoned response with the time that has passed, and
    /// finalizes the timer.
    pub fn abandon(&mut self, slot: &mut MetricsSlot)
        requires
            old(slot).wf(),
        ensures
            final(slot).wf(),
            final(self).is_finalized(),
            final(self).response_started() == old(self).response_started(),
            final(self).session_start() == old(self).session_start(),
            exists|session_secs: u64|
                final(slot).state() == #[trigger] abandoned(old(slot).state(), session_secs),
    {
        let session_secs = self.session_seconds();
        self.abandon_after(session_secs, slot);
    }

    /// What leaving the scope does after `session_secs` seconds: a timer that
    /// was neither finished nor abandoned records the session, if any time
    /// has passed. The timer is finalized either way.
    pub fn flush_after(&mut self, session_secs: u64, slot: &mut MetricsSlot)
        requires
            old(slot).wf(),
        ensures
            final(slot).wf(),
            final(self).is_finalized(),
            final(self).response_started() == old(self).response_started(),
            final(self).session_start() == old(self).session_start(),
            final(slot).state() == flushed(
                old(slot).state(),
                old(self).is_finalized(),
                session_secs,
            ),
    {
        if !self.finalized && session_secs > 0 {
            match metrics_mut(slot) {
                Some(m) => {
                    m.session_completed(session_secs);
                },
                None => {},
            }
        }
        self.finalized = true;
    }

    /// To be called when the timer leaves its scope, on every path: records
    /// the session with the time that has passed unless the outcome was
    /// recorded before.
    pub fn flush_on_exit(&mut self, slot: &mut MetricsSlot)
        requires
            old(slot).wf(),
        ensures
            final(slot).wf(),
            final(self).is_finalized(),
            final(self).response_started() == old(self).response_started(),
            final(self).session_start() == old(self).session_start(),
            old(self).is_finalized() ==> final(slot).state() == old(slot).state(),
            exists|session_secs: u64|
                final(slot).state() == #[trigger] flushed(
                    old(slot).state(),
                    old(self).is_finalized(),
                    session_secs,
                ),
    {
        let session_secs = self.session_seconds();
        self.flush_after(session_secs, slot);
    }
}

} // verus!
