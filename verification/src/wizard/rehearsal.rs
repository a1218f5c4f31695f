//! The decisions of the link-speed rehearsal: which rate to try next, how
//! long to wait first, when to stop, and which rate to settle on. The
//! caller opens the port and talks to the peer, and reports back.
use vstd::prelude::*;
use vstd::string::StringExecFns;

use crate::wizard::{choose_rehearsal_baud, chosen_rate, rehearsal_bauds, rehearsal_plan};

verus! {

/// How many times a rate is tried before it counts as failed.
pub const REHEARSAL_TRIES: u8 = 3;
/// The wait before the n-th retry of a rate is n times this.
pub const REHEARSAL_RETRY_STEP_MS: u64 = 150;
/// The wait after a rate worked, before the next one.
pub const REHEARSAL_SETTLE_MS: u64 = 250;

/// What the caller is to do next.
#[derive(Debug, Clone, Copy, PartialEq, Eq, Structural)]
pub enum RehearsalAction {
    /// Wait `delay_ms`, then try the link at `baud` and report the outcome.
    Try { baud: u32, delay_ms: u64 },
    /// The rehearsal is over; it settled on this rate.
    Done(u32),
}

/// What came of the last try.
#[derive(Debug, Clone, PartialEq, Eq)]
pub enum RehearsalEvent {
    /// The peer answered.
    Succeeded,
    /// The try failed, for the reason given.
    Failed(String),
}

/// The model of a rehearsal: the rates to go through, the one being tried
/// and how often it failed so far, the outcome of each finished rate (with
/// its message), and whether it is over.
pub struct RehearsalView {
    pub rates: Seq<u32>,
    pub index: nat,
    pub failures: nat,
    pub results: Seq<(u32, bool)>,
    pub messages: Seq<Seq<char>>,
    pub finished: bool,
}

/// A link-speed rehearsal in progress.
pub struct RehearsalSession {
    rates: Vec<u32>,
    index: usize,
    failures: u8,
    results: Vec<(u32, bool)>,
    messages: Vec<String>,
    finished: bool,
}

/// Where a rehearsal of `candidates` starts, and its first action: the
/// first rate at once, or done (at 9600) when there is none.
pub open spec fn rehearsal_start(candidates: Seq<u32>) -> (RehearsalView, RehearsalAction) {
    let rates = rehearsal_plan(candidates);
    let v = RehearsalView {
        rates,
        index: 0,
        failures: 0,
        results: Seq::empty(),
        messages: Seq::empty(),
        finished: rates.len() == 0,
    };
    if rates.len() == 0 {
        (v, RehearsalAction::Done(chosen_rate(Seq::empty())))
    } else {
        (v, RehearsalAction::Try { baud: rates[0], delay_ms: 0 })
    }
}

/// The view of an event.
pub open spec fn event_view(e: RehearsalEvent) -> Option<Seq<char>> {
    match e {
        RehearsalEvent::Succeeded => None,
        RehearsalEvent::Failed(m) => Some(m@),
    }
}

/// One step: a rate that worked is recorded and the next one follows after
/// the settling wait (or the rehearsal ends when there is none); a failed
/// try is retried after a growing wait, and the third failure of a rate
/// records it as failed and ends the rehearsal. Once over, it stays over.
pub open spec fn rehearsal_next(v: RehearsalView, outcome: Option<Seq<char>>) -> (RehearsalView, RehearsalAction) {
    if v.finished {
        (v, RehearsalAction::Done(chosen_rate(v.results)))
    } else {
        let baud = v.rates[v.index as int];
        match outcome {
            None => {
                let results = v.results.push((baud, true));
                let messages = v.messages.push("ok"@);
                let index = v.index + 1;
                if index < v.rates.len() {
                    (
                        RehearsalView { index, failures: 0, results, messages, ..v },
                        RehearsalAction::Try { baud: v.rates[index as int], delay_ms: 250 },
                    )
                } else {
                    (
                        RehearsalView { index, failures: 0, results, messages, finished: true, ..v },
                        RehearsalAction::Done(chosen_rate(results)),
                    )
                }
            },
            Some(m) => {
                let failures = v.failures + 1;
                if failures < 3 {
                    (
                        RehearsalView { failures, ..v },
                        RehearsalAction::Try { baud, delay_ms: (150 * failures) as u64 },
                    )
                } else {
                    let results = v.results.push((baud, false));
                    (
                        RehearsalView {
                            failures: 0,
                            results,
                            messages: v.messages.push(m),
                            finished: true,
                            ..v
                        },
                        RehearsalAction::Done(chosen_rate(results)),
                    )
                }
            },
        }
    }
}

impl RehearsalSession {
    pub closed spec fn view(&self) -> RehearsalView {
        RehearsalView {
            rates: self.rates@,
            index: self.index as nat,
            failures: self.failures as nat,
            results: self.results@,
            messages: self.messages@.map_values(|s: String| s@),
            finished: self.finished,
        }
    }

    /// The session's invariant: at most eight rates; while it runs, the
    /// rate being tried exists and has failed fewer than three times, and
    /// every finished rate worked.
    pub closed spec fn well_formed(&self) -> bool {
        &&& self.rates@.len() <= 8
        &&& self.failures < 3
        &&& self.results@.len() == self.messages@.len()
        &&& self.results@.len() <= self.index + 1
        &&& self.index <= self.rates@.len()
        &&& !self.finished ==> self.index < self.rates@.len() && self.results@.len() == self.index
    }

    /// Starts a rehearsal of `candidates` (those of at least 9600, the
    /// first eight); returns the first action.
    pub fn new(candidates: &[u32]) -> (r: (RehearsalSession, RehearsalAction))
        ensures
            r.0.well_formed(),
            (r.0@, r.1) == rehearsal_start(candidates@),
    {
        let rates = rehearsal_bauds(candidates);
        proof {
            lemma_plan_at_most_eight(candidates@);
        }
        let finished = rates.len() == 0;
        let none: Vec<(u32, bool)> = Vec::new();
        let action = if finished {
            RehearsalAction::Done(choose_rehearsal_baud(none.as_slice()))
        } else {
            RehearsalAction::Try { baud: rates[0], delay_ms: 0 }
        };
        let s = RehearsalSession {
            rates,
            index: 0,
            failures: 0,
            results: Vec::new(),
            messages: Vec::new(),
            finished,
        };
        assert(s@.messages =~= Seq::<Seq<char>>::empty());
        (s, action)
    }

    /// Takes the outcome of the last try and returns what to do next.
    pub fn step(&mut self, event: RehearsalEvent) -> (r: RehearsalAction)
        requires
            old(self).well_formed(),
        ensures
            final(self).well_formed(),
            (final(self)@, r) == rehearsal_next(old(self)@, event_view(event)),
    {
        if self.finished {
            return RehearsalAction::Done(choose_rehearsal_baud(self.results.as_slice()));
        }
        let baud = self.rates[self.index];
        let ghost old_msgs = self.messages@;
        match event {
            RehearsalEvent::Succeeded => {
                self.results.push((baud, true));
                self.messages.push(String::from_str("ok"));
                self.index = self.index + 1;
                self.failures = 0;
                proof {
                    assert(self.messages@.map_values(|s: String| s@) =~= old_msgs.map_values(
                        |s: String| s@,
                    ).push("ok"@));
                }
                if self.index < self.rates.len() {
                    RehearsalAction::Try { baud: self.rates[self.index], delay_ms: REHEARSAL_SETTLE_MS }
                } else {
                    self.finished = true;
                    RehearsalAction::Done(choose_rehearsal_baud(self.results.as_slice()))
                }
            },
            RehearsalEvent::Failed(message) => {
                let ghost m = message@;
                if self.failures + 1 < REHEARSAL_TRIES {
                    self.failures = self.failures + 1;
                    RehearsalAction::Try {
                        baud,
                        delay_ms: REHEARSAL_RETRY_STEP_MS * (self.failures as u64),
                    }
                } else {
                    self.results.push((baud, false));
                    self.messages.push(message);
                    self.failures = 0;
                    self.finished = true;
                    proof {
                        assert(self.messages@.map_values(|s: String| s@) =~= old_msgs.map_values(
                            |s: String| s@,
                        ).push(m));
                    }
                    RehearsalAction::Done(choose_rehearsal_baud(self.results.as_slice()))
                }
            },
        }
    }

    /// The outcome of each finished rate, in order.
    pub fn results(&self) -> (r: &Vec<(u32, bool)>)
        ensures
            r@ == self@.results,
    {
        &self.results
    }

    /// The message of the last finished rate (`ok`, or why it failed).
    pub fn last_message(&self) -> (r: Option<&String>)
        ensures
            match r {
                Some(m) => self@.messages.len() > 0 && m@ == self@.messages.last(),
                None => self@.messages.len() == 0,
            },
    {
        if self.messages.len() == 0 {
            None
        } else {
            Some(&self.messages[self.messages.len() - 1])
        }
    }
}

/// A rehearsal plan has at most eight rates.
proof fn lemma_plan_at_most_eight(candidates: Seq<u32>)
    ensures
        rehearsal_plan(candidates).len() <= 8,
    decreases candidates.len(),
{
    if candidates.len() > 0 {
        lemma_plan_at_most_eight(candidates.drop_last());
    }
}

/// Every rehearsal step keeps the finished rates as they were, adding at
/// most one, and a rate is recorded as failed only when the rehearsal ends
/// there.
pub proof fn lemma_rehearsal_keeps_results(v: RehearsalView, outcome: Option<Seq<char>>)
    requires
        !v.finished ==> v.index < v.rates.len(),
    ensures
        ({
            let (w, a) = rehearsal_next(v, outcome);
            &&& w.results.len() <= v.results.len() + 1
            &&& w.results.take(v.results.len() as int) == v.results
            &&& (w.results.len() > v.results.len() && !w.results.last().1) ==> w.finished
            &&& (a matches RehearsalAction::Done(c) ==> w.finished && c == chosen_rate(w.results))
        }),
{
    let (w, a) = rehearsal_next(v, outcome);
    assert(w.results.take(v.results.len() as int) =~= v.results);
}

} // verus!
