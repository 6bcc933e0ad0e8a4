//! Driving a solve to its end: when to iterate, when to measure, when to stop.
//!
//! The solver is asked for one thing at a time and reports back. A solve
//! begins with a measurement of the exploitability. It iterates while the
//! last measurement is above the target and the cap on iterations is not
//! reached, measures again after every tenth iteration and after the last
//! one, and ends with the call that makes the strategies ready for queries.
//! Exploitability is counted in millionths of a chip.

use vstd::prelude::*;

verus! {

/// A measurement is due after each run of this many iterations.
pub const MEASURE_EVERY: u32 = 10;

/// What the run is waiting for.
#[derive(Clone, Copy, Debug, PartialEq, Eq, Structural)]
pub enum SolvePhase {
    Measuring,
    Iterating,
    Finalizing,
    Finished,
}

/// What the owner of the solver has to do next.
#[derive(Clone, Copy, Debug, PartialEq, Eq, Structural)]
pub enum SolveCommand {
    /// Measure the exploitability and report it as `SolveEvent::Measured`.
    Measure,
    /// Run the iteration of this number and report `SolveEvent::Iterated`.
    Iterate(u32),
    /// Make the strategies ready for queries and report `SolveEvent::Finalized`.
    Finalize,
    /// Nothing more.
    Finished,
}

/// What happened since the last command.
#[derive(Clone, Copy, Debug, PartialEq, Eq, Structural)]
pub enum SolveEvent {
    /// The exploitability was measured, in millionths of a chip.
    Measured(u64),
    /// One iteration was run.
    Iterated,
    /// The strategies are ready for queries.
    Finalized,
}

/// The target that goes with a pot: half a percent of it, in millionths of a
/// chip. A pot that is not positive has the target zero.
pub open spec fn target_of(starting_pot: int) -> int {
    if starting_pot > 0 {
        starting_pot * 5000
    } else {
        0
    }
}

/// The target exploitability for a pot.
pub fn target_exploitability(starting_pot: i32) -> (target: u64)
    ensures
        target == target_of(starting_pot as int),
{
    if starting_pot > 0 {
        (starting_pot as u64) * 5000
    } else {
        0
    }
}

/// The smaller of two measurements.
pub open spec fn lesser(a: u64, b: u64) -> u64 {
    if a <= b {
        a
    } else {
        b
    }
}

/// The state of a solve as a mathematical value.
#[verifier::ext_equal]
pub struct SolveModel {
    /// The most iterations that may be run.
    pub cap: u32,
    /// The exploitability at which the solve may stop.
    pub target: u64,
    /// The iterations run so far.
    pub done: u32,
    /// The measurements so far, in their order.
    pub measured: Seq<u64>,
    /// The least measurement so far.
    pub best: Option<u64>,
    pub phase: SolvePhase,
}

impl SolveModel {
    /// The state before anything happened: a first measurement is due.
    pub open spec fn initial(cap: u32, target: u64) -> SolveModel {
        SolveModel {
            cap,
            target,
            done: 0,
            measured: Seq::empty(),
            best: None,
            phase: SolvePhase::Measuring,
        }
    }

    /// The command that is due in this state.
    pub open spec fn command(self) -> SolveCommand {
        match self.phase {
            SolvePhase::Measuring => SolveCommand::Measure,
            SolvePhase::Iterating => SolveCommand::Iterate(self.done),
            SolvePhase::Finalizing => SolveCommand::Finalize,
            SolvePhase::Finished => SolveCommand::Finished,
        }
    }

    /// Whether `event` answers the command that is due.
    pub open spec fn answers(self, event: SolveEvent) -> bool {
        match (self.phase, event) {
            (SolvePhase::Measuring, SolveEvent::Measured(_)) => true,
            (SolvePhase::Iterating, SolveEvent::Iterated) => true,
            (SolvePhase::Finalizing, SolveEvent::Finalized) => true,
            _ => false,
        }
    }

    /// The state after `event`. An event that does not answer the command
    /// that is due leaves the state as it is.
    pub open spec fn next(self, event: SolveEvent) -> SolveModel {
        match (self.phase, event) {
            (SolvePhase::Measuring, SolveEvent::Measured(value)) => SolveModel {
                measured: self.measured.push(value),
                best: Some(
                    match self.best {
                        Some(least) => lesser(least, value),
                        None => value,
                    },
                ),
                phase: if value <= self.target || self.done >= self.cap {
                    SolvePhase::Finalizing
                } else {
                    SolvePhase::Iterating
                },
                ..self
            },
            (SolvePhase::Iterating, SolveEvent::Iterated) => if self.done < self.cap {
                SolveModel {
                    done: (self.done + 1) as u32,
                    phase: if (self.done + 1) % (MEASURE_EVERY as int) == 0 || self.done + 1
                        >= self.cap {
                        SolvePhase::Measuring
                    } else {
                        SolvePhase::Iterating
                    },
                    ..self
                }
            } else {
                self
            },
            (SolvePhase::Finalizing, SolveEvent::Finalized) => SolveModel {
                phase: SolvePhase::Finished,
                ..self
            },
            _ => self,
        }
    }

    /// What holds of every state that a solve can reach: the cap is never
    /// passed, iterations are run only while the last measurement is above
    /// the target, the solve ends only below the target or at the cap, and
    /// the best measurement is the least of all.
    pub open spec fn wf(self) -> bool {
        &&& self.done <= self.cap
        &&& self.best is Some <==> self.measured.len() > 0
        &&& self.best matches Some(least) ==> {
            &&& self.measured.contains(least)
            &&& forall|i: int| 0 <= i < self.measured.len() ==> least <= #[trigger] self.measured[i]
        }
        &&& self.phase == SolvePhase::Iterating ==> {
            &&& self.done < self.cap
            &&& self.measured.len() > 0
            &&& self.measured.last() > self.target
        }
        &&& self.phase == SolvePhase::Finalizing || self.phase == SolvePhase::Finished ==> {
            &&& self.measured.len() > 0
            &&& self.measured.last() <= self.target || self.done == self.cap
        }
    }

    /// A bound on the number of events that the solve still takes.
    pub open spec fn budget(self) -> nat {
        match self.phase {
            SolvePhase::Measuring => (2 + 2 * (self.cap - self.done)) as nat,
            SolvePhase::Iterating => (1 + 2 * (self.cap - self.done)) as nat,
            SolvePhase::Finalizing => 1,
            SolvePhase::Finished => 0,
        }
    }
}

/// Well-formedness is kept by every event.
pub proof fn lemma_solve_keeps_wf(s: SolveModel, event: SolveEvent)
    requires
        s.wf(),
    ensures
        s.next(event).wf(),
{
    let t = s.next(event);
    match (s.phase, event) {
        (SolvePhase::Measuring, SolveEvent::Measured(value)) => {
            let least = t.best->0;
            assert(t.measured[s.measured.len() as int] == value);
            if least == value {
                assert(t.measured.contains(least));
            } else {
                let k = choose|k: int| 0 <= k < s.measured.len() && s.measured[k] == least;
                assert(t.measured[k] == least);
            }
            assert forall|i: int| 0 <= i < t.measured.len() implies least
                <= #[trigger] t.measured[i] by {
                if i < s.measured.len() {
                    assert(t.measured[i] == s.measured[i]);
                }
            }
            assert(t.measured.last() == value);
        },
        _ => {},
    }
}

/// A solve never runs more iterations than its cap allows and always comes
/// to an end: every event that answers the command that is due brings the
/// bound on the events still to come down, the bound is twice the cap and two
/// at the start, whatever the target, and an iteration is only ever asked for
/// under a number below the cap.
pub proof fn lemma_solve_ends(s: SolveModel, event: SolveEvent)
    requires
        s.wf(),
        s.answers(event),
    ensures
        s.next(event).budget() < s.budget(),
        s.next(event).done <= s.cap,
        s.next(event).cap == s.cap,
        s.command() matches SolveCommand::Iterate(number) ==> number < s.cap,
        SolveModel::initial(s.cap, s.target).budget() == 2 * s.cap + 2,
        s.budget() == 0 <==> s.phase == SolvePhase::Finished,
{
}

/// The event by which a solver answers the command that is due in `s`, where
/// `measure` gives the exploitability that it measures after a number of
/// iterations.
pub open spec fn solve_reply(s: SolveModel, measure: spec_fn(u32) -> u64) -> SolveEvent {
    match s.command() {
        SolveCommand::Measure => SolveEvent::Measured(measure(s.done)),
        SolveCommand::Iterate(_) => SolveEvent::Iterated,
        _ => SolveEvent::Finalized,
    }
}

/// The state after `n` events of a solve that a solver answers.
pub open spec fn solve_after(s: SolveModel, measure: spec_fn(u32) -> u64, n: nat) -> SolveModel
    decreases n,
{
    if n == 0 {
        s
    } else {
        solve_after(s.next(solve_reply(s, measure)), measure, (n - 1) as nat)
    }
}

proof fn lemma_solve_within_budget(s: SolveModel, measure: spec_fn(u32) -> u64, n: nat)
    requires
        s.wf(),
        s.budget() <= n,
    ensures
        solve_after(s, measure, n).phase == SolvePhase::Finished,
        solve_after(s, measure, n).wf(),
        solve_after(s, measure, n).cap == s.cap,
        solve_after(s, measure, n).target == s.target,
    decreases n,
{
    if n > 0 {
        let event = solve_reply(s, measure);
        lemma_solve_keeps_wf(s, event);
        if s.phase != SolvePhase::Finished {
            lemma_solve_ends(s, event);
        }
        lemma_solve_within_budget(s.next(event), measure, (n - 1) as nat);
    }
}

/// Whatever a solver measures, and whatever the target, a solve is finished
/// after at most twice its cap and two events. It has then run no more
/// iterations than its cap, and it ended at the cap or with a last
/// measurement at or below the target. Its best measurement is one of its
/// measurements and the least of them.
pub proof fn lemma_solve_finishes(cap: u32, target: u64, measure: spec_fn(u32) -> u64)
    ensures
        ({
            let end = solve_after(SolveModel::initial(cap, target), measure, (2 * cap + 2) as nat);
            &&& end.phase == SolvePhase::Finished
            &&& end.done <= cap
            &&& end.done == cap || end.measured.last() <= target
            &&& end.best is Some
            &&& end.measured.contains(end.best->0)
            &&& forall|i: int| 0 <= i < end.measured.len() ==> end.best->0 <= #[trigger] end.measured[i]
        }),
{
    lemma_solve_within_budget(SolveModel::initial(cap, target), measure, (2 * cap + 2) as nat);
}

/// A solve, as a state that is advanced event by event.
pub struct SolveRun {
    cap: u32,
    target: u64,
    done: u32,
    best: Option<u64>,
    phase: SolvePhase,
    measured: Ghost<Seq<u64>>,
}

impl View for SolveRun {
    type V = SolveModel;

    closed spec fn view(&self) -> SolveModel {
        SolveModel {
            cap: self.cap,
            target: self.target,
            done: self.done,
            measured: self.measured@,
            best: self.best,
            phase: self.phase,
        }
    }
}

impl SolveRun {
    #[verifier::type_invariant]
    spec fn inv(self) -> bool {
        self@.wf()
    }

    /// A solve that has not begun, with its cap on iterations and the
    /// exploitability, in millionths of a chip, at which it may stop.
    pub fn new(max_iterations: u32, target: u64) -> (run: Self)
        ensures
            run@ == SolveModel::initial(max_iterations, target),
    {
        SolveRun {
            cap: max_iterations,
            target,
            done: 0,
            best: None,
            phase: SolvePhase::Measuring,
            measured: Ghost(Seq::empty()),
        }
    }

    /// The command that is due.
    pub fn command(&self) -> (command: SolveCommand)
        ensures
            command == self@.command(),
            command matches SolveCommand::Iterate(number) ==> number < self@.cap,
    {
        proof {
            use_type_invariant(self);
        }
        match self.phase {
            SolvePhase::Measuring => SolveCommand::Measure,
            SolvePhase::Iterating => SolveCommand::Iterate(self.done),
            SolvePhase::Finalizing => SolveCommand::Finalize,
            SolvePhase::Finished => SolveCommand::Finished,
        }
    }

    /// The iterations run so far: never more than the cap.
    pub fn iterations(&self) -> (done: u32)
        ensures
            done == self@.done,
            done <= self@.cap,
    {
        proof {
            use_type_invariant(self);
        }
        self.done
    }

    /// The best exploitability measured so far, in millionths of a chip: the
    /// least of the measurements, and `None` before the first. A solve that
    /// is finished has one.
    pub fn exploitability(&self) -> (best: Option<u64>)
        ensures
            best == self@.best,
            best is Some <==> self@.measured.len() > 0,
            self@.phase == SolvePhase::Finished ==> best is Some,
            best matches Some(least) ==> self@.measured.contains(least) && forall|i: int|
                0 <= i < self@.measured.len() ==> least <= #[trigger] self@.measured[i],
    {
        proof {
            use_type_invariant(self);
        }
        self.best
    }

    /// Whether the solve is over: the strategies are ready for queries.
    pub fn is_finished(&self) -> (done: bool)
        ensures
            done <==> self@.phase == SolvePhase::Finished,
    {
        self.phase == SolvePhase::Finished
    }

    /// Advances the solve by one event.
    ///
    /// A measurement is taken down, and the solve goes on to finalize where
    /// it is at or below the target or the cap is reached, and to iterate
    /// otherwise. An iteration is counted, and a measurement is due after
    /// every tenth and after the last one. An event that does not answer the
    /// command that is due changes nothing.
    pub fn step(self, event: SolveEvent) -> (next: Self)
        ensures
            next@ == self@.next(event),
            next@.wf(),
    {
        proof {
            use_type_invariant(&self);
            lemma_solve_keeps_wf(self@, event);
        }
        let ghost before = self@;
        let SolveRun { cap, target, done, best, phase, measured } = self;
        let next = match event {
            SolveEvent::Measured(value) => {
                if phase == SolvePhase::Measuring {
                    let least = match best {
                        Some(least) => if least <= value {
                            least
                        } else {
                            value
                        },
                        None => value,
                    };
                    let phase = if value <= target || done >= cap {
                        SolvePhase::Finalizing
                    } else {
                        SolvePhase::Iterating
                    };
                    SolveRun {
                        cap,
                        target,
                        done,
                        best: Some(least),
                        phase,
                        measured: Ghost(before.measured.push(value)),
                    }
                } else {
                    SolveRun { cap, target, done, best, phase, measured }
                }
            },
            SolveEvent::Iterated => {
                if phase == SolvePhase::Iterating {
                    let done = done + 1;
                    let phase = if done % MEASURE_EVERY == 0 || done >= cap {
                        SolvePhase::Measuring
                    } else {
                        SolvePhase::Iterating
                    };
                    SolveRun { cap, target, done, best, phase, measured }
                } else {
                    SolveRun { cap, target, done, best, phase, measured }
                }
            },
            SolveEvent::Finalized => {
                if phase == SolvePhase::Finalizing {
                    SolveRun { cap, target, done, best, phase: SolvePhase::Finished, measured }
                } else {
                    SolveRun { cap, target, done, best, phase, measured }
                }
            },
        };
        proof {
            assert(next@ =~= before.next(event));
        }
        next
    }
}

} // verus!
