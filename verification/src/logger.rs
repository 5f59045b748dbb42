//! Where the controller reports what it notices.
use vstd::prelude::*;
use crate::types::SystemState;

verus! {

/// Reported when the pedal assist level is out of range.
pub const PAS_WARNING: &'static str = "Ostrzezenie: Przekroczono zakres PAS_Value, obcieto do MAX_PAS_VALUE";

/// Reported when the brake value is out of range.
pub const BRAKE_WARNING: &'static str = "Ostrzezenie: Przekroczono zakres Brake_Value, obcieto do MAX_BRAKE_VALUE";

/// Reported when the speed is negative or not finite.
pub const SPEED_WARNING: &'static str = "Ostrzezenie: Nieprawidlowa predkosc, obcieto do 0.0";

/// One thing that was reported.
pub enum LogEntry {
    Event(Seq<char>),
    StateChange { from: SystemState, to: SystemState },
}

/// A receiver of reports, for users of the controller to implement. An
/// implementation may do with a report what it likes; `history` is the sequence
/// of all reports that were handed to it.
pub trait Logger {
    /// All reports so far, the oldest first. Code outside the verifier need not
    /// define it; a verified implementation has to, since no fixed value meets
    /// what the two methods promise.
    closed spec fn history(&self) -> Seq<LogEntry> {
        arbitrary()
    }

    /// Takes a message.
    fn log_event(&mut self, message: &'static str)
        ensures
            final(self).history() == old(self).history().push(LogEntry::Event(message@)),
    ;

    /// Takes a change of state.
    fn log_state_change(&mut self, from: SystemState, to: SystemState)
        ensures
            final(self).history() == old(self).history().push(LogEntry::StateChange { from, to }),
    ;
}

/// One report as an [`EventLog`] keeps it.
#[derive(Debug, Clone, Copy, PartialEq, Eq)]
pub enum Report {
    Event(&'static str),
    StateChange { from: SystemState, to: SystemState },
}

impl View for Report {
    type V = LogEntry;

    open spec fn view(&self) -> LogEntry {
        match *self {
            Report::Event(message) => LogEntry::Event(message@),
            Report::StateChange { from, to } => LogEntry::StateChange { from, to },
        }
    }
}

/// A logger that keeps all reports in memory.
pub struct EventLog {
    reports: Vec<Report>,
}

impl EventLog {
    /// A log without reports.
    pub fn new() -> (log: Self)
        ensures
            log.history() == Seq::<LogEntry>::empty(),
    {
        let log = EventLog { reports: Vec::new() };
        assert(log.history() =~= Seq::<LogEntry>::empty());
        log
    }

    /// All reports so far, the oldest first.
    pub fn reports(&self) -> (reports: &Vec<Report>)
        ensures
            reports@.map_values(|r: Report| r@) == self.history(),
    {
        &self.reports
    }
}

impl Logger for EventLog {
    closed spec fn history(&self) -> Seq<LogEntry> {
        self.reports@.map_values(|r: Report| r@)
    }

    fn log_event(&mut self, message: &'static str) {
        self.reports.push(Report::Event(message));
        assert(self.history() =~= old(self).history().push(LogEntry::Event(message@)));
    }

    fn log_state_change(&mut self, from: SystemState, to: SystemState) {
        self.reports.push(Report::StateChange { from, to });
        assert(self.history() =~= old(self).history().push(LogEntry::StateChange { from, to }));
    }
}

} // verus!
