//! The progress channel.
//!
//! Work reports its advance through a narrow sink interface; the
//! consumer may render, collect or drop the events. Reporting is
//! rate-limited by a count interval so a slow consumer is never
//! flooded: of a batch of n steps, about every tenth step is reported,
//! never more than one in a row and never fewer than one in a
//! thousand.

use vstd::prelude::*;

verus! {

/// A passive sink of progress events.
pub trait ProgressReporter {
    /// Takes a bare message.
    fn report_msg(&mut self, message: &str);

    /// Takes an advance: the current step out of a total, with a
    /// message.
    fn report_progress(&mut self, current: usize, total: usize, message: &str);

    /// Takes the terminal "completed" signal.
    fn report_complete(&mut self);
}

/// A sink that drops every event.
pub struct SilentProgress;

impl ProgressReporter for SilentProgress {
    fn report_msg(&mut self, message: &str) {
    }

    fn report_progress(&mut self, current: usize, total: usize, message: &str) {
    }

    fn report_complete(&mut self) {
    }
}

/// One collected progress event.
#[derive(Debug)]
pub struct ProgressEvent {
    pub current: usize,
    pub total: usize,
    pub message: String,
    pub completed: bool,
}

/// A sink that collects every event for later inspection.
#[derive(Debug)]
pub struct ProgressLog {
    pub events: Vec<ProgressEvent>,
}

impl ProgressLog {
    /// An empty log.
    pub fn new() -> (r: ProgressLog)
        ensures
            r.events@.len() == 0,
    {
        ProgressLog { events: Vec::new() }
    }

    /// How many events were collected.
    pub fn len(&self) -> (r: usize)
        ensures
            r == self.events@.len(),
    {
        self.events.len()
    }
}

impl ProgressReporter for ProgressLog {
    fn report_msg(&mut self, message: &str) {
        self.events.push(
            ProgressEvent {
                current: 0,
                total: 0,
                message: String::from_str(message),
                completed: false,
            },
        );
    }

    fn report_progress(&mut self, current: usize, total: usize, message: &str) {
        self.events.push(
            ProgressEvent { current, total, message: String::from_str(message), completed: false },
        );
    }

    fn report_complete(&mut self) {
        self.events.push(
            ProgressEvent { current: 0, total: 0, message: String::new(), completed: true },
        );
    }
}

/// The running state of one batch of work.
#[derive(Debug)]
pub struct Progress {
    pub current: usize,
    pub total: usize,
    pub message: String,
    pub completed: bool,
}

impl Progress {
    /// A fresh state: nothing done, nothing expected.
    pub fn new() -> (r: Progress)
        ensures
            r.current == 0,
            r.total == 0,
            r.message@.len() == 0,
            !r.completed,
    {
        Progress { current: 0, total: 0, message: String::new(), completed: false }
    }

    /// How far the work is.
    pub fn current(&self) -> (r: usize)
        ensures
            r == self.current,
    {
        self.current
    }

    /// How much work there is in all.
    pub fn total(&self) -> (r: usize)
        ensures
            r == self.total,
    {
        self.total
    }

    /// The current message.
    pub fn message(&self) -> (r: &String)
        ensures
            r == &self.message,
    {
        &self.message
    }

    /// Whether the work was declared complete.
    pub fn is_completed(&self) -> (r: bool)
        ensures
            r == self.completed,
    {
        self.completed
    }

    /// Sets how much work there is in all.
    pub fn set_total(&mut self, total: usize)
        ensures
            final(self).total == total,
            final(self).current == old(self).current,
            final(self).message == old(self).message,
            final(self).completed == old(self).completed,
    {
        self.total = total;
    }

    /// Sets the current step.
    pub fn set_current(&mut self, current: usize)
        ensures
            final(self).current == current,
            final(self).total == old(self).total,
            final(self).message == old(self).message,
            final(self).completed == old(self).completed,
    {
        self.current = current;
    }

    /// Sets the message.
    pub fn set_message(&mut self, message: &str)
        ensures
            final(self).message@ == message@,
            final(self).current == old(self).current,
            final(self).total == old(self).total,
            final(self).completed == old(self).completed,
    {
        self.message = String::from_str(message);
    }

    /// Marks the work complete.
    pub fn set_completed(&mut self)
        ensures
            final(self).completed,
            final(self).current == old(self).current,
            final(self).total == old(self).total,
            final(self).message == old(self).message,
    {
        self.completed = true;
    }

    /// Puts the state back to fresh.
    pub fn reset(&mut self)
        ensures
            final(self).current == 0,
            final(self).total == 0,
            final(self).message@.len() == 0,
            !final(self).completed,
    {
        self.current = 0;
        self.total = 0;
        self.message = String::new();
        self.completed = false;
    }
}

/// The report interval for a batch: a tenth of the total, at least one
/// and at most a thousand.
pub fn report_interval_for(total: usize) -> (r: usize)
    ensures
        r == if total / 10 < 1 {
            1usize
        } else if total / 10 > 1000 {
            1000usize
        } else {
            total / 10
        },
        1 <= r <= 1000,
{
    let tenth = total / 10;
    if tenth < 1 {
        1
    } else if tenth > 1000 {
        1000
    } else {
        tenth
    }
}

/// Whether the step at this count is one of the rate-limited reports.
pub fn should_report(current: usize, interval: usize) -> (r: bool)
    requires
        interval >= 1,
    ensures
        r == (current % interval == 0),
{
    current % interval == 0
}

} // verus!
