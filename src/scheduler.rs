//! The daily indexing trigger: once per day at a configured time.
use vstd::prelude::*;

verus! {

/// A daily trigger at `hour:minute`, remembering the day it last fired.
pub struct Scheduler {
    enabled: bool,
    hour: u32,
    minute: u32,
    last_run_day: Option<i64>,
}

impl Scheduler {
    pub closed spec fn hour_spec(&self) -> u32 {
        self.hour
    }

    pub closed spec fn minute_spec(&self) -> u32 {
        self.minute
    }

    pub closed spec fn enabled_spec(&self) -> bool {
        self.enabled
    }

    pub closed spec fn last_run_spec(&self) -> Option<i64> {
        self.last_run_day
    }

    /// A stopped trigger at `hour:minute`, both clamped to a valid time.
    pub fn new(hour: u32, minute: u32) -> (r: Scheduler)
        ensures
            r.hour_spec() == if hour > 23 { 23 } else { hour },
            r.minute_spec() == if minute > 59 { 59 } else { minute },
            !r.enabled_spec(),
            r.last_run_spec() is None,
    {
        Scheduler {
            enabled: false,
            hour: if hour > 23 { 23 } else { hour },
            minute: if minute > 59 { 59 } else { minute },
            last_run_day: None,
        }
    }

    pub fn start(&mut self)
        ensures
            final(self).enabled_spec(),
            final(self).hour_spec() == old(self).hour_spec(),
            final(self).minute_spec() == old(self).minute_spec(),
            final(self).last_run_spec() == old(self).last_run_spec(),
    {
        self.enabled = true;
    }

    pub fn stop(&mut self)
        ensures
            !final(self).enabled_spec(),
            final(self).hour_spec() == old(self).hour_spec(),
            final(self).minute_spec() == old(self).minute_spec(),
            final(self).last_run_spec() == old(self).last_run_spec(),
    {
        self.enabled = false;
    }

    pub fn is_enabled(&self) -> (r: bool)
        ensures
            r == self.enabled_spec(),
    {
        self.enabled
    }

    /// Moves the trigger to `hour:minute`, both clamped to a valid time.
    pub fn set_schedule(&mut self, hour: u32, minute: u32)
        ensures
            final(self).hour_spec() == if hour > 23 { 23 } else { hour },
            final(self).minute_spec() == if minute > 59 { 59 } else { minute },
            final(self).enabled_spec() == old(self).enabled_spec(),
            final(self).last_run_spec() == old(self).last_run_spec(),
    {
        self.hour = if hour > 23 { 23 } else { hour };
        self.minute = if minute > 59 { 59 } else { minute };
    }

    pub fn get_schedule(&self) -> (r: (u32, u32))
        ensures
            r == (self.hour_spec(), self.minute_spec()),
    {
        (self.hour, self.minute)
    }

    /// The day (days since the epoch) of the last firing.
    pub fn last_run(&self) -> (r: Option<i64>)
        ensures
            r == self.last_run_spec(),
    {
        self.last_run_day
    }

    /// Whether to fire at local time `hour:minute` of day `today`: while
    /// enabled, at the configured minute, and not yet today. Firing is
    /// remembered.
    pub fn tick(&mut self, hour: u32, minute: u32, today: i64) -> (fire: bool)
        ensures
            fire == (old(self).enabled_spec() && hour == old(self).hour_spec() && minute == old(self).minute_spec()
                && old(self).last_run_spec() != Some(today)),
            fire ==> final(self).last_run_spec() == Some(today),
            !fire ==> final(self).last_run_spec() == old(self).last_run_spec(),
            final(self).enabled_spec() == old(self).enabled_spec(),
            final(self).hour_spec() == old(self).hour_spec(),
            final(self).minute_spec() == old(self).minute_spec(),
    {
        let already = match self.last_run_day {
            Some(d) => d == today,
            None => false,
        };
        if self.enabled && hour == self.hour && minute == self.minute && !already {
            self.last_run_day = Some(today);
            true
        } else {
            false
        }
    }
}

impl Default for Scheduler {
    /// A stopped trigger at 2:00.
    fn default() -> (r: Scheduler)
        ensures
            r.hour_spec() == 2,
            r.minute_spec() == 0,
            !r.enabled_spec(),
            r.last_run_spec() is None,
    {
        Scheduler::new(2, 0)
    }
}

} // verus!
