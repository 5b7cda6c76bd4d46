//! The date/time selector: reconciles quick presets and manual numeric
//! fields into one canonical instant plus an arrival/departure flag, clamps
//! impossible days instead of rejecting them, and suppresses the commits
//! that re-populating the fields would otherwise re-trigger.

use vstd::prelude::*;

use crate::dates::{
    date_text, days_in_month, hm_text, push_date_text, push_hm_text, spec_days_in_month,
    spec_next_day, Date, DateTime, YEAR_MAX, YEAR_MIN,
};

verus! {

/// The quick choices the picker offers next to the manual fields.
#[derive(Clone, Copy, PartialEq, Eq, Structural, Debug)]
pub enum Preset {
    /// Search from the current time: no explicit instant.
    Now,
    /// Today at 19:00.
    Tonight,
    /// Tomorrow at 09:00.
    TomorrowMorning,
    /// Tomorrow at 19:00.
    TomorrowEvening,
}

/// Recursion guard for commits. While the selector's fields are being
/// re-populated from the committed instant, the field edits that this
/// re-population fires must not commit again: such commits are skipped,
/// not queued.
#[derive(Clone, Copy, PartialEq, Eq, Structural, Debug)]
pub enum CommitGuard {
    Idle,
    Committing,
}

/// What a single field-edit event did.
#[derive(Clone, Copy, PartialEq, Eq, Structural, Debug)]
pub enum StoreOutcome {
    /// The fields formed a valid date and were committed.
    Committed,
    /// The day field exceeds the month's length; the caller should set the
    /// day field to the returned value, which re-triggers the edit.
    DayClamped { day: u8 },
    /// A re-population was in progress; the commit was skipped.
    Skipped,
}

/// The instant a preset selects, relative to today's date.
pub open spec fn preset_instant(p: Preset, today: Date) -> Option<DateTime> {
    match p {
        Preset::Now => None,
        Preset::Tonight => Some(DateTime { date: today, hour: 19, minute: 0 }),
        Preset::TomorrowMorning => Some(DateTime { date: spec_next_day(today), hour: 9, minute: 0 }),
        Preset::TomorrowEvening => Some(
            DateTime { date: spec_next_day(today), hour: 19, minute: 0 },
        ),
    }
}

/// The canonical (instant, arrival-flag) pair behind the time picker.
/// `committed == None` means "use the current time at submission".
pub struct DateTimeSelector {
    pub committed: Option<DateTime>,
    pub arrival: bool,
    pub guard: CommitGuard,
}

impl DateTimeSelector {
    /// A committed instant, if any, is always a valid calendar date and
    /// time: an impossible edit is clamped before it can commit.
    pub open spec fn inv(self) -> bool {
        match self.committed {
            Some(dt) => dt.valid(),
            None => true,
        }
    }

    /// A fresh selector: no instant (meaning "now"), departure search.
    pub fn new() -> (r: DateTimeSelector)
        ensures
            r.committed is None,
            !r.arrival,
            r.guard == CommitGuard::Idle,
            r.inv(),
    {
        DateTimeSelector { committed: None, arrival: false, guard: CommitGuard::Idle }
    }

    /// The committed instant, `None` meaning "now".
    pub fn get_date_time(&self) -> (r: Option<DateTime>)
        ensures
            r == self.committed,
    {
        self.committed
    }

    pub fn is_arrival_time(&self) -> (r: bool)
        ensures
            r == self.arrival,
    {
        self.arrival
    }

    /// Flips between constraining the departure and the arrival time; the
    /// committed instant is untouched.
    pub fn toggle_arrival(&mut self)
        ensures
            final(self).arrival == !old(self).arrival,
            final(self).committed == old(self).committed,
            final(self).guard == old(self).guard,
            old(self).inv() ==> final(self).inv(),
    {
        self.arrival = !self.arrival;
    }

    /// A preset was chosen: commit its instant, unless a re-population is
    /// in progress.
    pub fn select_preset(&mut self, p: Preset, today: Date) -> (done: bool)
        requires
            today.valid(),
            today.year <= 9998,
        ensures
            old(self).guard == CommitGuard::Idle ==> done && final(self).committed
                == preset_instant(p, today),
            old(self).guard == CommitGuard::Committing ==> !done && *final(self) == *old(self),
            final(self).arrival == old(self).arrival,
            final(self).guard == old(self).guard,
            old(self).inv() ==> final(self).inv(),
    {
        match p {
            Preset::Now => self.commit(None),
            Preset::Tonight => self.commit(Some(DateTime { date: today, hour: 19, minute: 0 })),
            Preset::TomorrowMorning => {
                let tomorrow = today.next_day();
                self.commit(Some(DateTime { date: tomorrow, hour: 9, minute: 0 }))
            },
            Preset::TomorrowEvening => {
                let tomorrow = today.next_day();
                self.commit(Some(DateTime { date: tomorrow, hour: 19, minute: 0 }))
            },
        }
    }

    /// One field-edit event, exactly as the picker's spinners fire it: if
    /// the day does not exist in the edited month, the day field is fixed
    /// and nothing commits; otherwise the edited instant commits, unless a
    /// re-population is in progress.
    pub fn store_fields(&mut self, year: u16, month: u8, day: u8, hour: u8, minute: u8) -> (r:
        StoreOutcome)
        requires
            YEAR_MIN <= year <= YEAR_MAX,
            1 <= month <= 12,
            1 <= day <= 31,
            hour <= 23,
            minute <= 59,
        ensures
            day > spec_days_in_month(year as int, month as int) ==> *final(self) == *old(self) && r
                == (StoreOutcome::DayClamped {
                day: spec_days_in_month(year as int, month as int) as u8,
            }),
            day <= spec_days_in_month(year as int, month as int) && old(self).guard
                == CommitGuard::Committing ==> *final(self) == *old(self) && r
                == StoreOutcome::Skipped,
            day <= spec_days_in_month(year as int, month as int) && old(self).guard
                == CommitGuard::Idle ==> r == StoreOutcome::Committed && final(self).committed
                == Some(
                DateTime { date: Date { year, month, day }, hour, minute },
            ),
            final(self).arrival == old(self).arrival,
            final(self).guard == old(self).guard,
            old(self).inv() ==> final(self).inv(),
    {
        let dim = days_in_month(year, month);
        if day > dim {
            StoreOutcome::DayClamped { day: dim }
        } else {
            let done = self.commit(
                Some(DateTime { date: Date { year, month, day }, hour, minute }),
            );
            if done {
                StoreOutcome::Committed
            } else {
                StoreOutcome::Skipped
            }
        }
    }

    /// A full manual edit of the fields: the day is clamped to the last
    /// valid day of the edited month, then the corrected instant commits
    /// (unless a re-population is in progress). The committed instant is
    /// never an invalid calendar date.
    pub fn edit_fields(&mut self, year: u16, month: u8, day: u8, hour: u8, minute: u8) -> (done:
        bool)
        requires
            YEAR_MIN <= year <= YEAR_MAX,
            1 <= month <= 12,
            1 <= day <= 31,
            hour <= 23,
            minute <= 59,
        ensures
            old(self).guard == CommitGuard::Idle ==> done && final(self).committed == Some(
                DateTime {
                    date: Date {
                        year,
                        month,
                        day: if day <= spec_days_in_month(year as int, month as int) {
                            day
                        } else {
                            spec_days_in_month(year as int, month as int) as u8
                        },
                    },
                    hour,
                    minute,
                },
            ) && final(self).committed->Some_0.valid(),
            old(self).guard == CommitGuard::Committing ==> !done && *final(self) == *old(self),
            final(self).arrival == old(self).arrival,
            final(self).guard == old(self).guard,
            old(self).inv() ==> final(self).inv(),
    {
        let dim = days_in_month(year, month);
        let corrected = if day > dim {
            dim
        } else {
            day
        };
        self.commit(Some(DateTime { date: Date { year, month, day: corrected }, hour, minute }))
    }

    /// The picker opened: re-population of the fields begins, and until
    /// [`Self::end_refill`] the commits it fires are skipped. Returns the
    /// field values to display: the committed instant, or the current time.
    pub fn begin_refill(&mut self, now: DateTime) -> (fields: DateTime)
        ensures
            final(self).guard == CommitGuard::Committing,
            final(self).committed == old(self).committed,
            final(self).arrival == old(self).arrival,
            fields == match old(self).committed {
                Some(dt) => dt,
                None => now,
            },
            old(self).inv() ==> final(self).inv(),
    {
        self.guard = CommitGuard::Committing;
        match self.committed {
            Some(dt) => dt,
            None => now,
        }
    }

    /// Re-population of the fields is finished: commits act again.
    pub fn end_refill(&mut self)
        ensures
            final(self).guard == CommitGuard::Idle,
            final(self).committed == old(self).committed,
            final(self).arrival == old(self).arrival,
            old(self).inv() ==> final(self).inv(),
    {
        self.guard = CommitGuard::Idle;
    }

    /// The try-acquire at the heart of the commit path: while the guard is
    /// held the commit is skipped, not queued or retried.
    fn commit(&mut self, t: Option<DateTime>) -> (done: bool)
        requires
            t is Some ==> t->Some_0.valid(),
        ensures
            old(self).guard == CommitGuard::Idle ==> done && final(self).committed == t,
            old(self).guard == CommitGuard::Committing ==> !done && *final(self) == *old(self),
            final(self).arrival == old(self).arrival,
            final(self).guard == old(self).guard,
            old(self).inv() ==> final(self).inv(),
    {
        match self.guard {
            CommitGuard::Idle => {
                self.committed = t;
                true
            },
            CommitGuard::Committing => false,
        }
    }

    /// The date for the search request: `None` when no instant is set or
    /// when it falls on the current calendar day (the collaborator's
    /// default is "today"), else `YYYY-MM-DD`.
    pub fn get_date(&self, today: Date) -> (r: Option<String>)
        requires
            self.inv(),
        ensures
            self.committed is None ==> r is None,
            self.committed is Some && self.committed->Some_0.date == today ==> r is None,
            self.committed is Some && self.committed->Some_0.date != today ==> r is Some
                && r->Some_0@ == date_text(self.committed->Some_0.date),
    {
        match &self.committed {
            Some(dt) => {
                if dt.date == today {
                    None
                } else {
                    let mut out = String::new();
                    push_date_text(&mut out, dt.date);
                    Some(out)
                }
            },
            None => None,
        }
    }

    /// The time for the search request: `None` only when no instant is
    /// set, else `HH:MM`.
    pub fn get_time(&self) -> (r: Option<String>)
        requires
            self.inv(),
        ensures
            self.committed is None ==> r is None,
            self.committed is Some ==> r is Some && r->Some_0@ == hm_text(
                self.committed->Some_0.hour as int,
                self.committed->Some_0.minute as int,
            ),
    {
        match &self.committed {
            Some(dt) => {
                let mut out = String::new();
                push_hm_text(&mut out, dt.hour, dt.minute);
                Some(out)
            },
            None => None,
        }
    }

    /// The displayed summary: "Departure"/"Arrival", then "now" or the
    /// committed instant as `YYYY-MM-DD HH:MM`.
    pub fn summary_text(&self) -> (r: String)
        requires
            self.inv(),
        ensures
            r@ == summary_spec(*self),
    {
        let mut out = if self.arrival {
            String::from_str("Arrival")
        } else {
            String::from_str("Departure")
        };
        match &self.committed {
            Some(dt) => {
                out.append(" at ");
                push_date_text(&mut out, dt.date);
                out.append(" ");
                push_hm_text(&mut out, dt.hour, dt.minute);
            },
            None => {
                out.append(" now");
            },
        }
        proof {
            reveal_strlit(" ");
            assert(out@ =~= summary_spec(*self));
        }
        out
    }
}

/// The summary the selector displays for its current state.
pub open spec fn summary_spec(s: DateTimeSelector) -> Seq<char> {
    let head = if s.arrival {
        "Arrival"@
    } else {
        "Departure"@
    };
    match s.committed {
        Some(dt) => head + " at "@ + date_text(dt.date) + seq![' '] + hm_text(
            dt.hour as int,
            dt.minute as int,
        ),
        None => head + " now"@,
    }
}

} // verus!
