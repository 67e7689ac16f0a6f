//! Trigger instants from a cron expression.
//!
//! Instants are whole seconds since the Unix epoch. The calendar fields of
//! the expression are read in a time zone at a fixed offset from UTC,
//! chosen when the schedule is made.
use vstd::prelude::*;

verus! {

#[verifier::external_type_specification]
#[verifier::external_body]
pub struct ExSchedule(cron::Schedule);

#[verifier::external_type_specification]
#[verifier::external_body]
pub struct ExCronError(cron::error::Error);

/// The last instant a schedule is asked about: 9999-12-31T23:59:59Z.
pub const LATEST_INSTANT: i64 = 253402300799;

/// The bound, exclusive, on the size of a UTC offset in seconds: one day.
pub const OFFSET_BOUND: i32 = 86400;

/// Whether the cron parser accepts `expression`.
pub uninterp spec fn cron_accepts(expression: Seq<char>) -> bool;

/// Relies on `cron::Schedule::from_str`: whether an expression parses
/// depends on its text alone.
#[verifier::external_body]
fn parse_cron(expression: &str) -> (r: Result<cron::Schedule, cron::error::Error>)
    ensures
        r is Ok <==> cron_accepts(expression@),
{
    <cron::Schedule as std::str::FromStr>::from_str(expression)
}

/// The first instant of the cron `expression` strictly after `after`, its
/// calendar fields read at `utc_offset` seconds east of UTC; `None` once its
/// years run out.
pub uninterp spec fn cron_next(expression: Seq<char>, after: int, utc_offset: int) -> Option<int>;

/// Relies on `cron::Schedule::from_str` and `cron::Schedule::after` (with
/// chrono's `FixedOffset` and `DateTime::from_timestamp` to build its
/// start): at a fixed offset the answer depends on the expression, the start
/// and the offset alone, and the source seeks it from `after` plus one
/// second onwards.
#[verifier::external_body]
fn next_cron_instant(expression: &str, after: i64, utc_offset: i32) -> (r: Option<i64>)
    requires
        cron_accepts(expression@),
        0 <= after <= LATEST_INSTANT,
        -OFFSET_BOUND < utc_offset < OFFSET_BOUND,
    ensures
        match r {
            Some(t) => cron_next(expression@, after as int, utc_offset as int) == Some(t as int)
                && after < t,
            None => cron_next(expression@, after as int, utc_offset as int) is None,
        },
{
    let schedule = <cron::Schedule as std::str::FromStr>::from_str(expression).ok()?;
    let zone = chrono::FixedOffset::east_opt(utc_offset)?;
    let start = chrono::DateTime::from_timestamp(after, 0)?.with_timezone(&zone);
    schedule.after(&start).next().map(|t| t.timestamp())
}

/// Why a schedule could not be made.
#[derive(Clone, Copy, Debug, PartialEq, Eq, Structural)]
pub enum ScheduleError {
    /// The cron expression does not parse.
    InvalidExpression,
    /// The start lies before the epoch or after [`LATEST_INSTANT`].
    StartOutOfRange,
    /// The UTC offset is a day or more.
    OffsetOutOfRange,
    /// The expression has no instant after the start, up to [`LATEST_INSTANT`].
    NoUpcomingInstant,
}

/// Whether `start` and `utc_offset` are a start and an offset that a
/// schedule can be asked about.
pub open spec fn valid_start(start: int, utc_offset: int) -> bool {
    &&& 0 <= start <= LATEST_INSTANT
    &&& -OFFSET_BOUND < utc_offset < OFFSET_BOUND
}

/// Whether `expression` has an instant after `start`, up to [`LATEST_INSTANT`].
pub open spec fn has_upcoming(expression: Seq<char>, start: int, utc_offset: int) -> bool {
    cron_next(expression, start, utc_offset) matches Some(t) && t <= LATEST_INSTANT
}

/// The point after which the next instant is sought, given the last one and
/// the time now: whichever is later, so that instants already past are
/// skipped rather than caught up on.
pub open spec fn resume_point(last: int, now: int) -> int {
    if now > last {
        if now > LATEST_INSTANT {
            LATEST_INSTANT as int
        } else {
            now
        }
    } else {
        last
    }
}

/// The recurring trigger instants of a cron expression, produced one at a
/// time, each strictly after the one before and after the time it is asked at.
pub struct Scheduler {
    expression: String,
    last: i64,
}

impl Scheduler {
    /// The cron expression.
    pub closed spec fn expression_spec(&self) -> Seq<char> {
        self.expression@
    }

    /// The instant after which the next one is sought: the start, then the
    /// instant produced last.
    pub closed spec fn last_instant(&self) -> int {
        self.last as int
    }

    pub open spec fn wf(&self) -> bool {
        &&& cron_accepts(self.expression_spec())
        &&& 0 <= self.last_instant() <= LATEST_INSTANT
    }

    /// A schedule for `expression`, whose first instant is the first one
    /// strictly after `start`, with the calendar read at `utc_offset`.
    pub fn new(expression: &str, start: i64, utc_offset: i32) -> (r: Result<Scheduler, ScheduleError>)
        ensures
            !cron_accepts(expression@) ==> r == Err::<Scheduler, _>(
                ScheduleError::InvalidExpression,
            ),
            cron_accepts(expression@) && !(0 <= start <= LATEST_INSTANT) ==> r == Err::<
                Scheduler,
                _,
            >(ScheduleError::StartOutOfRange),
            cron_accepts(expression@) && 0 <= start <= LATEST_INSTANT && !(-OFFSET_BOUND
                < utc_offset < OFFSET_BOUND) ==> r == Err::<Scheduler, _>(
                ScheduleError::OffsetOutOfRange,
            ),
            cron_accepts(expression@) && valid_start(start as int, utc_offset as int)
                && !has_upcoming(expression@, start as int, utc_offset as int) ==> r == Err::<
                Scheduler,
                _,
            >(ScheduleError::NoUpcomingInstant),
            r is Ok <==> cron_accepts(expression@) && valid_start(start as int, utc_offset as int)
                && has_upcoming(expression@, start as int, utc_offset as int),
            r matches Ok(s) ==> {
                &&& s.wf()
                &&& s.expression_spec() == expression@
                &&& s.last_instant() == start
            },
    {
        match parse_cron(expression) {
            Err(_) => Err(ScheduleError::InvalidExpression),
            Ok(_) => {
                if start < 0 || start > LATEST_INSTANT {
                    Err(ScheduleError::StartOutOfRange)
                } else if utc_offset <= -OFFSET_BOUND || utc_offset >= OFFSET_BOUND {
                    Err(ScheduleError::OffsetOutOfRange)
                } else {
                    match next_cron_instant(expression, start, utc_offset) {
                        Some(t) => {
                            if t <= LATEST_INSTANT {
                                Ok(Scheduler { expression: expression.to_owned(), last: start })
                            } else {
                                Err(ScheduleError::NoUpcomingInstant)
                            }
                        },
                        None => Err(ScheduleError::NoUpcomingInstant),
                    }
                }
            },
        }
    }

    /// The next trigger instant: the first of the expression strictly after
    /// both the previous instant and `now`, read at `utc_offset`. Instants
    /// that passed while the caller was away are skipped. `None` once the
    /// expression has no instant left up to [`LATEST_INSTANT`].
    pub fn next_instant(&mut self, now: i64, utc_offset: i32) -> (r: Option<i64>)
        requires
            old(self).wf(),
            -OFFSET_BOUND < utc_offset < OFFSET_BOUND,
        ensures
            final(self).wf(),
            final(self).expression_spec() == old(self).expression_spec(),
            ({
                let from = resume_point(old(self).last_instant(), now as int);
                match cron_next(old(self).expression_spec(), from, utc_offset as int) {
                    Some(t) => if t <= LATEST_INSTANT {
                        &&& r == Some(t as i64)
                        &&& final(self).last_instant() == t
                    } else {
                        r is None
                    },
                    None => r is None,
                }
            }),
            r matches Some(t) ==> {
                &&& old(self).last_instant() < t <= LATEST_INSTANT
                &&& now < t
            },
    {
        let from: i64 = if now > self.last {
            if now > LATEST_INSTANT {
                LATEST_INSTANT
            } else {
                now
            }
        } else {
            self.last
        };
        self.last = from;
        match next_cron_instant(self.expression.as_str(), from, utc_offset) {
            Some(t) => {
                if t <= LATEST_INSTANT {
                    self.last = t;
                    Some(t)
                } else {
                    None
                }
            },
            None => None,
        }
    }
}
/// The time to wait, in milliseconds, from `now_millis` until `instant`
/// (in seconds): none once it has arrived.
pub open spec fn wait_millis(instant: int, now_millis: int) -> int {
    if instant * 1000 > now_millis {
        instant * 1000 - now_millis
    } else {
        0
    }
}

/// How long to wait, in milliseconds, from `now_millis` until the trigger
/// `instant`, in seconds. An instant that has already passed is due at once.
pub fn delay_millis(instant: i64, now_millis: i64) -> (d: u64)
    requires
        0 <= instant <= LATEST_INSTANT,
    ensures
        d == wait_millis(instant as int, now_millis as int),
{
    let due: i128 = instant as i128 * 1000;
    let now: i128 = now_millis as i128;
    if due > now {
        (due - now) as u64
    } else {
        0
    }
}

} // verus!
