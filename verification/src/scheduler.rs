//! Job scheduling decisions: how long a job waits before its next run, the
//! cron expression built from a job's fields, which jobs are switched on,
//! and the step function of a job's run loop.
use vstd::prelude::*;
use vstd::hash_map::HashMapWithView;
use crate::models::Job;
use crate::sync::opt_text;
use crate::text::{append_chars, chars_of, string_of};

verus! {

// ==================== delays ====================

/// Seconds to wait in interval mode: the interval (60 when unset) in
/// minutes, at least one minute.
pub open spec fn interval_delay_spec(interval: Option<i32>) -> int {
    let minutes: int = match interval {
        Some(v) => v as int,
        None => 60,
    };
    if minutes < 1 {
        60
    } else {
        minutes * 60
    }
}

/// The interval of a job, when set, is not negative.
pub open spec fn interval_ok(interval: Option<i32>) -> bool {
    match interval {
        Some(v) => v >= 0,
        None => true,
    }
}

/// Seconds to wait in interval mode.
pub fn interval_delay(interval: Option<i32>) -> (r: u64)
    requires
        interval_ok(interval),
    ensures
        r == interval_delay_spec(interval),
{
    let minutes: u64 = match interval {
        Some(v) => v as u64,
        None => 60,
    };
    let m: u64 = if minutes < 1 {
        1
    } else {
        minutes
    };
    m * 60
}

/// Whole seconds from `now_ms` to `next_ms` (both in milliseconds), at
/// least one.
pub open spec fn fire_delay_spec(next_ms: int, now_ms: int) -> int {
    let d = next_ms - now_ms;
    if d < 1000 {
        1
    } else {
        d / 1000
    }
}

/// Seconds until the next cron firing, given the firing time found (if any)
/// and the current time, both in milliseconds since the epoch; without a
/// firing time the interval delay applies.
pub fn cron_delay(next_ms: Option<i64>, now_ms: i64, interval: Option<i32>) -> (r: u64)
    requires
        interval_ok(interval),
    ensures
        r == match next_ms {
            Some(n) => fire_delay_spec(n as int, now_ms as int),
            None => interval_delay_spec(interval),
        },
{
    match next_ms {
        Some(n) => {
            let d: i128 = n as i128 - now_ms as i128;
            if d < 1000 {
                1
            } else {
                let secs: i128 = d / 1000;
                assert(secs <= u64::MAX) by (nonlinear_arith)
                    requires
                        secs == d / 1000,
                        d <= i64::MAX - i64::MIN,
                        d >= 1000,
                ;
                secs as u64
            }
        },
        None => interval_delay(interval),
    }
}

// ==================== cron expression ====================

/// An optional field's text, or a default.
pub open spec fn or_text(v: Option<Seq<char>>, default: Seq<char>) -> Seq<char> {
    match v {
        Some(s) => s,
        None => default,
    }
}

/// The six-field cron expression of a job whose minute field is `minute`:
/// second, minute, hour, day, month and day of week, separated by spaces,
/// with `0` for an unset second and `*` for the other unset fields.
pub open spec fn cron_text(job: Job, minute: Seq<char>) -> Seq<char> {
    or_text(opt_text(job.second), "0"@) + " "@ + minute + " "@ + or_text(opt_text(job.hour), "*"@)
        + " "@ + or_text(opt_text(job.day), "*"@) + " "@ + or_text(opt_text(job.month), "*"@)
        + " "@ + or_text(opt_text(job.day_of_week), "*"@)
}

fn field_or(v: &Option<String>, default: &str) -> (r: Vec<char>)
    ensures
        r@ == or_text(opt_text(*v), default@),
{
    match v {
        Some(s) => chars_of(s.as_str()),
        None => chars_of(default),
    }
}

/// Builds the cron expression of a job from its fields.
pub fn cron_expression(job: &Job, minute: &str) -> (r: String)
    ensures
        r@ == cron_text(*job, minute@),
{
    let sp = chars_of(" ");
    let mut v = field_or(&job.second, "0");
    append_chars(&mut v, &sp);
    append_chars(&mut v, &chars_of(minute));
    append_chars(&mut v, &sp);
    append_chars(&mut v, &field_or(&job.hour, "*"));
    append_chars(&mut v, &sp);
    append_chars(&mut v, &field_or(&job.day, "*"));
    append_chars(&mut v, &sp);
    append_chars(&mut v, &field_or(&job.month, "*"));
    append_chars(&mut v, &sp);
    append_chars(&mut v, &field_or(&job.day_of_week, "*"));
    string_of(&v)
}

// ==================== cron crate ====================

#[verifier::external_type_specification]
#[verifier::external_body]
pub struct ExSchedule(cron::Schedule);

/// Whether `cron::Schedule` parses the expression.
pub uninterp spec fn spec_cron_valid(expr: Seq<char>) -> bool;

/// Parses a cron expression with `cron::Schedule`'s `FromStr`; the result
/// is present exactly when the expression parses, which depends on the text
/// alone.
#[verifier::external_body]
fn parse_schedule(expr: &str) -> (r: Option<cron::Schedule>)
    ensures
        r is Some <==> spec_cron_valid(expr@),
{
    expr.parse::<cron::Schedule>().ok()
}

/// The first firing of the schedule from now on (`Schedule::upcoming` in
/// UTC), in milliseconds since the epoch. It depends on the clock, so
/// nothing is stated of it.
#[verifier::external_body]
fn upcoming_millis(schedule: &cron::Schedule) -> (r: Option<i64>) {
    match schedule.upcoming(chrono::Utc).next() {
        Some(t) => Some(t.timestamp_millis()),
        None => None,
    }
}

/// The current time (`chrono::Utc::now`) in milliseconds since the epoch.
/// It depends on the clock, so nothing is stated of it.
#[verifier::external_body]
pub(crate) fn now_millis() -> (r: i64) {
    chrono::Utc::now().timestamp_millis()
}

/// Seconds until a cron job's next run. A job without a minute field, or
/// whose expression does not parse, waits its interval delay; otherwise the
/// delay comes from the schedule and the clock and is at least one second.
pub fn next_cron_delay(job: &Job) -> (r: u64)
    requires
        interval_ok(job.interval),
    ensures
        r >= 1,
        match job.minute {
            Some(m) => !spec_cron_valid(cron_text(*job, m@)) ==> r == interval_delay_spec(
                job.interval,
            ),
            None => r == interval_delay_spec(job.interval),
        },
{
    match &job.minute {
        Some(m) => {
            let text = cron_expression(job, m.as_str());
            match parse_schedule(text.as_str()) {
                Some(schedule) => {
                    let next = upcoming_millis(&schedule);
                    if next.is_some() {
                        let now = now_millis();
                        return cron_delay(next, now, job.interval);
                    }
                },
                None => {},
            }
        },
        None => {},
    }
    interval_delay(job.interval)
}

/// Seconds a job waits before its next run: interval mode (`is_cron` 0)
/// waits its interval, cron mode (`is_cron` 1) until the next firing, and
/// any other mode (manual only) an hour.
pub fn calculate_delay(job: &Job) -> (r: u64)
    requires
        interval_ok(job.interval),
    ensures
        r >= 1,
        job.is_cron == 0 ==> r == interval_delay_spec(job.interval),
        job.is_cron == 1 ==> match job.minute {
            Some(m) => !spec_cron_valid(cron_text(*job, m@)) ==> r == interval_delay_spec(
                job.interval,
            ),
            None => r == interval_delay_spec(job.interval),
        },
        job.is_cron != 0 && job.is_cron != 1 ==> r == 3600,
{
    if job.is_cron == 0 {
        interval_delay(job.interval)
    } else if job.is_cron == 1 {
        next_cron_delay(job)
    } else {
        3600
    }
}

/// A job that runs once: a cron job with a start date.
pub open spec fn runs_once(job: Job) -> bool {
    job.is_cron == 1 && job.start_date is Some
}

/// Whether the run loop of a job ends after its first run.
pub fn stop_after_run(job: &Job) -> (r: bool)
    ensures
        r == runs_once(*job),
{
    job.is_cron == 1 && job.start_date.is_some()
}

// ==================== switched-on jobs ====================

/// Which jobs are switched on for scheduling.
pub struct Scheduler {
    enabled: HashMapWithView<i64, bool>,
}

impl View for Scheduler {
    type V = Map<i64, bool>;

    closed spec fn view(&self) -> Map<i64, bool> {
        self.enabled@
    }
}

/// Whether a job is switched on in a switch map: an unknown job is off.
pub open spec fn switched_on(m: Map<i64, bool>, job_id: i64) -> bool {
    m.contains_key(job_id) && m[job_id]
}

impl Scheduler {
    /// No job switched on.
    pub fn new() -> (r: Scheduler)
        ensures
            r@ == Map::<i64, bool>::empty(),
    {
        broadcast use vstd::std_specs::hash::axiom_i64_obeys_hash_table_key_model;

        Scheduler { enabled: HashMapWithView::new() }
    }

    /// Switches a job on (its run loop is started beside this).
    pub fn start_job(&mut self, job: &Job)
        ensures
            final(self)@ == old(self)@.insert(job.id, true),
    {
        self.enabled.insert(job.id, true);
    }

    /// Switches a job off (its run loop is stopped beside this).
    pub fn stop_job(&mut self, job_id: i64)
        ensures
            final(self)@ == old(self)@.insert(job_id, false),
    {
        self.enabled.insert(job_id, false);
    }

    /// Whether a job is switched on.
    pub fn is_enabled(&self, job_id: i64) -> (r: bool)
        ensures
            r == switched_on(self@, job_id),
    {
        match self.enabled.get(&job_id) {
            Some(b) => *b,
            None => false,
        }
    }
}

/// Law: a started job is on and a stopped job is off until the next start or
/// stop of that job; starting or stopping one job leaves every other job as
/// it was.
pub proof fn law_job_switches(m: Map<i64, bool>, job: i64, other: i64)
    requires
        job != other,
    ensures
        switched_on(m.insert(job, true), job),
        !switched_on(m.insert(job, false), job),
        switched_on(m.insert(job, true), other) == switched_on(m, other),
        switched_on(m.insert(job, false), other) == switched_on(m, other),
{
}

// ==================== run loop ====================

/// What the run loop of a job has just done.
#[derive(Debug, Clone, Copy, PartialEq, Eq)]
pub enum LoopEvent {
    /// The loop was started.
    Begin,
    /// The wait before a run is over.
    Woke,
    /// A run has finished.
    RunFinished,
}

/// What the run loop of a job does next.
#[derive(Debug, Clone, Copy, PartialEq, Eq)]
pub enum LoopAction {
    /// Wait this many seconds.
    Sleep(u64),
    /// Run the job's sync.
    RunSync,
    /// Leave the loop.
    Exit,
}

/// The next step of a job's run loop, given what just happened and whether
/// the job is switched on now: a switched-off job leaves the loop, a run
/// follows each wait, a job that runs once leaves after its run, and any
/// other job waits its delay again.
pub fn loop_step(job: &Job, enabled: bool, event: LoopEvent) -> (r: LoopAction)
    requires
        interval_ok(job.interval),
    ensures
        event == LoopEvent::RunFinished && runs_once(*job) ==> r == LoopAction::Exit,
        !enabled ==> r == LoopAction::Exit,
        enabled && event == LoopEvent::Woke ==> r == LoopAction::RunSync,
        enabled && (event == LoopEvent::Begin || (event == LoopEvent::RunFinished && !runs_once(
            *job,
        ))) ==> (r matches LoopAction::Sleep(d) && d >= 1 && (job.is_cron == 0 ==> d
            == interval_delay_spec(job.interval)) && (job.is_cron != 0 && job.is_cron != 1 ==> d
            == 3600)),
{
    match event {
        LoopEvent::Woke => {
            if enabled {
                LoopAction::RunSync
            } else {
                LoopAction::Exit
            }
        },
        LoopEvent::RunFinished if stop_after_run(job) => LoopAction::Exit,
        _ => {
            if enabled {
                LoopAction::Sleep(calculate_delay(job))
            } else {
                LoopAction::Exit
            }
        },
    }
}

} // verus!
