//! Scheduling: which devices a job targets, what triggers it (a fixed
//! interval or a daily cron expression), and the tally of a run.
use vstd::prelude::*;

use crate::db::schedule::{spec_normalize, JobFields};
use crate::error::AppError;
use crate::models::{NewScheduledJob, ScheduledJob};
use crate::ssh::query::QueryResult;
use crate::text::{
    chars_of, index_of_char, owned, parse_unsigned, push_decimal, push_str, spec_decimal,
    spec_parse_unsigned, spec_split, spec_split_once, spec_trim, str_eq, string_of, trim, trim_bounds,
};

verus! {

/// What a job targets.
#[derive(Debug, Clone)]
pub enum Targets {
    /// One device.
    Device(String),
    /// Every device of a group.
    Group(String),
}

/// Reads a job's target: `device` or `group`; any other target type is
/// refused.
pub fn job_targets(job: &ScheduledJob) -> (r: Result<Targets, AppError>)
    ensures
        job.target_type@ == "device"@ ==> (r matches Ok(Targets::Device(id)) && id == job.target_id),
        job.target_type@ == "group"@ ==> (r matches Ok(Targets::Group(id)) && id == job.target_id),
        job.target_type@ != "device"@ && job.target_type@ != "group"@ ==> (r matches Err(
            AppError::Validation(m),
        ) && m@ == "未知的 target_type："@ + job.target_type@),
{
    proof {
        reveal_strlit("device");
        reveal_strlit("group");
        assert("device"@.len() != "group"@.len());
    }
    if str_eq(job.target_type.as_str(), "device") {
        Ok(Targets::Device(job.target_id.clone()))
    } else if str_eq(job.target_type.as_str(), "group") {
        Ok(Targets::Group(job.target_id.clone()))
    } else {
        let mut m = owned("未知的 target_type：");
        push_str(&mut m, job.target_type.as_str());
        Err(AppError::Validation(m))
    }
}

/// A number of hours or minutes in a daily time, as `u32::from_str` reads
/// it after trimming.
pub open spec fn time_part(s: Seq<char>) -> Option<int> {
    spec_parse_unsigned(spec_trim(s), u32::MAX as int)
}

/// What triggers a job.
#[derive(Debug, Clone)]
pub enum Trigger {
    /// A fixed interval: the job fires every `minutes` minutes, the first
    /// time `minutes` after it is registered, so that any two consecutive
    /// firings are exactly `minutes` minutes apart.
    Every { minutes: u64 },
    /// A six-field cron expression (with seconds).
    Cron(String),
}

/// A trigger, with its cron text as a character sequence.
pub enum TriggerView {
    Every(nat),
    Cron(Seq<char>),
}

impl View for Trigger {
    type V = TriggerView;

    open spec fn view(&self) -> TriggerView {
        match self {
            Trigger::Every { minutes } => TriggerView::Every(*minutes as nat),
            Trigger::Cron(c) => TriggerView::Cron(c@),
        }
    }
}

/// What triggers a job: a fixed interval of `n` minutes for an `interval`
/// job with a positive interval `n`; the cron expression of once a day at
/// `HH:MM` for a `daily` job whose time reads as two numbers; `None`
/// otherwise.
pub open spec fn spec_trigger_for(kind: Seq<char>, interval: Option<i64>, daily: Option<Seq<char>>) -> Option<TriggerView> {
    if kind == "interval"@ {
        let n = match interval {
            Some(n) => n as int,
            None => 0,
        };
        if n <= 0 {
            None
        } else {
            Some(TriggerView::Every(n as nat))
        }
    } else if kind == "daily"@ {
        match daily {
            None => None,
            Some(t) => match spec_split_once(t, ':') {
                None => None,
                Some((h, m)) => match (time_part(h), time_part(m)) {
                    (Some(hour), Some(minute)) => Some(
                        TriggerView::Cron(
                            "0 "@ + spec_decimal(minute as nat) + " "@ + spec_decimal(hour as nat)
                                + " * * *"@,
                        ),
                    ),
                    _ => None,
                },
            },
        }
    } else {
        None
    }
}

fn parse_time_part(cs: &[char], from: usize, to: usize) -> (r: Option<u32>)
    requires
        from <= to <= cs@.len(),
    ensures
        match time_part(cs@.subrange(from as int, to as int)) {
            Some(v) => r == Some(v as u32),
            None => r is None,
        },
{
    let part = string_of(cs, from, to);
    let pc = chars_of(part.as_str());
    let (i, j) = trim_bounds(pc.as_slice());
    let t = string_of(pc.as_slice(), i, j);
    let tc = chars_of(t.as_str());
    assert(tc@ == spec_trim(cs@.subrange(from as int, to as int)));
    match parse_unsigned(tc.as_slice(), 0xffff_ffff) {
        Some(v) => Some(v as u32),
        None => None,
    }
}

/// The trigger of a job, if it can be scheduled: a fixed interval for an
/// `interval` job, a daily cron expression for a `daily` job.
pub fn cron_for(job: &ScheduledJob) -> (r: Option<Trigger>)
    ensures
        match spec_trigger_for(job.schedule_kind@, job.interval_minutes, match job.daily_time {
            Some(t) => Some(t@),
            None => None,
        }) {
            Some(t) => r matches Some(x) && x@ == t,
            None => r is None,
        },
{
    proof {
        reveal_strlit("interval");
        reveal_strlit("daily");
        assert("interval"@.len() != "daily"@.len());
    }
    if str_eq(job.schedule_kind.as_str(), "interval") {
        let n: i64 = match job.interval_minutes {
            Some(n) => n,
            None => 0,
        };
        if n <= 0 {
            return None;
        }
        Some(Trigger::Every { minutes: n as u64 })
    } else if str_eq(job.schedule_kind.as_str(), "daily") {
        let t = match &job.daily_time {
            Some(t) => t,
            None => return None,
        };
        let cs = chars_of(t.as_str());
        let k = index_of_char(cs.as_slice(), ':', 0);
        assert(cs@.subrange(0, cs@.len() as int) =~= cs@);
        if k == cs.len() {
            return None;
        }
        let hour = match parse_time_part(cs.as_slice(), 0, k) {
            Some(h) => h,
            None => return None,
        };
        let minute = match parse_time_part(cs.as_slice(), k + 1, cs.len()) {
            Some(m) => m,
            None => return None,
        };
        proof {
            crate::text::lemma_parse_unsigned_range(
                spec_trim(cs@.subrange(0, k as int)),
                u32::MAX as int,
            );
            crate::text::lemma_parse_unsigned_range(
                spec_trim(cs@.subrange(k + 1, cs@.len() as int)),
                u32::MAX as int,
            );
        }
        let mut c = owned("0 ");
        push_decimal(&mut c, minute as u128);
        push_str(&mut c, " ");
        push_decimal(&mut c, hour as u128);
        push_str(&mut c, " * * *");
        assert(c@ =~= "0 "@ + spec_decimal(minute as nat) + " "@ + spec_decimal(hour as nat)
            + " * * *"@);
        Some(Trigger::Cron(c))
    } else {
        None
    }
}

/// Every interval job that passed validation is scheduled at a fixed
/// interval of exactly its `interval_minutes`.
pub proof fn lemma_normalized_interval_is_scheduled(j: JobFields)
    requires
        spec_normalize(j) matches Ok(n) && n.schedule_kind == "interval"@,
    ensures
        spec_trigger_for(
            spec_normalize(j)->Ok_0.schedule_kind,
            spec_normalize(j)->Ok_0.interval_minutes,
            spec_normalize(j)->Ok_0.daily_time,
        ) == Some(TriggerView::Every(spec_normalize(j)->Ok_0.interval_minutes->Some_0 as nat)),
{
    reveal_strlit("interval");
    reveal_strlit("daily");
}

/// A decimal rendering holds no space.
proof fn lemma_decimal_no_space(n: nat)
    ensures
        forall|k: int| 0 <= k < spec_decimal(n).len() ==> #[trigger] spec_decimal(n)[k] != ' ',
{
    crate::text::lemma_decimal_is_digits(n);
    assert forall|k: int| 0 <= k < spec_decimal(n).len() implies #[trigger] spec_decimal(n)[k]
        != ' ' by {
        assert(crate::text::is_digit(spec_decimal(n)[k]));
    }
}

/// A daily job whose time `H:M` reads as an hour and a minute fires once a
/// day at that hour and minute: its trigger is a six-field cron text whose
/// fields are `0` seconds, the minute, the hour, and `*` for day, month
/// and weekday, the minute and hour fields reading back as exactly the
/// given minute and hour.
pub proof fn lemma_daily_trigger_fields(t: Seq<char>, interval: Option<i64>)
    requires
        spec_split_once(t, ':') matches Some((h, m)) && time_part(h) is Some && time_part(
            m,
        ) is Some,
    ensures
        ({
            let (h, m) = spec_split_once(t, ':')->Some_0;
            &&& spec_trigger_for("daily"@, interval, Some(t)) matches Some(TriggerView::Cron(c))
            &&& spec_split(c, ' ').len() == 6
            &&& spec_split(c, ' ')[0] == "0"@
            &&& spec_parse_unsigned(spec_split(c, ' ')[1], u32::MAX as int) == time_part(m)
            &&& spec_parse_unsigned(spec_split(c, ' ')[2], u32::MAX as int) == time_part(h)
            &&& spec_split(c, ' ')[3] == "*"@
            &&& spec_split(c, ' ')[4] == "*"@
            &&& spec_split(c, ' ')[5] == "*"@
        }),
{
    reveal_strlit("interval");
    reveal_strlit("daily");
    reveal_strlit("0 ");
    reveal_strlit(" ");
    reveal_strlit(" * * *");
    reveal_strlit("0");
    reveal_strlit("*");
    assert("daily"@.len() != "interval"@.len());
    let (h, m) = spec_split_once(t, ':')->Some_0;
    let hour = time_part(h)->Some_0;
    let minute = time_part(m)->Some_0;
    crate::text::lemma_parse_unsigned_range(spec_trim(h), u32::MAX as int);
    crate::text::lemma_parse_unsigned_range(spec_trim(m), u32::MAX as int);
    let dm = spec_decimal(minute as nat);
    let dh = spec_decimal(hour as nat);
    let c = "0 "@ + dm + " "@ + dh + " * * *"@;
    assert(spec_trigger_for("daily"@, interval, Some(t)) == Some(TriggerView::Cron(c)));
    lemma_decimal_no_space(minute as nat);
    lemma_decimal_no_space(hour as nat);
    let star: Seq<char> = seq!['*'];
    let zero: Seq<char> = seq!['0'];
    let r4 = star + seq![' '] + star;
    let r3 = star + seq![' '] + r4;
    let r2 = dh + seq![' '] + r3;
    let r1 = dm + seq![' '] + r2;
    assert(c =~= zero + seq![' '] + r1);
    assert("0"@ =~= zero);
    assert("*"@ =~= star);
    crate::text::lemma_split_field(zero, ' ', r1);
    crate::text::lemma_split_field(dm, ' ', r2);
    crate::text::lemma_split_field(dh, ' ', r3);
    crate::text::lemma_split_field(star, ' ', r4);
    crate::text::lemma_split_field(star, ' ', star);
    crate::text::lemma_split_single(star, ' ');
    assert(spec_split(r4, ' ') =~= seq![star, star]);
    assert(spec_split(r3, ' ') =~= seq![star, star, star]);
    assert(spec_split(r2, ' ') =~= seq![dh, star, star, star]);
    assert(spec_split(r1, ' ') =~= seq![dm, dh, star, star, star]);
    let f = spec_split(c, ' ');
    assert(f =~= seq![zero, dm, dh, star, star, star]);
    crate::text::lemma_parse_decimal(minute as nat, u32::MAX as int);
    crate::text::lemma_parse_decimal(hour as nat, u32::MAX as int);
}

// ---------------------------------------------------------------------------
// Runs
// ---------------------------------------------------------------------------
/// The number of results that did not fail.
pub open spec fn count_not_failed(rs: Seq<QueryResult>) -> nat
    decreases rs.len(),
{
    if rs.len() == 0 {
        0
    } else {
        count_not_failed(rs.drop_last()) + if rs.last().status@ != "failed"@ {
            1nat
        } else {
            0nat
        }
    }
}

/// The results that did not fail are counted exactly: their number is that
/// of the results whose status is not `failed`.
pub proof fn lemma_count_not_failed_filter(rs: Seq<QueryResult>)
    ensures
        count_not_failed(rs) == rs.filter(|r: QueryResult| r.status@ != "failed"@).len(),
    decreases rs.len(),
{
    reveal(Seq::filter);
    if rs.len() > 0 {
        lemma_count_not_failed_filter(rs.drop_last());
    }
}

/// The success and failure counts of a run: results that did not fail,
/// and the others.
pub fn tally(results: &Vec<QueryResult>) -> (r: (i64, i64))
    requires
        results@.len() <= i64::MAX,
    ensures
        r.0 == count_not_failed(results@),
        r.1 == results@.len() - count_not_failed(results@),
        r.0 + r.1 == results@.len(),
{
    let mut success: i64 = 0;
    let mut i: usize = 0;
    while i < results.len()
        invariant
            results@.len() <= i64::MAX,
            i <= results@.len(),
            success == count_not_failed(results@.take(i as int)),
            success <= i,
        decreases results.len() - i,
    {
        assert(results@.take(i + 1).drop_last() =~= results@.take(i as int));
        assert(results@.take(i + 1).last() == results@[i as int]);
        if !str_eq(results[i].status.as_str(), "failed") {
            success = success + 1;
        }
        i = i + 1;
    }
    assert(results@.take(i as int) =~= results@);
    (success, results.len() as i64 - success)
}

/// The number of parallel SSH connections when none is configured.
pub const DEFAULT_QUERY_CONCURRENCY: usize = 10;

/// The largest configurable number of parallel SSH connections.
pub const MAX_QUERY_CONCURRENCY: usize = 50;

/// The number of parallel connections given by the stored setting: the
/// setting when it reads as a number, the default otherwise.
pub open spec fn spec_query_concurrency(setting: Option<Seq<char>>) -> int {
    match setting {
        Some(v) => match spec_parse_unsigned(v, usize::MAX as int) {
            Some(n) => n,
            None => DEFAULT_QUERY_CONCURRENCY as int,
        },
        None => DEFAULT_QUERY_CONCURRENCY as int,
    }
}

/// Reads the stored concurrency setting.
pub fn query_concurrency(setting: Option<String>) -> (r: usize)
    ensures
        r == spec_query_concurrency(match setting {
            Some(s) => Some(s@),
            None => None,
        }),
{
    match setting {
        Some(v) => {
            let cs = chars_of(v.as_str());
            let max: u64 = usize::MAX as u64;
            assert(max as int == usize::MAX as int);
            match parse_unsigned(cs.as_slice(), max) {
                Some(n) => {
                    assert(n <= usize::MAX);
                    n as usize
                },
                None => DEFAULT_QUERY_CONCURRENCY,
            }
        },
        None => DEFAULT_QUERY_CONCURRENCY,
    }
}

/// At least one connection is always used.
pub fn effective_concurrency(max_concurrency: usize) -> (r: usize)
    ensures
        r == if max_concurrency < 1 {
            1
        } else {
            max_concurrency
        },
{
    if max_concurrency < 1 {
        1
    } else {
        max_concurrency
    }
}

} // verus!
