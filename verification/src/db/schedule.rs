//! Scheduled jobs: validation and normalisation of their settings, merging
//! of updates, and reading of stored rows.
use vstd::prelude::*;

use chrono::NaiveTime;

use crate::error::AppError;
use crate::models::{NewScheduledJob, ScheduledJob, UpdateScheduledJob};
use crate::text::{lemma_trim_idempotent, owned, spec_trim, str_eq, trim};

verus! {

/// The fields of a job's settings, as character sequences.
#[verifier::ext_equal]
pub struct JobFields {
    pub name: Seq<char>,
    pub target_type: Seq<char>,
    pub target_id: Seq<char>,
    pub schedule_kind: Seq<char>,
    pub interval_minutes: Option<i64>,
    pub daily_time: Option<Seq<char>>,
}

pub open spec fn opt_view(o: Option<String>) -> Option<Seq<char>> {
    match o {
        Some(s) => Some(s@),
        None => None,
    }
}

impl View for NewScheduledJob {
    type V = JobFields;

    open spec fn view(&self) -> JobFields {
        JobFields {
            name: self.name@,
            target_type: self.target_type@,
            target_id: self.target_id@,
            schedule_kind: self.schedule_kind@,
            interval_minutes: self.interval_minutes,
            daily_time: opt_view(self.daily_time),
        }
    }
}

/// Whether `chrono::NaiveTime::parse_from_str(s, fmt)` accepts `s`.
pub uninterp spec fn spec_naive_time_parses(s: Seq<char>, fmt: Seq<char>) -> bool;

/// `chrono::NaiveTime::parse_from_str(s, fmt)`, telling only whether it
/// succeeded.
#[verifier::external_body]
fn naive_time_parses(s: &str, fmt: &str) -> (r: bool)
    ensures
        r == spec_naive_time_parses(s@, fmt@),
{
    NaiveTime::parse_from_str(s, fmt).is_ok()
}

/// The format of a daily time: hours and minutes, `HH:MM`.
pub open spec fn daily_time_format() -> Seq<char> {
    "%H:%M"@
}

/// What [`normalize`] gives for a job's settings: the normalised settings,
/// or the detail of the `Validation` error.
pub open spec fn spec_normalize(j: JobFields) -> Result<JobFields, Seq<char>> {
    let name = spec_trim(j.name);
    let target_type = spec_trim(j.target_type);
    let target_id = spec_trim(j.target_id);
    let kind = spec_trim(j.schedule_kind);
    if name.len() == 0 {
        Err("排程名稱不可為空"@)
    } else if target_id.len() == 0 {
        Err("排程目標不可為空"@)
    } else if target_type != "device"@ && target_type != "group"@ {
        Err("target_type 須為 device 或 group"@)
    } else if kind == "interval"@ {
        if (match j.interval_minutes {
            Some(n) => n,
            None => 0,
        }) <= 0 {
            Err("interval_minutes 須大於 0"@)
        } else {
            Ok(
                JobFields {
                    name,
                    target_type,
                    target_id,
                    schedule_kind: kind,
                    interval_minutes: j.interval_minutes,
                    daily_time: None,
                },
            )
        }
    } else if kind == "daily"@ {
        let t = spec_trim(
            match j.daily_time {
                Some(t) => t,
                None => Seq::empty(),
            },
        );
        if t.len() == 0 {
            Err("daily_time 須為 HH:mm"@)
        } else if !spec_naive_time_parses(t, daily_time_format()) {
            Err("daily_time 須為有效 HH:mm"@)
        } else {
            Ok(
                JobFields {
                    name,
                    target_type,
                    target_id,
                    schedule_kind: kind,
                    interval_minutes: None,
                    daily_time: Some(t),
                },
            )
        }
    } else {
        Err("schedule_kind 須為 interval 或 daily"@)
    }
}

/// Validates and normalises a job's settings: text fields are trimmed, the
/// target type must be `device` or `group`; an `interval` job needs a
/// positive interval and loses its daily time, a `daily` job needs a valid
/// `HH:mm` time and loses its interval.
pub fn normalize(input: NewScheduledJob) -> (r: Result<NewScheduledJob, AppError>)
    ensures
        match spec_normalize(input@) {
            Ok(j) => r matches Ok(out) && out@ == j,
            Err(m) => r matches Err(AppError::Validation(d)) && d@ == m,
        },
{
    let name = trim(input.name.as_str());
    let target_type = trim(input.target_type.as_str());
    let target_id = trim(input.target_id.as_str());
    let kind = trim(input.schedule_kind.as_str());
    if name.as_str().is_empty() {
        return Err(AppError::Validation(owned("排程名稱不可為空")));
    }
    if target_id.as_str().is_empty() {
        return Err(AppError::Validation(owned("排程目標不可為空")));
    }
    if !str_eq(target_type.as_str(), "device") && !str_eq(target_type.as_str(), "group") {
        return Err(AppError::Validation(owned("target_type 須為 device 或 group")));
    }
    if str_eq(kind.as_str(), "interval") {
        let n = match input.interval_minutes {
            Some(n) => n,
            None => 0,
        };
        if n <= 0 {
            return Err(AppError::Validation(owned("interval_minutes 須大於 0")));
        }
        let out = NewScheduledJob {
            name,
            target_type,
            target_id,
            schedule_kind: kind,
            interval_minutes: input.interval_minutes,
            daily_time: None,
        };
        assert(out@ =~= spec_normalize(input@)->Ok_0);
        Ok(out)
    } else if str_eq(kind.as_str(), "daily") {
        let t = match &input.daily_time {
            Some(t) => trim(t.as_str()),
            None => trim(""),
        };
        proof {
            reveal_strlit("");
        }
        if t.as_str().is_empty() {
            return Err(AppError::Validation(owned("daily_time 須為 HH:mm")));
        }
        if !naive_time_parses(t.as_str(), "%H:%M") {
            return Err(AppError::Validation(owned("daily_time 須為有效 HH:mm")));
        }
        let out = NewScheduledJob {
            name,
            target_type,
            target_id,
            schedule_kind: kind,
            interval_minutes: None,
            daily_time: Some(t),
        };
        assert(out@ =~= spec_normalize(input@)->Ok_0);
        Ok(out)
    } else {
        Err(AppError::Validation(owned("schedule_kind 須為 interval 或 daily")))
    }
}

/// Normalising settings that are already normalised changes nothing.
pub proof fn lemma_normalize_idempotent(j: JobFields)
    requires
        spec_normalize(j) is Ok,
    ensures
        spec_normalize(spec_normalize(j)->Ok_0) == spec_normalize(j),
{
    lemma_trim_idempotent(j.name);
    lemma_trim_idempotent(j.target_type);
    lemma_trim_idempotent(j.target_id);
    lemma_trim_idempotent(j.schedule_kind);
    match j.daily_time {
        Some(t) => lemma_trim_idempotent(t),
        None => lemma_trim_idempotent(Seq::empty()),
    }
    let n = spec_normalize(j)->Ok_0;
    assert(spec_normalize(n)->Ok_0 =~= n);
}

/// The settings of a job after an update: each field given in the patch
/// replaces the current one (for the interval and the daily time, an
/// explicit `None` clears it).
pub open spec fn spec_merge_job(current: ScheduledJob, patch: UpdateScheduledJob) -> JobFields {
    JobFields {
        name: match patch.name {
            Some(v) => v@,
            None => current.name@,
        },
        target_type: match patch.target_type {
            Some(v) => v@,
            None => current.target_type@,
        },
        target_id: match patch.target_id {
            Some(v) => v@,
            None => current.target_id@,
        },
        schedule_kind: match patch.schedule_kind {
            Some(v) => v@,
            None => current.schedule_kind@,
        },
        interval_minutes: match patch.interval_minutes {
            Some(v) => v,
            None => current.interval_minutes,
        },
        daily_time: match patch.daily_time {
            Some(v) => opt_view(v),
            None => opt_view(current.daily_time),
        },
    }
}

/// The settings of a stored job.
pub open spec fn job_fields(j: ScheduledJob) -> JobFields {
    JobFields {
        name: j.name@,
        target_type: j.target_type@,
        target_id: j.target_id@,
        schedule_kind: j.schedule_kind@,
        interval_minutes: j.interval_minutes,
        daily_time: opt_view(j.daily_time),
    }
}

/// An update that sets no field leaves a stored (normalised) job as it was.
pub proof fn lemma_empty_update_keeps_job(current: ScheduledJob, patch: UpdateScheduledJob)
    requires
        spec_normalize(job_fields(current)) == Ok::<JobFields, Seq<char>>(job_fields(current)),
        patch.name is None,
        patch.target_type is None,
        patch.target_id is None,
        patch.schedule_kind is None,
        patch.interval_minutes is None,
        patch.daily_time is None,
    ensures
        spec_normalize(spec_merge_job(current, patch)) == Ok::<JobFields, Seq<char>>(
            job_fields(current),
        ),
{
    assert(spec_merge_job(current, patch) =~= job_fields(current));
}

/// The text that a patch field leaves: the given one, or the stored one
/// when the field is left out.
pub open spec fn given_or(patch: Option<String>, stored: String) -> Seq<char> {
    match patch {
        Some(v) => v@,
        None => stored@,
    }
}

/// Each field given in an update replaces the stored one, and only a field
/// left out keeps the stored value: when the updated job validates, its
/// name, target type, target id and kind are the given (or else stored)
/// texts, trimmed; an interval job keeps the given (or else stored)
/// interval and has no daily time; a daily job keeps the given (or else
/// stored) daily time, trimmed, and has no interval.
pub proof fn lemma_update_replaces_given_fields(current: ScheduledJob, patch: UpdateScheduledJob)
    requires
        spec_normalize(spec_merge_job(current, patch)) is Ok,
    ensures
        ({
            let j = spec_normalize(spec_merge_job(current, patch))->Ok_0;
            let interval = match patch.interval_minutes {
                Some(v) => v,
                None => current.interval_minutes,
            };
            let daily = match patch.daily_time {
                Some(v) => v,
                None => current.daily_time,
            };
            &&& j.name == spec_trim(given_or(patch.name, current.name))
            &&& j.target_type == spec_trim(given_or(patch.target_type, current.target_type))
            &&& j.target_id == spec_trim(given_or(patch.target_id, current.target_id))
            &&& j.schedule_kind == spec_trim(given_or(patch.schedule_kind, current.schedule_kind))
            &&& j.schedule_kind == "interval"@ ==> (j.interval_minutes == interval && j.daily_time
                is None && (interval matches Some(n) && n > 0))
            &&& j.schedule_kind == "daily"@ ==> (j.interval_minutes is None && (daily matches Some(
                t,
            ) && j.daily_time == Some(spec_trim(t@))))
        }),
{
    reveal_strlit("interval");
    reveal_strlit("daily");
    reveal_strlit("");
    assert("interval"@.len() != "daily"@.len());
}

/// Applies an update to a job's settings and validates the result as a
/// new job would be.
pub fn merge_job_update(current: ScheduledJob, patch: UpdateScheduledJob) -> (r: Result<
    NewScheduledJob,
    AppError,
>)
    ensures
        match spec_normalize(spec_merge_job(current, patch)) {
            Ok(j) => r matches Ok(out) && out@ == j,
            Err(m) => r matches Err(AppError::Validation(d)) && d@ == m,
        },
{
    let merged = NewScheduledJob {
        name: match patch.name {
            Some(v) => v,
            None => current.name,
        },
        target_type: match patch.target_type {
            Some(v) => v,
            None => current.target_type,
        },
        target_id: match patch.target_id {
            Some(v) => v,
            None => current.target_id,
        },
        schedule_kind: match patch.schedule_kind {
            Some(v) => v,
            None => current.schedule_kind,
        },
        interval_minutes: match patch.interval_minutes {
            Some(v) => v,
            None => current.interval_minutes,
        },
        daily_time: match patch.daily_time {
            Some(v) => v,
            None => current.daily_time,
        },
    };
    assert(merged@ =~= spec_merge_job(current, patch));
    normalize(merged)
}

/// The stored form of the `enabled` flag.
pub fn enabled_flag(enabled: bool) -> (r: i64)
    ensures
        r == (if enabled {
            1i64
        } else {
            0i64
        }),
{
    if enabled {
        1
    } else {
        0
    }
}

/// Builds a job from a stored row; any non-zero flag means enabled.
pub fn job_from_row(
    id: String,
    name: String,
    target_type: String,
    target_id: String,
    schedule_kind: String,
    interval_minutes: Option<i64>,
    daily_time: Option<String>,
    enabled: i64,
    created_at: String,
) -> (r: ScheduledJob)
    ensures
        r.id == id && r.name == name && r.target_type == target_type && r.target_id == target_id
            && r.schedule_kind == schedule_kind && r.interval_minutes == interval_minutes
            && r.daily_time == daily_time && r.created_at == created_at,
        r.enabled == (enabled != 0),
{
    ScheduledJob {
        id,
        name,
        target_type,
        target_id,
        schedule_kind,
        interval_minutes,
        daily_time,
        enabled: enabled != 0,
        created_at,
    }
}

/// The flag read back from its stored form is the flag that was stored.
pub proof fn lemma_enabled_roundtrip(enabled: bool)
    ensures
        ((if enabled {
            1i64
        } else {
            0i64
        }) != 0) == enabled,
{
}

} // verus!
