//! Status snapshots: the time window and limit of a history query.
use vstd::prelude::*;

use chrono::{DateTime, Utc};

use crate::error::AppError;
use crate::text::{owned, spec_trim, trim};
use vstd::utf8::encode_utf8;

verus! {

/// The RFC 3339 text, in UTC, of the instant that `s` denotes
/// (`DateTime::parse_from_rfc3339`, then `with_timezone(&Utc).to_rfc3339()`);
/// `None` when `s` is not an RFC 3339 date and time.
pub uninterp spec fn spec_rfc3339_utc(s: Seq<char>) -> Option<Seq<char>>;

/// `chrono::DateTime::parse_from_rfc3339`, converted to UTC and written
/// back with `to_rfc3339`.
#[verifier::external_body]
fn rfc3339_utc(s: &str) -> (r: Option<String>)
    ensures
        r matches Some(t) ==> spec_rfc3339_utc(s@) matches Some(u) && u == t@,
        r is None ==> spec_rfc3339_utc(s@) is None,
{
    DateTime::parse_from_rfc3339(s).ok().map(|dt| dt.with_timezone(&Utc).to_rfc3339())
}

/// What [`normalize_time`] gives: no bound for a missing or blank text, the
/// UTC form of an RFC 3339 text, or the `Validation` detail.
pub open spec fn spec_normalize_time(value: Option<Seq<char>>) -> Result<Option<Seq<char>>, Seq<char>> {
    match value {
        None => Ok(None),
        Some(v) => {
            let t = spec_trim(v);
            if t.len() == 0 {
                Ok(None)
            } else {
                match spec_rfc3339_utc(t) {
                    Some(u) => Ok(Some(u)),
                    None => Err("時間格式須為 RFC3339"@),
                }
            }
        },
    }
}

pub open spec fn opt_str_view(o: Option<&str>) -> Option<Seq<char>> {
    match o {
        Some(s) => Some(s@),
        None => None,
    }
}

pub open spec fn opt_string_view(o: Option<String>) -> Option<Seq<char>> {
    match o {
        Some(s) => Some(s@),
        None => None,
    }
}

/// Reads a time bound, normalised to UTC.
pub fn normalize_time(value: Option<&str>) -> (r: Result<Option<String>, AppError>)
    ensures
        match spec_normalize_time(opt_str_view(value)) {
            Ok(t) => r matches Ok(o) && opt_string_view(o) == t,
            Err(m) => r matches Err(AppError::Validation(d)) && d@ == m,
        },
{
    let v = match value {
        None => return Ok(None),
        Some(v) => v,
    };
    let t = trim(v);
    if t.as_str().is_empty() {
        return Ok(None);
    }
    match rfc3339_utc(t.as_str()) {
        Some(u) => Ok(Some(u)),
        None => Err(AppError::Validation(owned("時間格式須為 RFC3339"))),
    }
}

/// `a` comes after `b` in the lexicographic order of bytes (the order of
/// `String`).
pub open spec fn bytes_gt(a: Seq<u8>, b: Seq<u8>) -> bool
    decreases a.len(),
{
    if a.len() == 0 {
        false
    } else if b.len() == 0 {
        true
    } else if a[0] != b[0] {
        a[0] > b[0]
    } else {
        bytes_gt(a.drop_first(), b.drop_first())
    }
}

/// Whether `a > b` as strings.
pub fn str_gt(a: &str, b: &str) -> (r: bool)
    ensures
        r == bytes_gt(encode_utf8(a@), encode_utf8(b@)),
{
    let x = a.as_bytes();
    let y = b.as_bytes();
    let mut i: usize = 0;
    assert(x@.skip(0) =~= x@);
    assert(y@.skip(0) =~= y@);
    while i < x.len() && i < y.len() && x[i] == y[i]
        invariant
            i <= x@.len(),
            i <= y@.len(),
            forall|k: int| 0 <= k < i ==> x@[k] == y@[k],
            bytes_gt(x@, y@) == bytes_gt(x@.skip(i as int), y@.skip(i as int)),
        decreases x.len() - i,
    {
        assert(x@.skip(i as int).drop_first() =~= x@.skip(i + 1));
        assert(y@.skip(i as int).drop_first() =~= y@.skip(i + 1));
        i = i + 1;
    }
    if i == x.len() {
        false
    } else if i == y.len() {
        true
    } else {
        x[i] > y[i]
    }
}

/// The bounds and row limit of a history query.
#[derive(Debug, Clone)]
pub struct SnapshotWindow {
    pub from: Option<String>,
    pub to: Option<String>,
    /// At most this many rows; `-1` for no limit.
    pub limit: i64,
}

/// A given limit is clamped to `1..=500`; no limit is `-1`.
pub open spec fn spec_limit(limit: Option<i64>) -> i64 {
    match limit {
        Some(v) => if v < 1 {
            1i64
        } else if v > 500 {
            500i64
        } else {
            v
        },
        None => -1i64,
    }
}

/// What [`snapshot_window`] gives: the normalised bounds and limit, or the
/// `Validation` detail.
pub open spec fn spec_window(
    from: Option<Seq<char>>,
    to: Option<Seq<char>>,
    limit: Option<i64>,
) -> Result<(Option<Seq<char>>, Option<Seq<char>>, i64), Seq<char>> {
    match spec_normalize_time(from) {
        Err(m) => Err(m),
        Ok(f) => match spec_normalize_time(to) {
            Err(m) => Err(m),
            Ok(t) => match (f, t) {
                (Some(a), Some(b)) => if bytes_gt(encode_utf8(a), encode_utf8(b)) {
                    Err("from 不可晚於 to"@)
                } else {
                    Ok((f, t, spec_limit(limit)))
                },
                _ => Ok((f, t, spec_limit(limit))),
            },
        },
    }
}

/// Reads the bounds and limit of a history query; a start after the end
/// is refused.
pub fn snapshot_window(from: Option<&str>, to: Option<&str>, limit: Option<i64>) -> (r: Result<
    SnapshotWindow,
    AppError,
>)
    ensures
        match spec_window(opt_str_view(from), opt_str_view(to), limit) {
            Ok((f, t, l)) => r matches Ok(w) && opt_string_view(w.from) == f && opt_string_view(
                w.to,
            ) == t && w.limit == l,
            Err(m) => r matches Err(AppError::Validation(d)) && d@ == m,
        },
{
    let f = normalize_time(from)?;
    let t = normalize_time(to)?;
    if let (Some(a), Some(b)) = (&f, &t) {
        if str_gt(a.as_str(), b.as_str()) {
            return Err(AppError::Validation(owned("from 不可晚於 to")));
        }
    }
    let l: i64 = match limit {
        Some(v) => if v < 1 {
            1
        } else if v > 500 {
            500
        } else {
            v
        },
        None => -1,
    };
    Ok(SnapshotWindow { from: f, to: t, limit: l })
}

/// The row limit of the history listing: the last 50 when neither bound is
/// given and no limit either; otherwise the given limit.
pub fn default_history_limit(has_from: bool, has_to: bool, limit: Option<i64>) -> (r: Option<i64>)
    ensures
        r == (if !has_from && !has_to && limit is None {
            Some(50i64)
        } else {
            limit
        }),
{
    if !has_from && !has_to {
        match limit {
            Some(v) => Some(v),
            None => Some(50),
        }
    } else {
        limit
    }
}

} // verus!
