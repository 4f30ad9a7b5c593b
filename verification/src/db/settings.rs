//! Application settings: the SSH concurrency limit and the AI endpoint.
use vstd::prelude::*;

use crate::ai::client::{spec_base_url, validate_base_url};
use crate::error::AppError;
use crate::scheduler::{
    query_concurrency, spec_query_concurrency, DEFAULT_QUERY_CONCURRENCY, MAX_QUERY_CONCURRENCY,
};
use crate::text::{
    chars_of, decimal, lemma_parse_decimal, owned, parse_unsigned, push_decimal, spec_decimal,
    spec_parse_unsigned, spec_trim, trim, trim_end_char,
};

verus! {

/// The message for a concurrency limit out of range.
pub open spec fn concurrency_range_message() -> Seq<char> {
    "SSH 同時連線上限需介於 1 到 "@ + spec_decimal(MAX_QUERY_CONCURRENCY as nat)
}

/// Accepts a concurrency limit from 1 to `MAX_QUERY_CONCURRENCY`.
pub fn validate_ssh_concurrency(value: u32) -> (r: Result<(), AppError>)
    ensures
        1 <= value <= MAX_QUERY_CONCURRENCY ==> r is Ok,
        !(1 <= value <= MAX_QUERY_CONCURRENCY) ==> (r matches Err(AppError::Validation(m))
            && m@ == concurrency_range_message()),
{
    if value == 0 || value as usize > MAX_QUERY_CONCURRENCY {
        let mut m = owned("SSH 同時連線上限需介於 1 到 ");
        push_decimal(&mut m, MAX_QUERY_CONCURRENCY as u128);
        return Err(AppError::Validation(m));
    }
    Ok(())
}

/// The stored text of a concurrency limit, once validated.
pub fn concurrency_setting_text(value: u32) -> (r: Result<String, AppError>)
    ensures
        1 <= value <= MAX_QUERY_CONCURRENCY ==> (r matches Ok(s) && s@ == spec_decimal(
            value as nat,
        )),
        !(1 <= value <= MAX_QUERY_CONCURRENCY) ==> (r matches Err(AppError::Validation(m))
            && m@ == concurrency_range_message()),
{
    validate_ssh_concurrency(value)?;
    Ok(decimal(value as u64))
}

/// The concurrency limit shown in the settings: the stored value read as a
/// `u32` and kept within `1..=MAX_QUERY_CONCURRENCY`, or the default.
pub open spec fn spec_shown_concurrency(setting: Option<Seq<char>>) -> int {
    match setting {
        Some(v) => match spec_parse_unsigned(v, u32::MAX as int) {
            Some(n) => if n > MAX_QUERY_CONCURRENCY {
                MAX_QUERY_CONCURRENCY as int
            } else if n < 1 {
                1
            } else {
                n
            },
            None => DEFAULT_QUERY_CONCURRENCY as int,
        },
        None => DEFAULT_QUERY_CONCURRENCY as int,
    }
}

/// Reads the stored concurrency limit for display.
pub fn shown_concurrency(setting: Option<String>) -> (r: u32)
    ensures
        r == spec_shown_concurrency(match setting {
            Some(s) => Some(s@),
            None => None,
        }),
{
    match setting {
        Some(v) => {
            let cs = chars_of(v.as_str());
            match parse_unsigned(cs.as_slice(), 0xffff_ffff) {
                Some(n) => {
                    if n > MAX_QUERY_CONCURRENCY as u64 {
                        MAX_QUERY_CONCURRENCY as u32
                    } else if n < 1 {
                        1
                    } else {
                        n as u32
                    }
                },
                None => DEFAULT_QUERY_CONCURRENCY as u32,
            }
        },
        None => DEFAULT_QUERY_CONCURRENCY as u32,
    }
}

/// A concurrency limit that was accepted and stored is read back as the
/// same limit, both for display and by the queries.
pub proof fn lemma_concurrency_roundtrip(value: u32)
    requires
        1 <= value <= MAX_QUERY_CONCURRENCY,
    ensures
        spec_shown_concurrency(Some(spec_decimal(value as nat))) == value,
        spec_query_concurrency(Some(spec_decimal(value as nat))) == value,
{
    lemma_parse_decimal(value as nat, u32::MAX as int);
    lemma_parse_decimal(value as nat, usize::MAX as int);
}

/// The settings as shown: the AI endpoint and model (empty when not set),
/// the SSH concurrency limit, and whether an AI key is stored (never the key).
#[derive(Debug, Clone)]
pub struct SettingsDto {
    pub ai_base_url: String,
    pub ai_model: String,
    pub ssh_max_concurrency: u32,
    pub ai_key_set: bool,
}

/// The text of a setting, or the empty text when it is not stored.
pub open spec fn or_empty(v: Option<String>) -> Seq<char> {
    match v {
        Some(s) => s@,
        None => Seq::empty(),
    }
}

/// Builds the settings view from the stored values.
pub fn settings_view(
    ai_base_url: Option<String>,
    ai_model: Option<String>,
    ssh_max_concurrency: Option<String>,
    ai_key_set: bool,
) -> (r: SettingsDto)
    ensures
        r.ai_base_url@ == or_empty(ai_base_url),
        r.ai_model@ == or_empty(ai_model),
        r.ssh_max_concurrency == spec_shown_concurrency(
            match ssh_max_concurrency {
                Some(s) => Some(s@),
                None => None,
            },
        ),
        r.ai_key_set == ai_key_set,
{
    let base = match ai_base_url {
        Some(s) => s,
        None => String::new(),
    };
    let model = match ai_model {
        Some(s) => s,
        None => String::new(),
    };
    SettingsDto {
        ai_base_url: base,
        ai_model: model,
        ssh_max_concurrency: shown_concurrency(ssh_max_concurrency),
        ai_key_set,
    }
}

/// The stored AI base URL: empty when cleared, otherwise the checked and
/// normalised URL.
pub fn base_url_setting(value: &str) -> (r: Result<String, AppError>)
    ensures
        spec_trim(value@).len() == 0 ==> (r matches Ok(s) && s@.len() == 0),
        spec_trim(value@).len() > 0 ==> match spec_base_url(spec_trim(value@)) {
            Ok(u) => r matches Ok(s) && s@ == trim_end_char(u.serialized, '/'),
            Err(m) => r matches Err(AppError::Validation(d)) && d@ == m,
        },
{
    let t = trim(value);
    if t.as_str().is_empty() {
        return Ok(String::new());
    }
    validate_base_url(t.as_str())
}

} // verus!
