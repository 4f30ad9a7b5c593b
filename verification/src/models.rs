//! Domain model: brands, devices, groups, schedules, runs and reports.
use vstd::prelude::*;

use crate::text::str_eq;

verus! {

/// The supported network device brands.
#[derive(Debug, Clone, Copy, PartialEq, Eq, Structural)]
pub enum Brand {
    Cisco,
    Aruba,
    FortigateNgfw,
    PaloAlto,
}

impl Brand {
    /// The name used for storage and transport.
    pub open spec fn spec_as_str(self) -> Seq<char> {
        match self {
            Brand::Cisco => "cisco"@,
            Brand::Aruba => "aruba"@,
            Brand::FortigateNgfw => "fortigate_ngfw"@,
            Brand::PaloAlto => "palo_alto"@,
        }
    }

    /// The brand whose name is `s`, if any.
    pub open spec fn spec_parse(s: Seq<char>) -> Option<Brand> {
        if s == "cisco"@ {
            Some(Brand::Cisco)
        } else if s == "aruba"@ {
            Some(Brand::Aruba)
        } else if s == "fortigate_ngfw"@ {
            Some(Brand::FortigateNgfw)
        } else if s == "palo_alto"@ {
            Some(Brand::PaloAlto)
        } else {
            None
        }
    }

    /// The name used for storage and transport.
    pub fn as_str(&self) -> (r: &'static str)
        ensures
            r@ == self.spec_as_str(),
    {
        match self {
            Brand::Cisco => "cisco",
            Brand::Aruba => "aruba",
            Brand::FortigateNgfw => "fortigate_ngfw",
            Brand::PaloAlto => "palo_alto",
        }
    }

    /// Parses a brand name; `None` when the brand is not supported.
    pub fn parse(s: &str) -> (r: Option<Brand>)
        ensures
            r == Brand::spec_parse(s@),
    {
        if str_eq(s, "cisco") {
            Some(Brand::Cisco)
        } else if str_eq(s, "aruba") {
            Some(Brand::Aruba)
        } else if str_eq(s, "fortigate_ngfw") {
            Some(Brand::FortigateNgfw)
        } else if str_eq(s, "palo_alto") {
            Some(Brand::PaloAlto)
        } else {
            None
        }
    }
}

/// Every brand is read back from its own name.
pub proof fn lemma_brand_parse_as_str(b: Brand)
    ensures
        Brand::spec_parse(b.spec_as_str()) == Some(b),
{
    reveal_strlit("cisco");
    reveal_strlit("aruba");
    reveal_strlit("fortigate_ngfw");
    reveal_strlit("palo_alto");
    assert("cisco"@[0] != "aruba"@[0]);
    assert("cisco"@.len() != "fortigate_ngfw"@.len() && "cisco"@.len() != "palo_alto"@.len());
    assert("aruba"@.len() != "fortigate_ngfw"@.len() && "aruba"@.len() != "palo_alto"@.len());
    assert("fortigate_ngfw"@.len() != "palo_alto"@.len());
}

/// A name that parses to a brand is that brand's name.
pub proof fn lemma_brand_as_str_parse(s: Seq<char>)
    ensures
        Brand::spec_parse(s) matches Some(b) ==> b.spec_as_str() == s,
{
}

/// A device as shown to users; it never carries the password.
#[derive(Debug, Clone)]
pub struct Device {
    pub id: String,
    pub ip_address: String,
    pub username: String,
    pub note: Option<String>,
    pub brand: Brand,
    pub created_at: String,
    pub updated_at: String,
}

/// Input for creating a device (holds the plain-text password).
#[derive(Debug, Clone)]
pub struct NewDevice {
    pub ip_address: String,
    pub username: String,
    pub password: String,
    pub note: Option<String>,
    pub brand: Brand,
}

/// Input for updating a device; every field is optional.
#[derive(Debug, Clone, Default)]
pub struct UpdateDevice {
    pub ip_address: Option<String>,
    pub username: Option<String>,
    pub password: Option<String>,
    pub note: Option<String>,
    pub brand: Option<Brand>,
}

/// A group (tag) of devices.
#[derive(Debug, Clone)]
pub struct Group {
    pub id: String,
    pub name: String,
    pub created_at: String,
}

/// A scheduled job.
#[derive(Debug, Clone)]
pub struct ScheduledJob {
    pub id: String,
    pub name: String,
    /// `device` or `group`
    pub target_type: String,
    pub target_id: String,
    /// `interval` or `daily`
    pub schedule_kind: String,
    pub interval_minutes: Option<i64>,
    pub daily_time: Option<String>,
    pub enabled: bool,
    pub created_at: String,
}

/// Input for creating a scheduled job.
#[derive(Debug, Clone)]
pub struct NewScheduledJob {
    pub name: String,
    pub target_type: String,
    pub target_id: String,
    pub schedule_kind: String,
    pub interval_minutes: Option<i64>,
    pub daily_time: Option<String>,
}

/// Input for updating a scheduled job. For the two optional settings, the
/// outer `None` keeps the current value and `Some(None)` clears it.
#[derive(Debug, Clone, Default)]
pub struct UpdateScheduledJob {
    pub name: Option<String>,
    pub target_type: Option<String>,
    pub target_id: Option<String>,
    pub schedule_kind: Option<String>,
    pub interval_minutes: Option<Option<i64>>,
    pub daily_time: Option<Option<String>>,
}

/// A record of one execution of a scheduled job.
#[derive(Debug, Clone)]
pub struct JobRun {
    pub id: String,
    pub job_id: String,
    pub started_at: String,
    pub finished_at: Option<String>,
    pub total: i64,
    pub success_count: i64,
    pub failure_count: i64,
}

/// An AI summary report.
#[derive(Debug, Clone)]
pub struct Report {
    pub id: String,
    pub title: String,
    pub scope_json: String,
    pub summary_md: String,
    pub generated_at: String,
    pub model_endpoint: Option<String>,
}

/// The scope a report covers.
#[derive(Debug, Clone, Default)]
pub struct ReportScope {
    pub device_ids: Option<Vec<String>>,
    pub group_ids: Option<Vec<String>>,
    pub from: Option<String>,
    pub to: Option<String>,
}

} // verus!
