//! Assembling the result of querying one device. Each device is reported
//! on its own: a device that cannot be reached or queried is `failed`; a
//! device whose commands all ran is `ok`; one where some command failed is
//! `partial`, the failed metrics being not available.
use vstd::prelude::*;

use crate::error::AppError;
use crate::models::Brand;
use crate::ssh::commands::{for_brand, spec_metric, METRIC_COUNT};
use crate::ssh::executor::CmdOutput;
use crate::ssh::parsers::{parse_metric, spec_parse_metric, MetricValue, MetricView};
use crate::text::owned;

verus! {

/// The result of querying one device.
#[derive(Debug, Clone)]
pub struct QueryResult {
    pub device_id: String,
    /// `ok`, `partial` or `failed`
    pub status: String,
    pub error_message: Option<String>,
    /// The metrics read, by name.
    pub metrics: Option<Vec<(String, MetricValue)>>,
    pub snapshot_id: Option<String>,
}

/// The metrics and status read from a device's command outputs.
#[derive(Debug, Clone)]
pub struct Reading {
    /// `ok` or `partial`
    pub status: String,
    pub metrics: Vec<(String, MetricValue)>,
}

/// How many metrics the outputs cover: outputs are paired with the metrics
/// in order, and the shorter list decides.
pub open spec fn covered(n_outputs: nat) -> nat {
    if n_outputs < METRIC_COUNT {
        n_outputs
    } else {
        METRIC_COUNT as nat
    }
}

/// The metric read from output `o` for metric `i`.
pub open spec fn spec_metric_from(i: int, o: CmdOutput) -> MetricView {
    if o.ok {
        spec_parse_metric(spec_metric(i), o.text@)
    } else {
        MetricView::NotAvailable
    }
}

/// Some covered command failed.
pub open spec fn any_failed(outputs: Seq<CmdOutput>) -> bool {
    exists|i: int| 0 <= i < covered(outputs.len()) && !(#[trigger] outputs[i]).ok
}

/// Reads the metrics from the outputs of a brand's commands (in the order
/// of `for_brand`).
pub fn read_outputs(brand: Brand, outputs: &Vec<CmdOutput>) -> (r: Reading)
    ensures
        r.metrics@.len() == covered(outputs@.len()),
        forall|i: int|
            0 <= i < r.metrics@.len() ==> (#[trigger] r.metrics@[i]).0@ == spec_metric(i)
                && r.metrics@[i].1@ == spec_metric_from(i, outputs@[i]),
        r.status@ == (if any_failed(outputs@) {
            "partial"@
        } else {
            "ok"@
        }),
{
    let cmds = for_brand(brand);
    let n = if outputs.len() < METRIC_COUNT {
        outputs.len()
    } else {
        METRIC_COUNT
    };
    let mut metrics: Vec<(String, MetricValue)> = Vec::new();
    let mut any_fail = false;
    let mut i: usize = 0;
    while i < n
        invariant
            n == covered(outputs@.len()),
            cmds@.len() == METRIC_COUNT,
            forall|k: int| 0 <= k < METRIC_COUNT ==> (#[trigger] cmds@[k]).0@ == spec_metric(k),
            i <= n,
            metrics@.len() == i,
            forall|k: int|
                0 <= k < i ==> (#[trigger] metrics@[k]).0@ == spec_metric(k) && metrics@[k].1@
                    == spec_metric_from(k, outputs@[k]),
            any_fail == exists|k: int| 0 <= k < i && !(#[trigger] outputs@[k]).ok,
        decreases n - i,
    {
        let name = cmds[i].0;
        let out = &outputs[i];
        let value = if out.ok {
            parse_metric(brand, name, out.text.as_str())
        } else {
            any_fail = true;
            MetricValue::NotAvailable
        };
        metrics.push((owned(name), value));
        i = i + 1;
    }
    let status = if any_fail {
        owned("partial")
    } else {
        owned("ok")
    };
    Reading { status, metrics }
}

/// The result for a device that could not be queried: `failed`, with the
/// error's message and no metrics. `snapshot_id` is the id of the `failed`
/// snapshot stored for it (`None` when none could be stored, as for a
/// device that does not exist).
pub fn failed(id: &str, err: &AppError, snapshot_id: Option<String>) -> (r: QueryResult)
    ensures
        r.device_id@ == id@,
        r.status@ == "failed"@,
        r.error_message matches Some(m) && m@ == err.spec_prefix() + err.spec_detail(),
        r.metrics is None,
        r.snapshot_id == snapshot_id,
{
    QueryResult {
        device_id: owned(id),
        status: owned("failed"),
        error_message: Some(err.message()),
        metrics: None,
        snapshot_id,
    }
}

/// The result for a device whose commands ran: the reading, and the id of
/// the stored snapshot when storing it succeeded.
pub fn completed(id: String, reading: Reading, snapshot_id: Option<String>) -> (r: QueryResult)
    ensures
        r.device_id == id,
        r.status == reading.status,
        r.error_message is None,
        r.metrics == Some(reading.metrics),
        r.snapshot_id == snapshot_id,
{
    QueryResult {
        device_id: id,
        status: reading.status,
        error_message: None,
        metrics: Some(reading.metrics),
        snapshot_id,
    }
}

/// The commands to run on a brand, in metric order.
pub fn commands_for(brand: Brand) -> (r: Vec<String>)
    ensures
        r@.len() == METRIC_COUNT,
        forall|i: int|
            0 <= i < METRIC_COUNT ==> (#[trigger] r@[i])@
                == crate::ssh::commands::spec_command(brand, i),
{
    let cmds = for_brand(brand);
    let mut r: Vec<String> = Vec::new();
    let mut i: usize = 0;
    while i < cmds.len()
        invariant
            cmds@.len() == METRIC_COUNT,
            forall|k: int|
                0 <= k < METRIC_COUNT ==> (#[trigger] cmds@[k]).1@
                    == crate::ssh::commands::spec_command(brand, k),
            i <= cmds@.len(),
            r@.len() == i,
            forall|k: int|
                0 <= k < i ==> (#[trigger] r@[k])@ == crate::ssh::commands::spec_command(
                    brand,
                    k,
                ),
        decreases cmds.len() - i,
    {
        r.push(cmds[i].1.clone());
        i = i + 1;
    }
    r
}

} // verus!
