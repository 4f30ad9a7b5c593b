use noc_lens::db::schedule::{enabled_flag, job_from_row, merge_job_update, normalize};
use noc_lens::models::{NewScheduledJob, ScheduledJob, UpdateScheduledJob};
use noc_lens::scheduler::{
    cron_for, effective_concurrency, job_targets, query_concurrency, tally, Targets, Trigger,
    DEFAULT_QUERY_CONCURRENCY,
};
use noc_lens::ssh::query::QueryResult;

fn new_job(kind: &str, interval: Option<i64>, daily: Option<&str>) -> NewScheduledJob {
    NewScheduledJob {
        name: "  每日巡檢 ".to_string(),
        target_type: " group".to_string(),
        target_id: " g1 ".to_string(),
        schedule_kind: kind.to_string(),
        interval_minutes: interval,
        daily_time: daily.map(|s| s.to_string()),
    }
}

fn job(kind: &str, interval: Option<i64>, daily: Option<&str>) -> ScheduledJob {
    job_from_row(
        "j1".to_string(),
        "排程".to_string(),
        "device".to_string(),
        "d1".to_string(),
        kind.to_string(),
        interval,
        daily.map(|s| s.to_string()),
        1,
        "2024-01-01T00:00:00+00:00".to_string(),
    )
}

#[test]
fn normalize_trims_and_clears_the_other_kind() {
    let j = normalize(new_job(" interval ", Some(60), Some("08:30"))).unwrap();
    assert_eq!(j.name, "每日巡檢");
    assert_eq!(j.target_type, "group");
    assert_eq!(j.target_id, "g1");
    assert_eq!(j.schedule_kind, "interval");
    assert_eq!(j.interval_minutes, Some(60));
    assert_eq!(j.daily_time, None);

    let d = normalize(new_job("daily", Some(5), Some(" 08:30 "))).unwrap();
    assert_eq!(d.interval_minutes, None);
    assert_eq!(d.daily_time.as_deref(), Some("08:30"));
}

#[test]
fn normalize_refuses_each_bad_field() {
    let msg = |j: NewScheduledJob| normalize(j).unwrap_err().message();
    let mut j = new_job("interval", Some(1), None);
    j.name = "  ".to_string();
    assert_eq!(msg(j), "驗證錯誤：排程名稱不可為空");
    let mut j = new_job("interval", Some(1), None);
    j.target_id = "".to_string();
    assert_eq!(msg(j), "驗證錯誤：排程目標不可為空");
    let mut j = new_job("interval", Some(1), None);
    j.target_type = "site".to_string();
    assert_eq!(msg(j), "驗證錯誤：target_type 須為 device 或 group");
    assert_eq!(msg(new_job("interval", Some(0), None)), "驗證錯誤：interval_minutes 須大於 0");
    assert_eq!(msg(new_job("interval", None, None)), "驗證錯誤：interval_minutes 須大於 0");
    assert_eq!(msg(new_job("daily", None, None)), "驗證錯誤：daily_time 須為 HH:mm");
    assert_eq!(msg(new_job("daily", None, Some("25:00"))), "驗證錯誤：daily_time 須為有效 HH:mm");
    assert_eq!(msg(new_job("weekly", None, None)), "驗證錯誤：schedule_kind 須為 interval 或 daily");
}

#[test]
fn normalize_is_idempotent_on_an_example() {
    let once = normalize(new_job("daily", None, Some(" 07:05"))).unwrap();
    let twice = normalize(once.clone()).unwrap();
    assert_eq!(once.name, twice.name);
    assert_eq!(once.target_type, twice.target_type);
    assert_eq!(once.target_id, twice.target_id);
    assert_eq!(once.schedule_kind, twice.schedule_kind);
    assert_eq!(once.interval_minutes, twice.interval_minutes);
    assert_eq!(once.daily_time, twice.daily_time);
}

#[test]
fn update_merges_then_validates() {
    let current = job("interval", Some(30), None);
    let patch = UpdateScheduledJob {
        name: None,
        target_type: None,
        target_id: None,
        schedule_kind: Some("daily".to_string()),
        interval_minutes: None,
        daily_time: Some(Some("08:30".to_string())),
    };
    let merged = merge_job_update(current.clone(), patch).unwrap();
    assert_eq!(merged.schedule_kind, "daily");
    assert_eq!(merged.daily_time.as_deref(), Some("08:30"));
    assert_eq!(merged.interval_minutes, None);
    assert_eq!(merged.target_id, "d1");

    let clear = UpdateScheduledJob {
        name: None,
        target_type: None,
        target_id: None,
        schedule_kind: None,
        interval_minutes: Some(None),
        daily_time: None,
    };
    assert_eq!(merge_job_update(current, clear).unwrap_err().code(), "VALIDATION");
}

#[test]
fn empty_update_keeps_a_stored_job() {
    let stored = job("daily", None, Some("08:30"));
    let patch = UpdateScheduledJob {
        name: None,
        target_type: None,
        target_id: None,
        schedule_kind: None,
        interval_minutes: None,
        daily_time: None,
    };
    let merged = merge_job_update(stored.clone(), patch).unwrap();
    assert_eq!(merged.name, stored.name);
    assert_eq!(merged.target_type, stored.target_type);
    assert_eq!(merged.target_id, stored.target_id);
    assert_eq!(merged.schedule_kind, stored.schedule_kind);
    assert_eq!(merged.interval_minutes, stored.interval_minutes);
    assert_eq!(merged.daily_time, stored.daily_time);
}

#[test]
fn enabled_flag_roundtrips_through_rows() {
    assert_eq!(enabled_flag(true), 1);
    assert_eq!(enabled_flag(false), 0);
    let j = job_from_row(
        "a".into(), "b".into(), "device".into(), "c".into(), "interval".into(), Some(5), None,
        enabled_flag(false), "t".into(),
    );
    assert!(!j.enabled);
    assert!(job("interval", Some(5), None).enabled);
}

fn cron_text(t: Option<Trigger>) -> Option<String> {
    match t {
        Some(Trigger::Cron(c)) => Some(c),
        Some(other) => panic!("not a cron trigger: {:?}", other),
        None => None,
    }
}

fn every(t: Option<Trigger>) -> Option<u64> {
    match t {
        Some(Trigger::Every { minutes }) => Some(minutes),
        Some(other) => panic!("not a fixed interval: {:?}", other),
        None => None,
    }
}

#[test]
fn cron_for_interval_and_daily_jobs() {
    assert_eq!(every(cron_for(&job("interval", Some(15), None))), Some(15));
    assert_eq!(every(cron_for(&job("interval", Some(45), None))), Some(45));
    assert_eq!(every(cron_for(&job("interval", Some(90), None))), Some(90));
    assert_eq!(cron_text(cron_for(&job("daily", None, Some("08:30")))).as_deref(), Some("0 30 8 * * *"));
    assert_eq!(cron_text(cron_for(&job("daily", None, Some(" 7 : 05 ")))).as_deref(), Some("0 5 7 * * *"));
    assert!(cron_for(&job("interval", Some(0), None)).is_none());
    assert!(cron_for(&job("interval", None, None)).is_none());
    assert!(cron_for(&job("daily", None, Some("0830"))).is_none());
    assert!(cron_for(&job("daily", None, None)).is_none());
    assert!(cron_for(&job("weekly", Some(5), None)).is_none());
}

#[test]
fn normalized_interval_job_is_scheduled() {
    let n = normalize(new_job("interval", Some(60), None)).unwrap();
    let j = job_from_row(
        "x".into(), n.name, n.target_type, n.target_id, n.schedule_kind, n.interval_minutes,
        n.daily_time, 1, "t".into(),
    );
    assert_eq!(every(cron_for(&j)), Some(60));
}

#[test]
fn job_targets_by_type() {
    match job_targets(&job("interval", Some(1), None)).unwrap() {
        Targets::Device(id) => assert_eq!(id, "d1"),
        other => panic!("unexpected {:?}", other),
    }
    let mut g = job("interval", Some(1), None);
    g.target_type = "group".to_string();
    g.target_id = "g9".to_string();
    match job_targets(&g).unwrap() {
        Targets::Group(id) => assert_eq!(id, "g9"),
        other => panic!("unexpected {:?}", other),
    }
    g.target_type = "site".to_string();
    assert_eq!(job_targets(&g).unwrap_err().message(), "驗證錯誤：未知的 target_type：site");
}

fn result(status: &str) -> QueryResult {
    QueryResult {
        device_id: "d".to_string(),
        status: status.to_string(),
        error_message: None,
        metrics: None,
        snapshot_id: None,
    }
}

#[test]
fn tally_counts_success_and_failure() {
    let rs = vec![result("ok"), result("failed"), result("partial"), result("failed")];
    assert_eq!(tally(&rs), (2, 2));
    assert_eq!(tally(&Vec::new()), (0, 0));
}

#[test]
fn query_concurrency_setting() {
    assert_eq!(query_concurrency(None), DEFAULT_QUERY_CONCURRENCY);
    assert_eq!(query_concurrency(Some("7".to_string())), 7);
    assert_eq!(query_concurrency(Some("x".to_string())), DEFAULT_QUERY_CONCURRENCY);
    assert_eq!(query_concurrency(Some("0".to_string())), 0);
    assert_eq!(effective_concurrency(0), 1);
    assert_eq!(effective_concurrency(4), 4);
}
