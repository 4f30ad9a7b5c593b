use noc_lens::error::AppError;
use noc_lens::models::Brand;
use noc_lens::ssh::client::{
    append_output, check_authenticated, record_command, CommandOutcome, SSH_MAX_OUTPUT_BYTES,
};
use noc_lens::ssh::commands::for_brand;
use noc_lens::ssh::executor::CmdOutput;
use noc_lens::ssh::parsers::MetricValue;
use noc_lens::ssh::query::{commands_for, completed, failed, read_outputs};

#[test]
fn every_brand_has_six_metrics_in_order() {
    for b in [Brand::Cisco, Brand::Aruba, Brand::FortigateNgfw, Brand::PaloAlto] {
        let names: Vec<&str> = for_brand(b).iter().map(|(m, _)| *m).collect();
        assert_eq!(names, vec!["cpu", "memory", "module", "interface", "loading", "traffic"]);
        let cmds = commands_for(b);
        let expected: Vec<String> = for_brand(b).into_iter().map(|(_, c)| c).collect();
        assert_eq!(cmds, expected);
    }
    assert_eq!(for_brand(Brand::Cisco)[3].1, "show ip interface brief");
    assert_eq!(for_brand(Brand::PaloAlto)[5].1, "show counter interface all");
}

#[test]
fn output_is_bounded() {
    let mut buf = Vec::new();
    append_output(&mut buf, b"abc").unwrap();
    append_output(&mut buf, b"de").unwrap();
    assert_eq!(buf, b"abcde");
    let mut big = vec![0u8; SSH_MAX_OUTPUT_BYTES - 1];
    append_output(&mut big, b"x").unwrap();
    assert_eq!(big.len(), SSH_MAX_OUTPUT_BYTES);
    let e = append_output(&mut big, b"y").unwrap_err();
    assert_eq!(e.message(), "驗證錯誤：SSH 指令輸出超過 512 KiB 上限");
    assert_eq!(big.len(), SSH_MAX_OUTPUT_BYTES);
}

#[test]
fn authentication_failure_message() {
    assert!(check_authenticated(true).is_ok());
    assert_eq!(
        check_authenticated(false).unwrap_err().message(),
        "驗證錯誤：SSH 認證失敗（帳號或密碼錯誤）"
    );
}

#[test]
fn commands_are_recorded_and_timeout_stops_the_session() {
    let mut outs = Vec::new();
    assert!(!record_command(&mut outs, CommandOutcome::Output("fine".into()), 3));
    assert!(!record_command(&mut outs, CommandOutcome::Failed(AppError::Validation("boom".into())), 2));
    assert!(record_command(&mut outs, CommandOutcome::TimedOut, 2));
    assert_eq!(outs.len(), 5);
    assert!(outs[0].ok && outs[0].text == "fine");
    assert!(!outs[1].ok && outs[1].text == "驗證錯誤：boom");
    assert!(!outs[2].ok && outs[2].text == "SSH 指令逾時");
    assert!(!outs[3].ok && outs[3].text == "SSH 指令未執行：前一個指令逾時");
    assert!(!outs[4].ok && outs[4].text == "SSH 指令未執行：前一個指令逾時");
}

fn out(ok: bool, text: &str) -> CmdOutput {
    CmdOutput { ok, text: text.to_string() }
}

#[test]
fn query_success_reads_every_metric() {
    let outputs = vec![
        out(true, "CPU utilization for five seconds: 42%/0%"),
        out(true, "Processor Pool Total: 100 Used: 10"),
        out(true, "module ok"),
        out(true, "Gi0/1 up up"),
        out(true, "5%"),
        out(true, "counters"),
    ];
    let r = read_outputs(Brand::Cisco, &outputs);
    assert_eq!(r.status, "ok");
    assert_eq!(r.metrics.len(), 6);
    assert_eq!(r.metrics[0].0, "cpu");
    match &r.metrics[0].1 {
        MetricValue::Cpu { usage_percent } => assert_eq!(usage_percent, "42"),
        other => panic!("unexpected {:?}", other),
    }
    assert!(matches!(r.metrics[2].1, MetricValue::NotAvailable));
    let q = completed("d1".to_string(), r, Some("s1".to_string()));
    assert_eq!(q.status, "ok");
    assert_eq!(q.snapshot_id.as_deref(), Some("s1"));
    assert!(q.error_message.is_none());
}

#[test]
fn query_with_a_failed_command_is_partial() {
    let outputs = vec![out(false, "denied"), out(true, "50%")];
    let r = read_outputs(Brand::Aruba, &outputs);
    assert_eq!(r.status, "partial");
    assert_eq!(r.metrics.len(), 2);
    assert!(matches!(r.metrics[0].1, MetricValue::NotAvailable));
    assert_eq!(r.metrics[1].0, "memory");
}

#[test]
fn unreachable_device_is_failed() {
    let q = failed("不存在", &AppError::NotFound("設備 不存在".into()), None);
    assert_eq!(q.status, "failed");
    assert_eq!(q.device_id, "不存在");
    assert_eq!(q.error_message.as_deref(), Some("找不到資料：設備 不存在"));
    assert!(q.metrics.is_none());
    assert!(q.snapshot_id.is_none());
}

#[test]
fn failed_query_keeps_its_stored_snapshot() {
    let q = failed("d2", &AppError::Validation("SSH 連線逾時".into()), Some("s9".to_string()));
    assert_eq!(q.status, "failed");
    assert_eq!(q.error_message.as_deref(), Some("驗證錯誤：SSH 連線逾時"));
    assert!(q.metrics.is_none());
    assert_eq!(q.snapshot_id.as_deref(), Some("s9"));
}
