use noc_lens::models::Brand;
use noc_lens::ssh::parsers::{parse_metric, MetricValue};

fn percent(v: &MetricValue) -> f64 {
    match v {
        MetricValue::Cpu { usage_percent } | MetricValue::MemoryPercent { usage_percent } => {
            usage_percent.parse::<f64>().unwrap()
        }
        MetricValue::MemoryTotals { used, total } => {
            let used = used.parse::<f64>().unwrap();
            let total = total.parse::<f64>().unwrap();
            ((used / total) * 100.0 * 10.0).round() / 10.0
        }
        other => panic!("no percentage in {:?}", other),
    }
}

#[test]
fn cisco_cpu_percentage() {
    let raw = "CPU utilization for five seconds: 23%/0%; one minute: 18%; five minutes: 15%";
    let v = parse_metric(Brand::Cisco, "cpu", raw);
    assert_eq!(percent(&v), 23.0);
}

#[test]
fn memory_from_total_used() {
    let raw = "Processor Pool Total: 200 Used: 50 Free: 150";
    let v = parse_metric(Brand::Cisco, "memory", raw);
    assert_eq!(percent(&v), 25.0);
}

#[test]
fn interface_up_down_count() {
    let raw = "Gi0/1 up up\nGi0/2 administratively down down\nGi0/3 up up";
    let v = parse_metric(Brand::Cisco, "interface", raw);
    match v {
        MetricValue::Interface { up, down, .. } => {
            assert_eq!(up, 4);
            assert!(down >= 1);
        }
        other => panic!("unexpected {:?}", other),
    }
}

#[test]
fn unparseable_is_na() {
    let v = parse_metric(Brand::PaloAlto, "module", "random text");
    assert!(matches!(v, MetricValue::NotAvailable));
}

#[test]
fn cpu_without_percentage_is_na() {
    assert!(matches!(parse_metric(Brand::Aruba, "cpu", "idle"), MetricValue::NotAvailable));
}

#[test]
fn cpu_keeps_decimal_text() {
    match parse_metric(Brand::Aruba, "cpu", "load 12.5 %") {
        MetricValue::Cpu { usage_percent } => assert_eq!(usage_percent, "12.5"),
        other => panic!("unexpected {:?}", other),
    }
}

#[test]
fn memory_percentage_is_preferred() {
    match parse_metric(Brand::Cisco, "memory", "Total: 200 Used: 50 (40%)") {
        MetricValue::MemoryPercent { usage_percent } => assert_eq!(usage_percent, "40"),
        other => panic!("unexpected {:?}", other),
    }
}

#[test]
fn memory_labels_ignore_case_and_exact_amounts() {
    match parse_metric(Brand::Cisco, "memory", "total 300, used: 100") {
        MetricValue::MemoryTotals { used, total } => {
            assert_eq!(used, "100");
            assert_eq!(total, "300");
        }
        other => panic!("unexpected {:?}", other),
    }
    let v = parse_metric(Brand::Cisco, "memory", "Total: 3 Used: 1");
    assert_eq!(percent(&v), 33.3);
}

#[test]
fn memory_with_zero_total_is_na() {
    assert!(matches!(
        parse_metric(Brand::Cisco, "memory", "Total: 0 Used: 0"),
        MetricValue::NotAvailable
    ));
}

#[test]
fn loading_collects_every_percentage() {
    match parse_metric(Brand::Cisco, "loading", "five seconds: 23%/0%; one minute: 18%") {
        MetricValue::Loading { samples_percent } => {
            assert_eq!(samples_percent, vec!["23".to_string(), "0".to_string(), "18".to_string()])
        }
        other => panic!("unexpected {:?}", other),
    }
    assert!(matches!(parse_metric(Brand::Cisco, "loading", "none"), MetricValue::NotAvailable));
}

#[test]
fn interface_counts_lines_and_words() {
    match parse_metric(Brand::FortigateNgfw, "interface", "port1 UP\n\n  \nport2 Down\n") {
        MetricValue::Interface { total_lines, up, down } => {
            assert_eq!(total_lines, 2);
            assert_eq!(up, 1);
            assert_eq!(down, 1);
        }
        other => panic!("unexpected {:?}", other),
    }
    assert!(matches!(parse_metric(Brand::Cisco, "interface", "nothing"), MetricValue::NotAvailable));
}

#[test]
fn traffic_is_not_parsed() {
    assert!(matches!(parse_metric(Brand::Cisco, "traffic", "12%"), MetricValue::NotAvailable));
}
