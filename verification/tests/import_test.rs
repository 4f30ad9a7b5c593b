use noc_lens::error::AppError;
use noc_lens::models::Brand;
use noc_lens::services::import::{group_names, plan_import, record_outcome, ImportResult, RowOutcome, RowPlan};

#[test]
fn import_plans_each_row() {
    let csv = "ip_address,username,password,note,brand,groups\n\
        10.2.0.1,admin,pw1,核心交換器,cisco,高雄三民區;高雄高中\n\
        10.2.0.2,admin,pw2,防火牆,unknown_brand,\n\
        10.2.0.1,admin,pw3,重複,cisco,\n";
    let plans = plan_import(csv).unwrap();
    assert_eq!(plans.len(), 3);
    match &plans[0] {
        RowPlan::Create { row, device, groups } => {
            assert_eq!(*row, 1);
            assert_eq!(device.ip_address, "10.2.0.1");
            assert_eq!(device.password, "pw1");
            assert_eq!(device.note.as_deref(), Some("核心交換器"));
            assert_eq!(device.brand, Brand::Cisco);
            assert_eq!(groups, &vec!["高雄三民區".to_string(), "高雄高中".to_string()]);
        }
        other => panic!("unexpected {:?}", other),
    }
    match &plans[1] {
        RowPlan::Reject { row, reason } => {
            assert_eq!(*row, 2);
            assert_eq!(reason, "不支援的品牌：unknown_brand");
        }
        other => panic!("unexpected {:?}", other),
    }
    match &plans[2] {
        RowPlan::Create { row, groups, .. } => {
            assert_eq!(*row, 3);
            assert!(groups.is_empty());
        }
        other => panic!("unexpected {:?}", other),
    }
}

#[test]
fn import_reports_success_and_failures_per_row() {
    let mut result = ImportResult::new();
    record_outcome(&mut result, 1, RowOutcome::Created);
    record_outcome(&mut result, 2, RowOutcome::Rejected("不支援的品牌：unknown_brand".into()));
    record_outcome(&mut result, 3, RowOutcome::CreateFailed(AppError::DuplicateIp("10.2.0.1".into())));
    record_outcome(&mut result, 4, RowOutcome::GroupsFailed(AppError::Db("locked".into())));
    assert_eq!(result.success, 2);
    assert_eq!(result.failed.len(), 3);
    assert_eq!(result.failed[0].row, 2);
    assert_eq!(result.failed[1].row, 3);
    assert_eq!(result.failed[1].reason, "IP 位址重複：10.2.0.1");
    assert_eq!(result.failed[2].reason, "設備已建立但群組指派失敗：資料庫錯誤：locked");
}

#[test]
fn headers_are_matched_ignoring_case() {
    let plans = plan_import("Brand,PASSWORD,Username,IP_Address\npalo_alto, pw , op ,10.0.0.9\n").unwrap();
    match &plans[0] {
        RowPlan::Create { device, groups, .. } => {
            assert_eq!(device.ip_address, "10.0.0.9");
            assert_eq!(device.username, "op");
            assert_eq!(device.password, "pw");
            assert_eq!(device.note, None);
            assert_eq!(device.brand, Brand::PaloAlto);
            assert!(groups.is_empty());
        }
        other => panic!("unexpected {:?}", other),
    }
}

#[test]
fn missing_required_column_is_refused() {
    let e = plan_import("ip_address,username,brand\n1.1.1.1,a,cisco\n").unwrap_err();
    assert_eq!(e.code(), "PARSE_ERROR");
    assert_eq!(e.message(), "解析錯誤：缺少必要欄位 password");
}

#[test]
fn malformed_row_is_a_row_failure() {
    let plans = plan_import("ip_address,username,password,brand\n1.1.1.1,a,b,cisco\n1.1.1.2,a\n").unwrap();
    assert_eq!(plans.len(), 2);
    match &plans[1] {
        RowPlan::Reject { row, reason } => {
            assert_eq!(*row, 2);
            assert!(reason.starts_with("資料列解析失敗："));
        }
        other => panic!("unexpected {:?}", other),
    }
}

#[test]
fn group_names_split_on_semicolons() {
    assert_eq!(group_names(" a ; ;b;"), vec!["a".to_string(), "b".to_string()]);
    assert!(group_names("").is_empty());
}
