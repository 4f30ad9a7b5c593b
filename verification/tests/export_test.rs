use noc_lens::export::{
    export_format, export_path, lines, pdf_page_stream, pdf_utf16_hex, report_markdown, report_pdf,
    wrap_pdf_line, ExportFormat,
};
use noc_lens::models::Report;

fn report(summary: &str, endpoint: Option<&str>) -> Report {
    Report {
        id: "r1".to_string(),
        title: "設備健康摘要報告".to_string(),
        scope_json: "{}".to_string(),
        summary_md: summary.to_string(),
        generated_at: "2024-05-01T02:00:00+00:00".to_string(),
        model_endpoint: endpoint.map(|s| s.to_string()),
    }
}

fn expected_hex(value: &str) -> String {
    let mut bytes = vec![0xFEu8, 0xFF];
    for unit in value.encode_utf16() {
        bytes.push((unit >> 8) as u8);
        bytes.push((unit & 0xFF) as u8);
    }
    let hex: String = bytes.iter().map(|b| format!("{b:02X}")).collect();
    format!("<{hex}>")
}

fn expected_wrap(line: &str, width: usize) -> Vec<String> {
    if line.is_empty() {
        return vec![String::new()];
    }
    let mut wrapped = Vec::new();
    let mut current = String::new();
    for ch in line.chars() {
        current.push(ch);
        if current.chars().count() >= width {
            wrapped.push(std::mem::take(&mut current));
        }
    }
    if !current.is_empty() {
        wrapped.push(current);
    }
    wrapped
}

fn expected_stream(lines: &[String]) -> String {
    let mut stream = String::from("BT\n/F1 11 Tf\n50 800 Td\n15 TL\n");
    for line in lines {
        stream.push_str(&expected_hex(line));
        stream.push_str(" Tj\nT*\n");
    }
    stream.push_str("ET\n");
    stream
}

fn expected_pdf(report: &Report) -> Vec<u8> {
    let mut lines = Vec::new();
    lines.push(report.title.clone());
    lines.push(format!("產生時間：{}", report.generated_at));
    if let Some(endpoint) = &report.model_endpoint {
        lines.push(format!("模型端點：{endpoint}"));
    }
    lines.push(String::new());
    for line in report.summary_md.lines() {
        lines.extend(expected_wrap(line, 72));
    }
    let pages: Vec<Vec<String>> = lines.chunks(45).map(|c| c.to_vec()).collect();
    let font_obj = 3 + pages.len() * 2;
    let mut objects = Vec::new();
    objects.push("<< /Type /Catalog /Pages 2 0 R >>".to_string());
    let kids = (0..pages.len()).map(|i| format!("{} 0 R", 3 + i * 2)).collect::<Vec<_>>().join(" ");
    objects.push(format!("<< /Type /Pages /Kids [{kids}] /Count {} >>", pages.len()));
    for (index, page_lines) in pages.iter().enumerate() {
        let page_obj = 3 + index * 2;
        let content_obj = page_obj + 1;
        objects.push(format!(
            "<< /Type /Page /Parent 2 0 R /MediaBox [0 0 595 842] /Resources << /Font << /F1 {font_obj} 0 R >> >> /Contents {content_obj} 0 R >>"
        ));
        let content = expected_stream(page_lines);
        objects.push(format!("<< /Length {} >>\nstream\n{}endstream", content.len(), content));
    }
    objects.push("<< /Type /Font /Subtype /Type1 /BaseFont /Helvetica >>".to_string());
    let mut bytes = b"%PDF-1.4\n%\xE2\xE3\xCF\xD3\n".to_vec();
    let mut offsets = Vec::new();
    for (idx, object) in objects.iter().enumerate() {
        offsets.push(bytes.len());
        bytes.extend_from_slice(format!("{} 0 obj\n{}\nendobj\n", idx + 1, object).as_bytes());
    }
    let xref_offset = bytes.len();
    bytes.extend_from_slice(format!("xref\n0 {}\n", objects.len() + 1).as_bytes());
    bytes.extend_from_slice(b"0000000000 65535 f \n");
    for offset in offsets {
        bytes.extend_from_slice(format!("{offset:010} 00000 n \n").as_bytes());
    }
    bytes.extend_from_slice(
        format!("trailer\n<< /Size {} /Root 1 0 R >>\nstartxref\n{xref_offset}\n%%EOF\n", objects.len() + 1)
            .as_bytes(),
    );
    bytes
}

#[test]
fn export_format_and_path() {
    assert_eq!(export_format(" PDF ").unwrap(), ExportFormat::Pdf);
    assert_eq!(export_format("md").unwrap(), ExportFormat::Markdown);
    assert_eq!(export_format("docx").unwrap_err().message(), "驗證錯誤：format 須為 md 或 pdf");
    assert_eq!(export_path("  /tmp/r.md ").unwrap(), "/tmp/r.md");
    assert_eq!(export_path("   ").unwrap_err().message(), "驗證錯誤：匯出路徑不可為空");
}

#[test]
fn markdown_document() {
    let r = report("## 概況\n正常", Some("https://api.openai.com/v1"));
    assert_eq!(
        report_markdown(&r),
        "# 設備健康摘要報告\n\n- 產生時間：2024-05-01T02:00:00+00:00\n- 模型端點：https://api.openai.com/v1\n\n---\n\n## 概況\n正常"
    );
    let r = report("x", None);
    assert_eq!(report_markdown(&r), "# 設備健康摘要報告\n\n- 產生時間：2024-05-01T02:00:00+00:00\n\n---\n\nx");
}

#[test]
fn lines_follow_str_lines() {
    for s in ["", "a", "a\n", "a\r\nb", "a\n\nb\n", "\n", "a\rb\r\n", "x\r"] {
        let expected: Vec<String> = s.lines().map(|l| l.to_string()).collect();
        assert_eq!(lines(s), expected, "for {:?}", s);
    }
}

#[test]
fn wrapping_keeps_the_text() {
    assert_eq!(wrap_pdf_line("", 72), vec![String::new()]);
    assert_eq!(wrap_pdf_line("abcdef", 4), vec!["abcd".to_string(), "ef".to_string()]);
    assert_eq!(wrap_pdf_line("abcd", 4), vec!["abcd".to_string()]);
    for (line, width) in [("設備健康摘要報告", 3), ("abc", 1), ("abc", 0), ("hello world", 72)] {
        let w = wrap_pdf_line(line, width);
        assert_eq!(w, expected_wrap(line, width));
        assert_eq!(w.concat(), line);
    }
}

#[test]
fn utf16_hex_and_page_stream() {
    assert_eq!(pdf_utf16_hex("A"), "<FEFF0041>");
    assert_eq!(pdf_utf16_hex(""), "<FEFF>");
    assert_eq!(pdf_utf16_hex("設"), expected_hex("設"));
    assert_eq!(pdf_utf16_hex("😀"), "<FEFFD83DDE00>");
    let ls = vec!["A".to_string(), "測試".to_string()];
    assert_eq!(pdf_page_stream(&ls), expected_stream(&ls));
}

#[test]
fn pdf_document_bytes() {
    let short = report("## 概況\n正常", Some("https://api.openai.com/v1"));
    assert_eq!(report_pdf(&short), expected_pdf(&short));
    let long_line = "x".repeat(200);
    let mut summary = String::new();
    for i in 0..120 {
        summary.push_str(&format!("第 {i} 行\r\n"));
    }
    summary.push_str(&long_line);
    let long = report(&summary, None);
    let bytes = report_pdf(&long);
    assert_eq!(bytes, expected_pdf(&long));
    assert!(bytes.starts_with(b"%PDF-1.4\n"));
    assert!(bytes.ends_with(b"%%EOF\n"));
}

#[test]
fn pdf_xref_offsets_point_at_objects() {
    let r = report("line one\nline two", Some("http://localhost:11434/v1"));
    let bytes = report_pdf(&r);
    let text = String::from_utf8_lossy(&bytes).to_string();
    let start: usize = text
        .rsplit("startxref\n")
        .next()
        .unwrap()
        .lines()
        .next()
        .unwrap()
        .parse()
        .unwrap();
    assert!(bytes[start..].starts_with(b"xref\n0 "));
    let table = &text[text.find("xref\n").unwrap()..];
    let rows: Vec<&str> = table.lines().skip(3).take_while(|l| l.ends_with(" 00000 n ")).collect();
    assert_eq!(rows.len(), 5);
    for (i, row) in rows.iter().enumerate() {
        let off: usize = row[..10].parse().unwrap();
        assert!(bytes[off..].starts_with(format!("{} 0 obj\n", i + 1).as_bytes()));
    }
}
