use tauri_file_server::report::{
    lookup_field, parse_device_report, render_device_block, render_master_report,
    summarize_device, ReportFile,
};
use tauri_file_server::selection::select_report_files;

const SAMPLE: &str = "  Computer Name: PC-01  \r\n\
- CPU: Intel i5\n\
CPU: later value\n\
RAM: 8 GB\n\
Disk Health : Good\n\
MS Office Status (OSPP): Not Installed\n\
: no key\n\
Empty:   \n\
[Software]\n\
- Google Chrome: 120.0\n\
1. 7-Zip\n\
2) Notepad++\n\
- Tên linh kiện: CPU\n\
Windows Status: Licensed\n\
- \n";

#[test]
fn fields_first_value_wins() {
    let r = parse_device_report(SAMPLE);
    assert_eq!(lookup_field(&r, "Computer Name").as_deref(), Some("PC-01"));
    assert_eq!(lookup_field(&r, "CPU").as_deref(), Some("Intel i5"));
    assert_eq!(lookup_field(&r, "Disk Health").as_deref(), Some("Good"));
    assert_eq!(lookup_field(&r, "Windows Status").as_deref(), Some("Licensed"));
    assert_eq!(lookup_field(&r, "Empty"), None);
    assert_eq!(lookup_field(&r, ""), None);
    assert_eq!(r.fields[0], ("Computer Name".to_string(), "PC-01".to_string()));
    assert_eq!(r.fields[1], ("CPU".to_string(), "Intel i5".to_string()));
}

#[test]
fn software_section_lists_programs() {
    let r = parse_device_report(SAMPLE);
    assert_eq!(r.software, vec!["Google Chrome", "Zip", ") Notepad++"]);
}

#[test]
fn software_lines_before_the_section_are_fields() {
    let r = parse_device_report("- Model: X1\n1. Something\nỨng dụng đã cài\n- Word\n");
    assert_eq!(lookup_field(&r, "Model").as_deref(), Some("X1"));
    assert_eq!(r.software, vec!["Word"]);
}

#[test]
fn key_loses_every_leading_dash_bullet() {
    let r = parse_device_report("- - RAM: 16 GB\n");
    assert_eq!(lookup_field(&r, "RAM").as_deref(), Some("16 GB"));
}

#[test]
fn summary_uses_fields_and_defaults() {
    let s = summarize_device("BaoCaoKiemKe_PC-01.xls", SAMPLE);
    assert_eq!(s.computer, "PC-01");
    assert_eq!(s.model, "Thiết bị văn phòng");
    assert_eq!(s.cpu, "Intel i5");
    assert_eq!(s.ram, "8 GB");
    assert_eq!(s.disk, "Good");
    assert_eq!(s.windows, "Licensed");
    assert_eq!(s.office, "Not Installed");
    assert!(s.office_missing);
    assert_eq!(s.kms, "Clean");
    assert_eq!(s.user, "[Chưa có dữ liệu]");
    assert_eq!(s.department, "[Chưa có dữ liệu]");
    assert_eq!(s.software, "Google Chrome, Zip, ) Notepad++");
}

#[test]
fn summary_of_empty_report_names_device_after_file() {
    let s = summarize_device("BaoCaoKiemKe_LAPTOP.xlsx", "");
    assert_eq!(s.computer, "LAPTOPx");
    assert_eq!(s.ram, "Chưa rõ RAM");
    assert_eq!(s.cpu, "Chưa rõ CPU");
    assert_eq!(s.windows, "Bản quyền hợp lệ");
    assert_eq!(s.office, "Chưa rõ");
    assert!(!s.office_missing);
    assert_eq!(s.software, "Đầy đủ trình duyệt và công cụ làm việc");
}

#[test]
fn summary_takes_alternative_keys() {
    let s = summarize_device("x.txt", "Tên máy tính: May 3\nLaptop / Model: Dell\nỔ cứng: SSD\nMS Office: 2019\n");
    assert_eq!(s.computer, "May 3");
    assert_eq!(s.model, "Dell");
    assert_eq!(s.disk, "SSD");
    assert_eq!(s.office, "2019");
}

#[test]
fn block_numbers_devices_with_two_digits() {
    let s = summarize_device("a.txt", "Computer Name: A\n");
    let b = render_device_block(7, &s);
    assert!(b.contains("THIẾT BỊ 07: A (Thiết bị văn phòng)"));
    assert!(b.contains("<span class=\"badge-ok\">Bản quyền chính hãng</span>"));
    let b = render_device_block(123, &s);
    assert!(b.contains("THIẾT BỊ 123: A"));
}

#[test]
fn master_report_numbers_files_in_order() {
    let files = vec![
        ReportFile { name: "a.txt".to_string(), content: "Computer Name: Alpha\n".to_string() },
        ReportFile { name: "b.txt".to_string(), content: "Computer Name: Beta\n".to_string() },
    ];
    let page = render_master_report(&files);
    assert!(page.starts_with("<!DOCTYPE html>"));
    assert!(page.ends_with("</html>"));
    let a = page.find("THIẾT BỊ 01: Alpha").unwrap();
    let b = page.find("THIẾT BỊ 02: Beta").unwrap();
    assert!(a < b);
    assert!(page.contains("body { font-family: Arial"));
}

#[test]
fn master_report_without_files_has_empty_table() {
    let page = render_master_report(&Vec::new());
    assert!(page.contains("<tbody></tbody>"));
}

#[test]
fn selection_sorts_and_keeps_report_files() {
    let names = vec!["b.txt", "setup.exe", "A.csv", "a.html", "notes", "a.HTM", "ä.txt"]
        .into_iter()
        .map(|s| s.to_string())
        .collect();
    assert_eq!(select_report_files(names), vec!["A.csv", "a.HTM", "a.html", "b.txt", "ä.txt"]);
}

#[test]
fn selection_keeps_duplicates() {
    let names = vec!["x.txt".to_string(), "x.txt".to_string(), "w.txt".to_string()];
    assert_eq!(select_report_files(names), vec!["w.txt", "x.txt", "x.txt"]);
}

#[test]
fn each_block_comes_from_its_own_file() {
    let files = vec![
        ReportFile {
            name: "BaoCaoKiemKe_A.xls".to_string(),
            content: "Computer Name: PC-A\nModel: M1\nMS Office: Not Found\n".to_string(),
        },
        ReportFile { name: "BaoCaoKiemKe_B.xls".to_string(), content: "CPU: i7\n".to_string() },
    ];
    let page = render_master_report(&files);
    assert_eq!(page.matches("machine-header-bar-row").count(), 2);
    let a = page.find("THIẾT BỊ 01: PC-A (M1)</td></tr>").unwrap();
    let b = page.find("THIẾT BỊ 02: B (Thiết bị văn phòng)</td></tr>").unwrap();
    assert!(a < b);
    let office_a = "<tr><td>MS Office</td><td>Not Found</td><td><span class=\"badge-warn\">Thiếu ứng dụng văn phòng</span></td></tr>";
    let office_b = "<tr><td>MS Office</td><td>Chưa rõ</td><td><span class=\"badge-ok\">Bản quyền chính hãng</span></td></tr>";
    let oa = page.find(office_a).unwrap();
    let ob = page.find(office_b).unwrap();
    assert!(a < oa && oa < b && b < ob);
    assert_eq!(page.matches(office_a).count(), 1);
}
