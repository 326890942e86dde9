use tauri_file_server::activity_log::{
    activity_log_line, format_log_line, log_file_label, parse_history, parse_log_line,
    transfer_log_line, Transfer, HISTORY_LIMIT,
};

fn line(i: usize) -> String {
    format!("2024-01-01 00:00:{:02} | UPLOAD | IP: 10.0.0.{} | Máy: Máy (10.0.0.{}) | File: f{}\n", i % 60, i, i, i)
}

#[test]
fn log_line_has_the_documented_shape() {
    let l = format_log_line("2024-05-06 07:08:09", "UPLOAD", "192.168.1.5", "[KhoPhanMem]\\setup.exe");
    assert_eq!(
        l,
        "2024-05-06 07:08:09 | UPLOAD | IP: 192.168.1.5 | Máy: Máy (192.168.1.5) | File: [KhoPhanMem]\\setup.exe\n"
    );
}

#[test]
fn file_label_names_folder_and_file() {
    assert_eq!(log_file_label("TaiLieuKhac", "a.pdf"), "[TaiLieuKhac]\\a.pdf");
}

#[test]
fn parse_log_line_strips_labels() {
    let e = parse_log_line("t | DOWNLOAD | IP: 1.2.3.4 | Máy: Máy (1.2.3.4) | File: [X]\\y").unwrap();
    assert_eq!(e.time, "t");
    assert_eq!(e.kind, "DOWNLOAD");
    assert_eq!(e.ip, "1.2.3.4");
    assert_eq!(e.host, "Máy (1.2.3.4)");
    assert_eq!(e.file, "[X]\\y");
}

#[test]
fn parse_log_line_needs_five_fields() {
    assert!(parse_log_line("a | b | c | d").is_none());
    assert!(parse_log_line("").is_none());
    assert!(parse_log_line("a | b | c | d | e | f").is_some());
}

#[test]
fn parse_log_line_removes_every_label_occurrence() {
    let e = parse_log_line("t | k | IP: IP: x | h | File: a File: b").unwrap();
    assert_eq!(e.ip, "x");
    assert_eq!(e.file, "a b");
}

#[test]
fn written_line_reads_back() {
    let l = format_log_line("2024-05-06 07:08:09", "UPLOAD", "10.1.1.1", "[BaoCaoThietBi]\\r.txt");
    let rows = parse_history(&l);
    assert_eq!(rows.len(), 1);
    assert_eq!(rows[0].time, "2024-05-06 07:08:09");
    assert_eq!(rows[0].kind, "UPLOAD");
    assert_eq!(rows[0].ip, "10.1.1.1");
    assert_eq!(rows[0].host, "Máy (10.1.1.1)");
    assert_eq!(rows[0].file, "[BaoCaoThietBi]\\r.txt");
}

#[test]
fn history_is_newest_first() {
    let mut content = String::new();
    for i in 0..3 {
        content.push_str(&line(i));
    }
    let rows = parse_history(&content);
    assert_eq!(rows.len(), 3);
    assert_eq!(rows[0].file, "f2");
    assert_eq!(rows[2].file, "f0");
}

#[test]
fn history_reads_only_the_newest_fifty_lines() {
    let mut content = String::new();
    for i in 0..60 {
        content.push_str(&line(i));
    }
    let rows = parse_history(&content);
    assert_eq!(HISTORY_LIMIT, 50);
    assert_eq!(rows.len(), 50);
    assert_eq!(rows[0].file, "f59");
    assert_eq!(rows[49].file, "f10");
}

#[test]
fn history_skips_short_lines_but_counts_them() {
    let mut content = String::new();
    for i in 0..49 {
        content.push_str(&line(i));
    }
    content.push_str("garbage\n");
    content.push_str(&line(99));
    let rows = parse_history(&content);
    assert_eq!(rows.len(), 49);
    assert_eq!(rows[0].file, "f99");
    assert_eq!(rows[48].file, "f1");
}

#[test]
fn history_handles_crlf_and_missing_final_newline() {
    let content = "a | b | IP: c | Máy: d | File: e\r\nf | g | IP: h | Máy: i | File: j";
    let rows = parse_history(content);
    assert_eq!(rows.len(), 2);
    assert_eq!(rows[0].file, "j");
    assert_eq!(rows[1].file, "e");
}

#[test]
fn empty_log_has_empty_history() {
    assert!(parse_history("").is_empty());
}

#[test]
fn clock_line_reads_back() {
    let l = activity_log_line("UPLOAD", "10.0.0.7", "[KhoPhanMem]\\x.zip");
    assert!(l.ends_with(" | UPLOAD | IP: 10.0.0.7 | Máy: Máy (10.0.0.7) | File: [KhoPhanMem]\\x.zip\n"));
    let rows = parse_history(&l);
    assert_eq!(rows.len(), 1);
    assert_eq!(rows[0].ip, "10.0.0.7");
    assert_eq!(rows[0].time.len(), 19);
    assert!(!rows[0].time.contains('|'));
}

#[test]
fn transfer_line_uses_kind_word_and_label() {
    let l = transfer_log_line(Transfer::Download, "1.1.1.1", "TaiLieuKhac", "a.pdf");
    assert!(l.ends_with(" | DOWNLOAD | IP: 1.1.1.1 | Máy: Máy (1.1.1.1) | File: [TaiLieuKhac]\\a.pdf\n"));
    assert_eq!(Transfer::Upload.word(), "UPLOAD");
}

#[test]
fn appended_line_opens_history() {
    let mut content = String::new();
    for i in 0..55 {
        content.push_str(&line(i));
    }
    content.push_str(&format_log_line("T", "DOWNLOAD", "9.9.9.9", "[A]\\b"));
    let rows = parse_history(&content);
    assert_eq!(rows.len(), 50);
    assert_eq!(rows[0].time, "T");
    assert_eq!(rows[0].host, "Máy (9.9.9.9)");
    assert_eq!(rows[1].file, "f54");
    assert_eq!(rows[49].file, "f6");
}
