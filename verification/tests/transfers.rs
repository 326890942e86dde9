use tauri_file_server::activity_log::parse_history;
use tauri_file_server::transfers::{
    attachment_disposition, check_download, check_upload, decode_header_value, is_report_file_name,
    is_valid_folder_name, plan_upload, refreshes_report, resolve_upload_folder, resolve_upload_name,
    upload_effects, upload_extension_allowed, upload_file_name, upload_folder, valid_folder_names,
    DownloadRejection, UploadRejection,
};

#[test]
fn folders_are_the_three_known_ones() {
    assert_eq!(valid_folder_names(), vec!["BaoCaoThietBi", "KhoPhanMem", "TaiLieuKhac"]);
    assert!(is_valid_folder_name("KhoPhanMem"));
    assert!(!is_valid_folder_name("khophanmem"));
    assert!(!is_valid_folder_name(""));
    assert!(!is_valid_folder_name("..\\Windows"));
}

#[test]
fn allowed_extensions_ignore_case() {
    for name in ["a.pdf", "b.HTML", "c.htm", "d.Txt", "e.xls", "f.xlsx", "g.xlsm", "h.csv", "i.zip",
        "j.rar", "k.7z", "l.exe", "m.msi", "n.doc", "o.docx", "p.png", "q.JPG", "r.jpeg"]
    {
        assert!(upload_extension_allowed(name), "{}", name);
    }
}

#[test]
fn other_extensions_are_refused() {
    for name in ["a.dat", "a.tar.gz", "noext", ".pdf", "a.pdf.", "", "a.p df", "report.pdf.bak"] {
        assert!(!upload_extension_allowed(name), "{}", name);
    }
}

#[test]
fn extension_comes_from_the_last_component() {
    assert!(upload_extension_allowed("dir/sub/x.docx"));
    assert!(upload_extension_allowed("dir\\x.docx"));
    assert!(!upload_extension_allowed("x.docx/y"));
    assert!(upload_extension_allowed("x.docx/"));
    assert!(upload_extension_allowed("x.docx/."));
    assert!(!upload_extension_allowed("x.docx/.."));
    assert!(upload_extension_allowed("..a.pdf"));
    assert!(!upload_extension_allowed("a.pdf\\.hidden"));
}

#[test]
fn report_files_are_text_sheets_and_pages() {
    for name in ["a.txt", "a.XLS", "a.xlsx", "a.csv", "a.html", "a.htm"] {
        assert!(is_report_file_name(name), "{}", name);
    }
    for name in ["a.pdf", "a.xlsm", "a", ".txt"] {
        assert!(!is_report_file_name(name), "{}", name);
    }
}

#[test]
fn header_values_are_percent_decoded() {
    assert_eq!(decode_header_value("b%C3%A1o%20c%C3%A1o.pdf"), "báo cáo.pdf");
    assert_eq!(decode_header_value("plain+name.pdf"), "plain+name.pdf");
    assert_eq!(decode_header_value("100%"), "100%");
    assert_eq!(decode_header_value("%ZZ"), "%ZZ");
}

#[test]
fn undecodable_header_gives_empty_text() {
    assert_eq!(decode_header_value("%FF%FE"), "");
}

#[test]
fn upload_name_prefers_the_header() {
    assert_eq!(resolve_upload_name(Some("x.pdf".to_string()), "20240101_000000"), "x.pdf");
    assert_eq!(resolve_upload_name(None, "20240101_000000"), "File_20240101_000000.dat");
    assert_eq!(upload_file_name(Some("a%20b.zip")), "a b.zip");
}

#[test]
fn nameless_upload_gets_a_stamped_name() {
    let n = upload_file_name(None);
    assert!(n.starts_with("File_"));
    assert!(n.ends_with(".dat"));
    assert_eq!(n.len(), "File_20240101_000000.dat".len());
}

#[test]
fn upload_folder_falls_back_to_reports() {
    assert_eq!(resolve_upload_folder(Some("TaiLieuKhac".to_string())), "TaiLieuKhac");
    assert_eq!(resolve_upload_folder(Some("Other".to_string())), "BaoCaoThietBi");
    assert_eq!(resolve_upload_folder(None), "BaoCaoThietBi");
    assert_eq!(upload_folder(Some("Kho%50hanMem")), "KhoPhanMem");
    assert_eq!(upload_folder(Some("%FF")), "BaoCaoThietBi");
    assert_eq!(upload_folder(None), "BaoCaoThietBi");
}

#[test]
fn check_upload_accepts_allowed_types_only() {
    let t = check_upload("a.pdf".to_string(), "KhoPhanMem".to_string()).ok().unwrap();
    assert_eq!(t.folder, "KhoPhanMem");
    assert_eq!(t.file_name, "a.pdf");
    let e = check_upload("a.mp4".to_string(), "KhoPhanMem".to_string()).err().unwrap();
    assert_eq!(e, UploadRejection::UnsupportedExtension);
    assert_eq!(e.message(), "File nay ko duoc ho tro");
}

#[test]
fn plan_upload_resolves_headers() {
    let t = plan_upload(Some("r%C3%A9sum%C3%A9.docx"), Some("Nope")).ok().unwrap();
    assert_eq!(t.file_name, "résumé.docx");
    assert_eq!(t.folder, "BaoCaoThietBi");
    assert!(plan_upload(Some("a.mp3"), None).is_err());
}

#[test]
fn nameless_upload_is_refused() {
    assert_eq!(plan_upload(None, Some("KhoPhanMem")).err(), Some(UploadRejection::UnsupportedExtension));
}

#[test]
fn only_report_folder_refreshes_report() {
    assert!(refreshes_report("BaoCaoThietBi"));
    assert!(!refreshes_report("KhoPhanMem"));
}

#[test]
fn download_needs_both_parameters_and_a_known_folder() {
    let t = check_download(Some("KhoPhanMem".to_string()), Some("x.exe".to_string())).ok().unwrap();
    assert_eq!(t.folder, "KhoPhanMem");
    assert_eq!(t.file, "x.exe");
    assert_eq!(check_download(None, Some("x".to_string())).err(), Some(DownloadRejection::BadRequest));
    assert_eq!(check_download(Some("KhoPhanMem".to_string()), None).err(), Some(DownloadRejection::BadRequest));
    assert_eq!(
        check_download(Some("C:".to_string()), Some("x".to_string())).err(),
        Some(DownloadRejection::BadRequest)
    );
}

#[test]
fn attachment_header_quotes_the_name() {
    assert_eq!(attachment_disposition("a b.pdf"), "attachment; filename=\"a b.pdf\"");
}

#[test]
fn drive_prefix_is_not_part_of_the_name() {
    assert!(!upload_extension_allowed("C:.pdf"));
    assert!(!upload_extension_allowed("C:"));
    assert!(!upload_extension_allowed("c:/.pdf"));
    assert!(upload_extension_allowed("C:x.pdf"));
    assert!(upload_extension_allowed("C:\\dir\\x.pdf"));
    assert!(upload_extension_allowed("1:.pdf"));
}

#[test]
fn share_and_device_prefixes_are_not_part_of_the_name() {
    assert!(!upload_extension_allowed("\\\\srv\\share.pdf"));
    assert!(!upload_extension_allowed("//srv/share.pdf"));
    assert!(upload_extension_allowed("\\\\srv\\share\\x.pdf"));
    assert!(upload_extension_allowed("\\\\a.pdf"));
    assert!(!upload_extension_allowed("\\\\.\\COM1.pdf"));
    assert!(upload_extension_allowed("\\\\.\\COM1\\x.pdf"));
}

#[test]
fn verbatim_paths_split_on_backslash_only() {
    assert!(upload_extension_allowed("\\\\?\\C:\\x.pdf"));
    assert!(upload_extension_allowed("\\\\?\\C:/x.pdf"));
    assert!(!upload_extension_allowed("\\\\?\\C:/.pdf"));
    assert!(upload_extension_allowed("\\\\?\\x\\y/.pdf"));
    assert!(!upload_extension_allowed("\\\\?\\a.pdf"));
    assert!(!upload_extension_allowed("\\\\?\\UNC\\srv\\share.pdf"));
    assert!(upload_extension_allowed("\\\\?\\UNC\\srv\\share\\x.pdf"));
    assert!(!upload_extension_allowed("\\\\?\\x\\a.pdf\\."));
    assert!(upload_extension_allowed("a.pdf\\."));
}

#[test]
fn header_without_percent_is_used_as_sent() {
    assert!(plan_upload(Some("setup.dat"), None).is_err());
    assert!(plan_upload(Some("C:.pdf"), None).is_err());
    let t = plan_upload(Some("C:x.pdf"), Some("TaiLieuKhac")).ok().unwrap();
    assert_eq!(t.file_name, "C:x.pdf");
    assert_eq!(t.folder, "TaiLieuKhac");
    assert_eq!(decode_header_value("a+b c.pdf"), "a+b c.pdf");
}

#[test]
fn accepted_upload_logs_one_line_and_refreshes_only_reports() {
    let t = plan_upload(Some("a.xlsx"), None).ok().unwrap();
    let e = upload_effects(&t, "10.0.0.5");
    assert!(e.refreshes_report);
    assert!(e.log_line.ends_with(
        " | UPLOAD | IP: 10.0.0.5 | Máy: Máy (10.0.0.5) | File: [BaoCaoThietBi]\\a.xlsx\n"
    ));
    assert_eq!(e.log_line.matches('\n').count(), 1);
    let rows = parse_history(&e.log_line);
    assert_eq!(rows.len(), 1);
    assert_eq!(rows[0].kind, "UPLOAD");
    assert_eq!(rows[0].ip, "10.0.0.5");
    assert_eq!(rows[0].file, "[BaoCaoThietBi]\\a.xlsx");

    let t2 = plan_upload(Some("b.zip"), Some("KhoPhanMem")).ok().unwrap();
    let e2 = upload_effects(&t2, "1.2.3.4");
    assert!(!e2.refreshes_report);
    assert!(e2.log_line.ends_with("File: [KhoPhanMem]\\b.zip\n"));
}
