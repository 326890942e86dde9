use tauri_file_server::layout::{
    activity_log_path, environment_folders, folder_dir, get_local_server_url, local_server_url,
    master_report_path, report_source_dir, server_url_for, SERVER_PORT,
};

#[test]
fn folders_live_under_the_base_directory() {
    assert_eq!(folder_dir("KhoPhanMem"), "C:\\ThuMucTong\\KhoPhanMem");
    assert_eq!(
        environment_folders(),
        vec![
            "C:\\ThuMucTong\\BaoCaoThietBi",
            "C:\\ThuMucTong\\KhoPhanMem",
            "C:\\ThuMucTong\\TaiLieuKhac"
        ]
    );
    assert_eq!(report_source_dir(), "C:\\ThuMucTong\\BaoCaoThietBi");
}

#[test]
fn log_and_report_files() {
    assert_eq!(activity_log_path(), "C:\\ThuMucTong\\LichSuHoatDong.txt");
    assert_eq!(master_report_path(), "C:\\ThuMucTong\\BaoCaoTongHop.html");
}

#[test]
fn server_urls() {
    assert_eq!(SERVER_PORT, 8080);
    assert_eq!(server_url_for("192.168.1.10"), "http://192.168.1.10:8080/");
    assert_eq!(local_server_url(None), "http://127.0.0.1:8080/");
    assert_eq!(local_server_url(Some("10.0.0.2".to_string())), "http://10.0.0.2:8080/");
    let u = get_local_server_url();
    assert!(u.starts_with("http://"));
    assert!(u.ends_with(":8080/"));
}
