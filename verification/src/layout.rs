use vstd::prelude::*;

use crate::text::{chars_of, push_str, string_of};
use crate::transfers::valid_folders;

verus! {

// ---------------------------------------------------------------------------
// Where the server keeps its files, and where it can be reached.
// ---------------------------------------------------------------------------

/// The TCP port the server listens on.
pub const SERVER_PORT: u16 = 8080;

/// The directory that holds everything the server stores.
pub open spec fn base_dir() -> Seq<char> {
    "C:\\ThuMucTong"@
}

/// The directory of one of the server's folders.
pub open spec fn folder_path(folder: Seq<char>) -> Seq<char> {
    base_dir() + "\\"@ + folder
}

/// The directory of a folder.
pub fn folder_dir(folder: &str) -> (p: String)
    ensures
        p@ == folder_path(folder@),
{
    let mut v = chars_of("C:\\ThuMucTong");
    push_str(&mut v, "\\");
    push_str(&mut v, folder);
    string_of(v.as_slice())
}

/// The directories that must exist before the server starts: one per folder,
/// in the order of the folders.
pub fn environment_folders() -> (dirs: Vec<String>)
    ensures
        dirs@.map_values(|s: String| s@) == valid_folders().map_values(
            |f: Seq<char>| folder_path(f),
        ),
{
    let mut dirs: Vec<String> = Vec::new();
    dirs.push(folder_dir("BaoCaoThietBi"));
    dirs.push(folder_dir("KhoPhanMem"));
    dirs.push(folder_dir("TaiLieuKhac"));
    assert(dirs@.map_values(|s: String| s@) =~= valid_folders().map_values(
        |f: Seq<char>| folder_path(f),
    ));
    dirs
}

/// The file of the activity log.
pub fn activity_log_path() -> (p: String)
    ensures
        p@ == base_dir() + "\\LichSuHoatDong.txt"@,
{
    let mut v = chars_of("C:\\ThuMucTong");
    push_str(&mut v, "\\LichSuHoatDong.txt");
    string_of(v.as_slice())
}

/// The file of the master device report.
pub fn master_report_path() -> (p: String)
    ensures
        p@ == base_dir() + "\\BaoCaoTongHop.html"@,
{
    let mut v = chars_of("C:\\ThuMucTong");
    push_str(&mut v, "\\BaoCaoTongHop.html");
    string_of(v.as_slice())
}

/// The directory whose report files make up the master report.
pub fn report_source_dir() -> (p: String)
    ensures
        p@ == folder_path("BaoCaoThietBi"@),
{
    folder_dir("BaoCaoThietBi")
}

/// The address of the server's web page on the given host.
pub open spec fn server_url(host: Seq<char>) -> Seq<char> {
    "http://"@ + host + ":8080/"@
}

/// The address of the server's web page on the given host.
pub fn server_url_for(host: &str) -> (url: String)
    ensures
        url@ == server_url(host@),
{
    let mut v = chars_of("http://");
    push_str(&mut v, host);
    push_str(&mut v, ":8080/");
    string_of(v.as_slice())
}

/// The address of the server's web page given this machine's LAN address, if
/// it is known; the loopback address otherwise.
pub fn local_server_url(ip: Option<String>) -> (url: String)
    ensures
        url@ == server_url(
            match ip {
                Some(a) => a@,
                None => "127.0.0.1"@,
            },
        ),
{
    match ip {
        Some(a) => server_url_for(a.as_str()),
        None => server_url_for("127.0.0.1"),
    }
}

/// This machine's LAN address, from `local_ip_address::local_ip`, written out
/// (`IpAddr`'s `Display`); `None` when the crate reports an error. Nothing is
/// stated of the address: it depends on the machine's network.
#[verifier::external_body]
fn local_ip_text() -> (ip: Option<String>) {
    match local_ip_address::local_ip() {
        Ok(a) => Some(a.to_string()),
        Err(_) => None,
    }
}

/// The address of the server's web page on this machine, as other machines
/// of the LAN reach it (the loopback address when the LAN address is unknown).
pub fn get_local_server_url() -> (url: String)
    ensures
        exists|host: Seq<char>| url@ == server_url(host),
{
    local_server_url(local_ip_text())
}

} // verus!
