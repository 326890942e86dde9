use vstd::prelude::*;

use crate::activity_log::{file_label, is_stamp_text, log_line, transfer_log_line, Transfer};
use crate::text::{
    ascii_lower_all, ascii_lower_exec, chars_of, equals_str, has_char, push_all, slice, string_of,
};

verus! {

// ---------------------------------------------------------------------------
// Folders and file types.
// ---------------------------------------------------------------------------

/// The folders that the server stores files in, in the order it lists them.
pub open spec fn valid_folders() -> Seq<Seq<char>> {
    seq!["BaoCaoThietBi"@, "KhoPhanMem"@, "TaiLieuKhac"@]
}

/// The file types (extensions, lower case) that may be uploaded.
pub open spec fn upload_extensions() -> Seq<Seq<char>> {
    seq![
        "pdf"@,
        "html"@,
        "htm"@,
        "txt"@,
        "xls"@,
        "xlsx"@,
        "xlsm"@,
        "csv"@,
        "zip"@,
        "rar"@,
        "7z"@,
        "exe"@,
        "msi"@,
        "doc"@,
        "docx"@,
        "png"@,
        "jpg"@,
        "jpeg"@,
    ]
}

/// The file types (extensions, lower case) that are read as device reports.
pub open spec fn report_extensions() -> Seq<Seq<char>> {
    seq!["txt"@, "xls"@, "xlsx"@, "csv"@, "html"@, "htm"@]
}

/// `folder` is one of the server's folders.
pub open spec fn is_valid_folder(folder: Seq<char>) -> bool {
    valid_folders().contains(folder)
}

/// The names of the server's folders, in the order it lists them.
pub fn valid_folder_names() -> (names: Vec<String>)
    ensures
        names@.map_values(|s: String| s@) == valid_folders(),
{
    let mut names: Vec<String> = Vec::new();
    names.push(String::from_str("BaoCaoThietBi"));
    names.push(String::from_str("KhoPhanMem"));
    names.push(String::from_str("TaiLieuKhac"));
    assert(names@.map_values(|s: String| s@) =~= valid_folders());
    names
}

fn in_list(s: &Vec<char>, list: &Vec<&str>) -> (r: bool)
    ensures
        r == list@.map_values(|l: &str| l@).contains(s@),
{
    let ghost views = list@.map_values(|l: &str| l@);
    let n = list.len();
    for i in 0..n
        invariant
            n == list@.len(),
            views == list@.map_values(|l: &str| l@),
            forall|j: int| 0 <= j < i ==> views[j] != s@,
    {
        if equals_str(s, list[i]) {
            assert(views[i as int] == s@);
            return true;
        }
    }
    false
}

/// Whether `folder` is one of the server's folders.
pub fn is_valid_folder_name(folder: &str) -> (b: bool)
    ensures
        b == is_valid_folder(folder@),
{
    let f = chars_of(folder);
    let list: Vec<&str> = vec!["BaoCaoThietBi", "KhoPhanMem", "TaiLieuKhac"];
    assert(list@.map_values(|l: &str| l@) =~= valid_folders());
    in_list(&f, &list)
}

// ---------------------------------------------------------------------------
// File names and extensions, as `std::path::Path` reads them on the Windows
// machine the server is made for. A path may open with a prefix: a drive
// (`C:`), a share (`\\server\share`), a device (`\\.\COM1`) or a verbatim
// prefix (`\\?\...`, `\\?\C:`, `\\?\UNC\server\share`); in a prefix `/`
// reads as `\`, except that a verbatim prefix must open with `\\?\` itself.
// A separator right after the prefix is the root (`/` too, in any path). After
// it, `/` and `\` both separate components, except in verbatim paths, where
// only `\` does and a `.` component is kept.
// ---------------------------------------------------------------------------

/// A path separator of Windows: `/` or `\`.
pub open spec fn is_any_sep(c: char) -> bool {
    c == '/' || c == '\\'
}

/// A separator of path components (`\` only in verbatim paths).
pub open spec fn is_sep_in(c: char, verbatim: bool) -> bool {
    if verbatim {
        c == '\\'
    } else {
        is_any_sep(c)
    }
}

/// A drive letter.
pub open spec fn is_ascii_letter(c: char) -> bool {
    ('a' <= c && c <= 'z') || ('A' <= c && c <= 'Z')
}

/// The first index at or after `k` that holds a separator, or the length.
pub open spec fn next_sep(p: Seq<char>, k: int, verbatim: bool) -> int
    decreases p.len() - k,
{
    if k < 0 || k >= p.len() {
        p.len() as int
    } else if is_sep_in(p[k], verbatim) {
        k
    } else {
        next_sep(p, k + 1, verbatim)
    }
}

pub proof fn lemma_next_sep(p: Seq<char>, k: int, verbatim: bool)
    requires
        0 <= k <= p.len(),
    ensures
        k <= next_sep(p, k, verbatim) <= p.len(),
        next_sep(p, k, verbatim) < p.len() ==> is_sep_in(p[next_sep(p, k, verbatim)], verbatim),
        forall|i: int| k <= i < next_sep(p, k, verbatim) ==> !is_sep_in(p[i], verbatim),
    decreases p.len() - k,
{
    if k < p.len() && !is_sep_in(p[k], verbatim) {
        lemma_next_sep(p, k + 1, verbatim);
    }
}

/// The length of the Windows prefix that opens `p` (0 when there is none), and
/// whether the path is verbatim.
pub open spec fn path_prefix(p: Seq<char>) -> (int, bool) {
    let n = p.len() as int;
    if n >= 2 && is_any_sep(p[0]) && is_any_sep(p[1]) {
        if n >= 4 && p[0] == '\\' && p[1] == '\\' && p[2] == '?' && p[3] == '\\' {
            if n >= 8 && p[4] == 'U' && p[5] == 'N' && p[6] == 'C' && is_any_sep(p[7]) {
                let server_end = next_sep(p, 8, true);
                if server_end < n && next_sep(p, server_end + 1, true) > server_end + 1 {
                    (next_sep(p, server_end + 1, true), true)
                } else {
                    (server_end, true)
                }
            } else if n >= 6 && is_ascii_letter(p[4]) && p[5] == ':' && (n == 6 || is_any_sep(p[6])) {
                (6, true)
            } else {
                (next_sep(p, 4, true), true)
            }
        } else if n >= 4 && p[2] == '.' && is_any_sep(p[3]) {
            (next_sep(p, 4, false), false)
        } else {
            let server_end = next_sep(p, 2, false);
            if server_end > 2 && server_end < n && next_sep(p, server_end + 1, false) > server_end
                + 1 {
                (next_sep(p, server_end + 1, false), false)
            } else {
                (0, false)
            }
        }
    } else if n >= 2 && is_ascii_letter(p[0]) && p[1] == ':' {
        (2, false)
    } else {
        (0, false)
    }
}

pub proof fn lemma_path_prefix_bounds(p: Seq<char>)
    ensures
        0 <= path_prefix(p).0 <= p.len(),
{
    let n = p.len() as int;
    if n >= 4 {
        lemma_next_sep(p, 4, true);
        lemma_next_sep(p, 4, false);
    }
    if n >= 8 {
        lemma_next_sep(p, 8, true);
        let e = next_sep(p, 8, true);
        if e < n {
            lemma_next_sep(p, e + 1, true);
        }
    }
    if n >= 2 {
        lemma_next_sep(p, 2, false);
        let e = next_sep(p, 2, false);
        if e < n {
            lemma_next_sep(p, e + 1, false);
        }
    }
}

/// Where the component that ends at `end` starts (not before `lo`).
pub open spec fn segment_start(p: Seq<char>, lo: int, end: int, verbatim: bool) -> int
    decreases end - lo,
{
    if end <= lo || end > p.len() {
        lo
    } else if is_sep_in(p[end - 1], verbatim) {
        end
    } else {
        segment_start(p, lo, end - 1, verbatim)
    }
}

pub proof fn lemma_segment_start(p: Seq<char>, lo: int, end: int, verbatim: bool)
    requires
        0 <= lo <= end <= p.len(),
    ensures
        lo <= segment_start(p, lo, end, verbatim) <= end,
        end > lo && !is_sep_in(p[end - 1], verbatim) ==> segment_start(p, lo, end, verbatim) < end,
    decreases end - lo,
{
    if end > lo && !is_sep_in(p[end - 1], verbatim) {
        lemma_segment_start(p, lo, end - 1, verbatim);
    }
}

/// The file name of the components of `p` from `lo` up to `end`
/// (`Path::file_name`): the last component, where empty components do not
/// count, nor `.` outside verbatim paths; a last component `..` or `.`, or
/// none, gives no file name.
pub open spec fn file_name_upto(p: Seq<char>, lo: int, end: int, verbatim: bool) -> Option<
    Seq<char>,
>
    decreases end,
{
    if end <= lo || end > p.len() || lo < 0 {
        None
    } else if is_sep_in(p[end - 1], verbatim) {
        file_name_upto(p, lo, end - 1, verbatim)
    } else {
        let st = segment_start(p, lo, end, verbatim);
        let seg = p.subrange(st, end);
        proof {
            lemma_segment_start(p, lo, end, verbatim);
        }
        if seg == "."@ {
            if verbatim {
                None
            } else {
                file_name_upto(p, lo, st, verbatim)
            }
        } else if seg == ".."@ {
            None
        } else {
            Some(seg)
        }
    }
}

/// Where the components of `p` start: after the prefix and after the root
/// separator that may follow it (`/` or `\`, verbatim or not).
pub open spec fn body_start(p: Seq<char>) -> int {
    let pre = path_prefix(p).0;
    if 0 <= pre < p.len() && is_any_sep(p[pre]) {
        pre + 1
    } else {
        pre
    }
}

/// `Path::file_name`: the last component after the prefix and the root.
pub open spec fn path_file_name(p: Seq<char>) -> Option<Seq<char>> {
    file_name_upto(p, body_start(p), p.len() as int, path_prefix(p).1)
}

/// Index of the last `.` before index `i`, or -1.
pub open spec fn last_dot_before(s: Seq<char>, i: int) -> int
    decreases i,
{
    if i <= 0 || i > s.len() {
        -1
    } else if s[i - 1] == '.' {
        i - 1
    } else {
        last_dot_before(s, i - 1)
    }
}

/// The extension of a file name (`Path::extension`): what follows its last
/// `.`, unless there is none or the only one opens the name.
pub open spec fn name_extension(name: Seq<char>) -> Option<Seq<char>> {
    let d = last_dot_before(name, name.len() as int);
    if d <= 0 {
        None
    } else {
        Some(name.subrange(d + 1, name.len() as int))
    }
}

/// `Path::extension`.
pub open spec fn path_extension(p: Seq<char>) -> Option<Seq<char>> {
    match path_file_name(p) {
        Some(n) => name_extension(n),
        None => None,
    }
}

/// Whether `ext`, ignoring case, is in `list`. (The list holds ASCII lower-case
/// names. Unicode lower-casing gives the same answer: the only non-ASCII character
/// whose lower case is ASCII is the Kelvin sign, whose lower case `k` occurs in
/// no listed name.)
pub open spec fn ext_in(ext: Seq<char>, list: Seq<Seq<char>>) -> bool {
    list.contains(ascii_lower_all(ext))
}

/// An upload named `name` is accepted: its extension is one of the upload types.
pub open spec fn upload_allowed(name: Seq<char>) -> bool {
    match path_extension(name) {
        Some(e) => ext_in(e, upload_extensions()),
        None => false,
    }
}

/// A file named `name` is read as a device report.
pub open spec fn is_report_name(name: Seq<char>) -> bool {
    match path_extension(name) {
        Some(e) => ext_in(e, report_extensions()),
        None => false,
    }
}

fn next_sep_exec(p: &Vec<char>, k: usize, verbatim: bool) -> (e: usize)
    requires
        k <= p@.len(),
    ensures
        e as int == next_sep(p@, k as int, verbatim),
{
    let mut i = k;
    while i < p.len() && !(p[i] == '\\' || (!verbatim && p[i] == '/'))
        invariant
            k <= i <= p@.len(),
            next_sep(p@, i as int, verbatim) == next_sep(p@, k as int, verbatim),
        decreases p@.len() - i,
    {
        i = i + 1;
    }
    i
}

fn is_any_sep_char(c: char) -> (b: bool)
    ensures
        b == is_any_sep(c),
{
    c == '/' || c == '\\'
}

fn is_ascii_letter_char(c: char) -> (b: bool)
    ensures
        b == is_ascii_letter(c),
{
    ('a' <= c && c <= 'z') || ('A' <= c && c <= 'Z')
}

/// The Windows prefix of a path: its length, and whether the path is verbatim.
pub fn path_prefix_of(p: &Vec<char>) -> (r: (usize, bool))
    ensures
        (r.0 as int, r.1) == path_prefix(p@),
{
    let n = p.len();
    if n >= 2 && is_any_sep_char(p[0]) && is_any_sep_char(p[1]) {
        if n >= 4 && p[0] == '\\' && p[1] == '\\' && p[2] == '?' && p[3] == '\\' {
            if n >= 8 && p[4] == 'U' && p[5] == 'N' && p[6] == 'C' && is_any_sep_char(p[7]) {
                let server_end = next_sep_exec(p, 8, true);
                proof {
                    lemma_next_sep(p@, 8, true);
                }
                if server_end < n {
                    let share_end = next_sep_exec(p, server_end + 1, true);
                    if share_end > server_end + 1 {
                        return (share_end, true);
                    }
                }
                (server_end, true)
            } else if n >= 6 && is_ascii_letter_char(p[4]) && p[5] == ':' && (n == 6
                || is_any_sep_char(p[6])) {
                (6, true)
            } else {
                (next_sep_exec(p, 4, true), true)
            }
        } else if n >= 4 && p[2] == '.' && is_any_sep_char(p[3]) {
            (next_sep_exec(p, 4, false), false)
        } else {
            let server_end = next_sep_exec(p, 2, false);
            proof {
                lemma_next_sep(p@, 2, false);
            }
            if server_end > 2 && server_end < n {
                let share_end = next_sep_exec(p, server_end + 1, false);
                if share_end > server_end + 1 {
                    return (share_end, false);
                }
            }
            (0, false)
        }
    } else if n >= 2 && is_ascii_letter_char(p[0]) && p[1] == ':' {
        (2, false)
    } else {
        (0, false)
    }
}

/// `Path::file_name` of a path.
pub fn file_name_of(p: &Vec<char>) -> (r: Option<Vec<char>>)
    ensures
        match path_file_name(p@) {
            Some(n) => r matches Some(v) && v@ == n,
            None => r is None,
        },
{
    let (pre, verbatim) = path_prefix_of(p);
    proof {
        lemma_path_prefix_bounds(p@);
    }
    let lo = if pre < p.len() && is_any_sep_char(p[pre]) {
        pre + 1
    } else {
        pre
    };
    let mut end = p.len();
    loop
        invariant
            lo <= end <= p@.len(),
            lo as int == body_start(p@),
            verbatim == path_prefix(p@).1,
            file_name_upto(p@, lo as int, end as int, verbatim) == path_file_name(p@),
        decreases end,
    {
        if end == lo {
            return None;
        }
        if p[end - 1] == '\\' || (!verbatim && p[end - 1] == '/') {
            end = end - 1;
        } else {
            proof {
                lemma_segment_start(p@, lo as int, end as int, verbatim);
            }
            let mut st = end - 1;
            while st > lo && !(p[st - 1] == '\\' || (!verbatim && p[st - 1] == '/'))
                invariant
                    lo <= st < end <= p@.len(),
                    forall|i: int| st <= i < end ==> !is_sep_in(p@[i], verbatim),
                decreases st,
            {
                st = st - 1;
            }
            assert(segment_start(p@, lo as int, end as int, verbatim) == st) by {
                lemma_segment_start_walk(p@, lo as int, st as int, end as int, verbatim);
            }
            let seg = slice(p, st, end);
            if equals_str(&seg, ".") {
                if verbatim {
                    return None;
                }
                end = st;
            } else if equals_str(&seg, "..") {
                return None;
            } else {
                return Some(seg);
            }
        }
    }
}

proof fn lemma_segment_start_walk(p: Seq<char>, lo: int, st: int, end: int, verbatim: bool)
    requires
        0 <= lo <= st < end <= p.len(),
        forall|i: int| st <= i < end ==> !is_sep_in(p[i], verbatim),
        st == lo || is_sep_in(p[st - 1], verbatim),
    ensures
        segment_start(p, lo, end, verbatim) == st,
    decreases end - st,
{
    assert(!is_sep_in(p[end - 1], verbatim));
    if end - 1 > st {
        lemma_segment_start_walk(p, lo, st, end - 1, verbatim);
    } else {
        assert(segment_start(p, lo, st, verbatim) == st);
    }
}

/// `Path::extension` of a path.
pub fn extension_of(p: &Vec<char>) -> (r: Option<Vec<char>>)
    ensures
        match path_extension(p@) {
            Some(e) => r matches Some(v) && v@ == e,
            None => r is None,
        },
{
    match file_name_of(p) {
        None => None,
        Some(name) => {
            let mut i = name.len();
            while i > 0 && name[i - 1] != '.'
                invariant
                    i <= name@.len(),
                    last_dot_before(name@, i as int) == last_dot_before(
                        name@,
                        name@.len() as int,
                    ),
                decreases i,
            {
                i = i - 1;
            }
            if i <= 1 {
                None
            } else {
                Some(slice(&name, i, name.len()))
            }
        },
    }
}

fn extension_in(name: &str, list: &Vec<&str>) -> (b: bool)
    ensures
        b == match path_extension(name@) {
            Some(e) => list@.map_values(|l: &str| l@).contains(ascii_lower_all(e)),
            None => false,
        },
{
    let chars = chars_of(name);
    match extension_of(&chars) {
        None => false,
        Some(e) => {
            let lower = ascii_lower_exec(&e);
            in_list(&lower, list)
        },
    }
}

/// Whether a file named `name` may be uploaded.
pub fn upload_extension_allowed(name: &str) -> (b: bool)
    ensures
        b == upload_allowed(name@),
{
    let list: Vec<&str> = vec![
        "pdf",
        "html",
        "htm",
        "txt",
        "xls",
        "xlsx",
        "xlsm",
        "csv",
        "zip",
        "rar",
        "7z",
        "exe",
        "msi",
        "doc",
        "docx",
        "png",
        "jpg",
        "jpeg",
    ];
    assert(list@.map_values(|l: &str| l@) =~= upload_extensions());
    extension_in(name, &list)
}

/// Whether a file named `name` is read as a device report.
pub fn is_report_file_name(name: &str) -> (b: bool)
    ensures
        b == is_report_name(name@),
{
    let list: Vec<&str> = vec!["txt", "xls", "xlsx", "csv", "html", "htm"];
    assert(list@.map_values(|l: &str| l@) =~= report_extensions());
    extension_in(name, &list)
}

// ---------------------------------------------------------------------------
// Header values of an upload request.
// ---------------------------------------------------------------------------

/// What `urlencoding::decode` gives for a text: the percent-decoded text, or
/// nothing when the decoded bytes are not UTF-8.
pub uninterp spec fn url_decoded(text: Seq<char>) -> Option<Seq<char>>;

/// `urlencoding::decode`. Stated: its result is `url_decoded` of the argument
/// (`None` for its UTF-8 error), and a text without `%` comes back unchanged (the
/// crate's source returns the borrowed input then). How `%XX` sequences decode
/// is not stated.
#[verifier::external_body]
fn percent_decode(text: &str) -> (r: Option<String>)
    ensures
        r is Some <==> url_decoded(text@) is Some,
        r matches Some(s) ==> url_decoded(text@) == Some(s@),
        !has_char(text@, '%') ==> r is Some && r->0@ == text@,
{
    match urlencoding::decode(text) {
        Ok(s) => Some(s.into_owned()),
        Err(_) => None,
    }
}

/// A header value decoded, or the empty text when it does not decode.
pub open spec fn decoded_or_empty(raw: Seq<char>) -> Seq<char> {
    match url_decoded(raw) {
        Some(d) => d,
        None => Seq::empty(),
    }
}

/// Decodes a percent-encoded header value; one that does not decode to UTF-8
/// gives the empty text, and one without `%` is used as sent.
pub fn decode_header_value(raw: &str) -> (s: String)
    ensures
        s@ == decoded_or_empty(raw@),
        !has_char(raw@, '%') ==> s@ == raw@,
{
    match percent_decode(raw) {
        Some(d) => d,
        None => String::new(),
    }
}

/// The name an upload is stored under: the decoded `X-FileName` header, or
/// `File_<stamp>.dat` when the request has none.
pub open spec fn upload_name(decoded: Option<Seq<char>>, stamp: Seq<char>) -> Seq<char> {
    match decoded {
        Some(d) => d,
        None => "File_"@ + stamp + ".dat"@,
    }
}

/// The name an upload is stored under, given the decoded header (if any) and the
/// time stamp for a nameless upload.
pub fn resolve_upload_name(decoded: Option<String>, stamp: &str) -> (name: String)
    ensures
        name@ == upload_name(
            match decoded {
                Some(d) => Some(d@),
                None => None,
            },
            stamp@,
        ),
{
    match decoded {
        Some(d) => d,
        None => {
            let mut v: Vec<char> = chars_of("File_");
            let s = chars_of(stamp);
            push_all(&mut v, &s);
            let tail = chars_of(".dat");
            push_all(&mut v, &tail);
            string_of(v.as_slice())
        },
    }
}

/// The local time as a compact stamp (`%Y%m%d_%H%M%S`), from chrono's
/// `Local::now().format(..)`. Stated: only digits, `_`, and a sign for years
/// outside 0..=9999. The value depends on the clock and is not stated.
#[verifier::external_body]
fn local_compact_stamp() -> (t: String)
    ensures
        is_stamp_text(t@),
{
    chrono::Local::now().format("%Y%m%d_%H%M%S").to_string()
}

/// The name an upload is stored under, from the raw `X-FileName` header value.
/// Without the header the name comes from the clock.
pub fn upload_file_name(raw: Option<&str>) -> (name: String)
    ensures
        match raw {
            Some(r) => name@ == decoded_or_empty(r@),
            None => exists|t: Seq<char>|
                is_stamp_text(t) && name@ == upload_name(None, t),
        },
        raw matches Some(r) ==> (!has_char(r@, '%') ==> name@ == r@),
{
    match raw {
        Some(r) => decode_header_value(r),
        None => {
            let stamp = local_compact_stamp();
            resolve_upload_name(None, stamp.as_str())
        },
    }
}

/// The folder an upload goes to: the decoded `X-FolderName` header when it names
/// one of the server's folders, else the report folder.
pub open spec fn upload_folder_for(decoded: Option<Seq<char>>) -> Seq<char> {
    match decoded {
        Some(d) => if is_valid_folder(d) {
            d
        } else {
            "BaoCaoThietBi"@
        },
        None => "BaoCaoThietBi"@,
    }
}

/// The folder an upload goes to, given the decoded folder header (if any).
/// It is always one of the server's folders.
pub fn resolve_upload_folder(decoded: Option<String>) -> (folder: String)
    ensures
        folder@ == upload_folder_for(
            match decoded {
                Some(d) => Some(d@),
                None => None,
            },
        ),
        is_valid_folder(folder@),
{
    match decoded {
        Some(d) => {
            if is_valid_folder_name(d.as_str()) {
                d
            } else {
                String::from_str("BaoCaoThietBi")
            }
        },
        None => String::from_str("BaoCaoThietBi"),
    }
}

/// The folder an upload goes to, from the raw `X-FolderName` header value.
pub fn upload_folder(raw: Option<&str>) -> (folder: String)
    ensures
        folder@ == upload_folder_for(
            match raw {
                Some(r) => Some(decoded_or_empty(r@)),
                None => None,
            },
        ),
        is_valid_folder(folder@),
        raw matches Some(r) ==> (!has_char(r@, '%') ==> folder@ == upload_folder_for(
            Some(r@),
        )),
{
    match raw {
        Some(r) => resolve_upload_folder(Some(decode_header_value(r))),
        None => resolve_upload_folder(None),
    }
}

// ---------------------------------------------------------------------------
// Decisions on requests.
// ---------------------------------------------------------------------------

/// Where an accepted upload is stored.
pub struct UploadTarget {
    pub folder: String,
    pub file_name: String,
}

/// Why an upload is refused.
#[derive(Debug, PartialEq, Eq, Structural, Clone, Copy)]
pub enum UploadRejection {
    /// The file's extension is not one of the upload types.
    UnsupportedExtension,
}

impl UploadRejection {
    /// The text of the reply that refuses the upload.
    pub fn message(&self) -> (m: String)
        ensures
            m@ == "File nay ko duoc ho tro"@,
    {
        String::from_str("File nay ko duoc ho tro")
    }
}

/// Decides an upload of `file_name` into `folder` (already resolved): accepted
/// exactly when the file's extension is one of the upload types.
pub fn check_upload(file_name: String, folder: String) -> (r: Result<UploadTarget, UploadRejection>)
    ensures
        r is Ok <==> upload_allowed(file_name@),
        r matches Ok(t) ==> t.folder@ == folder@ && t.file_name@ == file_name@,
        r matches Err(e) ==> e == UploadRejection::UnsupportedExtension,
{
    if upload_extension_allowed(file_name.as_str()) {
        Ok(UploadTarget { folder, file_name })
    } else {
        Err(UploadRejection::UnsupportedExtension)
    }
}

/// Decides an upload from its raw `X-FileName` and `X-FolderName` header values.
/// An accepted upload always goes to one of the server's folders.
pub fn plan_upload(raw_name: Option<&str>, raw_folder: Option<&str>) -> (r: Result<
    UploadTarget,
    UploadRejection,
>)
    ensures
        r matches Ok(t) ==> {
            &&& is_valid_folder(t.folder@)
            &&& upload_allowed(t.file_name@)
            &&& t.folder@ == upload_folder_for(
                match raw_folder {
                    Some(f) => Some(decoded_or_empty(f@)),
                    None => None,
                },
            )
            &&& raw_name matches Some(n) ==> t.file_name@ == decoded_or_empty(n@)
        },
        raw_name matches Some(n) ==> (r is Ok <==> upload_allowed(decoded_or_empty(n@))),
        raw_name matches Some(n) ==> (!has_char(n@, '%') ==> (r is Ok <==> upload_allowed(n@))),
        r matches Ok(t) ==> (raw_name matches Some(n) ==> (!has_char(n@, '%') ==> t.file_name@
            == n@)),
        r matches Ok(t) ==> (raw_folder matches Some(f) ==> (!has_char(f@, '%') ==> t.folder@
            == upload_folder_for(Some(f@)))),
        raw_name is None ==> r is Err,
        r matches Err(e) ==> e == UploadRejection::UnsupportedExtension,
{
    let name = upload_file_name(raw_name);
    let folder = upload_folder(raw_folder);
    proof {
        if raw_name is None {
            let t = choose|t: Seq<char>| is_stamp_text(t) && name@ == upload_name(None, t);
            law_nameless_upload_refused(t);
        }
    }
    check_upload(name, folder)
}

/// A nameless upload is stored as `File_<stamp>.dat`, and `dat` is not an upload
/// type: such an upload is always refused.
pub proof fn law_nameless_upload_refused(t: Seq<char>)
    requires
        is_stamp_text(t),
    ensures
        path_extension(upload_name(None, t)) == Some("dat"@),
        !upload_allowed(upload_name(None, t)),
{
    reveal_strlit("File_");
    reveal_strlit(".dat");
    reveal_strlit("dat");
    reveal_strlit(".");
    reveal_strlit("..");
    let p = upload_name(None, t);
    let n = p.len() as int;
    assert(p =~= "File_"@ + t + ".dat"@);
    assert(p[0] == 'F' && p[1] == 'i');
    assert(path_prefix(p) == (0int, false));
    assert(body_start(p) == 0);
    assert forall|i: int| 0 <= i < n implies !is_sep_in(p[i], false) by {
        if 5 <= i < 5 + t.len() {
            assert(p[i] == t[i - 5]);
            let c = t[i - 5];
            assert(('0' <= c && c <= '9') || c == '-' || c == '+' || c == ':' || c == ' '
                || c == '_');
        }
    }
    lemma_segment_start_walk(p, 0, 0, n, false);
    assert(p.subrange(0, n) =~= p);
    assert(p.len() > 2);
    assert(p != "."@);
    assert(p != ".."@);
    assert(path_file_name(p) == Some(p));
    assert(p[n - 1] == 't' && p[n - 2] == 'a' && p[n - 3] == 'd' && p[n - 4] == '.');
    assert(last_dot_before(p, n - 3) == n - 4);
    assert(last_dot_before(p, n - 2) == n - 4);
    assert(last_dot_before(p, n - 1) == n - 4);
    assert(last_dot_before(p, n) == n - 4);
    assert(p.subrange(n - 3, n) =~= "dat"@);
    assert(ascii_lower_all("dat"@) =~= "dat"@);
    lemma_dat_not_upload_type();
}

proof fn lemma_dat_not_upload_type()
    ensures
        !upload_extensions().contains("dat"@),
{
    reveal_strlit("dat");
    reveal_strlit("pdf");
    reveal_strlit("html");
    reveal_strlit("htm");
    reveal_strlit("txt");
    reveal_strlit("xls");
    reveal_strlit("xlsx");
    reveal_strlit("xlsm");
    reveal_strlit("csv");
    reveal_strlit("zip");
    reveal_strlit("rar");
    reveal_strlit("7z");
    reveal_strlit("exe");
    reveal_strlit("msi");
    reveal_strlit("doc");
    reveal_strlit("docx");
    reveal_strlit("png");
    reveal_strlit("jpg");
    reveal_strlit("jpeg");
    let l = upload_extensions();
    assert forall|i: int| 0 <= i < l.len() implies l[i] != "dat"@ by {
        if l[i].len() == 3 {
            assert(l[i][0] != 'd' || l[i][1] != 'a');
        }
    }
}

/// Whether a stored upload makes the master report be rebuilt: it does when it
/// went to the report folder.
pub fn refreshes_report(folder: &str) -> (b: bool)
    ensures
        b == (folder@ == "BaoCaoThietBi"@),
{
    let f = chars_of(folder);
    equals_str(&f, "BaoCaoThietBi")
}

/// What follows an upload once its body is stored: the line the activity log
/// gains, and whether the master report is rebuilt.
pub struct UploadEffects {
    pub log_line: String,
    pub refreshes_report: bool,
}

/// What follows an accepted upload from `ip` once its body is stored under
/// `target`: one `UPLOAD` log line naming `[folder]\name` (stamped by the
/// clock), and a rebuild of the master report exactly when the upload went to
/// the report folder.
pub fn upload_effects(target: &UploadTarget, ip: &str) -> (e: UploadEffects)
    ensures
        exists|t: Seq<char>|
            is_stamp_text(t) && e.log_line@ == log_line(
                t,
                "UPLOAD"@,
                ip@,
                file_label(target.folder@, target.file_name@),
            ),
        e.refreshes_report == (target.folder@ == "BaoCaoThietBi"@),
{
    let line = transfer_log_line(
        Transfer::Upload,
        ip,
        target.folder.as_str(),
        target.file_name.as_str(),
    );
    let refresh = refreshes_report(target.folder.as_str());
    UploadEffects { log_line: line, refreshes_report: refresh }
}

/// The file a download request names.
pub struct DownloadTarget {
    pub folder: String,
    pub file: String,
}

/// Why a download request is refused before the file is looked up.
#[derive(Debug, PartialEq, Eq, Structural, Clone, Copy)]
pub enum DownloadRejection {
    /// A parameter is missing or the folder is not one of the server's folders.
    BadRequest,
}

/// Decides a download request from its `folder` and `file` query parameters:
/// accepted exactly when both are present and the folder is one of the
/// server's folders.
pub fn check_download(folder: Option<String>, file: Option<String>) -> (r: Result<
    DownloadTarget,
    DownloadRejection,
>)
    ensures
        r is Ok <==> (folder is Some && file is Some && is_valid_folder(folder->0@)),
        r matches Ok(t) ==> t.folder@ == folder->0@ && t.file@ == file->0@,
        r matches Err(e) ==> e == DownloadRejection::BadRequest,
{
    match folder {
        None => Err(DownloadRejection::BadRequest),
        Some(fo) => match file {
            None => Err(DownloadRejection::BadRequest),
            Some(fi) => {
                if is_valid_folder_name(fo.as_str()) {
                    Ok(DownloadTarget { folder: fo, file: fi })
                } else {
                    Err(DownloadRejection::BadRequest)
                }
            },
        },
    }
}

/// The `Content-Disposition` value that makes the browser save `file`.
pub open spec fn attachment_value(file: Seq<char>) -> Seq<char> {
    "attachment; filename=\""@ + file + "\""@
}

/// The `Content-Disposition` value of a download of `file`.
pub fn attachment_disposition(file: &str) -> (v: String)
    ensures
        v@ == attachment_value(file@),
{
    let mut c = chars_of("attachment; filename=\"");
    let f = chars_of(file);
    push_all(&mut c, &f);
    let q = chars_of("\"");
    push_all(&mut c, &q);
    string_of(c.as_slice())
}

} // verus!

verus! {

/// The upload types, spelt out: an upload named `name` is accepted exactly when
/// its name has an extension and that extension, ASCII-lower-cased, is one of
/// pdf, html, htm, txt, xls, xlsx, xlsm, csv, zip, rar, 7z, exe, msi, doc, docx,
/// png, jpg, jpeg.
pub proof fn law_upload_types(name: Seq<char>)
    ensures
        upload_allowed(name) <==> match path_extension(name) {
            Some(e) => {
                let l = ascii_lower_all(e);
                ||| l == "pdf"@
                ||| l == "html"@
                ||| l == "htm"@
                ||| l == "txt"@
                ||| l == "xls"@
                ||| l == "xlsx"@
                ||| l == "xlsm"@
                ||| l == "csv"@
                ||| l == "zip"@
                ||| l == "rar"@
                ||| l == "7z"@
                ||| l == "exe"@
                ||| l == "msi"@
                ||| l == "doc"@
                ||| l == "docx"@
                ||| l == "png"@
                ||| l == "jpg"@
                ||| l == "jpeg"@
            },
            None => false,
        },
{
    if let Some(e) = path_extension(name) {
        let l = ascii_lower_all(e);
        let list = upload_extensions();
        if list.contains(l) {
            let k = choose|k: int| 0 <= k < list.len() && list[k] == l;
            assert(0 <= k < 18);
        }
        assert(list[0] == "pdf"@);
    }
}

/// The report types, spelt out: a file named `name` is read as a device report
/// exactly when its name has an extension and that extension, ASCII-lower-cased,
/// is one of txt, xls, xlsx, csv, html, htm.
pub proof fn law_report_types(name: Seq<char>)
    ensures
        is_report_name(name) <==> match path_extension(name) {
            Some(e) => {
                let l = ascii_lower_all(e);
                ||| l == "txt"@
                ||| l == "xls"@
                ||| l == "xlsx"@
                ||| l == "csv"@
                ||| l == "html"@
                ||| l == "htm"@
            },
            None => false,
        },
{
    if let Some(e) = path_extension(name) {
        let l = ascii_lower_all(e);
        let list = report_extensions();
        if list.contains(l) {
            let k = choose|k: int| 0 <= k < list.len() && list[k] == l;
            assert(0 <= k < 6);
        }
        assert(list[0] == "txt"@);
    }
}

} // verus!
