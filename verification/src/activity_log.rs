use vstd::prelude::*;

use crate::text::{
    chars_of, contains, has_char, lines, lines_exec, push_str, remove_all, remove_all_exec, split,
    split_exec, string_of,
};

verus! {

/// How many of the newest log lines the history view reads.
pub const HISTORY_LIMIT: usize = 50;

/// One row of the activity history.
pub struct LogEntry {
    pub time: String,
    pub kind: String,
    pub ip: String,
    pub host: String,
    pub file: String,
}

/// The characters of each field of a [`LogEntry`].
pub struct LogRecord {
    pub time: Seq<char>,
    pub kind: Seq<char>,
    pub ip: Seq<char>,
    pub host: Seq<char>,
    pub file: Seq<char>,
}

impl View for LogEntry {
    type V = LogRecord;

    open spec fn view(&self) -> LogRecord {
        LogRecord {
            time: self.time@,
            kind: self.kind@,
            ip: self.ip@,
            host: self.host@,
            file: self.file@,
        }
    }
}

/// The separator between the fields of a log line.
pub open spec fn field_sep() -> Seq<char> {
    " | "@
}

/// The machine label that a log line gives a client address.
pub open spec fn host_label(ip: Seq<char>) -> Seq<char> {
    "Máy ("@ + ip + ")"@
}

/// The text of the log line that records one upload or download.
pub open spec fn log_body(time: Seq<char>, kind: Seq<char>, ip: Seq<char>, file: Seq<char>) -> Seq<
    char,
> {
    time + " | "@ + kind + " | IP: "@ + ip + " | Máy: "@ + host_label(ip) + " | File: "@ + file
}

/// The log line, with its final newline, that records one upload or download.
pub open spec fn log_line(time: Seq<char>, kind: Seq<char>, ip: Seq<char>, file: Seq<char>) -> Seq<
    char,
> {
    log_body(time, kind, ip, file) + "\n"@
}

/// How one line of the log file reads as a history row: the first five
/// `" | "`-separated fields, with the labels `"IP: "`, `"Máy: "` and `"File: "`
/// removed from the third, fourth and fifth; lines with fewer fields are skipped.
pub open spec fn parse_entry(line: Seq<char>) -> Option<LogRecord> {
    let parts = split(line, field_sep());
    if parts.len() >= 5 {
        Some(
            LogRecord {
                time: parts[0],
                kind: parts[1],
                ip: remove_all(parts[2], "IP: "@),
                host: remove_all(parts[3], "Máy: "@),
                file: remove_all(parts[4], "File: "@),
            },
        )
    } else {
        None
    }
}

/// The history rows of a list of lines, in the order of the lines.
pub open spec fn entries_of(ls: Seq<Seq<char>>) -> Seq<LogRecord>
    decreases ls.len(),
{
    if ls.len() == 0 {
        Seq::empty()
    } else {
        let rest = entries_of(ls.drop_last());
        match parse_entry(ls.last()) {
            Some(e) => rest.push(e),
            None => rest,
        }
    }
}

/// The last `n` lines (or all, when there are fewer), newest first.
pub open spec fn newest_first(ls: Seq<Seq<char>>, n: nat) -> Seq<Seq<char>> {
    let m = if ls.len() < n {
        ls.len()
    } else {
        n
    };
    Seq::new(m, |i: int| ls[ls.len() - 1 - i])
}

/// The history view of a log file: the rows of its newest fifty lines,
/// newest first.
pub open spec fn history(content: Seq<char>) -> Seq<LogRecord> {
    entries_of(newest_first(lines(content), HISTORY_LIMIT as nat))
}

/// The text of a time stamp as the clock formats it: digits and the
/// punctuation of the format only.
pub open spec fn is_stamp_text(t: Seq<char>) -> bool {
    forall|i: int|
        0 <= i < t.len() ==> {
            let c = #[trigger] t[i];
            ('0' <= c && c <= '9') || c == '-' || c == '+' || c == ':' || c == ' ' || c == '_'
        }
}

/// `s` ends with `p`.
pub open spec fn ends_with(s: Seq<char>, p: Seq<char>) -> bool {
    p.len() <= s.len() && s.subrange(s.len() - p.len(), s.len() as int) == p
}

/// A field that can stand before a separator and be read back whole: it holds
/// no separator and does not end in `" |"`.
pub open spec fn inner_field_ok(f: Seq<char>) -> bool {
    !contains(f, field_sep()) && !ends_with(f, " |"@)
}

/// The fields of a log line can be told apart and read back.
pub open spec fn line_fields_ok(time: Seq<char>, kind: Seq<char>, ip: Seq<char>, file: Seq<char>) -> bool {
    &&& inner_field_ok(time)
    &&& inner_field_ok(kind)
    &&& inner_field_ok("IP: "@ + ip)
    &&& inner_field_ok("Máy: "@ + host_label(ip))
    &&& !contains("File: "@ + file, field_sep())
    &&& !contains(ip, "IP: "@)
    &&& !contains(host_label(ip), "Máy: "@)
    &&& !contains(file, "File: "@)
    &&& !has_char(time, '\n')
    &&& !has_char(kind, '\n')
    &&& !has_char(ip, '\n')
    &&& !has_char(file, '\n')
    &&& !ends_with(file, "\r"@)
}

/// The local time as the log writes it (`%Y-%m-%d %H:%M:%S`), from chrono's
/// `Local::now().format(..)`. What is stated: the text holds only digits and the
/// characters `-`, `+`, `:`, ` ` (chrono writes a sign only for years outside
/// 0..=9999). The value itself depends on the clock and is not stated.
#[verifier::external_body]
fn local_log_stamp() -> (t: String)
    ensures
        is_stamp_text(t@),
{
    chrono::Local::now().format("%Y-%m-%d %H:%M:%S").to_string()
}

/// The log line recording that `ip` uploaded or downloaded `file` at `time`.
pub fn format_log_line(time: &str, kind: &str, ip: &str, file: &str) -> (line: String)
    ensures
        line@ == log_line(time@, kind@, ip@, file@),
{
    let mut v: Vec<char> = Vec::new();
    push_str(&mut v, time);
    push_str(&mut v, " | ");
    push_str(&mut v, kind);
    push_str(&mut v, " | IP: ");
    push_str(&mut v, ip);
    push_str(&mut v, " | Máy: ");
    push_str(&mut v, "Máy (");
    push_str(&mut v, ip);
    push_str(&mut v, ")");
    push_str(&mut v, " | File: ");
    push_str(&mut v, file);
    push_str(&mut v, "\n");
    assert(v@ =~= log_line(time@, kind@, ip@, file@));
    string_of(v.as_slice())
}

/// The log line for an event happening now: the clock gives the time stamp.
pub fn activity_log_line(kind: &str, ip: &str, file: &str) -> (line: String)
    ensures
        exists|t: Seq<char>| is_stamp_text(t) && line@ == log_line(t, kind@, ip@, file@),
{
    let t = local_log_stamp();
    format_log_line(t.as_str(), kind, ip, file)
}

/// The log label of a file in a folder: `[folder]\file`.
pub open spec fn file_label(folder: Seq<char>, file: Seq<char>) -> Seq<char> {
    "["@ + folder + "]\\"@ + file
}

/// The label under which a transfer of `file` in `folder` is logged.
pub fn log_file_label(folder: &str, file: &str) -> (label: String)
    ensures
        label@ == file_label(folder@, file@),
{
    let mut v: Vec<char> = Vec::new();
    push_str(&mut v, "[");
    push_str(&mut v, folder);
    push_str(&mut v, "]\\");
    push_str(&mut v, file);
    assert(v@ =~= file_label(folder@, file@));
    string_of(v.as_slice())
}

/// The two kinds of file transfer that the log records.
#[derive(Debug, PartialEq, Eq, Structural, Clone, Copy)]
pub enum Transfer {
    Upload,
    Download,
}

/// The word that names a kind of transfer in the log.
pub open spec fn transfer_word(t: Transfer) -> Seq<char> {
    match t {
        Transfer::Upload => "UPLOAD"@,
        Transfer::Download => "DOWNLOAD"@,
    }
}

impl Transfer {
    /// The word that names this kind of transfer in the log.
    pub fn word(&self) -> (w: &'static str)
        ensures
            w@ == transfer_word(*self),
    {
        match self {
            Transfer::Upload => "UPLOAD",
            Transfer::Download => "DOWNLOAD",
        }
    }
}

/// The log line recording, now, that `ip` transferred `file` of `folder`.
pub fn transfer_log_line(transfer: Transfer, ip: &str, folder: &str, file: &str) -> (line: String)
    ensures
        exists|t: Seq<char>|
            is_stamp_text(t) && line@ == log_line(
                t,
                transfer_word(transfer),
                ip@,
                file_label(folder@, file@),
            ),
{
    let label = log_file_label(folder, file);
    activity_log_line(transfer.word(), ip, label.as_str())
}

fn entry_from(parts: &Vec<Vec<char>>) -> (e: LogEntry)
    requires
        parts@.len() >= 5,
    ensures
        e@ == (LogRecord {
            time: parts@[0]@,
            kind: parts@[1]@,
            ip: remove_all(parts@[2]@, "IP: "@),
            host: remove_all(parts@[3]@, "Máy: "@),
            file: remove_all(parts@[4]@, "File: "@),
        }),
{
    let ip_label = chars_of("IP: ");
    let host_label = chars_of("Máy: ");
    let file_label = chars_of("File: ");
    proof {
        reveal_strlit("IP: ");
        reveal_strlit("Máy: ");
        reveal_strlit("File: ");
    }
    let ip = remove_all_exec(&parts[2], &ip_label);
    let host = remove_all_exec(&parts[3], &host_label);
    let file = remove_all_exec(&parts[4], &file_label);
    LogEntry {
        time: string_of(parts[0].as_slice()),
        kind: string_of(parts[1].as_slice()),
        ip: string_of(ip.as_slice()),
        host: string_of(host.as_slice()),
        file: string_of(file.as_slice()),
    }
}

fn parse_entry_chars(line: &Vec<char>) -> (r: Option<LogEntry>)
    ensures
        match parse_entry(line@) {
            Some(rec) => r matches Some(e) && e@ == rec,
            None => r is None,
        },
{
    let sep = chars_of(" | ");
    proof {
        reveal_strlit(" | ");
    }
    let parts = split_exec(line, &sep);
    proof {
        let views = parts@.map_values(|p: Vec<char>| p@);
        assert(views.len() == parts@.len());
        if parts@.len() >= 5 {
            assert(views[0] == parts@[0]@);
            assert(views[1] == parts@[1]@);
            assert(views[2] == parts@[2]@);
            assert(views[3] == parts@[3]@);
            assert(views[4] == parts@[4]@);
        }
    }
    if parts.len() >= 5 {
        Some(entry_from(&parts))
    } else {
        None
    }
}

/// Reads one line of the log file as a history row.
pub fn parse_log_line(line: &str) -> (r: Option<LogEntry>)
    ensures
        match parse_entry(line@) {
            Some(rec) => r matches Some(e) && e@ == rec,
            None => r is None,
        },
{
    let chars = chars_of(line);
    parse_entry_chars(&chars)
}

/// The history view of the log file's content: the rows of its newest
/// fifty lines, newest first, skipping lines with fewer than five fields.
pub fn parse_history(content: &str) -> (rows: Vec<LogEntry>)
    ensures
        rows@.map_values(|e: LogEntry| e@) == history(content@),
{
    let chars = chars_of(content);
    let ls = lines_exec(&chars);
    let ghost all = lines(content@);
    let n = ls.len();
    let m = if n < HISTORY_LIMIT {
        n
    } else {
        HISTORY_LIMIT
    };
    let ghost recent = newest_first(all, HISTORY_LIMIT as nat);
    assert(ls@.map_values(|p: Vec<char>| p@) == all);
    let mut rows: Vec<LogEntry> = Vec::new();
    for i in 0..m
        invariant
            n == ls@.len(),
            m <= n,
            m == recent.len(),
            ls@.map_values(|p: Vec<char>| p@) == all,
            recent == newest_first(all, HISTORY_LIMIT as nat),
            rows@.map_values(|e: LogEntry| e@) == entries_of(recent.take(i as int)),
    {
        let line = &ls[n - 1 - i];
        assert(recent[i as int] == line@);
        assert(recent.take(i + 1).drop_last() =~= recent.take(i as int));
        let ghost before = rows@.map_values(|e: LogEntry| e@);
        match parse_entry_chars(line) {
            Some(e) => {
                rows.push(e);
                assert(rows@.map_values(|e: LogEntry| e@) =~= before.push(e@));
            },
            None => {
                assert(rows@.map_values(|e: LogEntry| e@) =~= before);
            },
        }
    }
    assert(recent.take(m as int) =~= recent);
    rows
}

} // verus!
