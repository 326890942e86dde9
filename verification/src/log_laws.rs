use vstd::prelude::*;

use crate::activity_log::{
    ends_with, entries_of, field_sep, history, host_label, inner_field_ok, is_stamp_text,
    line_fields_ok, log_body, log_line, newest_first, parse_entry, LogRecord, HISTORY_LIMIT,
};
use crate::text::{
    contains, find_from, has_char, lemma_find_from_bounds, lemma_next_newline_bounds, line_body,
    lines, lines_from, matches_at, next_newline, remove_all, remove_from, split, split_from,
};

verus! {

// ---------------------------------------------------------------------------
// Facts about the text model.
// ---------------------------------------------------------------------------

/// The first occurrence at or after `k` is at `m` when `pat` occurs at `m` and
/// nowhere in between.
pub proof fn lemma_find_at(s: Seq<char>, pat: Seq<char>, k: int, m: int)
    requires
        0 <= k <= m,
        m < s.len(),
        matches_at(s, pat, m),
        forall|j: int| k <= j < m ==> !matches_at(s, pat, j),
    ensures
        find_from(s, pat, k) == Some(m),
    decreases m - k,
{
    if k < m {
        assert(!matches_at(s, pat, k));
        lemma_find_at(s, pat, k + 1, m);
    }
}

/// There is no occurrence at or after `k` when `pat` occurs nowhere there.
pub proof fn lemma_find_none(s: Seq<char>, pat: Seq<char>, k: int)
    requires
        0 <= k,
        forall|j: int| k <= j < s.len() ==> !matches_at(s, pat, j),
    ensures
        find_from(s, pat, k) is None,
    decreases s.len() - k,
{
    if k < s.len() && k + pat.len() <= s.len() {
        lemma_find_none(s, pat, k + 1);
    }
}

/// A text with no occurrence of a non-empty `pat` has none at any index.
pub proof fn lemma_not_contains(x: Seq<char>, pat: Seq<char>, j: int)
    requires
        pat.len() > 0,
        !contains(x, pat),
    ensures
        !matches_at(x, pat, j),
{
    lemma_find_from_bounds(x, pat, 0);
}

/// `s` holds `x` at index `k`, and `pat` occurs in `s` at `j` inside that copy.
proof fn lemma_match_inside(s: Seq<char>, x: Seq<char>, pat: Seq<char>, k: int, j: int)
    requires
        0 <= k,
        k + x.len() <= s.len(),
        s.subrange(k, k + x.len()) == x,
        k <= j,
        j + pat.len() <= k + x.len(),
        matches_at(s, pat, j),
    ensures
        matches_at(x, pat, j - k),
{
    assert forall|i: int| 0 <= i < pat.len() implies x.subrange(j - k, j - k + pat.len())[i]
        == pat[i] by {
        assert(x[j - k + i] == s.subrange(k, k + x.len())[j - k + i]);
        assert(s.subrange(j, j + pat.len())[i] == s[j + i]);
    }
    assert(x.subrange(j - k, j - k + pat.len()) =~= pat);
}

/// Splitting at a field that ends where a separator begins.
pub proof fn lemma_split_step(s: Seq<char>, k: int, x: Seq<char>)
    requires
        0 <= k,
        k + x.len() + 3 <= s.len(),
        s.subrange(k, k + x.len()) == x,
        s.subrange(k + x.len(), k + x.len() + 3) == field_sep(),
        inner_field_ok(x),
    ensures
        split_from(s, field_sep(), k) == seq![x] + split_from(s, field_sep(), k + x.len() + 3),
{
    reveal_strlit(" | ");
    reveal_strlit(" |");
    let sep = field_sep();
    let e = k + x.len();
    assert(s[e] == ' ' && s[e + 1] == '|' && s[e + 2] == ' ') by {
        assert(s.subrange(e, e + 3)[0] == s[e]);
        assert(s.subrange(e, e + 3)[1] == s[e + 1]);
        assert(s.subrange(e, e + 3)[2] == s[e + 2]);
    }
    assert forall|j: int| k <= j < e implies !matches_at(s, sep, j) by {
        if matches_at(s, sep, j) {
            assert(s.subrange(j, j + 3)[1] == s[j + 1]);
            assert(s[j + 1] == '|');
            if j + 3 <= e {
                lemma_match_inside(s, x, sep, k, j);
                lemma_not_contains(x, sep, j - k);
            } else if j == e - 1 {
                assert(s[j + 1] == ' ');
            } else {
                assert(j == e - 2);
                assert(s.subrange(j, j + 3)[0] == s[j]);
                assert(x[x.len() - 2] == s[j]);
                assert(x[x.len() - 1] == s[j + 1]);
                assert(x.subrange(x.len() - 2, x.len() as int) =~= " |"@);
            }
        }
    }
    assert(matches_at(s, sep, e));
    lemma_find_at(s, sep, k, e);
}

/// Splitting the last field, which holds no separator.
pub proof fn lemma_split_last(s: Seq<char>, k: int, x: Seq<char>)
    requires
        0 <= k <= s.len(),
        s.subrange(k, s.len() as int) == x,
        !contains(x, field_sep()),
    ensures
        split_from(s, field_sep(), k) == seq![x],
{
    reveal_strlit(" | ");
    let sep = field_sep();
    assert forall|j: int| k <= j < s.len() implies !matches_at(s, sep, j) by {
        if matches_at(s, sep, j) {
            lemma_match_inside(s, x, sep, k, j);
            lemma_not_contains(x, sep, j - k);
        }
    }
    lemma_find_none(s, sep, k);
}

/// Removing a label that opens the text, and occurs nowhere else.
pub proof fn lemma_remove_label(pat: Seq<char>, y: Seq<char>)
    requires
        pat.len() > 0,
        !contains(y, pat),
    ensures
        remove_all(pat + y, pat) == y,
{
    let s = pat + y;
    assert(s.subrange(0, pat.len() as int) =~= pat);
    assert(find_from(s, pat, 0) == Some(0int));
    assert forall|j: int| pat.len() <= j < s.len() implies !matches_at(s, pat, j) by {
        if matches_at(s, pat, j) {
            assert(s.subrange(pat.len() as int, s.len() as int) =~= y);
            lemma_match_inside(s, y, pat, pat.len() as int, j);
            lemma_not_contains(y, pat, j - pat.len());
        }
    }
    lemma_find_none(s, pat, pat.len() as int);
    assert(remove_from(s, pat, pat.len() as int) == s.subrange(pat.len() as int, s.len() as int));
    assert(s.subrange(0, 0) + s.subrange(pat.len() as int, s.len() as int) =~= y);
}

/// A line of the log reads back as the row it records.
pub proof fn lemma_parse_log_body(time: Seq<char>, kind: Seq<char>, ip: Seq<char>, file: Seq<char>)
    requires
        line_fields_ok(time, kind, ip, file),
    ensures
        parse_entry(log_body(time, kind, ip, file)) == Some(
            LogRecord { time, kind, ip, host: host_label(ip), file },
        ),
{
    reveal_strlit(" | ");
    reveal_strlit(" | IP: ");
    reveal_strlit(" | Máy: ");
    reveal_strlit(" | File: ");
    reveal_strlit("IP: ");
    reveal_strlit("Máy: ");
    reveal_strlit("File: ");
    let sep = field_sep();
    let a = "IP: "@ + ip;
    let b = "Máy: "@ + host_label(ip);
    let c = "File: "@ + file;
    let s = log_body(time, kind, ip, file);
    assert(s =~= time + sep + kind + sep + a + sep + b + sep + c);
    let k1: int = time.len() as int + 3;
    let k2: int = k1 + kind.len() + 3;
    let k3: int = k2 + a.len() + 3;
    let k4: int = k3 + b.len() + 3;
    assert(s.subrange(0, time.len() as int) =~= time);
    assert(s.subrange(time.len() as int, k1) =~= sep);
    assert(s.subrange(k1, k1 + kind.len()) =~= kind);
    assert(s.subrange(k1 + kind.len(), k2) =~= sep);
    assert(s.subrange(k2, k2 + a.len()) =~= a);
    assert(s.subrange(k2 + a.len(), k3) =~= sep);
    assert(s.subrange(k3, k3 + b.len()) =~= b);
    assert(s.subrange(k3 + b.len(), k4) =~= sep);
    assert(s.subrange(k4, s.len() as int) =~= c);
    lemma_split_step(s, 0, time);
    lemma_split_step(s, k1, kind);
    lemma_split_step(s, k2, a);
    lemma_split_step(s, k3, b);
    lemma_split_last(s, k4, c);
    let parts = split(s, sep);
    assert(parts =~= seq![time, kind, a, b, c]);
    lemma_remove_label("IP: "@, ip);
    lemma_remove_label("Máy: "@, host_label(ip));
    lemma_remove_label("File: "@, file);
}

/// `next_newline` finds the first line break.
proof fn lemma_next_newline_at(s: Seq<char>, k: int, m: int)
    requires
        0 <= k <= m < s.len(),
        s[m] == '\n',
        forall|j: int| k <= j < m ==> s[j] != '\n',
    ensures
        next_newline(s, k) == m,
    decreases m - k,
{
    if k < m {
        lemma_next_newline_at(s, k + 1, m);
    }
}

proof fn lemma_lines_from_append(c: Seq<char>, body: Seq<char>, k: int)
    requires
        c.len() == 0 || c.last() == '\n',
        0 <= k <= c.len(),
        !has_char(body, '\n'),
        !ends_with(body, "\r"@),
    ensures
        lines_from(c + body + "\n"@, k) == lines_from(c, k).push(body),
    decreases c.len() - k,
{
    reveal_strlit("\n");
    reveal_strlit("\r");
    let s = c + body + "\n"@;
    let m: int = c.len() as int + body.len();
    assert(s[m] == '\n');
    if k == c.len() {
        assert forall|j: int| k <= j < m implies s[j] != '\n' by {
            assert(s[j] == body[j - c.len()]);
        }
        lemma_next_newline_at(s, k, m);
        if k < m && s[m - 1] == '\r' {
            assert(body.subrange(body.len() - 1, body.len() as int) =~= "\r"@);
        }
        assert(line_body(s, k, m) =~= body);
        assert(lines_from(s, m + 1) =~= Seq::<Seq<char>>::empty());
        assert(lines_from(s, k) =~= seq![body]);
        assert(lines_from(c, k) =~= Seq::<Seq<char>>::empty());
    } else {
        lemma_next_newline_bounds(c, k);
        let e = next_newline(c, k);
        if e == c.len() {
            assert(c[c.len() - 1] == '\n');
        }
        assert(e < c.len());
        assert forall|j: int| k <= j < e implies s[j] != '\n' by {
            assert(s[j] == c[j]);
        }
        assert(s[e] == c[e]);
        lemma_next_newline_at(s, k, e);
        if k < e {
            assert(s[e - 1] == c[e - 1]);
        }
        assert(line_body(s, k, e) =~= line_body(c, k, e));
        lemma_lines_from_append(c, body, e + 1);
        assert(lines_from(s, k) == seq![line_body(c, k, e)] + lines_from(s, e + 1));
        assert(lines_from(c, k) == seq![line_body(c, k, e)] + lines_from(c, e + 1));
        assert(seq![line_body(c, k, e)] + lines_from(c, e + 1).push(body) =~= (seq![
            line_body(c, k, e),
        ] + lines_from(c, e + 1)).push(body));
    }
}

/// Reading the rows of lines, newest first, one at a time from the front.
proof fn lemma_entries_prepend(a: Seq<char>, rest: Seq<Seq<char>>)
    ensures
        entries_of(seq![a] + rest) == match parse_entry(a) {
            Some(e) => seq![e] + entries_of(rest),
            None => entries_of(rest),
        },
    decreases rest.len(),
{
    if rest.len() == 0 {
        assert(seq![a] + rest =~= seq![a]);
        assert(seq![a].drop_last() =~= Seq::<Seq<char>>::empty());
        assert(entries_of(rest) =~= Seq::<LogRecord>::empty());
        assert(seq![a].last() == a);
        assert(entries_of(Seq::<Seq<char>>::empty()) == Seq::<LogRecord>::empty());
        assert(entries_of(seq![a].drop_last()) == Seq::<LogRecord>::empty());
        match parse_entry(a) {
            Some(e) => {
                assert(entries_of(seq![a]) == Seq::<LogRecord>::empty().push(e));
                assert(seq![e] + Seq::<LogRecord>::empty() =~= Seq::<LogRecord>::empty().push(e));
            },
            None => {},
        }
    } else {
        let all = seq![a] + rest;
        assert(all.drop_last() =~= seq![a] + rest.drop_last());
        assert(all.last() == rest.last());
        lemma_entries_prepend(a, rest.drop_last());
        assert(entries_of(all) == match parse_entry(rest.last()) {
            Some(f) => entries_of(all.drop_last()).push(f),
            None => entries_of(all.drop_last()),
        });
        assert(entries_of(rest) == match parse_entry(rest.last()) {
            Some(f) => entries_of(rest.drop_last()).push(f),
            None => entries_of(rest.drop_last()),
        });
        match parse_entry(a) {
            Some(e) => {
                match parse_entry(rest.last()) {
                    Some(f) => {
                        assert((seq![e] + entries_of(rest.drop_last())).push(f) =~= seq![e] + (
                        entries_of(rest.drop_last()).push(f)));
                    },
                    None => {},
                }
            },
            None => {},
        }
    }
}

// ---------------------------------------------------------------------------
// Laws of the activity log.
// ---------------------------------------------------------------------------

/// Each line the server appends to the log file is one more line of the file:
/// the lines already there stay as they were, and the new line comes last.
pub proof fn law_append_adds_one_line(
    content: Seq<char>,
    time: Seq<char>,
    kind: Seq<char>,
    ip: Seq<char>,
    file: Seq<char>,
)
    requires
        content.len() == 0 || content.last() == '\n',
        line_fields_ok(time, kind, ip, file),
    ensures
        lines(content + log_line(time, kind, ip, file)) == lines(content).push(
            log_body(time, kind, ip, file),
        ),
{
    reveal_strlit(" | ");
    reveal_strlit(" | IP: ");
    reveal_strlit(" | Máy: ");
    reveal_strlit(" | File: ");
    reveal_strlit("Máy (");
    reveal_strlit(")");
    reveal_strlit("\r");
    let body = log_body(time, kind, ip, file);
    assert(!has_char(body, '\n')) by {
        assert forall|i: int| 0 <= i < body.len() implies body[i] != '\n' by {
            let l0: int = time.len() as int;
            let l1: int = l0 + 3 + kind.len();
            let l2: int = l1 + 7 + ip.len();
            let l3: int = l2 + 8 + host_label(ip).len();
            let h = host_label(ip);
            if i < l0 {
                assert(body[i] == time[i]);
            } else if i < l0 + 3 {
            } else if i < l1 {
                assert(body[i] == kind[i - l0 - 3]);
            } else if i < l1 + 7 {
            } else if i < l2 {
                assert(body[i] == ip[i - l1 - 7]);
            } else if i < l2 + 8 {
            } else if i < l3 {
                assert(body[i] == h[i - l2 - 8]);
                if i - l2 - 8 >= 5 && i - l2 - 8 < 5 + ip.len() {
                    assert(h[i - l2 - 8] == ip[i - l2 - 13]);
                }
            } else if i < l3 + 9 {
            } else {
                assert(body[i] == file[i - l3 - 9]);
            }
        }
    }
    assert(!ends_with(body, "\r"@)) by {
        if file.len() == 0 {
            assert(body[body.len() - 1] == ' ');
            assert(body.subrange(body.len() - 1, body.len() as int)[0] == body[body.len() - 1]);
        } else {
            assert(body.subrange(body.len() - 1, body.len() as int) =~= file.subrange(
                file.len() - 1,
                file.len() as int,
            ));
        }
    }
    lemma_lines_from_append(content, body, 0);
    assert(content + log_line(time, kind, ip, file) =~= content + body + "\n"@);
}

/// What a write gives back: after the server appends the line that records an
/// upload or download, the history view opens with exactly that row (time,
/// kind, address, machine label `Máy (address)`, file), followed by the rows of
/// the 49 newest lines that were there before.
pub proof fn law_history_reads_back_append(
    content: Seq<char>,
    time: Seq<char>,
    kind: Seq<char>,
    ip: Seq<char>,
    file: Seq<char>,
)
    requires
        content.len() == 0 || content.last() == '\n',
        line_fields_ok(time, kind, ip, file),
    ensures
        history(content + log_line(time, kind, ip, file)) == seq![
            LogRecord { time, kind, ip, host: host_label(ip), file },
        ] + entries_of(newest_first(lines(content), (HISTORY_LIMIT - 1) as nat)),
{
    let body = log_body(time, kind, ip, file);
    law_append_adds_one_line(content, time, kind, ip, file);
    let old_lines = lines(content);
    let new_lines = old_lines.push(body);
    let recent = newest_first(new_lines, HISTORY_LIMIT as nat);
    let older = newest_first(old_lines, (HISTORY_LIMIT - 1) as nat);
    assert(recent =~= seq![body] + older);
    lemma_entries_prepend(body, older);
    lemma_parse_log_body(time, kind, ip, file);
}

/// Time stamps from the clock never hold a separator or a line break, so they
/// can stand as the first field of a log line.
pub proof fn law_stamp_is_clean_field(t: Seq<char>)
    requires
        is_stamp_text(t),
    ensures
        inner_field_ok(t),
        !has_char(t, '\n'),
{
    reveal_strlit(" | ");
    reveal_strlit(" |");
    let sep = field_sep();
    assert forall|j: int| 0 <= j < t.len() implies !matches_at(t, sep, j) by {
        if matches_at(t, sep, j) {
            assert(t.subrange(j, j + 3)[1] == t[j + 1]);
            assert(t[j + 1] == '|');
        }
    }
    lemma_find_none(t, sep, 0);
    if ends_with(t, " |"@) {
        assert(t.subrange(t.len() - 2, t.len() as int)[1] == t[t.len() - 1]);
    }
    if has_char(t, '\n') {
        let i = choose|i: int| 0 <= i < t.len() && t[i] == '\n';
        assert(t[i] == '\n');
    }
}

} // verus!
