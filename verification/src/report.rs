use vstd::prelude::*;

use crate::text::{
    chars_of, contains, contains_exec, find_from, find_from_exec, join, join_exec, lines,
    lines_exec, push_all, push_str, remove_all, remove_all_exec, slice, string_of, trim, trim_exec,
};

verus! {

// ---------------------------------------------------------------------------
// Reading a device inventory report.
//
// A report is read line by line, each line trimmed. A line that mentions the
// software section opens it; inside it, bullet or numbered lines name installed
// software; every other line of the form `key: value` records a field, where the
// first line with a given key wins.
// ---------------------------------------------------------------------------

/// What has been read of a report so far.
pub struct ScanState {
    pub in_software: bool,
    pub fields: Seq<(Seq<char>, Seq<char>)>,
    pub software: Seq<Seq<char>>,
}

pub open spec fn is_digit(c: char) -> bool {
    '0' <= c && c <= '9'
}

/// A (trimmed) line that opens the software section.
pub open spec fn opens_software(clean: Seq<char>) -> bool {
    ||| contains(clean, "[Software]"@)
    ||| contains(clean, "Ứng dụng"@)
    ||| contains(clean, "Phần mềm"@)
}

/// A (trimmed) line that lists a program: it starts with `"- "` or a digit.
pub open spec fn is_software_item(clean: Seq<char>) -> bool {
    ||| (clean.len() >= 2 && clean[0] == '-' && clean[1] == ' ')
    ||| (clean.len() > 0 && is_digit(clean[0]))
}

/// Characters of a list bullet: dashes, digits, dots and spaces.
pub open spec fn is_bullet_char(c: char) -> bool {
    c == '-' || is_digit(c) || c == '.' || c == ' '
}

/// First index at or after `i` that is not a bullet character.
pub open spec fn skip_bullets(s: Seq<char>, i: int) -> int
    decreases s.len() - i,
{
    if 0 <= i < s.len() && is_bullet_char(s[i]) {
        skip_bullets(s, i + 1)
    } else {
        i
    }
}

/// The part of `s` before its first `:` (all of it when there is none).
pub open spec fn before_colon(s: Seq<char>) -> Seq<char> {
    match find_from(s, ":"@, 0) {
        Some(i) => s.subrange(0, i),
        None => s,
    }
}

/// The program named by a software line: the line without its bullet, cut at
/// the first `:`, trimmed.
pub open spec fn software_name(clean: Seq<char>) -> Seq<char> {
    trim(before_colon(clean.subrange(skip_bullets(clean, 0), clean.len() as int)))
}

/// A program name that is listed: not empty and not a table heading.
pub open spec fn keeps_software(name: Seq<char>) -> bool {
    &&& name.len() > 0
    &&& !contains(name, "Tên linh kiện"@)
    &&& !contains(name, "CẤU HÌNH"@)
}

/// `s` with every leading `"- "` removed.
pub open spec fn strip_dashes(s: Seq<char>) -> Seq<char>
    decreases s.len(),
{
    if s.len() >= 2 && s[0] == '-' && s[1] == ' ' {
        strip_dashes(s.subrange(2, s.len() as int))
    } else {
        s
    }
}

/// Reading one more line of a report.
pub open spec fn scan_line(st: ScanState, line: Seq<char>) -> ScanState {
    let clean = trim(line);
    if opens_software(clean) {
        ScanState { in_software: true, fields: st.fields, software: st.software }
    } else if st.in_software && is_software_item(clean) {
        let n = software_name(clean);
        if keeps_software(n) {
            ScanState { in_software: st.in_software, fields: st.fields, software: st.software.push(n) }
        } else {
            st
        }
    } else {
        match find_from(clean, ":"@, 0) {
            Some(i) => {
                let key = strip_dashes(trim(clean.subrange(0, i)));
                let val = trim(clean.subrange(i + 1, clean.len() as int));
                if key.len() > 0 && val.len() > 0 {
                    ScanState {
                        in_software: st.in_software,
                        fields: st.fields.push((key, val)),
                        software: st.software,
                    }
                } else {
                    st
                }
            },
            None => st,
        }
    }
}

/// Reading a list of lines, from the start.
pub open spec fn scan_lines(ls: Seq<Seq<char>>) -> ScanState
    decreases ls.len(),
{
    if ls.len() == 0 {
        ScanState { in_software: false, fields: Seq::empty(), software: Seq::empty() }
    } else {
        scan_line(scan_lines(ls.drop_last()), ls.last())
    }
}

/// What a report says: its fields in the order of their lines, and its programs.
pub open spec fn scan_report(content: Seq<char>) -> ScanState {
    scan_lines(lines(content))
}

/// The value of the first field with the given key.
pub open spec fn field_value(fields: Seq<(Seq<char>, Seq<char>)>, key: Seq<char>) -> Option<
    Seq<char>,
>
    decreases fields.len(),
{
    if fields.len() == 0 {
        None
    } else if fields[0].0 == key {
        Some(fields[0].1)
    } else {
        field_value(fields.drop_first(), key)
    }
}

pub open spec fn value_or(v: Option<Seq<char>>, default: Seq<char>) -> Seq<char> {
    match v {
        Some(x) => x,
        None => default,
    }
}

/// A device report, as read.
pub struct DeviceReport {
    /// `(key, value)` for each field line, in order; lookups take the first.
    pub fields: Vec<(String, String)>,
    /// The programs listed in the software section, in order.
    pub software: Vec<String>,
}

/// The characters of each part of a [`DeviceReport`].
pub struct ReportView {
    pub fields: Seq<(Seq<char>, Seq<char>)>,
    pub software: Seq<Seq<char>>,
}

impl View for DeviceReport {
    type V = ReportView;

    open spec fn view(&self) -> ReportView {
        ReportView {
            fields: self.fields@.map_values(|p: (String, String)| (p.0@, p.1@)),
            software: self.software@.map_values(|s: String| s@),
        }
    }
}

fn scan_state_chars(content: &Vec<char>) -> (r: (Vec<(Vec<char>, Vec<char>)>, Vec<Vec<char>>))
    ensures
        r.0@.map_values(|p: (Vec<char>, Vec<char>)| (p.0@, p.1@)) == scan_report(content@).fields,
        r.1@.map_values(|s: Vec<char>| s@) == scan_report(content@).software,
{
    let ls = lines_exec(content);
    let ghost all = lines(content@);
    let mut in_software = false;
    let mut fields: Vec<(Vec<char>, Vec<char>)> = Vec::new();
    let mut software: Vec<Vec<char>> = Vec::new();
    let n = ls.len();
    for i in 0..n
        invariant
            n == ls@.len(),
            ls@.map_values(|p: Vec<char>| p@) == all,
            all == lines(content@),
            in_software == scan_lines(all.take(i as int)).in_software,
            fields@.map_values(|p: (Vec<char>, Vec<char>)| (p.0@, p.1@)) == scan_lines(
                all.take(i as int),
            ).fields,
            software@.map_values(|s: Vec<char>| s@) == scan_lines(all.take(i as int)).software,
    {
        let ghost pre = scan_lines(all.take(i as int));
        assert(all.take(i + 1).drop_last() =~= all.take(i as int));
        assert(all.take(i + 1).last() == ls@[i as int]@);
        let clean = trim_exec(&ls[i]);
        let ghost post = scan_line(pre, ls@[i as int]@);
        if opens_software_exec(&clean) {
            in_software = true;
        } else if in_software && is_software_item_exec(&clean) {
            let name = software_name_exec(&clean);
            if keeps_software_exec(&name) {
                let ghost before = software@.map_values(|s: Vec<char>| s@);
                software.push(name);
                assert(software@.map_values(|s: Vec<char>| s@) =~= before.push(post.software.last()));
            }
        } else {
            match find_from_exec(&clean, &chars_of(":"), 0) {
                Some(c) => {
                    proof {
                        crate::text::lemma_find_from_bounds(clean@, ":"@, 0);
                        reveal_strlit(":");
                    }
                    assert(c + 1 <= clean.len());
                    let k = trim_exec(&slice(&clean, 0, c));
                    let key = strip_dashes_exec(&k);
                    let val = trim_exec(&slice(&clean, c + 1, clean.len()));
                    if key.len() > 0 && val.len() > 0 {
                        let ghost before = fields@.map_values(
                            |p: (Vec<char>, Vec<char>)| (p.0@, p.1@),
                        );
                        fields.push((key, val));
                        assert(fields@.map_values(|p: (Vec<char>, Vec<char>)| (p.0@, p.1@))
                            =~= before.push(post.fields.last()));
                    }
                },
                None => {},
            }
        }
    }
    assert(all.take(n as int) =~= all);
    (fields, software)
}

fn opens_software_exec(clean: &Vec<char>) -> (b: bool)
    ensures
        b == opens_software(clean@),
{
    contains_exec(clean, &chars_of("[Software]")) || contains_exec(clean, &chars_of("Ứng dụng"))
        || contains_exec(clean, &chars_of("Phần mềm"))
}

fn is_software_item_exec(clean: &Vec<char>) -> (b: bool)
    ensures
        b == is_software_item(clean@),
{
    (clean.len() >= 2 && clean[0] == '-' && clean[1] == ' ') || (clean.len() > 0 && '0'
        <= clean[0] && clean[0] <= '9')
}

fn software_name_exec(clean: &Vec<char>) -> (n: Vec<char>)
    ensures
        n@ == software_name(clean@),
{
    let mut b: usize = 0;
    while b < clean.len() && (clean[b] == '-' || ('0' <= clean[b] && clean[b] <= '9') || clean[b]
        == '.' || clean[b] == ' ')
        invariant
            b <= clean@.len(),
            skip_bullets(clean@, b as int) == skip_bullets(clean@, 0),
        decreases clean@.len() - b,
    {
        b = b + 1;
    }
    let rest = slice(clean, b, clean.len());
    let cut = match find_from_exec(&rest, &chars_of(":"), 0) {
        Some(c) => {
            proof {
                crate::text::lemma_find_from_bounds(rest@, ":"@, 0);
                reveal_strlit(":");
            }
            slice(&rest, 0, c)
        },
        None => rest,
    };
    trim_exec(&cut)
}

fn keeps_software_exec(name: &Vec<char>) -> (b: bool)
    ensures
        b == keeps_software(name@),
{
    name.len() > 0 && !contains_exec(name, &chars_of("Tên linh kiện")) && !contains_exec(
        name,
        &chars_of("CẤU HÌNH"),
    )
}

fn strip_dashes_exec(s: &Vec<char>) -> (r: Vec<char>)
    ensures
        r@ == strip_dashes(s@),
{
    let mut a: usize = 0;
    assert(s@.subrange(0, s@.len() as int) =~= s@);
    while a < s.len() && s.len() - a >= 2 && s[a] == '-' && s[a + 1] == ' '
        invariant
            a <= s@.len(),
            strip_dashes(s@.subrange(a as int, s@.len() as int)) == strip_dashes(s@),
        decreases s@.len() - a,
    {
        assert(s@.subrange(a as int, s@.len() as int).subrange(2, s@.len() - a) =~= s@.subrange(
            a + 2,
            s@.len() as int,
        ));
        a = a + 2;
    }
    slice(s, a, s.len())
}

fn strings_of(v: &Vec<Vec<char>>) -> (r: Vec<String>)
    ensures
        r@.map_values(|s: String| s@) == v@.map_values(|c: Vec<char>| c@),
{
    let mut r: Vec<String> = Vec::new();
    let n = v.len();
    for i in 0..n
        invariant
            n == v@.len(),
            r@.map_values(|s: String| s@) =~= v@.take(i as int).map_values(|c: Vec<char>| c@),
    {
        r.push(string_of(v[i].as_slice()));
        assert(v@.take(i + 1).map_values(|c: Vec<char>| c@) =~= v@.take(i as int).map_values(
            |c: Vec<char>| c@,
        ).push(v@[i as int]@));
    }
    assert(v@.take(n as int) =~= v@);
    r
}

/// Reads a device report.
pub fn parse_device_report(content: &str) -> (r: DeviceReport)
    ensures
        r@.fields == scan_report(content@).fields,
        r@.software == scan_report(content@).software,
{
    let chars = chars_of(content);
    let (fields, software) = scan_state_chars(&chars);
    let mut pairs: Vec<(String, String)> = Vec::new();
    let n = fields.len();
    for i in 0..n
        invariant
            n == fields@.len(),
            pairs@.map_values(|p: (String, String)| (p.0@, p.1@)) =~= fields@.take(
                i as int,
            ).map_values(|p: (Vec<char>, Vec<char>)| (p.0@, p.1@)),
    {
        let k = string_of(fields[i].0.as_slice());
        let v = string_of(fields[i].1.as_slice());
        pairs.push((k, v));
        assert(fields@.take(i + 1).map_values(|p: (Vec<char>, Vec<char>)| (p.0@, p.1@))
            =~= fields@.take(i as int).map_values(|p: (Vec<char>, Vec<char>)| (p.0@, p.1@)).push(
            (fields@[i as int].0@, fields@[i as int].1@),
        ));
    }
    assert(fields@.take(n as int) =~= fields@);
    DeviceReport { fields: pairs, software: strings_of(&software) }
}

fn lookup_chars(fields: &Vec<(Vec<char>, Vec<char>)>, key: &str) -> (r: Option<Vec<char>>)
    ensures
        match field_value(fields@.map_values(|p: (Vec<char>, Vec<char>)| (p.0@, p.1@)), key@) {
            Some(v) => r matches Some(x) && x@ == v,
            None => r is None,
        },
{
    let ghost views = fields@.map_values(|p: (Vec<char>, Vec<char>)| (p.0@, p.1@));
    let k = chars_of(key);
    let n = fields.len();
    assert(views.skip(0) =~= views);
    for i in 0..n
        invariant
            n == fields@.len(),
            views == fields@.map_values(|p: (Vec<char>, Vec<char>)| (p.0@, p.1@)),
            k@ == key@,
            field_value(views.skip(i as int), key@) == field_value(views, key@),
    {
        assert(views.skip(i as int)[0] == views[i as int]);
        assert(views.skip(i as int).drop_first() =~= views.skip(i + 1));
        if crate::text::same_chars(&fields[i].0, &k) {
            return Some(slice(&fields[i].1, 0, fields[i].1.len()));
        }
    }
    assert(views.skip(n as int) =~= Seq::<(Seq<char>, Seq<char>)>::empty());
    None
}

/// The value of the first field of the report with the given key.
pub fn lookup_field(report: &DeviceReport, key: &str) -> (r: Option<String>)
    ensures
        match field_value(report@.fields, key@) {
            Some(v) => r matches Some(x) && x@ == v,
            None => r is None,
        },
{
    let ghost views = report@.fields;
    let n = report.fields.len();
    assert(views.skip(0) =~= views);
    for i in 0..n
        invariant
            n == report.fields@.len(),
            views == report@.fields,
            field_value(views.skip(i as int), key@) == field_value(views, key@),
    {
        assert(views.skip(i as int)[0] == views[i as int]);
        assert(views.skip(i as int).drop_first() =~= views.skip(i + 1));
        let k = chars_of(report.fields[i].0.as_str());
        if crate::text::equals_str(&k, key) {
            let v = chars_of(report.fields[i].1.as_str());
            return Some(string_of(v.as_slice()));
        }
    }
    assert(views.skip(n as int) =~= Seq::<(Seq<char>, Seq<char>)>::empty());
    None
}

// ---------------------------------------------------------------------------
// Summarising a device.
// ---------------------------------------------------------------------------

/// The lines of the master report that describe one device.
pub struct DeviceSummary {
    pub computer: String,
    pub model: String,
    pub cpu: String,
    pub ram: String,
    pub disk: String,
    pub windows: String,
    pub office: String,
    pub kms: String,
    pub user: String,
    pub department: String,
    pub software: String,
    /// The office suite is reported missing.
    pub office_missing: bool,
}

/// The characters of each part of a [`DeviceSummary`].
pub struct SummaryView {
    pub computer: Seq<char>,
    pub model: Seq<char>,
    pub cpu: Seq<char>,
    pub ram: Seq<char>,
    pub disk: Seq<char>,
    pub windows: Seq<char>,
    pub office: Seq<char>,
    pub kms: Seq<char>,
    pub user: Seq<char>,
    pub department: Seq<char>,
    pub software: Seq<char>,
    pub office_missing: bool,
}

impl View for DeviceSummary {
    type V = SummaryView;

    open spec fn view(&self) -> SummaryView {
        SummaryView {
            computer: self.computer@,
            model: self.model@,
            cpu: self.cpu@,
            ram: self.ram@,
            disk: self.disk@,
            windows: self.windows@,
            office: self.office@,
            kms: self.kms@,
            user: self.user@,
            department: self.department@,
            software: self.software@,
            office_missing: self.office_missing,
        }
    }
}

/// What the master report says of the device whose report file is `name`:
/// each line takes the first of its keys that the report has, else a default;
/// a device without a computer name is named after its file.
pub open spec fn summary_of(name: Seq<char>, fields: Seq<(Seq<char>, Seq<char>)>, software: Seq<
    Seq<char>,
>) -> SummaryView {
    let office = value_or(
        field_value(fields, "MS Office Status (OSPP)"@),
        value_or(field_value(fields, "MS Office"@), "Chưa rõ"@),
    );
    SummaryView {
        computer: value_or(
            field_value(fields, "Computer Name"@),
            value_or(
                field_value(fields, "Tên máy tính"@),
                remove_all(remove_all(name, "BaoCaoKiemKe_"@), ".xls"@),
            ),
        ),
        model: value_or(
            field_value(fields, "Manufacturer/Model"@),
            value_or(
                field_value(fields, "Laptop / Model"@),
                value_or(field_value(fields, "Model"@), "Thiết bị văn phòng"@),
            ),
        ),
        cpu: value_or(field_value(fields, "CPU"@), "Chưa rõ CPU"@),
        ram: value_or(
            field_value(fields, "RAM Installed / Supported"@),
            value_or(field_value(fields, "RAM"@), "Chưa rõ RAM"@),
        ),
        disk: value_or(
            field_value(fields, "Disk Health"@),
            value_or(field_value(fields, "Ổ cứng"@), "Healthy"@),
        ),
        windows: value_or(
            field_value(fields, "Windows Status"@),
            value_or(field_value(fields, "Windows"@), "Bản quyền hợp lệ"@),
        ),
        office,
        kms: value_or(
            field_value(fields, "Local KMS Hack Check"@),
            value_or(field_value(fields, "Kiểm tra bản quyền (KMS / Hosts)"@), "Clean"@),
        ),
        user: value_or(field_value(fields, "Họ và tên người dùng"@), "[Chưa có dữ liệu]"@),
        department: value_or(field_value(fields, "Vị trí / Phòng ban"@), "[Chưa có dữ liệu]"@),
        software: if software.len() > 0 {
            join(software, ", "@)
        } else {
            "Đầy đủ trình duyệt và công cụ làm việc"@
        },
        office_missing: contains(office, "Not Found"@) || contains(office, "Not Installed"@),
    }
}

fn or_default(v: Option<Vec<char>>, default: &str) -> (r: Vec<char>)
    ensures
        r@ == value_or(
            match v {
                Some(x) => Some(x@),
                None => None,
            },
            default@,
        ),
{
    match v {
        Some(x) => x,
        None => chars_of(default),
    }
}

fn or_else(v: Option<Vec<char>>, other: Vec<char>) -> (r: Vec<char>)
    ensures
        r@ == value_or(
            match v {
                Some(x) => Some(x@),
                None => None,
            },
            other@,
        ),
{
    match v {
        Some(x) => x,
        None => other,
    }
}

fn summary_chars(name: &Vec<char>, fields: &Vec<(Vec<char>, Vec<char>)>, software: &Vec<
    Vec<char>,
>) -> (s: DeviceSummary)
    ensures
        s@ == summary_of(
            name@,
            fields@.map_values(|p: (Vec<char>, Vec<char>)| (p.0@, p.1@)),
            software@.map_values(|x: Vec<char>| x@),
        ),
{
    let office = or_else(
        lookup_chars(fields, "MS Office Status (OSPP)"),
        or_default(lookup_chars(fields, "MS Office"), "Chưa rõ"),
    );
    let office_missing = contains_exec(&office, &chars_of("Not Found")) || contains_exec(
        &office,
        &chars_of("Not Installed"),
    );
    proof {
        reveal_strlit("BaoCaoKiemKe_");
        reveal_strlit(".xls");
    }
    let stripped = remove_all_exec(name, &chars_of("BaoCaoKiemKe_"));
    let file_stem = remove_all_exec(&stripped, &chars_of(".xls"));
    let computer = or_else(
        lookup_chars(fields, "Computer Name"),
        or_else(lookup_chars(fields, "Tên máy tính"), file_stem),
    );
    let model = or_else(
        lookup_chars(fields, "Manufacturer/Model"),
        or_else(
            lookup_chars(fields, "Laptop / Model"),
            or_default(lookup_chars(fields, "Model"), "Thiết bị văn phòng"),
        ),
    );
    let cpu = or_default(lookup_chars(fields, "CPU"), "Chưa rõ CPU");
    let ram = or_else(
        lookup_chars(fields, "RAM Installed / Supported"),
        or_default(lookup_chars(fields, "RAM"), "Chưa rõ RAM"),
    );
    let disk = or_else(
        lookup_chars(fields, "Disk Health"),
        or_default(lookup_chars(fields, "Ổ cứng"), "Healthy"),
    );
    let windows = or_else(
        lookup_chars(fields, "Windows Status"),
        or_default(lookup_chars(fields, "Windows"), "Bản quyền hợp lệ"),
    );
    let kms = or_else(
        lookup_chars(fields, "Local KMS Hack Check"),
        or_default(lookup_chars(fields, "Kiểm tra bản quyền (KMS / Hosts)"), "Clean"),
    );
    let user = or_default(lookup_chars(fields, "Họ và tên người dùng"), "[Chưa có dữ liệu]");
    let department = or_default(lookup_chars(fields, "Vị trí / Phòng ban"), "[Chưa có dữ liệu]");
    let software_text = if software.len() > 0 {
        join_exec(software, &chars_of(", "))
    } else {
        chars_of("Đầy đủ trình duyệt và công cụ làm việc")
    };
    DeviceSummary {
        computer: string_of(computer.as_slice()),
        model: string_of(model.as_slice()),
        cpu: string_of(cpu.as_slice()),
        ram: string_of(ram.as_slice()),
        disk: string_of(disk.as_slice()),
        windows: string_of(windows.as_slice()),
        office: string_of(office.as_slice()),
        kms: string_of(kms.as_slice()),
        user: string_of(user.as_slice()),
        department: string_of(department.as_slice()),
        software: string_of(software_text.as_slice()),
        office_missing,
    }
}

/// What the master report says of the device whose report file `name` holds
/// `content`.
pub fn summarize_device(name: &str, content: &str) -> (s: DeviceSummary)
    ensures
        s@ == summary_of(name@, scan_report(content@).fields, scan_report(content@).software),
{
    let chars = chars_of(content);
    let (fields, software) = scan_state_chars(&chars);
    let n = chars_of(name);
    summary_chars(&n, &fields, &software)
}

// ---------------------------------------------------------------------------
// Writing the master report.
// ---------------------------------------------------------------------------

pub open spec fn digit_char(d: int) -> char {
    ((d + 48) as u8) as char
}

/// The decimal digits of `n`.
pub open spec fn decimal(n: nat) -> Seq<char>
    decreases n,
{
    if n < 10 {
        seq![digit_char(n as int)]
    } else {
        decimal(n / 10).push(digit_char((n % 10) as int))
    }
}

/// `format!("{:02}", n)`: the decimal digits of `n`, at least two of them.
pub open spec fn two_digits(n: nat) -> Seq<char> {
    if n < 10 {
        seq!['0'] + decimal(n)
    } else {
        decimal(n)
    }
}

fn decimal_exec(n: u64) -> (v: Vec<char>)
    ensures
        v@ == decimal(n as nat),
    decreases n,
{
    if n < 10 {
        let b: u8 = (n as u8) + 48;
        let mut v: Vec<char> = Vec::new();
        v.push(b as char);
        assert(v@ =~= seq![digit_char(n as int)]);
        v
    } else {
        let mut v = decimal_exec(n / 10);
        let b: u8 = ((n % 10) as u8) + 48;
        v.push(b as char);
        v
    }
}

fn two_digits_exec(n: u64) -> (v: Vec<char>)
    ensures
        v@ == two_digits(n as nat),
{
    if n < 10 {
        let mut v: Vec<char> = Vec::new();
        v.push('0');
        let d = decimal_exec(n);
        push_all(&mut v, &d);
        assert(v@ =~= seq!['0'] + decimal(n as nat));
        v
    } else {
        decimal_exec(n)
    }
}

/// The note beside the office suite line.
pub open spec fn office_badge(missing: bool) -> Seq<char> {
    if missing {
        "<span class=\"badge-warn\">Thiếu ứng dụng văn phòng</span>"@
    } else {
        "<span class=\"badge-ok\">Bản quyền chính hãng</span>"@
    }
}

/// The heading row of device number `n`: its number, computer name and model.
pub open spec fn header_row(n: nat, s: SummaryView) -> Seq<char> {
    "<tr class=\"machine-header-bar-row\"><td colspan=\"3\" class=\"machine-header-bar\">THIẾT BỊ "@
        + two_digits(n)
        + ": "@
        + s.computer
        + " ("@
        + s.model
        + ")</td></tr>"@
}

/// The row of the office suite: what the report says of it, and its badge.
pub open spec fn office_row(s: SummaryView) -> Seq<char> {
    "<tr><td>MS Office</td><td>"@
        + s.office
        + "</td><td>"@
        + office_badge(s.office_missing)
        + "</td></tr>"@
}

/// The rows between the heading row and the office row: who uses the device,
/// its hardware, and its Windows licence.
pub open spec fn rows_between(s: SummaryView) -> Seq<char> {
    "\n                "@
        + "<tr class=\"section-header\"><td colspan=\"3\">1. TÊN NGƯỜI DÙNG / VỊ TRÍ PHÒNG BAN</td></tr>"@
        + "\n                "@
        + "<tr><td>Tên máy tính</td><td>"@
        + s.computer
        + "</td><td><span class=\"badge-ok\">Đã định danh hệ thống</span></td></tr>"@
        + "\n                "@
        + "<tr><td>Họ và tên người dùng</td><td>"@
        + s.user
        + "</td><td>Cần bổ sung nhân sự tiếp nhận</td></tr>"@
        + "\n                "@
        + "<tr><td>Vị trí / Phòng ban</td><td>"@
        + s.department
        + "</td><td>Cần bổ sung thông tin quản lý</td></tr>"@
        + "\n                "@
        + "<tr class=\"section-header\"><td colspan=\"3\">2. CẤU HÌNH PHẦN CỨNG</td></tr>"@
        + "\n                "@
        + "<tr><td>Laptop / Model</td><td>"@
        + s.model
        + "</td><td>Dòng thiết bị văn phòng</td></tr>"@
        + "\n                "@
        + "<tr><td>CPU</td><td>"@
        + s.cpu
        + "</td><td>Đáp ứng tốt tác vụ văn phòng</td></tr>"@
        + "\n                "@
        + "<tr><td>RAM</td><td>"@
        + s.ram
        + "</td><td>Bình thường</td></tr>"@
        + "\n                "@
        + "<tr><td>Ổ cứng</td><td>"@
        + s.disk
        + "</td><td>Tình trạng Healthy</td></tr>"@
        + "\n                "@
        + "<tr class=\"section-header\"><td colspan=\"3\">3. PHẦN MỀM</td></tr>"@
        + "\n                "@
        + "<tr><td>Windows</td><td>"@
        + s.windows
        + "</td><td>Bản quyền OEM / Volume hợp lệ</td></tr>"@
        + "\n                "@
}

/// The rows after the office row: the licence check and the installed programs.
pub open spec fn closing_rows(s: SummaryView) -> Seq<char> {
    "\n                "@
        + "<tr><td>Kiểm tra bản quyền (KMS / Hosts)</td><td>"@
        + s.kms
        + "</td><td><span class=\"badge-ok\">An toàn, không dùng phần mềm bẻ khóa</span></td></tr>"@
        + "\n                "@
        + "<tr><td>Ứng dụng đã cài</td><td>"@
        + s.software
        + "</td><td>Đầy đủ công cụ làm việc</td></tr>"@
        + "\n                "@
}

/// The table rows of the master report for device number `n`.
pub open spec fn device_block(n: nat, s: SummaryView) -> Seq<char> {
    "\n                "@
        + header_row(n, s)
        + rows_between(s)
        + office_row(s)
        + closing_rows(s)
}

fn header_row_chars(n: u64, s: &DeviceSummary) -> (v: Vec<char>)
    ensures
        v@ == header_row(n as nat, s@),
{
    let mut v = chars_of("<tr class=\"machine-header-bar-row\"><td colspan=\"3\" class=\"machine-header-bar\">THIẾT BỊ ");
    let num = two_digits_exec(n);
    push_all(&mut v, &num);
    push_str(&mut v, ": ");
    push_str(&mut v, s.computer.as_str());
    push_str(&mut v, " (");
    push_str(&mut v, s.model.as_str());
    push_str(&mut v, ")</td></tr>");
    v
}

fn office_row_chars(s: &DeviceSummary) -> (v: Vec<char>)
    ensures
        v@ == office_row(s@),
{
    let mut v = chars_of("<tr><td>MS Office</td><td>");
    push_str(&mut v, s.office.as_str());
    push_str(&mut v, "</td><td>");
    let badge = if s.office_missing {
        "<span class=\"badge-warn\">Thiếu ứng dụng văn phòng</span>"
    } else {
        "<span class=\"badge-ok\">Bản quyền chính hãng</span>"
    };
    assert(badge@ == office_badge(s.office_missing));
    push_str(&mut v, badge);
    push_str(&mut v, "</td></tr>");
    v
}

fn rows_between_chars(s: &DeviceSummary) -> (v: Vec<char>)
    ensures
        v@ == rows_between(s@),
{
    let mut v = chars_of("\n                ");
    push_str(&mut v, "<tr class=\"section-header\"><td colspan=\"3\">1. TÊN NGƯỜI DÙNG / VỊ TRÍ PHÒNG BAN</td></tr>");
    push_str(&mut v, "\n                ");
    push_str(&mut v, "<tr><td>Tên máy tính</td><td>");
    push_str(&mut v, s.computer.as_str());
    push_str(&mut v, "</td><td><span class=\"badge-ok\">Đã định danh hệ thống</span></td></tr>");
    push_str(&mut v, "\n                ");
    push_str(&mut v, "<tr><td>Họ và tên người dùng</td><td>");
    push_str(&mut v, s.user.as_str());
    push_str(&mut v, "</td><td>Cần bổ sung nhân sự tiếp nhận</td></tr>");
    push_str(&mut v, "\n                ");
    push_str(&mut v, "<tr><td>Vị trí / Phòng ban</td><td>");
    push_str(&mut v, s.department.as_str());
    push_str(&mut v, "</td><td>Cần bổ sung thông tin quản lý</td></tr>");
    push_str(&mut v, "\n                ");
    push_str(&mut v, "<tr class=\"section-header\"><td colspan=\"3\">2. CẤU HÌNH PHẦN CỨNG</td></tr>");
    push_str(&mut v, "\n                ");
    push_str(&mut v, "<tr><td>Laptop / Model</td><td>");
    push_str(&mut v, s.model.as_str());
    push_str(&mut v, "</td><td>Dòng thiết bị văn phòng</td></tr>");
    push_str(&mut v, "\n                ");
    push_str(&mut v, "<tr><td>CPU</td><td>");
    push_str(&mut v, s.cpu.as_str());
    push_str(&mut v, "</td><td>Đáp ứng tốt tác vụ văn phòng</td></tr>");
    push_str(&mut v, "\n                ");
    push_str(&mut v, "<tr><td>RAM</td><td>");
    push_str(&mut v, s.ram.as_str());
    push_str(&mut v, "</td><td>Bình thường</td></tr>");
    push_str(&mut v, "\n                ");
    push_str(&mut v, "<tr><td>Ổ cứng</td><td>");
    push_str(&mut v, s.disk.as_str());
    push_str(&mut v, "</td><td>Tình trạng Healthy</td></tr>");
    push_str(&mut v, "\n                ");
    push_str(&mut v, "<tr class=\"section-header\"><td colspan=\"3\">3. PHẦN MỀM</td></tr>");
    push_str(&mut v, "\n                ");
    push_str(&mut v, "<tr><td>Windows</td><td>");
    push_str(&mut v, s.windows.as_str());
    push_str(&mut v, "</td><td>Bản quyền OEM / Volume hợp lệ</td></tr>");
    push_str(&mut v, "\n                ");
    v
}

fn closing_rows_chars(s: &DeviceSummary) -> (v: Vec<char>)
    ensures
        v@ == closing_rows(s@),
{
    let mut v = chars_of("\n                ");
    push_str(&mut v, "<tr><td>Kiểm tra bản quyền (KMS / Hosts)</td><td>");
    push_str(&mut v, s.kms.as_str());
    push_str(&mut v, "</td><td><span class=\"badge-ok\">An toàn, không dùng phần mềm bẻ khóa</span></td></tr>");
    push_str(&mut v, "\n                ");
    push_str(&mut v, "<tr><td>Ứng dụng đã cài</td><td>");
    push_str(&mut v, s.software.as_str());
    push_str(&mut v, "</td><td>Đầy đủ công cụ làm việc</td></tr>");
    push_str(&mut v, "\n                ");
    v
}

fn block_chars(n: u64, s: &DeviceSummary) -> (v: Vec<char>)
    ensures
        v@ == device_block(n as nat, s@),
{
    let mut v = chars_of("\n                ");
    let row = header_row_chars(n, s);
    push_all(&mut v, &row);
    let rows = rows_between_chars(s);
    push_all(&mut v, &rows);
    let row = office_row_chars(s);
    push_all(&mut v, &row);
    let rows = closing_rows_chars(s);
    push_all(&mut v, &rows);
    v
}

/// The table rows of the master report for device number `n`.
pub fn render_device_block(n: u64, s: &DeviceSummary) -> (r: String)
    ensures
        r@ == device_block(n as nat, s@),
{
    let v = block_chars(n, s);
    string_of(v.as_slice())
}

/// A report file: its name and its content.
pub struct ReportFile {
    pub name: String,
    pub content: String,
}

/// The rows of all devices, numbered from 1 in the order of the files.
pub open spec fn blocks_of(files: Seq<(Seq<char>, Seq<char>)>) -> Seq<char>
    decreases files.len(),
{
    if files.len() == 0 {
        Seq::empty()
    } else {
        let f = files.last();
        let st = scan_report(f.1);
        blocks_of(files.drop_last()) + device_block(
            files.len(),
            summary_of(f.0, st.fields, st.software),
        )
    }
}

/// The master report page around the device rows.
pub open spec fn master_page(blocks: Seq<char>) -> Seq<char> {
    "<!DOCTYPE html>\n<html lang=\"vi\">\n<head>\n    <meta charset=\"UTF-8\">\n    <title>Tầm soát Thiết bị &amp; Phần mềm - Báo cáo Tổng hợp</title>\n    <style>\n        body { font-family: Arial, sans-serif; background-color: #f1f5f9; color: #0f172a; margin: 0; padding: 40px 20px; }\n        .container { max-width: 960px; margin: 0 auto; background: #ffffff; padding: 35px; border-radius: 8px; box-shadow: 0 4px 12px rgba(0,0,0,0.08); }\n        h1 { color: #0f2942; text-align: center; margin-bottom: 25px; font-size: 24px; text-transform: uppercase; }\n        table { width: 100%; border-collapse: collapse; margin-bottom: 35px; }\n        th, td { border: 1px solid #cbd5e0; padding: 10px 14px; text-align: left; font-size: 14px; }\n        th { background-color: #e2e8f0; color: #1e293b; font-weight: bold; }\n        .machine-header-bar { background-color: #0f2942 !important; color: #ffffff !important; font-weight: bold; padding: 12px 14px; text-transform: uppercase; }\n        .section-header { background-color: #ebf8ff !important; font-weight: bold; color: #1e40af !important; }\n        .badge-warn { color: #c53030; font-weight: bold; }\n        .badge-ok { color: #2f855a; font-weight: bold; }\n        .styled-table { width: 100%; border-collapse: collapse; }\n        .styled-table th { text-align: center; padding: 14px 16px; background-color: #eef4fb; color: #0f172a; border-bottom: 2px solid #1e3a8a; }\n    </style>\n</head>\n<body>\n    <div class=\"container\">\n        <h1>Tầm soát Thiết bị &amp; Phần mềm</h1>  \n        <table class=\"styled-table\">\n            <thead>\n                <tr><th style=\"width: 35%;\">Tên linh kiện / Phần mềm</th><th style=\"width: 35%;\">Thông tin chi tiết</th><th style=\"width: 30%;\">Đánh giá sơ bộ</th></tr>\n            </thead>\n            <tbody>"@ + blocks + "</tbody>\n        </table>\n    </div>\n</body>\n</html>"@
}

/// The master report of the given report files: one numbered table section per
/// file, in the order given.
pub fn render_master_report(files: &Vec<ReportFile>) -> (page: String)
    ensures
        page@ == master_page(
            blocks_of(files@.map_values(|f: ReportFile| (f.name@, f.content@))),
        ),
{
    let ghost views = files@.map_values(|f: ReportFile| (f.name@, f.content@));
    let mut v: Vec<char> = Vec::new();
    push_str(&mut v, "<!DOCTYPE html>\n<html lang=\"vi\">\n<head>\n    <meta charset=\"UTF-8\">\n    <title>Tầm soát Thiết bị &amp; Phần mềm - Báo cáo Tổng hợp</title>\n    <style>\n        body { font-family: Arial, sans-serif; background-color: #f1f5f9; color: #0f172a; margin: 0; padding: 40px 20px; }\n        .container { max-width: 960px; margin: 0 auto; background: #ffffff; padding: 35px; border-radius: 8px; box-shadow: 0 4px 12px rgba(0,0,0,0.08); }\n        h1 { color: #0f2942; text-align: center; margin-bottom: 25px; font-size: 24px; text-transform: uppercase; }\n        table { width: 100%; border-collapse: collapse; margin-bottom: 35px; }\n        th, td { border: 1px solid #cbd5e0; padding: 10px 14px; text-align: left; font-size: 14px; }\n        th { background-color: #e2e8f0; color: #1e293b; font-weight: bold; }\n        .machine-header-bar { background-color: #0f2942 !important; color: #ffffff !important; font-weight: bold; padding: 12px 14px; text-transform: uppercase; }\n        .section-header { background-color: #ebf8ff !important; font-weight: bold; color: #1e40af !important; }\n        .badge-warn { color: #c53030; font-weight: bold; }\n        .badge-ok { color: #2f855a; font-weight: bold; }\n        .styled-table { width: 100%; border-collapse: collapse; }\n        .styled-table th { text-align: center; padding: 14px 16px; background-color: #eef4fb; color: #0f172a; border-bottom: 2px solid #1e3a8a; }\n    </style>\n</head>\n<body>\n    <div class=\"container\">\n        <h1>Tầm soát Thiết bị &amp; Phần mềm</h1>  \n        <table class=\"styled-table\">\n            <thead>\n                <tr><th style=\"width: 35%;\">Tên linh kiện / Phần mềm</th><th style=\"width: 35%;\">Thông tin chi tiết</th><th style=\"width: 30%;\">Đánh giá sơ bộ</th></tr>\n            </thead>\n            <tbody>");
    let ghost head = v@;
    let n = files.len();
    for i in 0..n
        invariant
            n == files@.len(),
            views == files@.map_values(|f: ReportFile| (f.name@, f.content@)),
            v@ == head + blocks_of(views.take(i as int)),
    {
        assert(views.take(i + 1).drop_last() =~= views.take(i as int));
        assert(views.take(i + 1).last() == views[i as int]);
        let s = summarize_device(files[i].name.as_str(), files[i].content.as_str());
        let block = block_chars((i + 1) as u64, &s);
        push_all(&mut v, &block);
        assert(v@ =~= head + blocks_of(views.take(i + 1)));
    }
    assert(views.take(n as int) =~= views);
    push_str(&mut v, "</tbody>\n        </table>\n    </div>\n</body>\n</html>");
    assert(v@ =~= master_page(blocks_of(views)));
    string_of(v.as_slice())
}

} // verus!
