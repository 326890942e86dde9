use vstd::prelude::*;

use crate::report::{
    blocks_of, closing_rows, device_block, field_value, header_row, office_badge, office_row,
    rows_between, scan_line, scan_lines, skip_bullets, software_name, opens_software,
    is_software_item, keeps_software, before_colon, strip_dashes, scan_report, summary_of, two_digits, value_or, ScanState,
    SummaryView,
};
use crate::log_laws::{lemma_find_at, lemma_find_none};
use crate::text::{
    back_spaces, contains, find_from, is_space, skip_spaces, join, lemma_find_from_bounds, matches_at, remove_all, trim,
};

verus! {

/// `piece` with `before` in front of it and `after` behind it.
pub open spec fn framed(before: Seq<char>, piece: Seq<char>, after: Seq<char>) -> Seq<char> {
    before + piece + after
}

/// What the master report says of a report file, read from that file alone.
pub open spec fn file_summary(f: (Seq<char>, Seq<char>)) -> SummaryView {
    summary_of(f.0, scan_report(f.1).fields, scan_report(f.1).software)
}

/// The rows of each device, one entry per report file in the order of the
/// files: entry `i` is numbered `i + 1` and made from file `i` alone.
pub open spec fn device_blocks(files: Seq<(Seq<char>, Seq<char>)>) -> Seq<Seq<char>> {
    Seq::new(files.len(), |i: int| device_block((i + 1) as nat, file_summary(files[i])))
}

/// The device rows of the master report are one block per report file, in the
/// order of the files, each numbered by its place and made from its own file
/// alone: nothing is carried over from one file to the next.
pub proof fn law_one_block_per_file(files: Seq<(Seq<char>, Seq<char>)>)
    ensures
        device_blocks(files).len() == files.len(),
        blocks_of(files) == device_blocks(files).flatten(),
    decreases files.len(),
{
    if files.len() == 0 {
        assert(device_blocks(files) =~= Seq::<Seq<char>>::empty());
    } else {
        let rest = files.drop_last();
        law_one_block_per_file(rest);
        let last = device_block(files.len(), file_summary(files.last()));
        assert(device_blocks(files) =~= device_blocks(rest).push(last));
        device_blocks(rest).lemma_flatten_push(last);
    }
}

/// Every device block opens with its heading row (its number, computer name
/// and model) and holds the office row (what the report says of the office
/// suite, with its badge), in this order, around the other rows.
pub proof fn law_block_rows(n: nat, s: SummaryView)
    ensures
        device_block(n, s) == "\n                "@ + header_row(n, s) + rows_between(s)
            + office_row(s) + closing_rows(s),
{
}

/// The heading row and the office row of a block, with what stands around
/// each, when the block stands between `front` and `back`.
#[verifier::spinoff_prover]
#[verifier::rlimit(40)]
proof fn lemma_rows_framed(front: Seq<char>, back: Seq<char>, n: nat, s: SummaryView)
    ensures
        front + device_block(n, s) + back == framed(
            front + "\n                "@,
            header_row(n, s),
            rows_between(s) + office_row(s) + closing_rows(s) + back,
        ),
        front + device_block(n, s) + back == framed(
            front + "\n                "@ + header_row(n, s) + rows_between(s),
            office_row(s),
            closing_rows(s) + back,
        ),
{
    let whole = front + device_block(n, s) + back;
    assert(whole =~= framed(
        front + "\n                "@,
        header_row(n, s),
        rows_between(s) + office_row(s) + closing_rows(s) + back,
    ));
    assert(whole =~= framed(
        front + "\n                "@ + header_row(n, s) + rows_between(s),
        office_row(s),
        closing_rows(s) + back,
    ));
}

/// The flattened blocks, split around the block at place `i`.
proof fn lemma_block_at(bs: Seq<Seq<char>>, i: int)
    requires
        0 <= i < bs.len(),
    ensures
        bs.flatten() == bs.take(i).flatten() + bs[i] + bs.skip(i + 1).flatten(),
{
    assert(bs =~= bs.take(i) + (seq![bs[i]] + bs.skip(i + 1)));
    vstd::seq_lib::lemma_flatten_concat(bs.take(i), seq![bs[i]] + bs.skip(i + 1));
    vstd::seq_lib::lemma_flatten_concat(seq![bs[i]], bs.skip(i + 1));
    seq![bs[i]].lemma_flatten_singleton();
    assert(bs.flatten() =~= bs.take(i).flatten() + bs[i] + bs.skip(i + 1).flatten());
}

/// In the device rows of the master report, device `i + 1` (the report file at
/// place `i`) has its heading row, numbered `i + 1`, and its office row, both
/// made from its own file.
pub proof fn law_rows_of_each_device(files: Seq<(Seq<char>, Seq<char>)>, i: int)
    requires
        0 <= i < files.len(),
    ensures
        exists|before: Seq<char>, after: Seq<char>|
            blocks_of(files) == #[trigger] framed(
                before,
                header_row((i + 1) as nat, file_summary(files[i])),
                after,
            ),
        exists|before: Seq<char>, after: Seq<char>|
            blocks_of(files) == #[trigger] framed(before, office_row(file_summary(files[i])), after),
{
    law_one_block_per_file(files);
    let bs = device_blocks(files);
    let s = file_summary(files[i]);
    let n = (i + 1) as nat;
    lemma_block_at(bs, i);
    assert(bs[i] == device_block(n, s));
    let front = bs.take(i).flatten();
    let back = bs.skip(i + 1).flatten();
    lemma_rows_framed(front, back, n, s);
}

// ---------------------------------------------------------------------------
// What each row of a device block shows, read from the device's own report.
// ---------------------------------------------------------------------------

/// A row of the report table: the label cell, the value cell, the note cell.
pub open spec fn table_row(label: Seq<char>, value: Seq<char>, note: Seq<char>) -> Seq<char> {
    "<tr><td>"@ + label + "</td><td>"@ + value + "</td><td>"@ + note + "</td></tr>"@
}

/// `whole` holds the table row with these three cells.
pub open spec fn has_row(whole: Seq<char>, label: Seq<char>, value: Seq<char>, note: Seq<char>) -> bool {
    exists|before: Seq<char>, after: Seq<char>|
        whole == #[trigger] framed(before, table_row(label, value, note), after)
}

proof fn lemma_has_row_within(
    a: Seq<char>,
    x: Seq<char>,
    b: Seq<char>,
    label: Seq<char>,
    value: Seq<char>,
    note: Seq<char>,
)
    requires
        has_row(x, label, value, note),
    ensures
        has_row(a + x + b, label, value, note),
{
    let (before, after) = choose|before: Seq<char>, after: Seq<char>|
        x == #[trigger] framed(before, table_row(label, value, note), after);
    assert(a + x + b =~= framed(a + before, table_row(label, value, note), after + b));
}

/// Which fields of a report feed each line of the device's summary: each line
/// shows the first field with its key, trying its keys in the order below,
/// else a fixed default; it reads no other key. A device without a computer
/// name is named after its file. The office suite is flagged as missing when
/// its value says `Not Found` or `Not Installed`.
pub proof fn law_summary_fields(
    name: Seq<char>,
    fields: Seq<(Seq<char>, Seq<char>)>,
    software: Seq<Seq<char>>,
)
    ensures
        ({
            let s = summary_of(name, fields, software);
            let office = value_or(
                field_value(fields, "MS Office Status (OSPP)"@),
                value_or(field_value(fields, "MS Office"@), "Chưa rõ"@),
            );
            &&& s.computer == value_or(
                field_value(fields, "Computer Name"@),
                value_or(
                    field_value(fields, "Tên máy tính"@),
                    remove_all(remove_all(name, "BaoCaoKiemKe_"@), ".xls"@),
                ),
            )
            &&& s.model == value_or(
                field_value(fields, "Manufacturer/Model"@),
                value_or(
                    field_value(fields, "Laptop / Model"@),
                    value_or(field_value(fields, "Model"@), "Thiết bị văn phòng"@),
                ),
            )
            &&& s.cpu == value_or(field_value(fields, "CPU"@), "Chưa rõ CPU"@)
            &&& s.ram == value_or(
                field_value(fields, "RAM Installed / Supported"@),
                value_or(field_value(fields, "RAM"@), "Chưa rõ RAM"@),
            )
            &&& s.disk == value_or(
                field_value(fields, "Disk Health"@),
                value_or(field_value(fields, "Ổ cứng"@), "Healthy"@),
            )
            &&& s.windows == value_or(
                field_value(fields, "Windows Status"@),
                value_or(field_value(fields, "Windows"@), "Bản quyền hợp lệ"@),
            )
            &&& s.office == office
            &&& s.kms == value_or(
                field_value(fields, "Local KMS Hack Check"@),
                value_or(field_value(fields, "Kiểm tra bản quyền (KMS / Hosts)"@), "Clean"@),
            )
            &&& s.user == value_or(
                field_value(fields, "Họ và tên người dùng"@),
                "[Chưa có dữ liệu]"@,
            )
            &&& s.department == value_or(
                field_value(fields, "Vị trí / Phòng ban"@),
                "[Chưa có dữ liệu]"@,
            )
            &&& s.software == if software.len() > 0 {
                join(software, ", "@)
            } else {
                "Đầy đủ trình duyệt và công cụ làm việc"@
            }
            &&& s.office_missing == (contains(office, "Not Found"@) || contains(
                office,
                "Not Installed"@,
            ))
        }),
{
}

/// The block of device `i + 1` in the master report is made from report file
/// `i`: it opens with the heading `THIẾT BỊ {i+1:02}: {computer} ({model})`, and
/// each labelled row shows the value read from that file's fields (the first
/// field with the row's key, trying its keys in order, else the default), with
/// the row's fixed note; the office row's note is the missing-suite warning when
/// the value says `Not Found` or `Not Installed`.
pub proof fn law_device_rows(files: Seq<(Seq<char>, Seq<char>)>, i: int)
    requires
        0 <= i < files.len(),
    ensures
        ({
            let name = files[i].0;
            let f = scan_report(files[i].1).fields;
            let sw = scan_report(files[i].1).software;
            let block = device_blocks(files)[i];
            let computer = value_or(
                field_value(f, "Computer Name"@),
                value_or(
                    field_value(f, "Tên máy tính"@),
                    remove_all(remove_all(name, "BaoCaoKiemKe_"@), ".xls"@),
                ),
            );
            let model = value_or(
                field_value(f, "Manufacturer/Model"@),
                value_or(
                    field_value(f, "Laptop / Model"@),
                    value_or(field_value(f, "Model"@), "Thiết bị văn phòng"@),
                ),
            );
            let office = value_or(
                field_value(f, "MS Office Status (OSPP)"@),
                value_or(field_value(f, "MS Office"@), "Chưa rõ"@),
            );
            &&& ("\n                "@
                + "<tr class=\"machine-header-bar-row\"><td colspan=\"3\" class=\"machine-header-bar\">THIẾT BỊ "@
                + two_digits((i + 1) as nat) + ": "@ + computer + " ("@ + model
                + ")</td></tr>"@).is_prefix_of(block)
            &&& has_row(
                block,
                "Tên máy tính"@,
                computer,
                "<span class=\"badge-ok\">Đã định danh hệ thống</span>"@,
            )
            &&& has_row(
                block,
                "Họ và tên người dùng"@,
                value_or(field_value(f, "Họ và tên người dùng"@), "[Chưa có dữ liệu]"@),
                "Cần bổ sung nhân sự tiếp nhận"@,
            )
            &&& has_row(
                block,
                "Vị trí / Phòng ban"@,
                value_or(field_value(f, "Vị trí / Phòng ban"@), "[Chưa có dữ liệu]"@),
                "Cần bổ sung thông tin quản lý"@,
            )
            &&& has_row(block, "Laptop / Model"@, model, "Dòng thiết bị văn phòng"@)
            &&& has_row(
                block,
                "CPU"@,
                value_or(field_value(f, "CPU"@), "Chưa rõ CPU"@),
                "Đáp ứng tốt tác vụ văn phòng"@,
            )
            &&& has_row(
                block,
                "RAM"@,
                value_or(
                    field_value(f, "RAM Installed / Supported"@),
                    value_or(field_value(f, "RAM"@), "Chưa rõ RAM"@),
                ),
                "Bình thường"@,
            )
            &&& has_row(
                block,
                "Ổ cứng"@,
                value_or(
                    field_value(f, "Disk Health"@),
                    value_or(field_value(f, "Ổ cứng"@), "Healthy"@),
                ),
                "Tình trạng Healthy"@,
            )
            &&& has_row(
                block,
                "Windows"@,
                value_or(
                    field_value(f, "Windows Status"@),
                    value_or(field_value(f, "Windows"@), "Bản quyền hợp lệ"@),
                ),
                "Bản quyền OEM / Volume hợp lệ"@,
            )
            &&& has_row(
                block,
                "MS Office"@,
                office,
                if contains(office, "Not Found"@) || contains(office, "Not Installed"@) {
                    "<span class=\"badge-warn\">Thiếu ứng dụng văn phòng</span>"@
                } else {
                    "<span class=\"badge-ok\">Bản quyền chính hãng</span>"@
                },
            )
            &&& has_row(
                block,
                "Kiểm tra bản quyền (KMS / Hosts)"@,
                value_or(
                    field_value(f, "Local KMS Hack Check"@),
                    value_or(field_value(f, "Kiểm tra bản quyền (KMS / Hosts)"@), "Clean"@),
                ),
                "<span class=\"badge-ok\">An toàn, không dùng phần mềm bẻ khóa</span>"@,
            )
            &&& has_row(
                block,
                "Ứng dụng đã cài"@,
                if sw.len() > 0 {
                    join(sw, ", "@)
                } else {
                    "Đầy đủ trình duyệt và công cụ làm việc"@
                },
                "Đầy đủ công cụ làm việc"@,
            )
        }),
{
    let s = file_summary(files[i]);
    let n = (i + 1) as nat;
    law_summary_fields(files[i].0, scan_report(files[i].1).fields, scan_report(files[i].1).software);
    assert(device_blocks(files)[i] == device_block(n, s));
    lemma_block_rows(n, s);
}

/// The heading and the rows of a device block, with the values of the summary.
#[verifier::spinoff_prover]
#[verifier::rlimit(40)]
proof fn lemma_block_rows(n: nat, s: SummaryView)
    ensures
        ("\n                "@
            + "<tr class=\"machine-header-bar-row\"><td colspan=\"3\" class=\"machine-header-bar\">THIẾT BỊ "@
            + two_digits(n) + ": "@ + s.computer + " ("@ + s.model
            + ")</td></tr>"@).is_prefix_of(device_block(n, s)),
        has_row(device_block(n, s), "Tên máy tính"@, s.computer, "<span class=\"badge-ok\">Đã định danh hệ thống</span>"@),
        has_row(device_block(n, s), "Họ và tên người dùng"@, s.user, "Cần bổ sung nhân sự tiếp nhận"@),
        has_row(device_block(n, s), "Vị trí / Phòng ban"@, s.department, "Cần bổ sung thông tin quản lý"@),
        has_row(device_block(n, s), "Laptop / Model"@, s.model, "Dòng thiết bị văn phòng"@),
        has_row(device_block(n, s), "CPU"@, s.cpu, "Đáp ứng tốt tác vụ văn phòng"@),
        has_row(device_block(n, s), "RAM"@, s.ram, "Bình thường"@),
        has_row(device_block(n, s), "Ổ cứng"@, s.disk, "Tình trạng Healthy"@),
        has_row(device_block(n, s), "Windows"@, s.windows, "Bản quyền OEM / Volume hợp lệ"@),
        has_row(device_block(n, s), "MS Office"@, s.office, office_badge(s.office_missing)),
        has_row(device_block(n, s), "Kiểm tra bản quyền (KMS / Hosts)"@, s.kms, "<span class=\"badge-ok\">An toàn, không dùng phần mềm bẻ khóa</span>"@),
        has_row(device_block(n, s), "Ứng dụng đã cài"@, s.software, "Đầy đủ công cụ làm việc"@),
{
    lemma_block_parts(n, s);
    lemma_row_computer(s);
    lemma_between_row_in_block(n, s, "Tên máy tính"@, s.computer, "<span class=\"badge-ok\">Đã định danh hệ thống</span>"@);
    lemma_row_user(s);
    lemma_between_row_in_block(n, s, "Họ và tên người dùng"@, s.user, "Cần bổ sung nhân sự tiếp nhận"@);
    lemma_row_department(s);
    lemma_between_row_in_block(n, s, "Vị trí / Phòng ban"@, s.department, "Cần bổ sung thông tin quản lý"@);
    lemma_row_model(s);
    lemma_between_row_in_block(n, s, "Laptop / Model"@, s.model, "Dòng thiết bị văn phòng"@);
    lemma_row_cpu(s);
    lemma_between_row_in_block(n, s, "CPU"@, s.cpu, "Đáp ứng tốt tác vụ văn phòng"@);
    lemma_row_ram(s);
    lemma_between_row_in_block(n, s, "RAM"@, s.ram, "Bình thường"@);
    lemma_row_disk(s);
    lemma_between_row_in_block(n, s, "Ổ cứng"@, s.disk, "Tình trạng Healthy"@);
    lemma_row_windows(s);
    lemma_between_row_in_block(n, s, "Windows"@, s.windows, "Bản quyền OEM / Volume hợp lệ"@);
    lemma_row_office(s);
    lemma_office_row_in_block(n, s);
    lemma_row_kms(s);
    lemma_closing_row_in_block(n, s, "Kiểm tra bản quyền (KMS / Hosts)"@, s.kms, "<span class=\"badge-ok\">An toàn, không dùng phần mềm bẻ khóa</span>"@);
    lemma_row_software(s);
    lemma_closing_row_in_block(n, s, "Ứng dụng đã cài"@, s.software, "Đầy đủ công cụ làm việc"@);
}

/// A device block is its heading, then its three groups of rows.
#[verifier::spinoff_prover]
proof fn lemma_block_parts(n: nat, s: SummaryView)
    ensures
        ("\n                "@ + header_row(n, s)).is_prefix_of(device_block(n, s)),
        device_block(n, s) == ("\n                "@ + header_row(n, s)) + rows_between(s) + (
        office_row(s) + closing_rows(s)),
        device_block(n, s) == ("\n                "@ + header_row(n, s)) + rows_between(s)
            + office_row(s) + closing_rows(s),
        device_block(n, s) == ("\n                "@ + header_row(n, s) + rows_between(s)
            + office_row(s)) + closing_rows(s) + Seq::<char>::empty(),
{
    let block = device_block(n, s);
    let head = "\n                "@ + header_row(n, s);
    let b = rows_between(s);
    let o = office_row(s);
    let c = closing_rows(s);
    assert(block == head + b + o + c);
    assert(block.subrange(0, head.len() as int) =~= head);
    assert(block =~= head + b + (o + c));
    assert(block =~= (head + b + o) + c + Seq::<char>::empty());
}

proof fn lemma_between_row_in_block(n: nat, s: SummaryView, label: Seq<char>, v: Seq<char>, note: Seq<char>)
    requires
        has_row(rows_between(s), label, v, note),
    ensures
        has_row(device_block(n, s), label, v, note),
{
    lemma_block_parts(n, s);
    lemma_has_row_within("\n                "@ + header_row(n, s), rows_between(s), office_row(s) + closing_rows(s), label, v, note);
}

proof fn lemma_office_row_in_block(n: nat, s: SummaryView)
    requires
        has_row(office_row(s), "MS Office"@, s.office, office_badge(s.office_missing)),
    ensures
        has_row(device_block(n, s), "MS Office"@, s.office, office_badge(s.office_missing)),
{
    lemma_block_parts(n, s);
    lemma_has_row_within("\n                "@ + header_row(n, s) + rows_between(s), office_row(s), closing_rows(s), "MS Office"@, s.office, office_badge(s.office_missing));
}

proof fn lemma_closing_row_in_block(n: nat, s: SummaryView, label: Seq<char>, v: Seq<char>, note: Seq<char>)
    requires
        has_row(closing_rows(s), label, v, note),
    ensures
        has_row(device_block(n, s), label, v, note),
{
    lemma_block_parts(n, s);
    lemma_has_row_within("\n                "@ + header_row(n, s) + rows_between(s) + office_row(s), closing_rows(s), Seq::<char>::empty(), label, v, note);
}

#[verifier::spinoff_prover]
#[verifier::rlimit(40)]
proof fn lemma_row_office(s: SummaryView)
    ensures
        has_row(office_row(s), "MS Office"@, s.office, office_badge(s.office_missing)),
{
    reveal_strlit("<tr><td>MS Office</td><td>");
    reveal_strlit("<tr><td>");
    reveal_strlit("MS Office");
    reveal_strlit("</td><td>");
    assert("<tr><td>MS Office</td><td>"@ =~= "<tr><td>"@ + "MS Office"@ + "</td><td>"@);
    assert(office_row(s) =~= framed(
        Seq::<char>::empty(),
        table_row("MS Office"@, s.office, office_badge(s.office_missing)),
        Seq::<char>::empty(),
    ));
}

#[verifier::spinoff_prover]
#[verifier::rlimit(40)]
proof fn lemma_row_computer(s: SummaryView)
    ensures
        has_row(rows_between(s), "Tên máy tính"@, s.computer, "<span class=\"badge-ok\">Đã định danh hệ thống</span>"@),
{
    reveal_strlit("<tr><td>Tên máy tính</td><td>");
    reveal_strlit("<tr><td>");
    reveal_strlit("Tên máy tính");
    reveal_strlit("</td><td>");
    reveal_strlit("</td><td><span class=\"badge-ok\">Đã định danh hệ thống</span></td></tr>");
    reveal_strlit("<span class=\"badge-ok\">Đã định danh hệ thống</span>");
    reveal_strlit("</td></tr>");
    assert("<tr><td>Tên máy tính</td><td>"@ =~= "<tr><td>"@ + "Tên máy tính"@ + "</td><td>"@);
    assert("</td><td><span class=\"badge-ok\">Đã định danh hệ thống</span></td></tr>"@ =~= "</td><td>"@ + "<span class=\"badge-ok\">Đã định danh hệ thống</span>"@ + "</td></tr>"@);
    let pre = "\n                "@ + "<tr class=\"section-header\"><td colspan=\"3\">1. TÊN NGƯỜI DÙNG / VỊ TRÍ PHÒNG BAN</td></tr>"@ + "\n                "@;
    let post = "\n                "@ + "<tr><td>Họ và tên người dùng</td><td>"@ + s.user + "</td><td>Cần bổ sung nhân sự tiếp nhận</td></tr>"@ + "\n                "@ + "<tr><td>Vị trí / Phòng ban</td><td>"@ + s.department + "</td><td>Cần bổ sung thông tin quản lý</td></tr>"@ + "\n                "@ + "<tr class=\"section-header\"><td colspan=\"3\">2. CẤU HÌNH PHẦN CỨNG</td></tr>"@ + "\n                "@ + "<tr><td>Laptop / Model</td><td>"@ + s.model + "</td><td>Dòng thiết bị văn phòng</td></tr>"@ + "\n                "@ + "<tr><td>CPU</td><td>"@ + s.cpu + "</td><td>Đáp ứng tốt tác vụ văn phòng</td></tr>"@ + "\n                "@ + "<tr><td>RAM</td><td>"@ + s.ram + "</td><td>Bình thường</td></tr>"@ + "\n                "@ + "<tr><td>Ổ cứng</td><td>"@ + s.disk + "</td><td>Tình trạng Healthy</td></tr>"@ + "\n                "@ + "<tr class=\"section-header\"><td colspan=\"3\">3. PHẦN MỀM</td></tr>"@ + "\n                "@ + "<tr><td>Windows</td><td>"@ + s.windows + "</td><td>Bản quyền OEM / Volume hợp lệ</td></tr>"@ + "\n                "@;
    assert(rows_between(s) =~= framed(pre, table_row("Tên máy tính"@, s.computer, "<span class=\"badge-ok\">Đã định danh hệ thống</span>"@), post));
}

#[verifier::spinoff_prover]
#[verifier::rlimit(40)]
proof fn lemma_row_user(s: SummaryView)
    ensures
        has_row(rows_between(s), "Họ và tên người dùng"@, s.user, "Cần bổ sung nhân sự tiếp nhận"@),
{
    reveal_strlit("<tr><td>Họ và tên người dùng</td><td>");
    reveal_strlit("<tr><td>");
    reveal_strlit("Họ và tên người dùng");
    reveal_strlit("</td><td>");
    reveal_strlit("</td><td>Cần bổ sung nhân sự tiếp nhận</td></tr>");
    reveal_strlit("Cần bổ sung nhân sự tiếp nhận");
    reveal_strlit("</td></tr>");
    assert("<tr><td>Họ và tên người dùng</td><td>"@ =~= "<tr><td>"@ + "Họ và tên người dùng"@ + "</td><td>"@);
    assert("</td><td>Cần bổ sung nhân sự tiếp nhận</td></tr>"@ =~= "</td><td>"@ + "Cần bổ sung nhân sự tiếp nhận"@ + "</td></tr>"@);
    let pre = "\n                "@ + "<tr class=\"section-header\"><td colspan=\"3\">1. TÊN NGƯỜI DÙNG / VỊ TRÍ PHÒNG BAN</td></tr>"@ + "\n                "@ + "<tr><td>Tên máy tính</td><td>"@ + s.computer + "</td><td><span class=\"badge-ok\">Đã định danh hệ thống</span></td></tr>"@ + "\n                "@;
    let post = "\n                "@ + "<tr><td>Vị trí / Phòng ban</td><td>"@ + s.department + "</td><td>Cần bổ sung thông tin quản lý</td></tr>"@ + "\n                "@ + "<tr class=\"section-header\"><td colspan=\"3\">2. CẤU HÌNH PHẦN CỨNG</td></tr>"@ + "\n                "@ + "<tr><td>Laptop / Model</td><td>"@ + s.model + "</td><td>Dòng thiết bị văn phòng</td></tr>"@ + "\n                "@ + "<tr><td>CPU</td><td>"@ + s.cpu + "</td><td>Đáp ứng tốt tác vụ văn phòng</td></tr>"@ + "\n                "@ + "<tr><td>RAM</td><td>"@ + s.ram + "</td><td>Bình thường</td></tr>"@ + "\n                "@ + "<tr><td>Ổ cứng</td><td>"@ + s.disk + "</td><td>Tình trạng Healthy</td></tr>"@ + "\n                "@ + "<tr class=\"section-header\"><td colspan=\"3\">3. PHẦN MỀM</td></tr>"@ + "\n                "@ + "<tr><td>Windows</td><td>"@ + s.windows + "</td><td>Bản quyền OEM / Volume hợp lệ</td></tr>"@ + "\n                "@;
    assert(rows_between(s) =~= framed(pre, table_row("Họ và tên người dùng"@, s.user, "Cần bổ sung nhân sự tiếp nhận"@), post));
}

#[verifier::spinoff_prover]
#[verifier::rlimit(40)]
proof fn lemma_row_department(s: SummaryView)
    ensures
        has_row(rows_between(s), "Vị trí / Phòng ban"@, s.department, "Cần bổ sung thông tin quản lý"@),
{
    reveal_strlit("<tr><td>Vị trí / Phòng ban</td><td>");
    reveal_strlit("<tr><td>");
    reveal_strlit("Vị trí / Phòng ban");
    reveal_strlit("</td><td>");
    reveal_strlit("</td><td>Cần bổ sung thông tin quản lý</td></tr>");
    reveal_strlit("Cần bổ sung thông tin quản lý");
    reveal_strlit("</td></tr>");
    assert("<tr><td>Vị trí / Phòng ban</td><td>"@ =~= "<tr><td>"@ + "Vị trí / Phòng ban"@ + "</td><td>"@);
    assert("</td><td>Cần bổ sung thông tin quản lý</td></tr>"@ =~= "</td><td>"@ + "Cần bổ sung thông tin quản lý"@ + "</td></tr>"@);
    let pre = "\n                "@ + "<tr class=\"section-header\"><td colspan=\"3\">1. TÊN NGƯỜI DÙNG / VỊ TRÍ PHÒNG BAN</td></tr>"@ + "\n                "@ + "<tr><td>Tên máy tính</td><td>"@ + s.computer + "</td><td><span class=\"badge-ok\">Đã định danh hệ thống</span></td></tr>"@ + "\n                "@ + "<tr><td>Họ và tên người dùng</td><td>"@ + s.user + "</td><td>Cần bổ sung nhân sự tiếp nhận</td></tr>"@ + "\n                "@;
    let post = "\n                "@ + "<tr class=\"section-header\"><td colspan=\"3\">2. CẤU HÌNH PHẦN CỨNG</td></tr>"@ + "\n                "@ + "<tr><td>Laptop / Model</td><td>"@ + s.model + "</td><td>Dòng thiết bị văn phòng</td></tr>"@ + "\n                "@ + "<tr><td>CPU</td><td>"@ + s.cpu + "</td><td>Đáp ứng tốt tác vụ văn phòng</td></tr>"@ + "\n                "@ + "<tr><td>RAM</td><td>"@ + s.ram + "</td><td>Bình thường</td></tr>"@ + "\n                "@ + "<tr><td>Ổ cứng</td><td>"@ + s.disk + "</td><td>Tình trạng Healthy</td></tr>"@ + "\n                "@ + "<tr class=\"section-header\"><td colspan=\"3\">3. PHẦN MỀM</td></tr>"@ + "\n                "@ + "<tr><td>Windows</td><td>"@ + s.windows + "</td><td>Bản quyền OEM / Volume hợp lệ</td></tr>"@ + "\n                "@;
    assert(rows_between(s) =~= framed(pre, table_row("Vị trí / Phòng ban"@, s.department, "Cần bổ sung thông tin quản lý"@), post));
}

#[verifier::spinoff_prover]
#[verifier::rlimit(40)]
proof fn lemma_row_model(s: SummaryView)
    ensures
        has_row(rows_between(s), "Laptop / Model"@, s.model, "Dòng thiết bị văn phòng"@),
{
    reveal_strlit("<tr><td>Laptop / Model</td><td>");
    reveal_strlit("<tr><td>");
    reveal_strlit("Laptop / Model");
    reveal_strlit("</td><td>");
    reveal_strlit("</td><td>Dòng thiết bị văn phòng</td></tr>");
    reveal_strlit("Dòng thiết bị văn phòng");
    reveal_strlit("</td></tr>");
    assert("<tr><td>Laptop / Model</td><td>"@ =~= "<tr><td>"@ + "Laptop / Model"@ + "</td><td>"@);
    assert("</td><td>Dòng thiết bị văn phòng</td></tr>"@ =~= "</td><td>"@ + "Dòng thiết bị văn phòng"@ + "</td></tr>"@);
    let pre = "\n                "@ + "<tr class=\"section-header\"><td colspan=\"3\">1. TÊN NGƯỜI DÙNG / VỊ TRÍ PHÒNG BAN</td></tr>"@ + "\n                "@ + "<tr><td>Tên máy tính</td><td>"@ + s.computer + "</td><td><span class=\"badge-ok\">Đã định danh hệ thống</span></td></tr>"@ + "\n                "@ + "<tr><td>Họ và tên người dùng</td><td>"@ + s.user + "</td><td>Cần bổ sung nhân sự tiếp nhận</td></tr>"@ + "\n                "@ + "<tr><td>Vị trí / Phòng ban</td><td>"@ + s.department + "</td><td>Cần bổ sung thông tin quản lý</td></tr>"@ + "\n                "@ + "<tr class=\"section-header\"><td colspan=\"3\">2. CẤU HÌNH PHẦN CỨNG</td></tr>"@ + "\n                "@;
    let post = "\n                "@ + "<tr><td>CPU</td><td>"@ + s.cpu + "</td><td>Đáp ứng tốt tác vụ văn phòng</td></tr>"@ + "\n                "@ + "<tr><td>RAM</td><td>"@ + s.ram + "</td><td>Bình thường</td></tr>"@ + "\n                "@ + "<tr><td>Ổ cứng</td><td>"@ + s.disk + "</td><td>Tình trạng Healthy</td></tr>"@ + "\n                "@ + "<tr class=\"section-header\"><td colspan=\"3\">3. PHẦN MỀM</td></tr>"@ + "\n                "@ + "<tr><td>Windows</td><td>"@ + s.windows + "</td><td>Bản quyền OEM / Volume hợp lệ</td></tr>"@ + "\n                "@;
    assert(rows_between(s) =~= framed(pre, table_row("Laptop / Model"@, s.model, "Dòng thiết bị văn phòng"@), post));
}

#[verifier::spinoff_prover]
#[verifier::rlimit(40)]
proof fn lemma_row_cpu(s: SummaryView)
    ensures
        has_row(rows_between(s), "CPU"@, s.cpu, "Đáp ứng tốt tác vụ văn phòng"@),
{
    reveal_strlit("<tr><td>CPU</td><td>");
    reveal_strlit("<tr><td>");
    reveal_strlit("CPU");
    reveal_strlit("</td><td>");
    reveal_strlit("</td><td>Đáp ứng tốt tác vụ văn phòng</td></tr>");
    reveal_strlit("Đáp ứng tốt tác vụ văn phòng");
    reveal_strlit("</td></tr>");
    assert("<tr><td>CPU</td><td>"@ =~= "<tr><td>"@ + "CPU"@ + "</td><td>"@);
    assert("</td><td>Đáp ứng tốt tác vụ văn phòng</td></tr>"@ =~= "</td><td>"@ + "Đáp ứng tốt tác vụ văn phòng"@ + "</td></tr>"@);
    let pre = "\n                "@ + "<tr class=\"section-header\"><td colspan=\"3\">1. TÊN NGƯỜI DÙNG / VỊ TRÍ PHÒNG BAN</td></tr>"@ + "\n                "@ + "<tr><td>Tên máy tính</td><td>"@ + s.computer + "</td><td><span class=\"badge-ok\">Đã định danh hệ thống</span></td></tr>"@ + "\n                "@ + "<tr><td>Họ và tên người dùng</td><td>"@ + s.user + "</td><td>Cần bổ sung nhân sự tiếp nhận</td></tr>"@ + "\n                "@ + "<tr><td>Vị trí / Phòng ban</td><td>"@ + s.department + "</td><td>Cần bổ sung thông tin quản lý</td></tr>"@ + "\n                "@ + "<tr class=\"section-header\"><td colspan=\"3\">2. CẤU HÌNH PHẦN CỨNG</td></tr>"@ + "\n                "@ + "<tr><td>Laptop / Model</td><td>"@ + s.model + "</td><td>Dòng thiết bị văn phòng</td></tr>"@ + "\n                "@;
    let post = "\n                "@ + "<tr><td>RAM</td><td>"@ + s.ram + "</td><td>Bình thường</td></tr>"@ + "\n                "@ + "<tr><td>Ổ cứng</td><td>"@ + s.disk + "</td><td>Tình trạng Healthy</td></tr>"@ + "\n                "@ + "<tr class=\"section-header\"><td colspan=\"3\">3. PHẦN MỀM</td></tr>"@ + "\n                "@ + "<tr><td>Windows</td><td>"@ + s.windows + "</td><td>Bản quyền OEM / Volume hợp lệ</td></tr>"@ + "\n                "@;
    assert(rows_between(s) =~= framed(pre, table_row("CPU"@, s.cpu, "Đáp ứng tốt tác vụ văn phòng"@), post));
}

#[verifier::spinoff_prover]
#[verifier::rlimit(40)]
proof fn lemma_row_ram(s: SummaryView)
    ensures
        has_row(rows_between(s), "RAM"@, s.ram, "Bình thường"@),
{
    reveal_strlit("<tr><td>RAM</td><td>");
    reveal_strlit("<tr><td>");
    reveal_strlit("RAM");
    reveal_strlit("</td><td>");
    reveal_strlit("</td><td>Bình thường</td></tr>");
    reveal_strlit("Bình thường");
    reveal_strlit("</td></tr>");
    assert("<tr><td>RAM</td><td>"@ =~= "<tr><td>"@ + "RAM"@ + "</td><td>"@);
    assert("</td><td>Bình thường</td></tr>"@ =~= "</td><td>"@ + "Bình thường"@ + "</td></tr>"@);
    let pre = "\n                "@ + "<tr class=\"section-header\"><td colspan=\"3\">1. TÊN NGƯỜI DÙNG / VỊ TRÍ PHÒNG BAN</td></tr>"@ + "\n                "@ + "<tr><td>Tên máy tính</td><td>"@ + s.computer + "</td><td><span class=\"badge-ok\">Đã định danh hệ thống</span></td></tr>"@ + "\n                "@ + "<tr><td>Họ và tên người dùng</td><td>"@ + s.user + "</td><td>Cần bổ sung nhân sự tiếp nhận</td></tr>"@ + "\n                "@ + "<tr><td>Vị trí / Phòng ban</td><td>"@ + s.department + "</td><td>Cần bổ sung thông tin quản lý</td></tr>"@ + "\n                "@ + "<tr class=\"section-header\"><td colspan=\"3\">2. CẤU HÌNH PHẦN CỨNG</td></tr>"@ + "\n                "@ + "<tr><td>Laptop / Model</td><td>"@ + s.model + "</td><td>Dòng thiết bị văn phòng</td></tr>"@ + "\n                "@ + "<tr><td>CPU</td><td>"@ + s.cpu + "</td><td>Đáp ứng tốt tác vụ văn phòng</td></tr>"@ + "\n                "@;
    let post = "\n                "@ + "<tr><td>Ổ cứng</td><td>"@ + s.disk + "</td><td>Tình trạng Healthy</td></tr>"@ + "\n                "@ + "<tr class=\"section-header\"><td colspan=\"3\">3. PHẦN MỀM</td></tr>"@ + "\n                "@ + "<tr><td>Windows</td><td>"@ + s.windows + "</td><td>Bản quyền OEM / Volume hợp lệ</td></tr>"@ + "\n                "@;
    assert(rows_between(s) =~= framed(pre, table_row("RAM"@, s.ram, "Bình thường"@), post));
}

#[verifier::spinoff_prover]
#[verifier::rlimit(40)]
proof fn lemma_row_disk(s: SummaryView)
    ensures
        has_row(rows_between(s), "Ổ cứng"@, s.disk, "Tình trạng Healthy"@),
{
    reveal_strlit("<tr><td>Ổ cứng</td><td>");
    reveal_strlit("<tr><td>");
    reveal_strlit("Ổ cứng");
    reveal_strlit("</td><td>");
    reveal_strlit("</td><td>Tình trạng Healthy</td></tr>");
    reveal_strlit("Tình trạng Healthy");
    reveal_strlit("</td></tr>");
    assert("<tr><td>Ổ cứng</td><td>"@ =~= "<tr><td>"@ + "Ổ cứng"@ + "</td><td>"@);
    assert("</td><td>Tình trạng Healthy</td></tr>"@ =~= "</td><td>"@ + "Tình trạng Healthy"@ + "</td></tr>"@);
    let pre = "\n                "@ + "<tr class=\"section-header\"><td colspan=\"3\">1. TÊN NGƯỜI DÙNG / VỊ TRÍ PHÒNG BAN</td></tr>"@ + "\n                "@ + "<tr><td>Tên máy tính</td><td>"@ + s.computer + "</td><td><span class=\"badge-ok\">Đã định danh hệ thống</span></td></tr>"@ + "\n                "@ + "<tr><td>Họ và tên người dùng</td><td>"@ + s.user + "</td><td>Cần bổ sung nhân sự tiếp nhận</td></tr>"@ + "\n                "@ + "<tr><td>Vị trí / Phòng ban</td><td>"@ + s.department + "</td><td>Cần bổ sung thông tin quản lý</td></tr>"@ + "\n                "@ + "<tr class=\"section-header\"><td colspan=\"3\">2. CẤU HÌNH PHẦN CỨNG</td></tr>"@ + "\n                "@ + "<tr><td>Laptop / Model</td><td>"@ + s.model + "</td><td>Dòng thiết bị văn phòng</td></tr>"@ + "\n                "@ + "<tr><td>CPU</td><td>"@ + s.cpu + "</td><td>Đáp ứng tốt tác vụ văn phòng</td></tr>"@ + "\n                "@ + "<tr><td>RAM</td><td>"@ + s.ram + "</td><td>Bình thường</td></tr>"@ + "\n                "@;
    let post = "\n                "@ + "<tr class=\"section-header\"><td colspan=\"3\">3. PHẦN MỀM</td></tr>"@ + "\n                "@ + "<tr><td>Windows</td><td>"@ + s.windows + "</td><td>Bản quyền OEM / Volume hợp lệ</td></tr>"@ + "\n                "@;
    assert(rows_between(s) =~= framed(pre, table_row("Ổ cứng"@, s.disk, "Tình trạng Healthy"@), post));
}

#[verifier::spinoff_prover]
#[verifier::rlimit(40)]
proof fn lemma_row_windows(s: SummaryView)
    ensures
        has_row(rows_between(s), "Windows"@, s.windows, "Bản quyền OEM / Volume hợp lệ"@),
{
    reveal_strlit("<tr><td>Windows</td><td>");
    reveal_strlit("<tr><td>");
    reveal_strlit("Windows");
    reveal_strlit("</td><td>");
    reveal_strlit("</td><td>Bản quyền OEM / Volume hợp lệ</td></tr>");
    reveal_strlit("Bản quyền OEM / Volume hợp lệ");
    reveal_strlit("</td></tr>");
    assert("<tr><td>Windows</td><td>"@ =~= "<tr><td>"@ + "Windows"@ + "</td><td>"@);
    assert("</td><td>Bản quyền OEM / Volume hợp lệ</td></tr>"@ =~= "</td><td>"@ + "Bản quyền OEM / Volume hợp lệ"@ + "</td></tr>"@);
    let pre = "\n                "@ + "<tr class=\"section-header\"><td colspan=\"3\">1. TÊN NGƯỜI DÙNG / VỊ TRÍ PHÒNG BAN</td></tr>"@ + "\n                "@ + "<tr><td>Tên máy tính</td><td>"@ + s.computer + "</td><td><span class=\"badge-ok\">Đã định danh hệ thống</span></td></tr>"@ + "\n                "@ + "<tr><td>Họ và tên người dùng</td><td>"@ + s.user + "</td><td>Cần bổ sung nhân sự tiếp nhận</td></tr>"@ + "\n                "@ + "<tr><td>Vị trí / Phòng ban</td><td>"@ + s.department + "</td><td>Cần bổ sung thông tin quản lý</td></tr>"@ + "\n                "@ + "<tr class=\"section-header\"><td colspan=\"3\">2. CẤU HÌNH PHẦN CỨNG</td></tr>"@ + "\n                "@ + "<tr><td>Laptop / Model</td><td>"@ + s.model + "</td><td>Dòng thiết bị văn phòng</td></tr>"@ + "\n                "@ + "<tr><td>CPU</td><td>"@ + s.cpu + "</td><td>Đáp ứng tốt tác vụ văn phòng</td></tr>"@ + "\n                "@ + "<tr><td>RAM</td><td>"@ + s.ram + "</td><td>Bình thường</td></tr>"@ + "\n                "@ + "<tr><td>Ổ cứng</td><td>"@ + s.disk + "</td><td>Tình trạng Healthy</td></tr>"@ + "\n                "@ + "<tr class=\"section-header\"><td colspan=\"3\">3. PHẦN MỀM</td></tr>"@ + "\n                "@;
    let post = "\n                "@;
    assert(rows_between(s) =~= framed(pre, table_row("Windows"@, s.windows, "Bản quyền OEM / Volume hợp lệ"@), post));
}

#[verifier::spinoff_prover]
#[verifier::rlimit(40)]
proof fn lemma_row_kms(s: SummaryView)
    ensures
        has_row(closing_rows(s), "Kiểm tra bản quyền (KMS / Hosts)"@, s.kms, "<span class=\"badge-ok\">An toàn, không dùng phần mềm bẻ khóa</span>"@),
{
    reveal_strlit("<tr><td>Kiểm tra bản quyền (KMS / Hosts)</td><td>");
    reveal_strlit("<tr><td>");
    reveal_strlit("Kiểm tra bản quyền (KMS / Hosts)");
    reveal_strlit("</td><td>");
    reveal_strlit("</td><td><span class=\"badge-ok\">An toàn, không dùng phần mềm bẻ khóa</span></td></tr>");
    reveal_strlit("<span class=\"badge-ok\">An toàn, không dùng phần mềm bẻ khóa</span>");
    reveal_strlit("</td></tr>");
    assert("<tr><td>Kiểm tra bản quyền (KMS / Hosts)</td><td>"@ =~= "<tr><td>"@ + "Kiểm tra bản quyền (KMS / Hosts)"@ + "</td><td>"@);
    assert("</td><td><span class=\"badge-ok\">An toàn, không dùng phần mềm bẻ khóa</span></td></tr>"@ =~= "</td><td>"@ + "<span class=\"badge-ok\">An toàn, không dùng phần mềm bẻ khóa</span>"@ + "</td></tr>"@);
    let pre = "\n                "@;
    let post = "\n                "@ + "<tr><td>Ứng dụng đã cài</td><td>"@ + s.software + "</td><td>Đầy đủ công cụ làm việc</td></tr>"@ + "\n                "@;
    assert(closing_rows(s) =~= framed(pre, table_row("Kiểm tra bản quyền (KMS / Hosts)"@, s.kms, "<span class=\"badge-ok\">An toàn, không dùng phần mềm bẻ khóa</span>"@), post));
}

#[verifier::spinoff_prover]
#[verifier::rlimit(40)]
proof fn lemma_row_software(s: SummaryView)
    ensures
        has_row(closing_rows(s), "Ứng dụng đã cài"@, s.software, "Đầy đủ công cụ làm việc"@),
{
    reveal_strlit("<tr><td>Ứng dụng đã cài</td><td>");
    reveal_strlit("<tr><td>");
    reveal_strlit("Ứng dụng đã cài");
    reveal_strlit("</td><td>");
    reveal_strlit("</td><td>Đầy đủ công cụ làm việc</td></tr>");
    reveal_strlit("Đầy đủ công cụ làm việc");
    reveal_strlit("</td></tr>");
    assert("<tr><td>Ứng dụng đã cài</td><td>"@ =~= "<tr><td>"@ + "Ứng dụng đã cài"@ + "</td><td>"@);
    assert("</td><td>Đầy đủ công cụ làm việc</td></tr>"@ =~= "</td><td>"@ + "Đầy đủ công cụ làm việc"@ + "</td></tr>"@);
    let pre = "\n                "@ + "<tr><td>Kiểm tra bản quyền (KMS / Hosts)</td><td>"@ + s.kms + "</td><td><span class=\"badge-ok\">An toàn, không dùng phần mềm bẻ khóa</span></td></tr>"@ + "\n                "@;
    let post = "\n                "@;
    assert(closing_rows(s) =~= framed(pre, table_row("Ứng dụng đã cài"@, s.software, "Đầy đủ công cụ làm việc"@), post));
}

// ---------------------------------------------------------------------------
// The software section of a device report.
// ---------------------------------------------------------------------------

/// A line whose trimmed text contains `Phần mềm`, `Ứng dụng` or `[Software]`
/// opens the software section, and records nothing else.
pub proof fn law_software_heading_opens_section(st: ScanState, line: Seq<char>)
    requires
        contains(trim(line), "Phần mềm"@) || contains(trim(line), "Ứng dụng"@) || contains(
            trim(line),
            "[Software]"@,
        ),
    ensures
        scan_line(st, line) == (ScanState {
            in_software: true,
            fields: st.fields,
            software: st.software,
        }),
{
}

/// `p + x` holds no occurrence of `pat` when `x` holds none and no character
/// of `p` is the first character of `pat`.
#[verifier::spinoff_prover]
#[verifier::rlimit(40)]
proof fn lemma_no_match_after_prefix(p: Seq<char>, x: Seq<char>, pat: Seq<char>)
    requires
        pat.len() > 0,
        !contains(x, pat),
        forall|j: int| 0 <= j < p.len() ==> p[j] != pat[0],
    ensures
        !contains(p + x, pat),
{
    lemma_find_from_bounds(x, pat, 0);
    let w = p + x;
    assert forall|j: int| 0 <= j < w.len() implies !matches_at(w, pat, j) by {
        if matches_at(w, pat, j) {
            if j < p.len() {
                assert(w.subrange(j, j + pat.len())[0] == w[j]);
            } else {
                assert(x.subrange(j - p.len(), j - p.len() + pat.len()) =~= w.subrange(
                    j,
                    j + pat.len(),
                ));
                assert(matches_at(x, pat, j - p.len()));
            }
        }
    }
    lemma_find_none(w, pat, 0);
}

/// Inside the software section, a line `- X` lists the program `X`, when `X`
/// is a plain name: not empty, without white space at its ends, not opening
/// with a bullet character (`-`, `.`, a digit), without `:`, not a table
/// heading (`Tên linh kiện`, `CẤU HÌNH`) and not a section heading itself.
#[verifier::spinoff_prover]
#[verifier::rlimit(40)]
pub proof fn law_listed_program(st: ScanState, x: Seq<char>)
    requires
        st.in_software,
        x.len() > 0,
        !is_space(x[0]),
        !is_space(x[x.len() - 1]),
        x[0] != '-',
        x[0] != '.',
        !('0' <= x[0] && x[0] <= '9'),
        !contains(x, ":"@),
        !contains(x, "Tên linh kiện"@),
        !contains(x, "CẤU HÌNH"@),
        !contains(x, "Phần mềm"@),
        !contains(x, "Ứng dụng"@),
        !contains(x, "[Software]"@),
    ensures
        scan_line(st, "- "@ + x) == (ScanState {
            in_software: true,
            fields: st.fields,
            software: st.software.push(x),
        }),
{
    reveal_strlit("- ");
    reveal_strlit("Phần mềm");
    reveal_strlit("Ứng dụng");
    reveal_strlit("[Software]");
    let l = "- "@ + x;
    assert(l[0] == '-' && l[1] == ' ' && l[2] == x[0] && l[l.len() - 1] == x[x.len() - 1]);
    assert(trim(l) == l) by {
        assert(l.subrange(0, l.len() as int) =~= l);
    }
    lemma_no_match_after_prefix("- "@, x, "Phần mềm"@);
    lemma_no_match_after_prefix("- "@, x, "Ứng dụng"@);
    lemma_no_match_after_prefix("- "@, x, "[Software]"@);
    assert(l.subrange(2, l.len() as int) =~= x);
    assert(find_from(x, ":"@, 0) is None);
    assert(trim(x) == x) by {
        assert(x.subrange(0, x.len() as int) =~= x);
    }
    assert(!opens_software(trim(l)));
    assert(is_software_item(trim(l)));
    assert(skip_bullets(l, 2) == 2);
    assert(skip_bullets(l, 1) == 2);
    assert(skip_bullets(l, 0) == 2);
    assert(before_colon(x) == x);
    assert(software_name(l) == x);
    assert(keeps_software(x));
}

/// A report whose lines so far are `ls`, followed by a section heading (a line
/// containing `Phần mềm`, `Ứng dụng` or `[Software]`) and a line `- X` naming a
/// plain program `X`, lists `X` after the programs listed so far.
pub proof fn law_heading_then_program(ls: Seq<Seq<char>>, heading: Seq<char>, x: Seq<char>)
    requires
        contains(trim(heading), "Phần mềm"@) || contains(trim(heading), "Ứng dụng"@)
            || contains(trim(heading), "[Software]"@),
        x.len() > 0,
        !is_space(x[0]),
        !is_space(x[x.len() - 1]),
        x[0] != '-',
        x[0] != '.',
        !('0' <= x[0] && x[0] <= '9'),
        !contains(x, ":"@),
        !contains(x, "Tên linh kiện"@),
        !contains(x, "CẤU HÌNH"@),
        !contains(x, "Phần mềm"@),
        !contains(x, "Ứng dụng"@),
        !contains(x, "[Software]"@),
    ensures
        scan_lines(ls.push(heading).push("- "@ + x)).software == scan_lines(ls).software.push(x),
{
    let a = ls.push(heading);
    let b = a.push("- "@ + x);
    assert(b.drop_last() =~= a);
    assert(a.drop_last() =~= ls);
    law_software_heading_opens_section(scan_lines(ls), heading);
    law_listed_program(scan_lines(a), x);
}

/// A line `K: V` records the field `K` with value `V`, when `K` and `V` are
/// plain texts: not empty, without white space at their ends, `K` without `:`
/// and not opening with a dash or a digit, and the line naming no section
/// heading. Other fields and the software list stay as they were.
#[verifier::spinoff_prover]
#[verifier::rlimit(40)]
pub proof fn law_field_line(st: ScanState, k: Seq<char>, v: Seq<char>)
    requires
        k.len() > 0,
        v.len() > 0,
        !is_space(k[0]),
        !is_space(k[k.len() - 1]),
        !is_space(v[0]),
        !is_space(v[v.len() - 1]),
        k[0] != '-',
        !('0' <= k[0] && k[0] <= '9'),
        !contains(k, ":"@),
        !contains(k + ": "@ + v, "Phần mềm"@),
        !contains(k + ": "@ + v, "Ứng dụng"@),
        !contains(k + ": "@ + v, "[Software]"@),
    ensures
        scan_line(st, k + ": "@ + v) == (ScanState {
            in_software: st.in_software,
            fields: st.fields.push((k, v)),
            software: st.software,
        }),
{
    reveal_strlit(": ");
    reveal_strlit(":");
    let l = k + ": "@ + v;
    let n = k.len() as int;
    assert(l[0] == k[0] && l[l.len() - 1] == v[v.len() - 1]);
    assert(l[n] == ':' && l[n + 1] == ' ');
    assert(trim(l) == l) by {
        assert(l.subrange(0, l.len() as int) =~= l);
    }
    assert(!opens_software(trim(l)));
    assert(!is_software_item(trim(l)));
    lemma_find_from_bounds(k, ":"@, 0);
    assert forall|j: int| 0 <= j < n implies !matches_at(l, ":"@, j) by {
        if matches_at(l, ":"@, j) {
            assert(l.subrange(j, j + 1)[0] == l[j]);
            assert(k.subrange(j, j + 1) =~= l.subrange(j, j + 1));
            assert(matches_at(k, ":"@, j));
        }
    }
    assert(l.subrange(n, n + 1) =~= ":"@);
    lemma_find_at(l, ":"@, 0, n);
    assert(l.subrange(0, n) =~= k);
    assert(trim(k) == k) by {
        assert(k.subrange(0, n) =~= k);
    }
    assert(strip_dashes(k) == k);
    let rest = l.subrange(n + 1, l.len() as int);
    assert(rest[0] == ' ');
    assert(rest.subrange(1, rest.len() as int) =~= v);
    assert(trim(rest) == v) by {
        let r = rest;
        assert(r[r.len() - 1] == v[v.len() - 1]);
        assert(r[1] == v[0]);
        assert(is_space(r[0]));
        assert(skip_spaces(r, 1) == 1);
        assert(skip_spaces(r, 0) == 1);
        assert(back_spaces(r, r.len() as int) == r.len());
    }
}

} // verus!
