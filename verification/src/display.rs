//! The text that the presentation layer shows: one status line per
//! record, and the summary of a registry refresh.

use crate::progress::{views, ProgressRecord, ProgressTable, RecordView, Status, StatusView};
use vstd::prelude::*;

verus! {

/// How a status reads.
pub open spec fn status_text(status: StatusView) -> Seq<char> {
    match status {
        StatusView::Pending => "Pending"@,
        StatusView::Installing => "Installing"@,
        StatusView::Succeeded => "Installed Success"@,
        StatusView::Failed(reason) => "Failed: "@ + reason,
    }
}

/// The status line of a record: the device, a colon and a space, the
/// status, and the indicator right behind it.
pub open spec fn line_text(record: RecordView) -> Seq<char> {
    record.device_id + ": "@ + status_text(record.status) + record.phase_indicator
}

/// The decimal digit `d`, for `d` below ten.
pub open spec fn digit_text(d: nat) -> Seq<char> {
    if d == 0 {
        "0"@
    } else if d == 1 {
        "1"@
    } else if d == 2 {
        "2"@
    } else if d == 3 {
        "3"@
    } else if d == 4 {
        "4"@
    } else if d == 5 {
        "5"@
    } else if d == 6 {
        "6"@
    } else if d == 7 {
        "7"@
    } else if d == 8 {
        "8"@
    } else {
        "9"@
    }
}

/// The number `n` in decimal, without leading zeros.
pub open spec fn decimal_text(n: nat) -> Seq<char>
    decreases n,
{
    if n < 10 {
        digit_text(n)
    } else {
        decimal_text(n / 10) + digit_text(n % 10)
    }
}

/// The summary of a registry refresh that found `count` devices.
pub open spec fn summary_text(count: nat) -> Seq<char> {
    if count == 0 {
        "No devices detected."@
    } else {
        decimal_text(count) + " device(s) detected."@
    }
}

/// How `status` reads.
pub fn status_label(status: &Status) -> (text: String)
    ensures
        text@ == status_text(status@),
{
    match status {
        Status::Pending => "Pending".to_owned(),
        Status::Installing => "Installing".to_owned(),
        Status::Succeeded => "Installed Success".to_owned(),
        Status::Failed(reason) => {
            let mut text = "Failed: ".to_owned();
            text.append(reason.as_str());
            text
        },
    }
}

/// The status line of `record`.
pub fn status_line(record: &ProgressRecord) -> (line: String)
    ensures
        line@ == line_text(record@),
{
    let mut line = record.device_id.clone();
    line.append(": ");
    let label = status_label(&record.status);
    line.append(label.as_str());
    line.append(record.phase_indicator.as_str());
    line
}

/// The status lines of all records of `table`, in table order.
pub fn status_lines(table: &ProgressTable) -> (lines: Vec<String>)
    ensures
        lines@.len() == table@.len(),
        forall|i: int| 0 <= i < lines@.len() ==> (#[trigger] lines@[i])@ == line_text(table@[i]),
{
    let records = table.snapshot();
    let mut lines: Vec<String> = Vec::new();
    let mut at: usize = 0;
    assert(records@.len() == table@.len());
    while at < records.len()
        invariant
            at <= records@.len(),
            views(records@) == table@,
            lines@.len() == at,
            forall|i: int| 0 <= i < at ==> (#[trigger] lines@[i])@ == line_text(table@[i]),
        decreases records@.len() - at,
    {
        assert(views(records@)[at as int] == records@[at as int]@);
        lines.push(status_line(&records[at]));
        at += 1;
    }
    lines
}

/// The decimal digit `d`.
fn digit(d: usize) -> (text: &'static str)
    requires
        d < 10,
    ensures
        text@ == digit_text(d as nat),
{
    match d {
        0 => "0",
        1 => "1",
        2 => "2",
        3 => "3",
        4 => "4",
        5 => "5",
        6 => "6",
        7 => "7",
        8 => "8",
        _ => "9",
    }
}

/// The number `n` in decimal, without leading zeros.
pub fn decimal(n: usize) -> (text: String)
    ensures
        text@ == decimal_text(n as nat),
    decreases n,
{
    if n < 10 {
        digit(n).to_owned()
    } else {
        let mut text = decimal(n / 10);
        text.append(digit(n % 10));
        text
    }
}

/// The summary of a registry refresh that found `count` devices.
pub fn device_summary(count: usize) -> (text: String)
    ensures
        text@ == summary_text(count as nat),
{
    if count == 0 {
        "No devices detected.".to_owned()
    } else {
        let mut text = decimal(count);
        text.append(" device(s) detected.");
        text
    }
}

} // verus!
