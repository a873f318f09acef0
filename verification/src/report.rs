//! Classifying directory entries against the tracking count map and
//! rendering one status line per entry.

use vstd::prelude::*;
use vstd::string::StringExecFns;
use crate::aggregate::{bare_names_distinct, lemma_plain_keys_count_once, tracked_counts};
use crate::counts::TrackedCounts;
use crate::decimal::{decimal_digits, push_decimal};
use crate::path_key::{is_directory_entry, is_directory_name};

verus! {

/// A plain file whose count is not one: the count map is inconsistent.
#[derive(Clone, Copy, Debug, PartialEq, Eq, Structural)]
pub struct CountFault {
    /// Position of the offending entry in the listing.
    pub index: usize,
    /// The count found for it.
    pub count: u64,
}

/// The line for a directory with `count` counts files beneath it.
pub open spec fn tracked_dir_line(name: Seq<char>, count: nat) -> Seq<char> {
    name + " - "@ + decimal_digits(count)
}

/// The line for a directory with nothing counts beneath it.
pub open spec fn untracked_dir_line(name: Seq<char>) -> Seq<char> {
    name + " - None"@
}

/// The line for a counts file.
pub open spec fn tracked_file_line(name: Seq<char>) -> Seq<char> {
    name + " - CHECKED"@
}

/// The line for an untracked file.
pub open spec fn untracked_file_line(name: Seq<char>) -> Seq<char> {
    name + " - LEFT"@
}

/// Whether `name` is a plain file whose count in `counts` is not one.
pub open spec fn is_count_fault(name: Seq<char>, counts: Map<Seq<char>, nat>) -> bool {
    !is_directory_name(name) && counts.contains_key(name) && counts[name] != 1
}

/// The status line of one entry. It is meaningful where the entry is no
/// count fault; a faulty entry has no line.
pub open spec fn status_line(name: Seq<char>, counts: Map<Seq<char>, nat>) -> Seq<char> {
    if is_directory_name(name) {
        if counts.contains_key(name) {
            tracked_dir_line(name, counts[name])
        } else {
            untracked_dir_line(name)
        }
    } else if counts.contains_key(name) {
        tracked_file_line(name)
    } else {
        untracked_file_line(name)
    }
}

/// The status lines of a listing, one per entry, in listing order.
pub open spec fn report_lines(entries: Seq<Seq<char>>, counts: Map<Seq<char>, nat>) -> Seq<
    Seq<char>,
> {
    entries.map_values(|name: Seq<char>| status_line(name, counts))
}

/// Renders the line of a directory with `count` counts files beneath it.
pub fn report_dir_with_tracked_files(dir_name: &str, count: u64) -> (line: String)
    ensures
        line@ == tracked_dir_line(dir_name@, count as nat),
{
    let mut line = String::from_str(dir_name);
    line.append(" - ");
    push_decimal(&mut line, count);
    line
}

/// Renders the line of a directory with nothing counts beneath it.
pub fn report_dir_without_tracked_files(dir_name: &str) -> (line: String)
    ensures
        line@ == untracked_dir_line(dir_name@),
{
    let mut line = String::from_str(dir_name);
    line.append(" - None");
    line
}

/// Renders the line of a counts file.
pub fn report_tracked_file(file_name: &str) -> (line: String)
    ensures
        line@ == tracked_file_line(file_name@),
{
    let mut line = String::from_str(file_name);
    line.append(" - CHECKED");
    line
}

/// Renders the line of an untracked file.
pub fn report_untracked_file(file_name: &str) -> (line: String)
    ensures
        line@ == untracked_file_line(file_name@),
{
    let mut line = String::from_str(file_name);
    line.append(" - LEFT");
    line
}

/// Classifies one entry and renders its line.
///
/// Fails with the count found exactly when the entry is a plain file whose
/// count is not one.
pub fn report_entry(name: &str, counts: &TrackedCounts) -> (outcome: Result<String, u64>)
    ensures
        outcome is Err <==> is_count_fault(name@, counts@),
        outcome is Err ==> outcome->Err_0 == counts@[name@],
        outcome is Ok ==> outcome->Ok_0@ == status_line(name@, counts@),
{
    if is_directory_entry(name) {
        match counts.get(name) {
            Some(count) => Ok(report_dir_with_tracked_files(name, count)),
            None => Ok(report_dir_without_tracked_files(name)),
        }
    } else {
        match counts.get(name) {
            Some(count) => if count == 1 {
                Ok(report_tracked_file(name))
            } else {
                Err(count)
            },
            None => Ok(report_untracked_file(name)),
        }
    }
}

/// Reports the tracking status of every entry of a listing, in listing order.
///
/// The report is all or nothing: it fails on the first plain file whose
/// count is not one, and then carries no line.
pub fn report_tracking_status(entries: &Vec<String>, counts: &TrackedCounts) -> (outcome: Result<
    Vec<String>,
    CountFault,
>)
    ensures
        match outcome {
            Ok(lines) => {
                &&& forall|i: int|
                    0 <= i < entries.len() ==> !is_count_fault(#[trigger] entries[i]@, counts@)
                &&& lines.deep_view() == report_lines(entries.deep_view(), counts@)
            },
            Err(fault) => {
                &&& fault.index < entries.len()
                &&& is_count_fault(entries[fault.index as int]@, counts@)
                &&& fault.count == counts@[entries[fault.index as int]@]
                &&& forall|i: int|
                    0 <= i < fault.index ==> !is_count_fault(#[trigger] entries[i]@, counts@)
            },
        },
{
    let mut lines: Vec<String> = Vec::new();
    for i in 0..entries.len()
        invariant
            forall|j: int| 0 <= j < i ==> !is_count_fault(#[trigger] entries[j]@, counts@),
            lines.deep_view() == report_lines(entries.deep_view().take(i as int), counts@),
    {
        match report_entry(entries[i].as_str(), counts) {
            Ok(line) => {
                let ghost before = lines.deep_view();
                lines.push(line);
                proof {
                    let names = entries.deep_view();
                    assert(names[i as int] == entries[i as int]@);
                    assert(names.take(i + 1) == names.take(i as int).push(names[i as int]));
                    assert(lines.deep_view() == before.push(line@));
                    assert(report_lines(names.take(i + 1), counts@) == report_lines(
                        names.take(i as int),
                        counts@,
                    ).push(status_line(names[i as int], counts@)));
                }
            },
            Err(count) => {
                return Err(CountFault { index: i, count });
            },
        }
    }
    assert(entries.deep_view().take(entries.len() as int) == entries.deep_view());
    Ok(lines)
}

} // verus!
