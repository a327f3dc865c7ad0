//! What a run prints when it is over.

use vstd::prelude::*;
use crate::run::CleanupRun;
use crate::stats::DeletionStats;
use crate::text::{push_char, views_of};

verus! {

/// The character that stands for the digit `d`.
pub open spec fn digit(d: nat) -> char {
    if d == 0 {
        '0'
    } else if d == 1 {
        '1'
    } else if d == 2 {
        '2'
    } else if d == 3 {
        '3'
    } else if d == 4 {
        '4'
    } else if d == 5 {
        '5'
    } else if d == 6 {
        '6'
    } else if d == 7 {
        '7'
    } else if d == 8 {
        '8'
    } else {
        '9'
    }
}

/// `n` in decimal digits, without leading zeros.
pub open spec fn decimal(n: nat) -> Seq<char>
    decreases n,
{
    if n < 10 {
        seq![digit(n)]
    } else {
        decimal(n / 10).push(digit(n % 10))
    }
}

/// The notice of a run whose manifest names nothing.
pub open spec fn nothing_to_remove_text() -> Seq<char> {
    "No directories found to remove"@
}

/// The two lines that sum a run up. A dry run speaks of what will be done, any
/// other of what was done.
pub open spec fn summary_text(dry: bool, bytes_freed: nat, directories_removed: nat) -> Seq<
    Seq<char>,
> {
    if dry {
        seq![
            "Space will be freed: "@ + decimal(bytes_freed) + " Bytes"@,
            "Directories will be removed "@ + decimal(directories_removed),
        ]
    } else {
        seq![
            "Space freed: "@ + decimal(bytes_freed) + " Bytes"@,
            "Directories removed "@ + decimal(directories_removed),
        ]
    }
}

/// What a run in this state prints before the list of its targets: the notice
/// if its manifest names nothing, else the summary of its counters.
pub open spec fn report_text(dry: bool, entries: nat, bytes_freed: nat, directories_removed: nat) -> Seq<
    Seq<char>,
> {
    if entries == 0 {
        seq![nothing_to_remove_text()]
    } else {
        summary_text(dry, bytes_freed, directories_removed)
    }
}

fn digit_char(d: u64) -> (c: char)
    requires
        d < 10,
    ensures
        c == digit(d as nat),
{
    match d {
        0 => '0',
        1 => '1',
        2 => '2',
        3 => '3',
        4 => '4',
        5 => '5',
        6 => '6',
        7 => '7',
        8 => '8',
        _ => '9',
    }
}

fn push_decimal(text: &mut String, n: u64)
    ensures
        final(text)@ == old(text)@ + decimal(n as nat),
    decreases n,
{
    if n >= 10 {
        push_decimal(text, n / 10);
    }
    push_char(text, digit_char(n % 10));
    assert(text@ =~= old(text)@ + decimal(n as nat));
}

/// Writes `n` in decimal digits.
pub fn decimal_string(n: u64) -> (text: String)
    ensures
        text@ == decimal(n as nat),
{
    let mut text = String::new();
    push_decimal(&mut text, n);
    assert(text@ =~= decimal(n as nat));
    text
}

/// The notice that is printed when the manifest names nothing.
pub fn nothing_to_remove_notice() -> (text: String)
    ensures
        text@ == nothing_to_remove_text(),
{
    "No directories found to remove".to_owned()
}

/// The lines that sum up what a run has accounted for.
pub fn summary_lines(dry: bool, stats: DeletionStats) -> (lines: Vec<String>)
    ensures
        views_of(lines@) == summary_text(
            dry,
            stats.bytes_freed as nat,
            stats.directories_removed as nat,
        ),
{
    let mut space = if dry {
        "Space will be freed: ".to_owned()
    } else {
        "Space freed: ".to_owned()
    };
    push_decimal(&mut space, stats.bytes_freed);
    space.append(" Bytes");
    let mut directories = if dry {
        "Directories will be removed ".to_owned()
    } else {
        "Directories removed ".to_owned()
    };
    push_decimal(&mut directories, stats.directories_removed as u64);
    let mut lines: Vec<String> = Vec::new();
    lines.push(space);
    lines.push(directories);
    assert(views_of(lines@) =~= summary_text(
        dry,
        stats.bytes_freed as nat,
        stats.directories_removed as nat,
    ));
    lines
}

impl CleanupRun {
    /// What this run prints before the list of its targets, at the point it has
    /// come to: the notice if the manifest names nothing, else the summary.
    pub fn report(&self) -> (lines: Vec<String>)
        ensures
            views_of(lines@) == report_text(
                self@.dry,
                self@.entries.len(),
                self@.bytes_freed,
                self@.directories_removed,
            ),
    {
        if self.entries().len() == 0 {
            let mut lines: Vec<String> = Vec::new();
            lines.push(nothing_to_remove_notice());
            assert(views_of(lines@) =~= seq![nothing_to_remove_text()]);
            lines
        } else {
            summary_lines(self.is_dry(), self.stats())
        }
    }
}

} // verus!
