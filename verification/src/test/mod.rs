//! The test runner: which files are tests, how a file is checked, and how
//! the results are reported.

pub mod reporter;
pub mod types;

use vstd::prelude::*;
use crate::style::{bright_black, fg_text};
use crate::text::{decimal, push_decimal, push_str};

verus! {

/// The line announcing how many test files were found.
pub open spec fn found_text(total_files: nat) -> Seq<char> {
    fg_text(90, "Found "@ + decimal(total_files) + " files. Testing them..."@)
}

/// Announces the number of test files found, dimmed.
pub fn found_line(total_files: usize) -> (line: String)
    ensures
        line@ == found_text(total_files as nat),
{
    let mut m = String::from_str("Found ");
    push_decimal(&mut m, total_files as u128);
    push_str(&mut m, " files. Testing them...");
    bright_black(m.as_str())
}

} // verus!
