use vstd::prelude::*;

use crate::decimal::{decimal, decimal_of};

verus! {

/// A snapshot of an arena's ledger: how many resources it holds and their
/// total size in bytes.
#[derive(Clone, Copy, Debug, PartialEq, Eq, Structural)]
pub struct Stats {
    pub loaded_files: usize,
    pub total_size: usize,
}

/// The human-readable rendering of a statistics snapshot.
pub open spec fn stats_text(loaded_files: nat, total_size: nat) -> Seq<char> {
    "Arena Statistics (loaded files: "@ + decimal_of(loaded_files) + ", total size: "@
        + decimal_of(total_size) + " B)"@
}

impl Stats {
    /// The diagnostic line for this snapshot, e.g.
    /// `Arena Statistics (loaded files: 2, total size: 30 B)`.
    pub fn describe(&self) -> (r: String)
        ensures
            r@ == stats_text(self.loaded_files as nat, self.total_size as nat),
    {
        let mut s = String::from_str("Arena Statistics (loaded files: ");
        let count = decimal(self.loaded_files);
        s.append(count.as_str());
        s.append(", total size: ");
        let size = decimal(self.total_size);
        s.append(size.as_str());
        s.append(" B)");
        s
    }
}

} // verus!
