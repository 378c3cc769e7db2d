//! The data every component shares: reported violations.

use vstd::prelude::*;

verus! {

/// The mathematical value of a violation.
#[verifier::ext_equal]
pub struct ViolationSpec {
    pub file: Seq<char>,
    pub detail: Seq<char>,
    pub start_line: u32,
    pub end_line: u32,
}

/// A code review violation with file location and line range.
pub struct Violation {
    /// File path.
    pub file: String,
    /// Violation detail.
    pub detail: String,
    /// Start line (1-indexed).
    pub start_line: u32,
    /// End line (inclusive).
    pub end_line: u32,
}

impl View for Violation {
    type V = ViolationSpec;

    open spec fn view(&self) -> ViolationSpec {
        ViolationSpec {
            file: self.file@,
            detail: self.detail@,
            start_line: self.start_line,
            end_line: self.end_line,
        }
    }
}

impl DeepView for Violation {
    type V = ViolationSpec;

    open spec fn deep_view(&self) -> ViolationSpec {
        self@
    }
}

impl Violation {
    /// A sensible report names a range: the start does not pass the end.
    pub open spec fn wf(self) -> bool {
        self.start_line <= self.end_line
    }

    /// An owned copy with the same value.
    pub fn duplicate(&self) -> (r: Violation)
        ensures
            r@ == self@,
    {
        Violation {
            file: self.file.clone(),
            detail: self.detail.clone(),
            start_line: self.start_line,
            end_line: self.end_line,
        }
    }
}

} // verus!
