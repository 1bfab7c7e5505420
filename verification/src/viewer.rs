//! The columns of the row view, with their display headings.

use vstd::prelude::*;

verus! {

/// One column of the row view.
pub enum Viewer {
    Index,
    Time,
    Timestamp,
    Ecuid,
    Apid,
    Ctid,
    Type,
    Payload,
}

impl Viewer {
    /// The heading text of this column.
    pub open spec fn spec_heading(&self) -> Seq<char> {
        match self {
            Viewer::Index => "Index"@,
            Viewer::Time => "Time"@,
            Viewer::Timestamp => "Timestamp"@,
            Viewer::Ecuid => "Ecuid"@,
            Viewer::Apid => "Apid"@,
            Viewer::Ctid => "Ctid"@,
            Viewer::Type => "Type"@,
            Viewer::Payload => "Payload"@,
        }
    }

    /// The heading text of this column.
    pub fn as_str(&self) -> (r: &'static str)
        ensures
            r@ == self.spec_heading(),
    {
        match self {
            Viewer::Index => "Index",
            Viewer::Time => "Time",
            Viewer::Timestamp => "Timestamp",
            Viewer::Ecuid => "Ecuid",
            Viewer::Apid => "Apid",
            Viewer::Ctid => "Ctid",
            Viewer::Type => "Type",
            Viewer::Payload => "Payload",
        }
    }
}

} // verus!
