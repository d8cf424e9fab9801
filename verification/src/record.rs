use vstd::prelude::*;
use vstd::string::*;

use crate::timestamp::Timestamp;
use crate::timestamp::timestamp_chars;

verus! {

/// One branch of a listing: its short name and the committer timestamp
/// parsed from the listing line.
///
/// Records are built fresh per listing call and live only for the workflow
/// that requested them. A listing requested sorted by commit date arrives
/// already ordered; the parser preserves input order and never re-sorts.
#[derive(Debug, PartialEq)]
pub struct BranchRecord {
    pub name: String,
    pub committer_timestamp: Timestamp,
}

impl View for BranchRecord {
    type V = (Seq<char>, Timestamp);

    open spec fn view(&self) -> (Seq<char>, Timestamp) {
        (self.name@, self.committer_timestamp)
    }
}

impl DeepView for BranchRecord {
    type V = (Seq<char>, Timestamp);

    open spec fn deep_view(&self) -> (Seq<char>, Timestamp) {
        self.view()
    }
}

/// The one-line form a record is shown in: `[YYYY-MM-DD HH:MM:SS] name`.
pub open spec fn display_chars(name: Seq<char>, ts: Timestamp) -> Seq<char> {
    seq!['['] + timestamp_chars(ts) + seq![']', ' '] + name
}

impl BranchRecord {
    pub fn display_line(&self) -> (r: String)
        requires
            self.committer_timestamp.valid(),
        ensures
            r@ == display_chars(self.name@, self.committer_timestamp),
    {
        let mut s = String::from_str("[");
        let t = self.committer_timestamp.render();
        s.append(t.as_str());
        s.append("] ");
        s.append(self.name.as_str());
        proof {
            reveal_strlit("[");
            reveal_strlit("] ");
            assert(s@ =~= display_chars(self.name@, self.committer_timestamp));
        }
        s
    }
}

} // verus!
