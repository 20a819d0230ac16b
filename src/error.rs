//! The error of the audit engine: one kind, carrying a message.

use vstd::prelude::*;

verus! {

/// Whether `s` ends with `t`.
pub open spec fn ends_with(s: Seq<char>, t: Seq<char>) -> bool {
    t.len() <= s.len() && s.subrange(s.len() - t.len(), s.len() as int) == t
}

/// An error of rule validation or evaluation, with a message that names
/// what failed.
#[derive(Clone, Debug, PartialEq, Eq)]
pub struct AuditError(pub String);

impl AuditError {
    /// An error whose message is `prefix` followed by `detail`.
    pub fn with_detail(prefix: &str, detail: &str) -> (r: AuditError)
        ensures
            r.0@ == prefix@ + detail@,
            ends_with(r.0@, detail@),
    {
        let r = AuditError(prefix.to_owned().concat(detail));
        assert(r.0@.subrange(r.0@.len() - detail@.len(), r.0@.len() as int) =~= detail@);
        r
    }

    /// The message of this error.
    pub fn message(&self) -> (r: String)
        ensures
            r@ == self.0@,
    {
        self.0.clone()
    }
}

} // verus!
