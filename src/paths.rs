//! Validation of the directories the compiler reads from and writes to.
use vstd::prelude::*;

verus! {

/// The message for a directory that cannot be used: the caller's message,
/// then the path as shown.
pub open spec fn path_error(error_msg: Seq<char>, shown: Seq<char>) -> Seq<char> {
    error_msg + ": "@ + shown
}

/// Decides on a directory from what resolving it gave: `canonical` is its
/// canonical path if it could be resolved, `exists` whether that path
/// exists; `requested_shown` and `canonical_shown` are the requested and
/// the canonical path as they are shown in messages. The canonical path is
/// the result when it exists; otherwise the message names the path that
/// failed.
pub fn canonicalize_and_validate(
    canonical: Option<String>,
    exists: bool,
    requested_shown: &str,
    canonical_shown: &str,
    error_msg: &str,
) -> (r: Result<String, String>)
    ensures
        match canonical {
            Some(dir) => if exists {
                r is Ok && r->Ok_0@ == dir@
            } else {
                r is Err && r->Err_0@ == path_error(error_msg@, canonical_shown@)
            },
            None => r is Err && r->Err_0@ == path_error(error_msg@, requested_shown@),
        },
{
    match canonical {
        Some(dir) => {
            if !exists {
                let mut m = String::from_str(error_msg);
                m.append(": ");
                m.append(canonical_shown);
                return Err(m);
            }
            Ok(dir)
        },
        None => {
            let mut m = String::from_str(error_msg);
            m.append(": ");
            m.append(requested_shown);
            Err(m)
        },
    }
}

} // verus!
