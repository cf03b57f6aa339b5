//! The path safety validator: catalog-supplied sub-paths are untrusted and
//! must be rejected before any filesystem operation incorporates them.

use vstd::prelude::*;

verus! {

use vstd::string::StrSliceExecFns;
use vstd::string::StringExecFns;
use crate::hub_api::Error;

/// A path is safe when it holds no parent-directory traversal marker (`..`),
/// no command separator (`;`), and no shell-expansion sigil (`$`).
pub open spec fn path_is_safe(s: Seq<char>) -> bool {
    (forall|i: int| 0 <= i < s.len() ==> (#[trigger] s[i]) != ';' && s[i] != '$') && (forall|i: int|
        0 <= i && i + 1 < s.len() ==> !((#[trigger] s[i]) == '.' && s[i + 1] == '.'))
}

/// Decides `path_is_safe`. Callers must treat `false` as a fatal abort of the
/// acquisition, never as a skip.
pub fn is_safe(path: &str) -> (r: bool)
    ensures
        r == path_is_safe(path@),
{
    let n = path.unicode_len();
    let mut i: usize = 0;
    while i < n
        invariant
            n == path@.len(),
            0 <= i <= n,
            forall|j: int| 0 <= j < i ==> (#[trigger] path@[j]) != ';' && path@[j] != '$',
            forall|j: int|
                0 <= j < i && j + 1 < n ==> !((#[trigger] path@[j]) == '.' && path@[j + 1] == '.'),
        decreases n - i,
    {
        let c = path.get_char(i);
        if c == ';' || c == '$' {
            return false;
        }
        if c == '.' && i + 1 < n {
            if path.get_char(i + 1) == '.' {
                return false;
            }
        }
        i += 1;
    }
    true
}

/// Validates a catalog-supplied sub-path, surfacing `UnsafePath` when it
/// fails the check.
pub fn checked_subpath(path: &str) -> (r: Result<(), Error>)
    ensures
        r is Ok <==> path_is_safe(path@),
        (r matches Err(e) ==> (e matches Error::UnsafePath(m) && m@ == path@)),
{
    if is_safe(path) {
        Ok(())
    } else {
        Err(Error::UnsafePath(String::from_str(path)))
    }
}

} // verus!
