//! Redaction of identifiers for logs.
use crate::text::{join3, owned};
use vstd::prelude::*;
use vstd::string::StrSliceExecFns;

verus! {

/// `value` with all but its first and last four characters hidden; values of
/// at most eight characters are hidden entirely.
pub open spec fn redacted(value: Seq<char>) -> Seq<char> {
    if value.len() <= 8 {
        "***"@
    } else {
        value.take(4) + "***"@ + value.skip(value.len() - 4)
    }
}

pub fn redact_id(value: &str) -> (r: String)
    ensures
        r@ == redacted(value@),
{
    let len = value.unicode_len();
    if len <= 8 {
        return owned("***");
    }
    let prefix = value.substring_char(0, 4);
    let suffix = value.substring_char(len - 4, len);
    let r = join3(prefix, "***", suffix);
    assert(value@.take(4) =~= value@.subrange(0, 4));
    assert(value@.skip(len - 4) =~= value@.subrange(len - 4, len as int));
    r
}

} // verus!
