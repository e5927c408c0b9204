//! Row identity.
//!
//! A transaction's primary key is a content hash of its `raw_data` string:
//! deterministic, stable across processes and platforms, and rendered as
//! lowercase hexadecimal. The digest itself is computed by an outside
//! crate; the library names its result and builds every identity claim on
//! that name.

use vstd::prelude::*;

verus! {

/// The digest that the row identity scheme assigns to a string. The digest
/// is a function of the string's characters alone: the same `raw_data`
/// always yields the same `row_id`, in every process and on every machine.
pub uninterp spec fn md5_hex_of(s: Seq<char>) -> Seq<char>;

/// Relies on md5::compute: the digest of the argument's bytes, a pure
/// function of them, written out in lowercase hexadecimal by the crate's
/// LowerHex rendering.
#[verifier::external_body]
pub(crate) fn calculate_md5(data: &str) -> (r: String)
    ensures
        r@ == md5_hex_of(data@),
{
    let digest = md5::compute(data);
    format!("{:x}", digest)
}

} // verus!
