//! Ignore-list synchronisation: the plain-text file of logical paths
//! that the outer version-control system must not store.  Membership
//! is substring containment — a deliberately coarse rule, kept as the
//! observable behaviour of the system rather than upgraded to exact
//! line matching.

use vstd::prelude::*;

use crate::bytes::{append_bytes, contains_bytes, copy_bytes, has_infix};

verus! {

/// The ignore file after recording a logical path: unchanged when the
/// path already occurs as a substring, otherwise the path appended
/// after a newline separator, preserving all prior content verbatim.
pub open spec fn spec_record(content: Seq<u8>, path: Seq<u8>) -> Seq<u8> {
    if has_infix(content, path) {
        content
    } else {
        content + seq![10u8] + path
    }
}

/// Records a logical path in the ignore-file content, idempotently.
pub fn record(content: &Vec<u8>, path: &Vec<u8>) -> (r: Vec<u8>)
    ensures
        r@ == spec_record(content@, path@),
{
    if contains_bytes(content, path) {
        copy_bytes(content)
    } else {
        let mut out = copy_bytes(content);
        out.push(10);
        append_bytes(&mut out, path);
        proof {
            assert(out@ =~= content@ + seq![10u8] + path@);
        }
        out
    }
}

/// Ignore-file union: recording a path that has already been recorded
/// changes nothing, so repeated adds of the same logical path never
/// produce duplicate lines.
pub proof fn lemma_record_idempotent(content: Seq<u8>, path: Seq<u8>)
    ensures
        spec_record(spec_record(content, path), path) == spec_record(content, path),
{
    if !has_infix(content, path) {
        let r = content + seq![10u8] + path;
        let i = content.len() as int + 1;
        assert(r.subrange(i, i + path.len() as int) =~= path);
        assert(has_infix(r, path));
    }
}

} // verus!
