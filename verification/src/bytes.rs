//! Byte-sequence helpers shared by the path, ignore-list and manifest
//! logic: equality, and substring (infix) search.

use vstd::prelude::*;

verus! {

/// True iff `needle` occurs contiguously somewhere inside `hay`.
pub open spec fn has_infix(hay: Seq<u8>, needle: Seq<u8>) -> bool {
    exists|i: int|
        0 <= i && i + needle.len() <= hay.len() && #[trigger] hay.subrange(i, i + needle.len())
            == needle
}

/// Byte-for-byte equality of two vectors.
pub fn bytes_eq(a: &Vec<u8>, b: &Vec<u8>) -> (r: bool)
    ensures
        r == (a@ == b@),
{
    if a.len() != b.len() {
        assert(a@ != b@);
        return false;
    }
    let n = a.len();
    let mut i: usize = 0;
    while i < n
        invariant
            n == a@.len() == b@.len(),
            0 <= i <= n,
            forall|k: int| 0 <= k < i ==> a@[k] == b@[k],
        decreases n - i,
    {
        if a[i] != b[i] {
            return false;
        }
        i = i + 1;
    }
    assert(a@ =~= b@);
    true
}

/// An owned copy of a byte vector.
pub fn copy_bytes(src: &Vec<u8>) -> (r: Vec<u8>)
    ensures
        r@ == src@,
{
    let n = src.len();
    let mut out: Vec<u8> = Vec::new();
    let mut i: usize = 0;
    while i < n
        invariant
            n == src@.len(),
            0 <= i <= n,
            out@ == src@.subrange(0, i as int),
        decreases n - i,
    {
        out.push(src[i]);
        i = i + 1;
        proof {
            assert(out@ =~= src@.subrange(0, i as int));
        }
    }
    proof {
        assert(src@.subrange(0, n as int) =~= src@);
    }
    out
}

/// Appends `src` to `out`.
pub fn append_bytes(out: &mut Vec<u8>, src: &Vec<u8>)
    ensures
        final(out)@ == old(out)@ + src@,
{
    let n = src.len();
    let mut i: usize = 0;
    proof {
        assert(out@ =~= old(out)@ + src@.subrange(0, 0));
    }
    while i < n
        invariant
            n == src@.len(),
            0 <= i <= n,
            out@ == old(out)@ + src@.subrange(0, i as int),
        decreases n - i,
    {
        out.push(src[i]);
        i = i + 1;
        proof {
            assert(out@ =~= old(out)@ + src@.subrange(0, i as int));
        }
    }
    proof {
        assert(src@.subrange(0, n as int) =~= src@);
    }
}

/// Substring search: decides `has_infix(hay@, needle@)`.
pub fn contains_bytes(hay: &Vec<u8>, needle: &Vec<u8>) -> (r: bool)
    ensures
        r == has_infix(hay@, needle@),
{
    let nlen = needle.len();
    let hlen = hay.len();
    if nlen == 0 {
        proof {
            assert(hay@.subrange(0, 0 + needle@.len() as int) =~= needle@);
        }
        return true;
    }
    if nlen > hlen {
        return false;
    }
    let mut i: usize = 0;
    while i <= hlen - nlen
        invariant
            0 < nlen <= hlen,
            nlen == needle@.len(),
            hlen == hay@.len(),
            0 <= i <= hlen - nlen + 1,
            forall|k: int|
                0 <= k < i ==> #[trigger] hay@.subrange(k, k + needle@.len()) != needle@,
        decreases hlen - i,
    {
        let mut j: usize = 0;
        while j < nlen && hay[i + j] == needle[j]
            invariant
                0 < nlen <= hlen,
                nlen == needle@.len(),
                hlen == hay@.len(),
                0 <= i <= hlen - nlen,
                0 <= j <= nlen,
                forall|t: int| 0 <= t < j ==> hay@[i + t] == needle@[t],
            decreases nlen - j,
        {
            j = j + 1;
        }
        if j == nlen {
            assert(hay@.subrange(i as int, i + needle@.len()) =~= needle@);
            return true;
        }
        proof {
            assert(hay@.subrange(i as int, i + needle@.len()) != needle@) by {
                if hay@.subrange(i as int, i + needle@.len()) == needle@ {
                    assert(hay@.subrange(i as int, i + needle@.len())[j as int] == needle@[j as int]);
                }
            }
        }
        i = i + 1;
    }
    assert forall|k: int| 0 <= k && k + needle@.len() <= hay@.len() implies #[trigger] hay@
        .subrange(k, k + needle@.len()) != needle@ by {
        assert(k < i);
    }
    false
}

} // verus!
