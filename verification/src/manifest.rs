//! The sidecar manifest: a small structured document that binds a
//! logical path to its content identity.  It is stored next to the
//! original file, under the original name with a fixed suffix, and
//! holds the algorithm name, the hex digest, the logical path and the
//! byte size.

use vstd::prelude::*;

use crate::bytes::{append_bytes, copy_bytes};
use crate::hashing::hex_digit;

verus! {

/// The suffix a sidecar file's name appends to the tracked file's
/// name: `.dvc`.
pub open spec fn sidecar_suffix() -> Seq<u8> {
    seq![46u8, 100u8, 118u8, 99u8]
}

/// Where the sidecar for a logical path lives: the path itself with
/// the suffix appended, not replacing any extension.
pub open spec fn spec_sidecar_path(path: Seq<u8>) -> Seq<u8> {
    path + sidecar_suffix()
}

/// Renders the sidecar location for a logical path.
pub fn sidecar_path(path: &Vec<u8>) -> (r: Vec<u8>)
    ensures
        r@ == spec_sidecar_path(path@),
{
    let mut out = copy_bytes(path);
    out.push(46);
    out.push(100);
    out.push(118);
    out.push(99);
    proof {
        assert(out@ =~= spec_sidecar_path(path@));
    }
    out
}

/// The decimal rendering of a number, most significant digit first,
/// with no sign and no leading zero except for the number zero itself.
pub open spec fn dec_of(n: nat) -> Seq<u8>
    decreases n,
{
    if n < 10 {
        seq![(48 + n) as u8]
    } else {
        dec_of(n / 10) + seq![(48 + n % 10) as u8]
    }
}

/// Renders a number in decimal.
pub fn render_dec(n: u64) -> (r: Vec<u8>)
    ensures
        r@ == dec_of(n as nat),
    decreases n,
{
    if n < 10 {
        let mut out: Vec<u8> = Vec::new();
        out.push(48 + (n as u8));
        proof {
            assert(out@ =~= dec_of(n as nat));
        }
        out
    } else {
        let mut out = render_dec(n / 10);
        out.push(48 + ((n % 10) as u8));
        proof {
            assert(out@ =~= dec_of(n as nat));
        }
        out
    }
}

/// How one byte of a string appears inside a JSON string literal:
/// quote and backslash are escaped, control bytes take the six-byte
/// escape, and every other byte stands for itself.
pub open spec fn json_escaped_byte(b: u8) -> Seq<u8> {
    if b == 34 {
        seq![92u8, 34u8]
    } else if b == 92 {
        seq![92u8, 92u8]
    } else if b < 32 {
        seq![92u8, 117u8, 48u8, 48u8, hex_digit(b / 16), hex_digit(b % 16)]
    } else {
        seq![b]
    }
}

/// A whole byte string escaped for embedding in a JSON string literal.
pub open spec fn json_escaped(s: Seq<u8>) -> Seq<u8>
    decreases s.len(),
{
    if s.len() == 0 {
        Seq::empty()
    } else {
        json_escaped_byte(s[0]) + json_escaped(s.drop_first())
    }
}

proof fn lemma_json_escaped_snoc(s: Seq<u8>, b: u8)
    ensures
        json_escaped(s.push(b)) == json_escaped(s) + json_escaped_byte(b),
    decreases s.len(),
{
    let sp = s.push(b);
    assert(sp.len() == s.len() + 1);
    if s.len() == 0 {
        assert(sp[0] == b);
        assert(sp.drop_first() =~= Seq::<u8>::empty());
        assert(json_escaped(sp.drop_first()) =~= Seq::<u8>::empty());
        assert(json_escaped(s) =~= Seq::<u8>::empty());
        assert(json_escaped(sp) =~= json_escaped(s) + json_escaped_byte(b));
    } else {
        assert(sp[0] == s[0]);
        assert(sp.drop_first() =~= s.drop_first().push(b));
        lemma_json_escaped_snoc(s.drop_first(), b);
        assert(json_escaped(sp) == json_escaped_byte(s[0]) + json_escaped(s.drop_first().push(b)));
        assert(json_escaped(sp) =~= json_escaped(s) + json_escaped_byte(b));
    }
}

/// Escapes a byte string for embedding in a JSON string literal.
pub fn json_escape(s: &Vec<u8>) -> (r: Vec<u8>)
    ensures
        r@ == json_escaped(s@),
{
    let n = s.len();
    let mut out: Vec<u8> = Vec::new();
    let mut i: usize = 0;
    proof {
        assert(s@.subrange(0, 0) =~= Seq::<u8>::empty());
    }
    while i < n
        invariant
            n == s@.len(),
            0 <= i <= n,
            out@ == json_escaped(s@.subrange(0, i as int)),
        decreases n - i,
    {
        let b = s[i];
        if b == 34 {
            out.push(92);
            out.push(34);
        } else if b == 92 {
            out.push(92);
            out.push(92);
        } else if b < 32 {
            out.push(92);
            out.push(117);
            out.push(48);
            out.push(48);
            let hi = b / 16;
            let lo = b % 16;
            out.push(if hi < 10 {
                48 + hi
            } else {
                87 + hi
            });
            out.push(if lo < 10 {
                48 + lo
            } else {
                87 + lo
            });
        } else {
            out.push(b);
        }
        proof {
            lemma_json_escaped_snoc(s@.subrange(0, i as int), s@[i as int]);
            assert(s@.subrange(0, i + 1) =~= s@.subrange(0, i as int).push(s@[i as int]));
            assert(out@ =~= json_escaped(s@.subrange(0, i + 1)));
        }
        i = i + 1;
    }
    proof {
        assert(s@.subrange(0, n as int) =~= s@);
    }
    out
}

/// `{"algo":"`
pub open spec fn lit_algo() -> Seq<u8> {
    seq![123u8, 34u8, 97u8, 108u8, 103u8, 111u8, 34u8, 58u8, 34u8]
}

/// `","hash":"`
pub open spec fn lit_hash() -> Seq<u8> {
    seq![34u8, 44u8, 34u8, 104u8, 97u8, 115u8, 104u8, 34u8, 58u8, 34u8]
}

/// `","path":"`
pub open spec fn lit_path() -> Seq<u8> {
    seq![34u8, 44u8, 34u8, 112u8, 97u8, 116u8, 104u8, 34u8, 58u8, 34u8]
}

/// `","size_bytes":`
pub open spec fn lit_size() -> Seq<u8> {
    seq![34u8, 44u8, 34u8, 115u8, 105u8, 122u8, 101u8, 95u8, 98u8, 121u8, 116u8, 101u8, 115u8, 34u8, 58u8]
}

/// The sidecar document for one tracked file: a single JSON object
/// holding the algorithm name, the hex digest, the logical path and
/// the size in bytes.
pub open spec fn spec_sidecar_doc(
    algo: Seq<u8>,
    id: Seq<u8>,
    path: Seq<u8>,
    size: nat,
) -> Seq<u8> {
    lit_algo() + algo + lit_hash() + id + lit_path() + json_escaped(path) + lit_size() + dec_of(
        size,
    ) + seq![125u8]
}

fn lit_algo_vec() -> (r: Vec<u8>)
    ensures
        r@ == lit_algo(),
{
    let mut v: Vec<u8> = Vec::new();
    v.push(123);
    v.push(34);
    v.push(97);
    v.push(108);
    v.push(103);
    v.push(111);
    v.push(34);
    v.push(58);
    v.push(34);
    proof {
        assert(v@ =~= lit_algo());
    }
    v
}

fn lit_hash_vec() -> (r: Vec<u8>)
    ensures
        r@ == lit_hash(),
{
    let mut v: Vec<u8> = Vec::new();
    v.push(34);
    v.push(44);
    v.push(34);
    v.push(104);
    v.push(97);
    v.push(115);
    v.push(104);
    v.push(34);
    v.push(58);
    v.push(34);
    proof {
        assert(v@ =~= lit_hash());
    }
    v
}

fn lit_path_vec() -> (r: Vec<u8>)
    ensures
        r@ == lit_path(),
{
    let mut v: Vec<u8> = Vec::new();
    v.push(34);
    v.push(44);
    v.push(34);
    v.push(112);
    v.push(97);
    v.push(116);
    v.push(104);
    v.push(34);
    v.push(58);
    v.push(34);
    proof {
        assert(v@ =~= lit_path());
    }
    v
}

fn lit_size_vec() -> (r: Vec<u8>)
    ensures
        r@ == lit_size(),
{
    let mut v: Vec<u8> = Vec::new();
    v.push(34);
    v.push(44);
    v.push(34);
    v.push(115);
    v.push(105);
    v.push(122);
    v.push(101);
    v.push(95);
    v.push(98);
    v.push(121);
    v.push(116);
    v.push(101);
    v.push(115);
    v.push(34);
    v.push(58);
    proof {
        assert(v@ =~= lit_size());
    }
    v
}

/// Renders the sidecar document for a tracked file.
pub fn render_sidecar(algo: &Vec<u8>, id: &Vec<u8>, path: &Vec<u8>, size: u64) -> (r: Vec<u8>)
    ensures
        r@ == spec_sidecar_doc(algo@, id@, path@, size as nat),
{
    let mut out = lit_algo_vec();
    append_bytes(&mut out, algo);
    let piece_hash = lit_hash_vec();
    append_bytes(&mut out, &piece_hash);
    append_bytes(&mut out, id);
    let piece_path = lit_path_vec();
    append_bytes(&mut out, &piece_path);
    let escaped = json_escape(path);
    append_bytes(&mut out, &escaped);
    let piece_size = lit_size_vec();
    append_bytes(&mut out, &piece_size);
    let dec = render_dec(size);
    append_bytes(&mut out, &dec);
    out.push(125);
    proof {
        assert(out@ =~= spec_sidecar_doc(algo@, id@, path@, size as nat));
    }
    out
}

} // verus!
