//! Configuration surface of the tracking core: the hash-algorithm
//! selection that is threaded into the content hasher.

use vstd::prelude::*;

verus! {

broadcast use vstd::string::to_string_from_display_ensures_for_str;

/// The content-identity algorithms the cache can be keyed by.  The only
/// algorithm the core currently requires is the 256-bit one; it is also
/// the default.
#[derive(Clone, Copy, Debug, PartialEq, Eq, Structural)]
pub enum HashAlgorithm {
    MD5,
    SHA256,
}

/// The algorithm name as it appears in the sidecar document's
/// `algo` field, as bytes.
pub open spec fn spec_algo_field(a: HashAlgorithm) -> Seq<u8> {
    match a {
        HashAlgorithm::MD5 => seq![109u8, 100u8, 53u8],  // "md5"
        HashAlgorithm::SHA256 => seq![115u8, 104u8, 97u8, 50u8, 53u8, 54u8],  // "sha256"
    }
}

impl HashAlgorithm {
    /// Display name of the algorithm.
    pub fn to_string(&self) -> (r: String)
        ensures
            *self == HashAlgorithm::MD5 ==> r@ == "MD5"@,
            *self == HashAlgorithm::SHA256 ==> r@ == "SHA256"@,
    {
        match self {
            HashAlgorithm::MD5 => "MD5".to_string(),
            HashAlgorithm::SHA256 => "SHA256".to_string(),
        }
    }

    /// The lowercase name recorded in sidecar manifests.
    pub fn algo_field(&self) -> (r: Vec<u8>)
        ensures
            r@ == spec_algo_field(*self),
    {
        let mut v: Vec<u8> = Vec::new();
        match self {
            HashAlgorithm::MD5 => {
                v.push(109);
                v.push(100);
                v.push(53);
            },
            HashAlgorithm::SHA256 => {
                v.push(115);
                v.push(104);
                v.push(97);
                v.push(50);
                v.push(53);
                v.push(54);
            },
        }
        proof {
            assert(v@ =~= spec_algo_field(*self));
        }
        v
    }
}

impl Default for HashAlgorithm {
    /// The default content-identity algorithm is the 256-bit hash.
    fn default() -> (r: Self)
        ensures
            r == HashAlgorithm::SHA256,
    {
        HashAlgorithm::SHA256
    }
}

/// Project configuration as far as the tracking core reads it.
#[derive(Clone, Copy, Debug, PartialEq, Eq, Structural)]
pub struct Config {
    pub hash_algorithm: HashAlgorithm,
}

impl Default for Config {
    fn default() -> (r: Self)
        ensures
            r.hash_algorithm == HashAlgorithm::SHA256,
    {
        Config { hash_algorithm: HashAlgorithm::SHA256 }
    }
}

} // verus!
