//! The `.rio` sidecar: the state kept beside each managed file.
//!
//! Each managed file at `<path>` has a sibling `<path>.rio` that records the
//! hash of the managed block's content and the stanzas the user chose to
//! ignore. Its on-disk format is TOML; reading and writing it is left to the
//! program around this library, which hands over and takes back `Sidecar`
//! values.
use sha2::{Digest, Sha256};
use vstd::prelude::*;
use vstd::string::{StrSliceExecFns, StringExecFns};

verus! {

/// The schema version this library writes.
pub const SIDECAR_VERSION: u64 = 1;

/// The suffix that names a managed file's sidecar.
pub const SIDECAR_SUFFIX: &'static str = ".rio";

/// The lowercase hexadecimal digits, by value.
pub const HEX_DIGITS: &'static str = "0123456789abcdef";

/// The state recorded for one managed file.
#[derive(Debug, Clone, PartialEq, Eq)]
pub struct Sidecar {
    pub version: u64,
    /// Lowercase hex SHA-256 of the managed block's content, once recorded.
    pub managed_block_hash: Option<String>,
    /// Hashes of the stanzas the user chose to ignore.
    pub ignored: Vec<String>,
}

pub struct SidecarView {
    pub version: u64,
    pub managed_block_hash: Option<Seq<char>>,
    pub ignored: Seq<Seq<char>>,
}

impl View for Sidecar {
    type V = SidecarView;

    open spec fn view(&self) -> SidecarView {
        SidecarView {
            version: self.version,
            managed_block_hash: match self.managed_block_hash {
                Some(h) => Some(h@),
                None => None,
            },
            ignored: self.ignored@.map_values(|s: String| s@),
        }
    }
}

/// A fresh sidecar: current schema, no hash, nothing ignored.
pub open spec fn default_sidecar() -> SidecarView {
    SidecarView { version: SIDECAR_VERSION, managed_block_hash: None, ignored: Seq::empty() }
}

impl Default for Sidecar {
    fn default() -> (s: Self)
        ensures
            s@ == default_sidecar(),
    {
        let s = Sidecar { version: SIDECAR_VERSION, managed_block_hash: None, ignored: Vec::new() };
        assert(s@.ignored =~= Seq::<Seq<char>>::empty());
        s
    }
}

/// The sidecar path of the managed file at `path`.
pub open spec fn spec_path_for(path: Seq<char>) -> Seq<char> {
    path + SIDECAR_SUFFIX@
}

/// The path of the sidecar that belongs to the managed file at `path`.
pub fn path_for(path: &str) -> (r: String)
    ensures
        r@ == spec_path_for(path@),
{
    String::from_str(path).concat(SIDECAR_SUFFIX)
}

/// The SHA-256 digest of a byte sequence.
pub uninterp spec fn sha256_digest(data: Seq<u8>) -> Seq<u8>;

/// Calls `sha2::Sha256::digest`. Trusted: the result is the SHA-256 digest of
/// `data`, a function of `data` alone, and it is 32 bytes long.
#[verifier::external_body]
fn sha256(data: &[u8]) -> (digest: Vec<u8>)
    ensures
        digest@ == sha256_digest(data@),
        digest@.len() == 32,
{
    Sha256::digest(data).to_vec()
}

/// The lowercase hexadecimal digit of a value below 16.
pub open spec fn hex_digit(d: int) -> char {
    HEX_DIGITS@[d]
}

/// Lowercase hexadecimal, two digits per byte, high digit first.
pub open spec fn hex(bytes: Seq<u8>) -> Seq<char>
    decreases bytes.len(),
{
    if bytes.len() == 0 {
        Seq::empty()
    } else {
        hex(bytes.drop_last()) + seq![hex_digit((bytes.last() / 16) as int), hex_digit((bytes.last() % 16) as int)]
    }
}

/// Writes `bytes` in lowercase hexadecimal.
pub fn to_hex(bytes: &[u8]) -> (r: String)
    ensures
        r@ == hex(bytes@),
{
    proof {
        reveal_strlit("0123456789abcdef");
    }
    let mut out = String::new();
    let n = bytes.len();
    let mut i: usize = 0;
    while i < n
        invariant
            i <= n,
            n == bytes@.len(),
            HEX_DIGITS@.len() == 16,
            out@ == hex(bytes@.subrange(0, i as int)),
        decreases n - i,
    {
        let b = bytes[i];
        let hi = (b / 16) as usize;
        let lo = (b % 16) as usize;
        out.append(HEX_DIGITS.substring_char(hi, hi + 1));
        out.append(HEX_DIGITS.substring_char(lo, lo + 1));
        assert(bytes@.subrange(0, i + 1).drop_last() =~= bytes@.subrange(0, i as int));
        assert(out@ =~= hex(bytes@.subrange(0, i + 1)));
        i += 1;
    }
    assert(bytes@.subrange(0, n as int) =~= bytes@);
    out
}

/// The hash recorded for a managed block's content: lowercase hexadecimal
/// SHA-256 of its UTF-8 bytes.
pub open spec fn spec_hash_block(content: Seq<char>) -> Seq<char> {
    hex(sha256_digest(vstd::utf8::encode_utf8(content)))
}

/// Hashes a managed block's content for the sidecar.
pub fn hash_block(content: &str) -> (r: String)
    ensures
        r@ == spec_hash_block(content@),
{
    let digest = sha256(content.as_bytes());
    to_hex(digest.as_slice())
}

} // verus!
