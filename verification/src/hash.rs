//! SHA-256 digests of serialized data.
use vstd::prelude::*;
use crypto::digest::Digest;
use crypto::sha2::Sha256;

verus! {

/// The lowercase hexadecimal text of the SHA-256 digest of the bytes, as
/// `rust-crypto` writes it.
pub uninterp spec fn sha256_hex(data: Seq<u8>) -> Seq<char>;

/// Runs `Sha256::new`, `Digest::input` and `Digest::result_str` of
/// `rust-crypto` on the bytes: the hexadecimal text of their digest, two
/// characters for each of its 32 bytes.
#[verifier::external_body]
fn sha256_hex_of(data: &[u8]) -> (r: String)
    ensures
        r@ == sha256_hex(data@),
        r@.len() == 64,
{
    let mut sha = Sha256::new();
    sha.input(data);
    sha.result_str()
}

/// The length in bytes of a digest.
pub const HASH_LEN: usize = 32;

/// A digest: its hexadecimal text, its length in bytes, and the name of the
/// algorithm.
#[derive(Debug)]
pub struct Hash {
    data: String,
    len: u32,
    note: String,
}

/// The value of a [`Hash`].
pub struct HashView {
    pub data: Seq<char>,
    pub len: u32,
    pub note: Seq<char>,
}

impl View for Hash {
    type V = HashView;

    closed spec fn view(&self) -> HashView {
        HashView { data: self.data@, len: self.len, note: self.note@ }
    }
}

impl Clone for Hash {
    fn clone(&self) -> (r: Self)
        ensures
            r@ == self@,
    {
        Hash { data: self.data.clone(), len: self.len, note: self.note.clone() }
    }
}

impl Hash {
    /// The digest of the given text, length and algorithm name.
    pub fn from_parts(data: String, len: u32, note: String) -> (r: Hash)
        ensures
            r@ == (HashView { data: data@, len, note: note@ }),
    {
        Hash { data: data, len: len, note: note }
    }

    /// The hexadecimal text of the digest.
    pub fn data(&self) -> (r: &String)
        ensures
            r@ == self@.data,
    {
        &self.data
    }

    /// The length of the digest in bytes.
    pub fn byte_len(&self) -> (r: u32)
        ensures
            r == self@.len,
    {
        self.len
    }

    /// The name of the algorithm.
    pub fn note(&self) -> (r: &String)
        ensures
            r@ == self@.note,
    {
        &self.note
    }

    /// The digests are the same.
    pub fn same_as(&self, other: &Hash) -> (r: bool)
        ensures
            r == (self@ == other@),
    {
        self.data == other.data && self.len == other.len && self.note == other.note
    }

    /// The SHA-256 digest of the bytes.
    pub fn sha256_of(data: &[u8]) -> (r: Hash)
        ensures
            r@.data == sha256_hex(data@),
            r@.data.len() == 64,
            r@.len == 32,
            r@.note == "SHA256"@,
    {
        let hex = sha256_hex_of(data);
        let note = String::from_str("SHA256");
        Hash { data: hex, len: 32, note: note }
    }
}

/// A value with a serialized form that can be hashed.
pub trait Hashable {
    /// The serialized form of the value.
    spec fn serialized(&self) -> Vec<u8>;

    fn serialized_data(&self) -> (r: &[u8])
        ensures
            r@ == self.serialized()@;

    fn serialized_str(&self) -> &str;

    /// The SHA-256 digest of the serialized data.
    fn encrype_sha256(&self) -> (r: Hash)
        ensures
            r@.data == sha256_hex(self.serialized()@),
            r@.data.len() == 64,
            r@.len == 32,
            r@.note == "SHA256"@,
    {
        let data = self.serialized_data();
        let r = Hash::sha256_of(data);
        assert(r@.data == sha256_hex(data@));
        r
    }
}

} // verus!
