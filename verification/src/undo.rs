//! The undo store's logic: how a snapshot is named, where its blob lives,
//! and when old blobs are collected.

use sha2::Digest;
use vstd::prelude::*;
use vstd::string::StringSliceAdditionalSpecFns;
use crate::text::{contains_char, contains_str, find};
use crate::tool::{join_path, join_path_exec};

verus! {

/// The SHA-256 digest of a byte sequence.
pub uninterp spec fn sha256(data: Seq<u8>) -> Seq<u8>;

/// Hashes bytes with `sha2::Sha256::digest`. Its output is the 32-byte
/// digest (the type's output size is `U32`); which bytes they are is left
/// to the name `sha256`.
#[verifier::external_body]
fn sha256_digest(data: &[u8]) -> (r: Vec<u8>)
    ensures
        r@ == sha256(data@),
        r.len() == 32,
{
    sha2::Sha256::digest(data).to_vec()
}

/// The lower-case hex digit of `d < 16`.
pub open spec fn hex_lower_digit(d: nat) -> char {
    if d < 10 {
        crate::num::digit_char(d)
    } else if d == 10 {
        'a'
    } else if d == 11 {
        'b'
    } else if d == 12 {
        'c'
    } else if d == 13 {
        'd'
    } else if d == 14 {
        'e'
    } else {
        'f'
    }
}

/// Bytes in lower-case hex, two digits per byte, high nibble first.
pub open spec fn hex_lower(data: Seq<u8>) -> Seq<char>
    decreases data.len(),
{
    if data.len() == 0 {
        seq![]
    } else {
        hex_lower(data.drop_last()) + seq![
            hex_lower_digit(data.last() as nat / 16),
            hex_lower_digit(data.last() as nat % 16),
        ]
    }
}

/// Hex has two characters per byte.
pub proof fn lemma_hex_lower_len(data: Seq<u8>)
    ensures
        hex_lower(data).len() == 2 * data.len(),
    decreases data.len(),
{
    if data.len() > 0 {
        lemma_hex_lower_len(data.drop_last());
    }
}

/// Writes bytes in hex with `hex::encode`: each byte as two characters of
/// `0123456789abcdef`, the high nibble first, in order.
#[verifier::external_body]
fn hex_encode(data: &[u8]) -> (r: String)
    ensures
        r@ == hex_lower(data@),
{
    hex::encode(data)
}

/// What a snapshot's hash covers: the path's bytes, a zero byte, then the
/// content's bytes.
pub open spec fn snapshot_input(path: Seq<char>, content: Seq<char>) -> Seq<u8> {
    vstd::utf8::encode_utf8(path) + seq![0u8] + vstd::utf8::encode_utf8(content)
}

/// The name of a snapshot's blob: the hex SHA-256 of `snapshot_input`.
pub open spec fn spec_snapshot_hash(path: Seq<char>, content: Seq<char>) -> Seq<char> {
    hex_lower(sha256(snapshot_input(path, content)))
}

fn append_bytes(out: &mut Vec<u8>, s: &str)
    ensures
        final(out)@ == old(out)@ + s.spec_bytes(),
{
    let b = s.as_bytes();
    let mut i: usize = 0;
    let ghost start = out@;
    while i < b.len()
        invariant
            b@ == s.spec_bytes(),
            i <= b.len(),
            out@ == start + b@.take(i as int),
        decreases b.len() - i,
    {
        out.push(b[i]);
        proof {
            assert(b@.take(i + 1) =~= b@.take(i as int).push(b@[i as int]));
        }
        i += 1;
    }
    proof {
        assert(b@.take(b.len() as int) =~= b@);
    }
}

/// A blob name is safe when it cannot leave the store's directory.
pub open spec fn spec_safe_blob_name(hash: Seq<char>) -> bool {
    !hash.contains('/') && find(hash, ".."@) is None
}

/// The store of file snapshots taken before edits: the directory of its
/// blobs and the number of snapshots saved so far.
pub struct UndoStore {
    dir: String,
    save_count: u32,
}

impl UndoStore {
    pub closed spec fn saves(&self) -> nat {
        self.save_count as nat
    }

    pub closed spec fn dir_view(&self) -> Seq<char> {
        self.dir@
    }

    /// A store keeping its blobs in `dir`, with nothing saved yet.
    pub fn with_dir(dir: &str) -> (r: Self)
        ensures
            r.dir_view() == dir@,
            r.saves() == 0,
    {
        UndoStore { dir: String::from_str(dir), save_count: 0 }
    }

    /// How many snapshots have been saved.
    pub fn save_count(&self) -> (r: u32)
        ensures
            r == self.saves(),
    {
        self.save_count
    }

    pub fn dir(&self) -> (r: &str)
        ensures
            r@ == self.dir_view(),
    {
        self.dir.as_str()
    }

    /// The hash a snapshot of `content` at `path` is stored under (see
    /// `spec_snapshot_hash`).
    pub fn snapshot_hash(path: &str, content: &str) -> (r: String)
        ensures
            r@ == spec_snapshot_hash(path@, content@),
            r@.len() == 64,
    {
        let mut data: Vec<u8> = Vec::new();
        append_bytes(&mut data, path);
        data.push(0u8);
        append_bytes(&mut data, content);
        proof {
            assert(data@ =~= snapshot_input(path@, content@));
        }
        let digest = sha256_digest(data.as_slice());
        proof {
            lemma_hex_lower_len(digest@);
        }
        hex_encode(digest.as_slice())
    }

    /// Counts a saved snapshot; true when old blobs are due to be
    /// collected, which is every tenth save.
    pub fn count_save(&mut self) -> (r: bool)
        requires
            old(self).saves() < u32::MAX,
        ensures
            final(self).saves() == old(self).saves() + 1,
            final(self).dir_view() == old(self).dir_view(),
            r == (final(self).saves() % 10 == 0),
    {
        self.save_count = self.save_count + 1;
        self.save_count % 10 == 0
    }

    /// Where the blob of a hash lives, unless the hash could leave the
    /// store's directory.
    pub fn blob_path(&self, hash: &str) -> (r: Option<String>)
        ensures
            match r {
                Some(p) => spec_safe_blob_name(hash@) && p@ == join_path(self.dir_view(), hash@),
                None => !spec_safe_blob_name(hash@),
            },
    {
        if contains_char(hash, '/') || contains_str(hash, "..") {
            return None;
        }
        Some(join_path_exec(self.dir.as_str(), hash))
    }
}

} // verus!
