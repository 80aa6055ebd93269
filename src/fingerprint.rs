//! Content fingerprint: a deterministic digest of a directory tree's files.
use vstd::prelude::*;
use vstd::utf8::encode_utf8;
use crate::cache::{hex_encode, hex_of, sha256, sha256_of};

verus! {

/// One regular file of a tree: its path relative to the tree's root and its bytes.
pub struct FileEntry {
    pub rel_path: String,
    pub contents: Vec<u8>,
}

/// `n` as `k` little-endian bytes.
pub open spec fn le_bytes(n: nat, k: nat) -> Seq<u8>
    decreases k,
{
    if k == 0 {
        Seq::empty()
    } else {
        seq![(n % 256) as u8] + le_bytes(n / 256, (k - 1) as nat)
    }
}

/// How one file enters the digest: its path, a NUL, its length in 8 bytes, its bytes.
pub open spec fn entry_frame(path: Seq<char>, contents: Seq<u8>) -> Seq<u8> {
    encode_utf8(path) + seq![0u8] + le_bytes(contents.len(), 8) + contents
}

pub open spec fn frames(entries: Seq<FileEntry>) -> Seq<u8>
    decreases entries.len(),
{
    if entries.len() == 0 {
        Seq::empty()
    } else {
        frames(entries.drop_last()) + entry_frame(
            entries.last().rel_path@,
            entries.last().contents@,
        )
    }
}

/// The fingerprint of a tree listed as `entries`.
pub open spec fn fingerprint_of(entries: Seq<FileEntry>) -> Seq<char> {
    hex_of(sha256_of(frames(entries)))
}

fn length_bytes(n: usize) -> (r: Vec<u8>)
    ensures
        r@ == le_bytes(n as nat, 8),
{
    let mut out: Vec<u8> = Vec::new();
    let mut x: u64 = n as u64;
    let mut i: usize = 0;
    while i < 8
        invariant
            i <= 8,
            out@ + le_bytes(x as nat, (8 - i) as nat) == le_bytes(n as nat, 8),
        decreases 8 - i,
    {
        let ghost before = out@;
        out.push((x % 256) as u8);
        assert(le_bytes(x as nat, (8 - i) as nat) == seq![(x % 256) as u8] + le_bytes(
            (x / 256) as nat,
            (8 - i - 1) as nat,
        ));
        assert(out@ + le_bytes((x / 256) as nat, (8 - i - 1) as nat) =~= before + le_bytes(
            x as nat,
            (8 - i) as nat,
        ));
        x = x / 256;
        i = i + 1;
    }
    assert(out@ + le_bytes(x as nat, 0) =~= out@);
    out
}

/// The fingerprint of a directory tree given as its files, listed in a fixed order (by
/// path): equal listings give equal fingerprints.
pub fn hash_entries(entries: &Vec<FileEntry>) -> (r: String)
    ensures
        r@ == fingerprint_of(entries@),
{
    let mut data: Vec<u8> = Vec::new();
    let mut i: usize = 0;
    while i < entries.len()
        invariant
            i <= entries.len(),
            data@ == frames(entries@.subrange(0, i as int)),
        decreases entries.len() - i,
    {
        let e = &entries[i];
        let mut path = e.rel_path.as_str().as_bytes_vec();
        let mut len = length_bytes(e.contents.len());
        let ghost before = data@;
        data.append(&mut path);
        data.push(0u8);
        data.append(&mut len);
        data.extend_from_slice(e.contents.as_slice());
        assert(entries@.subrange(0, i + 1).drop_last() =~= entries@.subrange(0, i as int));
        assert(data@ =~= before + entry_frame(e.rel_path@, e.contents@));
        i = i + 1;
    }
    assert(entries@.subrange(0, i as int) =~= entries@);
    let digest = sha256(data.as_slice());
    hex_encode(digest.as_slice())
}

} // verus!
