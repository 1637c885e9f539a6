//! Content hashes of imported files, and spotting files whose content was
//! imported before.

use vstd::prelude::*;
use sha2::Digest;

verus! {

/// The SHA-256 digest of `data`.
pub uninterp spec fn sha256(data: Seq<u8>) -> Seq<u8>;

/// `sha2::Sha256::digest`: the SHA-256 digest of `data`, 32 bytes long.
#[verifier::external_body]
fn sha256_digest(data: &[u8]) -> (r: Vec<u8>)
    ensures
        r@ == sha256(data@),
        r@.len() == 32,
{
    sha2::Sha256::digest(data).to_vec()
}

/// The lower-case hexadecimal digit of a value below 16.
pub open spec fn hex_digit(x: u8) -> char {
    if x < 10 {
        ((x + 48) as u8) as char
    } else {
        ((x + 87) as u8) as char
    }
}

/// Lower-case hexadecimal text of `data`, two digits per byte.
pub open spec fn hex_lower(data: Seq<u8>) -> Seq<char>
    decreases data.len(),
{
    if data.len() == 0 {
        Seq::empty()
    } else {
        hex_lower(data.drop_last()) + seq![hex_digit(data.last() / 16), hex_digit(data.last() % 16)]
    }
}

fn hex_char(x: u8) -> (c: char)
    requires
        x < 16,
    ensures
        c == hex_digit(x),
{
    if x < 10 {
        (x + 48) as char
    } else {
        (x + 87) as char
    }
}

/// Lower-case hexadecimal text of `data`.
pub fn to_hex(data: &[u8]) -> (s: String)
    ensures
        s@ == hex_lower(data@),
{
    let mut s = String::new();
    let mut i: usize = 0;
    while i < data.len()
        invariant
            i <= data.len(),
            s@ == hex_lower(data@.take(i as int)),
        decreases data.len() - i,
    {
        let b = data[i];
        assert(data@.take(i + 1).drop_last() =~= data@.take(i as int));
        assert(data@.take(i + 1).last() == b);
        s.push(hex_char(b / 16));
        s.push(hex_char(b % 16));
        i += 1;
    }
    assert(data@.take(data.len() as int) =~= data@);
    s
}

/// The content hash of a file with the given bytes: its SHA-256 digest in
/// lower-case hexadecimal.
pub fn content_hash(bytes: &[u8]) -> (h: String)
    ensures
        h@ == hex_lower(sha256(bytes@)),
{
    let d = sha256_digest(bytes);
    to_hex(d.as_slice())
}

/// Whether some previously imported content has the hash `h`.
pub open spec fn hash_seen(previous: Seq<(String, String)>, h: Seq<char>) -> bool {
    exists|i: int| 0 <= i < previous.len() && (#[trigger] previous[i]).1@ == h
}

/// Whether a file is in conflict: it could be read, and the content hash
/// of its bytes equals a previously imported hash.
pub open spec fn is_conflict(contents: Option<Vec<u8>>, previous: Seq<(String, String)>) -> bool {
    match contents {
        Some(b) => hash_seen(previous, hex_lower(sha256(b@))),
        None => false,
    }
}

fn seen(previous: &Vec<(String, String)>, h: &String) -> (b: bool)
    ensures
        b == hash_seen(previous@, h@),
{
    let mut i: usize = 0;
    while i < previous.len()
        invariant
            i <= previous.len(),
            forall|j: int| 0 <= j < i ==> (#[trigger] previous@[j]).1@ != h@,
        decreases previous.len() - i,
    {
        if previous[i].1 == *h {
            return true;
        }
        i += 1;
    }
    false
}

/// Check for conflicts: each file, given with its bytes (`None` when the
/// file could not be read), is paired with whether the content hash of
/// those bytes is among the previously imported hashes (the values of
/// `previous_hashes`); a file that could not be read is no conflict.
pub fn detect_conflicts(files: &Vec<(String, Option<Vec<u8>>)>, previous_hashes: &Vec<(String, String)>) -> (r: Vec<(String, bool)>)
    ensures
        r@.len() == files@.len(),
        forall|i: int|
            0 <= i < files@.len() ==> (#[trigger] r@[i]).0@ == files@[i].0@ && r@[i].1
                == is_conflict(files@[i].1, previous_hashes@),
{
    let mut r: Vec<(String, bool)> = Vec::new();
    let mut i: usize = 0;
    while i < files.len()
        invariant
            i <= files.len(),
            r@.len() == i,
            forall|k: int|
                0 <= k < i ==> (#[trigger] r@[k]).0@ == files@[k].0@ && r@[k].1 == is_conflict(
                    files@[k].1,
                    previous_hashes@,
                ),
        decreases files.len() - i,
    {
        let conflict = match &files[i].1 {
            Some(bytes) => {
                let h = content_hash(bytes.as_slice());
                seen(previous_hashes, &h)
            },
            None => false,
        };
        r.push((files[i].0.clone(), conflict));
        i += 1;
    }
    r
}

} // verus!
