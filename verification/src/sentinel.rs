//! The mark that an automatic backfill was attempted for a checkout.

use vstd::prelude::*;
use vstd::string::*;

use crate::text;

verus! {

/// The SHA-256 digest of a byte string.
pub uninterp spec fn sha256(bytes: Seq<u8>) -> Seq<u8>;

/// `sha2::Sha256::digest` gives the SHA-256 digest of `bytes`, which is 32
/// bytes long and depends on `bytes` alone.
#[verifier::external_body]
fn sha256_digest(bytes: &[u8]) -> (digest: Vec<u8>)
    ensures
        digest@ == sha256(bytes@),
        digest@.len() == 32,
{
    <sha2::Sha256 as sha2::Digest>::digest(bytes).to_vec()
}

/// The directory of the marks.
pub open spec fn state_dir(data_dir: Seq<u8>) -> Seq<u8> {
    text::joined(data_dir, vstd::utf8::encode_utf8("backfill-state"@))
}

/// The mark of a checkout whose path has the given digest: a file named after
/// the digest, in hexadecimal.
pub open spec fn mark_of(data_dir: Seq<u8>, digest: Seq<u8>) -> Seq<u8> {
    text::joined(state_dir(data_dir), text::hex(digest))
}

/// The path of the mark of a checkout whose path has the given digest.
pub fn sentinel_path_of_digest(data_dir: &[u8], digest: &[u8]) -> (path: Vec<u8>)
    ensures
        path@ == mark_of(data_dir@, digest@),
{
    let mut path: Vec<u8> = Vec::new();
    path.extend_from_slice(data_dir);
    assert(path@ == data_dir@);
    text::push_path(&mut path, "backfill-state".as_bytes());
    let mut leaf: Vec<u8> = Vec::new();
    text::push_hex(&mut leaf, digest);
    assert(leaf@ == text::hex(digest@));
    text::push_path(&mut path, leaf.as_slice());
    path
}

/// The path of the file that marks that the automatic backfill was attempted
/// in the working directory `cwd`. Paths are the platform's bytes, separated
/// by slashes; with an empty `data_dir` the path is relative to the data
/// directory.
pub fn sentinel_path(data_dir: &[u8], cwd: &[u8]) -> (path: Vec<u8>)
    ensures
        path@ == mark_of(data_dir@, sha256(cwd@)),
        sha256(cwd@).len() == 32,
{
    let digest = sha256_digest(cwd);
    sentinel_path_of_digest(data_dir, digest.as_slice())
}

/// The mark is one file in the directory of the marks, whatever the working
/// directory is called: its name is 64 hexadecimal digits without a separator.
pub proof fn a_mark_is_one_flat_file(data_dir: Seq<u8>, digest: Seq<u8>)
    requires
        digest.len() == 32,
    ensures
        text::hex(digest).len() == 64,
        forall|i: int| 0 <= i < 64 ==> #[trigger] text::hex(digest)[i] != 47u8,
        mark_of(data_dir, digest) == state_dir(data_dir).push(47u8) + text::hex(digest),
{
    text::hex_is_injective(digest, digest);
    reveal_strlit("backfill-state");
    let name = "backfill-state"@;
    assert(vstd::utf8::is_ascii_chars(name));
    vstd::utf8::is_ascii_chars_encode_utf8(name);
    let leaf = vstd::utf8::encode_utf8(name);
    assert(leaf[0] == 98u8 && leaf.last() == 101u8);
    assert(state_dir(data_dir).last() == 101u8);
    assert(text::hex(digest)[0] != 47u8);
}

/// Under one data directory two checkouts share a mark exactly when their
/// paths have the same digest; the same path always has the same mark.
pub proof fn marks_are_as_distinct_as_digests(data_dir: Seq<u8>, a: Seq<u8>, b: Seq<u8>)
    ensures
        mark_of(data_dir, sha256(a)) == mark_of(data_dir, sha256(b)) <==> sha256(a) == sha256(b),
        a == b ==> mark_of(data_dir, sha256(a)) == mark_of(data_dir, sha256(b)),
{
    let (x, y) = (text::hex(sha256(a)), text::hex(sha256(b)));
    text::hex_is_injective(sha256(a), sha256(b));
    text::hex_is_injective(sha256(b), sha256(a));
    text::joining_tells_leaves_apart(state_dir(data_dir), x, y);
}

/// A mark is the file `backfill-state/<digest>` below the data directory, with
/// the digest in hexadecimal.
pub proof fn a_mark_is_named_after_the_digest(data_dir: Seq<u8>, digest: Seq<u8>)
    ensures
        ({
            let below = vstd::utf8::encode_utf8("backfill-state"@) + seq![47u8] + text::hex(
                digest,
            );
            mark_of(data_dir, digest) == if data_dir.len() == 0 || data_dir.last() == 47u8 {
                data_dir + below
            } else {
                data_dir + seq![47u8] + below
            }
        }),
{
    text::hex_is_injective(digest, digest);
    reveal_strlit("backfill-state");
    let name = "backfill-state"@;
    assert(vstd::utf8::is_ascii_chars(name));
    vstd::utf8::is_ascii_chars_encode_utf8(name);
    let state = vstd::utf8::encode_utf8(name);
    assert(state[0] == 98u8 && state.last() == 101u8);
    let dir = state_dir(data_dir);
    assert(dir.last() == 101u8);
    let leaf = text::hex(digest);
    let below = state + seq![47u8] + leaf;
    if data_dir.len() == 0 || data_dir.last() == 47u8 {
        assert(dir.push(47u8) + leaf == data_dir + below);
    } else {
        assert(dir.push(47u8) + leaf == data_dir + seq![47u8] + below);
    }
}

} // verus!
