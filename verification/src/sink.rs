//! The metrics sink: an append-only file of rows, bootstrapped with a fixed
//! header row when it does not yet exist.
//!
//! The file itself lives outside this crate; here its contents are modeled
//! as a byte sequence.  Existing content is never rewritten: a run appends
//! rows after whatever is already there, which is what makes a restarted
//! batch safe.

use vstd::prelude::*;

use crate::row::{rows_bytes, CrateInfo};

verus! {

/// The fixed header row, `crate,version,uid,loc` ended by a line feed.
pub open spec fn header_bytes() -> Seq<u8> {
    seq![
        99u8,
        114u8,
        97u8,
        116u8,
        101u8,
        44u8,
        118u8,
        101u8,
        114u8,
        115u8,
        105u8,
        111u8,
        110u8,
        44u8,
        117u8,
        105u8,
        100u8,
        44u8,
        108u8,
        111u8,
        99u8,
        10u8,
    ]
}

/// The file's contents right after the bootstrap step: the header alone
/// when the file was absent, the existing contents untouched otherwise.
pub open spec fn bootstrapped(prev: Option<Seq<u8>>) -> Seq<u8> {
    match prev {
        None => header_bytes(),
        Some(c) => c,
    }
}

/// The file's contents after one append of a batch of records.
pub open spec fn appended(content: Seq<u8>, ms: Seq<CrateInfo>) -> Seq<u8> {
    content + rows_bytes(ms)
}

/// The header row as bytes, for the process that creates the file.
pub fn header_row() -> (r: Vec<u8>)
    ensures
        r@ == header_bytes(),
{
    let mut out: Vec<u8> = Vec::new();
    out.push(99);
    out.push(114);
    out.push(97);
    out.push(116);
    out.push(101);
    out.push(44);
    out.push(118);
    out.push(101);
    out.push(114);
    out.push(115);
    out.push(105);
    out.push(111);
    out.push(110);
    out.push(44);
    out.push(117);
    out.push(105);
    out.push(100);
    out.push(44);
    out.push(108);
    out.push(111);
    out.push(99);
    out.push(10);
    assert(out@ =~= header_bytes());
    out
}

/// Bootstrapping a missing file writes exactly the header row, and
/// bootstrapping a file that already exists leaves its contents untouched —
/// so a second bootstrap never duplicates the header.
pub proof fn lemma_bootstrap_idempotent()
    ensures
        bootstrapped(None) == header_bytes(),
        forall|c: Seq<u8>| bootstrapped(Some(c)) == c,
        bootstrapped(Some(bootstrapped(None))) == header_bytes(),
{
}

/// Appending an empty batch leaves the file exactly as it was: an account
/// without packages contributes no row.
pub proof fn lemma_append_nothing(content: Seq<u8>)
    ensures
        appended(content, Seq::empty()) == content,
{
    assert(appended(content, Seq::empty()) =~= content);
}

/// Flushing account batches one at a time leaves the same file as one
/// flush of all their records together: how the run groups its appends
/// cannot be seen in the output.
pub proof fn lemma_flush_per_account(
    content: Seq<u8>,
    first: Seq<CrateInfo>,
    second: Seq<CrateInfo>,
)
    ensures
        appended(appended(content, first), second) == appended(content, first + second),
{
    crate::row::lemma_rows_bytes_concat(first, second);
    assert(appended(appended(content, first), second) =~= appended(content, first + second));
}

} // verus!
