//! The records that flow through the batch, and their encoding as rows of
//! the comma-separated metrics file.
//!
//! Text travels as UTF-8 bytes.  A field that contains a comma, a double
//! quote or a line break is written quoted, with each inner double quote
//! doubled; any other field is written as it stands.

use vstd::prelude::*;

use crate::digits::dec_digits;

verus! {

/// One published package: its name and the version whose archive is
/// measured.
pub struct CrateId {
    pub name: Vec<u8>,
    pub version: Vec<u8>,
}

/// The durable output record for one measured package.  `loc` is zero when
/// the archive could not be unpacked (measured as empty), never when the
/// measurement itself failed — a failed measurement produces no record.
pub struct CrateInfo {
    pub name: Vec<u8>,
    pub version: Vec<u8>,
    pub uid: u64,
    pub loc: u64,
}

/// The byte needs the field to be quoted: comma, double quote, or a line
/// break.
pub open spec fn quote_trigger(b: u8) -> bool {
    b == 44 || b == 34 || b == 10 || b == 13
}

/// Some byte of the field forces quoting.
pub open spec fn needs_quoting(s: Seq<u8>) -> bool {
    exists|i: int| 0 <= i < s.len() && quote_trigger(#[trigger] s[i])
}

/// The field's bytes with every double quote doubled.
pub open spec fn doubled_quotes(s: Seq<u8>) -> Seq<u8>
    decreases s.len(),
{
    if s.len() == 0 {
        Seq::empty()
    } else {
        doubled_quotes(s.drop_last()) + (if s.last() == 34 {
            seq![34u8, 34u8]
        } else {
            seq![s.last()]
        })
    }
}

/// A field as it stands in a row: quoted with doubled inner quotes when any
/// byte forces it, verbatim otherwise.
pub open spec fn encoded_field(s: Seq<u8>) -> Seq<u8> {
    if needs_quoting(s) {
        seq![34u8] + doubled_quotes(s) + seq![34u8]
    } else {
        s
    }
}

/// One full output row: the four fields comma-separated, ended by a line
/// feed.
pub open spec fn row_bytes(m: CrateInfo) -> Seq<u8> {
    encoded_field(m.name@) + seq![44u8] + encoded_field(m.version@) + seq![44u8] + dec_digits(
        m.uid as nat,
    ) + seq![44u8] + dec_digits(m.loc as nat) + seq![10u8]
}

/// The rows for a batch of records, in order.
pub open spec fn rows_bytes(ms: Seq<CrateInfo>) -> Seq<u8>
    decreases ms.len(),
{
    if ms.len() == 0 {
        Seq::empty()
    } else {
        rows_bytes(ms.drop_last()) + row_bytes(ms.last())
    }
}

/// Row encoding distributes over batches: encoding two batches one after
/// the other yields the same bytes as encoding their concatenation.
pub proof fn lemma_rows_bytes_concat(a: Seq<CrateInfo>, b: Seq<CrateInfo>)
    ensures
        rows_bytes(a + b) == rows_bytes(a) + rows_bytes(b),
    decreases b.len(),
{
    if b.len() == 0 {
        assert(a + b =~= a);
        assert(rows_bytes(a) + rows_bytes(b) =~= rows_bytes(a));
    } else {
        lemma_rows_bytes_concat(a, b.drop_last());
        assert((a + b).drop_last() =~= a + b.drop_last());
        assert((a + b).last() == b.last());
        assert((a + b).len() > 0);
        assert(rows_bytes(a) + rows_bytes(b) =~= rows_bytes(a) + rows_bytes(b.drop_last())
            + row_bytes(b.last()));
    }
}

/// Appends the encoding of one field to `out`.
fn push_field(s: &Vec<u8>, out: &mut Vec<u8>)
    ensures
        final(out)@ == old(out)@ + encoded_field(s@),
{
    let mut quoted = false;
    let mut i: usize = 0;
    while i < s.len()
        invariant
            0 <= i <= s@.len(),
            quoted == needs_quoting(s@.take(i as int)),
        decreases s@.len() - i,
    {
        let b = s[i];
        proof {
            assert(s@.take(i + 1)[i as int] == s@[i as int]);
            assert(forall|j: int|
                0 <= j < i ==> s@.take(i + 1)[j] == #[trigger] s@.take(i as int)[j]);
        }
        if b == 44 || b == 34 || b == 10 || b == 13 {
            quoted = true;
        }
        i = i + 1;
    }
    assert(s@.take(i as int) =~= s@);
    if !quoted {
        let mut j: usize = 0;
        while j < s.len()
            invariant
                0 <= j <= s@.len(),
                !needs_quoting(s@),
                out@ == old(out)@ + s@.take(j as int),
            decreases s@.len() - j,
        {
            out.push(s[j]);
            proof {
                assert(old(out)@ + s@.take(j + 1) =~= (old(out)@ + s@.take(j as int)).push(
                    s@[j as int],
                ));
            }
            j = j + 1;
        }
        assert(s@.take(s@.len() as int) =~= s@);
    } else {
        out.push(34);
        let mut j: usize = 0;
        while j < s.len()
            invariant
                0 <= j <= s@.len(),
                out@ == old(out)@ + seq![34u8] + doubled_quotes(s@.take(j as int)),
            decreases s@.len() - j,
        {
            let b = s[j];
            proof {
                assert(s@.take(j + 1).drop_last() =~= s@.take(j as int));
                assert(s@.take(j + 1).last() == s@[j as int]);
            }
            if b == 34 {
                out.push(34);
                out.push(34);
                assert(out@ =~= old(out)@ + seq![34u8] + doubled_quotes(s@.take(j + 1)));
            } else {
                out.push(b);
                assert(out@ =~= old(out)@ + seq![34u8] + doubled_quotes(s@.take(j + 1)));
            }
            j = j + 1;
        }
        assert(s@.take(s@.len() as int) =~= s@);
        out.push(34);
        assert(out@ =~= old(out)@ + encoded_field(s@));
    }
}

/// Encodes one record as a full output row.
pub fn encode_row(m: &CrateInfo) -> (r: Vec<u8>)
    ensures
        r@ == row_bytes(*m),
{
    let mut out: Vec<u8> = Vec::new();
    push_field(&m.name, &mut out);
    out.push(44);
    push_field(&m.version, &mut out);
    out.push(44);
    let mut uid_digits = crate::digits::format_u64(m.uid);
    out.append(&mut uid_digits);
    out.push(44);
    let mut loc_digits = crate::digits::format_u64(m.loc);
    out.append(&mut loc_digits);
    out.push(10);
    assert(out@ =~= row_bytes(*m));
    out
}

/// Encodes a batch of records as consecutive rows.
pub fn encode_rows(ms: &Vec<CrateInfo>) -> (r: Vec<u8>)
    ensures
        r@ == rows_bytes(ms@),
{
    let mut out: Vec<u8> = Vec::new();
    let mut i: usize = 0;
    while i < ms.len()
        invariant
            0 <= i <= ms@.len(),
            out@ == rows_bytes(ms@.take(i as int)),
        decreases ms@.len() - i,
    {
        let mut row = encode_row(&ms[i]);
        out.append(&mut row);
        proof {
            assert(ms@.take(i + 1).drop_last() =~= ms@.take(i as int));
            assert(ms@.take(i + 1).last() == ms@[i as int]);
        }
        i = i + 1;
    }
    assert(ms@.take(ms@.len() as int) =~= ms@);
    out
}

} // verus!
