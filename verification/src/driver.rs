//! The batch driver's decisions: where to start in the ordered account
//! list, which packages of an account yield output rows, and what a whole
//! run amounts to.
//!
//! The driver proper interleaves these decisions with network and
//! subprocess work; that loop lives outside this crate and consults the
//! functions here between its effects.

use vstd::prelude::*;

use crate::measure::PkgError;
use crate::row::{CrateId, CrateInfo};

verus! {

/// Finds where in the ordered account list the run starts: index zero for
/// the default starting id of zero, else the first position whose id
/// equals the starting id; `None` when the starting id never occurs.
pub fn resume_index(uids: &Vec<u64>, start: u64) -> (r: Option<usize>)
    ensures
        start == 0 ==> r == Some(0usize),
        start != 0 ==> match r {
            Some(i) => i < uids@.len() && uids@[i as int] == start && forall|j: int|
                0 <= j < i ==> uids@[j] != start,
            None => forall|j: int| 0 <= j < uids@.len() ==> uids@[j] != start,
        },
{
    if start == 0 {
        return Some(0);
    }
    let mut i: usize = 0;
    while i < uids.len()
        invariant
            start != 0,
            0 <= i <= uids@.len(),
            forall|j: int| 0 <= j < i ==> uids@[j] != start,
        decreases uids@.len() - i,
    {
        if uids[i] == start {
            return Some(i);
        }
        i = i + 1;
    }
    None
}

/// The account id a row of the account-list file carries, read from its
/// fixed column: the value of that field's digits, or `None` when the row
/// is malformed — too few fields, a non-digit byte, or a value that does
/// not fit — which is fatal for the run.
pub open spec fn record_uid_spec(fields: Seq<Seq<u8>>) -> Option<u64> {
    if fields.len() <= 3 {
        None
    } else {
        crate::digits::parsed_u64(fields[3])
    }
}

/// Reads the account id out of one row of the account-list file, whose
/// fields arrive in order.
pub fn record_uid(fields: &Vec<Vec<u8>>) -> (r: Option<u64>)
    ensures
        r == record_uid_spec(fields@.map_values(|f: Vec<u8>| f@)),
{
    proof {
        assert(fields@.map_values(|f: Vec<u8>| f@).len() == fields@.len());
    }
    if fields.len() <= 3 {
        None
    } else {
        proof {
            assert(fields@.map_values(|f: Vec<u8>| f@)[3] == fields@[3]@);
        }
        crate::digits::parse_u64(fields[3].as_slice())
    }
}

/// The rows one account contributes, given its packages in listing order
/// and each package's measurement outcome: one row per `Ok` outcome, in
/// listing order, and none for a skipped package.
pub open spec fn account_rows_spec(
    uid: u64,
    pkgs: Seq<CrateId>,
    outs: Seq<Result<u64, PkgError>>,
) -> Seq<CrateInfo>
    decreases pkgs.len(),
{
    if pkgs.len() == 0 {
        Seq::empty()
    } else {
        let rest = account_rows_spec(uid, pkgs.skip(1), outs.skip(1));
        match outs[0] {
            Ok(loc) => seq![
                CrateInfo { name: pkgs[0].name, version: pkgs[0].version, uid, loc },
            ] + rest,
            Err(_) => rest,
        }
    }
}

/// An account with no packages contributes no row at all.
pub proof fn lemma_no_packages_no_rows(uid: u64)
    ensures
        account_rows_spec(uid, Seq::empty(), Seq::empty()) == Seq::<CrateInfo>::empty(),
{
}

/// Collects one account's batch of output records from its package list
/// and the outcome of each package's measurement.
pub fn account_rows(
    uid: u64,
    pkgs: Vec<CrateId>,
    outs: &Vec<Result<u64, PkgError>>,
) -> (r: Vec<CrateInfo>)
    requires
        pkgs@.len() == outs@.len(),
    ensures
        r@ == account_rows_spec(uid, pkgs@, outs@),
{
    let ghost all_pkgs = pkgs@;
    let n = outs.len();
    let mut rem = pkgs;
    let mut rows: Vec<CrateInfo> = Vec::new();
    let mut i: usize = 0;
    proof {
        assert(outs@.skip(0) =~= outs@);
        assert(Seq::<CrateInfo>::empty() + account_rows_spec(uid, all_pkgs, outs@)
            =~= account_rows_spec(uid, all_pkgs, outs@));
    }
    while rem.len() > 0
        invariant
            n == outs@.len(),
            all_pkgs.len() == outs@.len(),
            i + rem@.len() == outs@.len(),
            i <= all_pkgs.len(),
            i <= n,
            rem@ == all_pkgs.skip(i as int),
            account_rows_spec(uid, all_pkgs, outs@) == rows@ + account_rows_spec(
                uid,
                rem@,
                outs@.skip(i as int),
            ),
        decreases rem@.len(),
    {
        let ghost rem_before = rem@;
        let id = rem.remove(0);
        let out = outs[i];
        proof {
            assert(rem@ =~= rem_before.skip(1));
            assert(i + 1 <= all_pkgs.len());
            vstd::seq_lib::lemma_seq_skip_of_skip(all_pkgs, i as int, 1);
            assert(rem@ =~= all_pkgs.skip(i + 1));
            vstd::seq_lib::lemma_seq_skip_of_skip(outs@, i as int, 1);
            assert(outs@.skip(i as int)[0] == outs@[i as int]);
        }
        let ghost rows_before = rows@;
        match out {
            Ok(loc) => {
                rows.push(CrateInfo { name: id.name, version: id.version, uid, loc });
                proof {
                    assert(rows@ + account_rows_spec(uid, rem@, outs@.skip(i + 1))
                        =~= rows_before + account_rows_spec(uid, rem_before, outs@.skip(i as int)));
                }
            },
            Err(_) => {},
        }
        i = i + 1;
    }
    assert(account_rows_spec(uid, rem@, outs@.skip(i as int)) =~= Seq::<CrateInfo>::empty());
    assert(rows@ =~= rows@ + Seq::<CrateInfo>::empty());
    rows
}

/// How many packages of an account were measured: the outcomes that owe a
/// row.
pub open spec fn ok_count(outs: Seq<Result<u64, PkgError>>) -> nat
    decreases outs.len(),
{
    if outs.len() == 0 {
        0
    } else {
        (if outs[0] is Ok {
            1nat
        } else {
            0nat
        }) + ok_count(outs.skip(1))
    }
}

/// An account's batch holds one row per measured package and none for a
/// skipped one: a package whose measurement failed leaves no trace in the
/// output.
pub proof fn lemma_one_row_per_measured_package(
    uid: u64,
    pkgs: Seq<CrateId>,
    outs: Seq<Result<u64, PkgError>>,
)
    requires
        pkgs.len() == outs.len(),
    ensures
        account_rows_spec(uid, pkgs, outs).len() == ok_count(outs),
    decreases pkgs.len(),
{
    if pkgs.len() > 0 {
        lemma_one_row_per_measured_package(uid, pkgs.skip(1), outs.skip(1));
    }
}

/// Every package with a measured outcome — the degraded zero-line outcome
/// of an unpackable archive included — has its row in the account's batch,
/// carrying exactly the measured count.
pub proof fn lemma_measured_package_has_row(
    uid: u64,
    pkgs: Seq<CrateId>,
    outs: Seq<Result<u64, PkgError>>,
    i: int,
)
    requires
        pkgs.len() == outs.len(),
        0 <= i < pkgs.len(),
        outs[i] is Ok,
    ensures
        exists|k: int|
            0 <= k < account_rows_spec(uid, pkgs, outs).len()
                && account_rows_spec(uid, pkgs, outs)[k] == (CrateInfo {
                name: pkgs[i].name,
                version: pkgs[i].version,
                uid,
                loc: outs[i]->Ok_0,
            }),
    decreases i,
{
    let rows = account_rows_spec(uid, pkgs, outs);
    let rest = account_rows_spec(uid, pkgs.skip(1), outs.skip(1));
    if i == 0 {
        assert(rows[0] == (CrateInfo {
            name: pkgs[0].name,
            version: pkgs[0].version,
            uid,
            loc: outs[0]->Ok_0,
        }));
    } else {
        lemma_measured_package_has_row(uid, pkgs.skip(1), outs.skip(1), i - 1);
        let k = choose|k: int|
            0 <= k < rest.len() && rest[k] == (CrateInfo {
                name: pkgs.skip(1)[i - 1].name,
                version: pkgs.skip(1)[i - 1].version,
                uid,
                loc: outs.skip(1)[i - 1]->Ok_0,
            });
        assert(pkgs.skip(1)[i - 1] == pkgs[i]);
        assert(outs.skip(1)[i - 1] == outs[i]);
        match outs[0] {
            Ok(_) => {
                assert(rows[k + 1] == rest[k]);
            },
            Err(_) => {
                assert(rows[k] == rest[k]);
            },
        }
    }
}

/// One account's share of a run: its id, its packages in listing order,
/// and each package's measurement outcome.
pub ghost struct AccountRun {
    pub uid: u64,
    pub pkgs: Seq<CrateId>,
    pub outs: Seq<Result<u64, PkgError>>,
}

/// Everything a run over these accounts, in order, appends to the metrics
/// file: each account's rows, accounts in input order.
pub open spec fn batch_rows_spec(accts: Seq<AccountRun>) -> Seq<CrateInfo>
    decreases accts.len(),
{
    if accts.len() == 0 {
        Seq::empty()
    } else {
        batch_rows_spec(accts.drop_last()) + account_rows_spec(
            accts.last().uid,
            accts.last().pkgs,
            accts.last().outs,
        )
    }
}

/// Resuming is sound: a run over the accounts from position `k` onward
/// produces exactly the rows a full run would have produced for those
/// accounts — the full run's output is the skipped prefix's output
/// followed by the resumed run's output, unchanged.
pub proof fn lemma_resume_matches_suffix(accts: Seq<AccountRun>, k: int)
    requires
        0 <= k <= accts.len(),
    ensures
        batch_rows_spec(accts) == batch_rows_spec(accts.take(k)) + batch_rows_spec(
            accts.skip(k),
        ),
    decreases accts.len(),
{
    if k == accts.len() {
        assert(accts.take(k) =~= accts);
        assert(batch_rows_spec(accts.skip(k)) =~= Seq::<CrateInfo>::empty());
        assert(batch_rows_spec(accts.take(k)) + batch_rows_spec(accts.skip(k))
            =~= batch_rows_spec(accts));
    } else {
        let dl = accts.drop_last();
        lemma_resume_matches_suffix(dl, k);
        assert(dl.take(k) =~= accts.take(k));
        assert(accts.skip(k).drop_last() =~= dl.skip(k));
        assert(accts.skip(k).last() == accts.last());
        assert(accts.skip(k).len() > 0);
        assert(batch_rows_spec(accts.take(k)) + batch_rows_spec(accts.skip(k))
            =~= batch_rows_spec(accts));
    }
}

} // verus!
