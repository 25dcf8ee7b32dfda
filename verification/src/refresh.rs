//! The refresh engine's decision core. A refresh pass walks the installed
//! records one at a time, has the delegated fetch path obtain the latest
//! candidate version for each, and keeps a package exactly when the
//! fetched version differs from the stored one and the comparator ranks
//! it newer. Fetching is the caller's I/O; the per-package decision and
//! the whole-pass accumulation are verified here, and completion always
//! yields a snapshot to persist, possibly empty.
use vstd::prelude::*;
use vstd::string::StringExecFns;

use crate::snapshot::OutdatedEntry;
use crate::store::PackageRecord;
use crate::version::is_newer;
use crate::version::spec_is_newer;
use crate::text::str_eq;

verus! {

/// The snapshot a refresh pass produces from installed records and the
/// candidate version fetched for each: one entry per package whose
/// candidate differs from the stored version and ranks newer, in the
/// records' order.
pub open spec fn spec_outdated(
    records: Seq<(Seq<char>, Seq<char>)>,
    fetched: Seq<Seq<char>>,
) -> Seq<(Seq<char>, Seq<char>, Seq<char>)>
    recommends
        records.len() == fetched.len(),
    decreases records.len(),
{
    if records.len() == 0 {
        Seq::<(Seq<char>, Seq<char>, Seq<char>)>::empty()
    } else {
        let rest = spec_outdated(records.drop_last(), fetched.drop_last());
        let rec = records.last();
        let cand = fetched.last();
        if rec.1 != cand && spec_is_newer(rec.1, cand) {
            rest.push((rec.0, rec.1, cand))
        } else {
            rest
        }
    }
}

/// One package's refresh decision: the entry to record for it, or nothing
/// when the fetched version is no newer than the stored one.
pub fn refresh_step(record: &PackageRecord, latest: &str) -> (r: Option<OutdatedEntry>)
    ensures
        record@.1 != latest@ && spec_is_newer(record@.1, latest@) ==> (r matches Some(e) && e@
            == (record@.0, record@.1, latest@)),
        !(record@.1 != latest@ && spec_is_newer(record@.1, latest@)) ==> r is None,
{
    if !str_eq(record.version.as_str(), latest) && is_newer(record.version.as_str(), latest) {
        Some(
            OutdatedEntry {
                name: record.name.clone(),
                current: record.version.clone(),
                latest: String::from_str(latest),
            },
        )
    } else {
        None
    }
}

/// A whole refresh pass over records and the versions fetched for them,
/// one fetched version per record.
pub fn compute_outdated(records: &Vec<PackageRecord>, fetched: &Vec<String>) -> (r: Vec<
    OutdatedEntry,
>)
    requires
        records@.len() == fetched@.len(),
    ensures
        r.deep_view() == spec_outdated(records.deep_view(), fetched.deep_view()),
{
    let mut out: Vec<OutdatedEntry> = Vec::new();
    let mut i: usize = 0;
    proof {
        assert(records.deep_view().take(0) =~= Seq::<(Seq<char>, Seq<char>)>::empty());
        assert(fetched.deep_view().take(0) =~= Seq::<Seq<char>>::empty());
        assert(out.deep_view() =~= Seq::<(Seq<char>, Seq<char>, Seq<char>)>::empty());
    }
    while i < records.len()
        invariant
            records@.len() == fetched@.len(),
            0 <= i <= records@.len(),
            out.deep_view() == spec_outdated(
                records.deep_view().take(i as int),
                fetched.deep_view().take(i as int),
            ),
        decreases records@.len() - i,
    {
        let step = refresh_step(&records[i], fetched[i].as_str());
        proof {
            let rdv = records.deep_view();
            let fdv = fetched.deep_view();
            assert(rdv.take(i + 1).drop_last() =~= rdv.take(i as int));
            assert(fdv.take(i + 1).drop_last() =~= fdv.take(i as int));
            assert(rdv.take(i + 1).last() == records@[i as int]@);
            assert(fdv.take(i + 1).last() == fetched@[i as int]@);
        }
        match step {
            Some(e) => {
                out.push(e);
            },
            None => {},
        }
        i = i + 1;
    }
    proof {
        assert(records.deep_view().take(records@.len() as int) =~= records.deep_view());
        assert(fetched.deep_view().take(fetched@.len() as int) =~= fetched.deep_view());
    }
    out
}

} // verus!
