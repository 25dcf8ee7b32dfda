//! The query paths' verified helpers: substring filtering of installed
//! records and of snapshot entries by package name, and the tab padding
//! that aligns the version column under a name. Printing the rows is the
//! caller's I/O.
use vstd::prelude::*;
use vstd::string::StrSliceExecFns;
use vstd::string::StringSliceAdditionalSpecFns;
use vstd::string::StringExecFns;

use crate::snapshot::OutdatedEntry;
use crate::store::PackageRecord;
use crate::text::contains_sub;
use crate::text::spec_contains_sub;

verus! {

/// The records whose names contain `pattern`, in order.
pub open spec fn spec_filter_records(
    records: Seq<(Seq<char>, Seq<char>)>,
    pattern: Seq<char>,
) -> Seq<(Seq<char>, Seq<char>)>
    decreases records.len(),
{
    if records.len() == 0 {
        Seq::<(Seq<char>, Seq<char>)>::empty()
    } else {
        let rest = spec_filter_records(records.drop_last(), pattern);
        if spec_contains_sub(records.last().0, pattern) {
            rest.push(records.last())
        } else {
            rest
        }
    }
}

/// Keeps the records whose package name contains `pattern`, in order.
pub fn filter_records(records: &Vec<PackageRecord>, pattern: &str) -> (r: Vec<PackageRecord>)
    ensures
        r.deep_view() == spec_filter_records(records.deep_view(), pattern@),
{
    let mut out: Vec<PackageRecord> = Vec::new();
    let mut i: usize = 0;
    proof {
        assert(records.deep_view().take(0) =~= Seq::<(Seq<char>, Seq<char>)>::empty());
        assert(out.deep_view() =~= Seq::<(Seq<char>, Seq<char>)>::empty());
    }
    while i < records.len()
        invariant
            0 <= i <= records@.len(),
            out.deep_view() == spec_filter_records(
                records.deep_view().take(i as int),
                pattern@,
            ),
        decreases records@.len() - i,
    {
        proof {
            let dv = records.deep_view();
            assert(dv.take(i + 1).drop_last() =~= dv.take(i as int));
            assert(dv.take(i + 1).last() == records@[i as int]@);
        }
        if contains_sub(records[i].name.as_str(), pattern) {
            let copy = PackageRecord {
                name: records[i].name.clone(),
                version: records[i].version.clone(),
            };
            out.push(copy);
        }
        i = i + 1;
    }
    proof {
        assert(records.deep_view().take(records@.len() as int) =~= records.deep_view());
    }
    out
}

/// The entries whose names contain `pattern`, in order.
pub open spec fn spec_filter_entries(
    entries: Seq<(Seq<char>, Seq<char>, Seq<char>)>,
    pattern: Seq<char>,
) -> Seq<(Seq<char>, Seq<char>, Seq<char>)>
    decreases entries.len(),
{
    if entries.len() == 0 {
        Seq::<(Seq<char>, Seq<char>, Seq<char>)>::empty()
    } else {
        let rest = spec_filter_entries(entries.drop_last(), pattern);
        if spec_contains_sub(entries.last().0, pattern) {
            rest.push(entries.last())
        } else {
            rest
        }
    }
}

/// Keeps the snapshot entries whose package name contains `pattern`, in
/// order.
pub fn filter_entries(entries: &Vec<OutdatedEntry>, pattern: &str) -> (r: Vec<OutdatedEntry>)
    ensures
        r.deep_view() == spec_filter_entries(entries.deep_view(), pattern@),
{
    let mut out: Vec<OutdatedEntry> = Vec::new();
    let mut i: usize = 0;
    proof {
        assert(entries.deep_view().take(0) =~= Seq::<(Seq<char>, Seq<char>, Seq<char>)>::empty());
        assert(out.deep_view() =~= Seq::<(Seq<char>, Seq<char>, Seq<char>)>::empty());
    }
    while i < entries.len()
        invariant
            0 <= i <= entries@.len(),
            out.deep_view() == spec_filter_entries(
                entries.deep_view().take(i as int),
                pattern@,
            ),
        decreases entries@.len() - i,
    {
        proof {
            let dv = entries.deep_view();
            assert(dv.take(i + 1).drop_last() =~= dv.take(i as int));
            assert(dv.take(i + 1).last() == entries@[i as int]@);
        }
        if contains_sub(entries[i].name.as_str(), pattern) {
            let copy = OutdatedEntry {
                name: entries[i].name.clone(),
                current: entries[i].current.clone(),
                latest: entries[i].latest.clone(),
            };
            out.push(copy);
        }
        i = i + 1;
    }
    proof {
        assert(entries.deep_view().take(entries@.len() as int) =~= entries.deep_view());
    }
    out
}

/// How many tab stops pad the column after a name of `len` bytes: long
/// names get one, and each 8-byte step down adds one more, anything
/// shorter than 8 bytes (or longer than 32) getting the full four.
pub open spec fn spec_tab_count(len: nat) -> nat {
    if 24 <= len <= 32 {
        1
    } else if 16 <= len <= 23 {
        2
    } else if 8 <= len <= 15 {
        3
    } else {
        4
    }
}

/// The tab padding that follows `package_name` in an aligned listing.
pub fn get_number_of_tabs(package_name: &str) -> (r: String)
    ensures
        r@ =~= Seq::new(spec_tab_count(package_name.spec_bytes().len()), |i: int| '\t'),
{
    let len: usize = package_name.as_bytes().len();
    let r: String;
    if 24 <= len && len <= 32 {
        r = String::from_str("\t");
        proof {
            reveal_strlit("\t");
            assert(r@ =~= Seq::new(spec_tab_count(package_name.spec_bytes().len()), |i: int| '\t'));
        }
    } else if 16 <= len && len <= 23 {
        r = String::from_str("\t\t");
        proof {
            reveal_strlit("\t\t");
            assert(r@ =~= Seq::new(spec_tab_count(package_name.spec_bytes().len()), |i: int| '\t'));
        }
    } else if 8 <= len && len <= 15 {
        r = String::from_str("\t\t\t");
        proof {
            reveal_strlit("\t\t\t");
            assert(r@ =~= Seq::new(spec_tab_count(package_name.spec_bytes().len()), |i: int| '\t'));
        }
    } else {
        r = String::from_str("\t\t\t\t");
        proof {
            reveal_strlit("\t\t\t\t");
            assert(r@ =~= Seq::new(spec_tab_count(package_name.spec_bytes().len()), |i: int| '\t'));
        }
    }
    r
}

} // verus!
