//! The version store: the per-package records of installed versions. A
//! record's existence for a name is the sole source of truth for "is this
//! package installed", independent of what the system package tool
//! believes. On disk each record is one two-line file in the package-info
//! directory; reading and writing those files is the caller's I/O, and the
//! store itself is the verified in-memory image of that directory together
//! with the record file codec.
use vstd::prelude::*;
use vstd::string::StringExecFns;

use crate::errors::DomainErrorCode;
use crate::text::lemma_split_prefix;
use crate::text::lemma_split_whole;
use crate::text::spec_split;
use crate::text::split_on;
use crate::text::str_eq;
use crate::version::make_version;

verus! {

/// One installed package's known version, as `<pkgver>-<pkgrel>`.
pub struct PackageRecord {
    pub name: String,
    pub version: String,
}

impl View for PackageRecord {
    type V = (Seq<char>, Seq<char>);

    open spec fn view(&self) -> (Seq<char>, Seq<char>) {
        (self.name@, self.version@)
    }
}

impl DeepView for PackageRecord {
    type V = (Seq<char>, Seq<char>);

    open spec fn deep_view(&self) -> (Seq<char>, Seq<char>) {
        self@
    }
}

/// Whether a record list holds a record named `name`.
pub open spec fn spec_has_name(records: Seq<(Seq<char>, Seq<char>)>, name: Seq<char>) -> bool {
    exists|i: int| 0 <= i < records.len() && (#[trigger] records[i]).0 == name
}

/// The in-memory image of the package-info directory: one record per
/// installed package, names unique, in directory order.
pub struct VersionStore {
    pub records: Vec<PackageRecord>,
}

impl View for VersionStore {
    type V = Seq<(Seq<char>, Seq<char>)>;

    open spec fn view(&self) -> Seq<(Seq<char>, Seq<char>)> {
        self.records.deep_view()
    }
}

impl VersionStore {
    /// Names are unique: record existence per name is unambiguous.
    pub open spec fn wf(&self) -> bool {
        forall|i: int, j: int|
            0 <= i < j < self@.len() ==> (#[trigger] self@[i]).0 != (#[trigger] self@[j]).0
    }

    /// An empty store, the image of an empty package-info directory.
    pub fn new() -> (r: VersionStore)
        ensures
            r@ == Seq::<(Seq<char>, Seq<char>)>::empty(),
            r.wf(),
    {
        let r = VersionStore { records: Vec::new() };
        proof {
            assert(r@ =~= Seq::<(Seq<char>, Seq<char>)>::empty());
        }
        r
    }

    /// The position of the record named `name`, if one exists.
    fn find(&self, name: &str) -> (r: Option<usize>)
        ensures
            r matches Some(i) ==> i < self@.len() && self@[i as int].0 == name@,
            r is None ==> !spec_has_name(self@, name@),
    {
        let mut i: usize = 0;
        while i < self.records.len()
            invariant
                0 <= i <= self@.len(),
                forall|j: int| 0 <= j < i ==> (#[trigger] self@[j]).0 != name@,
            decreases self@.len() - i,
        {
            if str_eq(self.records[i].name.as_str(), name) {
                return Some(i);
            }
            i = i + 1;
        }
        None
    }

    /// Whether a record for `name` exists, and so whether `name` counts as
    /// installed.
    pub fn contains_name(&self, name: &str) -> (r: bool)
        ensures
            r == spec_has_name(self@, name@),
    {
        self.find(name).is_some()
    }

    /// Writes or overwrites the record for `name` with version
    /// `<pkgver>-<pkgrel>`. An existing record keeps its position; a new
    /// name is appended.
    pub fn save(&mut self, name: &str, pkgver: &str, pkgrel: &str)
        requires
            old(self).wf(),
        ensures
            final(self).wf(),
            spec_has_name(old(self)@, name@) ==> {
                &&& final(self)@.len() == old(self)@.len()
                &&& forall|j: int|
                    0 <= j < old(self)@.len() && (#[trigger] old(self)@[j]).0 != name@
                        ==> final(self)@[j] == old(self)@[j]
                &&& forall|j: int|
                    0 <= j < old(self)@.len() && (#[trigger] old(self)@[j]).0 == name@
                        ==> final(self)@[j] == (name@, pkgver@ + seq!['-'] + pkgrel@)
            },
            !spec_has_name(old(self)@, name@) ==> final(self)@ == old(self)@.push(
                (name@, pkgver@ + seq!['-'] + pkgrel@),
            ),
    {
        let version = make_version(pkgver, pkgrel);
        let record = PackageRecord { name: String::from_str(name), version };
        match self.find(name) {
            Some(i) => {
                self.records[i] = record;
                proof {
                    assert(spec_has_name(old(self)@, name@));
                    assert forall|j: int|
                        0 <= j < old(self)@.len() && j != i implies (#[trigger] old(
                            self,
                        )@[j]).0 != name@ by {
                        if j < i {
                            assert(old(self)@[j].0 != old(self)@[i as int].0);
                        } else {
                            assert(old(self)@[i as int].0 != old(self)@[j].0);
                        }
                    }
                    assert(self@ =~= old(self)@.update(
                        i as int,
                        (name@, pkgver@ + seq!['-'] + pkgrel@),
                    ));
                    assert forall|p: int, q: int|
                        0 <= p < q < self@.len() implies (#[trigger] self@[p]).0
                            != (#[trigger] self@[q]).0 by {
                        if p != i && q != i {
                            assert(old(self)@[p].0 != old(self)@[q].0);
                        } else if p == i {
                            assert(old(self)@[q].0 != name@);
                        } else {
                            assert(old(self)@[p].0 != name@);
                        }
                    }
                }
            },
            None => {
                self.records.push(record);
                proof {
                    assert(self@ =~= old(self)@.push((name@, pkgver@ + seq!['-'] + pkgrel@)));
                    assert forall|p: int, q: int|
                        0 <= p < q < self@.len() implies (#[trigger] self@[p]).0
                            != (#[trigger] self@[q]).0 by {
                        if q != old(self)@.len() {
                            assert(old(self)@[p].0 != old(self)@[q].0);
                        } else {
                            assert(!spec_has_name(old(self)@, name@));
                            assert(self@[q].0 == name@);
                        }
                    }
                }
            },
        }
    }

    /// Removes the record for `name`. A missing record is a deletion
    /// failure, never silently ignored: an inconsistent removal would
    /// corrupt future refreshes.
    pub fn delete(&mut self, name: &str) -> (r: Result<(), DomainErrorCode>)
        requires
            old(self).wf(),
        ensures
            final(self).wf(),
            r is Ok <==> spec_has_name(old(self)@, name@),
            !spec_has_name(old(self)@, name@) ==> r == Err::<(), DomainErrorCode>(
                DomainErrorCode::RecordDeletionFailure,
            ) && final(self)@ == old(self)@,
            spec_has_name(old(self)@, name@) ==> exists|i: int|
                0 <= i < old(self)@.len() && (#[trigger] old(self)@[i]).0 == name@ && final(self)@
                    == old(self)@.remove(i),
    {
        match self.find(name) {
            Some(i) => {
                self.records.remove(i);
                proof {
                    assert(spec_has_name(old(self)@, name@));
                    assert(self@ =~= old(self)@.remove(i as int));
                }
                Ok(())
            },
            None => Err(DomainErrorCode::RecordDeletionFailure),
        }
    }

    /// One record per installed package, in directory order.
    pub fn list_installed(&self) -> (r: &Vec<PackageRecord>)
        ensures
            r.deep_view() == self@,
    {
        &self.records
    }
}

/// The two-line record file content: line 1 the upstream version, line 2
/// the release number.
pub fn format_record(pkgver: &str, pkgrel: &str) -> (r: String)
    ensures
        r@ == pkgver@ + seq!['\n'] + pkgrel@,
{
    let mut r = String::from_str(pkgver);
    r.append("\n");
    r.append(pkgrel);
    proof {
        reveal_strlit("\n");
        assert(r@ =~= pkgver@ + seq!['\n'] + pkgrel@);
    }
    r
}

/// Reads a record file's two lines back. Anything but exactly two lines is
/// a read failure: the record is unreadable, not partially readable.
pub fn parse_record(content: &str) -> (r: Result<(String, String), DomainErrorCode>)
    ensures
        spec_split(content@, '\n').len() == 2 ==> (r matches Ok(p) && p.0@ == spec_split(
            content@,
            '\n',
        )[0] && p.1@ == spec_split(content@, '\n')[1]),
        spec_split(content@, '\n').len() != 2 ==> r == Err::<(String, String), DomainErrorCode>(
            DomainErrorCode::VersionReadFailure,
        ),
{
    let mut lines = split_on(content, '\n');
    if lines.len() == 2 {
        let rel = lines.pop().unwrap();
        let ver = lines.pop().unwrap();
        Ok((ver, rel))
    } else {
        Err(DomainErrorCode::VersionReadFailure)
    }
}

/// Round trip of the record file codec: a record written for a
/// newline-free version and release reads back as itself.
pub proof fn lemma_record_round_trip(pkgver: Seq<char>, pkgrel: Seq<char>)
    requires
        !pkgver.contains('\n'),
        !pkgrel.contains('\n'),
    ensures
        spec_split(pkgver + seq!['\n'] + pkgrel, '\n') =~~= seq![pkgver, pkgrel],
{
    lemma_split_prefix(pkgver, pkgrel, '\n');
    lemma_split_whole(pkgrel, '\n');
    assert(pkgver.add(seq!['\n']).add(pkgrel) =~= pkgver + seq!['\n'] + pkgrel);
}

} // verus!
