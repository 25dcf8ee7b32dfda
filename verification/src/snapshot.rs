//! The outdated-packages snapshot codec. A refresh pass persists its
//! result as a flat file, one line `"<name> <current> <latest>"` per
//! outdated package, and the apply and report paths read it back. The
//! empty file is the canonical "everything up to date" state, distinct
//! from an absent file, so writing an empty snapshot is never skipped.
//! Reading and writing the file itself is the caller's I/O; the verified
//! content codec is here.
use vstd::prelude::*;
use vstd::string::StringExecFns;

use crate::errors::DomainErrorCode;
use crate::text::lemma_concat_free;
use crate::text::lemma_split_prefix;
use crate::text::lemma_split_whole;
use crate::text::spec_split;
use crate::text::split_on;

verus! {

/// One row of a snapshot: a package, its installed version, and the newer
/// version a refresh discovered.
pub struct OutdatedEntry {
    pub name: String,
    pub current: String,
    pub latest: String,
}

impl View for OutdatedEntry {
    type V = (Seq<char>, Seq<char>, Seq<char>);

    open spec fn view(&self) -> (Seq<char>, Seq<char>, Seq<char>) {
        (self.name@, self.current@, self.latest@)
    }
}

impl DeepView for OutdatedEntry {
    type V = (Seq<char>, Seq<char>, Seq<char>);

    open spec fn deep_view(&self) -> (Seq<char>, Seq<char>, Seq<char>) {
        self@
    }
}

/// An entry the flat file can carry faithfully: names and versions hold
/// neither the field separator nor the line terminator. Names are assumed
/// space-free; no escaping is applied.
pub open spec fn entry_wf(e: (Seq<char>, Seq<char>, Seq<char>)) -> bool {
    &&& !e.0.contains(' ') && !e.0.contains('\n')
    &&& !e.1.contains(' ') && !e.1.contains('\n')
    &&& !e.2.contains(' ') && !e.2.contains('\n')
}

/// One snapshot line, without its terminator.
pub open spec fn spec_entry_line(e: (Seq<char>, Seq<char>, Seq<char>)) -> Seq<char> {
    e.0 + seq![' '] + e.1 + seq![' '] + e.2
}

/// The whole snapshot file: each entry's line followed by a newline. Zero
/// entries give the empty file.
pub open spec fn spec_snapshot_text(entries: Seq<(Seq<char>, Seq<char>, Seq<char>)>) -> Seq<char>
    decreases entries.len(),
{
    if entries.len() == 0 {
        Seq::<char>::empty()
    } else {
        spec_entry_line(entries.first()) + seq!['\n'] + spec_snapshot_text(entries.drop_first())
    }
}

/// Appending an entry appends its line.
pub proof fn lemma_snapshot_text_push(
    entries: Seq<(Seq<char>, Seq<char>, Seq<char>)>,
    e: (Seq<char>, Seq<char>, Seq<char>),
)
    ensures
        spec_snapshot_text(entries.push(e)) =~= spec_snapshot_text(entries) + spec_entry_line(e)
            + seq!['\n'],
    decreases entries.len(),
{
    if entries.len() == 0 {
        assert(entries.push(e).drop_first() =~= entries);
        assert(entries.push(e).first() == e);
    } else {
        assert(entries.push(e).first() == entries.first());
        assert(entries.push(e).drop_first() =~= entries.drop_first().push(e));
        lemma_snapshot_text_push(entries.drop_first(), e);
    }
}

/// Serializes a snapshot, the content that overwrites the snapshot file
/// wholesale. An empty snapshot serializes to the empty (zero-line) file.
pub fn format_snapshot(entries: &Vec<OutdatedEntry>) -> (r: String)
    ensures
        r@ == spec_snapshot_text(entries.deep_view()),
{
    let mut r = String::new();
    let mut i: usize = 0;
    proof {
        assert(entries.deep_view().take(0) =~= Seq::<(Seq<char>, Seq<char>, Seq<char>)>::empty());
    }
    while i < entries.len()
        invariant
            0 <= i <= entries.deep_view().len(),
            entries.deep_view().len() == entries@.len(),
            r@ == spec_snapshot_text(entries.deep_view().take(i as int)),
        decreases entries@.len() - i,
    {
        let e = &entries[i];
        r.append(e.name.as_str());
        r.append(" ");
        r.append(e.current.as_str());
        r.append(" ");
        r.append(e.latest.as_str());
        r.append("\n");
        proof {
            reveal_strlit(" ");
            reveal_strlit("\n");
            let dv = entries.deep_view();
            lemma_snapshot_text_push(dv.take(i as int), dv[i as int]);
            assert(dv.take(i + 1) =~= dv.take(i as int).push(dv[i as int]));
            assert(r@ =~= spec_snapshot_text(dv.take(i as int)) + spec_entry_line(dv[i as int])
                + seq!['\n']);
        }
        i = i + 1;
    }
    proof {
        assert(entries.deep_view().take(entries@.len() as int) =~= entries.deep_view());
    }
    r
}

/// The content the "nothing outdated" case writes: indistinguishable on
/// disk from serializing a snapshot with zero entries.
pub fn empty_snapshot_text() -> (r: String)
    ensures
        r@ == spec_snapshot_text(Seq::<(Seq<char>, Seq<char>, Seq<char>)>::empty()),
        r@.len() == 0,
{
    String::new()
}

/// One line's decomposition: exactly three space-separated fields, or
/// nothing.
pub open spec fn spec_parse_line(line: Seq<char>) -> Option<(Seq<char>, Seq<char>, Seq<char>)> {
    let f = spec_split(line, ' ');
    if f.len() == 3 {
        Some((f[0], f[1], f[2]))
    } else {
        None
    }
}

/// The decomposition of a list of lines; one malformed line spoils the
/// whole list.
pub open spec fn spec_parse_lines(lines: Seq<Seq<char>>) -> Option<
    Seq<(Seq<char>, Seq<char>, Seq<char>)>,
>
    decreases lines.len(),
{
    if lines.len() == 0 {
        Some(Seq::<(Seq<char>, Seq<char>, Seq<char>)>::empty())
    } else {
        match spec_parse_lines(lines.drop_last()) {
            None => None,
            Some(es) => match spec_parse_line(lines.last()) {
                None => None,
                Some(e) => Some(es.push(e)),
            },
        }
    }
}

/// The snapshot a file content denotes: the empty content denotes zero
/// entries, and otherwise the content splits into lines, one trailing
/// empty line (the final newline) is dropped, and every line must
/// decompose into exactly three fields.
pub open spec fn spec_parse_snapshot(content: Seq<char>) -> Option<
    Seq<(Seq<char>, Seq<char>, Seq<char>)>,
> {
    if content.len() == 0 {
        Some(Seq::<(Seq<char>, Seq<char>, Seq<char>)>::empty())
    } else {
        let ls = spec_split(content, '\n');
        let trimmed = if ls.last().len() == 0 {
            ls.drop_last()
        } else {
            ls
        };
        spec_parse_lines(trimmed)
    }
}

/// A line that fails to decompose spoils the list, wherever it stands.
proof fn lemma_parse_lines_bad(lines: Seq<Seq<char>>, j: int)
    requires
        0 <= j < lines.len(),
        spec_parse_line(lines[j]) is None,
    ensures
        spec_parse_lines(lines) is None,
    decreases lines.len(),
{
    if j == lines.len() - 1 {
    } else {
        assert(lines.drop_last()[j] == lines[j]);
        lemma_parse_lines_bad(lines.drop_last(), j);
    }
}

/// Parses a snapshot file's content. The empty content is zero entries,
/// never one entry with empty fields; any line that does not decompose
/// into exactly three space-separated fields is a fatal read error, not a
/// line to skip.
pub fn parse_snapshot(content: &str) -> (r: Result<Vec<OutdatedEntry>, DomainErrorCode>)
    ensures
        spec_parse_snapshot(content@) matches Some(es) ==> (r matches Ok(v) && v.deep_view()
            == es),
        spec_parse_snapshot(content@) is None ==> r == Err::<Vec<OutdatedEntry>, DomainErrorCode>(
            DomainErrorCode::VersionReadFailure,
        ),
{
    if content.is_empty() {
        let v: Vec<OutdatedEntry> = Vec::new();
        proof {
            assert(v.deep_view() =~= Seq::<(Seq<char>, Seq<char>, Seq<char>)>::empty());
        }
        return Ok(v);
    }
    let mut lines = split_on(content, '\n');
    proof {
        crate::text::lemma_split_len(content@, '\n');
    }
    if lines[lines.len() - 1].as_str().is_empty() {
        lines.pop();
    }
    let ghost trimmed = {
        let ls = spec_split(content@, '\n');
        if ls.last().len() == 0 {
            ls.drop_last()
        } else {
            ls
        }
    };
    proof {
        assert(lines.deep_view() =~= trimmed);
    }
    let mut out: Vec<OutdatedEntry> = Vec::new();
    let mut i: usize = 0;
    proof {
        assert(trimmed.take(0) =~= Seq::<Seq<char>>::empty());
        assert(out.deep_view() =~= Seq::<(Seq<char>, Seq<char>, Seq<char>)>::empty());
    }
    while i < lines.len()
        invariant
            0 <= i <= lines@.len(),
            content@.len() != 0,
            spec_split(content@, '\n').len() >= 1,
            trimmed == ({
                let ls = spec_split(content@, '\n');
                if ls.last().len() == 0 {
                    ls.drop_last()
                } else {
                    ls
                }
            }),
            lines.deep_view() == trimmed,
            spec_parse_lines(trimmed.take(i as int)) == Some(out.deep_view()),
        decreases lines@.len() - i,
    {
        let mut fields = split_on(lines[i].as_str(), ' ');
        if fields.len() != 3 {
            proof {
                assert(fields.deep_view() == spec_split(trimmed[i as int], ' '));
                assert(spec_split(trimmed[i as int], ' ').len() != 3);
                assert(spec_parse_line(trimmed[i as int]) is None);
                lemma_parse_lines_bad(trimmed, i as int);
                assert(spec_parse_lines(trimmed) is None);
                assert(spec_parse_snapshot(content@) is None);
            }
            return Err(DomainErrorCode::VersionReadFailure);
        }
        let latest = fields.pop().unwrap();
        let current = fields.pop().unwrap();
        let name = fields.pop().unwrap();
        let entry = OutdatedEntry { name, current, latest };
        out.push(entry);
        proof {
            let t = trimmed.take(i + 1);
            assert(t.drop_last() =~= trimmed.take(i as int));
            assert(t.last() == trimmed[i as int]);
            assert(spec_parse_line(trimmed[i as int]) == Some(entry@));
            assert(spec_parse_lines(t) == Some(out.deep_view()));
        }
        i = i + 1;
    }
    proof {
        assert(trimmed.take(trimmed.len() as int) =~= trimmed);
    }
    Ok(out)
}

/// The lines a snapshot's entries denote, in order.
pub open spec fn spec_entry_lines(entries: Seq<(Seq<char>, Seq<char>, Seq<char>)>) -> Seq<
    Seq<char>,
> {
    Seq::new(entries.len(), |i: int| spec_entry_line(entries[i]))
}

/// A well-formed entry's line is newline-free.
proof fn lemma_entry_line_free(e: (Seq<char>, Seq<char>, Seq<char>))
    requires
        entry_wf(e),
    ensures
        !spec_entry_line(e).contains('\n'),
{
    lemma_concat_free(e.0, seq![' '], '\n');
    lemma_concat_free(e.0 + seq![' '], e.1, '\n');
    lemma_concat_free(e.0 + seq![' '] + e.1, seq![' '], '\n');
    lemma_concat_free(e.0 + seq![' '] + e.1 + seq![' '], e.2, '\n');
}

/// Splitting a serialized snapshot on newlines yields its entry lines plus
/// the one empty segment the final newline leaves.
proof fn lemma_lines_of_text(entries: Seq<(Seq<char>, Seq<char>, Seq<char>)>)
    requires
        forall|i: int| 0 <= i < entries.len() ==> entry_wf(#[trigger] entries[i]),
    ensures
        spec_split(spec_snapshot_text(entries), '\n') =~~= spec_entry_lines(entries).push(
            Seq::<char>::empty(),
        ),
    decreases entries.len(),
{
    if entries.len() == 0 {
        assert(spec_split(Seq::<char>::empty(), '\n') =~~= seq![Seq::<char>::empty()]);
        assert(spec_entry_lines(entries).push(Seq::<char>::empty()) =~~= seq![
            Seq::<char>::empty(),
        ]);
    } else {
        let line0 = spec_entry_line(entries.first());
        let rest = spec_snapshot_text(entries.drop_first());
        assert(entry_wf(entries[0]));
        lemma_entry_line_free(entries.first());
        assert(spec_snapshot_text(entries) =~= line0.add(seq!['\n']).add(rest));
        lemma_split_prefix(line0, rest, '\n');
        lemma_lines_of_text(entries.drop_first());
        assert(spec_entry_lines(entries) =~~= seq![line0].add(
            spec_entry_lines(entries.drop_first()),
        ));
    }
}

/// A well-formed entry's line decomposes back into exactly its fields.
proof fn lemma_parse_entry_line(e: (Seq<char>, Seq<char>, Seq<char>))
    requires
        entry_wf(e),
    ensures
        spec_parse_line(spec_entry_line(e)) == Some(e),
{
    let tail = e.1 + seq![' '] + e.2;
    assert(spec_entry_line(e) =~= e.0.add(seq![' ']).add(tail));
    lemma_split_prefix(e.0, tail, ' ');
    assert(tail =~= e.1.add(seq![' ']).add(e.2));
    lemma_split_prefix(e.1, e.2, ' ');
    lemma_split_whole(e.2, ' ');
    assert(spec_split(spec_entry_line(e), ' ') =~~= seq![e.0, e.1, e.2]);
}

/// The entry lines of a well-formed snapshot decompose back into its
/// entries.
proof fn lemma_parse_entry_lines(entries: Seq<(Seq<char>, Seq<char>, Seq<char>)>)
    requires
        forall|i: int| 0 <= i < entries.len() ==> entry_wf(#[trigger] entries[i]),
    ensures
        spec_parse_lines(spec_entry_lines(entries)) == Some(entries),
    decreases entries.len(),
{
    let lines = spec_entry_lines(entries);
    if entries.len() == 0 {
        assert(lines.len() == 0);
        assert(spec_parse_lines(lines) == Some(Seq::<(Seq<char>, Seq<char>, Seq<char>)>::empty()));
        assert(Seq::<(Seq<char>, Seq<char>, Seq<char>)>::empty() =~= entries);
    } else {
        assert(lines.drop_last() =~~= spec_entry_lines(entries.drop_last()));
        lemma_parse_entry_lines(entries.drop_last());
        assert(lines.last() == spec_entry_line(entries.last()));
        lemma_parse_entry_line(entries.last());
        assert(entries.drop_last().push(entries.last()) =~= entries);
    }
}

/// The empty-snapshot distinction: writing the "nothing outdated" content
/// and reading it back yields zero entries, never one entry with empty
/// fields, and that content is exactly the serialization of zero entries.
pub proof fn lemma_empty_snapshot_round_trip()
    ensures
        spec_snapshot_text(Seq::<(Seq<char>, Seq<char>, Seq<char>)>::empty()) == Seq::<
            char,
        >::empty(),
        spec_parse_snapshot(Seq::<char>::empty()) == Some(
            Seq::<(Seq<char>, Seq<char>, Seq<char>)>::empty(),
        ),
{
}

/// Round trip: a snapshot whose fields are free of separators serializes
/// and parses back to the identical ordered sequence of entries. The
/// empty snapshot comes back as zero entries, never as one empty-field
/// entry.
pub proof fn lemma_snapshot_round_trip(entries: Seq<(Seq<char>, Seq<char>, Seq<char>)>)
    requires
        forall|i: int| 0 <= i < entries.len() ==> entry_wf(#[trigger] entries[i]),
    ensures
        spec_parse_snapshot(spec_snapshot_text(entries)) == Some(entries),
{
    let text = spec_snapshot_text(entries);
    if entries.len() == 0 {
        assert(text.len() == 0);
        assert(spec_parse_snapshot(text) == Some(Seq::<(Seq<char>, Seq<char>, Seq<char>)>::empty()));
        assert(Seq::<(Seq<char>, Seq<char>, Seq<char>)>::empty() =~= entries);
    } else {
        assert(text.len() > 0) by {
            assert(text =~= spec_entry_line(entries.first()).add(seq!['\n']).add(
                spec_snapshot_text(entries.drop_first()),
            ));
        }
        lemma_lines_of_text(entries);
        let ls = spec_split(text, '\n');
        assert(ls.last().len() == 0);
        assert(ls.drop_last() =~~= spec_entry_lines(entries));
        lemma_parse_entry_lines(entries);
    }
}

} // verus!
