//! Verified text utilities shared by the record, snapshot and version
//! modules: splitting on a separator character, lexicographic comparison,
//! substring search, and trailing-newline stripping.
use vstd::prelude::*;
use vstd::string::StrSliceExecFns;
use vstd::string::StringExecFns;

verus! {

/// Splits `s` on the separator `sep`, keeping empty segments, exactly as
/// `str::split` does for a one-character pattern: the empty string yields
/// one empty segment, and `n` separators yield `n + 1` segments.
pub open spec fn spec_split(s: Seq<char>, sep: char) -> Seq<Seq<char>>
    decreases s.len(),
{
    if s.len() == 0 {
        seq![Seq::<char>::empty()]
    } else if s[0] == sep {
        seq![Seq::<char>::empty()].add(spec_split(s.drop_first(), sep))
    } else {
        let rest = spec_split(s.drop_first(), sep);
        seq![seq![s[0]].add(rest[0])].add(rest.drop_first())
    }
}

/// Splitting never yields an empty list of segments.
pub proof fn lemma_split_len(s: Seq<char>, sep: char)
    ensures
        spec_split(s, sep).len() >= 1,
    decreases s.len(),
{
    if s.len() != 0 {
        lemma_split_len(s.drop_first(), sep);
    }
}

/// A separator-free string splits into exactly itself.
pub proof fn lemma_split_whole(s: Seq<char>, sep: char)
    requires
        !s.contains(sep),
    ensures
        spec_split(s, sep) =~~= seq![s],
    decreases s.len(),
{
    if s.len() == 0 {
        assert(spec_split(s, sep) =~~= seq![s]);
    } else {
        assert(s[0] != sep) by {
            assert(s.contains(s[0]));
        }
        assert(!s.drop_first().contains(sep)) by {
            if s.drop_first().contains(sep) {
                let i = choose|i: int| 0 <= i < s.drop_first().len() && s.drop_first()[i] == sep;
                assert(s[i + 1] == sep);
            }
        }
        lemma_split_whole(s.drop_first(), sep);
        assert(seq![s[0]].add(s.drop_first()) =~= s);
    }
}

/// Splitting a string that starts with a separator-free prefix, then the
/// separator, then a remainder, yields the prefix followed by the split of
/// the remainder.
pub proof fn lemma_split_prefix(a: Seq<char>, b: Seq<char>, sep: char)
    requires
        !a.contains(sep),
    ensures
        spec_split(a.add(seq![sep]).add(b), sep) =~~= seq![a].add(spec_split(b, sep)),
    decreases a.len(),
{
    let s = a.add(seq![sep]).add(b);
    if a.len() == 0 {
        assert(s =~= seq![sep].add(b));
        assert(s[0] == sep);
        assert(s.drop_first() =~= b);
    } else {
        assert(s[0] == a[0]);
        assert(a[0] != sep) by {
            assert(a.contains(a[0]));
        }
        assert(!a.drop_first().contains(sep)) by {
            if a.drop_first().contains(sep) {
                let i = choose|i: int|
                    0 <= i < a.drop_first().len() && a.drop_first()[i] == sep;
                assert(a[i + 1] == sep);
            }
        }
        lemma_split_prefix(a.drop_first(), b, sep);
        assert(s.drop_first() =~= a.drop_first().add(seq![sep]).add(b));
        let rest = spec_split(s.drop_first(), sep);
        assert(rest =~~= seq![a.drop_first()].add(spec_split(b, sep)));
        assert(rest[0] == a.drop_first());
        assert(seq![s[0]].add(rest[0]) =~= a);
        assert(rest.drop_first() =~~= spec_split(b, sep));
    }
}

/// Splits `s` on the character `sep`, keeping empty segments.
pub fn split_on(s: &str, sep: char) -> (r: Vec<String>)
    ensures
        r.deep_view() == spec_split(s@, sep),
{
    let n: usize = s.unicode_len();
    let mut done: Vec<String> = Vec::new();
    let mut seg_start: usize = 0;
    let mut i: usize = 0;
    proof {
        assert(s@.subrange(0, n as int) =~= s@);
        assert(done.deep_view() =~= Seq::<Seq<char>>::empty());
    }
    while i < n
        invariant
            n == s@.len(),
            0 <= seg_start <= i <= n,
            forall|j: int| seg_start <= j < i ==> s@[j] != sep,
            spec_split(s@, sep) =~~= done.deep_view().add(
                spec_split(s@.subrange(seg_start as int, n as int), sep),
            ),
        decreases n - i,
    {
        let c = s.get_char(i);
        if c == sep {
            let seg = String::from_str(s.substring_char(seg_start, i));
            proof {
                let cur = s@.subrange(seg_start as int, i as int);
                assert(!cur.contains(sep)) by {
                    if cur.contains(sep) {
                        let j = choose|j: int| 0 <= j < cur.len() && cur[j] == sep;
                        assert(s@[seg_start + j] == sep);
                    }
                }
                let tail = s@.subrange(seg_start as int, n as int);
                assert(tail =~= cur.add(seq![sep]).add(s@.subrange(i + 1, n as int)));
                lemma_split_prefix(cur, s@.subrange(i + 1, n as int), sep);
            }
            done.push(seg);
            seg_start = i + 1;
        }
        i = i + 1;
    }
    let last = String::from_str(s.substring_char(seg_start, n));
    proof {
        let cur = s@.subrange(seg_start as int, n as int);
        assert(!cur.contains(sep)) by {
            if cur.contains(sep) {
                let j = choose|j: int| 0 <= j < cur.len() && cur[j] == sep;
                assert(s@[seg_start + j] == sep);
            }
        }
        lemma_split_whole(cur, sep);
    }
    done.push(last);
    proof {
        assert(done.deep_view() =~~= spec_split(s@, sep));
    }
    done
}

/// A concatenation of two sequences free of a character is itself free of
/// it.
pub proof fn lemma_concat_free(a: Seq<char>, b: Seq<char>, c: char)
    requires
        !a.contains(c),
        !b.contains(c),
    ensures
        !(a + b).contains(c),
{
    if (a + b).contains(c) {
        let i = choose|i: int| 0 <= i < (a + b).len() && (a + b)[i] == c;
        if i < a.len() {
            assert(a[i] == c);
        } else {
            assert(b[i - a.len()] == c);
        }
    }
}

/// Character-by-character string equality.
pub fn str_eq(a: &str, b: &str) -> (r: bool)
    ensures
        r == (a@ == b@),
{
    let n: usize = a.unicode_len();
    if n != b.unicode_len() {
        return false;
    }
    let mut i: usize = 0;
    while i < n
        invariant
            n == a@.len() == b@.len(),
            0 <= i <= n,
            forall|j: int| 0 <= j < i ==> a@[j] == b@[j],
        decreases n - i,
    {
        if a.get_char(i) != b.get_char(i) {
            return false;
        }
        i = i + 1;
    }
    proof {
        assert(a@ =~= b@);
    }
    true
}

/// Lexicographic "strictly greater" on character sequences, the order that
/// `str`'s `Ord` instance gives: compare position by position; the first
/// position where the two differ decides, and a proper prefix is smaller.
pub open spec fn lex_gt(a: Seq<char>, b: Seq<char>) -> bool
    decreases a.len(),
{
    if a.len() == 0 {
        false
    } else if b.len() == 0 {
        true
    } else if a[0] != b[0] {
        a[0] > b[0]
    } else {
        lex_gt(a.drop_first(), b.drop_first())
    }
}

/// Whether `a` is lexicographically strictly greater than `b`.
pub fn str_gt(a: &str, b: &str) -> (r: bool)
    ensures
        r == lex_gt(a@, b@),
{
    let na: usize = a.unicode_len();
    let nb: usize = b.unicode_len();
    let mut i: usize = 0;
    proof {
        assert(a@.skip(0) =~= a@);
        assert(b@.skip(0) =~= b@);
    }
    loop
        invariant
            na == a@.len(),
            nb == b@.len(),
            0 <= i <= na,
            i <= nb,
            lex_gt(a@, b@) == lex_gt(a@.skip(i as int), b@.skip(i as int)),
        decreases na - i,
    {
        if i == na {
            proof {
                assert(a@.skip(i as int).len() == 0);
            }
            return false;
        }
        if i == nb {
            proof {
                assert(b@.skip(i as int).len() == 0);
                assert(a@.skip(i as int).len() > 0);
            }
            return true;
        }
        let ca = a.get_char(i);
        let cb = b.get_char(i);
        proof {
            assert(a@.skip(i as int)[0] == a@[i as int]);
            assert(b@.skip(i as int)[0] == b@[i as int]);
        }
        if ca != cb {
            return ca > cb;
        }
        proof {
            assert(a@.skip(i as int).drop_first() =~= a@.skip(i + 1));
            assert(b@.skip(i as int).drop_first() =~= b@.skip(i + 1));
        }
        i = i + 1;
    }
}

/// Whether `needle` occurs in `haystack` as a contiguous run of characters.
pub open spec fn spec_contains_sub(haystack: Seq<char>, needle: Seq<char>) -> bool {
    exists|i: int|
        0 <= i <= haystack.len() - needle.len() && #[trigger] haystack.subrange(
            i,
            i + needle.len(),
        ) == needle
}

/// Substring search; the empty needle is found in every haystack.
pub fn contains_sub(haystack: &str, needle: &str) -> (r: bool)
    ensures
        r == spec_contains_sub(haystack@, needle@),
{
    let n: usize = haystack.unicode_len();
    let m: usize = needle.unicode_len();
    if m > n {
        proof {
            assert(!spec_contains_sub(haystack@, needle@));
        }
        return false;
    }
    let mut i: usize = 0;
    loop
        invariant
            n == haystack@.len(),
            m == needle@.len(),
            m <= n,
            0 <= i <= n - m,
            forall|k: int|
                0 <= k < i ==> #[trigger] haystack@.subrange(k, k + needle@.len())
                    != needle@,
        decreases n - i,
    {
        let mut j: usize = 0;
        let mut matched: bool = true;
        while j < m
            invariant
                n == haystack@.len(),
                m == needle@.len(),
                0 <= i <= n - m,
                0 <= j <= m,
                matched ==> forall|t: int| 0 <= t < j ==> haystack@[i + t] == needle@[t],
                !matched ==> haystack@.subrange(i as int, i + needle@.len()) != needle@,
            decreases m - j,
        {
            if matched {
                if haystack.get_char(i + j) != needle.get_char(j) {
                    proof {
                        assert(haystack@.subrange(i as int, i + needle@.len())[j as int]
                            == haystack@[i + j]);
                    }
                    matched = false;
                }
            }
            j = j + 1;
        }
        if matched {
            proof {
                assert(haystack@.subrange(i as int, i + needle@.len()) =~= needle@);
            }
            return true;
        }
        if i == n - m {
            proof {
                assert(!spec_contains_sub(haystack@, needle@)) by {
                    if spec_contains_sub(haystack@, needle@) {
                        let k = choose|k: int|
                            0 <= k <= haystack@.len() - needle@.len()
                                && #[trigger] haystack@.subrange(
                                k,
                                k + needle@.len(),
                            ) == needle@;
                        assert(haystack@.subrange(k, k + needle@.len()) != needle@);
                    }
                }
            }
            return false;
        }
        i = i + 1;
    }
}

/// A string with one trailing newline removed, if there is one.
pub open spec fn spec_strip_newline(s: Seq<char>) -> Seq<char> {
    if s.len() > 0 && s.last() == '\n' {
        s.drop_last()
    } else {
        s
    }
}

/// Removes one trailing newline, if present; every other input is returned
/// unchanged.
pub fn strip_trailing_newline(s: &str) -> (r: String)
    ensures
        r@ == spec_strip_newline(s@),
{
    let n: usize = s.unicode_len();
    if n > 0 && s.get_char(n - 1) == '\n' {
        let r = String::from_str(s.substring_char(0, n - 1));
        proof {
            assert(s@.subrange(0, n - 1) =~= s@.drop_last());
        }
        r
    } else {
        String::from_str(s)
    }
}

} // verus!
