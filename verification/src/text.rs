//! Character-sequence utilities: comparison, trimming, case mapping,
//! splitting and joining.  Every executable function is specified against a
//! recursive spec function over `Seq<char>`.

use vstd::prelude::*;
use vstd::string::*;

verus! {

/// The whitespace characters that trimming removes.
pub open spec fn is_space_char(c: char) -> bool {
    c == ' ' || c == '\t' || c == '\r' || c == '\n'
}

pub open spec fn spec_trim_start(s: Seq<char>) -> Seq<char>
    decreases s.len(),
{
    if s.len() > 0 && is_space_char(s[0]) {
        spec_trim_start(s.skip(1))
    } else {
        s
    }
}

pub open spec fn spec_trim_end(s: Seq<char>) -> Seq<char>
    decreases s.len(),
{
    if s.len() > 0 && is_space_char(s.last()) {
        spec_trim_end(s.drop_last())
    } else {
        s
    }
}

/// The sequence with leading and trailing whitespace removed.
pub open spec fn spec_trim(s: Seq<char>) -> Seq<char> {
    spec_trim_end(spec_trim_start(s))
}

/// ASCII upper-casing of one character; other characters are unchanged.
pub open spec fn spec_upper_char(c: char) -> char {
    if 97 <= c as u32 && c as u32 <= 122 {
        (((c as u32) - 32) as u8) as char
    } else {
        c
    }
}

/// ASCII upper-casing of a character sequence.
pub open spec fn spec_upper(s: Seq<char>) -> Seq<char> {
    s.map_values(|c: char| spec_upper_char(c))
}

/// Relies on `String::push` of std: appends exactly one character.
#[verifier::external_body]
pub(crate) fn push_char(s: &mut String, c: char)
    ensures
        final(s)@ == old(s)@.push(c),
{
    s.push(c);
}

/// Character-by-character string comparison.
pub fn str_eq(a: &str, b: &str) -> (r: bool)
    ensures
        r == (a@ == b@),
{
    let n = a.unicode_len();
    let m = b.unicode_len();
    if n != m {
        return false;
    }
    let mut i: usize = 0;
    while i < n
        invariant
            n == a@.len(),
            n == b@.len(),
            i <= n,
            forall|k: int| 0 <= k < i ==> a@[k] == b@[k],
        decreases n - i,
    {
        if a.get_char(i) != b.get_char(i) {
            return false;
        }
        i = i + 1;
    }
    proof {
        assert(a@ =~= b@);
    }
    true
}

/// Whether `p` is a prefix of `s`.
pub fn str_starts_with(s: &str, p: &str) -> (r: bool)
    ensures
        r == p@.is_prefix_of(s@),
{
    let n = s.unicode_len();
    let m = p.unicode_len();
    if m > n {
        return false;
    }
    let mut i: usize = 0;
    while i < m
        invariant
            n == s@.len(),
            m == p@.len(),
            m <= n,
            i <= m,
            forall|k: int| 0 <= k < i ==> s@[k] == p@[k],
        decreases m - i,
    {
        if s.get_char(i) != p.get_char(i) {
            proof {
                assert(!(p@ =~= s@.take(m as int)));
            }
            return false;
        }
        i = i + 1;
    }
    proof {
        assert(p@ =~= s@.take(m as int));
    }
    true
}

/// Upper-cases the ASCII letters of a string.
pub fn to_upper(s: &str) -> (r: String)
    ensures
        r@ == spec_upper(s@),
{
    let n = s.unicode_len();
    let mut r = String::new();
    let mut i: usize = 0;
    while i < n
        invariant
            n == s@.len(),
            i <= n,
            r@ == spec_upper(s@.take(i as int)),
        decreases n - i,
    {
        let c = s.get_char(i);
        let u: u32 = c as u32;
        let up: char = if 97 <= u && u <= 122 {
            ((u - 32) as u8) as char
        } else {
            c
        };
        push_char(&mut r, up);
        proof {
            assert(spec_upper(s@.take(i + 1)) =~= spec_upper(s@.take(i as int)).push(
                spec_upper_char(c),
            ));
        }
        i = i + 1;
    }
    proof {
        assert(s@.take(n as int) =~= s@);
    }
    r
}

/// Removes leading and trailing whitespace.
pub fn trim_text(s: &str) -> (r: String)
    ensures
        r@ == spec_trim(s@),
{
    let n = s.unicode_len();
    proof {
        assert(s@.skip(0) =~= s@);
    }
    let mut lo: usize = 0;
    while lo < n && is_space_exec(s.get_char(lo))
        invariant
            n == s@.len(),
            lo <= n,
            spec_trim_start(s@) == spec_trim_start(s@.skip(lo as int)),
        decreases n - lo,
    {
        proof {
            assert(s@.skip(lo as int).skip(1) =~= s@.skip(lo + 1));
        }
        lo = lo + 1;
    }
    proof {
        assert(s@.skip(n as int) =~= Seq::<char>::empty());
        assert(spec_trim_start(s@) == s@.skip(lo as int));
    }
    let mut hi: usize = n;
    while hi > lo && is_space_exec(s.get_char(hi - 1))
        invariant
            n == s@.len(),
            lo <= hi <= n,
            spec_trim_start(s@) == s@.skip(lo as int),
            spec_trim_end(s@.skip(lo as int)) == spec_trim_end(s@.subrange(lo as int, hi as int)),
        decreases hi,
    {
        proof {
            assert(s@.subrange(lo as int, hi as int).drop_last() =~= s@.subrange(
                lo as int,
                hi - 1,
            ));
        }
        hi = hi - 1;
    }
    proof {
        assert(s@.skip(lo as int) =~= s@.subrange(lo as int, n as int));
        assert(spec_trim_end(s@.subrange(lo as int, hi as int)) == s@.subrange(
            lo as int,
            hi as int,
        ));
    }
    let part = s.substring_char(lo, hi);
    String::from_str(part)
}

/// Executable form of `is_space_char`.
pub fn is_space_exec(c: char) -> (r: bool)
    ensures
        r == is_space_char(c),
{
    c == ' ' || c == '\t' || c == '\r' || c == '\n'
}

/// Splitting at every occurrence of `sep`; the separators themselves are
/// dropped and empty pieces are kept, as `str::split` does.
pub open spec fn spec_split(s: Seq<char>, sep: char) -> Seq<Seq<char>>
    decreases s.len(),
{
    if s.len() == 0 {
        seq![Seq::<char>::empty()]
    } else if s[0] == sep {
        seq![Seq::<char>::empty()] + spec_split(s.skip(1), sep)
    } else {
        let rest = spec_split(s.skip(1), sep);
        rest.update(0, seq![s[0]] + rest[0])
    }
}

pub proof fn lemma_split_len(s: Seq<char>, sep: char)
    ensures
        spec_split(s, sep).len() >= 1,
    decreases s.len(),
{
    if s.len() > 0 {
        lemma_split_len(s.skip(1), sep);
    }
}

/// A sequence without the separator splits into itself alone.
pub proof fn lemma_split_no_sep(s: Seq<char>, sep: char)
    requires
        forall|k: int| 0 <= k < s.len() ==> s[k] != sep,
    ensures
        spec_split(s, sep) =~~= seq![s],
    decreases s.len(),
{
    if s.len() == 0 {
        assert(spec_split(s, sep) =~~= seq![s]);
    } else {
        lemma_split_no_sep(s.skip(1), sep);
        assert(seq![s[0]] + s.skip(1) =~= s);
    }
}

/// Splitting off the first piece: if the first separator stands at `j`,
/// the split is the piece before it followed by the split of what follows it.
pub proof fn lemma_split_first(s: Seq<char>, sep: char, j: int)
    requires
        0 <= j < s.len(),
        s[j] == sep,
        forall|k: int| 0 <= k < j ==> s[k] != sep,
    ensures
        spec_split(s, sep) =~~= seq![s.take(j)] + spec_split(s.skip(j + 1), sep),
    decreases j,
{
    if j == 0 {
        assert(spec_split(s, sep) =~~= seq![s.take(0)] + spec_split(s.skip(1), sep));
    } else {
        lemma_split_first(s.skip(1), sep, j - 1);
        lemma_split_len(s.skip(1).skip(j), sep);
        assert(s.skip(1).take(j - 1) =~= s.take(j).skip(1));
        assert(s.skip(1).skip(j) =~= s.skip(j + 1));
        assert(seq![s[0]] + s.take(j).skip(1) =~= s.take(j));
    }
}

/// Splits a string at a separator character, keeping empty pieces.
pub fn split_char(s: &str, sep: char) -> (r: Vec<String>)
    ensures
        r.deep_view() == spec_split(s@, sep),
{
    let n = s.unicode_len();
    let mut r: Vec<String> = Vec::new();
    proof {
        assert(s@.skip(0) =~= s@);
        assert(r.deep_view() =~~= Seq::<Seq<char>>::empty());
    }
    let mut start: usize = 0;
    let mut i: usize = 0;
    while i < n
        invariant
            n == s@.len(),
            start <= i <= n,
            forall|k: int| start <= k < i ==> s@[k] != sep,
            spec_split(s@, sep) =~~= r.deep_view() + spec_split(s@.skip(start as int), sep),
        decreases n - i,
    {
        if s.get_char(i) == sep {
            let tok = s.substring_char(start, i);
            let ghost old_deep = r.deep_view();
            r.push(String::from_str(tok));
            proof {
                let t = s@.skip(start as int);
                lemma_split_first(t, sep, i - start);
                assert(t.take(i - start) =~= s@.subrange(start as int, i as int));
                assert(t.skip(i - start + 1) =~= s@.skip(i + 1));
                assert(r.deep_view() =~~= old_deep.push(tok@));
            }
            start = i + 1;
        }
        i = i + 1;
    }
    let tok = s.substring_char(start, n);
    let ghost old_deep = r.deep_view();
    r.push(String::from_str(tok));
    proof {
        let t = s@.skip(start as int);
        lemma_split_no_sep(t, sep);
        assert(t =~= s@.subrange(start as int, n as int));
        assert(r.deep_view() =~~= old_deep.push(tok@));
        assert(r.deep_view() =~~= spec_split(s@, sep));
    }
    r
}

/// A line sequence in the manner of `str::lines`: pieces between newline
/// terminators, a final terminator producing no empty line, and one carriage
/// return stripped from the end of each line.
pub open spec fn spec_strip_cr(s: Seq<char>) -> Seq<char> {
    if s.len() > 0 && s.last() == '\r' {
        s.drop_last()
    } else {
        s
    }
}

pub open spec fn spec_lines(s: Seq<char>) -> Seq<Seq<char>> {
    if s.len() == 0 {
        Seq::<Seq<char>>::empty()
    } else {
        let pieces = spec_split(s, '\n');
        let pieces2 = if s.last() == '\n' {
            pieces.drop_last()
        } else {
            pieces
        };
        pieces2.map_values(|l: Seq<char>| spec_strip_cr(l))
    }
}

/// Splits a string into its lines, as `str::lines` does.
pub fn split_lines(s: &str) -> (r: Vec<String>)
    ensures
        r.deep_view() == spec_lines(s@),
{
    let n = s.unicode_len();
    let mut r: Vec<String> = Vec::new();
    if n == 0 {
        proof {
            assert(r.deep_view() =~~= spec_lines(s@));
        }
        return r;
    }
    let mut pieces = split_char(s, '\n');
    proof {
        lemma_split_len(s@, '\n');
    }
    if s.get_char(n - 1) == '\n' {
        let ghost before = pieces.deep_view();
        let _last = pieces.pop();
        proof {
            assert(pieces.deep_view() =~~= before.drop_last());
        }
    }
    let ghost pieces2 = pieces.deep_view();
    let m = pieces.len();
    let mut j: usize = 0;
    while j < m
        invariant
            m == pieces.deep_view().len(),
            pieces.deep_view() == pieces2,
            j <= m,
            r.deep_view() =~~= pieces2.take(j as int).map_values(|l: Seq<char>| spec_strip_cr(l)),
        decreases m - j,
    {
        let line = &pieces[j];
        let ln = line.as_str().unicode_len();
        let ghost old_deep = r.deep_view();
        if ln > 0 && line.as_str().get_char(ln - 1) == '\r' {
            let stripped = line.as_str().substring_char(0, ln - 1);
            r.push(String::from_str(stripped));
            proof {
                assert(stripped@ =~= pieces2[j as int].drop_last());
            }
        } else {
            r.push(line.clone());
        }
        proof {
            assert(r.deep_view() =~~= old_deep.push(spec_strip_cr(pieces2[j as int])));
            assert(r.deep_view() =~~= pieces2.take(j + 1).map_values(
                |l: Seq<char>| spec_strip_cr(l),
            ));
        }
        j = j + 1;
    }
    proof {
        assert(pieces2.take(m as int) =~= pieces2);
    }
    r
}

/// Joining with a separator character between consecutive pieces.
pub open spec fn spec_join(v: Seq<Seq<char>>, sep: char) -> Seq<char>
    decreases v.len(),
{
    if v.len() == 0 {
        Seq::<char>::empty()
    } else if v.len() == 1 {
        v[0]
    } else {
        v[0] + seq![sep] + spec_join(v.skip(1), sep)
    }
}

pub proof fn lemma_join_push(v: Seq<Seq<char>>, x: Seq<char>, sep: char)
    ensures
        v.len() == 0 ==> spec_join(v.push(x), sep) == x,
        v.len() > 0 ==> spec_join(v.push(x), sep) =~= spec_join(v, sep) + seq![sep] + x,
    decreases v.len(),
{
    if v.len() == 0 {
        assert(spec_join(v.push(x), sep) == v.push(x)[0]);
        assert(v.push(x)[0] == x);
    } else {
        lemma_join_push(v.skip(1), x, sep);
        assert(v.push(x).skip(1) =~~= v.skip(1).push(x));
        if v.len() == 1 {
            assert(spec_join(v, sep) == v[0]);
        }
    }
}

/// Joins strings with a separator character.
pub fn join_text(v: &Vec<String>, sep: char) -> (r: String)
    ensures
        r@ == spec_join(v.deep_view(), sep),
{
    let mut r = String::new();
    let n = v.len();
    let mut i: usize = 0;
    while i < n
        invariant
            n == v.deep_view().len(),
            n == v@.len(),
            i <= n,
            r@ == spec_join(v.deep_view().take(i as int), sep),
        decreases n - i,
    {
        if i > 0 {
            push_char(&mut r, sep);
        }
        r.append(v[i].as_str());
        proof {
            lemma_join_push(v.deep_view().take(i as int), v.deep_view()[i as int], sep);
            assert(v.deep_view().take(i + 1) =~~= v.deep_view().take(i as int).push(
                v.deep_view()[i as int],
            ));
        }
        i = i + 1;
    }
    proof {
        assert(v.deep_view().take(n as int) =~~= v.deep_view());
    }
    r
}

/// Removes every leading and trailing occurrence of `m`, as
/// `str::trim_matches` does with a single-character pattern.
pub open spec fn spec_trim_matches_start(s: Seq<char>, m: char) -> Seq<char>
    decreases s.len(),
{
    if s.len() > 0 && s[0] == m {
        spec_trim_matches_start(s.skip(1), m)
    } else {
        s
    }
}

pub open spec fn spec_trim_matches_end(s: Seq<char>, m: char) -> Seq<char>
    decreases s.len(),
{
    if s.len() > 0 && s.last() == m {
        spec_trim_matches_end(s.drop_last(), m)
    } else {
        s
    }
}

pub open spec fn spec_trim_matches(s: Seq<char>, m: char) -> Seq<char> {
    spec_trim_matches_end(spec_trim_matches_start(s, m), m)
}

/// Removes every leading and trailing occurrence of one character.
pub fn trim_matches_char(s: &str, m: char) -> (r: String)
    ensures
        r@ == spec_trim_matches(s@, m),
{
    let n = s.unicode_len();
    proof {
        assert(s@.skip(0) =~= s@);
    }
    let mut lo: usize = 0;
    while lo < n && s.get_char(lo) == m
        invariant
            n == s@.len(),
            lo <= n,
            spec_trim_matches_start(s@, m) == spec_trim_matches_start(s@.skip(lo as int), m),
        decreases n - lo,
    {
        proof {
            assert(s@.skip(lo as int).skip(1) =~= s@.skip(lo + 1));
        }
        lo = lo + 1;
    }
    proof {
        assert(s@.skip(n as int) =~= Seq::<char>::empty());
        assert(spec_trim_matches_start(s@, m) == s@.skip(lo as int));
    }
    let mut hi: usize = n;
    while hi > lo && s.get_char(hi - 1) == m
        invariant
            n == s@.len(),
            lo <= hi <= n,
            spec_trim_matches_start(s@, m) == s@.skip(lo as int),
            spec_trim_matches_end(s@.skip(lo as int), m) == spec_trim_matches_end(
                s@.subrange(lo as int, hi as int),
                m,
            ),
        decreases hi,
    {
        proof {
            assert(s@.subrange(lo as int, hi as int).drop_last() =~= s@.subrange(
                lo as int,
                hi - 1,
            ));
        }
        hi = hi - 1;
    }
    proof {
        assert(s@.skip(lo as int) =~= s@.subrange(lo as int, n as int));
        assert(spec_trim_matches_end(s@.subrange(lo as int, hi as int), m) == s@.subrange(
            lo as int,
            hi as int,
        ));
    }
    let part = s.substring_char(lo, hi);
    String::from_str(part)
}

} // verus!
