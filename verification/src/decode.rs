//! Decoders for the catalog's tabular version listings.
//!
//! The generic listing frames its rows between the second and third `===`
//! separator lines; tokens are space-separated, and the result reads the
//! table column by column, stopping at the first exhausted row.  The `java`
//! listing frames its rows after the first `---` line and before the third
//! `===` line; fields are `|`-separated and trimmed, and the result is the
//! sixth field of every row.

use vstd::prelude::*;
use vstd::string::*;
use crate::text;
use crate::text::{spec_split, spec_trim, spec_lines};

verus! {

/// A `===` separator line.
pub open spec fn is_sep_line(l: Seq<char>) -> bool {
    "==="@.is_prefix_of(l)
}

/// A `---` separator line.
pub open spec fn is_dash_line(l: Seq<char>) -> bool {
    "---"@.is_prefix_of(l)
}

/// The space-separated pieces whose trimmed form is non-empty.
pub open spec fn spec_row_tokens(parts: Seq<Seq<char>>) -> Seq<Seq<char>>
    decreases parts.len(),
{
    if parts.len() == 0 {
        Seq::<Seq<char>>::empty()
    } else if spec_trim(parts[0]).len() > 0 {
        seq![parts[0]] + spec_row_tokens(parts.skip(1))
    } else {
        spec_row_tokens(parts.skip(1))
    }
}

/// The token rows of the generic listing, given the line sequence and the
/// count of `===` lines already seen; a line is kept while that count is
/// exactly two, and rows without tokens are dropped.
pub open spec fn spec_rows(ls: Seq<Seq<char>>, c: int) -> Seq<Seq<Seq<char>>>
    decreases ls.len(),
{
    if ls.len() == 0 {
        Seq::<Seq<Seq<char>>>::empty()
    } else if is_sep_line(ls[0]) {
        spec_rows(ls.skip(1), c + 1)
    } else if c == 2 && spec_row_tokens(spec_split(ls[0], ' ')).len() > 0 {
        seq![spec_row_tokens(spec_split(ls[0], ' '))] + spec_rows(ls.skip(1), c)
    } else {
        spec_rows(ls.skip(1), c)
    }
}

/// The longest row length.
pub open spec fn spec_max_len(rows: Seq<Seq<Seq<char>>>) -> int
    decreases rows.len(),
{
    if rows.len() == 0 {
        0
    } else {
        let m = spec_max_len(rows.skip(1));
        if rows[0].len() > m {
            rows[0].len() as int
        } else {
            m
        }
    }
}

pub proof fn lemma_max_len_ge(rows: Seq<Seq<Seq<char>>>, j: int)
    requires
        0 <= j < rows.len(),
    ensures
        rows[j].len() <= spec_max_len(rows),
    decreases rows.len(),
{
    if j > 0 {
        lemma_max_len_ge(rows.skip(1), j - 1);
    }
}

/// Column-by-column reading of the table from the cursor `(p, j)`: the
/// `p`-th token of row `j`, then of the following rows, wrapping to the next
/// column, stopping at the first row whose tokens are exhausted.
pub open spec fn spec_round_robin(rows: Seq<Seq<Seq<char>>>, p: int, j: int) -> Seq<Seq<char>>
    decreases spec_max_len(rows) - p, rows.len() - j,
        when 0 <= j < rows.len() && 0 <= p <= spec_max_len(rows)
        via spec_round_robin_decreases
{
    if p >= rows[j].len() {
        Seq::<Seq<char>>::empty()
    } else if j + 1 == rows.len() {
        seq![rows[j][p]] + spec_round_robin(rows, p + 1, 0)
    } else {
        seq![rows[j][p]] + spec_round_robin(rows, p, j + 1)
    }
}

#[via_fn]
proof fn spec_round_robin_decreases(rows: Seq<Seq<Seq<char>>>, p: int, j: int) {
    lemma_max_len_ge(rows, j);
}

/// What the generic listing decodes to.
pub open spec fn spec_decode_versions(s: Seq<char>) -> Seq<Seq<char>> {
    let rows = spec_rows(spec_lines(s), 0);
    if rows.len() == 0 {
        Seq::<Seq<char>>::empty()
    } else {
        spec_round_robin(rows, 0, 0)
    }
}

/// The tokens of one row of the generic listing.
fn row_tokens(line: &str) -> (r: Vec<String>)
    ensures
        r.deep_view() == spec_row_tokens(spec_split(line@, ' ')),
{
    let parts = text::split_char(line, ' ');
    let ghost pd = parts.deep_view();
    let mut r: Vec<String> = Vec::new();
    proof {
        assert(pd.skip(0) =~~= pd);
        assert(r.deep_view() + spec_row_tokens(pd) =~~= spec_row_tokens(pd));
    }
    let n = parts.len();
    let mut k: usize = 0;
    while k < n
        invariant
            n == parts.len(),
            pd == parts.deep_view(),
            pd.len() == n,
            k <= n,
            spec_row_tokens(pd) =~~= r.deep_view() + spec_row_tokens(pd.skip(k as int)),
        decreases n - k,
    {
        let ghost old_deep = r.deep_view();
        let trimmed = text::trim_text(parts[k].as_str());
        proof {
            assert(pd.skip(k as int)[0] == pd[k as int]);
            assert(pd.skip(k as int).skip(1) =~~= pd.skip(k + 1));
        }
        if trimmed.as_str().unicode_len() > 0 {
            r.push(parts[k].clone());
            proof {
                assert(r.deep_view() =~~= old_deep.push(pd[k as int]));
                assert(old_deep.push(pd[k as int]) =~~= old_deep + seq![pd[k as int]]);
            }
        }
        k = k + 1;
    }
    proof {
        assert(pd.skip(n as int) =~~= Seq::<Seq<char>>::empty());
    }
    r
}

/// The token rows of the generic listing.
fn version_table_rows(s: &str) -> (r: Vec<Vec<String>>)
    ensures
        r.deep_view() == spec_rows(spec_lines(s@), 0),
{
    let lines = text::split_lines(s);
    let ghost ld = lines.deep_view();
    let mut r: Vec<Vec<String>> = Vec::new();
    proof {
        assert(ld.skip(0) =~~= ld);
        assert(r.deep_view() + spec_rows(ld, 0) =~~= spec_rows(ld, 0));
    }
    let n = lines.len();
    let mut sepcount: usize = 0;
    let mut k: usize = 0;
    while k < n
        invariant
            n == lines.len(),
            ld == lines.deep_view(),
            ld.len() == n,
            k <= n,
            sepcount <= k,
            spec_rows(ld, 0) =~~= r.deep_view() + spec_rows(ld.skip(k as int), sepcount as int),
        decreases n - k,
    {
        let ghost old_deep = r.deep_view();
        proof {
            assert(ld.skip(k as int)[0] == ld[k as int]);
            assert(ld.skip(k as int).skip(1) =~~= ld.skip(k + 1));
        }
        if text::str_starts_with(lines[k].as_str(), "===") {
            sepcount = sepcount + 1;
        } else if sepcount == 2 {
            let toks = row_tokens(lines[k].as_str());
            if toks.len() > 0 {
                r.push(toks);
                proof {
                    assert(r.deep_view() =~~= old_deep + seq![
                        spec_row_tokens(spec_split(ld[k as int], ' ')),
                    ]);
                }
            }
        }
        k = k + 1;
    }
    proof {
        assert(ld.skip(n as int) =~~= Seq::<Seq<char>>::empty());
    }
    r
}

/// Decodes the generic version listing: rows between the second and third
/// `===` lines, read column by column up to the first exhausted row.
pub fn decode_versions(versions: &str) -> (r: Vec<String>)
    ensures
        r.deep_view() == spec_decode_versions(versions@),
{
    let rows = version_table_rows(versions);
    let ghost rd = rows.deep_view();
    let mut out: Vec<String> = Vec::new();
    let n = rows.len();
    if n == 0 {
        proof {
            assert(out.deep_view() =~~= spec_decode_versions(versions@));
        }
        return out;
    }
    let mut p: usize = 0;
    let mut j: usize = 0;
    proof {
        assert(out.deep_view() + spec_round_robin(rd, 0, 0) =~~= spec_round_robin(rd, 0, 0));
    }
    loop
        invariant_except_break
            n == rows.len(),
            rd == rows.deep_view(),
            rd.len() == n,
            n > 0,
            j < n,
            p <= spec_max_len(rd),
            spec_round_robin(rd, 0, 0) =~~= out.deep_view() + spec_round_robin(
                rd,
                p as int,
                j as int,
            ),
        ensures
            out.deep_view() =~~= spec_round_robin(rd, 0, 0),
        decreases spec_max_len(rd) - p, n - j,
    {
        let row = &rows[j];
        if p >= row.len() {
            proof {
                assert(spec_round_robin(rd, p as int, j as int) =~~= Seq::<Seq<char>>::empty());
                assert(out.deep_view() + Seq::<Seq<char>>::empty() =~~= out.deep_view());
            }
            break;
        }
        let ghost old_deep = out.deep_view();
        out.push(row[p].clone());
        proof {
            lemma_max_len_ge(rd, j as int);
            assert(out.deep_view() =~~= old_deep + seq![rd[j as int][p as int]]);
        }
        if j + 1 == n {
            j = 0;
            p = p + 1;
        } else {
            j = j + 1;
        }
    }
    out
}

/// One row of the java listing: `|`-separated fields, each trimmed.
pub open spec fn spec_java_row(l: Seq<char>) -> Seq<Seq<char>> {
    spec_split(l, '|').map_values(|t: Seq<char>| spec_trim(t))
}

/// The field rows of the java listing, given the counts of `---` and `===`
/// lines already seen; a line is kept while exactly one `---` line and fewer
/// than three `===` lines have passed.
pub open spec fn spec_java_rows(ls: Seq<Seq<char>>, d: int, e: int) -> Seq<Seq<Seq<char>>>
    decreases ls.len(),
{
    if ls.len() == 0 {
        Seq::<Seq<Seq<char>>>::empty()
    } else if is_dash_line(ls[0]) {
        spec_java_rows(ls.skip(1), d + 1, e)
    } else if is_sep_line(ls[0]) {
        spec_java_rows(ls.skip(1), d, e + 1)
    } else if d == 1 && e < 3 {
        seq![spec_java_row(ls[0])] + spec_java_rows(ls.skip(1), d, e)
    } else {
        spec_java_rows(ls.skip(1), d, e)
    }
}

/// Every row of the java listing has at least six fields.
pub open spec fn spec_java_rows_ok(s: Seq<char>) -> bool {
    let rows = spec_java_rows(spec_lines(s), 0, 0);
    forall|k: int| 0 <= k < rows.len() ==> #[trigger] rows[k].len() >= 6
}

/// What the java listing decodes to: the sixth field of every row.
pub open spec fn spec_decode_java_versions(s: Seq<char>) -> Seq<Seq<char>> {
    let rows = spec_java_rows(spec_lines(s), 0, 0);
    Seq::new(rows.len(), |k: int| rows[k][5])
}

/// The trimmed `|`-separated fields of one row.
fn java_row(line: &str) -> (r: Vec<String>)
    ensures
        r.deep_view() == spec_java_row(line@),
{
    let parts = text::split_char(line, '|');
    let ghost pd = parts.deep_view();
    let mut r: Vec<String> = Vec::new();
    let n = parts.len();
    let mut k: usize = 0;
    while k < n
        invariant
            n == parts.len(),
            pd == parts.deep_view(),
            pd.len() == n,
            k <= n,
            r.deep_view() =~~= pd.take(k as int).map_values(|t: Seq<char>| spec_trim(t)),
        decreases n - k,
    {
        let ghost old_deep = r.deep_view();
        r.push(text::trim_text(parts[k].as_str()));
        proof {
            assert(r.deep_view() =~~= old_deep.push(spec_trim(pd[k as int])));
            assert(pd.take(k + 1).map_values(|t: Seq<char>| spec_trim(t)) =~~= pd.take(
                k as int,
            ).map_values(|t: Seq<char>| spec_trim(t)).push(spec_trim(pd[k as int])));
        }
        k = k + 1;
    }
    proof {
        assert(pd.take(n as int) =~~= pd);
    }
    r
}

/// The field rows of the java listing.
fn java_table_rows(s: &str) -> (r: Vec<Vec<String>>)
    ensures
        r.deep_view() == spec_java_rows(spec_lines(s@), 0, 0),
{
    let lines = text::split_lines(s);
    let ghost ld = lines.deep_view();
    let mut r: Vec<Vec<String>> = Vec::new();
    proof {
        assert(ld.skip(0) =~~= ld);
        assert(r.deep_view() + spec_java_rows(ld, 0, 0) =~~= spec_java_rows(ld, 0, 0));
    }
    let n = lines.len();
    let mut dash_lines: usize = 0;
    let mut eq_lines: usize = 0;
    let mut k: usize = 0;
    while k < n
        invariant
            n == lines.len(),
            ld == lines.deep_view(),
            ld.len() == n,
            k <= n,
            dash_lines <= k,
            eq_lines <= k,
            spec_java_rows(ld, 0, 0) =~~= r.deep_view() + spec_java_rows(
                ld.skip(k as int),
                dash_lines as int,
                eq_lines as int,
            ),
        decreases n - k,
    {
        let ghost old_deep = r.deep_view();
        proof {
            assert(ld.skip(k as int)[0] == ld[k as int]);
            assert(ld.skip(k as int).skip(1) =~~= ld.skip(k + 1));
        }
        if text::str_starts_with(lines[k].as_str(), "---") {
            dash_lines = dash_lines + 1;
        } else if text::str_starts_with(lines[k].as_str(), "===") {
            eq_lines = eq_lines + 1;
        } else if dash_lines == 1 && eq_lines < 3 {
            let row = java_row(lines[k].as_str());
            r.push(row);
            proof {
                assert(r.deep_view() =~~= old_deep + seq![spec_java_row(ld[k as int])]);
            }
        }
        k = k + 1;
    }
    proof {
        assert(ld.skip(n as int) =~~= Seq::<Seq<char>>::empty());
    }
    r
}

/// Decodes the java version listing: the sixth `|`-separated field of every
/// row between the first `---` line and the third `===` line.
pub fn decode_java_versions(versions: &str) -> (r: Vec<String>)
    requires
        spec_java_rows_ok(versions@),
    ensures
        r.deep_view() == spec_decode_java_versions(versions@),
{
    let rows = java_table_rows(versions);
    let ghost rd = rows.deep_view();
    let mut out: Vec<String> = Vec::new();
    let n = rows.len();
    let mut k: usize = 0;
    while k < n
        invariant
            n == rows.len(),
            rd == rows.deep_view(),
            rd.len() == n,
            rd == spec_java_rows(spec_lines(versions@), 0, 0),
            spec_java_rows_ok(versions@),
            k <= n,
            out.deep_view() =~~= Seq::new(k as nat, |i: int| rd[i][5]),
        decreases n - k,
    {
        let ghost old_deep = out.deep_view();
        let row = &rows[k];
        proof {
            assert(rd[k as int].len() >= 6);
            assert(row.deep_view() == rd[k as int]);
        }
        out.push(row[5].clone());
        proof {
            assert(out.deep_view() =~~= old_deep.push(rd[k as int][5]));
            assert(out.deep_view() =~~= Seq::new((k + 1) as nat, |i: int| rd[i][5]));
        }
        k = k + 1;
    }
    proof {
        assert(out.deep_view() =~~= spec_decode_java_versions(versions@));
    }
    out
}

/// Chooses the decoder for a tool's listing, as the catalog client does:
/// `java` uses the `|`-table decoder, everything else the generic one.
/// Returns `None` when a java listing has a row of fewer than six fields,
/// which the field decoder rejects.
pub fn decode_tool_versions(tool: &str, versions: &str) -> (r: Option<Vec<String>>)
    ensures
        tool@ != "java"@ ==> (r matches Some(v) && v.deep_view() == spec_decode_versions(
            versions@,
        )),
        tool@ == "java"@ && spec_java_rows_ok(versions@) ==> (r matches Some(v)
            && v.deep_view() == spec_decode_java_versions(versions@)),
        tool@ == "java"@ && !spec_java_rows_ok(versions@) ==> r is None,
{
    if !text::str_eq(tool, "java") {
        return Some(decode_versions(versions));
    }
    proof {
        assert(tool@ == "java"@);
    }
    let rows = java_table_rows(versions);
    let ghost rd = rows.deep_view();
    let n = rows.len();
    let mut k: usize = 0;
    while k < n
        invariant
            tool@ == "java"@,
            n == rows.len(),
            rd == rows.deep_view(),
            rd.len() == n,
            rd == spec_java_rows(spec_lines(versions@), 0, 0),
            k <= n,
            forall|i: int| 0 <= i < k ==> #[trigger] rd[i].len() >= 6,
        decreases n - k,
    {
        if rows[k].len() < 6 {
            proof {
                assert(rd[k as int].len() < 6);
            }
            return None;
        }
        k = k + 1;
    }
    Some(decode_java_versions(versions))
}

} // verus!
