//! The executable edit-distance engine: a rolling two-row evaluation of the
//! matrix described in `model`, proved to return exactly the cell values
//! that the model defines.

use vstd::prelude::*;
use vstd::string::StrSliceExecFns;

use crate::model::ascii_lower;
use crate::model::ascii_lower_seq;
use crate::model::edit_cell;
use crate::model::levenshtein;
use crate::model::local_levenshtein;
use crate::model::local_row_min;

verus! {

/// Decodes a string into a random-access sequence of codepoints, so that
/// the recurrence can index and compare scalar values rather than bytes.
fn chars_of(s: &str) -> (v: Vec<char>)
    ensures
        v@ == s@,
{
    let n = s.unicode_len();
    let mut v: Vec<char> = Vec::new();
    let mut i: usize = 0;
    while i < n
        invariant
            i <= n,
            n == s@.len(),
            v@.len() == i,
            forall|m: int| 0 <= m < i ==> v@[m] == s@[m],
        decreases n - i,
    {
        v.push(s.get_char(i));
        i += 1;
    }
    assert(v@ =~= s@);
    v
}

/// ASCII-only case folding of one codepoint.
fn fold_char(c: char) -> (r: char)
    ensures
        r == ascii_lower(c),
{
    match c {
        'A' => 'a',
        'B' => 'b',
        'C' => 'c',
        'D' => 'd',
        'E' => 'e',
        'F' => 'f',
        'G' => 'g',
        'H' => 'h',
        'I' => 'i',
        'J' => 'j',
        'K' => 'k',
        'L' => 'l',
        'M' => 'm',
        'N' => 'n',
        'O' => 'o',
        'P' => 'p',
        'Q' => 'q',
        'R' => 'r',
        'S' => 's',
        'T' => 't',
        'U' => 'u',
        'V' => 'v',
        'W' => 'w',
        'X' => 'x',
        'Y' => 'y',
        'Z' => 'z',
        _ => c,
    }
}

/// ASCII-only case folding of a whole codepoint vector.
fn fold_chars(v: &Vec<char>) -> (r: Vec<char>)
    ensures
        r@ == ascii_lower_seq(v@),
{
    let mut r: Vec<char> = Vec::new();
    let mut i: usize = 0;
    while i < v.len()
        invariant
            i <= v@.len(),
            r@.len() == i,
            forall|m: int| 0 <= m < i ==> r@[m] == ascii_lower(v@[m]),
        decreases v@.len() - i,
    {
        r.push(fold_char(v[i]));
        i += 1;
    }
    assert(r@ =~= ascii_lower_seq(v@));
    r
}

/// Computes the last row of the edit-distance matrix for `s` against `t`,
/// keeping only one row alive at a time. Entry `j` of the result is the
/// matrix cell `(|s|, j)`, for the global or the local boundary condition
/// as `local` says.
fn distance_row(s: &Vec<char>, t: &Vec<char>, local: bool) -> (row: Vec<usize>)
    ensures
        row@.len() == t@.len() + 1,
        forall|j: int|
            0 <= j <= t@.len() ==> row@[j] == edit_cell(s@, t@, local, s@.len(), j as nat),
{
    let slen = s.len();
    let tlen = t.len();

    // The first row: cell (0, j) is j in global mode (j pure insertions)
    // and 0 in local mode (any prefix of the target is skipped for free).
    let mut row: Vec<usize> = Vec::new();
    row.push(0);
    let mut j: usize = 0;
    while j < tlen
        invariant
            j <= tlen,
            tlen == t@.len(),
            row@.len() == j + 1,
            forall|m: int| 0 <= m <= j ==> row@[m] == edit_cell(s@, t@, local, 0, m as nat),
        decreases tlen - j,
    {
        row.push(if local { 0 } else { j + 1 });
        j += 1;
    }
    // The row materializes `|t| + 1` entries, so `tlen + 1` fits in usize.
    assert(tlen < usize::MAX) by {
        assert(row.len() == row@.len());
    }

    let mut i: usize = 0;
    while i < slen
        invariant
            i <= slen,
            slen == s@.len(),
            tlen == t@.len(),
            tlen < usize::MAX,
            row@.len() == tlen + 1,
            forall|m: int| 0 <= m <= tlen ==> row@[m] == edit_cell(s@, t@, local, i as nat, m as nat),
        decreases slen - i,
    {
        // The next row, for the source prefix of length i + 1. Its first
        // entry is cell (i + 1, 0): the whole prefix must be deleted.
        let mut new_row: Vec<usize> = Vec::new();
        new_row.push(i + 1);
        let mut j: usize = 0;
        while j < tlen
            invariant
                j <= tlen,
                i < slen,
                slen == s@.len(),
                tlen == t@.len(),
                tlen < usize::MAX,
                row@.len() == tlen + 1,
                forall|m: int|
                    0 <= m <= tlen ==> row@[m] == edit_cell(s@, t@, local, i as nat, m as nat),
                new_row@.len() == j + 1,
                forall|m: int|
                    0 <= m <= j ==> new_row@[m] == edit_cell(
                        s@,
                        t@,
                        local,
                        (i + 1) as nat,
                        m as nat,
                    ),
            decreases tlen - j,
        {
            proof {
                crate::laws::lemma_edit_cell_upper(s@, t@, local, i as nat, (j + 1) as nat);
                crate::laws::lemma_edit_cell_upper(s@, t@, local, i as nat, j as nat);
            }
            // Reaching target prefix j + 1 from the shorter source prefix,
            // then deleting the extra source codepoint.
            let deletion = row[j + 1] + 1;
            // The insertion candidate is `left + 1`: reaching target prefix
            // j with this source prefix, then inserting the missing target
            // codepoint.
            let left = new_row[j];
            // Reaching target prefix j from the shorter source prefix, then
            // substituting the source codepoint for the target one, free
            // when they already agree.
            let substitution = if s[i] == t[j] {
                row[j]
            } else {
                row[j] + 1
            };
            let cheapest = if deletion <= substitution {
                deletion
            } else {
                substitution
            };
            // The sum `left + 1` is formed only when it undercuts the other
            // two candidates, so it stays within usize for any input.
            let best = if left < cheapest {
                left + 1
            } else {
                cheapest
            };
            proof {
                let cell = edit_cell(s@, t@, local, (i + 1) as nat, (j + 1) as nat);
                assert(cell == crate::model::min3(
                    edit_cell(s@, t@, local, i as nat, (j + 1) as nat) + 1,
                    edit_cell(s@, t@, local, (i + 1) as nat, j as nat) + 1,
                    edit_cell(s@, t@, local, i as nat, j as nat) + crate::model::edit_cost(
                        s@[i as int],
                        t@[j as int],
                    ),
                ));
                assert(best == cell);
            }
            new_row.push(best);
            j += 1;
        }
        row = new_row;
        i += 1;
    }
    row
}

/// Global distance on decoded codepoint vectors.
fn global_distance(s: &Vec<char>, t: &Vec<char>) -> (distance: usize)
    ensures
        distance == levenshtein(s@, t@),
{
    // With either input empty the shortest transformation is all insertions
    // or all deletions; this also keeps the general recurrence away from
    // zero-sized rows.
    if s.len() == 0 {
        return t.len();
    }
    if t.len() == 0 {
        return s.len();
    }
    let row = distance_row(s, t, false);
    // The distance is the last cell of the last row: both strings taken
    // whole, nothing skipped.
    row[t.len()]
}

/// Local distance on decoded codepoint vectors.
fn local_distance(s: &Vec<char>, t: &Vec<char>) -> (distance: usize)
    ensures
        distance == local_levenshtein(s@, t@),
{
    // An empty source matches a zero-length substring anywhere at no cost.
    if s.len() == 0 {
        proof {
            crate::laws::lemma_local_empty_source(s@, t@);
        }
        return 0;
    }
    // The only substring of an empty target is empty: pure deletion.
    if t.len() == 0 {
        return s.len();
    }
    let row = distance_row(s, t, true);
    // Any suffix of the target may be skipped for free, so the distance is
    // the minimum over the whole last row, not just its last cell.
    let rl = row.len();
    let mut best = row[0];
    let mut j: usize = 1;
    while j < rl
        invariant
            1 <= j <= rl,
            rl == t@.len() + 1,
            row@.len() == rl,
            forall|m: int|
                0 <= m < rl ==> row@[m] == edit_cell(s@, t@, true, s@.len(), m as nat),
            best == local_row_min(s@, t@, (j - 1) as nat),
        decreases rl - j,
    {
        if row[j] < best {
            best = row[j];
        }
        j += 1;
    }
    best
}

/// Returns the minimum number of single-codepoint insertions, deletions or
/// substitutions required to convert the source string into the target
/// string: the Levenshtein distance.
///
/// A distance of 0 means the strings are equal, and the distance can be up
/// to the length of the longer string when they are completely unrelated.
/// Strings are compared codepoint by codepoint, as `str::chars` yields
/// them, so a multi-codepoint grapheme cluster counts as several units.
pub fn levenshtein_distance(source: &str, target: &str) -> (distance: usize)
    ensures
        distance == levenshtein(source@, target@),
{
    let s = chars_of(source);
    let t = chars_of(target);
    global_distance(&s, &t)
}

/// The Levenshtein distance after folding ASCII letters of both strings to
/// lower case; codepoints outside `A`-`Z` are compared unchanged.
///
/// The result equals `levenshtein_distance` applied to the two folded
/// strings, as the contract states.
pub fn levenshtein_distance_ignore_ascii_case(source: &str, target: &str) -> (distance: usize)
    ensures
        distance == levenshtein(ascii_lower_seq(source@), ascii_lower_seq(target@)),
{
    let s = fold_chars(&chars_of(source));
    let t = fold_chars(&chars_of(target));
    global_distance(&s, &t)
}

/// A modified Levenshtein distance that matches the source string against
/// an arbitrary contiguous substring of the target: the minimum number of
/// single-codepoint insertions, deletions or substitutions required to
/// convert the source into some substring of the target.
///
/// Any prefix and any suffix of the target may be discarded at no cost, so
/// a short query that occurs verbatim inside a long target is at distance
/// 0. The operation is asymmetric: the source is never discounted, and the
/// result never exceeds the codepoint count of the source.
pub fn local_levenshtein_distance(source: &str, target: &str) -> (distance: usize)
    ensures
        distance == local_levenshtein(source@, target@),
{
    let s = chars_of(source);
    let t = chars_of(target);
    local_distance(&s, &t)
}

/// The local Levenshtein distance after folding ASCII letters of both
/// strings to lower case; codepoints outside `A`-`Z` are compared
/// unchanged.
pub fn local_levenshtein_distance_ignore_ascii_case(source: &str, target: &str) -> (distance: usize)
    ensures
        distance == local_levenshtein(ascii_lower_seq(source@), ascii_lower_seq(target@)),
{
    let s = fold_chars(&chars_of(source));
    let t = fold_chars(&chars_of(target));
    local_distance(&s, &t)
}

} // verus!
