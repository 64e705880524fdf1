//! Laws of the edit-distance model, proved once and for all strings.

use vstd::prelude::*;

use crate::model::edit_cell;
use crate::model::edit_cost;
use crate::model::levenshtein;
use crate::model::local_levenshtein;
use crate::model::local_row_min;

verus! {

/// Every cell of the matrix is at most `max(i, j)`: in the worst case the
/// source prefix is deleted outright and the target prefix inserted behind
/// it, reusing nothing. A local cell is also at most `i`, since deleting the
/// whole source prefix always matches the empty substring.
pub(crate) proof fn lemma_edit_cell_upper(
    source: Seq<char>,
    target: Seq<char>,
    local: bool,
    i: nat,
    j: nat,
)
    ensures
        i >= j ==> edit_cell(source, target, local, i, j) <= i,
        j >= i ==> edit_cell(source, target, local, i, j) <= j,
        local ==> edit_cell(source, target, local, i, j) <= i,
    decreases i + j,
{
    if i > 0 && j > 0 {
        lemma_edit_cell_upper(source, target, local, (i - 1) as nat, j);
        lemma_edit_cell_upper(source, target, local, i, (j - 1) as nat);
        lemma_edit_cell_upper(source, target, local, (i - 1) as nat, (j - 1) as nat);
    }
}

/// Every global cell is at least the difference of its coordinates: each
/// edit changes the length of the source prefix by at most one.
proof fn lemma_edit_cell_lower(source: Seq<char>, target: Seq<char>, i: nat, j: nat)
    ensures
        i <= j + edit_cell(source, target, false, i, j),
        j <= i + edit_cell(source, target, false, i, j),
    decreases i + j,
{
    if i > 0 && j > 0 {
        lemma_edit_cell_lower(source, target, (i - 1) as nat, j);
        lemma_edit_cell_lower(source, target, i, (j - 1) as nat);
        lemma_edit_cell_lower(source, target, (i - 1) as nat, (j - 1) as nat);
    }
}

/// Along the diagonal of the matrix for a string against itself every
/// global cell is zero: matching codepoints are free.
proof fn lemma_edit_cell_diag_self(s: Seq<char>, i: nat)
    requires
        i <= s.len(),
    ensures
        edit_cell(s, s, false, i, i) == 0,
    decreases i,
{
    if i > 0 {
        lemma_edit_cell_diag_self(s, (i - 1) as nat);
        assert(edit_cost(s[i - 1], s[i - 1]) == 0);
    }
}

/// Identity: a string is at distance zero from itself.
pub proof fn lemma_levenshtein_identity(s: Seq<char>)
    ensures
        levenshtein(s, s) == 0,
{
    lemma_edit_cell_diag_self(s, s.len());
}

/// Transposing the matrix swaps the two strings: cell `(i, j)` for
/// `(a, b)` equals cell `(j, i)` for `(b, a)`, since deletions and
/// insertions trade places and substitution cost is symmetric.
proof fn lemma_edit_cell_transpose(a: Seq<char>, b: Seq<char>, i: nat, j: nat)
    ensures
        edit_cell(a, b, false, i, j) == edit_cell(b, a, false, j, i),
    decreases i + j,
{
    if i > 0 && j > 0 {
        lemma_edit_cell_transpose(a, b, (i - 1) as nat, j);
        lemma_edit_cell_transpose(a, b, i, (j - 1) as nat);
        lemma_edit_cell_transpose(a, b, (i - 1) as nat, (j - 1) as nat);
    }
}

/// Symmetry: the Levenshtein distance does not depend on which string is
/// called the source: every edit has an inverse edit of equal cost.
pub proof fn lemma_levenshtein_symmetry(a: Seq<char>, b: Seq<char>)
    ensures
        levenshtein(a, b) == levenshtein(b, a),
{
    lemma_edit_cell_transpose(a, b, a.len(), b.len());
}

/// Bounds: the distance never exceeds the length of the longer string
/// (hence not the sum of the lengths either) and is at least the
/// difference of the lengths.
pub proof fn lemma_levenshtein_bounds(a: Seq<char>, b: Seq<char>)
    ensures
        levenshtein(a, b) <= if a.len() >= b.len() { a.len() } else { b.len() },
        levenshtein(a, b) <= a.len() + b.len(),
        a.len() <= b.len() + levenshtein(a, b),
        b.len() <= a.len() + levenshtein(a, b),
{
    lemma_edit_cell_upper(a, b, false, a.len(), b.len());
    lemma_edit_cell_lower(a, b, a.len(), b.len());
}

/// A global cell can only be zero on the diagonal, with equal prefixes:
/// deletions and insertions always cost at least one, so a zero cell must
/// descend from a zero cell through free substitutions alone.
proof fn lemma_edit_cell_zero_equal(s: Seq<char>, t: Seq<char>, i: nat, j: nat)
    requires
        edit_cell(s, t, false, i, j) == 0,
    ensures
        i == j,
        forall|m: int| 0 <= m < i ==> s[m] == t[m],
    decreases i + j,
{
    if i > 0 && j > 0 {
        assert(edit_cell(s, t, false, (i - 1) as nat, (j - 1) as nat) == 0);
        assert(edit_cost(s[i - 1], t[j - 1]) == 0);
        lemma_edit_cell_zero_equal(s, t, (i - 1) as nat, (j - 1) as nat);
    }
}

/// A distance of zero means the strings are equal, and conversely: the
/// distance is a fuzzy equality test.
pub proof fn lemma_levenshtein_zero_iff_equal(a: Seq<char>, b: Seq<char>)
    ensures
        levenshtein(a, b) == 0 <==> a == b,
{
    if levenshtein(a, b) == 0 {
        lemma_edit_cell_zero_equal(a, b, a.len(), b.len());
        assert(a =~= b);
    }
    if a == b {
        lemma_levenshtein_identity(a);
    }
}

/// The minimum over a row never exceeds any single cell of that row.
proof fn lemma_local_row_min_le_cell(source: Seq<char>, target: Seq<char>, j: nat, j0: nat)
    requires
        j0 <= j,
    ensures
        local_row_min(source, target, j) <= edit_cell(source, target, true, source.len(), j0),
    decreases j,
{
    if j0 < j {
        lemma_local_row_min_le_cell(source, target, (j - 1) as nat, j0);
    }
}

/// Walking the diagonal of the local matrix down a verbatim occurrence of
/// the source costs nothing: the cell `(i, k + i)` is zero whenever the
/// first `i` source codepoints repeat at offset `k` of the target.
proof fn lemma_local_cell_occurrence(source: Seq<char>, target: Seq<char>, k: int, i: nat)
    requires
        0 <= k,
        k + source.len() <= target.len(),
        i <= source.len(),
        forall|m: int| 0 <= m < source.len() ==> source[m] == target[k + m],
    ensures
        edit_cell(source, target, true, i, (k + i) as nat) == 0,
    decreases i,
{
    if i > 0 {
        lemma_local_cell_occurrence(source, target, k, (i - 1) as nat);
        assert(source[i - 1] == target[k + i - 1]);
        assert(edit_cost(source[i - 1], target[(k + i) as nat - 1]) == 0);
    }
}

/// Local trivial match: a non-empty source that occurs verbatim inside the
/// target, as the substring starting at offset `k`, is at local distance
/// zero from it.
pub proof fn lemma_local_substring_match(source: Seq<char>, target: Seq<char>, k: int)
    requires
        source.len() > 0,
        0 <= k,
        k + source.len() <= target.len(),
        target.subrange(k, k + source.len()) == source,
    ensures
        local_levenshtein(source, target) == 0,
{
    assert forall|m: int| 0 <= m < source.len() implies source[m] == target[k + m] by {
        assert(source[m] == target.subrange(k, k + source.len())[m]);
    }
    lemma_local_cell_occurrence(source, target, k, source.len());
    lemma_local_row_min_le_cell(source, target, target.len(), (k + source.len()) as nat);
}

/// The minimum over a row is attained at some cell of the row.
proof fn lemma_local_row_min_attained(source: Seq<char>, target: Seq<char>, j: nat)
    ensures
        exists|j0: nat|
            j0 <= j && local_row_min(source, target, j) == edit_cell(
                source,
                target,
                true,
                source.len(),
                j0,
            ),
    decreases j,
{
    if j == 0 {
        assert(local_row_min(source, target, j) == edit_cell(source, target, true, source.len(), 0));
    } else {
        lemma_local_row_min_attained(source, target, (j - 1) as nat);
    }
}

/// A zero local cell with a non-empty source prefix marks the end of a
/// verbatim occurrence: zero cost can only be inherited diagonally through
/// free substitutions, one matching codepoint per step.
proof fn lemma_local_cell_zero_occurrence(source: Seq<char>, target: Seq<char>, i: nat, j: nat)
    requires
        0 < i,
        edit_cell(source, target, true, i, j) == 0,
    ensures
        i <= j,
        forall|m: int| 0 <= m < i ==> source[m] == target[j - i + m],
    decreases i + j,
{
    assert(j > 0);
    assert(edit_cell(source, target, true, (i - 1) as nat, (j - 1) as nat) == 0);
    assert(edit_cost(source[i - 1], target[j - 1]) == 0);
    if i > 1 {
        lemma_local_cell_zero_occurrence(source, target, (i - 1) as nat, (j - 1) as nat);
    }
}

/// The converse of the trivial-match law: a non-empty source at local
/// distance zero from a target occurs verbatim inside it, as the substring
/// at some offset `k`.
pub proof fn lemma_local_match_is_substring(source: Seq<char>, target: Seq<char>)
    requires
        source.len() > 0,
        local_levenshtein(source, target) == 0,
    ensures
        exists|k: int|
            0 <= k && k + source.len() <= target.len() && #[trigger] target.subrange(
                k,
                k + source.len(),
            ) == source,
{
    lemma_local_row_min_attained(source, target, target.len());
    let j0 = choose|j0: nat|
        j0 <= target.len() && local_row_min(source, target, target.len()) == edit_cell(
            source,
            target,
            true,
            source.len(),
            j0,
        );
    lemma_local_cell_zero_occurrence(source, target, source.len(), j0);
    let k = j0 - source.len();
    assert(target.subrange(k, k + source.len()) =~= source);
    assert(0 <= k && k + source.len() <= target.len() && target.subrange(k, k + source.len())
        == source);
}

/// With an empty source every local cell, and so the whole-row minimum,
/// is zero.
proof fn lemma_local_row_min_empty(source: Seq<char>, target: Seq<char>, j: nat)
    requires
        source.len() == 0,
    ensures
        local_row_min(source, target, j) == 0,
    decreases j,
{
    if j > 0 {
        lemma_local_row_min_empty(source, target, (j - 1) as nat);
    }
}

/// Local empty source: an empty source matches a zero-length substring at
/// every position of any target, at no cost.
pub proof fn lemma_local_empty_source(source: Seq<char>, target: Seq<char>)
    requires
        source.len() == 0,
    ensures
        local_levenshtein(source, target) == 0,
{
    lemma_local_row_min_empty(source, target, target.len());
}

/// Local empty target: the only substring of an empty target is empty, so
/// the whole source must be deleted.
pub proof fn lemma_local_empty_target(source: Seq<char>, target: Seq<char>)
    requires
        target.len() == 0,
    ensures
        local_levenshtein(source, target) == source.len(),
{
}

/// The local distance never exceeds the length of the source: deleting the
/// whole source and matching the empty substring always succeeds.
pub proof fn lemma_local_le_source_len(source: Seq<char>, target: Seq<char>)
    ensures
        local_levenshtein(source, target) <= source.len(),
{
    lemma_local_row_min_le_cell(source, target, target.len(), 0);
}

} // verus!
