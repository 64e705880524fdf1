//! The mathematical model: the conceptual edit-distance matrix.
//!
//! A cell `(i, j)` of the matrix holds the minimum number of edits needed to
//! turn the first `i` codepoints of the source into the first `j` codepoints
//! of the target (global alignment), or into some suffix of that target
//! prefix (local alignment, where any prefix of the target may be skipped
//! for free). The executable functions are specified against these
//! definitions, and the laws are proved of them.

use vstd::prelude::*;

verus! {

/// Cost of aligning one source codepoint against one target codepoint:
/// equal codepoints are free, a substitution costs one edit.
pub open spec fn edit_cost(a: char, b: char) -> nat {
    if a == b {
        0
    } else {
        1
    }
}

/// The smaller of two edit counts.
pub open spec fn min2(a: nat, b: nat) -> nat {
    if a <= b {
        a
    } else {
        b
    }
}

/// The smallest of three edit counts.
pub open spec fn min3(a: nat, b: nat, c: nat) -> nat {
    min2(min2(a, b), c)
}

/// Cell `(i, j)` of the edit-distance matrix for `source` and `target`.
///
/// With `local` false this is the classic Levenshtein recurrence: the first
/// row counts pure insertions (`j`), the first column pure deletions (`i`),
/// and every other cell is the cheapest of a deletion, an insertion and a
/// (possibly free) substitution. With `local` true the first row is all
/// zeros instead: any prefix of the target may be skipped at no cost.
pub open spec fn edit_cell(source: Seq<char>, target: Seq<char>, local: bool, i: nat, j: nat) -> nat
    decreases i + j,
{
    if i == 0 {
        if local {
            0
        } else {
            j
        }
    } else if j == 0 {
        i
    } else {
        min3(
            edit_cell(source, target, local, (i - 1) as nat, j) + 1,
            edit_cell(source, target, local, i, (j - 1) as nat) + 1,
            edit_cell(source, target, local, (i - 1) as nat, (j - 1) as nat) + edit_cost(
                source[i - 1],
                target[j - 1],
            ),
        )
    }
}

/// The Levenshtein distance between `source` and `target`: the bottom-right
/// cell of the global matrix.
pub open spec fn levenshtein(source: Seq<char>, target: Seq<char>) -> nat {
    edit_cell(source, target, false, source.len(), target.len())
}

/// The minimum over the cells `(|source|, 0..=j)` of the local matrix.
pub open spec fn local_row_min(source: Seq<char>, target: Seq<char>, j: nat) -> nat
    decreases j,
{
    if j == 0 {
        edit_cell(source, target, true, source.len(), 0)
    } else {
        min2(
            local_row_min(source, target, (j - 1) as nat),
            edit_cell(source, target, true, source.len(), j),
        )
    }
}

/// The local Levenshtein distance: the fewest edits that turn `source` into
/// some contiguous substring of `target`. The all-zero first row of the
/// local matrix lets any prefix of `target` be skipped for free, and taking
/// the minimum over the whole last row lets any suffix be skipped too.
pub open spec fn local_levenshtein(source: Seq<char>, target: Seq<char>) -> nat {
    local_row_min(source, target, target.len())
}

/// ASCII-only case folding of one codepoint: `A`-`Z` map to `a`-`z`,
/// everything else is left unchanged.
pub open spec fn ascii_lower(c: char) -> char {
    if 65 <= c as u32 && c as u32 <= 90 {
        ((c as u32) + 32) as char
    } else {
        c
    }
}

/// ASCII-only case folding of a whole codepoint sequence.
pub open spec fn ascii_lower_seq(s: Seq<char>) -> Seq<char> {
    s.map_values(|c: char| ascii_lower(c))
}

} // verus!
