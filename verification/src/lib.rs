//! Fuzzy string comparison by Levenshtein edit distance.
//!
//! The distance between two strings is the minimum number of single-codepoint
//! insertions, deletions or substitutions needed to turn one into the other.
//! Besides the classic (global) distance, a local variant matches a query
//! against the best-fitting contiguous substring of a longer target, and both
//! come in ASCII-case-insensitive versions.
//!
//! Strings are compared codepoint by codepoint, as `str::chars` yields them,
//! not byte by byte and not by grapheme cluster.

pub mod distance;
pub mod laws;
pub mod model;

pub use distance::levenshtein_distance;
pub use distance::levenshtein_distance_ignore_ascii_case;
pub use distance::local_levenshtein_distance;
pub use distance::local_levenshtein_distance_ignore_ascii_case;

