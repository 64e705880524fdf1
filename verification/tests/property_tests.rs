use fuzzy_string_distance::levenshtein_distance;
use fuzzy_string_distance::levenshtein_distance_ignore_ascii_case;
use fuzzy_string_distance::local_levenshtein_distance;
use fuzzy_string_distance::local_levenshtein_distance_ignore_ascii_case;

#[test]
fn fixing_two_typos() {
    let result = levenshtein_distance(&"typography", &"typpgrapy");
    assert_eq!(result, 2);
}

#[test]
fn local_trivial_substring() {
    let result = local_levenshtein_distance(&"long", &"A long sentence");
    assert_eq!(result, 0);
}

#[test]
fn local_long_query_short_target() {
    // Almost all of the query has to be deleted to match the short target.
    let result = local_levenshtein_distance(&"A long sentence", &"long");
    assert_eq!(result, 11);
}

#[test]
fn local_match_not_penalised_by_position() {
    // A match in the middle of the target costs the same as one at its start.
    assert_eq!(local_levenshtein_distance(&"car", &"racecar"), 0);
    assert_eq!(local_levenshtein_distance(&"race", &"racecar"), 0);
}

#[test]
fn identity_distance_is_zero() {
    assert_eq!(levenshtein_distance(&"kitten", &"kitten"), 0);
    assert_eq!(levenshtein_distance(&"El delfín español", &"El delfín español"), 0);
    assert_eq!(levenshtein_distance(&"", &""), 0);
}

#[test]
fn distance_is_symmetric() {
    let a = "typography";
    let b = "sitting";
    assert_eq!(levenshtein_distance(&a, &b), levenshtein_distance(&b, &a));
    assert_eq!(levenshtein_distance(&"rusty", &""), levenshtein_distance(&"", &"rusty"));
}

#[test]
fn distance_within_length_bounds() {
    let a = "kitten";
    let b = "sitting";
    let d = levenshtein_distance(&a, &b);
    // Never more than the lengths added, never less than their difference.
    assert!(d <= a.chars().count() + b.chars().count());
    assert!(d >= b.chars().count() - a.chars().count());
}

#[test]
fn case_folding_matches_lowercased_inputs() {
    let a = "Edit DISTANCE";
    let b = "eDDy";
    assert_eq!(
        levenshtein_distance_ignore_ascii_case(&a, &b),
        levenshtein_distance(&a.to_ascii_lowercase(), &b.to_ascii_lowercase()),
    );
}

#[test]
fn case_folding_is_ascii_only() {
    // Only A-Z are folded: a precomposed E acute still differs from its
    // lower-case form.
    assert_eq!(levenshtein_distance_ignore_ascii_case(&"\u{c9}", &"\u{e9}"), 1);
    assert_eq!(levenshtein_distance_ignore_ascii_case(&"E", &"e"), 0);
}

#[test]
fn local_ignoring_case_trivial_substring() {
    let result = local_levenshtein_distance_ignore_ascii_case(&"LONG", &"A long sentence");
    assert_eq!(result, 0);
}

#[test]
fn local_empty_source_empty_target() {
    assert_eq!(local_levenshtein_distance(&"", &""), 0);
}

#[test]
fn local_one_substitution() {
    // Piñata against "pinata" needs exactly the one accented substitution.
    assert_eq!(local_levenshtein_distance(&"piñata", &"a pinata party"), 1);
}
