use fuzzy_string_distance::levenshtein_distance;
use fuzzy_string_distance::levenshtein_distance_ignore_ascii_case;
use fuzzy_string_distance::local_levenshtein_distance;
use fuzzy_string_distance::local_levenshtein_distance_ignore_ascii_case;

#[test]
fn transforming_input() {
    let kitten = "kitten";
    let sitting = "sitting";
    let result = levenshtein_distance(&kitten, &sitting);
    assert_eq!(result, 3);
}

#[test]
fn adding_a_character() {
    let result = levenshtein_distance(&"rust", &"rusty");
    assert_eq!(result, 1);
}

#[test]
fn removing_characters() {
    let result = levenshtein_distance(&"ferrisground", &"run");
    // run is present in the source input, so shortest transformation is removing the other
    // characters
    assert_eq!(result, 9);
}

#[test]
fn empty_source() {
    let result = levenshtein_distance(&"", &"rust");
    assert_eq!(result, 4);
}

#[test]
fn empty_target() {
    let result = levenshtein_distance(&"bug", &"");
    assert_eq!(result, 3);
}

#[test]
fn multiple_transformations() {
    let result = levenshtein_distance(&"Edit distance", &"Eddy");
    // Edd already present in input, so can delete all the other characters and insert y,
    // so 3 edits fewer than the source input
    assert_eq!(result, 10);
}

#[test]
fn unrelated() {
    let result = levenshtein_distance(&"unrelated", &"SCREAMING");
    assert_eq!(result, 9);
}

#[test]
fn slightly_related_ignoring_case() {
    let result = levenshtein_distance_ignore_ascii_case(&"unrelated", &"SCREAMING");
    assert_eq!(result, 7);
}

#[test]
fn non_english() {
    let result = levenshtein_distance(&"El delfín español", &"Dolphin");
    assert_eq!(result, 15);
}

#[test]
fn graphemes() {
    let result = levenshtein_distance(&"🧑‍🔬", &"🧑");
    // Split scientist into just person emoji
    assert_eq!(result, 2);
}

#[test]
fn non_english_local() {
    let result = local_levenshtein_distance(&"Dolphin", &"El delfín español");
    // delfín -> Dolphin is 5 edits
    assert_eq!(result, 5);
    // local distance is asymmetric, search term is going to have to be modified to match
    // entire target as with non local distance
    let result = local_levenshtein_distance(&"El delfín español", &"Dolphin");
    assert_eq!(result, 15);
}

#[test]
fn search_term() {
    let result = local_levenshtein_distance(&"Piñata", &"Pinecone tree");
    // Pineco -> Piñata is 4 edits
    assert_eq!(result, 4);
}

#[test]
fn no_search() {
    let result = local_levenshtein_distance(&"", &"A long sentence");
    // trivial match
    assert_eq!(result, 0);
    let result = local_levenshtein_distance(&"A long sentence", &"");
    // local distance is asymmetric, have to delete entire search term
    assert_eq!(result, 15);
}

#[test]
fn one_character_term() {
    let result = local_levenshtein_distance(&"g", &"A long sentence");
    assert_eq!(result, 0);
}

#[test]
fn slightly_related_ignoring_case_local() {
    let result = local_levenshtein_distance_ignore_ascii_case(&"SCREAMING", &"unrelated");
    assert_eq!(result, 7);
    let result = local_levenshtein_distance_ignore_ascii_case(&"SCREAM", &"unrelated");
    assert_eq!(result, 4);
}
