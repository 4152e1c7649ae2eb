use trayplay::fuzzy::prefix_distance;

#[test]
fn one_edit_reaches_a_name_being_typed() {
    // Substitution mid-word, with the name unfinished.
    assert_eq!(prefix_distance("kimela", "Kimera Candela"), Some(1));
    // Exact prefix, which the server would also have found.
    assert_eq!(prefix_distance("kimera", "Kimera Candela"), Some(0));
    // A later word matches on its own.
    assert_eq!(prefix_distance("candel", "Kimera Candela"), Some(0));
    // Missing and extra characters, one each.
    assert_eq!(prefix_distance("kimra", "Kimera Candela"), Some(1));
    assert_eq!(prefix_distance("kimmera", "Kimera Candela"), Some(1));
}

#[test]
fn two_edits_do_not() {
    assert_eq!(prefix_distance("kimla", "Kimera Candela"), None);
    assert_eq!(prefix_distance("bill", "Kimera Candela"), None);
    // A transposition is two edits under plain Levenshtein, and is left out
    // on purpose rather than by oversight.
    assert_eq!(prefix_distance("kimrea", "Kimera Candela"), None);
}

#[test]
fn short_terms_stay_exact() {
    assert_eq!(prefix_distance("kim", "Kimera Candela"), None);
    assert_eq!(prefix_distance("bil", "Kimera Candela"), None);
}

#[test]
fn case_and_surrounding_space_do_not_matter() {
    assert_eq!(prefix_distance("  KIMERA ", "kimera candela"), Some(0));
    assert_eq!(prefix_distance("ÉTOILE", "étoile noire"), Some(0));
}

#[test]
fn a_term_longer_than_the_name_needs_the_edit_for_the_rest() {
    assert_eq!(prefix_distance("abbas", "ABBA"), Some(1));
    assert_eq!(prefix_distance("abbass", "ABBA"), None);
}

#[test]
fn a_longer_name_matches_no_worse() {
    assert_eq!(prefix_distance("kimera", "KIMER"), Some(1));
    assert_eq!(prefix_distance("kimera", "KIMERA"), Some(0));
    assert_eq!(prefix_distance("kimera", "KIMERAS AND OTHERS"), Some(0));
    // Wherever the name is cut, what is found by then is not lost.
    let name = "The Kimela Candela Orchestra";
    let mut best: Option<u8> = None;
    for len in 0..=name.len() {
        let found = prefix_distance("Kimera", &name[..len]);
        if let Some(d) = best {
            assert!(found.is_some_and(|e| e <= d));
        }
        best = found;
    }
    assert_eq!(best, Some(1));
}
