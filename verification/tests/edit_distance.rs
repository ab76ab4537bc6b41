use refactor_backend::edit_distance;
use refactor_backend::edit_distance::distance_between;

#[test]
fn test_edit_distance() {
    assert_eq!(edit_distance("", ""), 0);
    assert_eq!(edit_distance("a", ""), 1);
    assert_eq!(edit_distance("", "abc"), 3);
    assert_eq!(edit_distance("kitten", "sitting"), 3);
    assert_eq!(edit_distance("flaw", "lawn"), 2);
}

#[test]
fn edit_distance_is_symmetric_on_samples() {
    assert_eq!(edit_distance("sitting", "kitten"), 3);
    assert_eq!(edit_distance("lawn", "flaw"), 2);
    assert_eq!(edit_distance("abc", ""), 3);
}

#[test]
fn edit_distance_of_equal_texts_is_zero() {
    assert_eq!(edit_distance("HashMap", "HashMap"), 0);
    assert_eq!(edit_distance("x", "x"), 0);
}

#[test]
fn edit_distance_counts_code_points_not_bytes() {
    assert_eq!(edit_distance("é", "e"), 1);
    assert_eq!(edit_distance("日本語", "日本"), 1);
    assert_eq!(edit_distance("", "日本語"), 3);
}

#[test]
fn edit_distance_single_edits() {
    assert_eq!(edit_distance("HashMapp", "HashMap"), 1);
    assert_eq!(edit_distance("HashMa", "HashMap"), 1);
    assert_eq!(edit_distance("HashNap", "HashMap"), 1);
    assert_eq!(edit_distance("ab", "ba"), 2);
}

#[test]
fn distance_between_code_point_vectors() {
    let a: Vec<char> = "kitten".chars().collect();
    let b: Vec<char> = "sitting".chars().collect();
    assert_eq!(distance_between(&a, &b), 3);
    assert_eq!(distance_between(&Vec::new(), &b), 7);
}
