use sbb::codec::{decode_favorites, encode_favorites};
use sbb::favorites::Favorites;
use sbb::form::toggle_favorite;

#[test]
fn add_and_remove_keep_the_set_exact_and_remove_sorts() {
    let mut f = Favorites::new();
    f.add("Zug");
    f.add("Basel");
    f.add("Chur");
    assert_eq!(f.get(), vec!["Zug".to_string(), "Basel".to_string(), "Chur".to_string()]);
    f.remove("Basel");
    assert_eq!(f.get(), vec!["Chur".to_string(), "Zug".to_string()]);
    f.add("Aarau");
    assert_eq!(f.get(), vec!["Chur".to_string(), "Zug".to_string(), "Aarau".to_string()]);
    f.remove("Nowhere");
    assert_eq!(f.get(), vec!["Aarau".to_string(), "Chur".to_string(), "Zug".to_string()]);
}

#[test]
fn adding_a_duplicate_changes_nothing() {
    let mut f = Favorites::new();
    f.add("Bern");
    let before = f.change_count();
    f.add("Bern");
    assert_eq!(f.get(), vec!["Bern".to_string()]);
    assert_eq!(f.change_count(), before);
}

#[test]
fn adding_the_empty_string_changes_nothing_and_fires_no_notification() {
    let mut f = Favorites::new();
    f.add("Bern");
    let before = f.change_count();
    f.add("");
    assert_eq!(f.get(), vec!["Bern".to_string()]);
    assert_eq!(f.change_count(), before);
}

#[test]
fn every_mutation_fires_exactly_one_notification() {
    let mut f = Favorites::new();
    assert_eq!(f.change_count(), 0);
    f.add("Bern");
    assert_eq!(f.change_count(), 1);
    f.remove("Bern");
    assert_eq!(f.change_count(), 2);
}

#[test]
fn contains_reports_membership() {
    let mut f = Favorites::new();
    f.add("Olten");
    assert!(f.contains("Olten"));
    assert!(!f.contains("Zug"));
    assert!(!f.contains(""));
}

#[test]
fn loading_drops_empty_names_and_duplicates() {
    let names = vec![
        "Zug".to_string(),
        "".to_string(),
        "Basel".to_string(),
        "Zug".to_string(),
    ];
    let f = Favorites::from_names(&names);
    assert_eq!(f.get(), vec!["Zug".to_string(), "Basel".to_string()]);
    assert_eq!(f.change_count(), 0);
}

#[test]
fn star_toggle_adds_absent_and_removes_present_names() {
    let mut f = Favorites::new();
    toggle_favorite(&mut f, "Thun");
    assert_eq!(f.get(), vec!["Thun".to_string()]);
    toggle_favorite(&mut f, "Thun");
    assert_eq!(f.get(), Vec::<String>::new());
}

#[test]
fn favorites_encode_as_a_joined_value() {
    assert_eq!(encode_favorites(&Vec::new()), "");
    assert_eq!(encode_favorites(&vec!["Zug".to_string()]), "Zug");
    assert_eq!(
        encode_favorites(&vec!["Zug".to_string(), "Basel".to_string(), "Chur".to_string()]),
        "Zug; Basel; Chur"
    );
}

#[test]
fn favorites_decode_splits_the_joined_value() {
    assert_eq!(decode_favorites(""), Vec::<String>::new());
    assert_eq!(decode_favorites("Zug"), vec!["Zug".to_string()]);
    assert_eq!(
        decode_favorites("Zug; Basel; Chur"),
        vec!["Zug".to_string(), "Basel".to_string(), "Chur".to_string()]
    );
    assert_eq!(
        decode_favorites("Zug; "),
        vec!["Zug".to_string(), "".to_string()]
    );
}

#[test]
fn encode_then_decode_returns_the_names() {
    let names = vec!["Zug".to_string(), "Basel SBB".to_string(), "Chur".to_string()];
    assert_eq!(decode_favorites(&encode_favorites(&names)), names);
}
