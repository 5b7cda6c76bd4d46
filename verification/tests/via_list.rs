use sbb::vias::ViaList;

fn texts(v: &ViaList) -> Vec<String> {
    let mut out = Vec::new();
    let mut i = 0;
    while i < v.len() {
        out.push(v.text_at(i));
        i += 1;
    }
    out
}

#[test]
fn a_fresh_list_has_exactly_one_empty_entry() {
    let v = ViaList::new();
    assert_eq!(texts(&v), vec!["".to_string()]);
    assert_eq!(v.get_vias(), Vec::<String>::new());
}

#[test]
fn filling_the_empty_slot_appends_a_new_one() {
    let mut v = ViaList::new();
    v.set_text(0, "Basel");
    assert_eq!(texts(&v), vec!["Basel".to_string(), "".to_string()]);
    v.set_text(1, "Olten");
    assert_eq!(
        texts(&v),
        vec!["Basel".to_string(), "Olten".to_string(), "".to_string()]
    );
}

#[test]
fn edits_and_clears_keep_one_trailing_empty_entry() {
    let mut v = ViaList::new();
    v.set_text(0, "Basel");
    v.set_text(1, "Olten");
    v.set_text(0, "Bern");
    assert_eq!(
        texts(&v),
        vec!["Bern".to_string(), "Olten".to_string(), "".to_string()]
    );
    v.clear(1);
    assert_eq!(texts(&v), vec!["Bern".to_string(), "".to_string()]);
    v.clear(0);
    assert_eq!(texts(&v), vec!["".to_string()]);
}

#[test]
fn clearing_the_only_entry_keeps_one_entry() {
    let mut v = ViaList::new();
    v.set_text(0, "Basel");
    let mut w = ViaList::new();
    w.clear(0);
    assert_eq!(texts(&w), vec!["".to_string()]);
    v.clear(0);
    v.clear(0);
    assert_eq!(texts(&v), vec!["".to_string()]);
}

#[test]
fn vias_are_the_non_empty_entries_in_order() {
    let mut v = ViaList::new();
    v.set_text(0, "Basel");
    assert_eq!(v.get_vias(), vec!["Basel".to_string()]);
    v.set_text(1, "Olten");
    assert_eq!(v.get_vias(), vec!["Basel".to_string(), "Olten".to_string()]);
}

#[test]
fn inserting_a_location_keeps_the_empty_slot_last() {
    let mut v = ViaList::new();
    v.add_via_with_location("Basel");
    assert_eq!(texts(&v), vec!["Basel".to_string(), "".to_string()]);
    v.add_via_with_location("Olten");
    assert_eq!(
        texts(&v),
        vec!["Basel".to_string(), "Olten".to_string(), "".to_string()]
    );
    v.add_via_with_location("");
    assert_eq!(
        texts(&v),
        vec!["Basel".to_string(), "Olten".to_string(), "".to_string()]
    );
}
