use auth::database::Database;
use auth::list::PersonsList;
use auth::text::parse_u32;

#[test]
fn fresh_list_shows_everyone() {
    let db = Database::new();
    let list = PersonsList::new(&db);
    assert_eq!(list.filtered_persons.len(), 4);
    assert!(list.selected_ids.is_empty());
    assert!(list.id_to_find.is_none());
    assert_eq!(list.name_portion, "");
}

#[test]
fn filter_narrows_to_the_matching_names() {
    let db = Database::new();
    let mut list = PersonsList::new(&db);
    list.change_partial_name(String::from("an"));
    list.filter(&db);
    assert_eq!(list.filtered_persons.len(), 1);
    assert_eq!(list.filtered_persons[0].name, "Esteban");
    list.change_partial_name(String::from(""));
    list.filter(&db);
    assert_eq!(list.filtered_persons.len(), 4);
}

#[test]
fn toggling_twice_returns_to_unselected() {
    let db = Database::new();
    let mut list = PersonsList::new(&db);
    list.toggle_select(3);
    assert_eq!(list.selected_ids, vec![3]);
    list.toggle_select(1);
    assert!(list.selected_ids.contains(&3));
    assert!(list.selected_ids.contains(&1));
    list.toggle_select(3);
    assert!(!list.selected_ids.contains(&3));
    assert!(list.selected_ids.contains(&1));
}

#[test]
fn delete_selected_removes_them_and_refilters() {
    let mut db = Database::new();
    let mut list = PersonsList::new(&db);
    list.toggle_select(1);
    list.toggle_select(3);
    list.delete_selected(&mut db);
    let all = db.get_all_persons();
    assert_eq!(all.len(), 2);
    assert_eq!(all[0].name, "June");
    assert_eq!(all[1].name, "Ana");
    assert_eq!(list.filtered_persons.len(), 2);
    assert_eq!(list.filtered_persons[0].name, "June");
    assert_eq!(list.filtered_persons[1].name, "Ana");
}

#[test]
fn delete_with_stale_selection_is_harmless() {
    let mut db = Database::new();
    let mut list = PersonsList::new(&db);
    list.toggle_select(2);
    assert!(db.delete(2));
    list.delete_selected(&mut db);
    assert_eq!(db.get_all_persons().len(), 3);
}

#[test]
fn id_field_parses_decimal_ids() {
    let db = Database::new();
    let mut list = PersonsList::new(&db);
    list.id_changed("12");
    assert_eq!(list.id_to_find, Some(12));
    list.id_changed("+7");
    assert_eq!(list.id_to_find, Some(7));
    list.id_changed("007");
    assert_eq!(list.id_to_find, Some(7));
    list.id_changed("abc");
    assert_eq!(list.id_to_find, None);
    list.id_changed("");
    assert_eq!(list.id_to_find, None);
    list.id_changed("+");
    assert_eq!(list.id_to_find, None);
    list.id_changed("-1");
    assert_eq!(list.id_to_find, None);
    list.id_changed("12 ");
    assert_eq!(list.id_to_find, None);
}

#[test]
fn parse_matches_the_standard_parser_at_the_edges() {
    assert_eq!(parse_u32("4294967295"), Some(u32::MAX));
    assert_eq!(parse_u32("4294967296"), None);
    assert_eq!(parse_u32("99999999999999999999"), None);
    assert_eq!(parse_u32("0"), Some(0));
    assert_eq!(parse_u32("+0"), Some(0));
    assert_eq!(parse_u32("++1"), None);
    for s in ["0", "+42", "4294967295", "4294967296", "", "+", "x9", "9x", " 9"] {
        assert_eq!(parse_u32(s), s.parse::<u32>().ok(), "diverges on {:?}", s);
    }
}
