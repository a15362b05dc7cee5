use auth::database::Database;

#[test]
fn seed_data_is_present() {
    let db = Database::new();
    let all = db.get_all_persons();
    assert_eq!(all.len(), 4);
    assert_eq!(all[0].id, 1);
    assert_eq!(all[0].name, "Esteban");
    assert_eq!(all[1].id, 2);
    assert_eq!(all[1].name, "June");
    assert_eq!(all[2].id, 3);
    assert_eq!(all[2].name, "Carlos");
    assert_eq!(all[3].id, 4);
    assert_eq!(all[3].name, "Ana");
}

#[test]
fn insert_assigns_fresh_id_and_is_found() {
    let mut db = Database::new();
    let id = db.insert("Zara");
    assert_eq!(id, 5);
    for p in db.get_all_persons() {
        if p.id == id {
            assert_eq!(p.name, "Zara");
        }
    }
    let found = db.get_person_by_id(id).expect("freshly inserted id must be found");
    assert_eq!(found.id, 5);
    assert_eq!(found.name, "Zara");
}

#[test]
fn delete_then_get_is_empty() {
    let mut db = Database::new();
    assert!(db.delete(2));
    assert!(db.get_person_by_id(2).is_none());
    assert_eq!(db.get_all_persons().len(), 3);
}

#[test]
fn delete_missing_id_changes_nothing() {
    let mut db = Database::new();
    assert!(!db.delete(99));
    let all = db.get_all_persons();
    assert_eq!(all.len(), 4);
    assert_eq!(all[0].name, "Esteban");
    assert_eq!(all[1].name, "June");
    assert_eq!(all[2].name, "Carlos");
    assert_eq!(all[3].name, "Ana");
}

#[test]
fn update_replaces_only_that_name() {
    let mut db = Database::new();
    let r = db.update(2, "June Doe");
    assert_eq!(r, 2);
    let all = db.get_all_persons();
    assert_eq!(all.len(), 4);
    assert_eq!(all[0].name, "Esteban");
    assert_eq!(all[1].id, 2);
    assert_eq!(all[1].name, "June Doe");
    assert_eq!(all[2].name, "Carlos");
    assert_eq!(all[3].name, "Ana");
}

#[test]
fn update_missing_id_returns_sentinel() {
    let mut db = Database::new();
    let r = db.update(99, "Nobody");
    assert_eq!(r, 0);
    let all = db.get_all_persons();
    assert_eq!(all.len(), 4);
    assert_eq!(all[1].name, "June");
}

#[test]
fn search_empty_portion_matches_all_in_order() {
    let db = Database::new();
    let hits = db.get_persons_by_name("");
    assert_eq!(hits.len(), 4);
    assert_eq!(hits[0].name, "Esteban");
    assert_eq!(hits[1].name, "June");
    assert_eq!(hits[2].name, "Carlos");
    assert_eq!(hits[3].name, "Ana");
}

#[test]
fn search_returns_exactly_the_matching_subset() {
    let db = Database::new();
    let hits = db.get_persons_by_name("a");
    assert_eq!(hits.len(), 3);
    assert_eq!(hits[0].name, "Esteban");
    assert_eq!(hits[1].name, "Carlos");
    assert_eq!(hits[2].name, "Ana");

    let hits = db.get_persons_by_name("os");
    assert_eq!(hits.len(), 1);
    assert_eq!(hits[0].name, "Carlos");

    let hits = db.get_persons_by_name("zzz");
    assert!(hits.is_empty());
}

#[test]
fn search_is_case_sensitive() {
    let db = Database::new();
    assert!(db.get_persons_by_name("ana").is_empty());
    assert_eq!(db.get_persons_by_name("Ana").len(), 1);
}

#[test]
fn end_to_end_scenario_with_id_reuse() {
    let mut db = Database::new();
    assert_eq!(db.insert("Zara"), 5);
    assert_eq!(db.update(2, "June Doe"), 2);
    assert_eq!(db.get_person_by_id(2).expect("id 2 exists").name, "June Doe");
    assert!(db.delete(3));
    assert_eq!(db.get_all_persons().len(), 4);
    // The next id is derived from the current count, so after the deletion
    // it collides with Zara's id: two persons now share id 5, and lookups
    // find the earlier one.
    assert_eq!(db.insert("New"), 5);
    assert_eq!(db.get_all_persons().len(), 5);
    assert_eq!(db.get_person_by_id(5).expect("id 5 exists").name, "Zara");
}
