//! Behavior of the generic integer-keyed repository.

use school_library::error::RepoError;
use school_library::model::{Faculty, Student};
use school_library::model::Date;
use school_library::repo::Table;

fn faculty(name: &str, letter: &str) -> Faculty {
    Faculty { id: 0, name: name.to_string(), letter: letter.to_string() }
}

fn student(name: &str) -> Student {
    Student {
        id: 0,
        name: name.to_string(),
        lastname: "Doe".to_string(),
        surname: "Q".to_string(),
        age: 20,
        faculty_curriculum: 1,
        group: 3,
        start_study_date: Date { year: 2021, month: 9, day: 1 },
        status: None,
    }
}

#[test]
fn create_assigns_first_key() {
    let mut t: Table<Faculty> = Table::new();
    let created = t.create(faculty("Science", "S")).unwrap();
    assert_eq!(created.id, 1);
    assert_eq!(created.name, "Science");
    assert_eq!(created.letter, "S");
}

#[test]
fn create_then_list_contains_exactly_the_row() {
    let mut t: Table<Faculty> = Table::new();
    let created = t.create(faculty("Science", "S")).unwrap();
    let rows = t.list();
    assert_eq!(rows.len(), 1);
    assert_eq!(rows[0].id, created.id);
    assert_eq!(rows[0].name, "Science");
    assert_eq!(rows[0].letter, "S");
}

#[test]
fn keys_are_never_shared() {
    let mut t: Table<Faculty> = Table::new();
    let a = t.create(faculty("Science", "S")).unwrap();
    let b = t.create(faculty("Arts", "A")).unwrap();
    let c = t.create(faculty("Law", "L")).unwrap();
    assert_eq!((a.id, b.id, c.id), (1, 2, 3));
    let rows = t.list();
    for i in 0..rows.len() {
        for j in (i + 1)..rows.len() {
            assert_ne!(rows[i].id, rows[j].id);
        }
    }
}

#[test]
fn list_ascends_by_key() {
    let mut t: Table<Student> = Table::new();
    t.create(student("John")).unwrap();
    t.create(student("Jane")).unwrap();
    t.create(student("Jim")).unwrap();
    let rows = t.list();
    assert_eq!(rows.len(), 3);
    assert!(rows[0].id < rows[1].id && rows[1].id < rows[2].id);
}

#[test]
fn delete_then_list_excludes_the_key() {
    let mut t: Table<Faculty> = Table::new();
    t.create(faculty("Science", "S")).unwrap();
    let b = t.create(faculty("Arts", "A")).unwrap();
    let deleted = t.delete(b.id).unwrap();
    assert_eq!(deleted.id, b.id);
    assert_eq!(deleted.name, "Arts");
    assert!(t.list().iter().all(|r| r.id != b.id));
}

#[test]
fn second_delete_fails_with_not_found() {
    let mut t: Table<Faculty> = Table::new();
    let a = t.create(faculty("Science", "S")).unwrap();
    t.delete(a.id).unwrap();
    assert!(matches!(t.delete(a.id), Err(RepoError::NotFound)));
}

#[test]
fn delete_of_missing_key_fails_with_not_found() {
    let mut t: Table<Faculty> = Table::new();
    assert!(matches!(t.delete(7), Err(RepoError::NotFound)));
}

#[test]
fn update_then_fetch_returns_the_payload() {
    let mut t: Table<Faculty> = Table::new();
    let a = t.create(faculty("Science", "S")).unwrap();
    let echoed = t.update(a.id, faculty("Sciences", "C")).unwrap();
    assert_eq!(echoed.id, a.id);
    assert_eq!(echoed.name, "Sciences");
    let fetched = t.fetch(a.id).unwrap();
    assert_eq!(fetched.id, a.id);
    assert_eq!(fetched.name, "Sciences");
    assert_eq!(fetched.letter, "C");
}

#[test]
fn update_keeps_the_targeted_key() {
    let mut t: Table<Faculty> = Table::new();
    let a = t.create(faculty("Science", "S")).unwrap();
    let mut payload = faculty("Renamed", "R");
    payload.id = 999;
    let echoed = t.update(a.id, payload).unwrap();
    assert_eq!(echoed.id, a.id);
    assert_eq!(t.list().len(), 1);
    assert_eq!(t.list()[0].id, a.id);
}

#[test]
fn update_of_missing_key_fails_with_not_found() {
    let mut t: Table<Faculty> = Table::new();
    assert!(matches!(t.update(7, faculty("Ghost", "G")), Err(RepoError::NotFound)));
}

#[test]
fn fetch_of_missing_key_is_none() {
    let mut t: Table<Faculty> = Table::new();
    t.create(faculty("Science", "S")).unwrap();
    assert!(t.fetch(2).is_none());
}

#[test]
fn not_found_message_is_stable() {
    assert_eq!(RepoError::NotFound.message(), "no row matches the requested key");
}

#[test]
fn storage_message_carries_the_description() {
    let e = RepoError::Storage("boom".to_string());
    assert_eq!(e.message(), "boom");
}
