//! Behavior of the string-keyed country repository.

use school_library::country::CountryTable;
use school_library::error::RepoError;
use school_library::model::Country;

fn country(code: &str, name: &str) -> Country {
    Country { code: code.to_string(), name: name.to_string() }
}

#[test]
fn create_echoes_the_row() {
    let mut t = CountryTable::new();
    let created = t.create(country("US", "United States")).unwrap();
    assert_eq!(created.code, "US");
    assert_eq!(created.name, "United States");
}

#[test]
fn list_ascends_by_code() {
    let mut t = CountryTable::new();
    t.create(country("US", "United States")).unwrap();
    t.create(country("DE", "Germany")).unwrap();
    t.create(country("FR", "France")).unwrap();
    let codes: Vec<&str> = t.list().iter().map(|c| c.code.as_str()).collect();
    assert_eq!(codes, ["DE", "FR", "US"]);
}

#[test]
fn duplicate_code_is_refused() {
    let mut t = CountryTable::new();
    t.create(country("US", "United States")).unwrap();
    assert!(matches!(t.create(country("US", "Again")), Err(RepoError::Storage(_))));
    assert_eq!(t.list().len(), 1);
}

#[test]
fn update_may_move_the_row_to_a_new_code() {
    let mut t = CountryTable::new();
    t.create(country("US", "United States")).unwrap();
    t.create(country("DE", "Germany")).unwrap();
    let echoed = t.update("US", country("CA", "Canada")).unwrap();
    assert_eq!(echoed.code, "CA");
    let codes: Vec<&str> = t.list().iter().map(|c| c.code.as_str()).collect();
    assert_eq!(codes, ["CA", "DE"]);
}

#[test]
fn update_of_missing_code_fails_with_not_found() {
    let mut t = CountryTable::new();
    assert!(matches!(t.update("XX", country("YY", "Nowhere")), Err(RepoError::NotFound)));
}

#[test]
fn update_onto_a_taken_code_is_refused() {
    let mut t = CountryTable::new();
    t.create(country("US", "United States")).unwrap();
    t.create(country("DE", "Germany")).unwrap();
    assert!(matches!(t.update("US", country("DE", "Clash")), Err(RepoError::Storage(_))));
    let codes: Vec<&str> = t.list().iter().map(|c| c.code.as_str()).collect();
    assert_eq!(codes, ["DE", "US"]);
}

#[test]
fn update_in_place_keeps_the_code() {
    let mut t = CountryTable::new();
    t.create(country("US", "United States")).unwrap();
    let echoed = t.update("US", country("US", "USA")).unwrap();
    assert_eq!(echoed.name, "USA");
    assert_eq!(t.list()[0].name, "USA");
}

#[test]
fn delete_returns_the_previous_row() {
    let mut t = CountryTable::new();
    t.create(country("US", "United States")).unwrap();
    let deleted = t.delete("US").unwrap();
    assert_eq!(deleted.name, "United States");
    assert!(t.list().is_empty());
    assert!(matches!(t.delete("US"), Err(RepoError::NotFound)));
}
