//! Behavior of the read-view projections.

use school_library::borrows::borrowings_for_card;
use school_library::cards::card_roster;
use school_library::catalog::book_roster;
use school_library::model::{Author, AuthorBook, Book, BookStatus, Category, Curriculum, Date,
    Faculty, FacultyCurriculum, Librarian, Publisher, Student, StudentCard, StudentsBorrowing,
    Teacher, TeacherCard, TeachersBorrowing};
use school_library::rosters::{student_roster, teacher_roster};
use school_library::text::{compose_group_code, compose_name, push_dec_u32};

fn date(year: i32, month: u8, day: u8) -> Date {
    Date { year, month, day }
}

fn student(id: i32, lastname: &str, name: &str, surname: &str, fc: i32, group: i16, start: Date) -> Student {
    Student {
        id,
        name: name.to_string(),
        lastname: lastname.to_string(),
        surname: surname.to_string(),
        age: 20,
        faculty_curriculum: fc,
        group,
        start_study_date: start,
        status: None,
    }
}

fn teacher(id: i32, lastname: &str, name: &str, surname: &str, faculty: i32) -> Teacher {
    Teacher {
        id,
        name: name.to_string(),
        lastname: lastname.to_string(),
        surname: surname.to_string(),
        age: 40,
        faculty,
        status: None,
    }
}

fn librarian(id: i32, lastname: &str, name: &str, surname: &str) -> Librarian {
    Librarian {
        id,
        name: name.to_string(),
        lastname: lastname.to_string(),
        surname: surname.to_string(),
        age: 50,
    }
}

fn author(id: i32, lastname: &str, name: &str, surname: &str) -> Author {
    Author {
        id,
        name: name.to_string(),
        lastname: lastname.to_string(),
        surname: surname.to_string(),
        country: "US".to_string(),
    }
}

fn book(id: i32, title: &str, publisher: i32, category: i32) -> Book {
    Book {
        id,
        title: title.to_string(),
        release: date(1999, 1, 1),
        publisher,
        category,
        student_access: true,
    }
}

#[test]
fn group_code_composes_the_documented_example() {
    let code = compose_group_code("A", "B", 2021, 3);
    assert_eq!(code, "AB-21-3");
}

#[test]
fn group_code_pads_the_year_to_two_digits() {
    assert_eq!(compose_group_code("A", "B", 2005, 1), "AB-05-1");
    assert_eq!(compose_group_code("X", "Y", 1999, 12), "XY-99-12");
}

#[test]
fn decimal_rendering_is_exact() {
    let mut s = String::new();
    push_dec_u32(&mut s, 0);
    assert_eq!(s, "0");
    let mut s = String::new();
    push_dec_u32(&mut s, 90210);
    assert_eq!(s, "90210");
}

#[test]
fn composed_name_is_lastname_name_surname() {
    let n = compose_name(&"Doe".to_string(), &"John".to_string(), &"Q".to_string());
    assert_eq!(n, "Doe John Q");
}

#[test]
fn student_roster_computes_the_group_code() {
    let students = vec![student(1, "Doe", "John", "Q", 10, 3, date(2021, 9, 1))];
    let fcs = vec![FacultyCurriculum { id: 10, faculty: 20, curriculum: 30 }];
    let faculties = vec![Faculty { id: 20, name: "Applied".to_string(), letter: "A".to_string() }];
    let curricula = vec![Curriculum { id: 30, name: "Basics".to_string(), letter: "B".to_string() }];
    let roster = student_roster(&students, &fcs, &faculties, &curricula);
    assert_eq!(roster.len(), 1);
    assert_eq!(roster[0].id, 1);
    assert_eq!(roster[0].group, "AB-21-3");
    assert_eq!(roster[0].lastname, "Doe");
}

#[test]
fn student_without_assigned_pair_still_appears_with_empty_letters() {
    let students = vec![student(1, "Doe", "John", "Q", 99, 3, date(2021, 9, 1))];
    let roster = student_roster(&students, &vec![], &vec![], &vec![]);
    assert_eq!(roster.len(), 1);
    assert_eq!(roster[0].group, "-21-3");
}

#[test]
fn teacher_roster_resolves_the_faculty_name() {
    let teachers = vec![teacher(1, "Roe", "Jane", "R", 20), teacher(2, "Poe", "Edgar", "A", 77)];
    let faculties = vec![Faculty { id: 20, name: "Applied".to_string(), letter: "A".to_string() }];
    let roster = teacher_roster(&teachers, &faculties);
    assert_eq!(roster.len(), 2);
    assert_eq!(roster[0].faculty, "Applied");
    assert_eq!(roster[1].faculty, "");
}

#[test]
fn card_roster_unions_both_kinds_with_composed_names() {
    let students = vec![student(1, "Doe", "John", "Q", 10, 3, date(2021, 9, 1))];
    let teachers = vec![teacher(4, "Roe", "Jane", "R", 20)];
    let student_cards = vec![StudentCard { id: 7, student: 1, issue_date: date(2022, 1, 2) }];
    let teacher_cards = vec![TeacherCard { id: 8, teacher: 4, issue_date: date(2022, 3, 4) }];
    let roster = card_roster(&student_cards, &students, &teacher_cards, &teachers);
    assert_eq!(roster.len(), 2);
    let student_row = roster.iter().find(|c| !c.is_teacher).unwrap();
    let teacher_row = roster.iter().find(|c| c.is_teacher).unwrap();
    assert_eq!(student_row.id, 7);
    assert_eq!(student_row.owner, "Doe John Q");
    assert_eq!(teacher_row.id, 8);
    assert_eq!(teacher_row.owner, "Roe Jane R");
}

#[test]
fn card_roster_drops_cards_without_an_owner_row() {
    let student_cards = vec![StudentCard { id: 7, student: 1, issue_date: date(2022, 1, 2) }];
    let roster = card_roster(&student_cards, &vec![], &vec![], &vec![]);
    assert!(roster.is_empty());
}

fn borrowing_fixture() -> (
    Vec<StudentsBorrowing>,
    Vec<StudentCard>,
    Vec<Student>,
    Vec<TeachersBorrowing>,
    Vec<TeacherCard>,
    Vec<Teacher>,
    Vec<Librarian>,
    Vec<Book>,
) {
    let students = vec![student(1, "Doe", "John", "Q", 10, 3, date(2021, 9, 1))];
    let teachers = vec![teacher(4, "Roe", "Jane", "R", 20)];
    let student_cards = vec![StudentCard { id: 5, student: 1, issue_date: date(2022, 1, 2) }];
    let teacher_cards = vec![TeacherCard { id: 5, teacher: 4, issue_date: date(2022, 3, 4) }];
    let librarians = vec![librarian(9, "Lee", "Ann", "M")];
    let books = vec![book(11, "Dune", 1, 1)];
    let student_rows = vec![StudentsBorrowing {
        id: 100,
        student_card: 5,
        librarian: 9,
        book: 11,
        book_status_start: BookStatus::Good,
        book_status_finish: None,
        borrow_date: date(2023, 5, 6),
        return_date: None,
        required_return_date: date(2023, 6, 6),
    }];
    let teacher_rows = vec![TeachersBorrowing {
        id: 200,
        teacher_card: 5,
        librarian: 9,
        book: 11,
        book_status_start: BookStatus::Excellent,
        book_status_finish: Some(BookStatus::Good),
        borrow_date: date(2023, 7, 8),
        return_date: Some(date(2023, 8, 9)),
    }];
    (student_rows, student_cards, students, teacher_rows, teacher_cards, teachers, librarians, books)
}

#[test]
fn teacher_history_reads_only_the_teacher_table_and_has_no_due_date() {
    let (sb, sc, st, tb, tc, te, li, bo) = borrowing_fixture();
    let rows = borrowings_for_card(true, 5, &sb, &sc, &st, &tb, &tc, &te, &li, &bo);
    assert_eq!(rows.len(), 1);
    assert_eq!(rows[0].id, 200);
    assert_eq!(rows[0].owner, "Roe Jane R");
    assert!(rows[0].required_return_date.is_none());
}

#[test]
fn student_history_carries_the_due_date() {
    let (sb, sc, st, tb, tc, te, li, bo) = borrowing_fixture();
    let rows = borrowings_for_card(false, 5, &sb, &sc, &st, &tb, &tc, &te, &li, &bo);
    assert_eq!(rows.len(), 1);
    assert_eq!(rows[0].id, 100);
    assert_eq!(rows[0].owner, "Doe John Q");
    assert_eq!(rows[0].librarian_name, "Lee Ann M");
    assert_eq!(rows[0].librarian, 9);
    assert_eq!(rows[0].book_title, "Dune");
    assert_eq!(rows[0].book, 11);
    assert_eq!(rows[0].required_return_date, Some(date(2023, 6, 6)));
}

#[test]
fn history_is_filtered_to_the_requested_card() {
    let (sb, sc, st, tb, tc, te, li, bo) = borrowing_fixture();
    let rows = borrowings_for_card(false, 6, &sb, &sc, &st, &tb, &tc, &te, &li, &bo);
    assert!(rows.is_empty());
}

#[test]
fn history_drops_rows_with_a_missing_librarian() {
    let (sb, sc, st, tb, tc, te, _li, bo) = borrowing_fixture();
    let rows = borrowings_for_card(false, 5, &sb, &sc, &st, &tb, &tc, &te, &vec![], &bo);
    assert!(rows.is_empty());
}

#[test]
fn book_roster_aggregates_authors_in_link_order() {
    let books = vec![book(1, "Tales", 50, 60)];
    let links = vec![
        AuthorBook { id: 1, author_id: 30, book_id: 1, num: 1 },
        AuthorBook { id: 2, author_id: 31, book_id: 1, num: 1 },
    ];
    let authors = vec![author(30, "Poe", "Edgar", "A"), author(31, "Doe", "Jane", "B")];
    let publishers = vec![Publisher { id: 50, name: "Birch".to_string(), country: "US".to_string() }];
    let categories = vec![Category { id: 60, name: "Fiction".to_string() }];
    let roster = book_roster(&books, &links, &authors, &publishers, &categories);
    assert_eq!(roster.len(), 1);
    assert_eq!(roster[0].id, 1);
    assert_eq!(roster[0].title, "Tales");
    assert_eq!(roster[0].publisher, "Birch");
    assert_eq!(roster[0].category, "Fiction");
    let mut parts: Vec<&str> = roster[0].authors.split(", ").collect();
    parts.sort();
    assert_eq!(parts, ["Doe Jane B", "Poe Edgar A"]);
    assert_eq!(roster[0].authors, "Poe Edgar A, Doe Jane B");
}

#[test]
fn book_without_authors_is_excluded() {
    let books = vec![book(1, "Tales", 50, 60)];
    let publishers = vec![Publisher { id: 50, name: "Birch".to_string(), country: "US".to_string() }];
    let categories = vec![Category { id: 60, name: "Fiction".to_string() }];
    let roster = book_roster(&books, &vec![], &vec![], &publishers, &categories);
    assert!(roster.is_empty());
}

#[test]
fn book_with_missing_publisher_is_excluded() {
    let books = vec![book(1, "Tales", 50, 60)];
    let links = vec![AuthorBook { id: 1, author_id: 30, book_id: 1, num: 1 }];
    let authors = vec![author(30, "Poe", "Edgar", "A")];
    let categories = vec![Category { id: 60, name: "Fiction".to_string() }];
    let roster = book_roster(&books, &links, &authors, &vec![], &categories);
    assert!(roster.is_empty());
}

#[test]
fn book_roster_keeps_book_order() {
    let books = vec![book(1, "Tales", 50, 60), book(2, "Poems", 50, 60)];
    let links = vec![
        AuthorBook { id: 1, author_id: 30, book_id: 2, num: 1 },
        AuthorBook { id: 2, author_id: 30, book_id: 1, num: 1 },
    ];
    let authors = vec![author(30, "Poe", "Edgar", "A")];
    let publishers = vec![Publisher { id: 50, name: "Birch".to_string(), country: "US".to_string() }];
    let categories = vec![Category { id: 60, name: "Fiction".to_string() }];
    let roster = book_roster(&books, &links, &authors, &publishers, &categories);
    assert_eq!(roster.len(), 2);
    assert_eq!(roster[0].id, 1);
    assert_eq!(roster[1].id, 2);
}
