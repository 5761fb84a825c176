//! Record types for the entity tables and the enumerated status domains.
//!
//! Every field is a plain value. Calendar dates are carried as a
//! year/month/day triple of integers; the transport layer converts them
//! to and from its own date representation at the boundary.

use vstd::prelude::*;

verus! {

/// Physical condition of a book, recorded when a borrowing starts and
/// again when the book is returned.
#[derive(Clone, Copy, Debug, PartialEq, Eq, Structural)]
pub enum BookStatus {
    Excellent,
    Good,
    Satisfactory,
    Unsatisfactory,
}

/// Why a student is no longer active; an active student carries no status.
#[derive(Clone, Copy, Debug, PartialEq, Eq, Structural)]
pub enum StudentStatus {
    Graduated,
    Expelled,
    Moved,
}

/// Why a teacher is no longer active; an active teacher carries no status.
#[derive(Clone, Copy, Debug, PartialEq, Eq, Structural)]
pub enum TeacherStatus {
    Fired,
    Moved,
}

/// A calendar date without time of day.
#[derive(Clone, Copy, Debug, PartialEq, Eq, Structural)]
pub struct Date {
    pub year: i32,
    pub month: u8,
    pub day: u8,
}

pub struct Student {
    pub id: i32,
    pub name: String,
    pub lastname: String,
    pub surname: String,
    pub age: i16,
    pub faculty_curriculum: i32,
    pub group: i16,
    pub start_study_date: Date,
    pub status: Option<StudentStatus>,
}

pub struct Faculty {
    pub id: i32,
    pub name: String,
    pub letter: String,
}

pub struct Curriculum {
    pub id: i32,
    pub name: String,
    pub letter: String,
}

/// Pairs one faculty with one curriculum; students reference the pair.
pub struct FacultyCurriculum {
    pub id: i32,
    pub faculty: i32,
    pub curriculum: i32,
}

pub struct Teacher {
    pub id: i32,
    pub name: String,
    pub lastname: String,
    pub surname: String,
    pub age: i16,
    pub faculty: i32,
    pub status: Option<TeacherStatus>,
}

pub struct Book {
    pub id: i32,
    pub title: String,
    pub release: Date,
    pub publisher: i32,
    pub category: i32,
    pub student_access: bool,
}

pub struct Category {
    pub id: i32,
    pub name: String,
}

pub struct Author {
    pub id: i32,
    pub name: String,
    pub lastname: String,
    pub surname: String,
    pub country: String,
}

/// Join row of the many-to-many relation between authors and books.
pub struct AuthorBook {
    pub id: i32,
    pub author_id: i32,
    pub book_id: i32,
    pub num: i16,
}

pub struct Librarian {
    pub id: i32,
    pub name: String,
    pub lastname: String,
    pub surname: String,
    pub age: i16,
}

pub struct Publisher {
    pub id: i32,
    pub name: String,
    pub country: String,
}

/// The one entity keyed by a natural string key instead of a serial id.
pub struct Country {
    pub code: String,
    pub name: String,
}

/// An issuance record granting a student borrowing rights.
pub struct StudentCard {
    pub id: i32,
    pub student: i32,
    pub issue_date: Date,
}

/// An issuance record granting a teacher borrowing rights.
pub struct TeacherCard {
    pub id: i32,
    pub teacher: i32,
    pub issue_date: Date,
}

/// One loan of a book to a student card. Students have a due date;
/// the finish status and the return date are both set when the book
/// comes back and absent otherwise.
pub struct StudentsBorrowing {
    pub id: i32,
    pub student_card: i32,
    pub librarian: i32,
    pub book: i32,
    pub book_status_start: BookStatus,
    pub book_status_finish: Option<BookStatus>,
    pub borrow_date: Date,
    pub return_date: Option<Date>,
    pub required_return_date: Date,
}

/// One loan of a book to a teacher card; teachers have no due date.
pub struct TeachersBorrowing {
    pub id: i32,
    pub teacher_card: i32,
    pub librarian: i32,
    pub book: i32,
    pub book_status_start: BookStatus,
    pub book_status_finish: Option<BookStatus>,
    pub borrow_date: Date,
    pub return_date: Option<Date>,
}

} // verus!
