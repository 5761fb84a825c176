//! The shape shared by every integer-keyed entity table row.
//!
//! A repository needs four things of a row: to read its key, to replace
//! its key (storage assigns keys on insertion), and to copy it. `set_key`
//! is the specification-level key replacement; stating that a returned
//! row equals `input.set_key(k)` says precisely that it agrees with the
//! input in every field except the key.

use vstd::prelude::*;

use crate::model::{
    Author, AuthorBook, Book, Category, Curriculum, Faculty, FacultyCurriculum, Librarian,
    Publisher, Student, StudentCard, StudentsBorrowing, Teacher, TeacherCard, TeachersBorrowing,
};

verus! {

/// A row of an integer-keyed entity table.
pub trait Entity: Sized {
    /// The row's primary key.
    spec fn key(self) -> int;

    /// The same row with its key replaced and every other field kept.
    spec fn set_key(self, k: i32) -> Self;

    /// Replacing the key yields that key.
    proof fn lemma_set_key(self, k: i32)
        ensures
            self.set_key(k).key() == k as int,
    ;

    fn key_exec(&self) -> (k: i32)
        ensures
            k as int == self.key(),
    ;

    fn with_key(self, k: i32) -> (r: Self)
        ensures
            r == self.set_key(k),
    ;

    fn dup(&self) -> (r: Self)
        ensures
            r == *self,
    ;
}

impl Entity for Faculty {
    open spec fn key(self) -> int {
        self.id as int
    }

    open spec fn set_key(self, k: i32) -> Self {
        Faculty { id: k, ..self }
    }

    proof fn lemma_set_key(self, k: i32) {
    }

    fn key_exec(&self) -> i32 {
        self.id
    }

    fn with_key(self, k: i32) -> Self {
        Faculty { id: k, ..self }
    }

    fn dup(&self) -> Self {
        Faculty { id: self.id, name: self.name.clone(), letter: self.letter.clone() }
    }
}

impl Entity for Curriculum {
    open spec fn key(self) -> int {
        self.id as int
    }

    open spec fn set_key(self, k: i32) -> Self {
        Curriculum { id: k, ..self }
    }

    proof fn lemma_set_key(self, k: i32) {
    }

    fn key_exec(&self) -> i32 {
        self.id
    }

    fn with_key(self, k: i32) -> Self {
        Curriculum { id: k, ..self }
    }

    fn dup(&self) -> Self {
        Curriculum {
            id: self.id,
            name: self.name.clone(),
            letter: self.letter.clone(),
        }
    }
}

impl Entity for FacultyCurriculum {
    open spec fn key(self) -> int {
        self.id as int
    }

    open spec fn set_key(self, k: i32) -> Self {
        FacultyCurriculum { id: k, ..self }
    }

    proof fn lemma_set_key(self, k: i32) {
    }

    fn key_exec(&self) -> i32 {
        self.id
    }

    fn with_key(self, k: i32) -> Self {
        FacultyCurriculum { id: k, ..self }
    }

    fn dup(&self) -> Self {
        FacultyCurriculum {
            id: self.id,
            faculty: self.faculty,
            curriculum: self.curriculum,
        }
    }
}

impl Entity for Student {
    open spec fn key(self) -> int {
        self.id as int
    }

    open spec fn set_key(self, k: i32) -> Self {
        Student { id: k, ..self }
    }

    proof fn lemma_set_key(self, k: i32) {
    }

    fn key_exec(&self) -> i32 {
        self.id
    }

    fn with_key(self, k: i32) -> Self {
        Student { id: k, ..self }
    }

    fn dup(&self) -> Self {
        Student {
            id: self.id,
            name: self.name.clone(),
            lastname: self.lastname.clone(),
            surname: self.surname.clone(),
            age: self.age,
            faculty_curriculum: self.faculty_curriculum,
            group: self.group,
            start_study_date: self.start_study_date,
            status: self.status,
        }
    }
}

impl Entity for Teacher {
    open spec fn key(self) -> int {
        self.id as int
    }

    open spec fn set_key(self, k: i32) -> Self {
        Teacher { id: k, ..self }
    }

    proof fn lemma_set_key(self, k: i32) {
    }

    fn key_exec(&self) -> i32 {
        self.id
    }

    fn with_key(self, k: i32) -> Self {
        Teacher { id: k, ..self }
    }

    fn dup(&self) -> Self {
        Teacher {
            id: self.id,
            name: self.name.clone(),
            lastname: self.lastname.clone(),
            surname: self.surname.clone(),
            age: self.age,
            faculty: self.faculty,
            status: self.status,
        }
    }
}

impl Entity for Book {
    open spec fn key(self) -> int {
        self.id as int
    }

    open spec fn set_key(self, k: i32) -> Self {
        Book { id: k, ..self }
    }

    proof fn lemma_set_key(self, k: i32) {
    }

    fn key_exec(&self) -> i32 {
        self.id
    }

    fn with_key(self, k: i32) -> Self {
        Book { id: k, ..self }
    }

    fn dup(&self) -> Self {
        Book {
            id: self.id,
            title: self.title.clone(),
            release: self.release,
            publisher: self.publisher,
            category: self.category,
            student_access: self.student_access,
        }
    }
}

impl Entity for Category {
    open spec fn key(self) -> int {
        self.id as int
    }

    open spec fn set_key(self, k: i32) -> Self {
        Category { id: k, ..self }
    }

    proof fn lemma_set_key(self, k: i32) {
    }

    fn key_exec(&self) -> i32 {
        self.id
    }

    fn with_key(self, k: i32) -> Self {
        Category { id: k, ..self }
    }

    fn dup(&self) -> Self {
        Category {
            id: self.id,
            name: self.name.clone(),
        }
    }
}

impl Entity for Author {
    open spec fn key(self) -> int {
        self.id as int
    }

    open spec fn set_key(self, k: i32) -> Self {
        Author { id: k, ..self }
    }

    proof fn lemma_set_key(self, k: i32) {
    }

    fn key_exec(&self) -> i32 {
        self.id
    }

    fn with_key(self, k: i32) -> Self {
        Author { id: k, ..self }
    }

    fn dup(&self) -> Self {
        Author {
            id: self.id,
            name: self.name.clone(),
            lastname: self.lastname.clone(),
            surname: self.surname.clone(),
            country: self.country.clone(),
        }
    }
}

impl Entity for AuthorBook {
    open spec fn key(self) -> int {
        self.id as int
    }

    open spec fn set_key(self, k: i32) -> Self {
        AuthorBook { id: k, ..self }
    }

    proof fn lemma_set_key(self, k: i32) {
    }

    fn key_exec(&self) -> i32 {
        self.id
    }

    fn with_key(self, k: i32) -> Self {
        AuthorBook { id: k, ..self }
    }

    fn dup(&self) -> Self {
        AuthorBook {
            id: self.id,
            author_id: self.author_id,
            book_id: self.book_id,
            num: self.num,
        }
    }
}

impl Entity for Librarian {
    open spec fn key(self) -> int {
        self.id as int
    }

    open spec fn set_key(self, k: i32) -> Self {
        Librarian { id: k, ..self }
    }

    proof fn lemma_set_key(self, k: i32) {
    }

    fn key_exec(&self) -> i32 {
        self.id
    }

    fn with_key(self, k: i32) -> Self {
        Librarian { id: k, ..self }
    }

    fn dup(&self) -> Self {
        Librarian {
            id: self.id,
            name: self.name.clone(),
            lastname: self.lastname.clone(),
            surname: self.surname.clone(),
            age: self.age,
        }
    }
}

impl Entity for Publisher {
    open spec fn key(self) -> int {
        self.id as int
    }

    open spec fn set_key(self, k: i32) -> Self {
        Publisher { id: k, ..self }
    }

    proof fn lemma_set_key(self, k: i32) {
    }

    fn key_exec(&self) -> i32 {
        self.id
    }

    fn with_key(self, k: i32) -> Self {
        Publisher { id: k, ..self }
    }

    fn dup(&self) -> Self {
        Publisher {
            id: self.id,
            name: self.name.clone(),
            country: self.country.clone(),
        }
    }
}

impl Entity for StudentCard {
    open spec fn key(self) -> int {
        self.id as int
    }

    open spec fn set_key(self, k: i32) -> Self {
        StudentCard { id: k, ..self }
    }

    proof fn lemma_set_key(self, k: i32) {
    }

    fn key_exec(&self) -> i32 {
        self.id
    }

    fn with_key(self, k: i32) -> Self {
        StudentCard { id: k, ..self }
    }

    fn dup(&self) -> Self {
        StudentCard {
            id: self.id,
            student: self.student,
            issue_date: self.issue_date,
        }
    }
}

impl Entity for TeacherCard {
    open spec fn key(self) -> int {
        self.id as int
    }

    open spec fn set_key(self, k: i32) -> Self {
        TeacherCard { id: k, ..self }
    }

    proof fn lemma_set_key(self, k: i32) {
    }

    fn key_exec(&self) -> i32 {
        self.id
    }

    fn with_key(self, k: i32) -> Self {
        TeacherCard { id: k, ..self }
    }

    fn dup(&self) -> Self {
        TeacherCard {
            id: self.id,
            teacher: self.teacher,
            issue_date: self.issue_date,
        }
    }
}

impl Entity for StudentsBorrowing {
    open spec fn key(self) -> int {
        self.id as int
    }

    open spec fn set_key(self, k: i32) -> Self {
        StudentsBorrowing { id: k, ..self }
    }

    proof fn lemma_set_key(self, k: i32) {
    }

    fn key_exec(&self) -> i32 {
        self.id
    }

    fn with_key(self, k: i32) -> Self {
        StudentsBorrowing { id: k, ..self }
    }

    fn dup(&self) -> Self {
        StudentsBorrowing {
            id: self.id,
            student_card: self.student_card,
            librarian: self.librarian,
            book: self.book,
            book_status_start: self.book_status_start,
            book_status_finish: self.book_status_finish,
            borrow_date: self.borrow_date,
            return_date: self.return_date,
            required_return_date: self.required_return_date,
        }
    }
}

impl Entity for TeachersBorrowing {
    open spec fn key(self) -> int {
        self.id as int
    }

    open spec fn set_key(self, k: i32) -> Self {
        TeachersBorrowing { id: k, ..self }
    }

    proof fn lemma_set_key(self, k: i32) {
    }

    fn key_exec(&self) -> i32 {
        self.id
    }

    fn with_key(self, k: i32) -> Self {
        TeachersBorrowing { id: k, ..self }
    }

    fn dup(&self) -> Self {
        TeachersBorrowing {
            id: self.id,
            teacher_card: self.teacher_card,
            librarian: self.librarian,
            book: self.book,
            book_status_start: self.book_status_start,
            book_status_finish: self.book_status_finish,
            borrow_date: self.borrow_date,
            return_date: self.return_date,
        }
    }
}

} // verus!
