//! Borrowing history for one card, dispatched on the card kind.
//!
//! The two borrowing tables differ only in the due date, which student
//! loans carry and teacher loans lack, so one result shape serves both:
//! the requested kind selects which table is read, and the due-date
//! column of a teacher row is always absent. Each kept row joins its
//! card to the owner and resolves the librarian and the book; the joins
//! are inner, so a row with a dangling reference is dropped. Output
//! order follows the input order, ascending by borrowing id when the
//! input is so ordered.

use vstd::prelude::*;

use crate::entity::Entity;
use crate::model::{Book, BookStatus, Date, Librarian, Student, StudentCard, StudentsBorrowing,
    Teacher, TeacherCard, TeachersBorrowing};
use crate::repo::{contains_key, find_row, keys_ascending, row_at_key};
use crate::text::{compose_name, full_name};

verus! {

/// One borrowing of either kind, denormalized for presentation.
pub struct BorrowingReadonly {
    pub id: i32,
    pub owner: String,
    pub card: i32,
    pub librarian_name: String,
    pub librarian: i32,
    pub book_title: String,
    pub book: i32,
    pub book_status_start: BookStatus,
    pub book_status_finish: Option<BookStatus>,
    pub borrow_date: Date,
    pub return_date: Option<Date>,
    pub required_return_date: Option<Date>,
}

/// Whether a student borrowing belongs to the requested card and all
/// its joins resolve.
pub open spec fn student_borrowing_joins(
    b: StudentsBorrowing,
    card: int,
    cards: Seq<StudentCard>,
    students: Seq<Student>,
    librarians: Seq<Librarian>,
    books: Seq<Book>,
) -> bool {
    &&& b.student_card as int == card
    &&& contains_key(cards, b.student_card as int)
    &&& contains_key(students, row_at_key(cards, b.student_card as int).student as int)
    &&& contains_key(librarians, b.librarian as int)
    &&& contains_key(books, b.book as int)
}

/// Whether a teacher borrowing belongs to the requested card and all
/// its joins resolve.
pub open spec fn teacher_borrowing_joins(
    b: TeachersBorrowing,
    card: int,
    cards: Seq<TeacherCard>,
    teachers: Seq<Teacher>,
    librarians: Seq<Librarian>,
    books: Seq<Book>,
) -> bool {
    &&& b.teacher_card as int == card
    &&& contains_key(cards, b.teacher_card as int)
    &&& contains_key(teachers, row_at_key(cards, b.teacher_card as int).teacher as int)
    &&& contains_key(librarians, b.librarian as int)
    &&& contains_key(books, b.book as int)
}

/// The student borrowings kept for the requested card, in input order.
pub open spec fn student_borrowings_kept(
    rows: Seq<StudentsBorrowing>,
    card: int,
    cards: Seq<StudentCard>,
    students: Seq<Student>,
    librarians: Seq<Librarian>,
    books: Seq<Book>,
) -> Seq<StudentsBorrowing>
    decreases rows.len(),
{
    if rows.len() == 0 {
        Seq::empty()
    } else {
        let rest = student_borrowings_kept(
            rows.drop_last(),
            card,
            cards,
            students,
            librarians,
            books,
        );
        if student_borrowing_joins(rows.last(), card, cards, students, librarians, books) {
            rest.push(rows.last())
        } else {
            rest
        }
    }
}

/// The teacher borrowings kept for the requested card, in input order.
pub open spec fn teacher_borrowings_kept(
    rows: Seq<TeachersBorrowing>,
    card: int,
    cards: Seq<TeacherCard>,
    teachers: Seq<Teacher>,
    librarians: Seq<Librarian>,
    books: Seq<Book>,
) -> Seq<TeachersBorrowing>
    decreases rows.len(),
{
    if rows.len() == 0 {
        Seq::empty()
    } else {
        let rest = teacher_borrowings_kept(
            rows.drop_last(),
            card,
            cards,
            teachers,
            librarians,
            books,
        );
        if teacher_borrowing_joins(rows.last(), card, cards, teachers, librarians, books) {
            rest.push(rows.last())
        } else {
            rest
        }
    }
}

/// Every kept student borrowing comes from the input rows.
proof fn lemma_student_kept_from(
    rows: Seq<StudentsBorrowing>,
    card: int,
    cards: Seq<StudentCard>,
    students: Seq<Student>,
    librarians: Seq<Librarian>,
    books: Seq<Book>,
)
    ensures
        forall|i: int|
            0 <= i < student_borrowings_kept(rows, card, cards, students, librarians, books).len()
                ==> rows.contains(
                #[trigger] student_borrowings_kept(rows, card, cards, students, librarians, books)[i],
            ),
    decreases rows.len(),
{
    if rows.len() > 0 {
        let rest = rows.drop_last();
        lemma_student_kept_from(rest, card, cards, students, librarians, books);
        let k = student_borrowings_kept(rows, card, cards, students, librarians, books);
        assert forall|i: int| 0 <= i < k.len() implies rows.contains(#[trigger] k[i]) by {
            let kr = student_borrowings_kept(rest, card, cards, students, librarians, books);
            if i < kr.len() {
                let p = choose|p: int| 0 <= p < rest.len() && rest[p] == kr[i];
                assert(rows[p] == kr[i]);
            } else {
                assert(rows[rows.len() - 1] == k[i]);
            }
        }
    }
}

/// Every kept teacher borrowing comes from the input rows.
proof fn lemma_teacher_kept_from(
    rows: Seq<TeachersBorrowing>,
    card: int,
    cards: Seq<TeacherCard>,
    teachers: Seq<Teacher>,
    librarians: Seq<Librarian>,
    books: Seq<Book>,
)
    ensures
        forall|i: int|
            0 <= i < teacher_borrowings_kept(rows, card, cards, teachers, librarians, books).len()
                ==> rows.contains(
                #[trigger] teacher_borrowings_kept(rows, card, cards, teachers, librarians, books)[i],
            ),
    decreases rows.len(),
{
    if rows.len() > 0 {
        let rest = rows.drop_last();
        lemma_teacher_kept_from(rest, card, cards, teachers, librarians, books);
        let k = teacher_borrowings_kept(rows, card, cards, teachers, librarians, books);
        assert forall|i: int| 0 <= i < k.len() implies rows.contains(#[trigger] k[i]) by {
            let kr = teacher_borrowings_kept(rest, card, cards, teachers, librarians, books);
            if i < kr.len() {
                let p = choose|p: int| 0 <= p < rest.len() && rest[p] == kr[i];
                assert(rows[p] == kr[i]);
            } else {
                assert(rows[rows.len() - 1] == k[i]);
            }
        }
    }
}

/// A borrowing table listed ascending by id keeps its order through the
/// history filter: the kept student rows ascend by id too.
pub proof fn lemma_student_history_sorted(
    rows: Seq<StudentsBorrowing>,
    card: int,
    cards: Seq<StudentCard>,
    students: Seq<Student>,
    librarians: Seq<Librarian>,
    books: Seq<Book>,
)
    requires
        keys_ascending(rows),
    ensures
        keys_ascending(student_borrowings_kept(rows, card, cards, students, librarians, books)),
    decreases rows.len(),
{
    if rows.len() > 0 {
        let rest = rows.drop_last();
        lemma_student_history_sorted(rest, card, cards, students, librarians, books);
        lemma_student_kept_from(rest, card, cards, students, librarians, books);
        let k = student_borrowings_kept(rows, card, cards, students, librarians, books);
        let kr = student_borrowings_kept(rest, card, cards, students, librarians, books);
        assert forall|i: int, j: int| 0 <= i < j < k.len() implies (#[trigger] k[i].key()) < (
        #[trigger] k[j].key()) by {
            if j < kr.len() {
                assert(kr[i].key() < kr[j].key());
            } else {
                let p = choose|p: int| 0 <= p < rest.len() && rest[p] == kr[i];
                assert(rows[p].key() < rows[rows.len() - 1].key());
            }
        }
    }
}

/// A borrowing table listed ascending by id keeps its order through the
/// history filter: the kept teacher rows ascend by id too.
pub proof fn lemma_teacher_history_sorted(
    rows: Seq<TeachersBorrowing>,
    card: int,
    cards: Seq<TeacherCard>,
    teachers: Seq<Teacher>,
    librarians: Seq<Librarian>,
    books: Seq<Book>,
)
    requires
        keys_ascending(rows),
    ensures
        keys_ascending(teacher_borrowings_kept(rows, card, cards, teachers, librarians, books)),
    decreases rows.len(),
{
    if rows.len() > 0 {
        let rest = rows.drop_last();
        lemma_teacher_history_sorted(rest, card, cards, teachers, librarians, books);
        lemma_teacher_kept_from(rest, card, cards, teachers, librarians, books);
        let k = teacher_borrowings_kept(rows, card, cards, teachers, librarians, books);
        let kr = teacher_borrowings_kept(rest, card, cards, teachers, librarians, books);
        assert forall|i: int, j: int| 0 <= i < j < k.len() implies (#[trigger] k[i].key()) < (
        #[trigger] k[j].key()) by {
            if j < kr.len() {
                assert(kr[i].key() < kr[j].key());
            } else {
                let p = choose|p: int| 0 <= p < rest.len() && rest[p] == kr[i];
                assert(rows[p].key() < rows[rows.len() - 1].key());
            }
        }
    }
}

/// How a history row presents a student borrowing: the owner resolved
/// through the card, the librarian and book denormalized, and the due
/// date carried over.
pub open spec fn student_borrow_row_matches(
    b: StudentsBorrowing,
    cards: Seq<StudentCard>,
    students: Seq<Student>,
    librarians: Seq<Librarian>,
    books: Seq<Book>,
    out: BorrowingReadonly,
) -> bool {
    let s = row_at_key(students, row_at_key(cards, b.student_card as int).student as int);
    let l = row_at_key(librarians, b.librarian as int);
    let bk = row_at_key(books, b.book as int);
    &&& out.id == b.id
    &&& out.owner@ == full_name(s.lastname@, s.name@, s.surname@)
    &&& out.card == b.student_card
    &&& out.librarian_name@ == full_name(l.lastname@, l.name@, l.surname@)
    &&& out.librarian == b.librarian
    &&& out.book_title == bk.title
    &&& out.book == b.book
    &&& out.book_status_start == b.book_status_start
    &&& out.book_status_finish == b.book_status_finish
    &&& out.borrow_date == b.borrow_date
    &&& out.return_date == b.return_date
    &&& out.required_return_date == Some(b.required_return_date)
}

/// How a history row presents a teacher borrowing: as above, except
/// that teachers have no due date, so the due-date column is absent.
pub open spec fn teacher_borrow_row_matches(
    b: TeachersBorrowing,
    cards: Seq<TeacherCard>,
    teachers: Seq<Teacher>,
    librarians: Seq<Librarian>,
    books: Seq<Book>,
    out: BorrowingReadonly,
) -> bool {
    let t = row_at_key(teachers, row_at_key(cards, b.teacher_card as int).teacher as int);
    let l = row_at_key(librarians, b.librarian as int);
    let bk = row_at_key(books, b.book as int);
    &&& out.id == b.id
    &&& out.owner@ == full_name(t.lastname@, t.name@, t.surname@)
    &&& out.card == b.teacher_card
    &&& out.librarian_name@ == full_name(l.lastname@, l.name@, l.surname@)
    &&& out.librarian == b.librarian
    &&& out.book_title == bk.title
    &&& out.book == b.book
    &&& out.book_status_start == b.book_status_start
    &&& out.book_status_finish == b.book_status_finish
    &&& out.borrow_date == b.borrow_date
    &&& out.return_date == b.return_date
    &&& out.required_return_date is None
}

/// The borrowing history of one card. `is_teacher` selects which
/// borrowing table is read: the teacher branch reads only teacher
/// rows, and every row it yields lacks a due date.
#[verifier::loop_isolation(false)]
pub fn borrowings_for_card(
    is_teacher: bool,
    card: i32,
    student_rows: &Vec<StudentsBorrowing>,
    student_cards: &Vec<StudentCard>,
    students: &Vec<Student>,
    teacher_rows: &Vec<TeachersBorrowing>,
    teacher_cards: &Vec<TeacherCard>,
    teachers: &Vec<Teacher>,
    librarians: &Vec<Librarian>,
    books: &Vec<Book>,
) -> (r: Vec<BorrowingReadonly>)
    ensures
        !is_teacher ==> ({
            let k = student_borrowings_kept(
                student_rows@,
                card as int,
                student_cards@,
                students@,
                librarians@,
                books@,
            );
            &&& r@.len() == k.len()
            &&& forall|i: int|
                0 <= i < k.len() ==> student_borrow_row_matches(
                    k[i],
                    student_cards@,
                    students@,
                    librarians@,
                    books@,
                    #[trigger] r@[i],
                )
        }),
        is_teacher ==> ({
            let k = teacher_borrowings_kept(
                teacher_rows@,
                card as int,
                teacher_cards@,
                teachers@,
                librarians@,
                books@,
            );
            &&& r@.len() == k.len()
            &&& forall|i: int|
                0 <= i < k.len() ==> teacher_borrow_row_matches(
                    k[i],
                    teacher_cards@,
                    teachers@,
                    librarians@,
                    books@,
                    #[trigger] r@[i],
                )
        }),
        is_teacher ==> forall|i: int|
            0 <= i < r@.len() ==> (#[trigger] r@[i].required_return_date) is None,
        forall|i: int| 0 <= i < r@.len() ==> (#[trigger] r@[i].card) == card,
{
    let mut out: Vec<BorrowingReadonly> = Vec::new();
    if is_teacher {
        let n = teacher_rows.len();
        let mut i: usize = 0;
        while i < n
            invariant
                i <= n,
                ({
                    let k = teacher_borrowings_kept(
                        teacher_rows@.take(i as int),
                        card as int,
                        teacher_cards@,
                        teachers@,
                        librarians@,
                        books@,
                    );
                    &&& out@.len() == k.len()
                    &&& forall|j: int|
                        0 <= j < k.len() ==> teacher_borrow_row_matches(
                            k[j],
                            teacher_cards@,
                            teachers@,
                            librarians@,
                            books@,
                            #[trigger] out@[j],
                        )
                }),
                forall|j: int| 0 <= j < out@.len() ==> (#[trigger] out@[j].card) == card,
                forall|j: int|
                    0 <= j < out@.len() ==> (#[trigger] out@[j].required_return_date) is None,
            decreases n - i,
        {
            let b = &teacher_rows[i];
            proof {
                assert(teacher_rows@.take(i as int + 1).drop_last() =~= teacher_rows@.take(
                    i as int,
                ));
                assert(teacher_rows@.take(i as int + 1).last() == teacher_rows@[i as int]);
            }
            if b.teacher_card == card {
                match find_row(teacher_cards, b.teacher_card) {
                    Some(c) => match find_row(teachers, c.teacher) {
                        Some(t) => match find_row(librarians, b.librarian) {
                            Some(l) => match find_row(books, b.book) {
                                Some(bk) => {
                                    out.push(
                                        BorrowingReadonly {
                                            id: b.id,
                                            owner: compose_name(&t.lastname, &t.name, &t.surname),
                                            card: b.teacher_card,
                                            librarian_name: compose_name(
                                                &l.lastname,
                                                &l.name,
                                                &l.surname,
                                            ),
                                            librarian: b.librarian,
                                            book_title: bk.title.clone(),
                                            book: b.book,
                                            book_status_start: b.book_status_start,
                                            book_status_finish: b.book_status_finish,
                                            borrow_date: b.borrow_date,
                                            return_date: b.return_date,
                                            required_return_date: None,
                                        },
                                    );
                                },
                                None => {},
                            },
                            None => {},
                        },
                        None => {},
                    },
                    None => {},
                }
            }
            i = i + 1;
        }
        proof {
            assert(teacher_rows@.take(n as int) =~= teacher_rows@);
        }
    } else {
        let n = student_rows.len();
        let mut i: usize = 0;
        while i < n
            invariant
                i <= n,
                ({
                    let k = student_borrowings_kept(
                        student_rows@.take(i as int),
                        card as int,
                        student_cards@,
                        students@,
                        librarians@,
                        books@,
                    );
                    &&& out@.len() == k.len()
                    &&& forall|j: int|
                        0 <= j < k.len() ==> student_borrow_row_matches(
                            k[j],
                            student_cards@,
                            students@,
                            librarians@,
                            books@,
                            #[trigger] out@[j],
                        )
                }),
                forall|j: int| 0 <= j < out@.len() ==> (#[trigger] out@[j].card) == card,
            decreases n - i,
        {
            let b = &student_rows[i];
            proof {
                assert(student_rows@.take(i as int + 1).drop_last() =~= student_rows@.take(
                    i as int,
                ));
                assert(student_rows@.take(i as int + 1).last() == student_rows@[i as int]);
            }
            if b.student_card == card {
                match find_row(student_cards, b.student_card) {
                    Some(c) => match find_row(students, c.student) {
                        Some(s) => match find_row(librarians, b.librarian) {
                            Some(l) => match find_row(books, b.book) {
                                Some(bk) => {
                                    out.push(
                                        BorrowingReadonly {
                                            id: b.id,
                                            owner: compose_name(&s.lastname, &s.name, &s.surname),
                                            card: b.student_card,
                                            librarian_name: compose_name(
                                                &l.lastname,
                                                &l.name,
                                                &l.surname,
                                            ),
                                            librarian: b.librarian,
                                            book_title: bk.title.clone(),
                                            book: b.book,
                                            book_status_start: b.book_status_start,
                                            book_status_finish: b.book_status_finish,
                                            borrow_date: b.borrow_date,
                                            return_date: b.return_date,
                                            required_return_date: Some(b.required_return_date),
                                        },
                                    );
                                },
                                None => {},
                            },
                            None => {},
                        },
                        None => {},
                    },
                    None => {},
                }
            }
            i = i + 1;
        }
        proof {
            assert(student_rows@.take(n as int) =~= student_rows@);
        }
    }
    out
}

} // verus!
