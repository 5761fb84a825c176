//! Card roster: the union of student card and teacher card issuances.
//!
//! Each row carries a discriminant telling the two kinds apart and the
//! owner's composed name. Both sub-joins are inner: a card whose owner
//! row is missing is dropped. The student rows come first, then the
//! teacher rows; no ordering across the two kinds is promised.

use vstd::prelude::*;

use crate::model::{Date, Student, StudentCard, Teacher, TeacherCard};
use crate::repo::{contains_key, find_row, row_at_key};
use crate::text::{compose_name, full_name};

verus! {

/// One card issuance, of either kind, with its owner's composed name.
pub struct CardReadonly {
    pub id: i32,
    pub owner: String,
    pub issue_date: Date,
    pub is_teacher: bool,
}

/// The student cards whose owner row exists, in input order.
pub open spec fn student_cards_with_owner(
    cards: Seq<StudentCard>,
    students: Seq<Student>,
) -> Seq<StudentCard>
    decreases cards.len(),
{
    if cards.len() == 0 {
        Seq::empty()
    } else {
        let rest = student_cards_with_owner(cards.drop_last(), students);
        if contains_key(students, cards.last().student as int) {
            rest.push(cards.last())
        } else {
            rest
        }
    }
}

/// The teacher cards whose owner row exists, in input order.
pub open spec fn teacher_cards_with_owner(
    cards: Seq<TeacherCard>,
    teachers: Seq<Teacher>,
) -> Seq<TeacherCard>
    decreases cards.len(),
{
    if cards.len() == 0 {
        Seq::empty()
    } else {
        let rest = teacher_cards_with_owner(cards.drop_last(), teachers);
        if contains_key(teachers, cards.last().teacher as int) {
            rest.push(cards.last())
        } else {
            rest
        }
    }
}

/// How a roster row presents a student card: the card's id and issue
/// date, the owner's composed name, and the student discriminant.
pub open spec fn student_card_row_matches(
    c: StudentCard,
    students: Seq<Student>,
    out: CardReadonly,
) -> bool {
    let s = row_at_key(students, c.student as int);
    &&& out.id == c.id
    &&& out.owner@ == full_name(s.lastname@, s.name@, s.surname@)
    &&& out.issue_date == c.issue_date
    &&& out.is_teacher == false
}

/// How a roster row presents a teacher card: the card's id and issue
/// date, the owner's composed name, and the teacher discriminant.
pub open spec fn teacher_card_row_matches(
    c: TeacherCard,
    teachers: Seq<Teacher>,
    out: CardReadonly,
) -> bool {
    let t = row_at_key(teachers, c.teacher as int);
    &&& out.id == c.id
    &&& out.owner@ == full_name(t.lastname@, t.name@, t.surname@)
    &&& out.issue_date == c.issue_date
    &&& out.is_teacher == true
}

/// The card roster: every student card with an existing owner, then
/// every teacher card with an existing owner, each row tagged and
/// carrying the owner's composed name.
#[verifier::loop_isolation(false)]
pub fn card_roster(
    student_cards: &Vec<StudentCard>,
    students: &Vec<Student>,
    teacher_cards: &Vec<TeacherCard>,
    teachers: &Vec<Teacher>,
) -> (r: Vec<CardReadonly>)
    ensures
        ({
            let ks = student_cards_with_owner(student_cards@, students@);
            let kt = teacher_cards_with_owner(teacher_cards@, teachers@);
            &&& r@.len() == ks.len() + kt.len()
            &&& forall|i: int|
                0 <= i < ks.len() ==> student_card_row_matches(ks[i], students@, #[trigger] r@[i])
            &&& forall|i: int|
                0 <= i < kt.len() ==> teacher_card_row_matches(
                    kt[i],
                    teachers@,
                    #[trigger] r@[ks.len() + i],
                )
        }),
{
    let mut out: Vec<CardReadonly> = Vec::new();
    let n = student_cards.len();
    let mut i: usize = 0;
    while i < n
        invariant
            i <= n,
            ({
                let k = student_cards_with_owner(student_cards@.take(i as int), students@);
                &&& out@.len() == k.len()
                &&& forall|j: int|
                    0 <= j < k.len() ==> student_card_row_matches(
                        k[j],
                        students@,
                        #[trigger] out@[j],
                    )
            }),
        decreases n - i,
    {
        let c = &student_cards[i];
        proof {
            assert(student_cards@.take(i as int + 1).drop_last() =~= student_cards@.take(i as int));
            assert(student_cards@.take(i as int + 1).last() == student_cards@[i as int]);
        }
        match find_row(students, c.student) {
            Some(s) => {
                let owner = compose_name(&s.lastname, &s.name, &s.surname);
                out.push(
                    CardReadonly { id: c.id, owner, issue_date: c.issue_date, is_teacher: false },
                );
            },
            None => {},
        }
        i = i + 1;
    }
    proof {
        assert(student_cards@.take(n as int) =~= student_cards@);
    }
    let ghost ks = student_cards_with_owner(student_cards@, students@);
    let m = teacher_cards.len();
    let mut p: usize = 0;
    while p < m
        invariant
            p <= m,
            ({
                let k = teacher_cards_with_owner(teacher_cards@.take(p as int), teachers@);
                &&& out@.len() == ks.len() + k.len()
                &&& forall|j: int|
                    0 <= j < ks.len() ==> student_card_row_matches(
                        ks[j],
                        students@,
                        #[trigger] out@[j],
                    )
                &&& forall|j: int|
                    0 <= j < k.len() ==> teacher_card_row_matches(
                        k[j],
                        teachers@,
                        #[trigger] out@[ks.len() + j],
                    )
            }),
        decreases m - p,
    {
        let c = &teacher_cards[p];
        proof {
            assert(teacher_cards@.take(p as int + 1).drop_last() =~= teacher_cards@.take(p as int));
            assert(teacher_cards@.take(p as int + 1).last() == teacher_cards@[p as int]);
        }
        match find_row(teachers, c.teacher) {
            Some(t) => {
                let owner = compose_name(&t.lastname, &t.name, &t.surname);
                out.push(
                    CardReadonly { id: c.id, owner, issue_date: c.issue_date, is_teacher: true },
                );
            },
            None => {},
        }
        p = p + 1;
    }
    proof {
        assert(teacher_cards@.take(m as int) =~= teacher_cards@);
    }
    out
}

} // verus!
