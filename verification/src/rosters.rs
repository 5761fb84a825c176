//! Roster read views: the student roster with its computed group code
//! and the teacher roster with its faculty name.
//!
//! Both are left joins: a student without an assigned pair, or whose
//! pair points at a missing faculty or curriculum, still appears, with
//! the code letters empty; a teacher with a missing faculty appears
//! with an empty faculty name. Row order follows the input order, so a
//! listing ascending by id projects to a roster ascending by id.

use vstd::prelude::*;

use crate::model::{Curriculum, Date, Faculty, FacultyCurriculum, Student, StudentStatus, Teacher,
    TeacherStatus};
use crate::repo::{contains_key, find_row, row_at_key};
use crate::text::{compose_group_code, group_code};

verus! {

/// A student row denormalized with its computed group code.
pub struct StudentWithGroup {
    pub id: i32,
    pub name: String,
    pub lastname: String,
    pub surname: String,
    pub age: i16,
    pub group: String,
    pub start_study_date: Date,
    pub status: Option<StudentStatus>,
}

/// A teacher row denormalized with its faculty name.
pub struct TeacherReadonly {
    pub id: i32,
    pub name: String,
    pub lastname: String,
    pub surname: String,
    pub age: i16,
    pub faculty: String,
    pub status: Option<TeacherStatus>,
}

/// The faculty letter of a student's group code, resolved through the
/// faculty–curriculum pair; empty where either link is missing.
pub open spec fn student_faculty_letter(
    s: Student,
    fcs: Seq<FacultyCurriculum>,
    faculties: Seq<Faculty>,
) -> Seq<char> {
    if contains_key(fcs, s.faculty_curriculum as int) {
        let fc = row_at_key(fcs, s.faculty_curriculum as int);
        if contains_key(faculties, fc.faculty as int) {
            row_at_key(faculties, fc.faculty as int).letter@
        } else {
            Seq::empty()
        }
    } else {
        Seq::empty()
    }
}

/// The curriculum letter of a student's group code, resolved through
/// the faculty–curriculum pair; empty where either link is missing.
pub open spec fn student_curriculum_letter(
    s: Student,
    fcs: Seq<FacultyCurriculum>,
    curricula: Seq<Curriculum>,
) -> Seq<char> {
    if contains_key(fcs, s.faculty_curriculum as int) {
        let fc = row_at_key(fcs, s.faculty_curriculum as int);
        if contains_key(curricula, fc.curriculum as int) {
            row_at_key(curricula, fc.curriculum as int).letter@
        } else {
            Seq::empty()
        }
    } else {
        Seq::empty()
    }
}

/// How one projected roster row relates to its student row: every
/// column carried over, and the group code composed from the resolved
/// letters, the start-of-study year and the group number.
pub open spec fn student_row_matches(
    s: Student,
    out: StudentWithGroup,
    fcs: Seq<FacultyCurriculum>,
    faculties: Seq<Faculty>,
    curricula: Seq<Curriculum>,
) -> bool {
    &&& out.id == s.id
    &&& out.name == s.name
    &&& out.lastname == s.lastname
    &&& out.surname == s.surname
    &&& out.age == s.age
    &&& out.group@ == group_code(
        student_faculty_letter(s, fcs, faculties),
        student_curriculum_letter(s, fcs, curricula),
        s.start_study_date.year as int,
        s.group as int,
    )
    &&& out.start_study_date == s.start_study_date
    &&& out.status == s.status
}

/// The resolved faculty letter of `s`, as a string slice.
fn faculty_letter_of<'a>(
    s: &Student,
    fcs: &'a Vec<FacultyCurriculum>,
    faculties: &'a Vec<Faculty>,
) -> (r: &'a str)
    ensures
        r@ == student_faculty_letter(*s, fcs@, faculties@),
{
    proof {
        reveal_strlit("");
        assert(""@ =~= Seq::<char>::empty());
    }
    match find_row(fcs, s.faculty_curriculum) {
        Some(fc) => match find_row(faculties, fc.faculty) {
            Some(f) => f.letter.as_str(),
            None => "",
        },
        None => "",
    }
}

/// The resolved curriculum letter of `s`, as a string slice.
fn curriculum_letter_of<'a>(
    s: &Student,
    fcs: &'a Vec<FacultyCurriculum>,
    curricula: &'a Vec<Curriculum>,
) -> (r: &'a str)
    ensures
        r@ == student_curriculum_letter(*s, fcs@, curricula@),
{
    proof {
        reveal_strlit("");
        assert(""@ =~= Seq::<char>::empty());
    }
    match find_row(fcs, s.faculty_curriculum) {
        Some(fc) => match find_row(curricula, fc.curriculum) {
            Some(c) => c.letter.as_str(),
            None => "",
        },
        None => "",
    }
}

/// The student roster: one row per student, in input order, each with
/// its computed group code.
#[verifier::loop_isolation(false)]
pub fn student_roster(
    students: &Vec<Student>,
    fcs: &Vec<FacultyCurriculum>,
    faculties: &Vec<Faculty>,
    curricula: &Vec<Curriculum>,
) -> (r: Vec<StudentWithGroup>)
    ensures
        r@.len() == students@.len(),
        forall|i: int|
            0 <= i < students@.len() ==> student_row_matches(
                students@[i],
                #[trigger] r@[i],
                fcs@,
                faculties@,
                curricula@,
            ),
{
    let mut out: Vec<StudentWithGroup> = Vec::new();
    let n = students.len();
    let mut i: usize = 0;
    while i < n
        invariant
            i <= n,
            out@.len() == i as int,
            forall|j: int|
                0 <= j < i as int ==> student_row_matches(
                    students@[j],
                    #[trigger] out@[j],
                    fcs@,
                    faculties@,
                    curricula@,
                ),
        decreases n - i,
    {
        let s = &students[i];
        let fl = faculty_letter_of(s, fcs, faculties);
        let cl = curriculum_letter_of(s, fcs, curricula);
        let code = compose_group_code(fl, cl, s.start_study_date.year, s.group);
        out.push(
            StudentWithGroup {
                id: s.id,
                name: s.name.clone(),
                lastname: s.lastname.clone(),
                surname: s.surname.clone(),
                age: s.age,
                group: code,
                start_study_date: s.start_study_date,
                status: s.status,
            },
        );
        i = i + 1;
    }
    out
}

/// The faculty name a teacher roster row carries; empty where the
/// faculty link is missing.
pub open spec fn teacher_faculty_name(t: Teacher, faculties: Seq<Faculty>) -> Seq<char> {
    if contains_key(faculties, t.faculty as int) {
        row_at_key(faculties, t.faculty as int).name@
    } else {
        Seq::empty()
    }
}

/// How one projected roster row relates to its teacher row.
pub open spec fn teacher_row_matches(t: Teacher, out: TeacherReadonly, faculties: Seq<Faculty>) -> bool {
    &&& out.id == t.id
    &&& out.name == t.name
    &&& out.lastname == t.lastname
    &&& out.surname == t.surname
    &&& out.age == t.age
    &&& out.faculty@ == teacher_faculty_name(t, faculties)
    &&& out.status == t.status
}

/// The teacher roster: one row per teacher, in input order, each with
/// its resolved faculty name.
#[verifier::loop_isolation(false)]
pub fn teacher_roster(teachers: &Vec<Teacher>, faculties: &Vec<Faculty>) -> (r: Vec<
    TeacherReadonly,
>)
    ensures
        r@.len() == teachers@.len(),
        forall|i: int|
            0 <= i < teachers@.len() ==> teacher_row_matches(
                teachers@[i],
                #[trigger] r@[i],
                faculties@,
            ),
{
    let mut out: Vec<TeacherReadonly> = Vec::new();
    let n = teachers.len();
    let mut i: usize = 0;
    while i < n
        invariant
            i <= n,
            out@.len() == i as int,
            forall|j: int|
                0 <= j < i as int ==> teacher_row_matches(
                    teachers@[j],
                    #[trigger] out@[j],
                    faculties@,
                ),
        decreases n - i,
    {
        let t = &teachers[i];
        let fname: String = match find_row(faculties, t.faculty) {
            Some(f) => f.name.clone(),
            None => String::new(),
        };
        out.push(
            TeacherReadonly {
                id: t.id,
                name: t.name.clone(),
                lastname: t.lastname.clone(),
                surname: t.surname.clone(),
                age: t.age,
                faculty: fname,
                status: t.status,
            },
        );
        i = i + 1;
    }
    out
}

} // verus!
