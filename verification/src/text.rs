//! Text composition for the read views.
//!
//! A relational backend would compose these strings in its query
//! language; here they are built in verified code: decimal
//! rendering of integers, the two-digit year fragment, the composed
//! `"lastname name surname"` person name, and the student group code.

use vstd::prelude::*;
use vstd::string::StringExecFns;

verus! {

/// The decimal digit character for `d` in `0..10`.
pub open spec fn digit_char(d: int) -> char {
    if d == 0 {
        '0'
    } else if d == 1 {
        '1'
    } else if d == 2 {
        '2'
    } else if d == 3 {
        '3'
    } else if d == 4 {
        '4'
    } else if d == 5 {
        '5'
    } else if d == 6 {
        '6'
    } else if d == 7 {
        '7'
    } else if d == 8 {
        '8'
    } else {
        '9'
    }
}

/// Decimal digits of a non-negative number, most significant first,
/// without leading zeros (a lone zero for 0).
pub open spec fn dec_nat(n: nat) -> Seq<char>
    decreases n,
{
    if n < 10 {
        seq![digit_char(n as int)]
    } else {
        dec_nat(n / 10).push(digit_char((n % 10) as int))
    }
}

/// Decimal rendering of an integer, with a leading minus sign when
/// negative.
pub open spec fn dec_int(n: int) -> Seq<char> {
    if n >= 0 {
        dec_nat(n as nat)
    } else {
        seq!['-'] + dec_nat((-n) as nat)
    }
}

/// Exactly two digits for `n` in `0..100`, zero-padded.
pub open spec fn two_digits(n: int) -> Seq<char> {
    seq![digit_char(n / 10), digit_char(n % 10)]
}

/// The composed person name: `"lastname name surname"`.
pub open spec fn full_name(lastname: Seq<char>, name: Seq<char>, surname: Seq<char>) -> Seq<char> {
    lastname + seq![' '] + name + seq![' '] + surname
}

/// The student group code: faculty letter, curriculum letter, a dash,
/// the last two digits of the start-of-study year, a dash, the group
/// number.
pub open spec fn group_code(
    faculty_letter: Seq<char>,
    curriculum_letter: Seq<char>,
    year: int,
    group: int,
) -> Seq<char> {
    faculty_letter + curriculum_letter + seq!['-'] + two_digits(year % 100) + seq!['-'] + dec_int(
        group,
    )
}

/// Pieces joined by a comma and a space: the shape of an aggregated
/// author list.
pub open spec fn comma_join(pieces: Seq<Seq<char>>) -> Seq<char>
    decreases pieces.len(),
{
    if pieces.len() == 0 {
        Seq::empty()
    } else if pieces.len() == 1 {
        pieces[0]
    } else {
        comma_join(pieces.drop_last()) + seq![',', ' '] + pieces.last()
    }
}

/// Appends the digit character for `d`.
fn push_digit(out: &mut String, d: u8)
    requires
        d < 10,
    ensures
        final(out)@ == old(out)@ + seq![digit_char(d as int)],
{
    proof {
        reveal_strlit("0");
        reveal_strlit("1");
        reveal_strlit("2");
        reveal_strlit("3");
        reveal_strlit("4");
        reveal_strlit("5");
        reveal_strlit("6");
        reveal_strlit("7");
        reveal_strlit("8");
        reveal_strlit("9");
    }
    if d == 0 {
        out.append("0");
    } else if d == 1 {
        out.append("1");
    } else if d == 2 {
        out.append("2");
    } else if d == 3 {
        out.append("3");
    } else if d == 4 {
        out.append("4");
    } else if d == 5 {
        out.append("5");
    } else if d == 6 {
        out.append("6");
    } else if d == 7 {
        out.append("7");
    } else if d == 8 {
        out.append("8");
    } else {
        out.append("9");
    }
    proof {
        assert(final(out)@ =~= old(out)@ + seq![digit_char(d as int)]);
    }
}

/// Appends the decimal digits of `n`.
pub fn push_dec_u32(out: &mut String, n: u32)
    ensures
        final(out)@ == old(out)@ + dec_nat(n as nat),
    decreases n,
{
    if n >= 10 {
        push_dec_u32(out, n / 10);
    }
    push_digit(out, (n % 10) as u8);
    proof {
        assert(final(out)@ =~= old(out)@ + dec_nat(n as nat));
    }
}

/// Appends the decimal rendering of `n`, sign included.
pub fn push_dec_i16(out: &mut String, n: i16)
    ensures
        final(out)@ == old(out)@ + dec_int(n as int),
{
    if n < 0 {
        proof {
            reveal_strlit("-");
        }
        out.append("-");
        let m: u32 = (-(n as i32)) as u32;
        push_dec_u32(out, m);
        proof {
            assert(final(out)@ =~= old(out)@ + dec_int(n as int));
        }
    } else {
        push_dec_u32(out, n as u32);
    }
}

/// The last two digits of `year`, as the storage layer's year formatting
/// keeps them: the year reduced modulo 100, zero-padded to two digits.
pub fn push_year_two_digits(out: &mut String, year: i32)
    ensures
        final(out)@ == old(out)@ + two_digits((year as int) % 100),
{
    let m: u32 = ((((year as i64) % 100) + 100) % 100) as u32;
    proof {
        assert(m as int == (year as int) % 100);
        assert(m < 100);
    }
    push_digit(out, (m / 10) as u8);
    push_digit(out, (m % 10) as u8);
    proof {
        assert(final(out)@ =~= old(out)@ + two_digits((year as int) % 100));
    }
}

/// The composed person name, `"lastname name surname"`.
pub fn compose_name(lastname: &String, name: &String, surname: &String) -> (r: String)
    ensures
        r@ == full_name(lastname@, name@, surname@),
{
    proof {
        reveal_strlit(" ");
    }
    let mut out = lastname.clone();
    out.append(" ");
    out.append(name.as_str());
    out.append(" ");
    out.append(surname.as_str());
    proof {
        assert(out@ =~= full_name(lastname@, name@, surname@));
    }
    out
}

/// The student group code composed from the resolved letters, the
/// start-of-study year and the group number.
pub fn compose_group_code(
    faculty_letter: &str,
    curriculum_letter: &str,
    year: i32,
    group: i16,
) -> (r: String)
    ensures
        r@ == group_code(faculty_letter@, curriculum_letter@, year as int, group as int),
{
    proof {
        reveal_strlit("-");
    }
    let mut out = faculty_letter.to_owned();
    out.append(curriculum_letter);
    out.append("-");
    push_year_two_digits(&mut out, year);
    out.append("-");
    push_dec_i16(&mut out, group);
    proof {
        assert(out@ =~= group_code(
            faculty_letter@,
            curriculum_letter@,
            year as int,
            group as int,
        ));
    }
    out
}

} // verus!
