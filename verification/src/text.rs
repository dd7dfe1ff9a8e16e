//! Small verified text utilities shared by the filename and action logic:
//! decimal rendering of an integer, locating the last occurrence of a
//! character, and appending a character to a `String`.

use vstd::prelude::*;

verus! {

/// Relies on `String::push`: appends exactly one character.
#[verifier::external_body]
pub(crate) fn push_char(s: &mut String, c: char)
    ensures
        final (s)@ == old(s)@ + seq![c],
{
    s.push(c);
}

/// The decimal digit character for a value below ten.
pub open spec fn digit_char(d: int) -> char
    recommends
        0 <= d < 10,
{
    ((d + 48) as u8) as char
}

/// The decimal numeral of a non-negative integer, most significant digit
/// first.
pub open spec fn dec_nat(n: int) -> Seq<char>
    recommends
        n >= 0,
    decreases n,
{
    if n < 10 {
        seq![digit_char(n)]
    } else {
        dec_nat(n / 10) + seq![digit_char(n % 10)]
    }
}

/// The decimal numeral of an integer: a minus sign first when it is
/// negative.
pub open spec fn dec_rep(n: int) -> Seq<char> {
    if n < 0 {
        seq!['-'] + dec_nat(-n)
    } else {
        dec_nat(n)
    }
}

fn digit_to_char(d: u32) -> (c: char)
    requires
        d < 10,
    ensures
        c == digit_char(d as int),
{
    match d {
        0 => '0',
        1 => '1',
        2 => '2',
        3 => '3',
        4 => '4',
        5 => '5',
        6 => '6',
        7 => '7',
        8 => '8',
        _ => '9',
    }
}

fn push_dec(s: &mut String, v: u32)
    ensures
        final (s)@ == old(s)@ + dec_nat(v as int),
    decreases v,
{
    if v >= 10 {
        push_dec(s, v / 10);
        push_char(s, digit_to_char(v % 10));
    } else {
        push_char(s, digit_to_char(v));
    }
}

/// The decimal rendering of a signed integer.
pub fn i32_decimal(n: i32) -> (r: String)
    ensures
        r@ == dec_rep(n as int),
{
    let mut s = String::new();
    if n < 0 {
        push_char(&mut s, '-');
        let v: u32 = (-(n as i64)) as u32;
        push_dec(&mut s, v);
    } else {
        push_dec(&mut s, n as u32);
    }
    s
}

/// The largest index at which `c` occurs in `s`, or `-1` when it does not
/// occur.
pub open spec fn last_index_of(s: Seq<char>, c: char) -> int
    decreases s.len(),
{
    if s.len() == 0 {
        -1
    } else if s.last() == c {
        s.len() - 1
    } else {
        last_index_of(s.drop_last(), c)
    }
}

/// `last_index_of` finds an occurrence of `c` and nothing of `c` stands
/// after it; `-1` means `c` does not occur at all.
pub proof fn lemma_last_index_of(s: Seq<char>, c: char)
    ensures
        -1 <= last_index_of(s, c) < s.len(),
        last_index_of(s, c) == -1 ==> forall|j: int| 0 <= j < s.len() ==> s[j] != c,
        last_index_of(s, c) >= 0 ==> 0 <= last_index_of(s, c) < s.len() && s[last_index_of(s, c)]
            == c && forall|j: int| last_index_of(s, c) < j < s.len() ==> s[j] != c,
    decreases s.len(),
{
    if s.len() > 0 && s.last() != c {
        lemma_last_index_of(s.drop_last(), c);
        assert forall|j: int| 0 <= j < s.len() - 1 implies s[j] == s.drop_last()[j] by {}
    }
}

/// The index of the last occurrence of `c` in `s`, or `None` when `c` does
/// not occur.
pub fn rfind_char(s: &str, c: char) -> (r: Option<usize>)
    ensures
        match r {
            Some(i) => i == last_index_of(s@, c) && i < s@.len(),
            None => last_index_of(s@, c) == -1,
        },
{
    proof {
        lemma_last_index_of(s@, c);
    }
    let len = s.unicode_len();
    let mut i: usize = len;
    while i > 0
        invariant
            i <= len,
            len == s@.len(),
            forall|j: int| i <= j < s@.len() ==> s@[j] != c,
        decreases i,
    {
        i = i - 1;
        if s.get_char(i) == c {
            proof {
                lemma_last_index_of(s@, c);
                let lio = last_index_of(s@, c);
                assert(s@[i as int] == c);
                assert(lio != -1);
                assert(!(lio < i)) by {
                    if lio < i {
                        assert(s@[i as int] != c);
                    }
                }
                assert(!(lio > i)) by {
                    if lio > i {
                        assert(s@[lio] != c);
                    }
                }
            }
            return Some(i);
        }
    }
    proof {
        let lio = last_index_of(s@, c);
        if lio >= 0 {
            assert(s@[lio] != c);
        }
    }
    None
}

} // verus!
