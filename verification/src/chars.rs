//! Conversions between strings and character vectors, and ASCII lowering.
//! The library manipulates text as `Vec<char>` so that every step is plain
//! data; these helpers cross between that form and `String`.

use vstd::prelude::*;
use vstd::string::StrSliceExecFns;

verus! {

/// Relies on String::push: appends exactly the given character.
#[verifier::external_body]
fn push_char(s: &mut String, c: char)
    ensures
        final(s)@ == old(s)@.push(c),
{
    s.push(c);
}

/// The characters of `s`, in order.
pub fn str_chars(s: &str) -> (r: Vec<char>)
    ensures
        r@ == s@,
{
    let n = s.unicode_len();
    let mut r: Vec<char> = Vec::new();
    let mut i: usize = 0;
    while i < n
        invariant
            i <= n,
            n == s@.len(),
            r@ == s@.take(i as int),
        decreases n - i,
    {
        let c = s.get_char(i);
        r.push(c);
        assert(r@ =~= s@.take(i + 1));
        i += 1;
    }
    assert(r@ =~= s@);
    r
}

/// A string holding exactly the characters of `v`, in order.
pub fn string_from_chars(v: &Vec<char>) -> (s: String)
    ensures
        s@ == v@,
{
    let mut s = String::new();
    let mut i: usize = 0;
    while i < v.len()
        invariant
            i <= v@.len(),
            s@ == v@.take(i as int),
        decreases v@.len() - i,
    {
        push_char(&mut s, v[i]);
        assert(s@ =~= v@.take(i + 1));
        i += 1;
    }
    assert(s@ =~= v@);
    s
}

/// ASCII lowering of one character: uppercase ASCII letters map to their
/// lowercase form, everything else is untouched.
pub open spec fn lower_char(c: char) -> char {
    if 65 <= c as u32 && c as u32 <= 90 {
        ((c as u32 + 32) as u32) as char
    } else {
        c
    }
}

/// ASCII lowering of a character sequence.
pub open spec fn lower(s: Seq<char>) -> Seq<char> {
    s.map_values(|c: char| lower_char(c))
}

/// ASCII lowering of one character, executably.
pub fn to_lower_char(c: char) -> (r: char)
    ensures
        r == lower_char(c),
{
    let u = c as u32;
    if 65 <= u && u <= 90 {
        match c {
            'A' => 'a',
            'B' => 'b',
            'C' => 'c',
            'D' => 'd',
            'E' => 'e',
            'F' => 'f',
            'G' => 'g',
            'H' => 'h',
            'I' => 'i',
            'J' => 'j',
            'K' => 'k',
            'L' => 'l',
            'M' => 'm',
            'N' => 'n',
            'O' => 'o',
            'P' => 'p',
            'Q' => 'q',
            'R' => 'r',
            'S' => 's',
            'T' => 't',
            'U' => 'u',
            'V' => 'v',
            'W' => 'w',
            'X' => 'x',
            'Y' => 'y',
            'Z' => 'z',
            _ => {
                proof {
                    assert(false);
                }
                c
            },
        }
    } else {
        c
    }
}

/// Whether lowering `input` gives exactly the characters of `cmd`.
pub fn matches_lower(input: &Vec<char>, cmd: &str) -> (r: bool)
    ensures
        r == (lower(input@) == cmd@),
{
    let n = cmd.unicode_len();
    if input.len() != n {
        proof {
            assert(lower(input@).len() == input@.len());
        }
        return false;
    }
    let mut i: usize = 0;
    while i < n
        invariant
            i <= n,
            n == cmd@.len(),
            n == input@.len(),
            forall|j: int| 0 <= j < i ==> lower_char(input@[j]) == cmd@[j],
        decreases n - i,
    {
        let lc = to_lower_char(input[i]);
        if lc != cmd.get_char(i) {
            proof {
                assert(lower(input@)[i as int] == lower_char(input@[i as int]));
            }
            return false;
        }
        i += 1;
    }
    proof {
        assert(lower(input@) =~= cmd@);
    }
    true
}

/// Copy a character vector.
pub fn vec_copy(v: &Vec<char>) -> (r: Vec<char>)
    ensures
        r@ == v@,
{
    let mut r: Vec<char> = Vec::new();
    let mut i: usize = 0;
    while i < v.len()
        invariant
            i <= v@.len(),
            r@ == v@.take(i as int),
        decreases v@.len() - i,
    {
        r.push(v[i]);
        assert(r@ =~= v@.take(i + 1));
        i += 1;
    }
    assert(r@ =~= v@);
    r
}

/// Append the characters of `src` to `dst`.
pub fn extend_chars(dst: &mut Vec<char>, src: &Vec<char>)
    ensures
        final(dst)@ == old(dst)@ + src@,
{
    let mut i: usize = 0;
    while i < src.len()
        invariant
            i <= src@.len(),
            dst@ == old(dst)@ + src@.take(i as int),
        decreases src@.len() - i,
    {
        dst.push(src[i]);
        assert(dst@ =~= old(dst)@ + src@.take(i + 1));
        i += 1;
    }
    assert(dst@ =~= old(dst)@ + src@);
}

/// Whether `c` is a decimal digit.
pub open spec fn is_digit(c: char) -> bool {
    48 <= c as u32 <= 57
}

/// The value of a digit character (zero on anything else).
pub open spec fn digit_of(c: char) -> nat {
    if is_digit(c) {
        (c as u32 - 48) as nat
    } else {
        0
    }
}

/// The digit character of a value below ten.
pub open spec fn digit_char(d: nat) -> char {
    ((d + 48) as u32) as char
}

/// The digit character of `d`, executably.
pub fn digit_char_exec(d: usize) -> (r: char)
    requires
        d < 10,
    ensures
        r == digit_char(d as nat),
{
    match d {
        0 => '0',
        1 => '1',
        2 => '2',
        3 => '3',
        4 => '4',
        5 => '5',
        6 => '6',
        7 => '7',
        8 => '8',
        9 => '9',
        _ => {
            proof {
                assert(false);
            }
            '0'
        },
    }
}

/// `n` in decimal, no padding, high digit first.
pub open spec fn dec_str(n: nat) -> Seq<char>
    decreases n,
{
    if n < 10 {
        seq![digit_char(n)]
    } else {
        dec_str(n / 10).push(digit_char(n % 10))
    }
}

/// Append `n` in decimal to `out`.
pub fn push_dec(out: &mut Vec<char>, n: usize)
    ensures
        final(out)@ == old(out)@ + dec_str(n as nat),
    decreases n,
{
    if n < 10 {
        out.push(digit_char_exec(n));
        assert(out@ =~= old(out)@ + dec_str(n as nat));
    } else {
        push_dec(out, n / 10);
        out.push(digit_char_exec(n % 10));
        assert(out@ =~= old(out)@ + dec_str(n as nat));
    }
}

/// A decimal rendering never exceeds `k` digits for values below ten to
/// the `k`.
pub proof fn lemma_dec_str_len(n: nat, k: nat)
    requires
        n < crate::codec::pow10(k),
        k >= 1,
    ensures
        dec_str(n).len() <= k,
    decreases k,
{
    if n < 10 {
    } else {
        assert(crate::codec::pow10(1) == 10 * crate::codec::pow10(0));
        assert(crate::codec::pow10(0) == 1);
        if k == 1 {
            assert(false);
        }
        assert(n / 10 < crate::codec::pow10((k - 1) as nat)) by (nonlinear_arith)
            requires
                n < 10 * crate::codec::pow10((k - 1) as nat),
        ;
        lemma_dec_str_len(n / 10, (k - 1) as nat);
    }
}

/// Any `usize` value's decimal rendering fits in twenty digits.
pub proof fn lemma_dec_str_len_usize(n: nat)
    requires
        n <= usize::MAX,
    ensures
        dec_str(n).len() <= 20,
{
    crate::codec::lemma_usize_fits();
    lemma_dec_str_len(n, 20);
}

} // verus!
