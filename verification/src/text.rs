//! Small verified helpers on characters and strings: decimal rendering of
//! unsigned integers and ASCII-case-insensitive matching.

use vstd::prelude::*;

verus! {

/// The decimal digit character for `d`, where `d < 10`.
pub open spec fn digit_char(d: nat) -> char {
    if d == 0 {
        '0'
    } else if d == 1 {
        '1'
    } else if d == 2 {
        '2'
    } else if d == 3 {
        '3'
    } else if d == 4 {
        '4'
    } else if d == 5 {
        '5'
    } else if d == 6 {
        '6'
    } else if d == 7 {
        '7'
    } else if d == 8 {
        '8'
    } else {
        '9'
    }
}

/// The decimal representation of `n`, most significant digit first,
/// with no leading zeros (a single `'0'` for zero).
pub open spec fn dec_str(n: nat) -> Seq<char>
    decreases n,
{
    if n < 10 {
        seq![digit_char(n)]
    } else {
        dec_str(n / 10).push(digit_char(n % 10))
    }
}

fn digit_str(d: u8) -> (s: &'static str)
    requires
        d < 10,
    ensures
        s@ == seq![digit_char(d as nat)],
{
    proof {
        reveal_strlit("0");
        reveal_strlit("1");
        reveal_strlit("2");
        reveal_strlit("3");
        reveal_strlit("4");
        reveal_strlit("5");
        reveal_strlit("6");
        reveal_strlit("7");
        reveal_strlit("8");
        reveal_strlit("9");
    }
    let s = if d == 0 {
        "0"
    } else if d == 1 {
        "1"
    } else if d == 2 {
        "2"
    } else if d == 3 {
        "3"
    } else if d == 4 {
        "4"
    } else if d == 5 {
        "5"
    } else if d == 6 {
        "6"
    } else if d == 7 {
        "7"
    } else if d == 8 {
        "8"
    } else {
        "9"
    };
    proof {
        assert(s@ =~= seq![digit_char(d as nat)]);
    }
    s
}

/// Renders `n` in decimal.
pub fn u128_to_string(n: u128) -> (s: String)
    ensures
        s@ == dec_str(n as nat),
    decreases n,
{
    if n < 10 {
        let s = digit_str(n as u8).to_owned();
        proof {
            assert(s@ =~= dec_str(n as nat));
        }
        s
    } else {
        let mut s = u128_to_string(n / 10);
        s.append(digit_str((n % 10) as u8));
        proof {
            assert(s@ =~= dec_str(n as nat));
        }
        s
    }
}

/// Renders `n` in decimal.
pub fn usize_to_string(n: usize) -> (s: String)
    ensures
        s@ == dec_str(n as nat),
{
    u128_to_string(n as u128)
}

/// Case-insensitive match of one character `a` against a character `b` of a
/// lowercase-ASCII pattern: equal outright, or `a` is the ASCII uppercase of `b`.
pub open spec fn ci_eq(a: char, b: char) -> bool {
    a == b || ('a' <= b && b <= 'z' && a as int == b as int - 32)
}

fn ci_eq_exec(a: char, b: char) -> (r: bool)
    ensures
        r == ci_eq(a, b),
{
    a == b || ('a' <= b && b <= 'z' && (a as u32) == (b as u32) - 32)
}

/// `kw` occurs in `t` at position `k`, compared case-insensitively
/// (`kw` is a lowercase-ASCII pattern).
pub open spec fn ci_matches_at(t: Seq<char>, k: int, kw: Seq<char>) -> bool {
    &&& 0 <= k
    &&& k + kw.len() <= t.len()
    &&& forall|j: int| 0 <= j < kw.len() ==> ci_eq(t[k + j], kw[j])
}

/// Checks a case-insensitive occurrence of the pattern `kw` at position `k` of `t`.
pub fn ci_match_at(t: &Vec<char>, k: usize, kw: &str) -> (r: bool)
    ensures
        r == ci_matches_at(t@, k as int, kw@),
{
    let n = kw.unicode_len();
    if k > t.len() || n > t.len() - k {
        return false;
    }
    let mut j: usize = 0;
    while j < n
        invariant
            0 <= j <= n,
            n == kw@.len(),
            k + n <= t@.len(),
            t@.len() == t.len(),
            forall|i: int| 0 <= i < j ==> ci_eq(t@[k + i], kw@[i]),
        decreases n - j,
    {
        assert(k + j < t.len());
        if !ci_eq_exec(t[k + j], kw.get_char(j)) {
            return false;
        }
        j += 1;
    }
    true
}

/// `t` equals the lowercase-ASCII pattern `kw`, compared case-insensitively.
pub open spec fn ci_equal(t: Seq<char>, kw: Seq<char>) -> bool {
    t.len() == kw.len() && ci_matches_at(t, 0, kw)
}

/// Checks that `t` equals the pattern `kw`, compared case-insensitively.
pub fn ci_equal_str(t: &Vec<char>, kw: &str) -> (r: bool)
    ensures
        r == ci_equal(t@, kw@),
{
    t.len() == kw.unicode_len() && ci_match_at(t, 0, kw)
}

/// Collects the characters of `s` into a vector.
pub fn str_chars(s: &str) -> (v: Vec<char>)
    ensures
        v@ == s@,
{
    let n = s.unicode_len();
    let mut v: Vec<char> = Vec::new();
    let mut i: usize = 0;
    while i < n
        invariant
            0 <= i <= n,
            n == s@.len(),
            v@ == s@.subrange(0, i as int),
        decreases n - i,
    {
        v.push(s.get_char(i));
        proof {
            assert(v@ =~= s@.subrange(0, i + 1 as int));
        }
        i += 1;
    }
    proof {
        assert(v@ =~= s@);
    }
    v
}

/// A string of `n` repetitions of `c`.
pub open spec fn repeat_char(c: char, n: nat) -> Seq<char> {
    Seq::new(n, |i: int| c)
}

/// Builds a string of `n` repetitions of `'x'`, the mask placed over passwords.
pub fn x_mask(n: usize) -> (s: String)
    ensures
        s@ == repeat_char('x', n as nat),
{
    let mut s = String::new();
    let mut i: usize = 0;
    while i < n
        invariant
            0 <= i <= n,
            s@ == repeat_char('x', i as nat),
        decreases n - i,
    {
        s.append("x");
        proof {
            reveal_strlit("x");
            assert(s@ =~= repeat_char('x', (i + 1) as nat));
        }
        i += 1;
    }
    s
}

} // verus!
