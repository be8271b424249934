//! Small verified string utilities: equality, suffix tests, character search
//! and decimal rendering, all specified over `Seq<char>` views.

use vstd::prelude::*;

verus! {

/// True when `suf` is a suffix of `s`.
pub open spec fn ends_with(s: Seq<char>, suf: Seq<char>) -> bool {
    suf.len() <= s.len() && s.skip(s.len() - suf.len()) == suf
}

/// Character-by-character string equality.
pub fn str_eq(a: &str, b: &str) -> (r: bool)
    ensures
        r == (a@ == b@),
{
    let n = a.unicode_len();
    let m = b.unicode_len();
    if n != m {
        assert(a@ != b@) by {
            assert(a@.len() != b@.len());
        }
        return false;
    }
    let mut i: usize = 0;
    while i < n
        invariant
            n == a@.len(),
            n == b@.len(),
            i <= n,
            forall|j: int| 0 <= j < i ==> a@[j] == b@[j],
        decreases n - i,
    {
        if a.get_char(i) != b.get_char(i) {
            return false;
        }
        i += 1;
    }
    assert(a@ =~= b@);
    true
}

/// Suffix test, specified with `ends_with`.
pub fn str_ends_with(s: &str, suf: &str) -> (r: bool)
    ensures
        r == ends_with(s@, suf@),
{
    let n = s.unicode_len();
    let m = suf.unicode_len();
    if m > n {
        return false;
    }
    let mut i: usize = 0;
    while i < m
        invariant
            n == s@.len(),
            m == suf@.len(),
            m <= n,
            i <= m,
            forall|j: int| 0 <= j < i ==> s@[n - m + j] == suf@[j],
        decreases m - i,
    {
        if s.get_char(n - m + i) != suf.get_char(i) {
            assert(s@.skip(n - m)[i as int] != suf@[i as int]);
            return false;
        }
        i += 1;
    }
    assert(s@.skip(n - m) =~= suf@);
    true
}

/// True when `c` occurs in `s`.
pub fn str_contains_char(s: &str, c: char) -> (r: bool)
    ensures
        r == s@.contains(c),
{
    let n = s.unicode_len();
    let mut i: usize = 0;
    while i < n
        invariant
            n == s@.len(),
            i <= n,
            forall|j: int| 0 <= j < i ==> s@[j] != c,
        decreases n - i,
    {
        if s.get_char(i) == c {
            return true;
        }
        i += 1;
    }
    assert(forall|j: int| 0 <= j < s@.len() ==> s@[j] != c);
    false
}

/// The prefix of `s` that remains after removing a suffix of length `k`.
pub fn strip_suffix_len<'a>(s: &'a str, k: usize) -> (r: &'a str)
    requires
        k <= s@.len(),
    ensures
        r@ == s@.take(s@.len() - k),
{
    let n = s.unicode_len();
    let r = s.substring_char(0, n - k);
    assert(r@ =~= s@.take(s@.len() - k));
    r
}

/// Text parts joined with a separator.
pub open spec fn join_seqs(parts: Seq<Seq<char>>, sep: Seq<char>) -> Seq<char>
    decreases parts.len(),
{
    if parts.len() == 0 {
        Seq::empty()
    } else if parts.len() == 1 {
        parts[0]
    } else {
        join_seqs(parts.drop_last(), sep) + sep + parts.last()
    }
}

/// Joins a list of strings with the separator.
pub fn join_strings(list: &Vec<String>, sep: &str) -> (res: String)
    ensures
        res@ == join_seqs(list@.map_values(|v: String| v@), sep@),
{
    let ghost views = list@.map_values(|v: String| v@);
    let mut res = String::new();
    let mut i: usize = 0;
    while i < list.len()
        invariant
            i <= list.len(),
            views == list@.map_values(|v: String| v@),
            views.len() == list.len(),
            res@ == join_seqs(views.take(i as int), sep@),
        decreases list.len() - i,
    {
        if i != 0 {
            res.append(sep);
        }
        res.append(list[i].as_str());
        proof {
            assert(views.take(i + 1).drop_last() =~= views.take(i as int));
            assert(views.take(i + 1).last() == views[i as int]);
        }
        i += 1;
    }
    proof {
        assert(views.take(list.len() as int) =~= views);
    }
    res
}

/// The decimal digit character for `d`.
pub open spec fn digit_char(d: int) -> char {
    if d == 0 { '0' }
    else if d == 1 { '1' }
    else if d == 2 { '2' }
    else if d == 3 { '3' }
    else if d == 4 { '4' }
    else if d == 5 { '5' }
    else if d == 6 { '6' }
    else if d == 7 { '7' }
    else if d == 8 { '8' }
    else { '9' }
}

/// The decimal rendering of a non-negative integer.
pub open spec fn dec_digits(n: int) -> Seq<char>
    decreases n,
{
    if n < 10 {
        seq![digit_char(n)]
    } else {
        dec_digits(n / 10).push(digit_char(n % 10))
    }
}

fn digit_to_str(d: u64) -> (c: &'static str)
    requires
        d < 10,
    ensures
        c@ == seq![digit_char(d as int)],
{
    if d == 0 {
        let s = "0";
        proof { reveal_strlit("0"); }
        assert(s@ =~= seq!['0']);
        s
    } else if d == 1 {
        let s = "1";
        proof { reveal_strlit("1"); }
        assert(s@ =~= seq!['1']);
        s
    } else if d == 2 {
        let s = "2";
        proof { reveal_strlit("2"); }
        assert(s@ =~= seq!['2']);
        s
    } else if d == 3 {
        let s = "3";
        proof { reveal_strlit("3"); }
        assert(s@ =~= seq!['3']);
        s
    } else if d == 4 {
        let s = "4";
        proof { reveal_strlit("4"); }
        assert(s@ =~= seq!['4']);
        s
    } else if d == 5 {
        let s = "5";
        proof { reveal_strlit("5"); }
        assert(s@ =~= seq!['5']);
        s
    } else if d == 6 {
        let s = "6";
        proof { reveal_strlit("6"); }
        assert(s@ =~= seq!['6']);
        s
    } else if d == 7 {
        let s = "7";
        proof { reveal_strlit("7"); }
        assert(s@ =~= seq!['7']);
        s
    } else if d == 8 {
        let s = "8";
        proof { reveal_strlit("8"); }
        assert(s@ =~= seq!['8']);
        s
    } else {
        let s = "9";
        proof { reveal_strlit("9"); }
        assert(s@ =~= seq!['9']);
        s
    }
}

/// Renders `n` in decimal.
pub fn u64_to_dec(n: u64) -> (r: String)
    ensures
        r@ == dec_digits(n as int),
    decreases n,
{
    let d = digit_to_str(n % 10);
    let mut r: String;
    if n < 10 {
        r = String::new();
    } else {
        r = u64_to_dec(n / 10);
    }
    r.append(d);
    proof {
        if n < 10 {
            assert(r@ =~= seq![digit_char(n as int)]);
        } else {
            assert(r@ =~= dec_digits(n as int / 10).push(digit_char(n as int % 10)));
        }
    }
    r
}

/// The decimal rendering of a signed integer: a minus sign for negatives.
pub open spec fn dec_digits_signed(n: int) -> Seq<char> {
    if n < 0 {
        seq!['-'] + dec_digits(-n)
    } else {
        dec_digits(n)
    }
}

/// Renders `n` in decimal, with a leading minus sign when negative.
pub fn i64_to_dec(n: i64) -> (r: String)
    ensures
        r@ == dec_digits_signed(n as int),
{
    if n >= 0 {
        u64_to_dec(n as u64)
    } else {
        let mag: u64 = if n == i64::MIN {
            9223372036854775808u64
        } else {
            (-n) as u64
        };
        let sign = "-";
        proof { reveal_strlit("-"); }
        assert(sign@ =~= seq!['-']);
        let mut r = String::from_str(sign);
        let digits = u64_to_dec(mag);
        r.append(digits.as_str());
        assert(r@ =~= seq!['-'] + dec_digits(-(n as int)));
        r
    }
}

} // verus!

