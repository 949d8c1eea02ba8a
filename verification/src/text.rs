//! Operations on strings, stated over their sequences of characters.

use vstd::prelude::*;
use vstd::string::*;

verus! {

/// `pat` stands in `s` at position `at`.
pub open spec fn occurs_at(s: Seq<char>, at: int, pat: Seq<char>) -> bool {
    &&& 0 <= at
    &&& at + pat.len() <= s.len()
    &&& s.subrange(at, at + pat.len()) == pat
}

/// Tells whether `pat` stands in `s` at character position `at`.
pub fn matches_at(s: &str, at: usize, pat: &str) -> (found: bool)
    ensures
        found == occurs_at(s@, at as int, pat@),
{
    let n = s.unicode_len();
    let m = pat.unicode_len();
    if at > n || m > n - at {
        return false;
    }
    let mut k: usize = 0;
    while k < m
        invariant
            n == s@.len(),
            m == pat@.len(),
            at + m <= n,
            k <= m,
            forall|j: int| 0 <= j < k ==> s@[at + j] == pat@[j],
        decreases m - k,
    {
        if s.get_char(at + k) != pat.get_char(k) {
            assert(s@.subrange(at as int, at + m)[k as int] != pat@[k as int]);
            return false;
        }
        k = k + 1;
    }
    assert(s@.subrange(at as int, at + m) =~= pat@);
    true
}

/// Tells whether two strings hold the same characters.
pub fn same_text(a: &str, b: &str) -> (same: bool)
    ensures
        same == (a@ == b@),
{
    let left = a.to_owned();
    let right = b.to_owned();
    left == right
}

/// The position of the first `c` in `s` at or after `from`, where there is one.
pub open spec fn first_index_from(s: Seq<char>, from: int, c: char) -> Option<int>
    decreases s.len() - from,
{
    if from < 0 || from >= s.len() {
        None
    } else if s[from] == c {
        Some(from)
    } else {
        first_index_from(s, from + 1, c)
    }
}

/// What `first_index_from` finds is the first `c` at or after `from`, and it
/// finds nothing only where there is none.
pub proof fn lemma_first_index_from(s: Seq<char>, from: int, c: char)
    requires
        0 <= from,
    ensures
        match first_index_from(s, from, c) {
            Some(i) => from <= i < s.len() && s[i] == c && forall|j: int|
                from <= j < i ==> s[j] != c,
            None => forall|j: int| from <= j < s.len() ==> s[j] != c,
        },
    decreases s.len() - from,
{
    if from < s.len() && s[from] != c {
        lemma_first_index_from(s, from + 1, c);
    }
}

/// Finds the first `c` in `s` at or after character position `from`.
pub fn find_char(s: &str, from: usize, c: char) -> (found: Option<usize>)
    ensures
        match found {
            Some(i) => first_index_from(s@, from as int, c) == Some(i as int),
            None => first_index_from(s@, from as int, c) is None,
        },
{
    let n = s.unicode_len();
    let mut i: usize = from;
    while i < n
        invariant
            n == s@.len(),
            from <= i,
            first_index_from(s@, from as int, c) == first_index_from(s@, i as int, c),
        decreases n - i,
    {
        if s.get_char(i) == c {
            return Some(i);
        }
        i = i + 1;
    }
    None
}

/// `s` with every occurrence of `pat` replaced by `to`, the occurrences taken
/// from the left and not overlapping. An empty `pat` occurs before every
/// character and at the end.
pub open spec fn replace_all(s: Seq<char>, pat: Seq<char>, to: Seq<char>) -> Seq<char>
    decreases s.len(),
{
    if pat.len() == 0 {
        if s.len() == 0 {
            to
        } else {
            to + seq![s[0]] + replace_all(s.skip(1), pat, to)
        }
    } else if occurs_at(s, 0, pat) {
        to + replace_all(s.skip(pat.len() as int), pat, to)
    } else if s.len() == 0 {
        s
    } else {
        seq![s[0]] + replace_all(s.skip(1), pat, to)
    }
}

/// Replaces every occurrence of `pat` in `s` by `to`.
pub fn replace(s: &str, pat: &str, to: &str) -> (out: String)
    ensures
        out@ == replace_all(s@, pat@, to@),
{
    let n = s.unicode_len();
    let m = pat.unicode_len();
    let mut out = String::new();
    let mut i: usize = 0;
    assert(out@ + replace_all(s@.skip(0), pat@, to@) =~= replace_all(s@, pat@, to@)) by {
        assert(s@.skip(0) =~= s@);
    }
    while i < n
        invariant
            n == s@.len(),
            m == pat@.len(),
            i <= n,
            out@ + replace_all(s@.skip(i as int), pat@, to@) == replace_all(s@, pat@, to@),
        decreases n - i,
    {
        let ghost rest = s@.skip(i as int);
        assert(rest.len() == n - i);
        assert(rest[0] == s@[i as int]);
        assert(rest.skip(1) =~= s@.skip(i + 1));
        let here = matches_at(s, i, pat);
        assert(here == occurs_at(rest, 0, pat@)) by {
            if i + m <= n {
                assert(rest.subrange(0, m as int) =~= s@.subrange(i as int, i + m));
            }
        }
        if m > 0 && here {
            assert(rest.skip(m as int) =~= s@.skip(i + m));
            out.append(to);
            i = i + m;
        } else {
            if m == 0 {
                out.append(to);
            }
            let one = s.substring_char(i, i + 1);
            assert(one@ =~= seq![s@[i as int]]);
            out.append(one);
            i = i + 1;
        }
        assert(out@ + replace_all(s@.skip(i as int), pat@, to@) =~= replace_all(s@, pat@, to@));
    }
    assert(s@.skip(n as int).len() == 0);
    if m == 0 {
        out.append(to);
    }
    assert(out@ =~= replace_all(s@, pat@, to@));
    out
}

/// The character of a decimal digit.
pub open spec fn digit_char(d: int) -> char {
    if d == 0 {
        '0'
    } else if d == 1 {
        '1'
    } else if d == 2 {
        '2'
    } else if d == 3 {
        '3'
    } else if d == 4 {
        '4'
    } else if d == 5 {
        '5'
    } else if d == 6 {
        '6'
    } else if d == 7 {
        '7'
    } else if d == 8 {
        '8'
    } else {
        '9'
    }
}

/// A number written in decimal, without leading zeros.
pub open spec fn decimal_text(n: nat) -> Seq<char>
    decreases n,
{
    if n < 10 {
        seq![digit_char(n as int)]
    } else {
        decimal_text(n / 10) + seq![digit_char((n % 10) as int)]
    }
}

fn digit_str(d: u64) -> (s: &'static str)
    requires
        d < 10,
    ensures
        s@ == seq![digit_char(d as int)],
{
    proof {
        reveal_strlit("0");
        reveal_strlit("1");
        reveal_strlit("2");
        reveal_strlit("3");
        reveal_strlit("4");
        reveal_strlit("5");
        reveal_strlit("6");
        reveal_strlit("7");
        reveal_strlit("8");
        reveal_strlit("9");
    }
    let s = if d == 0 {
        "0"
    } else if d == 1 {
        "1"
    } else if d == 2 {
        "2"
    } else if d == 3 {
        "3"
    } else if d == 4 {
        "4"
    } else if d == 5 {
        "5"
    } else if d == 6 {
        "6"
    } else if d == 7 {
        "7"
    } else if d == 8 {
        "8"
    } else {
        "9"
    };
    assert(s@ =~= seq![digit_char(d as int)]);
    s
}

/// Writes a number in decimal.
pub fn decimal(n: u64) -> (out: String)
    ensures
        out@ == decimal_text(n as nat),
    decreases n,
{
    if n < 10 {
        String::from_str(digit_str(n))
    } else {
        let mut out = decimal(n / 10);
        out.append(digit_str(n % 10));
        out
    }
}

} // verus!
