//! Byte-string utilities shared by the parsers: comparison, substring
//! search, and decimal numbers.

use vstd::prelude::*;

verus! {

broadcast use vstd::std_specs::vec::axiom_spec_len;

/// Compare two byte strings.
pub fn bytes_eq(a: &Vec<u8>, b: &Vec<u8>) -> (r: bool)
    ensures
        r == (a@ == b@),
{
    if a.len() != b.len() {
        return false;
    }
    let mut i: usize = 0;
    while i < a.len()
        invariant
            a@.len() == b@.len(),
            i <= a@.len(),
            forall|j: int| 0 <= j < i ==> a@[j] == b@[j],
        decreases a@.len() - i,
    {
        if a[i] != b[i] {
            return false;
        }
        i += 1;
    }
    proof {
        assert(a@ =~= b@);
    }
    true
}

/// Whether `pat` occurs in `d` at position `i`.
pub open spec fn matches_at(d: Seq<u8>, pat: Seq<u8>, i: int) -> bool {
    0 <= i && i + pat.len() <= d.len() && d.subrange(i, i + pat.len()) == pat
}

/// The first position at or after `i` where `pat` occurs in `d`.
pub open spec fn first_match_from(d: Seq<u8>, pat: Seq<u8>, i: int) -> Option<int>
    decreases d.len() - i,
        when 0 <= i && 1 <= pat.len()
{
    if i + pat.len() > d.len() {
        None
    } else if matches_at(d, pat, i) {
        Some(i)
    } else {
        first_match_from(d, pat, i + 1)
    }
}

/// Whether `pat` occurs in `d` at position `i` (executable).
fn check_match_at(d: &Vec<u8>, pat: &Vec<u8>, i: usize) -> (r: bool)
    requires
        i + pat@.len() <= d@.len(),
    ensures
        r == matches_at(d@, pat@, i as int),
{
    let n = d.len();
    let mut k: usize = 0;
    while k < pat.len()
        invariant
            n == d@.len(),
            i + pat@.len() <= d@.len(),
            k <= pat@.len(),
            forall|j: int| 0 <= j < k ==> d@[i + j] == pat@[j],
        decreases pat@.len() - k,
    {
        if d[i + k] != pat[k] {
            assert(d@.subrange(i as int, i + pat@.len()) != pat@) by {
                assert(d@.subrange(i as int, i + pat@.len())[k as int] != pat@[k as int]);
            }
            return false;
        }
        k += 1;
    }
    proof {
        assert(d@.subrange(i as int, i + pat@.len()) =~= pat@);
    }
    true
}

/// Find the first occurrence of `pat` in `d` at or after `start`.
pub fn find_from(d: &Vec<u8>, pat: &Vec<u8>, start: usize) -> (r: Option<usize>)
    requires
        start <= d@.len(),
        1 <= pat@.len(),
    ensures
        match r {
            Some(i) => first_match_from(d@, pat@, start as int) == Some(i as int) && start <= i
                && i + pat@.len() <= d@.len() && matches_at(d@, pat@, i as int),
            None => first_match_from(d@, pat@, start as int) is None,
        },
{
    let n = d.len();
    let m = pat.len();
    if m > n || start > n - m {
        return None;
    }
    let mut i: usize = start;
    while i <= n - m
        invariant
            n == d@.len(),
            m == pat@.len(),
            1 <= m <= n,
            start <= i <= n - m + 1,
            first_match_from(d@, pat@, start as int) == first_match_from(d@, pat@, i as int),
        decreases n - i,
    {
        if check_match_at(d, pat, i) {
            return Some(i);
        }
        i += 1;
    }
    None
}

/// Whether `pat` occurs in `d` at position `i`, handling any position.
pub fn match_at(d: &Vec<u8>, pat: &Vec<u8>, i: usize) -> (r: bool)
    ensures
        r == matches_at(d@, pat@, i as int),
{
    if i > d.len() || pat.len() > d.len() - i {
        return false;
    }
    check_match_at(d, pat, i)
}

/// Copy the byte range `[from, to)` out of `d`.
pub fn subvec(d: &Vec<u8>, from: usize, to: usize) -> (r: Vec<u8>)
    requires
        from <= to <= d@.len(),
    ensures
        r@ == d@.subrange(from as int, to as int),
{
    let mut r: Vec<u8> = Vec::new();
    let mut i: usize = from;
    while i < to
        invariant
            from <= i <= to <= d@.len(),
            r@ == d@.subrange(from as int, i as int),
        decreases to - i,
    {
        r.push(d[i]);
        assert(r@ =~= d@.subrange(from as int, i + 1 as int));
        i += 1;
    }
    r
}

/// Whether `b` is the code of a decimal digit.
pub open spec fn is_digit(b: u8) -> bool {
    48 <= b <= 57
}

/// The number a digit string denotes.
pub open spec fn dec_val(s: Seq<u8>) -> int
    decreases s.len(),
{
    if s.len() == 0 {
        0
    } else {
        dec_val(s.drop_last()) * 10 + (s.last() - 48)
    }
}

/// The decimal digit string of a number.
pub open spec fn dec_str(n: int) -> Seq<u8>
    decreases n,
{
    if n <= 0 {
        seq![48u8]
    } else if n < 10 {
        seq![(48 + n) as u8]
    } else {
        dec_str(n / 10).push((48 + n % 10) as u8)
    }
}

/// Parse a decimal number: one to ten digits whose value fits 32 bits.
pub fn parse_u32_dec(s: &Vec<u8>) -> (r: Option<u32>)
    ensures
        match r {
            Some(v) => 1 <= s@.len() <= 10 && (forall|j: int|
                0 <= j < s@.len() ==> is_digit(s@[j])) && dec_val(s@) <= 0xFFFFFFFF && v
                == dec_val(s@),
            None => !(1 <= s@.len() <= 10 && (forall|j: int|
                0 <= j < s@.len() ==> is_digit(s@[j])) && dec_val(s@) <= 0xFFFFFFFF),
        },
{
    if s.len() == 0 || s.len() > 10 {
        return None;
    }
    let mut acc: u64 = 0;
    let mut i: usize = 0;
    while i < s.len()
        invariant
            1 <= s@.len() <= 10,
            i <= s@.len(),
            forall|j: int| 0 <= j < i ==> is_digit(s@[j]),
            acc == dec_val(s@.subrange(0, i as int)),
            acc < 10000000000,
        decreases s@.len() - i,
    {
        let b = s[i];
        if b < 48 || b > 57 {
            return None;
        }
        proof {
            lemma_dec_val_bound(s@.subrange(0, i as int));
            assert(s@.subrange(0, i + 1 as int).drop_last() =~= s@.subrange(0, i as int));
        }
        acc = acc * 10 + ((b - 48) as u64);
        i += 1;
    }
    proof {
        assert(s@.subrange(0, s@.len() as int) =~= s@);
    }
    if acc > 0xFFFFFFFF {
        return None;
    }
    Some(acc as u32)
}

/// A digit string of at most nine digits denotes less than a billion.
proof fn lemma_dec_val_bound(s: Seq<u8>)
    requires
        forall|j: int| 0 <= j < s.len() ==> is_digit(s[j]),
        s.len() <= 9,
    ensures
        0 <= dec_val(s) < 1000000000,
{
    lemma_dec_val_bound9(s, 9);
    reveal_with_fuel(vstd::arithmetic::power::pow, 10);
    assert(vstd::arithmetic::power::pow(10, 9) == 1000000000);
}

/// Bound `dec_val` by the digit count.
proof fn lemma_dec_val_bound9(s: Seq<u8>, k: nat)
    requires
        forall|j: int| 0 <= j < s.len() ==> is_digit(s[j]),
        s.len() <= k,
        k <= 9,
    ensures
        0 <= dec_val(s) < vstd::arithmetic::power::pow(10, k),
    decreases s.len(),
{
    vstd::arithmetic::power::lemma_pow_positive(10, k);
    if s.len() == 0 {
    } else {
        lemma_dec_val_bound9(s.drop_last(), (k - 1) as nat);
        vstd::arithmetic::power::lemma_pow_adds(10, (k - 1) as nat, 1);
        vstd::arithmetic::power::lemma_pow1(10);
        assert(dec_val(s) == dec_val(s.drop_last()) * 10 + (s.last() - 48));
        assert(dec_val(s.drop_last()) * 10 + 9 < vstd::arithmetic::power::pow(10, (k - 1) as nat)
            * 10) by (nonlinear_arith)
            requires
                dec_val(s.drop_last()) < vstd::arithmetic::power::pow(10, (k - 1) as nat),
        ;
    }
}

/// Render a number as decimal digits.
pub fn u32_to_dec(n: u32) -> (r: Vec<u8>)
    ensures
        r@ == dec_str(n as int),
        r@.len() >= 1,
    decreases n,
{
    if n < 10 {
        let mut v: Vec<u8> = Vec::new();
        v.push((48 + n) as u8);
        assert(v@ =~= dec_str(n as int));
        v
    } else {
        let mut v = u32_to_dec(n / 10);
        v.push((48 + n % 10) as u8);
        assert(v@ =~= dec_str(n as int));
        v
    }
}

} // verus!
