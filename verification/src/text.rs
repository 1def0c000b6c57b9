//! Character-level helpers shared by the version parser and formatter:
//! canonical decimal representations of `u64` values, first-occurrence
//! search, and lexicographic ordering of character sequences.

use vstd::prelude::*;

verus! {

/// Whether `c` is an ASCII decimal digit.
pub open spec fn is_digit(c: char) -> bool {
    48 <= c as int && c as int <= 57
}

/// The numeric value of an ASCII decimal digit.
pub open spec fn digit_val(c: char) -> int {
    c as int - 48
}

/// The digit character for a value in `0..=9`.
pub open spec fn digit_char(d: int) -> char {
    if d == 0 {
        '0'
    } else if d == 1 {
        '1'
    } else if d == 2 {
        '2'
    } else if d == 3 {
        '3'
    } else if d == 4 {
        '4'
    } else if d == 5 {
        '5'
    } else if d == 6 {
        '6'
    } else if d == 7 {
        '7'
    } else if d == 8 {
        '8'
    } else {
        '9'
    }
}

proof fn lemma_digit_char_val(d: int)
    requires
        0 <= d <= 9,
    ensures
        is_digit(digit_char(d)),
        digit_val(digit_char(d)) == d,
{
}

/// The canonical decimal representation of a natural number: no sign,
/// no leading zeros (except for the single digit `0` itself).
pub open spec fn dec_rep(n: nat) -> Seq<char>
    decreases n,
{
    if n < 10 {
        seq![digit_char(n as int)]
    } else {
        dec_rep(n / 10).push(digit_char((n % 10) as int))
    }
}

/// The value of a digit string, most significant digit first.
pub open spec fn digits_val(s: Seq<char>) -> int
    decreases s.len(),
{
    if s.len() == 0 {
        0
    } else {
        digits_val(s.drop_last()) * 10 + digit_val(s.last())
    }
}

/// Whether every character of `s` is a decimal digit.
pub open spec fn all_digits(s: Seq<char>) -> bool {
    forall|i: int| 0 <= i < s.len() ==> is_digit(s[i])
}

/// What a digit string denotes as a `u64`, when it is non-empty, all
/// digits, and in range.
pub open spec fn parse_u64_spec(s: Seq<char>) -> Option<u64> {
    if s.len() > 0 && all_digits(s) && digits_val(s) <= u64::MAX {
        Some(digits_val(s) as u64)
    } else {
        None
    }
}

pub proof fn lemma_digits_val_nonneg(s: Seq<char>)
    requires
        all_digits(s),
    ensures
        digits_val(s) >= 0,
    decreases s.len(),
{
    if s.len() > 0 {
        assert(all_digits(s.drop_last())) by {
            assert(forall|i: int|
                0 <= i < s.drop_last().len() ==> s.drop_last()[i] == s[i]);
        }
        lemma_digits_val_nonneg(s.drop_last());
    }
}

/// The canonical representation is all digits and non-empty.
pub proof fn lemma_dec_rep_digits(n: nat)
    ensures
        dec_rep(n).len() > 0,
        all_digits(dec_rep(n)),
    decreases n,
{
    if n < 10 {
        lemma_digit_char_val(n as int);
    } else {
        lemma_dec_rep_digits(n / 10);
        lemma_digit_char_val((n % 10) as int);
        assert(dec_rep(n) == dec_rep(n / 10).push(digit_char((n % 10) as int)));
        assert forall|i: int| 0 <= i < dec_rep(n).len() implies is_digit(dec_rep(n)[i]) by {
            if i < dec_rep(n / 10).len() {
                assert(dec_rep(n)[i] == dec_rep(n / 10)[i]);
            }
        }
    }
}

/// Parsing inverts formatting: the value of `dec_rep(n)` is `n`.
pub proof fn lemma_dec_rep_val(n: nat)
    ensures
        digits_val(dec_rep(n)) == n,
    decreases n,
{
    if n < 10 {
        lemma_digit_char_val(n as int);
        let s = dec_rep(n);
        assert(s == seq![digit_char(n as int)]);
        assert(s.last() == digit_char(n as int));
        assert(s.drop_last() =~= Seq::<char>::empty());
        assert(digits_val(s) == digits_val(s.drop_last()) * 10 + digit_val(s.last()));
        assert(digits_val(s.drop_last()) == 0);
    } else {
        lemma_dec_rep_val(n / 10);
        lemma_digit_char_val((n % 10) as int);
        let s = dec_rep(n / 10).push(digit_char((n % 10) as int));
        assert(s.drop_last() =~= dec_rep(n / 10));
        assert(dec_rep(n) == s);
        assert(s.last() == digit_char((n % 10) as int));
        assert(digits_val(s) == digits_val(s.drop_last()) * 10 + digit_val(s.last()));
        assert(digits_val(s.drop_last()) == n / 10);
        assert(digits_val(s) == (n / 10) * 10 + (n % 10));
        vstd::arithmetic::div_mod::lemma_fundamental_div_mod(n as int, 10);
        assert(n == 10 * ((n as int) / 10) + (n as int) % 10);
    }
}

/// `dec_rep(n)` parses back to `n`.
pub proof fn lemma_dec_rep_round_trip(n: u64)
    ensures
        parse_u64_spec(dec_rep(n as nat)) == Some(n),
{
    lemma_dec_rep_digits(n as nat);
    lemma_dec_rep_val(n as nat);
}

/// The index of the first occurrence of `c` in `s`, if any.
pub open spec fn find_spec(s: Seq<char>, c: char) -> Option<int>
    decreases s.len(),
{
    if s.len() == 0 {
        None
    } else if s[0] == c {
        Some(0)
    } else {
        match find_spec(s.drop_first(), c) {
            Some(i) => Some(i + 1),
            None => None,
        }
    }
}

/// `find_spec` returns the first occurrence, or `None` when there is none.
pub proof fn lemma_find_spec(s: Seq<char>, c: char)
    ensures
        match find_spec(s, c) {
            Some(i) => 0 <= i < s.len() && s[i] == c && forall|j: int|
                0 <= j < i ==> s[j] != c,
            None => forall|j: int| 0 <= j < s.len() ==> s[j] != c,
        },
    decreases s.len(),
{
    if s.len() > 0 && s[0] != c {
        let t = s.drop_first();
        lemma_find_spec(t, c);
        match find_spec(t, c) {
            Some(i) => {
                assert(s[i + 1] == t[i]);
                assert forall|j: int| 0 <= j < i + 1 implies s[j] != c by {
                    if j > 0 {
                        assert(t[j - 1] == s[j]);
                    }
                }
            },
            None => {
                assert forall|j: int| 0 <= j < s.len() implies s[j] != c by {
                    if j > 0 {
                        assert(t[j - 1] == s[j]);
                    }
                }
            },
        }
    }
}

/// A first occurrence pins `find_spec` down.
pub proof fn lemma_find_spec_of_first(s: Seq<char>, c: char, i: int)
    requires
        0 <= i < s.len(),
        s[i] == c,
        forall|j: int| 0 <= j < i ==> s[j] != c,
    ensures
        find_spec(s, c) == Some(i),
    decreases s.len(),
{
    if s[0] != c {
        lemma_find_spec_of_first(s.drop_first(), c, i - 1);
    }
}

/// When `c` does not occur, `find_spec` is `None`.
pub proof fn lemma_find_spec_none(s: Seq<char>, c: char)
    requires
        forall|j: int| 0 <= j < s.len() ==> s[j] != c,
    ensures
        find_spec(s, c) is None,
{
    lemma_find_spec(s, c);
    if find_spec(s, c) is Some {
        let i = find_spec(s, c)->0;
        assert(s[i] == c);
    }
}

/// Strict lexicographic order on character sequences, by Unicode scalar
/// value, with a proper prefix ordered before its extensions. This is the
/// order `str` comparison uses.
pub open spec fn lex_lt(a: Seq<char>, b: Seq<char>) -> bool
    decreases a.len(),
{
    if b.len() == 0 {
        false
    } else if a.len() == 0 {
        true
    } else if (a[0] as int) < (b[0] as int) {
        true
    } else if a[0] == b[0] {
        lex_lt(a.drop_first(), b.drop_first())
    } else {
        false
    }
}

/// The characters of `s`, as a vector. Relies on `str::chars` visiting
/// exactly the characters of the string, in order.
#[verifier::external_body]
pub(crate) fn chars_vec_of(s: &str) -> (r: Vec<char>)
    ensures
        r@ == s@,
{
    s.chars().collect()
}

/// The characters of a string, as a vector. Relies on `str::chars`
/// visiting exactly the characters of the string, in order.
pub fn chars_of(s: &String) -> (r: Vec<char>)
    ensures
        r@ == s@,
{
    chars_vec_of(s.as_str())
}

/// Whether two string slices hold the same characters. Relies on
/// `str`'s `PartialEq` comparing contents.
#[verifier::external_body]
pub fn str_eq(a: &str, b: &str) -> (r: bool)
    ensures
        r == (a@ == b@),
{
    a == b
}

/// The string holding exactly the characters of `v`. Relies on the
/// `FromIterator` implementation of `String` over characters.
#[verifier::external_body]
pub fn string_from_chars(v: &Vec<char>) -> (r: String)
    ensures
        r@ == v@,
{
    v.iter().collect()
}

/// The digit character for `d`.
pub fn digit_to_char(d: u64) -> (r: char)
    requires
        d < 10,
    ensures
        r == digit_char(d as int),
{
    if d == 0 {
        '0'
    } else if d == 1 {
        '1'
    } else if d == 2 {
        '2'
    } else if d == 3 {
        '3'
    } else if d == 4 {
        '4'
    } else if d == 5 {
        '5'
    } else if d == 6 {
        '6'
    } else if d == 7 {
        '7'
    } else if d == 8 {
        '8'
    } else {
        '9'
    }
}

/// The canonical decimal digits of `n`.
pub fn format_u64(n: u64) -> (r: Vec<char>)
    ensures
        r@ == dec_rep(n as nat),
    decreases n,
{
    if n < 10 {
        let mut v: Vec<char> = Vec::new();
        v.push(digit_to_char(n));
        proof {
            assert(v@ =~= dec_rep(n as nat));
        }
        v
    } else {
        let mut v: Vec<char> = format_u64(n / 10);
        v.push(digit_to_char(n % 10));
        proof {
            assert(v@ =~= dec_rep(n as nat));
        }
        v
    }
}

/// Extending a digit string cannot shrink its value.
proof fn lemma_digits_val_extend(s: Seq<char>, t: Seq<char>)
    requires
        all_digits(s),
        all_digits(t),
        s.len() <= t.len(),
        t.subrange(0, s.len() as int) == s,
    ensures
        digits_val(t) >= digits_val(s),
    decreases t.len() - s.len(),
{
    if s.len() < t.len() {
        let t0 = t.drop_last();
        assert(all_digits(t0)) by {
            assert(forall|i: int| 0 <= i < t0.len() ==> t0[i] == t[i]);
        }
        assert(t0.subrange(0, s.len() as int) =~= s);
        lemma_digits_val_extend(s, t0);
        lemma_digits_val_nonneg(t0);
        assert(digit_val(t.last()) >= 0);
    } else {
        assert(t =~= s);
    }
}

/// The value of the digits of `v` in `[start, end)`, when they form a
/// number in range; `None` on a non-digit, an empty range, or overflow.
pub fn parse_u64_range(v: &Vec<char>, start: usize, end: usize) -> (r: Option<u64>)
    requires
        start <= end <= v@.len(),
    ensures
        r == parse_u64_spec(v@.subrange(start as int, end as int)),
{
    let ghost whole = v@.subrange(start as int, end as int);
    if start == end {
        return None;
    }
    let mut acc: u64 = 0;
    let mut i: usize = start;
    while i < end
        invariant
            start <= i <= end <= v@.len(),
            all_digits(v@.subrange(start as int, i as int)),
            acc as int == digits_val(v@.subrange(start as int, i as int)),
            whole == v@.subrange(start as int, end as int),
        decreases end - i,
    {
        let c = v[i];
        if c < '0' || c > '9' {
            proof {
                assert(whole[i - start] == v@[i as int]);
                assert(!all_digits(whole));
            }
            return None;
        }
        let d: u64 = (c as u32 - 48) as u64;
        let ghost prefix = v@.subrange(start as int, i as int);
        let ghost next = v@.subrange(start as int, i + 1 as int);
        proof {
            assert(next.drop_last() =~= prefix);
            assert(next.last() == v@[i as int]);
            assert(all_digits(next));
        }
        if acc > (u64::MAX - d) / 10 {
            proof {
                lemma_digits_val_nonneg(prefix);
                assert(digits_val(next) == acc * 10 + d);
                assert(digits_val(next) > u64::MAX) by (nonlinear_arith)
                    requires
                        digits_val(next) == acc as int * 10 + d,
                        acc as int > (u64::MAX - d) as int / 10,
                        0 <= d < 10,
                        acc as int >= 0,
                ;
                assert(all_digits(whole) ==> digits_val(whole) > u64::MAX) by {
                    if all_digits(whole) {
                        assert(whole.subrange(0, next.len() as int) =~= next);
                        lemma_digits_val_extend(next, whole);
                    }
                }
            }
            return None;
        }
        acc = acc * 10 + d;
        i = i + 1;
    }
    proof {
        assert(v@.subrange(start as int, i as int) =~= whole);
    }
    Some(acc)
}

/// The offset of the first occurrence of `c` within `v[start..end]`, if
/// any.
pub fn find_in(v: &Vec<char>, start: usize, end: usize, c: char) -> (r: Option<usize>)
    requires
        start <= end <= v@.len(),
    ensures
        match r {
            Some(i) => start + i < end && find_spec(
                v@.subrange(start as int, end as int),
                c,
            ) == Some(i as int),
            None => find_spec(v@.subrange(start as int, end as int), c) is None,
        },
{
    let ghost tail = v@.subrange(start as int, end as int);
    let mut i: usize = start;
    while i < end
        invariant
            start <= i <= end <= v@.len(),
            tail == v@.subrange(start as int, end as int),
            forall|j: int| 0 <= j < i - start ==> tail[j] != c,
        decreases end - i,
    {
        if v[i] == c {
            proof {
                assert(tail[i - start] == v@[i as int]);
                lemma_find_spec_of_first(tail, c, i - start);
            }
            return Some(i - start);
        }
        proof {
            assert(tail[i - start] == v@[i as int]);
        }
        i = i + 1;
    }
    proof {
        lemma_find_spec_none(tail, c);
    }
    None
}

/// The characters of `v` in `[start, end)`, as a fresh vector.
pub fn subrange_chars(v: &Vec<char>, start: usize, end: usize) -> (r: Vec<char>)
    requires
        start <= end <= v@.len(),
    ensures
        r@ == v@.subrange(start as int, end as int),
{
    let mut r: Vec<char> = Vec::new();
    let mut i: usize = start;
    while i < end
        invariant
            start <= i <= end <= v@.len(),
            r@ == v@.subrange(start as int, i as int),
        decreases end - i,
    {
        r.push(v[i]);
        proof {
            assert(r@ =~= v@.subrange(start as int, i + 1 as int));
        }
        i = i + 1;
    }
    r
}

/// Whether `a` comes strictly before `b` in lexicographic order.
pub fn lex_lt_chars(a: &Vec<char>, b: &Vec<char>) -> (r: bool)
    ensures
        r == lex_lt(a@, b@),
{
    let mut i: usize = 0;
    proof {
        assert(a@.skip(0) =~= a@);
        assert(b@.skip(0) =~= b@);
    }
    loop
        invariant
            i <= a@.len(),
            i <= b@.len(),
            lex_lt(a@, b@) == lex_lt(a@.skip(i as int), b@.skip(i as int)),
        decreases a@.len() - i,
    {
        let ghost sa = a@.skip(i as int);
        let ghost sb = b@.skip(i as int);
        if i >= b.len() {
            proof {
                assert(sb.len() == 0);
            }
            return false;
        }
        if i >= a.len() {
            proof {
                assert(sa.len() == 0);
                assert(sb.len() > 0);
            }
            return true;
        }
        let ca = a[i];
        let cb = b[i];
        proof {
            assert(sa[0] == a@[i as int]);
            assert(sb[0] == b@[i as int]);
        }
        if ca < cb {
            return true;
        }
        if ca != cb {
            return false;
        }
        proof {
            assert(sa.drop_first() =~= a@.skip(i + 1));
            assert(sb.drop_first() =~= b@.skip(i + 1));
        }
        i = i + 1;
    }
}

/// Whether `s` is one of the listed strings, by contents.
pub fn contains_string(list: &Vec<String>, s: &String) -> (r: bool)
    ensures
        r == list@.map_values(|x: String| x@).contains(s@),
{
    let ghost sv = list@.map_values(|x: String| x@);
    let mut i: usize = 0;
    while i < list.len()
        invariant
            i <= list@.len(),
            sv == list@.map_values(|x: String| x@),
            forall|j: int| 0 <= j < i ==> sv[j] != s@,
        decreases list@.len() - i,
    {
        if str_eq(list[i].as_str(), s.as_str()) {
            proof {
                assert(sv[i as int] == s@);
            }
            return true;
        }
        i = i + 1;
    }
    proof {
        if sv.contains(s@) {
            let k = choose|k: int| 0 <= k < sv.len() && sv[k] == s@;
            assert(sv[k] == s@);
        }
    }
    false
}

/// Whether `p` is a prefix of `s`.
pub open spec fn starts_with(s: Seq<char>, p: Seq<char>) -> bool {
    s.len() >= p.len() && s.take(p.len() as int) == p
}

/// Whether `p`'s characters open `v`.
pub fn has_prefix(v: &Vec<char>, p: &Vec<char>) -> (r: bool)
    ensures
        r == starts_with(v@, p@),
{
    if v.len() < p.len() {
        return false;
    }
    let mut i: usize = 0;
    while i < p.len()
        invariant
            i <= p@.len() <= v@.len(),
            forall|j: int| 0 <= j < i ==> v@[j] == p@[j],
        decreases p@.len() - i,
    {
        if v[i] != p[i] {
            proof {
                assert(v@.take(p@.len() as int)[i as int] == v@[i as int]);
            }
            return false;
        }
        i = i + 1;
    }
    proof {
        assert(v@.take(p@.len() as int) =~= p@);
    }
    true
}

/// Whether the two vectors hold the same characters.
pub fn chars_eq(a: &Vec<char>, b: &Vec<char>) -> (r: bool)
    ensures
        r == (a@ == b@),
{
    if a.len() != b.len() {
        return false;
    }
    let mut i: usize = 0;
    while i < a.len()
        invariant
            i <= a@.len(),
            a@.len() == b@.len(),
            forall|j: int| 0 <= j < i ==> a@[j] == b@[j],
        decreases a@.len() - i,
    {
        if a[i] != b[i] {
            return false;
        }
        i = i + 1;
    }
    proof {
        assert(a@ =~= b@);
    }
    true
}

} // verus!
