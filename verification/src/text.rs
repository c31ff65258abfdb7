use vstd::prelude::*;

use crate::error::WBDLError;
use vstd::arithmetic::div_mod::lemma_fundamental_div_mod;

verus! {

/// The numeric value of a decimal digit character; -1 for any other
/// character.
pub open spec fn digit_val(c: char) -> int {
    if c == '0' {
        0
    } else if c == '1' {
        1
    } else if c == '2' {
        2
    } else if c == '3' {
        3
    } else if c == '4' {
        4
    } else if c == '5' {
        5
    } else if c == '6' {
        6
    } else if c == '7' {
        7
    } else if c == '8' {
        8
    } else if c == '9' {
        9
    } else {
        -1
    }
}

/// The decimal digit character for a value in `0..=9`.
pub open spec fn digit_of(d: int) -> char {
    if d == 0 {
        '0'
    } else if d == 1 {
        '1'
    } else if d == 2 {
        '2'
    } else if d == 3 {
        '3'
    } else if d == 4 {
        '4'
    } else if d == 5 {
        '5'
    } else if d == 6 {
        '6'
    } else if d == 7 {
        '7'
    } else if d == 8 {
        '8'
    } else {
        '9'
    }
}

pub open spec fn is_digit(c: char) -> bool {
    digit_val(c) >= 0
}

pub open spec fn all_digits(s: Seq<char>) -> bool {
    forall|i: int| 0 <= i < s.len() ==> is_digit(s[i])
}

/// The value of a digit string read as a decimal number.
pub open spec fn digits_val(s: Seq<char>) -> int
    decreases s.len(),
{
    if s.len() == 0 {
        0
    } else {
        digits_val(s.drop_last()) * 10 + digit_val(s.last())
    }
}

/// The number an unsigned decimal segment denotes: an optional leading '+',
/// then one or more digits; anything else denotes nothing.
pub open spec fn parse_uint(s: Seq<char>) -> Option<int> {
    let t = if s.len() > 0 && s[0] == '+' {
        s.skip(1)
    } else {
        s
    };
    if t.len() > 0 && all_digits(t) {
        Some(digits_val(t))
    } else {
        None
    }
}

/// `parse_uint`, with values above `max` rejected as well.
pub open spec fn parse_uint_capped(s: Seq<char>, max: int) -> Option<int> {
    match parse_uint(s) {
        Some(n) => if n <= max {
            Some(n)
        } else {
            None
        },
        None => None,
    }
}

/// The shortest decimal representation of a non-negative number (a single
/// '0' for zero).
pub open spec fn dec_rep(n: int) -> Seq<char>
    decreases n,
{
    if n < 10 {
        seq![digit_of(n)]
    } else {
        dec_rep(n / 10).push(digit_of(n % 10))
    }
}

/// The position of the first occurrence of `c` in `s`, or `s.len()` if `c`
/// does not occur.
pub open spec fn find_idx(s: Seq<char>, c: char) -> int
    decreases s.len(),
{
    if s.len() == 0 {
        0
    } else if s[0] == c {
        0
    } else {
        1 + find_idx(s.skip(1), c)
    }
}

/// A position with no occurrence before it and an occurrence at it (or the
/// end, if the character is absent) is exactly `find_idx`.
pub proof fn lemma_find_idx_is(s: Seq<char>, c: char, k: int)
    requires
        0 <= k <= s.len(),
        forall|j: int| 0 <= j < k ==> s[j] != c,
        k < s.len() ==> s[k] == c,
    ensures
        find_idx(s, c) == k,
    decreases s.len(),
{
    if s.len() > 0 && s[0] != c {
        assert forall|j: int| 0 <= j < k - 1 implies s.skip(1)[j] != c by {
            assert(s.skip(1)[j] == s[j + 1]);
        }
        if k < s.len() {
            assert(s.skip(1)[k - 1] == s[k]);
        }
        lemma_find_idx_is(s.skip(1), c, k - 1);
    }
}

/// A digit string denotes a non-negative number.
pub proof fn lemma_digits_val_nonneg(s: Seq<char>)
    requires
        all_digits(s),
    ensures
        digits_val(s) >= 0,
    decreases s.len(),
{
    if s.len() > 0 {
        assert(all_digits(s.drop_last()));
        lemma_digits_val_nonneg(s.drop_last());
    }
}

/// A prefix of a digit string denotes no more than the whole string.
pub proof fn lemma_digits_val_prefix(s: Seq<char>, k: int)
    requires
        all_digits(s),
        0 <= k <= s.len(),
    ensures
        0 <= digits_val(s.subrange(0, k)) <= digits_val(s),
    decreases s.len() - k,
{
    assert(all_digits(s.subrange(0, k)));
    lemma_digits_val_nonneg(s.subrange(0, k));
    if k < s.len() {
        lemma_digits_val_prefix(s, k + 1);
        assert(s.subrange(0, k + 1).drop_last() =~= s.subrange(0, k));
        assert(s.subrange(0, k + 1).last() == s[k]);
        lemma_digits_val_nonneg(s.subrange(0, k));
    } else {
        assert(s.subrange(0, k) =~= s);
    }
}

/// The decimal representation consists of digits alone and reads back as
/// the number it was made from.
pub proof fn lemma_dec_rep(n: int)
    requires
        n >= 0,
    ensures
        dec_rep(n).len() >= 1,
        all_digits(dec_rep(n)),
        digits_val(dec_rep(n)) == n,
    decreases n,
{
    if n < 10 {
        assert(dec_rep(n) =~= seq![digit_of(n)]);
        assert(dec_rep(n).drop_last() =~= Seq::<char>::empty());
        assert(dec_rep(n).last() == digit_of(n));
        assert(digit_val(digit_of(n)) == n);
        assert(digits_val(Seq::<char>::empty()) == 0);
        assert(digits_val(dec_rep(n)) == digits_val(dec_rep(n).drop_last()) * 10 + digit_val(
            dec_rep(n).last(),
        ));
    } else {
        lemma_dec_rep(n / 10);
        lemma_fundamental_div_mod(n, 10);
        assert(dec_rep(n).drop_last() =~= dec_rep(n / 10));
        assert(dec_rep(n).last() == digit_of(n % 10));
        assert(0 <= n % 10 < 10);
        assert(digit_val(digit_of(n % 10)) == n % 10);
        assert(digits_val(dec_rep(n)) == digits_val(dec_rep(n / 10)) * 10 + digit_val(
            digit_of(n % 10),
        ));
    }
}

/// Relies on str::chars: the characters of the string, in order.
#[verifier::external_body]
pub(crate) fn str_to_chars(s: &str) -> (r: Vec<char>)
    ensures
        r@ == s@,
{
    s.chars().collect()
}

/// Relies on String's FromIterator over char: collecting characters forms
/// the string holding exactly those characters.
#[verifier::external_body]
pub(crate) fn chars_to_string(v: &Vec<char>) -> (r: String)
    ensures
        r@ == v@,
{
    v.iter().collect()
}

/// The decimal digit character for a value in `0..=9`.
fn digit_char(d: u8) -> (c: char)
    requires
        d <= 9,
    ensures
        c == digit_of(d as int),
{
    match d {
        0 => '0',
        1 => '1',
        2 => '2',
        3 => '3',
        4 => '4',
        5 => '5',
        6 => '6',
        7 => '7',
        8 => '8',
        _ => '9',
    }
}

/// The value of a decimal digit character, or nothing for any other
/// character.
fn char_digit(c: char) -> (r: Option<u8>)
    ensures
        r matches Some(d) ==> (d <= 9 && digit_val(c) == d as int),
        r is None ==> digit_val(c) < 0,
{
    match c {
        '0' => Some(0),
        '1' => Some(1),
        '2' => Some(2),
        '3' => Some(3),
        '4' => Some(4),
        '5' => Some(5),
        '6' => Some(6),
        '7' => Some(7),
        '8' => Some(8),
        '9' => Some(9),
        _ => None,
    }
}

/// Appends the decimal representation of `n`.
pub(crate) fn push_decimal(out: &mut Vec<char>, n: u64)
    ensures
        final(out)@ == old(out)@ + dec_rep(n as int),
    decreases n,
{
    if n < 10 {
        out.push(digit_char(n as u8));
        proof {
            assert(out@ =~= old(out)@ + dec_rep(n as int));
        }
    } else {
        push_decimal(out, n / 10);
        out.push(digit_char((n % 10) as u8));
        proof {
            assert(out@ =~= old(out)@ + dec_rep(n as int));
        }
    }
}

/// The position of the first occurrence of `c` in `v[from..to]`, as an
/// absolute index; `to` if `c` does not occur there.
pub(crate) fn find_in_range(v: &Vec<char>, from: usize, to: usize, c: char) -> (r: usize)
    requires
        from <= to <= v@.len(),
    ensures
        from <= r <= to,
        r - from == find_idx(v@.subrange(from as int, to as int), c),
{
    let mut i = from;
    while i < to && v[i] != c
        invariant
            from <= i <= to <= v@.len(),
            forall|j: int| from <= j < i ==> v@[j] != c,
        decreases to - i,
    {
        i = i + 1;
    }
    proof {
        let s = v@.subrange(from as int, to as int);
        assert forall|j: int| 0 <= j < i - from implies s[j] != c by {
            assert(s[j] == v@[j + from]);
        }
        if i < to {
            assert(s[i - from] == v@[i as int]);
        }
        lemma_find_idx_is(s, c, i - from);
    }
    i
}

/// Reads `v[from..to]` as an unsigned decimal segment no larger than `max`:
/// an optional leading '+', then digits; rejects anything else, and any
/// value above `max`.
pub(crate) fn parse_num(v: &Vec<char>, from: usize, to: usize, max: u32) -> (r: Result<
    u32,
    WBDLError,
>)
    requires
        from <= to <= v@.len(),
        max <= 65535,
    ensures
        r matches Ok(n) ==> parse_uint_capped(v@.subrange(from as int, to as int), max as int)
            == Some(n as int),
        r is Err ==> parse_uint_capped(v@.subrange(from as int, to as int), max as int) is None,
{
    let ghost s = v@.subrange(from as int, to as int);
    let mut i = from;
    if i < to && v[i] == '+' {
        i = i + 1;
    }
    let ghost t = v@.subrange(i as int, to as int);
    proof {
        if from < to && v@[from as int] == '+' {
            assert(t =~= s.skip(1));
        } else {
            assert(t =~= s);
        }
    }
    if i >= to {
        return Err(WBDLError);
    }
    let start = i;
    let mut acc: u32 = 0;
    while i < to
        invariant
            from <= start <= i <= to <= v@.len(),
            max <= 65535,
            acc <= max,
            s == v@.subrange(from as int, to as int),
            t == v@.subrange(start as int, to as int),
            t == (if s.len() > 0 && s[0] == '+' {
                s.skip(1)
            } else {
                s
            }),
            start < to,
            all_digits(v@.subrange(start as int, i as int)),
            digits_val(v@.subrange(start as int, i as int)) == acc,
        decreases to - i,
    {
        let d = match char_digit(v[i]) {
            Some(d) => d,
            None => {
                proof {
                    assert(t[i - start] == v@[i as int]);
                    assert(!is_digit(t[i - start]));
                    assert(!all_digits(t));
                    assert(parse_uint(s) is None);
                }
                return Err(WBDLError);
            },
        };
        let next = acc * 10 + d as u32;
        proof {
            assert(v@.subrange(start as int, i as int + 1).drop_last() =~= v@.subrange(
                start as int,
                i as int,
            ));
            assert(v@.subrange(start as int, i as int + 1).last() == v@[i as int]);
        }
        if next > max {
            proof {
                assert(digits_val(v@.subrange(start as int, i as int + 1)) == acc * 10 + d as int);
                if all_digits(t) {
                    assert(t.subrange(0, i - start + 1) =~= v@.subrange(
                        start as int,
                        i as int + 1,
                    ));
                    lemma_digits_val_prefix(t, i - start + 1);
                    assert(digits_val(t) >= next as int);
                    assert(parse_uint(s) == Some(digits_val(t)));
                }
                assert(parse_uint_capped(s, max as int) is None);
            }
            return Err(WBDLError);
        }
        acc = next;
        i = i + 1;
    }
    proof {
        assert(v@.subrange(start as int, i as int) =~= t);
    }
    Ok(acc)
}

} // verus!
