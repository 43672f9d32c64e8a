//! Character-level helpers shared by the path encoder and decoder:
//! decimal rendering and parsing of the numeric path segments, and
//! executable string comparison.

use vstd::prelude::*;

verus! {

/// The decimal digit character for a value in 0..=9.
pub open spec fn digit_char(d: int) -> char {
    if d == 0 {
        '0'
    } else if d == 1 {
        '1'
    } else if d == 2 {
        '2'
    } else if d == 3 {
        '3'
    } else if d == 4 {
        '4'
    } else if d == 5 {
        '5'
    } else if d == 6 {
        '6'
    } else if d == 7 {
        '7'
    } else if d == 8 {
        '8'
    } else {
        '9'
    }
}

/// Whether a character is an ASCII decimal digit.
pub open spec fn is_digit(c: char) -> bool {
    '0' <= c && c <= '9'
}

/// The numeric value of an ASCII decimal digit character.
pub open spec fn digit_val(c: char) -> int {
    c as int - '0' as int
}

/// The canonical decimal text of a natural number: no leading zeros,
/// except that zero itself is the single digit `0`.
pub open spec fn dec_str(n: nat) -> Seq<char>
    decreases n,
{
    if n < 10 {
        seq![digit_char(n as int)]
    } else {
        dec_str(n / 10) + seq![digit_char((n % 10) as int)]
    }
}

/// The value of a sequence of decimal digit characters, most significant first.
pub open spec fn dec_val(s: Seq<char>) -> int
    decreases s.len(),
{
    if s.len() == 0 {
        0
    } else {
        dec_val(s.drop_last()) * 10 + digit_val(s.last())
    }
}

/// A decimal rendering is never empty and holds only digits.
pub(crate) proof fn lemma_dec_str_digits(n: nat)
    ensures
        dec_str(n).len() >= 1,
        all_digits(dec_str(n)),
    decreases n,
{
    if n >= 10 {
        lemma_dec_str_digits(n / 10);
        let s = dec_str(n);
        assert forall|i: int| 0 <= i < s.len() implies is_digit(#[trigger] s[i]) by {
            if i < dec_str(n / 10).len() {
                assert(s[i] == dec_str(n / 10)[i]);
            } else {
                assert(s[i] == digit_char((n % 10) as int));
            }
        }
    }
}

/// Parsing a decimal rendering gives the number back.
pub(crate) proof fn lemma_dec_val_dec_str(n: nat)
    ensures
        dec_val(dec_str(n)) == n,
    decreases n,
{
    if n < 10 {
        let s = dec_str(n);
        assert(s.drop_last() =~= Seq::<char>::empty());
        assert(dec_val(Seq::<char>::empty()) == 0);
        assert(s.last() == digit_char(n as int));
        assert(dec_val(s) == digit_val(digit_char(n as int)));
    } else {
        lemma_dec_val_dec_str(n / 10);
        let s = dec_str(n);
        assert(s.drop_last() =~= dec_str(n / 10));
        assert(s.last() == digit_char((n % 10) as int));
        assert(digit_val(digit_char((n % 10) as int)) == n % 10);
    }
}

/// Appends the canonical decimal text of `v` to `out`.
pub fn push_dec_u32(out: &mut String, v: u32)
    ensures
        final(out)@ == old(out)@ + dec_str(v as nat),
    decreases v,
{
    if v >= 10 {
        push_dec_u32(out, v / 10);
    }
    let d = v % 10;
    let ds: &str = match d {
        0 => "0",
        1 => "1",
        2 => "2",
        3 => "3",
        4 => "4",
        5 => "5",
        6 => "6",
        7 => "7",
        8 => "8",
        _ => "9",
    };
    proof {
        reveal_strlit("0");
        reveal_strlit("1");
        reveal_strlit("2");
        reveal_strlit("3");
        reveal_strlit("4");
        reveal_strlit("5");
        reveal_strlit("6");
        reveal_strlit("7");
        reveal_strlit("8");
        reveal_strlit("9");
        assert(ds@ =~= seq![digit_char(d as int)]);
    }
    out.append(ds);
    proof {
        assert(out@ =~= old(out)@ + dec_str(v as nat));
    }
}

/// All characters of the sequence are ASCII decimal digits.
pub open spec fn all_digits(s: Seq<char>) -> bool {
    forall|i: int| 0 <= i < s.len() ==> is_digit(#[trigger] s[i])
}

/// The digit part of an unsigned numeral: a single leading `+` is allowed.
pub open spec fn unsigned_digits(s: Seq<char>) -> Seq<char> {
    if s.len() > 0 && s[0] == '+' {
        s.drop_first()
    } else {
        s
    }
}

/// Whether `s` is a numeral that `u32` parsing accepts: an optional `+`,
/// then at least one digit, with a value that fits in `u32`.
pub open spec fn is_u32_numeral(s: Seq<char>) -> bool {
    let d = unsigned_digits(s);
    d.len() > 0 && all_digits(d) && dec_val(d) <= u32::MAX
}

/// The value of a `u32` numeral.
pub open spec fn u32_numeral_val(s: Seq<char>) -> int {
    dec_val(unsigned_digits(s))
}

/// Whether the signed numeral `s` starts with an explicit sign.
pub open spec fn has_sign(s: Seq<char>) -> bool {
    s.len() > 0 && (s[0] == '+' || s[0] == '-')
}

/// The digit part of a signed numeral.
pub open spec fn signed_digits(s: Seq<char>) -> Seq<char> {
    if has_sign(s) {
        s.drop_first()
    } else {
        s
    }
}

/// Whether the signed numeral `s` denotes a negative value.
pub open spec fn is_negative_numeral(s: Seq<char>) -> bool {
    s.len() > 0 && s[0] == '-'
}

/// Whether `s` is a numeral that `i32` parsing accepts: an optional sign,
/// then at least one digit, with a value that fits in `i32`.
pub open spec fn is_i32_numeral(s: Seq<char>) -> bool {
    let d = signed_digits(s);
    d.len() > 0 && all_digits(d) && (if is_negative_numeral(s) {
        dec_val(d) <= 0x8000_0000
    } else {
        dec_val(d) <= 0x7fff_ffff
    })
}

/// The value of an `i32` numeral.
pub open spec fn i32_numeral_val(s: Seq<char>) -> int {
    if is_negative_numeral(s) {
        -dec_val(signed_digits(s))
    } else {
        dec_val(signed_digits(s))
    }
}

/// The value of a digit sequence is never negative.
proof fn lemma_dec_val_nonneg(s: Seq<char>)
    requires
        all_digits(s),
    ensures
        dec_val(s) >= 0,
    decreases s.len(),
{
    if s.len() > 0 {
        assert(all_digits(s.drop_last()));
        lemma_dec_val_nonneg(s.drop_last());
    }
}

/// Extending a digit sequence on the right never lowers its value.
proof fn lemma_dec_val_prefix(s: Seq<char>, k: int)
    requires
        all_digits(s),
        0 <= k <= s.len(),
    ensures
        dec_val(s) >= dec_val(s.subrange(0, k)),
    decreases s.len() - k,
{
    if k < s.len() {
        let t = s.drop_last();
        assert(all_digits(t));
        assert(t.subrange(0, k) =~= s.subrange(0, k));
        lemma_dec_val_prefix(t, k);
        lemma_dec_val_nonneg(t);
    } else {
        assert(s.subrange(0, k) =~= s);
    }
}

/// Parses a string as `u32` decimal text, exactly as `str::parse::<u32>`
/// accepts it: an optional leading `+`, then one or more ASCII digits,
/// rejecting values above `u32::MAX`.
pub fn parse_u32(s: &str) -> (r: Option<u32>)
    ensures
        match r {
            Some(v) => is_u32_numeral(s@) && v == u32_numeral_val(s@),
            None => !is_u32_numeral(s@),
        },
{
    let n = s.unicode_len();
    let start: usize = if n > 0 && s.get_char(0) == '+' {
        1
    } else {
        0
    };
    let ghost digits = s@.subrange(start as int, n as int);
    proof {
        assert(digits =~= unsigned_digits(s@));
    }
    if n == start {
        return None;
    }
    let mut acc: u32 = 0;
    let mut i: usize = start;
    while i < n
        invariant
            start <= i <= n,
            n == s@.len(),
            digits == s@.subrange(start as int, n as int),
            digits == unsigned_digits(s@),
            all_digits(s@.subrange(start as int, i as int)),
            acc == dec_val(s@.subrange(start as int, i as int)),
        decreases n - i,
    {
        let c = s.get_char(i);
        let ghost pref = s@.subrange(start as int, i as int);
        let ghost pref1 = s@.subrange(start as int, i + 1 as int);
        proof {
            assert(pref1.drop_last() =~= pref);
            assert(pref1.last() == s@[i as int]);
        }
        if !('0' <= c && c <= '9') {
            proof {
                assert(digits[i - start] == c);
                assert(!is_digit(c));
            }
            return None;
        }
        let d: u32 = (c as u32) - 48;
        proof {
            assert(c as int - '0' as int == d);
        }
        if acc > (u32::MAX - d) / 10 {
            proof {
                assert(dec_val(pref1) == acc * 10 + d);
                assert(acc * 10 + d > u32::MAX) by (nonlinear_arith)
                    requires
                        acc > (u32::MAX - d) / 10,
                        0 <= d <= 9,
                ;
                assert(all_digits(pref1));
                assert(pref1 =~= digits.subrange(0, i + 1 - start as int));
                if all_digits(digits) {
                    lemma_dec_val_prefix(digits, i + 1 - start as int);
                }
            }
            return None;
        }
        proof {
            assert(acc * 10 + d <= u32::MAX) by (nonlinear_arith)
                requires
                    acc <= (u32::MAX - d) / 10,
                    0 <= d <= 9,
            ;
        }
        acc = acc * 10 + d;
        i = i + 1;
    }
    proof {
        assert(s@.subrange(start as int, n as int) == digits);
    }
    Some(acc)
}

/// Parses a string as `i32` decimal text, exactly as `str::parse::<i32>`
/// accepts it: an optional leading sign, then one or more ASCII digits,
/// rejecting values outside the `i32` range.
pub fn parse_i32(s: &str) -> (r: Option<i32>)
    ensures
        match r {
            Some(v) => is_i32_numeral(s@) && v == i32_numeral_val(s@),
            None => !is_i32_numeral(s@),
        },
{
    let n = s.unicode_len();
    let neg = n > 0 && s.get_char(0) == '-';
    let start: usize = if n > 0 && (s.get_char(0) == '+' || s.get_char(0) == '-') {
        1
    } else {
        0
    };
    let limit: u32 = if neg {
        0x8000_0000
    } else {
        0x7fff_ffff
    };
    let ghost digits = s@.subrange(start as int, n as int);
    proof {
        assert(digits =~= signed_digits(s@));
        assert(neg == is_negative_numeral(s@));
    }
    if n == start {
        return None;
    }
    let mut acc: u32 = 0;
    let mut i: usize = start;
    while i < n
        invariant
            start <= i <= n,
            n == s@.len(),
            digits == s@.subrange(start as int, n as int),
            digits == signed_digits(s@),
            neg == is_negative_numeral(s@),
            all_digits(s@.subrange(start as int, i as int)),
            acc == dec_val(s@.subrange(start as int, i as int)),
            acc <= limit,
            limit == if neg {
                0x8000_0000u32
            } else {
                0x7fff_ffffu32
            },
        decreases n - i,
    {
        let c = s.get_char(i);
        let ghost pref = s@.subrange(start as int, i as int);
        let ghost pref1 = s@.subrange(start as int, i + 1 as int);
        proof {
            assert(pref1.drop_last() =~= pref);
            assert(pref1.last() == s@[i as int]);
        }
        if !('0' <= c && c <= '9') {
            proof {
                assert(digits[i - start] == c);
                assert(!is_digit(c));
            }
            return None;
        }
        let d: u32 = (c as u32) - 48;
        proof {
            assert(c as int - '0' as int == d);
        }
        if acc > limit / 10 || acc * 10 > limit - d {
            proof {
                assert(dec_val(pref1) == acc * 10 + d);
                assert(acc * 10 + d > limit) by (nonlinear_arith)
                    requires
                        acc > limit / 10 || (acc <= limit / 10 && acc * 10 > limit - d),
                        0 <= d <= 9,
                        limit >= 10,
                ;
                assert(all_digits(pref1));
                assert(pref1 =~= digits.subrange(0, i + 1 - start as int));
                if all_digits(digits) {
                    lemma_dec_val_prefix(digits, i + 1 - start as int);
                }
            }
            return None;
        }
        proof {
            assert(acc * 10 + d <= limit) by (nonlinear_arith)
                requires
                    acc <= limit / 10,
                    acc * 10 <= limit - d,
                    0 <= d <= 9,
            ;
        }
        acc = acc * 10 + d;
        i = i + 1;
    }
    if neg {
        if acc == 0x8000_0000 {
            Some(i32::MIN)
        } else {
            Some(-(acc as i32))
        }
    } else {
        Some(acc as i32)
    }
}

/// Whether two string slices hold the same characters.
pub fn str_eq(a: &str, b: &str) -> (r: bool)
    ensures
        r == (a@ == b@),
{
    let x: String = a.to_owned();
    let y: String = b.to_owned();
    x == y
}

} // verus!
