//! Verified string utilities: equality, suffix test, and decimal formatting,
//! all specified over the character-sequence view of `str`.

use vstd::prelude::*;
use vstd::string::StringSliceAdditionalSpecFns;

verus! {

/// Character-by-character string equality, specified over the views.
pub fn str_eq(a: &str, b: &str) -> (r: bool)
    ensures
        r == (a@ == b@),
{
    let alen = a.unicode_len();
    let blen = b.unicode_len();
    if alen != blen {
        proof {
            assert(a@.len() != b@.len());
        }
        return false;
    }
    let mut i: usize = 0;
    while i < alen
        invariant
            alen == a@.len(),
            blen == b@.len(),
            alen == blen,
            i <= alen,
            forall|j: int| 0 <= j < i ==> a@[j] == b@[j],
        decreases alen - i,
    {
        if a.get_char(i) != b.get_char(i) {
            return false;
        }
        i += 1;
    }
    proof {
        assert(a@ =~= b@);
    }
    true
}

/// Whether `p` is a prefix of `s`.
pub open spec fn has_prefix(s: Seq<char>, p: Seq<char>) -> bool {
    p.len() <= s.len() && s.subrange(0, p.len() as int) == p
}

/// Whether `p` is a suffix of `s`.
pub open spec fn has_suffix(s: Seq<char>, p: Seq<char>) -> bool {
    p.len() <= s.len() && s.subrange(s.len() - p.len(), s.len() as int) == p
}

/// Decides whether `s` ends with `suffix`.
pub fn str_ends_with(s: &str, suffix: &str) -> (r: bool)
    ensures
        r == has_suffix(s@, suffix@),
{
    let n = s.unicode_len();
    let m = suffix.unicode_len();
    if m > n {
        proof {
            assert(!has_suffix(s@, suffix@));
        }
        return false;
    }
    let mut i: usize = 0;
    while i < m
        invariant
            n == s@.len(),
            m == suffix@.len(),
            m <= n,
            i <= m,
            forall|j: int| 0 <= j < i ==> s@[n - m + j] == suffix@[j],
        decreases m - i,
    {
        if s.get_char(n - m + i) != suffix.get_char(i) {
            proof {
                assert(s@.subrange(n - m, n as int)[i as int] == s@[n - m + i]);
                assert(s@.subrange(n - m, n as int) != suffix@);
            }
            return false;
        }
        i += 1;
    }
    proof {
        assert(s@.subrange(n - m, n as int) =~= suffix@);
    }
    true
}

/// A byte with the ASCII uppercase letters folded to lowercase.
pub open spec fn fold_byte(b: u8) -> u8 {
    if 65 <= b <= 90 {
        (b + 32) as u8
    } else {
        b
    }
}

/// Byte-wise equality up to ASCII case.
pub open spec fn ascii_case_eq(a: Seq<u8>, b: Seq<u8>) -> bool {
    a.len() == b.len() && forall|i: int| 0 <= i < a.len() ==> fold_byte(a[i]) == fold_byte(b[i])
}

/// Decides equality of two strings up to ASCII case, over their bytes.
pub fn str_eq_ignore_ascii_case(a: &str, b: &str) -> (r: bool)
    ensures
        r == ascii_case_eq(a.spec_bytes(), b.spec_bytes()),
{
    let ab = a.as_bytes();
    let bb = b.as_bytes();
    let n = ab.len();
    if n != bb.len() {
        return false;
    }
    let mut i: usize = 0;
    while i < n
        invariant
            n == ab@.len(),
            n == bb@.len(),
            ab@ == a.spec_bytes(),
            bb@ == b.spec_bytes(),
            i <= n,
            forall|j: int| 0 <= j < i ==> fold_byte(ab@[j]) == fold_byte(bb@[j]),
        decreases n - i,
    {
        let x = ab[i];
        let y = bb[i];
        let fx: u8 = if 65 <= x && x <= 90 {
            x + 32
        } else {
            x
        };
        let fy: u8 = if 65 <= y && y <= 90 {
            y + 32
        } else {
            y
        };
        if fx != fy {
            return false;
        }
        i += 1;
    }
    true
}

/// Relies on `String::push` of std: appends the given char to the end of
/// this string.
#[verifier::external_body]
pub fn push_char(s: &mut String, c: char)
    ensures
        final(s)@ == old(s)@.push(c),
{
    s.push(c)
}

/// The character for one decimal digit.
pub open spec fn dec_digit_char(d: nat) -> char {
    if d == 0 {
        '0'
    } else if d == 1 {
        '1'
    } else if d == 2 {
        '2'
    } else if d == 3 {
        '3'
    } else if d == 4 {
        '4'
    } else if d == 5 {
        '5'
    } else if d == 6 {
        '6'
    } else if d == 7 {
        '7'
    } else if d == 8 {
        '8'
    } else {
        '9'
    }
}

/// The decimal representation of a natural number, without leading zeros
/// (zero itself is "0").
pub open spec fn dec_str(n: nat) -> Seq<char>
    decreases n,
{
    if n < 10 {
        seq![dec_digit_char(n)]
    } else {
        dec_str(n / 10).push(dec_digit_char(n % 10))
    }
}

/// The decimal representation of an integer, a minus sign in front of a
/// negative one.
pub open spec fn dec_int_str(n: int) -> Seq<char> {
    if n < 0 {
        seq!['-'] + dec_str((-n) as nat)
    } else {
        dec_str(n as nat)
    }
}

/// One digit as a string slice.
fn digit_str(d: u8) -> (r: &'static str)
    requires
        d < 10,
    ensures
        r@ == seq![dec_digit_char(d as nat)],
{
    proof {
        reveal_strlit("0");
        reveal_strlit("1");
        reveal_strlit("2");
        reveal_strlit("3");
        reveal_strlit("4");
        reveal_strlit("5");
        reveal_strlit("6");
        reveal_strlit("7");
        reveal_strlit("8");
        reveal_strlit("9");
    }
    let r = if d == 0 {
        "0"
    } else if d == 1 {
        "1"
    } else if d == 2 {
        "2"
    } else if d == 3 {
        "3"
    } else if d == 4 {
        "4"
    } else if d == 5 {
        "5"
    } else if d == 6 {
        "6"
    } else if d == 7 {
        "7"
    } else if d == 8 {
        "8"
    } else {
        "9"
    };
    proof {
        assert(r@ =~= seq![dec_digit_char(d as nat)]);
    }
    r
}

/// The digit characters of collected low-order-first digits, read back
/// high-order-first.
pub open spec fn rev_digit_chars(ds: Seq<u8>) -> Seq<char> {
    Seq::new(ds.len(), |i: int| dec_digit_char(ds[ds.len() - 1 - i] as nat))
}

/// Writes `x` in decimal.
pub fn u64_to_string(x: u64) -> (r: String)
    ensures
        r@ == dec_str(x as nat),
{
    let mut cur: u64 = x;
    let mut digits: Vec<u8> = Vec::new();
    loop
        invariant_except_break
            cur > 0 || digits@.len() == 0,
            dec_str(x as nat) =~= dec_str(cur as nat) + rev_digit_chars(digits@),
        invariant
            forall|j: int| 0 <= j < digits@.len() ==> digits@[j] < 10,
        ensures
            dec_str(x as nat) =~= rev_digit_chars(digits@),
        decreases cur,
    {
        let d: u8 = (cur % 10) as u8;
        let ghost prev_cur = cur;
        let ghost prev_digits = digits@;
        digits.push(d);
        cur = cur / 10;
        proof {
            assert(rev_digit_chars(prev_digits.push(d)) =~= seq![dec_digit_char(d as nat)]
                + rev_digit_chars(prev_digits));
            if prev_cur >= 10 {
                assert(dec_str(prev_cur as nat) == dec_str((prev_cur / 10) as nat).push(
                    dec_digit_char((prev_cur % 10) as nat),
                ));
                assert(dec_str((prev_cur / 10) as nat).push(dec_digit_char(d as nat)) =~= dec_str(
                    (prev_cur / 10) as nat,
                ) + seq![dec_digit_char(d as nat)]);
                assert(dec_str(x as nat) =~= dec_str(cur as nat) + rev_digit_chars(digits@));
            } else {
                assert(dec_str(prev_cur as nat) =~= seq![dec_digit_char(d as nat)]);
                assert(dec_str(x as nat) =~= rev_digit_chars(digits@));
            }
        }
        if cur == 0 {
            break ;
        }
    }
    proof {
        assert(dec_str(x as nat) =~= rev_digit_chars(digits@));
    }

    let mut out = String::new();
    let n = digits.len();
    let mut i: usize = n;
    while i > 0
        invariant
            n == digits@.len(),
            i <= n,
            forall|j: int| 0 <= j < digits@.len() ==> digits@[j] < 10,
            out@ =~= rev_digit_chars(digits@).take(n - i),
        decreases i,
    {
        i = i - 1;
        out.append(digit_str(digits[i]));
        proof {
            assert(out@ =~= rev_digit_chars(digits@).take(n - i));
        }
    }
    proof {
        assert(rev_digit_chars(digits@).take(n as int) =~= rev_digit_chars(digits@));
        assert(out@ =~= dec_str(x as nat));
    }
    out
}

/// Writes `x` in decimal, with a minus sign when negative.
pub fn i64_to_string(x: i64) -> (r: String)
    ensures
        r@ == dec_int_str(x as int),
{
    if x >= 0 {
        let r = u64_to_string(x as u64);
        proof {
            assert(r@ =~= dec_int_str(x as int));
        }
        r
    } else {
        let mag: u64 = ((-(x + 1)) as u64) + 1;
        let mut out = String::new();
        proof {
            reveal_strlit("-");
        }
        out.append("-");
        let digits = u64_to_string(mag);
        out.append(digits.as_str());
        proof {
            assert(out@ =~= dec_int_str(x as int));
        }
        out
    }
}

} // verus!
