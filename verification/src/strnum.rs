//! Decimal rendering and parsing of the integers that configuration values
//! and report lines are built from.

use vstd::prelude::*;

verus! {

/// The character for a single decimal digit.
pub open spec fn spec_digit_char(d: nat) -> char {
    if d == 0 {
        '0'
    } else if d == 1 {
        '1'
    } else if d == 2 {
        '2'
    } else if d == 3 {
        '3'
    } else if d == 4 {
        '4'
    } else if d == 5 {
        '5'
    } else if d == 6 {
        '6'
    } else if d == 7 {
        '7'
    } else if d == 8 {
        '8'
    } else {
        '9'
    }
}

/// The decimal rendering of `n`, without leading zeros (a single `'0'` for 0).
pub open spec fn spec_dec(n: nat) -> Seq<char>
    decreases n,
{
    if n < 10 {
        seq![spec_digit_char(n)]
    } else {
        spec_dec(n / 10).push(spec_digit_char(n % 10))
    }
}

/// The numeric value of one digit character; 10 marks a non-digit.
pub open spec fn spec_digit_of(c: char) -> nat {
    if 48 <= c as u32 <= 57 {
        (c as u32 - 48) as nat
    } else {
        10
    }
}

pub open spec fn spec_is_digit(c: char) -> bool {
    spec_digit_of(c) < 10
}

pub open spec fn spec_all_digits(s: Seq<char>) -> bool {
    forall|i: int| 0 <= i < s.len() ==> spec_is_digit(#[trigger] s[i])
}

/// The value of a digit string read most-significant first.
pub open spec fn spec_dec_value(s: Seq<char>) -> nat
    decreases s.len(),
{
    if s.len() == 0 {
        0
    } else {
        spec_dec_value(s.drop_last()) * 10 + spec_digit_of(s.last())
    }
}

fn digit_str(d: u64) -> (s: &'static str)
    requires
        d < 10,
    ensures
        s@ == seq![spec_digit_char(d as nat)],
{
    proof {
        reveal_strlit("0");
        reveal_strlit("1");
        reveal_strlit("2");
        reveal_strlit("3");
        reveal_strlit("4");
        reveal_strlit("5");
        reveal_strlit("6");
        reveal_strlit("7");
        reveal_strlit("8");
        reveal_strlit("9");
    }
    if d == 0 {
        proof { assert("0"@ =~= seq![spec_digit_char(d as nat)]); }
        "0"
    } else if d == 1 {
        proof { assert("1"@ =~= seq![spec_digit_char(d as nat)]); }
        "1"
    } else if d == 2 {
        proof { assert("2"@ =~= seq![spec_digit_char(d as nat)]); }
        "2"
    } else if d == 3 {
        proof { assert("3"@ =~= seq![spec_digit_char(d as nat)]); }
        "3"
    } else if d == 4 {
        proof { assert("4"@ =~= seq![spec_digit_char(d as nat)]); }
        "4"
    } else if d == 5 {
        proof { assert("5"@ =~= seq![spec_digit_char(d as nat)]); }
        "5"
    } else if d == 6 {
        proof { assert("6"@ =~= seq![spec_digit_char(d as nat)]); }
        "6"
    } else if d == 7 {
        proof { assert("7"@ =~= seq![spec_digit_char(d as nat)]); }
        "7"
    } else if d == 8 {
        proof { assert("8"@ =~= seq![spec_digit_char(d as nat)]); }
        "8"
    } else {
        proof { assert("9"@ =~= seq![spec_digit_char(d as nat)]); }
        "9"
    }
}

/// Renders `n` in decimal, matching `spec_dec`.
pub fn u64_to_string(n: u64) -> (s: String)
    ensures
        s@ == spec_dec(n as nat),
    decreases n,
{
    if n < 10 {
        let s = digit_str(n).to_owned();
        s
    } else {
        let mut s = u64_to_string(n / 10);
        s.append(digit_str(n % 10));
        proof {
            assert(s@ =~= spec_dec(n as nat));
        }
        s
    }
}

/// A digit-string prefix never exceeds the value of the whole string.
proof fn lemma_prefix_value_le(s: Seq<char>, k: int)
    requires
        0 <= k <= s.len(),
    ensures
        spec_dec_value(s.subrange(0, k)) <= spec_dec_value(s),
    decreases s.len() - k,
{
    if k < s.len() {
        lemma_prefix_value_le(s, k + 1);
        let p = s.subrange(0, k);
        let q = s.subrange(0, k + 1);
        assert(q.drop_last() =~= p);
        assert(spec_dec_value(q) == spec_dec_value(p) * 10 + spec_digit_of(q.last()));
        assert(spec_dec_value(p) <= spec_dec_value(p) * 10) by (nonlinear_arith)
            requires spec_dec_value(p) >= 0,
        ;
    } else {
        assert(s.subrange(0, k) =~= s);
    }
}

/// Parses a non-empty all-digit string as a `u64`; `None` on an empty
/// string, a non-digit character, or a value above `u64::MAX`.
pub fn parse_u64(s: &str) -> (r: Option<u64>)
    ensures
        r is Some <==> (s@.len() > 0 && spec_all_digits(s@) && spec_dec_value(s@) <= u64::MAX),
        r is Some ==> r->0 == spec_dec_value(s@),
{
    let len = s.unicode_len();
    if len == 0 {
        return None;
    }
    let mut i: usize = 0;
    let mut acc: u64 = 0;
    while i < len
        invariant
            0 < len == s@.len(),
            0 <= i <= len,
            spec_all_digits(s@.subrange(0, i as int)),
            acc == spec_dec_value(s@.subrange(0, i as int)),
        decreases len - i,
    {
        let c = s.get_char(i);
        let x = c as u32;
        if !(48 <= x && x <= 57) {
            assert(!spec_is_digit(s@[i as int]));
            return None;
        }
        let d = (x - 48) as u64;
        let shifted = match acc.checked_mul(10) {
            Some(v) => v,
            None => {
                proof {
                    if spec_all_digits(s@) {
                        lemma_prefix_value_le(s@, i + 1);
                        let q = s@.subrange(0, i as int + 1);
                        assert(q.drop_last() =~= s@.subrange(0, i as int));
                        assert(spec_dec_value(q) == acc * 10 + spec_digit_of(s@[i as int]));
                    }
                }
                return None;
            },
        };
        let next = match shifted.checked_add(d) {
            Some(v) => v,
            None => {
                proof {
                    if spec_all_digits(s@) {
                        lemma_prefix_value_le(s@, i + 1);
                        let q = s@.subrange(0, i as int + 1);
                        assert(q.drop_last() =~= s@.subrange(0, i as int));
                        assert(spec_dec_value(q) == acc * 10 + spec_digit_of(s@[i as int]));
                    }
                }
                return None;
            },
        };
        proof {
            let q = s@.subrange(0, i as int + 1);
            assert(q.drop_last() =~= s@.subrange(0, i as int));
            assert(q.last() == s@[i as int]);
        }
        acc = next;
        i = i + 1;
    }
    proof {
        assert(s@.subrange(0, len as int) =~= s@);
    }
    Some(acc)
}

/// Parses a `u16`, rejecting values above `u16::MAX`.
pub fn parse_u16(s: &str) -> (r: Option<u16>)
    ensures
        r is Some <==> (s@.len() > 0 && spec_all_digits(s@) && spec_dec_value(s@) <= u16::MAX),
        r is Some ==> r->0 == spec_dec_value(s@),
{
    match parse_u64(s) {
        Some(v) => {
            if v <= u16::MAX as u64 {
                Some(v as u16)
            } else {
                None
            }
        },
        None => None,
    }
}

/// Parses a `u32`, rejecting values above `u32::MAX`.
pub fn parse_u32(s: &str) -> (r: Option<u32>)
    ensures
        r is Some <==> (s@.len() > 0 && spec_all_digits(s@) && spec_dec_value(s@) <= u32::MAX),
        r is Some ==> r->0 == spec_dec_value(s@),
{
    match parse_u64(s) {
        Some(v) => {
            if v <= u32::MAX as u64 {
                Some(v as u32)
            } else {
                None
            }
        },
        None => None,
    }
}

/// Whether two string slices hold the same characters.
pub fn str_eq(a: &str, b: &str) -> (r: bool)
    ensures
        r == (a@ == b@),
{
    let alen = a.unicode_len();
    let blen = b.unicode_len();
    if alen != blen {
        return false;
    }
    let mut i: usize = 0;
    while i < alen
        invariant
            alen == a@.len(),
            alen == b@.len(),
            0 <= i <= alen,
            forall|j: int| 0 <= j < i ==> a@[j] == b@[j],
        decreases alen - i,
    {
        if a.get_char(i) != b.get_char(i) {
            return false;
        }
        i = i + 1;
    }
    proof {
        assert(a@ =~= b@);
    }
    true
}

/// Parses the strings `"true"` and `"false"`; anything else is rejected.
pub fn parse_bool(s: &str) -> (r: Option<bool>)
    ensures
        s@ == "true"@ ==> r == Some(true),
        s@ == "false"@ ==> r == Some(false),
        (s@ != "true"@ && s@ != "false"@) ==> r is None,
{
    proof {
        reveal_strlit("true");
        reveal_strlit("false");
        assert("true"@.len() != "false"@.len());
    }
    if str_eq(s, "true") {
        Some(true)
    } else if str_eq(s, "false") {
        Some(false)
    } else {
        None
    }
}

} // verus!
