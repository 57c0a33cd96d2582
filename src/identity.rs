//! The authorized caller's identity travels as a decimal string: the
//! controller writes its process id, the injected runtime reads it back.
use vstd::prelude::*;
use vstd::string::StringExecFns;
use vstd::string::StrSliceExecFns;
use crate::error::ChookError;

verus! {

pub open spec fn is_digit(c: char) -> bool {
    '0' <= c && c <= '9'
}

pub open spec fn digit_char(d: nat) -> char
    recommends
        d < 10,
{
    ((d + '0' as nat) as u8) as char
}

/// The decimal digits of `n`, most significant first, without leading zeros.
pub open spec fn digits_of(n: nat) -> Seq<char>
    decreases n,
{
    if n < 10 {
        seq![digit_char(n)]
    } else {
        digits_of(n / 10) + seq![digit_char(n % 10)]
    }
}

/// How `n` is written in decimal: a minus sign for negative values, then
/// the digits of its magnitude.
pub open spec fn decimal_of(n: int) -> Seq<char> {
    if n < 0 {
        seq!['-'] + digits_of((-n) as nat)
    } else {
        digits_of(n as nat)
    }
}

pub open spec fn all_digits(s: Seq<char>) -> bool {
    s.len() > 0 && forall|i: int| 0 <= i < s.len() ==> is_digit(#[trigger] s[i])
}

/// The value of a string of decimal digits.
pub open spec fn digits_value(s: Seq<char>) -> nat
    decreases s.len(),
{
    if s.len() == 0 {
        0
    } else {
        digits_value(s.drop_last()) * 10 + (s.last() as nat - '0' as nat) as nat
    }
}

/// The integer a decimal string denotes: an optional `+` or `-`, then one
/// or more digits. `None` for any other string.
pub open spec fn decimal_value(s: Seq<char>) -> Option<int> {
    if s.len() > 0 && s[0] == '-' && all_digits(s.drop_first()) {
        Some(-digits_value(s.drop_first()))
    } else if s.len() > 0 && s[0] == '+' && all_digits(s.drop_first()) {
        Some(digits_value(s.drop_first()) as int)
    } else if all_digits(s) {
        Some(digits_value(s) as int)
    } else {
        None
    }
}

spec fn signed(negative: bool, v: nat) -> int {
    if negative {
        -v
    } else {
        v as int
    }
}

/// Whether `s` denotes an integer that fits in an `i32`.
pub open spec fn is_identity_text(s: Seq<char>) -> bool {
    match decimal_value(s) {
        Some(v) => i32::MIN <= v <= i32::MAX,
        None => false,
    }
}

proof fn lemma_digit_char(d: nat)
    requires
        d < 10,
    ensures
        is_digit(digit_char(d)),
        digit_char(d) as nat == d + '0' as nat,
{
    assert(((d + 48) as u8) as char as nat == d + 48);
}

proof fn lemma_digits_of(n: nat)
    ensures
        all_digits(digits_of(n)),
        digits_value(digits_of(n)) == n,
    decreases n,
{
    lemma_digit_char(n % 10);
    if n < 10 {
        let s = digits_of(n);
        assert(s.drop_last() =~= Seq::<char>::empty());
        assert(s.last() == digit_char(n));
        assert(digits_value(s.drop_last()) == 0);
    } else {
        lemma_digits_of(n / 10);
        let s = digits_of(n);
        let a = digits_of(n / 10);
        assert(s.drop_last() =~= a);
        assert(s.last() == digit_char(n % 10));
        assert((n / 10) * 10 + n % 10 == n);
        assert forall|i: int| 0 <= i < s.len() implies is_digit(#[trigger] s[i]) by {
            if i < a.len() {
                assert(s[i] == a[i]);
            }
        }
    }
}

proof fn lemma_digits_value_grows(s: Seq<char>, i: int, j: int)
    requires
        0 <= i <= j <= s.len(),
    ensures
        digits_value(s.subrange(0, i)) <= digits_value(s.subrange(0, j)),
    decreases j - i,
{
    if i < j {
        lemma_digits_value_grows(s, i, j - 1);
        assert(s.subrange(0, j).drop_last() =~= s.subrange(0, j - 1));
    }
}

/// Reading back the decimal form of an identity gives that identity.
pub proof fn lemma_identity_round_trip(n: i32)
    ensures
        decimal_value(decimal_of(n as int)) == Some(n as int),
        is_identity_text(decimal_of(n as int)),
{
    if n < 0 {
        lemma_digits_of((-n) as nat);
        let s = decimal_of(n as int);
        assert(s.drop_first() =~= digits_of((-n) as nat));
    } else {
        lemma_digits_of(n as nat);
        let s = digits_of(n as nat);
        assert(is_digit(s[0]));
    }
}

fn digit_str(d: u32) -> (r: &'static str)
    requires
        d < 10,
    ensures
        r@ == seq![digit_char(d as nat)],
{
    let r = match d {
        0 => "0",
        1 => "1",
        2 => "2",
        3 => "3",
        4 => "4",
        5 => "5",
        6 => "6",
        7 => "7",
        8 => "8",
        _ => "9",
    };
    proof {
        reveal_strlit("0");
        reveal_strlit("1");
        reveal_strlit("2");
        reveal_strlit("3");
        reveal_strlit("4");
        reveal_strlit("5");
        reveal_strlit("6");
        reveal_strlit("7");
        reveal_strlit("8");
        reveal_strlit("9");
        assert(r@ =~= seq![digit_char(d as nat)]);
    }
    r
}

fn append_digits(out: &mut String, n: u32)
    ensures
        final(out)@ == old(out)@ + digits_of(n as nat),
    decreases n,
{
    if n >= 10 {
        append_digits(out, n / 10);
    }
    out.append(digit_str(n % 10));
    proof {
        if n >= 10 {
            assert(final(out)@ =~= old(out)@ + digits_of(n as nat));
        } else {
            assert(final(out)@ =~= old(out)@ + digits_of(n as nat));
        }
    }
}

/// The decimal form of an identity, as the injected runtime expects it.
pub fn format_identity(n: i32) -> (r: String)
    ensures
        r@ == decimal_of(n as int),
{
    let mut out = String::new();
    if n < 0 {
        out.append("-");
        proof {
            reveal_strlit("-");
        }
        let m: i64 = -(n as i64);
        append_digits(&mut out, m as u32);
    } else {
        append_digits(&mut out, n as u32);
    }
    proof {
        if n < 0 {
            assert(out@ =~= decimal_of(n as int));
        }
    }
    out
}

/// Reads an identity written in decimal. Fails unless the text is an
/// optional sign and one or more digits whose value fits in an `i32`.
pub fn parse_identity(s: &str) -> (r: Result<i32, ChookError>)
    ensures
        r is Ok <==> is_identity_text(s@),
        r matches Ok(v) ==> decimal_value(s@) == Some(v as int),
{
    let len = s.unicode_len();
    if len == 0 {
        return Err(ChookError::new("parsing identity: empty"));
    }
    let first = s.get_char(0);
    let negative = first == '-';
    let start: usize = if first == '-' || first == '+' { 1 } else { 0 };
    let limit: u64 = if negative { 2147483648 } else { 2147483647 };
    let ghost digits = s@.subrange(start as int, len as int);
    if start == len {
        return Err(ChookError::new("parsing identity: no digits"));
    }
    proof {
        if start == 1 {
            assert(s@.drop_first() =~= digits);
        } else {
            assert(s@ =~= digits);
        }
    }
    assert(decimal_value(s@) == if all_digits(digits) {
        Some(signed(negative, digits_value(digits)))
    } else {
        None::<int>
    });
    let mut acc: u64 = 0;
    let mut i: usize = start;
    while i < len
        invariant
            len == s@.len(),
            start <= i <= len,
            digits == s@.subrange(start as int, len as int),
            forall|k: int| 0 <= k < i - start ==> is_digit(#[trigger] digits[k]),
            acc == digits_value(digits.subrange(0, i - start)),
            acc <= limit,
            limit == if negative { 2147483648u64 } else { 2147483647u64 },
            decimal_value(s@) == if all_digits(digits) {
                Some(signed(negative, digits_value(digits)))
            } else {
                None::<int>
            },
        decreases len - i,
    {
        let c = s.get_char(i);
        if !('0' <= c && c <= '9') {
            assert(!is_digit(digits[i - start]));
            assert(!all_digits(digits));
            return Err(ChookError::new("parsing identity: not a digit"));
        }
        let d: u64 = (c as u32 - '0' as u32) as u64;
        proof {
            let pre = digits.subrange(0, i + 1 - start);
            assert(pre.drop_last() =~= digits.subrange(0, i - start));
            assert(pre.last() == c);
        }
        acc = acc * 10 + d;
        i = i + 1;
        assert(acc == digits_value(digits.subrange(0, i - start)));
        if acc > limit {
            proof {
                if all_digits(digits) {
                    lemma_digits_value_grows(digits, i - start, digits.len() as int);
                    assert(digits.subrange(0, digits.len() as int) =~= digits);
                    assert(digits_value(digits) > limit);
                    assert(decimal_value(s@) == Some(signed(negative, digits_value(digits))));
                }
            }
            return Err(ChookError::new("parsing identity: out of range"));
        }
    }
    assert(digits.subrange(0, len - start) =~= digits);
    assert(all_digits(digits));
    if negative {
        let v: i64 = -(acc as i64);
        Ok(v as i32)
    } else {
        Ok(acc as i32)
    }
}

} // verus!
