//! Numbers written in decimal and hexadecimal, and decimal numbers read back.
use crate::text::{chars_of, digit, is_digit};
use vstd::prelude::*;
use vstd::string::*;

verus! {

pub open spec fn digit_char(d: int) -> char {
    if d < 10 {
        (('0' as u32) + d) as char
    } else {
        (('a' as u32) + (d - 10)) as char
    }
}

/// The digit for `d`, in hexadecimal where it is ten or more.
pub fn digit_of(d: u8) -> (c: char)
    requires
        d < 16,
    ensures
        c == digit_char(d as int),
{
    if d < 10 {
        (48 + d) as char
    } else {
        (87 + d) as char
    }
}

/// `n` in decimal, without leading zeros.
pub open spec fn decimal(n: nat) -> Seq<char>
    decreases n,
{
    if n < 10 {
        seq![digit_char(n as int)]
    } else {
        decimal(n / 10).push(digit_char((n % 10) as int))
    }
}

fn push_decimal(s: &mut String, n: u64)
    ensures
        final(s)@ == old(s)@ + decimal(n as nat),
    decreases n,
{
    if n >= 10 {
        push_decimal(s, n / 10);
    }
    s.push(digit_of((n % 10) as u8));
    assert(s@ =~= old(s)@ + decimal(n as nat));
}

/// `n` in decimal.
pub fn decimal_text(n: u64) -> (s: String)
    ensures
        s@ == decimal(n as nat),
{
    let mut s = String::new();
    push_decimal(&mut s, n);
    assert(s@ =~= decimal(n as nat));
    s
}

/// `n` in decimal, with a minus sign where it is negative.
pub open spec fn signed_decimal(n: int) -> Seq<char> {
    if n < 0 {
        seq!['-'] + decimal((-n) as nat)
    } else {
        decimal(n as nat)
    }
}

pub fn signed_text(n: i64) -> (s: String)
    ensures
        s@ == signed_decimal(n as int),
{
    let mut s = String::new();
    if n < 0 {
        s.push('-');
        if n == i64::MIN {
            push_decimal(&mut s, 0x8000_0000_0000_0000);
        } else {
            push_decimal(&mut s, (-n) as u64);
        }
    } else {
        push_decimal(&mut s, n as u64);
    }
    assert(s@ =~= signed_decimal(n as int));
    s
}

/// `s` with zeros in front until it has at least `width` characters.
pub open spec fn zero_padded(s: Seq<char>, width: int) -> Seq<char> {
    Seq::new((if s.len() < width { width - s.len() } else { 0 }) as nat, |i: int| '0') + s
}

/// `n` in decimal, with zeros in front until it has `width` digits.
pub fn padded_text(n: u64, width: usize) -> (s: String)
    ensures
        s@ == zero_padded(decimal(n as nat), width as int),
{
    let body = decimal_text(n);
    let len: usize = body.as_str().unicode_len();
    let mut s = String::new();
    let mut have: usize = len;
    while have < width
        invariant
            len == body@.len(),
            len <= have,
            len <= width ==> have <= width,
            width < len ==> have == len,
            s@ == Seq::new((have - len) as nat, |i: int| '0'),
        decreases width - have,
    {
        s.push('0');
        have += 1;
        assert(s@ =~= Seq::new((have - len) as nat, |i: int| '0'));
    }
    s.append(body.as_str());
    s
}

/// The `n` low hexadecimal digits of `value`, the highest first.
pub open spec fn hex_digits(value: nat, n: nat) -> Seq<char>
    decreases n,
{
    if n == 0 {
        Seq::empty()
    } else {
        hex_digits(value / 16, (n - 1) as nat).push(digit_char((value % 16) as int))
    }
}

fn push_hex(s: &mut String, value: u64, n: u8)
    ensures
        final(s)@ == old(s)@ + hex_digits(value as nat, n as nat),
    decreases n,
{
    if n > 0 {
        push_hex(s, value / 16, n - 1);
        s.push(digit_of((value % 16) as u8));
    }
    assert(s@ =~= old(s)@ + hex_digits(value as nat, n as nat));
}

/// `value` as sixteen hexadecimal digits.
pub fn hex_text(value: u64) -> (s: String)
    ensures
        s@ == hex_digits(value as nat, 16),
{
    let mut s = String::new();
    push_hex(&mut s, value, 16);
    assert(s@ =~= hex_digits(value as nat, 16));
    s
}

pub open spec fn all_digits(s: Seq<char>) -> bool {
    forall|i: int| 0 <= i < s.len() ==> digit(#[trigger] s[i])
}

/// What a run of decimal digits says.
pub open spec fn decimal_value(s: Seq<char>) -> nat
    decreases s.len(),
{
    if s.len() == 0 {
        0
    } else {
        (decimal_value(s.drop_last()) * 10 + ((s.last() as u32) - ('0' as u32))) as nat
    }
}

/// The number that a decimal integer literal stands for: digits, at least one, with
/// an optional plus sign in front.
pub open spec fn unsigned_value(s: Seq<char>) -> Option<nat> {
    let body = if s.len() > 0 && s[0] == '+' {
        s.drop_first()
    } else {
        s
    };
    if body.len() > 0 && all_digits(body) {
        Some(decimal_value(body))
    } else {
        None
    }
}

proof fn lemma_value_grows(s: Seq<char>, n: int)
    requires
        all_digits(s),
        0 <= n <= s.len(),
    ensures
        decimal_value(s.take(n)) <= decimal_value(s),
    decreases s.len(),
{
    if n == s.len() {
        assert(s.take(n) =~= s);
    } else {
        assert(all_digits(s.drop_last()));
        lemma_value_grows(s.drop_last(), n);
        assert(s.drop_last().take(n) =~= s.take(n));
        assert(digit(s.last()));
    }
}

/// Reads an unsigned decimal number. `None` where the text is none, or where the
/// number exceeds 64 bits.
pub fn parse_unsigned(s: &str) -> (r: Option<u64>)
    ensures
        match r {
            Some(n) => unsigned_value(s@) == Some(n as nat),
            None => match unsigned_value(s@) {
                Some(n) => n > u64::MAX,
                None => true,
            },
        },
{
    let v = chars_of(s);
    let start: usize = if v.len() > 0 && v[0] == '+' {
        1
    } else {
        0
    };
    let ghost body = s@.skip(start as int);
    assert(start == 1 ==> body =~= s@.drop_first());
    assert(start == 0 ==> body =~= s@);
    if v.len() == start {
        return None;
    }
    let mut total: u64 = 0;
    let mut i: usize = start;
    assert(body.take(0) =~= Seq::empty());
    while i < v.len()
        invariant
            v@ == s@,
            start <= i <= v@.len(),
            body == s@.skip(start as int),
            unsigned_value(s@) == (if body.len() > 0 && all_digits(body) {
                Some(decimal_value(body))
            } else {
                None
            }),
            forall|k: int| start <= k < i ==> digit(v@[k]),
            total == decimal_value(body.take(i - start)),
        decreases v@.len() - i,
    {
        let c = v[i];
        if !is_digit(c) {
            assert(body[i - start] == c);
            return None;
        }
        let d: u64 = (c as u8 - 48) as u64;
        proof {
            let next = body.take(i + 1 - start);
            assert(next.drop_last() =~= body.take(i - start));
            assert(next.last() == c);
            if total * 10 + d > u64::MAX && all_digits(body) {
                lemma_value_grows(body, i + 1 - start);
            }
        }
        match total.checked_mul(10) {
            None => {
                return None;
            },
            Some(m) => {
                match m.checked_add(d) {
                    None => {
                        return None;
                    },
                    Some(t) => {
                        total = t;
                    },
                }
            },
        }
        i += 1;
    }
    proof {
        assert(body.take(i - start) =~= body);
        assert forall|k: int| 0 <= k < body.len() implies digit(#[trigger] body[k]) by {
            assert(digit(v@[k + start]));
        }
    }
    Some(total)
}

} // verus!
