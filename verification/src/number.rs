//! Numbers as text: decimal writing and hexadecimal reading.

use vstd::prelude::*;
use vstd::string::*;
use crate::text::chars_of;

verus! {

/// The character that stands for the decimal digit `d`.
pub open spec fn digit(d: nat) -> char {
    (0x30 + d) as char
}

/// `n` in decimal, without leading zeros.
pub open spec fn decimal(n: nat) -> Seq<char>
    decreases n,
{
    if n < 10 {
        seq![digit(n)]
    } else {
        decimal(n / 10).push(digit(n % 10))
    }
}

/// `n` in decimal, with a minus sign where it is negative.
pub open spec fn signed_decimal(n: int) -> Seq<char> {
    if n < 0 {
        seq!['-'] + decimal((-n) as nat)
    } else {
        decimal(n as nat)
    }
}

fn digit_text(d: u64) -> (r: &'static str)
    requires
        d < 10,
    ensures
        r@ == seq![digit(d as nat)],
{
    proof {
        reveal_strlit("0");
        reveal_strlit("1");
        reveal_strlit("2");
        reveal_strlit("3");
        reveal_strlit("4");
        reveal_strlit("5");
        reveal_strlit("6");
        reveal_strlit("7");
        reveal_strlit("8");
        reveal_strlit("9");
    }
    let r: &'static str = match d {
        0 => "0",
        1 => "1",
        2 => "2",
        3 => "3",
        4 => "4",
        5 => "5",
        6 => "6",
        7 => "7",
        8 => "8",
        _ => "9",
    };
    assert(r@ =~= seq![digit(d as nat)]);
    r
}

/// `n` in decimal.
pub fn to_decimal(n: u64) -> (r: String)
    ensures
        r@ == decimal(n as nat),
    decreases n,
{
    if n < 10 {
        digit_text(n).to_owned()
    } else {
        let mut r: String = to_decimal(n / 10);
        let ghost before = r@;
        r.append(digit_text(n % 10));
        assert(r@ =~= before.push(digit((n % 10) as nat)));
        r
    }
}

/// `n` in decimal, with a minus sign where it is negative.
pub fn to_signed_decimal(n: i64) -> (r: String)
    ensures
        r@ == signed_decimal(n as int),
{
    if n < 0 {
        proof {
            reveal_strlit("-");
        }
        let mut r: String = "-".to_owned();
        assert(r@ =~= seq!['-']);
        let size: u64 = if n == i64::MIN {
            0x8000_0000_0000_0000
        } else {
            (-n) as u64
        };
        r.append(to_decimal(size).as_str());
        r
    } else {
        to_decimal(n as u64)
    }
}

/// The value of `c` as a hexadecimal digit, of either case.
pub open spec fn hex_digit(c: char) -> Option<nat> {
    let u = c as u32;
    if 0x30 <= u <= 0x39 {
        Some((u - 0x30) as nat)
    } else if 0x41 <= u <= 0x46 {
        Some((u - 0x41 + 10) as nat)
    } else if 0x61 <= u <= 0x66 {
        Some((u - 0x61 + 10) as nat)
    } else {
        None
    }
}

/// Whether `s` is a run of one or more hexadecimal digits.
pub open spec fn is_hex(s: Seq<char>) -> bool {
    s.len() > 0 && forall|i: int| 0 <= i < s.len() ==> hex_digit(#[trigger] s[i]) is Some
}

/// The number that the hexadecimal digits of `s` write.
pub open spec fn hex_value(s: Seq<char>) -> nat
    decreases s.len(),
{
    if s.len() == 0 {
        0
    } else {
        hex_value(s.drop_last()) * 16 + hex_digit(s.last())->0
    }
}

proof fn lemma_hex_prefix(s: Seq<char>, n: int)
    requires
        0 <= n <= s.len(),
    ensures
        hex_value(s.take(n)) <= hex_value(s),
    decreases s.len(),
{
    if n == s.len() {
        assert(s.take(n) == s);
    } else {
        lemma_hex_prefix(s.drop_last(), n);
        assert(s.drop_last().take(n) == s.take(n));
    }
}

fn hex_digit_value(c: char) -> (r: Option<u64>)
    ensures
        r is Some <==> hex_digit(c) is Some,
        r matches Some(d) ==> d == hex_digit(c)->0 && d < 16,
{
    let u: u32 = c as u32;
    if 0x30 <= u && u <= 0x39 {
        Some((u - 0x30) as u64)
    } else if 0x41 <= u && u <= 0x46 {
        Some((u - 0x41 + 10) as u64)
    } else if 0x61 <= u && u <= 0x66 {
        Some((u - 0x61 + 10) as u64)
    } else {
        None
    }
}

/// Reads a run of hexadecimal digits: the number they write, where `s` is
/// such a run and the number fits.
pub fn from_hex(s: &str) -> (r: Option<u64>)
    ensures
        r == if is_hex(s@) && hex_value(s@) <= u64::MAX {
            Some(hex_value(s@) as u64)
        } else {
            None
        },
{
    let v: Vec<char> = chars_of(s);
    let n: usize = v.len();
    if n == 0 {
        return None;
    }
    let mut i: usize = 0;
    let mut value: u64 = 0;
    while i < n
        invariant
            v@ == s@,
            n == v.len(),
            i <= n,
            forall|k: int| 0 <= k < i ==> hex_digit(#[trigger] s@[k]) is Some,
            value == hex_value(s@.take(i as int)),
        decreases n - i,
    {
        match hex_digit_value(v[i]) {
            Some(d) => {
                assert(s@.take(i + 1).drop_last() == s@.take(i as int));
                assert(hex_value(s@.take(i + 1)) == value * 16 + d);
                if value > 0x0fff_ffff_ffff_ffff {
                    proof {
                        lemma_hex_prefix(s@, i + 1);
                    }
                    return None;
                }
                value = value * 16 + d;
            },
            None => {
                return None;
            },
        }
        i = i + 1;
    }
    assert(s@.take(n as int) == s@);
    Some(value)
}

/// The number that decimal digits write, where each of them is one.
pub open spec fn decimal_value(s: Seq<char>) -> Option<nat>
    decreases s.len(),
{
    if s.len() == 0 {
        Some(0)
    } else if '0' as int <= s.last() as int <= '9' as int {
        match decimal_value(s.drop_last()) {
            Some(n) => Some(10 * n + (s.last() as int - '0' as int) as nat),
            None => None,
        }
    } else {
        None
    }
}

/// A number that is written in decimal reads back, and begins with a zero
/// only where it is zero.
pub proof fn law_decimal_reads_back(n: nat)
    ensures
        decimal(n).len() > 0,
        decimal_value(decimal(n)) == Some(n),
        n > 0 ==> decimal(n)[0] != '0',
        n == 0 ==> decimal(n) == seq!['0'],
    decreases n,
{
    reveal_with_fuel(decimal_value, 2);
    if n < 10 {
        assert(decimal(n).drop_last() =~= Seq::empty());
    } else {
        law_decimal_reads_back(n / 10);
        assert(decimal(n).drop_last() =~= decimal(n / 10));
    }
}

/// A negative number is its size after a minus sign, and any other is
/// written without a sign.
pub proof fn law_signs_are_written(n: nat)
    ensures
        signed_decimal(n as int) == decimal(n),
        n > 0 ==> signed_decimal(-n) == seq!['-'] + decimal(n),
{
}

/// The hexadecimal digits of a number, in capitals or in small letters.
pub open spec fn hex_text(n: nat, capitals: bool) -> Seq<char>
    decreases n,
{
    let digits = if capitals {
        seq!['0', '1', '2', '3', '4', '5', '6', '7', '8', '9', 'A', 'B', 'C', 'D', 'E', 'F']
    } else {
        seq!['0', '1', '2', '3', '4', '5', '6', '7', '8', '9', 'a', 'b', 'c', 'd', 'e', 'f']
    };
    if n < 16 {
        seq![digits[n as int]]
    } else {
        hex_text(n / 16, capitals).push(digits[(n % 16) as int])
    }
}

/// A number that is written in hexadecimal reads back, in either case.
pub proof fn law_hex_reads_back(n: nat, capitals: bool)
    ensures
        is_hex(hex_text(n, capitals)),
        hex_value(hex_text(n, capitals)) == n,
    decreases n,
{
    let text = hex_text(n, capitals);
    reveal_with_fuel(hex_value, 2);
    if n < 16 {
        assert(text.drop_last() =~= Seq::empty());
    } else {
        law_hex_reads_back(n / 16, capitals);
        assert(text.drop_last() =~= hex_text(n / 16, capitals));
        assert forall|i: int| 0 <= i < text.len() implies hex_digit(#[trigger] text[i]) is Some by {
            if i < text.len() - 1 {
                assert(text[i] == hex_text(n / 16, capitals)[i]);
            }
        }
    }
}

/// Zeros in front do not change what hexadecimal digits write.
pub proof fn law_leading_zeros_do_not_count(s: Seq<char>)
    ensures
        hex_value(seq!['0'] + s) == hex_value(s),
        is_hex(s) ==> is_hex(seq!['0'] + s),
    decreases s.len(),
{
    let whole = seq!['0'] + s;
    if s.len() == 0 {
        assert(whole.drop_last() =~= Seq::empty());
        reveal_with_fuel(hex_value, 2);
    } else {
        law_leading_zeros_do_not_count(s.drop_last());
        assert(whole.drop_last() =~= seq!['0'] + s.drop_last());
    }
    if is_hex(s) {
        assert forall|i: int| 0 <= i < whole.len() implies hex_digit(#[trigger] whole[i]) is Some by {
            if i > 0 {
                assert(whole[i] == s[i - 1]);
            }
        }
    }
}

/// Nothing but the digits `0` to `9` and the letters `a` to `f` of either
/// case is hexadecimal.
pub proof fn law_other_characters_are_not_hexadecimal(c: char)
    ensures
        hex_digit(c) is Some <==> ('0' as int <= c as int <= '9' as int) || ('a' as int
            <= c as int <= 'f' as int) || ('A' as int <= c as int <= 'F' as int),
{
}

/// Each hexadecimal digit weighs sixteen times the next one, whatever its
/// case.
pub proof fn law_hex_digits_weigh_sixteen(s: Seq<char>, c: char)
    requires
        ('0' as int <= c as int <= '9' as int) || ('a' as int <= c as int <= 'f' as int) || (
        'A' as int <= c as int <= 'F' as int),
    ensures
        hex_value(s.push(c)) == 16 * hex_value(s) + if c as int <= '9' as int {
            c as int - '0' as int
        } else if c as int >= 'a' as int {
            c as int - 'a' as int + 10
        } else {
            c as int - 'A' as int + 10
        },
        hex_value(Seq::<char>::empty()) == 0,
        s.len() == 0 || is_hex(s) ==> is_hex(s.push(c)),
{
    assert(s.push(c).drop_last() =~= s);
    if s.len() == 0 || is_hex(s) {
        assert forall|i: int| 0 <= i < s.push(c).len() implies hex_digit(#[trigger] s.push(c)[i])
            is Some by {
            if i < s.len() {
                assert(s.push(c)[i] == s[i]);
            }
        }
    }
}

} // verus!
