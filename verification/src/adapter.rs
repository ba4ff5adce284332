//! Bluetooth adapter names (`hci0`, `hci1`, ...).

use vstd::prelude::*;
use vstd::string::*;
use crate::text::{dec_digit, decimal};

verus! {

/// Whether a character is an ASCII decimal digit.
pub open spec fn is_digit(c: char) -> bool {
    '0' <= c <= '9'
}

/// The value of a string of decimal digits.
pub open spec fn digits_value(d: Seq<char>) -> int
    decreases d.len(),
{
    if d.len() == 0 {
        0
    } else {
        digits_value(d.drop_last()) * 10 + (d.last() as int - '0' as int)
    }
}

/// Whether every character is a decimal digit.
pub open spec fn all_digits(d: Seq<char>) -> bool {
    forall|i: int| 0 <= i < d.len() ==> is_digit(#[trigger] d[i])
}

/// The digits of an unsigned number: what follows a leading `+`, if there is
/// anything after it.
pub open spec fn unsigned_digits(t: Seq<char>) -> Seq<char> {
    if t.len() >= 2 && t[0] == '+' {
        t.drop_first()
    } else {
        t
    }
}

/// What `u16::from_str` gives for `t`: an optional `+` followed by at least
/// one decimal digit and nothing else, whose value fits in a `u16`.
pub open spec fn parse_u16(t: Seq<char>) -> Option<u16> {
    let d = unsigned_digits(t);
    if d.len() == 0 || !all_digits(d) || digits_value(d) > u16::MAX {
        None
    } else {
        Some(digits_value(d) as u16)
    }
}

/// The adapter index that a name of the form `hci<N>` gives.
pub open spec fn adapter_index(name: Seq<char>) -> Option<u16> {
    if name.len() >= 3 && name[0] == 'h' && name[1] == 'c' && name[2] == 'i' {
        parse_u16(name.skip(3))
    } else {
        None
    }
}

proof fn lemma_digits_value_nonneg(d: Seq<char>)
    requires
        forall|i: int| 0 <= i < d.len() ==> is_digit(#[trigger] d[i]),
    ensures
        digits_value(d) >= 0,
    decreases d.len(),
{
    if d.len() > 0 {
        lemma_digits_value_nonneg(d.drop_last());
    }
}

/// Parse the index out of an adapter name such as `hci0`.
pub fn parse_adapter_index(name: &str) -> (idx: Option<u16>)
    ensures
        idx == adapter_index(name@),
{
    let n: usize = name.unicode_len();
    if n < 3 || name.get_char(0) != 'h' || name.get_char(1) != 'c' || name.get_char(2) != 'i' {
        return None;
    }
    let ghost t = name@.skip(3);
    let mut start: usize = 3;
    if n >= 5 && name.get_char(3) == '+' {
        start = 4;
    }
    let ghost d = unsigned_digits(t);
    assert(d =~= name@.skip(start as int));
    assert(adapter_index(name@) == parse_u16(t));
    if start == n {
        return None;
    }
    let mut value: u32 = 0;
    let mut i: usize = start;
    while i < n
        invariant
            n == name@.len(),
            start <= i <= n,
            d == name@.skip(start as int),
            d == unsigned_digits(t),
            adapter_index(name@) == parse_u16(t),
            d.len() > 0,
            forall|k: int| 0 <= k < i - start ==> is_digit(#[trigger] d[k]),
            value == digits_value(d.take(i - start)),
            value <= u16::MAX,
        decreases n - i,
    {
        let c: char = name.get_char(i);
        assert(d[i - start] == c);
        if c < '0' || c > '9' {
            assert(!is_digit(d[i - start]));
            return None;
        }
        let digit: u32 = (c as u32) - ('0' as u32);
        assert(d.take(i + 1 - start).drop_last() =~= d.take(i - start));
        if value > (65535 - digit) / 10 {
            proof {
                let v = value as int;
                let g = digit as int;
                assert(v * 10 + g > 65535) by (nonlinear_arith)
                    requires
                        v > (65535 - g) / 10,
                        0 <= g <= 9,
                ;
                assert(digits_value(d.take(i + 1 - start)) == v * 10 + g);
                if all_digits(d) {
                    lemma_digits_prefix_bound(d, i + 1 - start);
                }
            }
            return None;
        }
        value = value * 10 + digit;
        i = i + 1;
    }
    assert(d.take(n - start) =~= d);
    Some(value as u16)
}

/// A longer run of digits is worth at least ten times as much, so once a
/// prefix overflows the whole does.
proof fn lemma_digits_prefix_bound(d: Seq<char>, k: int)
    requires
        0 <= k <= d.len(),
        forall|i: int| 0 <= i < d.len() ==> is_digit(#[trigger] d[i]),
    ensures
        digits_value(d) >= digits_value(d.take(k)),
    decreases d.len(),
{
    if k < d.len() {
        assert(d.drop_last().take(k) =~= d.take(k));
        assert forall|i: int| 0 <= i < d.drop_last().len() implies is_digit(#[trigger] d.drop_last()[i]) by {
            assert(d.drop_last()[i] == d[i]);
        }
        lemma_digits_prefix_bound(d.drop_last(), k);
        lemma_digits_value_nonneg(d.drop_last());
    } else {
        assert(d.take(k) =~= d);
    }
}

proof fn lemma_decimal_digits(n: nat)
    ensures
        decimal(n).len() >= 1,
        all_digits(decimal(n)),
        digits_value(decimal(n)) == n,
    decreases n,
{
    let c = dec_digit(n % 10);
    assert(c as int == n % 10 + 48);
    if n >= 10 {
        lemma_decimal_digits(n / 10);
        let d = decimal(n / 10);
        assert(decimal(n) == d.push(c));
        assert(d.push(c).drop_last() =~= d);
        assert(digits_value(d.push(c)) == digits_value(d) * 10 + (c as int - '0' as int));
        assert(('0' as int) == 48);
        assert((n / 10) * 10 + n % 10 == n);
        assert forall|i: int| 0 <= i < d.push(c).len() implies is_digit(#[trigger] d.push(c)[i]) by {
            if i < d.len() {
                assert(d.push(c)[i] == d[i]);
            }
        }
    } else {
        assert(decimal(n) == seq![c]);
        assert(seq![c].drop_last() =~= Seq::<char>::empty());
        assert(digits_value(seq![c]) == digits_value(Seq::<char>::empty()) * 10 + (c as int - '0' as int));
        assert(('0' as int) == 48);
    }
}

/// The adapter named `hci` followed by a number's decimal numeral has that
/// number as its index.
pub proof fn adapter_name_round_trip(n: u16)
    ensures
        adapter_index(seq!['h', 'c', 'i'] + decimal(n as nat)) == Some(n),
{
    lemma_decimal_digits(n as nat);
    let name = seq!['h', 'c', 'i'] + decimal(n as nat);
    let t = name.skip(3);
    assert(t =~= decimal(n as nat));
    assert(is_digit(t[0]));
    assert(unsigned_digits(t) == t);
}

} // verus!
