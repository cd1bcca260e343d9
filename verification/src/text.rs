//! Small text formats: lowercase hexadecimal, decimal numbers, substring
//! search.

use vstd::prelude::*;

verus! {

/// The lowercase hexadecimal digit of `n` (0 to 15).
pub open spec fn hex_digit(n: int) -> char {
    if n < 10 {
        (('0' as int) + n) as char
    } else {
        (('a' as int) + n - 10) as char
    }
}

/// The two lowercase hexadecimal digits of a byte.
pub open spec fn hex_byte(b: u8) -> Seq<char> {
    seq![hex_digit(b as int / 16), hex_digit(b as int % 16)]
}

/// The lowercase hexadecimal digits of the bytes, two per byte, in order.
pub open spec fn hex_bytes(bytes: Seq<u8>) -> Seq<char>
    decreases bytes.len(),
{
    if bytes.len() == 0 {
        Seq::empty()
    } else {
        hex_bytes(bytes.drop_last()) + hex_byte(bytes.last())
    }
}

/// The decimal digit of `n` (0 to 9).
pub open spec fn decimal_digit(n: int) -> char {
    (('0' as int) + n) as char
}

/// The decimal numeral of `n`, without leading zeros.
pub open spec fn decimal(n: nat) -> Seq<char>
    decreases n,
{
    if n < 10 {
        seq![decimal_digit(n as int)]
    } else {
        decimal(n / 10) + seq![decimal_digit(n as int % 10)]
    }
}

fn hex_digit_text(n: u8) -> (s: &'static str)
    requires
        n < 16,
    ensures
        s@ == seq![hex_digit(n as int)],
{
    match n {
        0 => { proof { reveal_strlit("0"); } "0" },
        1 => { proof { reveal_strlit("1"); } "1" },
        2 => { proof { reveal_strlit("2"); } "2" },
        3 => { proof { reveal_strlit("3"); } "3" },
        4 => { proof { reveal_strlit("4"); } "4" },
        5 => { proof { reveal_strlit("5"); } "5" },
        6 => { proof { reveal_strlit("6"); } "6" },
        7 => { proof { reveal_strlit("7"); } "7" },
        8 => { proof { reveal_strlit("8"); } "8" },
        9 => { proof { reveal_strlit("9"); } "9" },
        10 => { proof { reveal_strlit("a"); } "a" },
        11 => { proof { reveal_strlit("b"); } "b" },
        12 => { proof { reveal_strlit("c"); } "c" },
        13 => { proof { reveal_strlit("d"); } "d" },
        14 => { proof { reveal_strlit("e"); } "e" },
        _ => { proof { reveal_strlit("f"); } "f" },
    }
}

/// Appends the two lowercase hexadecimal digits of `b`.
pub fn push_hex_byte(out: &mut String, b: u8)
    ensures
        final(out)@ == old(out)@ + hex_byte(b),
{
    out.append(hex_digit_text(b / 16));
    out.append(hex_digit_text(b % 16));
    assert(out@ =~= old(out)@ + hex_byte(b));
}

/// The decimal numeral of a byte.
pub fn decimal_u8(n: u8) -> (s: String)
    ensures
        s@ == decimal(n as nat),
{
    let mut s = String::new();
    if n >= 100 {
        s.append(hex_digit_text(n / 100));
        s.append(hex_digit_text((n / 10) % 10));
        s.append(hex_digit_text(n % 10));
        proof {
            assert((n / 10) / 10 == n / 100);
            assert(decimal((n / 100) as nat) == seq![decimal_digit((n / 100) as int)]);
            assert(decimal((n / 10) as nat) =~= decimal((n / 100) as nat) + seq![decimal_digit((n / 10) as int % 10)]);
            assert(decimal(n as nat) =~= decimal((n / 10) as nat) + seq![decimal_digit(n as int % 10)]);
            assert(s@ =~= decimal(n as nat));
        }
    } else if n >= 10 {
        s.append(hex_digit_text(n / 10));
        s.append(hex_digit_text(n % 10));
        proof {
            assert(decimal((n / 10) as nat) == seq![decimal_digit((n / 10) as int)]);
            assert(decimal(n as nat) =~= decimal((n / 10) as nat) + seq![decimal_digit(n as int % 10)]);
            assert(s@ =~= decimal(n as nat));
        }
    } else {
        s.append(hex_digit_text(n));
        assert(s@ =~= decimal(n as nat));
    }
    s
}

/// `c` occurs in `s`.
pub fn contains_char(s: &str, c: char) -> (res: bool)
    ensures
        res == s@.contains(c),
{
    let n = s.unicode_len();
    let mut i: usize = 0;
    while i < n
        invariant
            n == s@.len(),
            i <= n,
            forall|j: int| 0 <= j < i ==> s@[j] != c,
        decreases n - i,
    {
        if s.get_char(i) == c {
            return true;
        }
        i = i + 1;
    }
    false
}

} // verus!
