//! Numeric operands travel as upper-case hexadecimal text with no prefix and
//! no leading zeros.

use vstd::prelude::*;

verus! {

/// The upper-case hexadecimal digit for a value below sixteen.
pub open spec fn hex_digit(d: nat) -> char {
    if d < 10 {
        ((d + 48) as u8) as char
    } else {
        ((d + 55) as u8) as char
    }
}

/// Upper-case hexadecimal text of `n`: no prefix, no padding, `0` for zero.
pub open spec fn hex_of(n: nat) -> Seq<char>
    decreases n,
{
    if n < 16 {
        seq![hex_digit(n)]
    } else {
        hex_of(n / 16) + seq![hex_digit(n % 16)]
    }
}

/// The one-character string holding the digit for `d`.
fn digit_text(d: u64) -> (r: String)
    requires
        d < 16,
    ensures
        r@ == seq![hex_digit(d as nat)],
{
    let table = "0123456789ABCDEF";
    proof {
        reveal_strlit("0123456789ABCDEF");
    }
    let c = table.substring_char(d as usize, d as usize + 1);
    assert(c@ =~= seq![hex_digit(d as nat)]) by {
        assert(c@[0] == table@[d as int]);
        assert(table@[d as int] == hex_digit(d as nat)) by {
            if d == 0 { } else if d == 1 { } else if d == 2 { } else if d == 3 { }
            else if d == 4 { } else if d == 5 { } else if d == 6 { } else if d == 7 { }
            else if d == 8 { } else if d == 9 { } else if d == 10 { } else if d == 11 { }
            else if d == 12 { } else if d == 13 { } else if d == 14 { } else { }
        }
    }
    String::from_str(c)
}

/// Formats `n` as upper-case hexadecimal with no prefix and no padding.
pub fn hex_upper(n: u64) -> (r: String)
    ensures
        r@ == hex_of(n as nat),
{
    let mut rest: u64 = n;
    let mut acc = String::new();
    loop
        invariant
            hex_of(n as nat) == hex_of(rest as nat) + acc@,
        decreases rest,
    {
        let d = rest % 16;
        let digit = digit_text(d);
        proof {
            if rest >= 16 {
                assert(hex_of(rest as nat) == hex_of((rest / 16) as nat) + seq![hex_digit((rest % 16) as nat)]);
                assert(hex_of(n as nat) =~= hex_of((rest / 16) as nat) + (digit@ + acc@));
            } else {
                assert(hex_of(rest as nat) == seq![hex_digit(rest as nat)]);
                assert(hex_of(n as nat) =~= digit@ + acc@);
            }
        }
        acc = digit.concat(acc.as_str());
        if rest < 16 {
            return acc;
        }
        rest = rest / 16;
    }
}

} // verus!
