//! Verified decimal and hexadecimal formatting of integers.
//!
//! The spec functions here define, character by character, the strings that
//! the rendering code emits for numeric attribute values.

use vstd::prelude::*;
use vstd::string::StringExecFns;

verus! {

/// The decimal digit character for a value in 0..=9.
pub open spec fn dec_digit(d: int) -> char {
    if d == 0 {
        '0'
    } else if d == 1 {
        '1'
    } else if d == 2 {
        '2'
    } else if d == 3 {
        '3'
    } else if d == 4 {
        '4'
    } else if d == 5 {
        '5'
    } else if d == 6 {
        '6'
    } else if d == 7 {
        '7'
    } else if d == 8 {
        '8'
    } else {
        '9'
    }
}

/// The decimal rendering of a natural number, most significant digit first,
/// without leading zeros (0 renders as "0").
pub open spec fn dec_str_nat(n: nat) -> Seq<char>
    decreases n,
{
    if n < 10 {
        seq![dec_digit(n as int)]
    } else {
        dec_str_nat(n / 10).push(dec_digit((n % 10) as int))
    }
}

/// The decimal rendering of an integer: a leading '-' for negative values.
pub open spec fn dec_str_int(x: int) -> Seq<char> {
    if x >= 0 {
        dec_str_nat(x as nat)
    } else {
        seq!['-'] + dec_str_nat((-x) as nat)
    }
}

/// The hexadecimal digit character for a value in 0..=15, uppercase.
pub open spec fn hex_digit(d: int) -> char {
    if d < 10 {
        dec_digit(d)
    } else if d == 10 {
        'A'
    } else if d == 11 {
        'B'
    } else if d == 12 {
        'C'
    } else if d == 13 {
        'D'
    } else if d == 14 {
        'E'
    } else {
        'F'
    }
}

/// The uppercase hexadecimal digits of a natural number, most significant
/// first, without leading zeros (0 renders as "0").
pub open spec fn hex_str_nat(n: nat) -> Seq<char>
    decreases n,
{
    if n < 16 {
        seq![hex_digit(n as int)]
    } else {
        hex_str_nat(n / 16).push(hex_digit((n % 16) as int))
    }
}

/// The hexadecimal literal form of a natural number: "0x" then the digits.
pub open spec fn hex_lit(n: nat) -> Seq<char> {
    seq!['0', 'x'] + hex_str_nat(n)
}

fn dec_digit_str(d: u64) -> (r: &'static str)
    requires
        d < 10,
    ensures
        r@ == seq![dec_digit(d as int)],
{
    match d {
        0 => {
            proof {
                reveal_strlit("0");
                assert("0"@ =~= seq![dec_digit(0)]);
            }
            "0"
        },
        1 => {
            proof {
                reveal_strlit("1");
                assert("1"@ =~= seq![dec_digit(1)]);
            }
            "1"
        },
        2 => {
            proof {
                reveal_strlit("2");
                assert("2"@ =~= seq![dec_digit(2)]);
            }
            "2"
        },
        3 => {
            proof {
                reveal_strlit("3");
                assert("3"@ =~= seq![dec_digit(3)]);
            }
            "3"
        },
        4 => {
            proof {
                reveal_strlit("4");
                assert("4"@ =~= seq![dec_digit(4)]);
            }
            "4"
        },
        5 => {
            proof {
                reveal_strlit("5");
                assert("5"@ =~= seq![dec_digit(5)]);
            }
            "5"
        },
        6 => {
            proof {
                reveal_strlit("6");
                assert("6"@ =~= seq![dec_digit(6)]);
            }
            "6"
        },
        7 => {
            proof {
                reveal_strlit("7");
                assert("7"@ =~= seq![dec_digit(7)]);
            }
            "7"
        },
        8 => {
            proof {
                reveal_strlit("8");
                assert("8"@ =~= seq![dec_digit(8)]);
            }
            "8"
        },
        _ => {
            proof {
                reveal_strlit("9");
                assert("9"@ =~= seq![dec_digit(9)]);
            }
            "9"
        },
    }
}

fn hex_digit_str(d: u64) -> (r: &'static str)
    requires
        d < 16,
    ensures
        r@ == seq![hex_digit(d as int)],
{
    if d < 10 {
        dec_digit_str(d)
    } else {
        match d {
            10 => {
                proof {
                    reveal_strlit("A");
                    assert("A"@ =~= seq![hex_digit(10)]);
                }
                "A"
            },
            11 => {
                proof {
                    reveal_strlit("B");
                    assert("B"@ =~= seq![hex_digit(11)]);
                }
                "B"
            },
            12 => {
                proof {
                    reveal_strlit("C");
                    assert("C"@ =~= seq![hex_digit(12)]);
                }
                "C"
            },
            13 => {
                proof {
                    reveal_strlit("D");
                    assert("D"@ =~= seq![hex_digit(13)]);
                }
                "D"
            },
            14 => {
                proof {
                    reveal_strlit("E");
                    assert("E"@ =~= seq![hex_digit(14)]);
                }
                "E"
            },
            _ => {
                proof {
                    reveal_strlit("F");
                    assert("F"@ =~= seq![hex_digit(15)]);
                }
                "F"
            },
        }
    }
}

/// Appends the decimal rendering of `n` to `out`.
pub fn push_dec_u64(out: &mut String, n: u64)
    ensures
        final(out)@ == old(out)@ + dec_str_nat(n as nat),
    decreases n,
{
    if n >= 10 {
        push_dec_u64(out, n / 10);
        let d = dec_digit_str(n % 10);
        out.append(d);
        proof {
            assert(out@ =~= old(out)@ + dec_str_nat(n as nat));
        }
    } else {
        let d = dec_digit_str(n);
        out.append(d);
        proof {
            assert(out@ =~= old(out)@ + dec_str_nat(n as nat));
        }
    }
}

/// Appends the decimal rendering of `x` to `out`, with a '-' when negative.
pub fn push_dec_i64(out: &mut String, x: i64)
    ensures
        final(out)@ == old(out)@ + dec_str_int(x as int),
{
    if x >= 0 {
        push_dec_u64(out, x as u64);
    } else {
        proof {
            reveal_strlit("-");
            assert("-"@ =~= seq!['-']);
        }
        out.append("-");
        let m: u64 = ((-(x + 1)) as u64) + 1;
        assert(m as int == -(x as int));
        push_dec_u64(out, m);
        proof {
            assert(out@ =~= old(out)@ + dec_str_int(x as int));
        }
    }
}

fn push_hex_digits(out: &mut String, n: u64)
    ensures
        final(out)@ == old(out)@ + hex_str_nat(n as nat),
    decreases n,
{
    if n >= 16 {
        push_hex_digits(out, n / 16);
        let d = hex_digit_str(n % 16);
        out.append(d);
        proof {
            assert(out@ =~= old(out)@ + hex_str_nat(n as nat));
        }
    } else {
        let d = hex_digit_str(n);
        out.append(d);
        proof {
            assert(out@ =~= old(out)@ + hex_str_nat(n as nat));
        }
    }
}

/// Appends the hexadecimal literal rendering of `n` ("0x" then uppercase
/// digits) to `out`.
pub fn push_hex_u32(out: &mut String, n: u32)
    ensures
        final(out)@ == old(out)@ + hex_lit(n as nat),
{
    proof {
        reveal_strlit("0x");
        assert("0x"@ =~= seq!['0', 'x']);
    }
    out.append("0x");
    push_hex_digits(out, n as u64);
    proof {
        assert(out@ =~= old(out)@ + hex_lit(n as nat));
    }
}

} // verus!
