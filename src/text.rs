//! Building text out of verified pieces.

use vstd::prelude::*;
use vstd::string::*;

verus! {

/// The character of a hexadecimal digit `n` (below 16), upper or lower case.
pub open spec fn hex_char(n: u8, upper: bool) -> char {
    if n < 10 {
        (48 + n) as char
    } else if upper {
        (55 + n) as char
    } else {
        (87 + n) as char
    }
}

/// A byte as two hexadecimal digits.
pub open spec fn hex2(b: u8, upper: bool) -> Seq<char> {
    seq![hex_char(b / 16, upper), hex_char(b % 16, upper)]
}

/// A hexadecimal digit as text.
fn hex_digit_str(n: u8, upper: bool) -> (r: &'static str)
    requires
        n < 16,
    ensures
        r@ == seq![hex_char(n, upper)],
{
    if n == 0 {
        proof {
            reveal_strlit("0");
        }
        return "0";
    }
    if n == 1 {
        proof {
            reveal_strlit("1");
        }
        return "1";
    }
    if n == 2 {
        proof {
            reveal_strlit("2");
        }
        return "2";
    }
    if n == 3 {
        proof {
            reveal_strlit("3");
        }
        return "3";
    }
    if n == 4 {
        proof {
            reveal_strlit("4");
        }
        return "4";
    }
    if n == 5 {
        proof {
            reveal_strlit("5");
        }
        return "5";
    }
    if n == 6 {
        proof {
            reveal_strlit("6");
        }
        return "6";
    }
    if n == 7 {
        proof {
            reveal_strlit("7");
        }
        return "7";
    }
    if n == 8 {
        proof {
            reveal_strlit("8");
        }
        return "8";
    }
    if n == 9 {
        proof {
            reveal_strlit("9");
        }
        return "9";
    }
    if n == 10 {
        if upper {
            proof {
                reveal_strlit("A");
            }
            return "A";
        } else {
            proof {
                reveal_strlit("a");
            }
            return "a";
        }
    }
    if n == 11 {
        if upper {
            proof {
                reveal_strlit("B");
            }
            return "B";
        } else {
            proof {
                reveal_strlit("b");
            }
            return "b";
        }
    }
    if n == 12 {
        if upper {
            proof {
                reveal_strlit("C");
            }
            return "C";
        } else {
            proof {
                reveal_strlit("c");
            }
            return "c";
        }
    }
    if n == 13 {
        if upper {
            proof {
                reveal_strlit("D");
            }
            return "D";
        } else {
            proof {
                reveal_strlit("d");
            }
            return "d";
        }
    }
    if n == 14 {
        if upper {
            proof {
                reveal_strlit("E");
            }
            return "E";
        } else {
            proof {
                reveal_strlit("e");
            }
            return "e";
        }
    }
    proof {
        reveal_strlit("F");
        reveal_strlit("f");
    }
    if upper {
        "F"
    } else {
        "f"
    }
}

/// Appends a byte as two hexadecimal digits.
pub fn push_hex2(out: &mut String, b: u8, upper: bool)
    ensures
        final(out)@ == old(out)@ + hex2(b, upper),
{
    out.append(hex_digit_str(b / 16, upper));
    out.append(hex_digit_str(b % 16, upper));
    assert(out@ =~= old(out)@ + hex2(b, upper));
}

/// The characters of a text.
pub fn chars_of(text: &str) -> (r: Vec<char>)
    ensures
        r@ == text@,
{
    let n = text.unicode_len();
    let mut chars: Vec<char> = Vec::new();
    let mut k: usize = 0;
    while k < n
        invariant
            k <= n,
            n == text@.len(),
            chars@ == text@.subrange(0, k as int),
        decreases n - k,
    {
        chars.push(text.get_char(k));
        assert(chars@ =~= text@.subrange(0, k + 1));
        k = k + 1;
    }
    assert(chars@ =~= text@);
    chars
}

} // verus!
