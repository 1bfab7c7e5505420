//! Textual rendering of payload values: decimal numbers, signed numbers,
//! and space-separated lowercase two-digit hex dumps, together with the
//! text decoding of raw identifier and string bytes.

use vstd::prelude::*;
use vstd::string::StringExecFns;

verus! {

/// The decimal digit character of a value below ten.
pub open spec fn spec_digit(d: int) -> char {
    if d == 0 {
        '0'
    } else if d == 1 {
        '1'
    } else if d == 2 {
        '2'
    } else if d == 3 {
        '3'
    } else if d == 4 {
        '4'
    } else if d == 5 {
        '5'
    } else if d == 6 {
        '6'
    } else if d == 7 {
        '7'
    } else if d == 8 {
        '8'
    } else {
        '9'
    }
}

/// The lowercase hex digit character of a value below sixteen.
pub open spec fn spec_hex_digit(d: int) -> char {
    if d < 10 {
        spec_digit(d)
    } else if d == 10 {
        'a'
    } else if d == 11 {
        'b'
    } else if d == 12 {
        'c'
    } else if d == 13 {
        'd'
    } else if d == 14 {
        'e'
    } else {
        'f'
    }
}

/// The decimal rendering of a natural number, most significant digit first,
/// without leading zeroes (a single `0` for zero).
pub open spec fn spec_dec(n: nat) -> Seq<char>
    decreases n,
{
    if n < 10 {
        seq![spec_digit(n as int)]
    } else {
        spec_dec(n / 10) + seq![spec_digit((n % 10) as int)]
    }
}

/// The decimal rendering of an integer: a minus sign before the magnitude
/// when negative.
pub open spec fn spec_int_str(v: int) -> Seq<char> {
    if v >= 0 {
        spec_dec(v as nat)
    } else {
        seq!['-'] + spec_dec((-v) as nat)
    }
}

/// The two lowercase hex digits of one byte.
pub open spec fn spec_hex_byte(b: u8) -> Seq<char> {
    seq![spec_hex_digit((b >> 4) as int), spec_hex_digit((b & 0x0f) as int)]
}

/// Hex dump with a single space between bytes and none before the first.
pub open spec fn spec_hex_join(s: Seq<u8>) -> Seq<char>
    decreases s.len(),
{
    if s.len() == 0 {
        Seq::<char>::empty()
    } else if s.len() == 1 {
        spec_hex_byte(s[0])
    } else {
        spec_hex_join(s.drop_last()) + seq![' '] + spec_hex_byte(s.last())
    }
}

/// Hex dump with a space before every byte, the first included.
pub open spec fn spec_hex_trail(s: Seq<u8>) -> Seq<char>
    decreases s.len(),
{
    if s.len() == 0 {
        Seq::<char>::empty()
    } else {
        spec_hex_trail(s.drop_last()) + seq![' '] + spec_hex_byte(s.last())
    }
}

fn digit_str(d: u8) -> (r: &'static str)
    requires
        d < 10,
    ensures
        r@ == seq![spec_digit(d as int)],
{
    match d {
        0 => {
            proof {
                reveal_strlit("0");
                assert("0"@ =~= seq![spec_digit(0)]);
            }
            "0"
        },
        1 => {
            proof {
                reveal_strlit("1");
                assert("1"@ =~= seq![spec_digit(1)]);
            }
            "1"
        },
        2 => {
            proof {
                reveal_strlit("2");
                assert("2"@ =~= seq![spec_digit(2)]);
            }
            "2"
        },
        3 => {
            proof {
                reveal_strlit("3");
                assert("3"@ =~= seq![spec_digit(3)]);
            }
            "3"
        },
        4 => {
            proof {
                reveal_strlit("4");
                assert("4"@ =~= seq![spec_digit(4)]);
            }
            "4"
        },
        5 => {
            proof {
                reveal_strlit("5");
                assert("5"@ =~= seq![spec_digit(5)]);
            }
            "5"
        },
        6 => {
            proof {
                reveal_strlit("6");
                assert("6"@ =~= seq![spec_digit(6)]);
            }
            "6"
        },
        7 => {
            proof {
                reveal_strlit("7");
                assert("7"@ =~= seq![spec_digit(7)]);
            }
            "7"
        },
        8 => {
            proof {
                reveal_strlit("8");
                assert("8"@ =~= seq![spec_digit(8)]);
            }
            "8"
        },
        _ => {
            proof {
                reveal_strlit("9");
                assert("9"@ =~= seq![spec_digit(9)]);
            }
            "9"
        },
    }
}

fn hex_digit_str(d: u8) -> (r: &'static str)
    requires
        d < 16,
    ensures
        r@ == seq![spec_hex_digit(d as int)],
{
    if d < 10 {
        digit_str(d)
    } else {
        match d {
            10 => {
                proof {
                    reveal_strlit("a");
                    assert("a"@ =~= seq![spec_hex_digit(10)]);
                }
                "a"
            },
            11 => {
                proof {
                    reveal_strlit("b");
                    assert("b"@ =~= seq![spec_hex_digit(11)]);
                }
                "b"
            },
            12 => {
                proof {
                    reveal_strlit("c");
                    assert("c"@ =~= seq![spec_hex_digit(12)]);
                }
                "c"
            },
            13 => {
                proof {
                    reveal_strlit("d");
                    assert("d"@ =~= seq![spec_hex_digit(13)]);
                }
                "d"
            },
            14 => {
                proof {
                    reveal_strlit("e");
                    assert("e"@ =~= seq![spec_hex_digit(14)]);
                }
                "e"
            },
            _ => {
                proof {
                    reveal_strlit("f");
                    assert("f"@ =~= seq![spec_hex_digit(15)]);
                }
                "f"
            },
        }
    }
}

/// The decimal text of an unsigned value.
pub fn dec_u128(n: u128) -> (s: String)
    ensures
        s@ == spec_dec(n as nat),
    decreases n,
{
    if n < 10 {
        String::from_str(digit_str(n as u8))
    } else {
        proof {
            assert(n / 10 < n) by (nonlinear_arith)
                requires
                    n >= 10,
            ;
        }
        let mut s = dec_u128(n / 10);
        s.append(digit_str((n % 10) as u8));
        s
    }
}

/// Appends the decimal text of a signed value given as a negation flag and
/// a magnitude.
pub fn push_signed(out: &mut String, negative: bool, magnitude: u128)
    requires
        negative ==> magnitude >= 1,
    ensures
        final(out)@ == old(out)@ + spec_int_str(
            if negative {
                -(magnitude as int)
            } else {
                magnitude as int
            },
        ),
{
    if negative {
        proof {
            reveal_strlit("-");
            assert("-"@ =~= seq!['-']);
        }
        out.append("-");
    }
    let d = dec_u128(magnitude);
    out.append(d.as_str());
    proof {
        assert(out@ =~= old(out)@ + spec_int_str(
            if negative {
                -(magnitude as int)
            } else {
                magnitude as int
            },
        ));
    }
}

/// Appends ` xx` for every byte of `v` in `[from, v.len())`.
pub fn push_hex_trail(out: &mut String, v: &Vec<u8>, from: usize)
    requires
        from <= v@.len(),
    ensures
        final(out)@ == old(out)@ + spec_hex_trail(v@.subrange(from as int, v@.len() as int)),
{
    let n = v.len();
    let mut i: usize = from;
    proof {
        assert(v@.subrange(from as int, from as int) =~= Seq::<u8>::empty());
    }
    while i < n
        invariant
            from <= i <= n == v@.len(),
            out@ == old(out)@ + spec_hex_trail(v@.subrange(from as int, i as int)),
        decreases n - i,
    {
        push_hex_byte_sp(out, v[i]);
        proof {
            let t = v@.subrange(from as int, i + 1);
            assert(t.drop_last() =~= v@.subrange(from as int, i as int));
            assert(t.last() == v@[i as int]);
            assert(out@ =~= old(out)@ + spec_hex_trail(t));
        }
        i += 1;
    }
}

/// Appends `xx` pairs separated by single spaces for the bytes of `v` in
/// `[from, to)`, without a space before the first.
pub fn push_hex_join(out: &mut String, v: &Vec<u8>, from: usize, to: usize)
    requires
        from <= to <= v@.len(),
    ensures
        final(out)@ == old(out)@ + spec_hex_join(v@.subrange(from as int, to as int)),
{
    let mut i: usize = from;
    proof {
        assert(v@.subrange(from as int, from as int) =~= Seq::<u8>::empty());
    }
    while i < to
        invariant
            from <= i <= to <= v@.len(),
            out@ == old(out)@ + spec_hex_join(v@.subrange(from as int, i as int)),
        decreases to - i,
    {
        if i == from {
            push_hex_byte(out, v[i]);
        } else {
            push_hex_byte_sp(out, v[i]);
        }
        proof {
            let t = v@.subrange(from as int, i + 1);
            assert(t.drop_last() =~= v@.subrange(from as int, i as int));
            assert(t.last() == v@[i as int]);
            if i == from {
                assert(t =~= seq![v@[i as int]]);
            }
            assert(out@ =~= old(out)@ + spec_hex_join(t));
        }
        i += 1;
    }
}

/// Appends the two hex digits of one byte.
fn push_hex_byte(out: &mut String, b: u8)
    ensures
        final(out)@ == old(out)@ + spec_hex_byte(b),
{
    proof {
        assert((b >> 4) < 16 && (b & 0x0f) < 16) by (bit_vector);
    }
    out.append(hex_digit_str(b >> 4));
    out.append(hex_digit_str(b & 0x0f));
    proof {
        assert(out@ =~= old(out)@ + spec_hex_byte(b));
    }
}

/// Appends a space and the two hex digits of one byte.
fn push_hex_byte_sp(out: &mut String, b: u8)
    ensures
        final(out)@ == old(out)@ + seq![' '] + spec_hex_byte(b),
{
    proof {
        reveal_strlit(" ");
        assert(" "@ =~= seq![' ']);
    }
    out.append(" ");
    push_hex_byte(out, b);
    proof {
        assert(out@ =~= old(out)@ + seq![' '] + spec_hex_byte(b));
    }
}

/// What `String::from_utf8_lossy` decodes a byte sequence to: UTF-8 text
/// with invalid sequences replaced. The text depends on the bytes alone.
pub uninterp spec fn utf8_lossy_of(s: Seq<u8>) -> Seq<char>;

/// Relies on `String::from_utf8_lossy`: decodes bytes as UTF-8, replacing
/// invalid sequences; the result is a function of the bytes alone.
#[verifier::external_body]
pub fn utf8_lossy(bytes: &Vec<u8>) -> (r: String)
    ensures
        r@ == utf8_lossy_of(bytes@),
{
    String::from_utf8_lossy(bytes).into_owned()
}

} // verus!
