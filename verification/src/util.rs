//! Plain-value parsing helpers behind the interactive test bench: decimal
//! bytes and hexadecimal color strings.

use vstd::prelude::*;

verus! {

/// Error returned when a string does not parse as hexadecimal bytes.
#[derive(Debug, Clone, Copy, PartialEq, Eq, Structural)]
pub struct HexError;

/// Whether `c` is a hexadecimal digit, in either case.
pub open spec fn is_hex_digit(c: char) -> bool {
    (48 <= c as u32 && c as u32 <= 57)  // '0' ..= '9'
    || (97 <= c as u32 && c as u32 <= 102)  // 'a' ..= 'f'
    || (65 <= c as u32 && c as u32 <= 70)  // 'A' ..= 'F'
}

/// The value of the hexadecimal digit `c`.
pub open spec fn hex_digit_val(c: char) -> u8 {
    if 48 <= c as u32 && c as u32 <= 57 {
        (c as u32 - 48) as u8
    } else if 97 <= c as u32 && c as u32 <= 102 {
        (c as u32 - 87) as u8
    } else {
        (c as u32 - 55) as u8
    }
}

/// The byte a pair of characters stands for, if any. As the standard
/// radix-16 integer parse does, a pair may lead with a plus sign followed by
/// a single digit.
pub open spec fn hex_pair_val(c0: char, c1: char) -> Option<u8> {
    if c0 as u32 == 43 {  // '+'
        if is_hex_digit(c1) {
            Some(hex_digit_val(c1))
        } else {
            None
        }
    } else if is_hex_digit(c0) && is_hex_digit(c1) {
        Some((16 * hex_digit_val(c0) + hex_digit_val(c1)) as u8)
    } else {
        None
    }
}

/// The bytes an even-length string of characters stands for, pair by pair, or
/// `None` if any pair is not a valid hexadecimal byte.
pub open spec fn hex_bytes(s: Seq<char>) -> Option<Seq<u8>>
    decreases s.len(),
{
    if s.len() == 0 {
        Some(Seq::empty())
    } else if s.len() == 1 {
        None
    } else {
        match hex_pair_val(s[0], s[1]) {
            None => None,
            Some(b) => match hex_bytes(s.skip(2)) {
                None => None,
                Some(rest) => Some(seq![b] + rest),
            },
        }
    }
}

/// Parse a single hexadecimal digit.
fn hex_digit(c: char) -> (r: Option<u8>)
    ensures
        r is Some <==> is_hex_digit(c),
        r is Some ==> r->0 == hex_digit_val(c),
{
    let v = c as u32;
    if 48 <= v && v <= 57 {
        Some((v - 48) as u8)
    } else if 97 <= v && v <= 102 {
        Some((v - 87) as u8)
    } else if 65 <= v && v <= 70 {
        Some((v - 55) as u8)
    } else {
        None
    }
}

/// Take a textual representation of hexadecimal values and convert it to a
/// series of bytes. The input must hold an even number of ASCII characters;
/// any character pair that is not a hexadecimal byte is an error.
pub fn decode_hex(s: &str) -> (r: Result<Vec<u8>, HexError>)
    requires
        s@.len() % 2 == 0,
        s.is_ascii(),
    ensures
        r is Ok ==> hex_bytes(s@) == Some((r->Ok_0)@),
        r is Err ==> hex_bytes(s@) is None,
{
    let k = s.unicode_len();
    let mut out: Vec<u8> = Vec::new();
    let mut i: usize = 0;
    proof {
        assert(s@.skip(0) =~= s@);
        if hex_bytes(s@) is Some {
            assert(Seq::<u8>::empty() + hex_bytes(s@)->0 =~= hex_bytes(s@)->0);
        }
    }
    while i < k
        invariant
            k == s@.len(),
            i <= k,
            i % 2 == 0,
            k % 2 == 0,
            hex_bytes(s@) is Some <==> hex_bytes(s@.skip(i as int)) is Some,
            hex_bytes(s@) is Some ==> hex_bytes(s@)->0 == out@ + hex_bytes(s@.skip(i as int))->0,
        decreases k - i,
    {
        let c0 = s.get_char(i);
        let c1 = s.get_char(i + 1);
        let ghost rem = s@.skip(i as int);
        proof {
            assert(rem.len() >= 2);
            assert(rem[0] == s@[i as int]);
            assert(rem[1] == s@[i as int + 1]);
            assert(rem.skip(2) =~= s@.skip(i as int + 2));
        }
        let byte = if c0 as u32 == 43 {
            match hex_digit(c1) {
                Some(v) => v,
                None => {
                    proof {
                        assert(hex_pair_val(rem[0], rem[1]) is None);
                        assert(hex_bytes(rem) is None);
                    }
                    return Err(HexError);
                },
            }
        } else {
            let hi = match hex_digit(c0) {
                Some(v) => v,
                None => {
                    proof {
                        assert(hex_pair_val(rem[0], rem[1]) is None);
                        assert(hex_bytes(rem) is None);
                    }
                    return Err(HexError);
                },
            };
            let lo = match hex_digit(c1) {
                Some(v) => v,
                None => {
                    proof {
                        assert(hex_pair_val(rem[0], rem[1]) is None);
                        assert(hex_bytes(rem) is None);
                    }
                    return Err(HexError);
                },
            };
            16 * hi + lo
        };
        let ghost out0 = out@;
        out.push(byte);
        proof {
            assert(hex_pair_val(rem[0], rem[1]) == Some(byte));
            if hex_bytes(s@.skip(i as int + 2)) is Some {
                let rest = hex_bytes(s@.skip(i as int + 2))->0;
                assert(hex_bytes(rem)->0 == seq![byte] + rest);
                assert(out0 + (seq![byte] + rest) =~= out@ + rest);
            }
        }
        i = i + 2;
    }
    proof {
        assert(s@.skip(k as int) =~= Seq::<char>::empty());
        assert(hex_bytes(s@.skip(k as int)) == Some(Seq::<u8>::empty()));
        assert(hex_bytes(s@) is Some);
        assert(hex_bytes(s@)->0 =~= out@);
    }
    Ok(out)
}

/// The decimal digits of a character sequence folded into a number, most
/// significant first. Meaningful when every character is a decimal digit.
pub open spec fn dec_val(s: Seq<char>) -> int
    decreases s.len(),
{
    if s.len() == 0 {
        0
    } else {
        dec_val(s.drop_last()) * 10 + (s.last() as u32 - 48)
    }
}

/// Whether every character of `s` is a decimal digit.
pub open spec fn all_dec_digits(s: Seq<char>) -> bool {
    forall|i: int| 0 <= i < s.len() ==> 48 <= #[trigger] (s[i] as u32) <= 57
}

/// The byte a decimal string stands for, as the standard unsigned integer
/// parse reads it: an optional leading plus sign, then at least one digit,
/// rejecting values over 255.
pub open spec fn dec_u8_of(s: Seq<char>) -> Option<u8> {
    let t = if s.len() >= 1 && s[0] as u32 == 43 {
        s.skip(1)
    } else {
        s
    };
    if t.len() == 0 {
        None
    } else if !all_dec_digits(t) {
        None
    } else if dec_val(t) > 255 {
        None
    } else {
        Some(dec_val(t) as u8)
    }
}

/// A longer run of decimal digits never stands for a smaller number.
proof fn lemma_dec_val_grows(s: Seq<char>, j: int)
    requires
        0 <= j <= s.len(),
        all_dec_digits(s),
    ensures
        dec_val(s.take(j)) <= dec_val(s),
        dec_val(s) >= 0,
    decreases s.len() - j,
{
    if j == s.len() {
        assert(s.take(j) =~= s);
        lemma_dec_val_nonneg(s);
    } else {
        lemma_dec_val_grows(s, j + 1);
        lemma_dec_val_nonneg(s.take(j));
        assert(s.take(j + 1).drop_last() =~= s.take(j));
        assert(s.take(j + 1).last() == s[j]);
        assert(dec_val(s.take(j + 1)) == dec_val(s.take(j)) * 10 + (s[j] as u32 - 48));
    }
}

/// A run of decimal digits stands for a non-negative number.
proof fn lemma_dec_val_nonneg(s: Seq<char>)
    requires
        all_dec_digits(s),
    ensures
        dec_val(s) >= 0,
    decreases s.len(),
{
    if s.len() > 0 {
        assert(all_dec_digits(s.drop_last()));
        lemma_dec_val_nonneg(s.drop_last());
    }
}

/// Parse a decimal byte, as `input_u8` hands typed input to the instruction
/// builders: an optional leading plus sign, then decimal digits, `None` on
/// anything else or on a value over 255.
pub fn parse_u8(s: &str) -> (r: Option<u8>)
    ensures
        r == dec_u8_of(s@),
{
    let k = s.unicode_len();
    if k == 0 {
        return None;
    }
    let first = s.get_char(0);
    let start: usize = if first as u32 == 43 {
        1
    } else {
        0
    };
    let ghost t = if start == 1 {
        s@.skip(1)
    } else {
        s@
    };
    proof {
        assert(s@.skip(0) =~= s@);
        assert(t.len() == k - start);
    }
    if k == start {
        return None;
    }
    let mut acc: u32 = 0;
    let mut i: usize = start;
    proof {
        assert(t.take(0) =~= Seq::<char>::empty());
    }
    while i < k
        invariant
            k == s@.len(),
            start <= i <= k,
            start <= 1,
            k > start,
            (start == 1) <==> (s@.len() >= 1 && s@[0] as u32 == 43),
            t == (if start == 1 {
                s@.skip(1)
            } else {
                s@
            }),
            t.len() == k - start,
            forall|m: int| 0 <= m < i - start ==> 48 <= #[trigger] (t[m] as u32) <= 57,
            acc == dec_val(t.take(i - start)),
            acc <= 255,
        decreases k - i,
    {
        let c = s.get_char(i);
        let v = c as u32;
        proof {
            assert(t[i - start] == s@[i as int]);
        }
        if v < 48 || v > 57 {
            proof {
                assert(!all_dec_digits(t));
            }
            return None;
        }
        proof {
            assert(t.take(i - start + 1).drop_last() =~= t.take(i - start));
            assert(t.take(i - start + 1).last() == t[i - start]);
        }
        acc = acc * 10 + (v - 48);
        if acc > 255 {
            proof {
                assert(forall|m: int| 0 <= m < i - start + 1 ==> 48 <= #[trigger] (t[m] as u32)
                    <= 57);
                if all_dec_digits(t) {
                    lemma_dec_val_grows(t, i - start + 1);
                }
            }
            return None;
        }
        i = i + 1;
    }
    proof {
        assert(t.take(k - start) =~= t);
        assert(all_dec_digits(t));
    }
    Some(acc as u8)
}

} // verus!
