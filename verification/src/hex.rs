//! Uppercase hexadecimal encoding and decoding of byte strings, used to
//! carry public keys and signatures inside transaction fields.

use vstd::prelude::*;
use vstd::string::StringExecFns;
use vstd::string::StrSliceExecFns;
use vstd::pervasive::VecAdditionalExecFns;
use crate::codec::dec_digit;

verus! {

/// The uppercase hexadecimal digit character for a value below sixteen.
pub open spec fn hex_digit(d: int) -> char {
    if d < 10 {
        dec_digit(d)
    } else if d == 10 {
        'A'
    } else if d == 11 {
        'B'
    } else if d == 12 {
        'C'
    } else if d == 13 {
        'D'
    } else if d == 14 {
        'E'
    } else {
        'F'
    }
}

/// Uppercase hexadecimal rendering of a byte string, two digits per byte.
pub open spec fn hex_upper_of(bs: Seq<u8>) -> Seq<char>
    decreases bs.len(),
{
    if bs.len() == 0 {
        Seq::empty()
    } else {
        hex_upper_of(bs.drop_last()) + seq![
            hex_digit((bs.last() / 16) as int),
            hex_digit((bs.last() % 16) as int),
        ]
    }
}

/// A character the decoder reads correctly: a decimal digit or an uppercase
/// hexadecimal letter.
pub open spec fn is_hex_char(c: char) -> bool {
    (48 <= c as u32 && c as u32 <= 57) || (65 <= c as u32 && c as u32 <= 70)
}

/// The value of a hexadecimal character, as the decoder computes it.
pub open spec fn hex_char_value(c: char) -> int {
    if c as u32 <= 57 {
        c as u32 - 48
    } else {
        c as u32 - 55
    }
}

/// A string the decoder accepts: uppercase hexadecimal characters only, and
/// no more of them than fill the fixed 64-byte decode buffer.
pub open spec fn hex_decodable(s: Seq<char>) -> bool {
    s.len() <= 128 && (forall|i: int| 0 <= i < s.len() ==> is_hex_char(#[trigger] s[i]))
}

/// Byte `j` of the fixed 64-byte decode of `s`: two characters give high and
/// low nibble; positions past the string's end read as zero.
pub open spec fn decoded_byte(s: Seq<char>, j: int) -> u8 {
    let hi = if 2 * j < s.len() {
        hex_char_value(s[2 * j])
    } else {
        0
    };
    let lo = if 2 * j + 1 < s.len() {
        hex_char_value(s[2 * j + 1])
    } else {
        0
    };
    (hi * 16 + lo) as u8
}

/// The fixed 64-byte buffer that decoding a hexadecimal string fills.
pub open spec fn hex_decode64(s: Seq<char>) -> Seq<u8> {
    Seq::new(64, |j: int| decoded_byte(s, j))
}

fn hex_digit_str(d: u8) -> (r: &'static str)
    requires
        d < 16,
    ensures
        r@ == seq![hex_digit(d as int)],
{
    if d < 10 {
        crate::codec::digit_str(d as u64)
    } else if d == 10 {
        proof {
            reveal_strlit("A");
            assert("A"@ =~= seq![hex_digit(10int)]);
        }
        "A"
    } else if d == 11 {
        proof {
            reveal_strlit("B");
            assert("B"@ =~= seq![hex_digit(11int)]);
        }
        "B"
    } else if d == 12 {
        proof {
            reveal_strlit("C");
            assert("C"@ =~= seq![hex_digit(12int)]);
        }
        "C"
    } else if d == 13 {
        proof {
            reveal_strlit("D");
            assert("D"@ =~= seq![hex_digit(13int)]);
        }
        "D"
    } else if d == 14 {
        proof {
            reveal_strlit("E");
            assert("E"@ =~= seq![hex_digit(14int)]);
        }
        "E"
    } else {
        proof {
            reveal_strlit("F");
            assert("F"@ =~= seq![hex_digit(15int)]);
        }
        "F"
    }
}

/// Renders a byte string as uppercase hexadecimal, two digits per byte.
pub fn u8_to_string(array: &[u8]) -> (r: String)
    ensures
        r@ == hex_upper_of(array@),
{
    let mut s = String::new();
    let mut i: usize = 0;
    while i < array.len()
        invariant
            i <= array@.len(),
            s@ == hex_upper_of(array@.take(i as int)),
        decreases array@.len() - i,
    {
        let b = array[i];
        s.append(hex_digit_str(b / 16));
        s.append(hex_digit_str(b % 16));
        i = i + 1;
        proof {
            assert(array@.take(i as int).drop_last() =~= array@.take(i as int - 1));
            assert(array@.take(i as int).last() == array@[i as int - 1]);
            assert(s@ =~= hex_upper_of(array@.take(i as int)));
        }
    }
    proof {
        assert(array@.take(array@.len() as int) =~= array@);
    }
    s
}

/// Whether the decoder accepts this string.
pub fn check_hex_decodable(s: &str) -> (r: bool)
    ensures
        r == hex_decodable(s@),
{
    let n = s.unicode_len();
    if n > 128 {
        return false;
    }
    let mut i: usize = 0;
    while i < n
        invariant
            i <= n,
            n == s@.len(),
            forall|k: int| 0 <= k < i ==> is_hex_char(#[trigger] s@[k]),
        decreases n - i,
    {
        let c = s.get_char(i);
        let v = c as u32;
        if !((48 <= v && v <= 57) || (65 <= v && v <= 70)) {
            proof {
                assert(!is_hex_char(s@[i as int]));
            }
            return false;
        }
        i = i + 1;
    }
    true
}

fn hex_char_to_value(c: char) -> (r: u8)
    requires
        is_hex_char(c),
    ensures
        r as int == hex_char_value(c),
        r < 16,
{
    let v = c as u32;
    if v <= 57 {
        (v - 48) as u8
    } else {
        (v - 55) as u8
    }
}

/// Decodes an uppercase hexadecimal string into the fixed 64-byte buffer,
/// high nibble first; bytes past the string's end stay zero.
pub fn string_to_u8(ss: &str) -> (r: Vec<u8>)
    requires
        hex_decodable(ss@),
    ensures
        r@ == hex_decode64(ss@),
{
    let n = ss.unicode_len();
    let mut v: Vec<u8> = Vec::new();
    while v.len() < 64
        invariant
            v@.len() <= 64,
            forall|k: int| 0 <= k < v@.len() ==> v@[k] == 0u8,
        decreases 64 - v@.len(),
    {
        v.push(0u8);
    }
    let mut j: usize = 0;
    while 2 * j < n
        invariant
            n == ss@.len(),
            n <= 128,
            hex_decodable(ss@),
            v@.len() == 64,
            j <= 64,
            forall|k: int| 0 <= k < j ==> v@[k] == decoded_byte(ss@, k),
            forall|k: int| j <= k < 64 ==> v@[k] == 0u8,
        decreases 64 - j,
    {
        let hi = hex_char_to_value(ss.get_char(2 * j));
        let lo = if 2 * j + 1 < n {
            hex_char_to_value(ss.get_char(2 * j + 1))
        } else {
            0u8
        };
        v.set(j, hi * 16 + lo);
        j = j + 1;
    }
    proof {
        assert forall|k: int| 0 <= k < 64 implies v@[k] == decoded_byte(ss@, k) by {
            if k >= j {
                assert(2 * k >= n);
            }
        }
        assert(v@ =~= hex_decode64(ss@));
    }
    v
}

/// Hexadecimal rendering writes two characters per byte.
pub proof fn lemma_hex_upper_len(bs: Seq<u8>)
    ensures
        hex_upper_of(bs).len() == 2 * bs.len(),
    decreases bs.len(),
{
    if bs.len() > 0 {
        lemma_hex_upper_len(bs.drop_last());
    }
}

proof fn lemma_hex_digit_value(d: int)
    requires
        0 <= d < 16,
    ensures
        is_hex_char(hex_digit(d)),
        hex_char_value(hex_digit(d)) == d,
{
}

/// Encoding a byte string as uppercase hexadecimal and decoding it again
/// gives the bytes back: the decoder reads every encoded byte exactly, and
/// the rest of its fixed buffer stays zero.
pub proof fn lemma_hex_round_trip(bs: Seq<u8>)
    requires
        bs.len() <= 64,
    ensures
        hex_decodable(hex_upper_of(bs)),
        forall|j: int| 0 <= j < bs.len() ==> decoded_byte(hex_upper_of(bs), j) == bs[j],
        forall|j: int| bs.len() <= j < 64 ==> decoded_byte(hex_upper_of(bs), j) == 0,
    decreases bs.len(),
{
    lemma_hex_upper_len(bs);
    let s = hex_upper_of(bs);
    if bs.len() == 0 {
        assert forall|j: int| 0 <= j < 64 implies decoded_byte(s, j) == 0 by {
            assert(2 * j >= s.len());
        }
    } else {
        let prefix_bytes = bs.drop_last();
        let prefix = hex_upper_of(prefix_bytes);
        lemma_hex_round_trip(prefix_bytes);
        lemma_hex_upper_len(prefix_bytes);
        let b = bs.last();
        lemma_hex_digit_value((b / 16) as int);
        lemma_hex_digit_value((b % 16) as int);
        assert forall|i: int| 0 <= i < s.len() implies is_hex_char(#[trigger] s[i]) by {
            if i < prefix.len() {
                assert(s[i] == prefix[i]);
            }
        }
        assert forall|j: int| 0 <= j < bs.len() implies decoded_byte(s, j) == bs[j] by {
            if j < bs.len() - 1 {
                assert(s[2 * j] == prefix[2 * j]);
                assert(s[2 * j + 1] == prefix[2 * j + 1]);
                assert(decoded_byte(prefix, j) == prefix_bytes[j]);
            } else {
                assert(s[2 * j] == hex_digit((b / 16) as int));
                assert(s[2 * j + 1] == hex_digit((b % 16) as int));
                assert(16 * ((b / 16) as int) + (b % 16) as int == b as int);
            }
        }
        assert forall|j: int| bs.len() <= j < 64 implies decoded_byte(s, j) == 0 by {
            assert(2 * j >= s.len());
        }
    }
}

/// Copies the first `n` bytes of a buffer.
pub fn vec_prefix(v: &Vec<u8>, n: usize) -> (r: Vec<u8>)
    requires
        n <= v@.len(),
    ensures
        r@ == v@.take(n as int),
{
    let mut r: Vec<u8> = Vec::new();
    let mut i: usize = 0;
    while i < n
        invariant
            i <= n <= v@.len(),
            r@ == v@.take(i as int),
        decreases n - i,
    {
        r.push(v[i]);
        i = i + 1;
        proof {
            assert(r@ =~= v@.take(i as int));
        }
    }
    r
}

} // verus!
