//! Binary rendering of a line of input: each byte of the text, a trailing
//! newline excepted, becomes its base-two digits with no leading zeros,
//! and the digit runs are concatenated into one digit vector. A
//! right-shift on such a vector drops the last digit and refills on the
//! left with a zero.
use vstd::prelude::*;
use vstd::string::StrSliceExecFns;
use vstd::utf8::encode_utf8;

verus! {

/// The base-two digits of one byte, most significant first, with no
/// leading zeros; the byte zero is the single digit `'0'`.
pub open spec fn spec_bits(b: u8) -> Seq<char>
    decreases b,
{
    if b == 0 {
        seq!['0']
    } else if b == 1 {
        seq!['1']
    } else {
        spec_bits(b / 2).push(if b % 2 == 1 {
            '1'
        } else {
            '0'
        })
    }
}

/// The concatenated digit runs of a byte sequence.
pub open spec fn spec_binary_text(bytes: Seq<u8>) -> Seq<char>
    decreases bytes.len(),
{
    if bytes.len() == 0 {
        Seq::<char>::empty()
    } else {
        spec_binary_text(bytes.drop_last()) + spec_bits(bytes.last())
    }
}

/// A byte sequence with one trailing newline byte removed, if present.
pub open spec fn spec_strip_newline_byte(bytes: Seq<u8>) -> Seq<u8> {
    if bytes.len() > 0 && bytes.last() == 10 {
        bytes.drop_last()
    } else {
        bytes
    }
}

/// The digits of one byte, most significant first.
fn byte_bits(b: u8) -> (r: Vec<char>)
    ensures
        r@ == spec_bits(b),
    decreases b,
{
    if b == 0 {
        let mut v: Vec<char> = Vec::new();
        v.push('0');
        proof {
            assert(v@ =~= spec_bits(0));
        }
        v
    } else if b == 1 {
        let mut v: Vec<char> = Vec::new();
        v.push('1');
        proof {
            assert(v@ =~= spec_bits(1));
        }
        v
    } else {
        let mut v = byte_bits(b / 2);
        if b % 2 == 1 {
            v.push('1');
        } else {
            v.push('0');
        }
        v
    }
}

/// Renders a string's bytes as concatenated binary digit runs, ignoring a
/// trailing newline if the string ends in one.
pub fn convert_to_binary(string: &String) -> (r: Vec<char>)
    ensures
        r@ == spec_binary_text(spec_strip_newline_byte(encode_utf8(string@))),
{
    let mut bytes: Vec<u8> = string.as_str().as_bytes_vec();
    if bytes.len() > 0 && bytes[bytes.len() - 1] == 10 {
        bytes.pop();
        proof {
            assert(bytes@ =~= spec_strip_newline_byte(encode_utf8(string@)));
        }
    }
    let ghost target = spec_strip_newline_byte(encode_utf8(string@));
    let mut out: Vec<char> = Vec::new();
    let mut i: usize = 0;
    proof {
        assert(target.take(0) =~= Seq::<u8>::empty());
        assert(out@ =~= Seq::<char>::empty());
    }
    while i < bytes.len()
        invariant
            bytes@ == target,
            0 <= i <= bytes@.len(),
            out@ == spec_binary_text(target.take(i as int)),
        decreases bytes@.len() - i,
    {
        let mut bits = byte_bits(bytes[i]);
        proof {
            assert(target.take(i + 1).drop_last() =~= target.take(i as int));
            assert(target.take(i + 1).last() == target[i as int]);
        }
        out.append(&mut bits);
        i = i + 1;
    }
    proof {
        assert(target.take(target.len() as int) =~= target);
    }
    out
}

/// A digit vector shifted right by one place: the last digit falls off
/// and a `'0'` comes in on the left; the length is kept.
pub open spec fn spec_shift_right(digits: Seq<char>) -> Seq<char> {
    if digits.len() == 0 {
        digits
    } else {
        seq!['0'] + digits.drop_last()
    }
}

/// Shifts a digit vector right by one place.
pub fn bitwise_right_shift(char_vector: &Vec<char>) -> (r: Vec<char>)
    ensures
        r@ == spec_shift_right(char_vector@),
        r@.len() == char_vector@.len(),
{
    let mut shifted: Vec<char> = Vec::new();
    if char_vector.len() == 0 {
        proof {
            assert(shifted@ =~= spec_shift_right(char_vector@));
        }
        return shifted;
    }
    shifted.push('0');
    let mut i: usize = 1;
    while i < char_vector.len()
        invariant
            1 <= i <= char_vector@.len(),
            shifted@.len() == i,
            shifted@[0] == '0',
            forall|j: int| 1 <= j < i ==> shifted@[j] == char_vector@[j - 1],
        decreases char_vector@.len() - i,
    {
        shifted.push(char_vector[i - 1]);
        i = i + 1;
    }
    proof {
        assert(shifted@ =~= spec_shift_right(char_vector@));
    }
    shifted
}

} // verus!
