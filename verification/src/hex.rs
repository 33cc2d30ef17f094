//! Hexadecimal text: a 64-bit value as sixteen lowercase digits, and the test
//! for a run of leading `'0'` characters that the proof-of-work rests on.

use vstd::prelude::*;
use vstd::string::*;

verus! {

/// Number of hexadecimal digits in a rendered 64-bit value.
pub const HEX_WIDTH: usize = 16;

/// The sixteen lowercase hexadecimal digits, in order of value.
pub open spec fn hex_alphabet() -> Seq<char> {
    seq!['0', '1', '2', '3', '4', '5', '6', '7', '8', '9', 'a', 'b', 'c', 'd', 'e', 'f']
}

/// The four bits of `value` at digit `position`, where position 0 is the most
/// significant digit and position 15 the least.
pub open spec fn nibble_at(value: u64, position: int) -> u64 {
    (value >> ((60 - 4 * position) as u64)) & 0xf
}

/// `value` as exactly sixteen lowercase hexadecimal digits, most significant
/// first, padded with `'0'` on the left.
pub open spec fn hex_digits(value: u64) -> Seq<char> {
    Seq::new(16, |position: int| hex_alphabet()[nibble_at(value, position) as int])
}

/// `text` begins with at least `count` characters `'0'`.
pub open spec fn has_leading_zeros(text: Seq<char>, count: nat) -> bool {
    &&& count <= text.len()
    &&& forall|i: int| 0 <= i < count ==> text[i] == '0'
}

/// Every nibble is below sixteen, so it always names a digit of the alphabet.
pub proof fn lemma_nibble_bound(value: u64, position: int)
    requires
        0 <= position < 16,
    ensures
        nibble_at(value, position) < 16,
{
    let shift = (60 - 4 * position) as u64;
    assert((value >> shift) & 0xf < 16) by (bit_vector);
}

/// A rendered value is sixteen characters long and each of them is a
/// lowercase hexadecimal digit.
pub proof fn lemma_hex_digits_shape(value: u64)
    ensures
        hex_digits(value).len() == 16,
        forall|i: int|
            0 <= i < 16 ==> hex_alphabet().contains(#[trigger] hex_digits(value)[i]),
{
    assert forall|i: int| 0 <= i < 16 implies hex_alphabet().contains(
        #[trigger] hex_digits(value)[i],
    ) by {
        lemma_nibble_bound(value, i);
        let n = nibble_at(value, i) as int;
        assert(hex_alphabet()[n] == hex_digits(value)[i]);
    }
}

/// The digits of the alphabet are pairwise distinct.
pub proof fn lemma_alphabet_distinct(m: int, n: int)
    requires
        0 <= m < 16,
        0 <= n < 16,
        hex_alphabet()[m] == hex_alphabet()[n],
    ensures
        m == n,
{
    let digits = hex_alphabet();
    assert(digits[0] == '0' && digits[1] == '1' && digits[2] == '2' && digits[3] == '3');
    assert(digits[4] == '4' && digits[5] == '5' && digits[6] == '6' && digits[7] == '7');
    assert(digits[8] == '8' && digits[9] == '9' && digits[10] == 'a' && digits[11] == 'b');
    assert(digits[12] == 'c' && digits[13] == 'd' && digits[14] == 'e' && digits[15] == 'f');
}

/// The rendering loses nothing: values with the same sixteen digits are the
/// same value.
pub proof fn lemma_hex_digits_injective(a: u64, b: u64)
    requires
        hex_digits(a) == hex_digits(b),
    ensures
        a == b,
{
    assert forall|i: int| 0 <= i < 16 implies nibble_at(a, i) == nibble_at(b, i) by {
        lemma_nibble_bound(a, i);
        lemma_nibble_bound(b, i);
        assert(hex_digits(a)[i] == hex_alphabet()[nibble_at(a, i) as int]);
        assert(hex_digits(b)[i] == hex_alphabet()[nibble_at(b, i) as int]);
        lemma_alphabet_distinct(nibble_at(a, i) as int, nibble_at(b, i) as int);
    }
    assert(nibble_at(a, 0) == nibble_at(b, 0));
    assert(nibble_at(a, 1) == nibble_at(b, 1));
    assert(nibble_at(a, 2) == nibble_at(b, 2));
    assert(nibble_at(a, 3) == nibble_at(b, 3));
    assert(nibble_at(a, 4) == nibble_at(b, 4));
    assert(nibble_at(a, 5) == nibble_at(b, 5));
    assert(nibble_at(a, 6) == nibble_at(b, 6));
    assert(nibble_at(a, 7) == nibble_at(b, 7));
    assert(nibble_at(a, 8) == nibble_at(b, 8));
    assert(nibble_at(a, 9) == nibble_at(b, 9));
    assert(nibble_at(a, 10) == nibble_at(b, 10));
    assert(nibble_at(a, 11) == nibble_at(b, 11));
    assert(nibble_at(a, 12) == nibble_at(b, 12));
    assert(nibble_at(a, 13) == nibble_at(b, 13));
    assert(nibble_at(a, 14) == nibble_at(b, 14));
    assert(nibble_at(a, 15) == nibble_at(b, 15));
    assert(a == b) by (bit_vector)
        requires
            (a >> 60) & 0xf == (b >> 60) & 0xf,
            (a >> 56) & 0xf == (b >> 56) & 0xf,
            (a >> 52) & 0xf == (b >> 52) & 0xf,
            (a >> 48) & 0xf == (b >> 48) & 0xf,
            (a >> 44) & 0xf == (b >> 44) & 0xf,
            (a >> 40) & 0xf == (b >> 40) & 0xf,
            (a >> 36) & 0xf == (b >> 36) & 0xf,
            (a >> 32) & 0xf == (b >> 32) & 0xf,
            (a >> 28) & 0xf == (b >> 28) & 0xf,
            (a >> 24) & 0xf == (b >> 24) & 0xf,
            (a >> 20) & 0xf == (b >> 20) & 0xf,
            (a >> 16) & 0xf == (b >> 16) & 0xf,
            (a >> 12) & 0xf == (b >> 12) & 0xf,
            (a >> 8) & 0xf == (b >> 8) & 0xf,
            (a >> 4) & 0xf == (b >> 4) & 0xf,
            (a >> 0) & 0xf == (b >> 0) & 0xf,
    ;
}

/// No rendered value has more than sixteen leading zeros, and every one has
/// at least none.
pub proof fn lemma_leading_zeros_range(value: u64, count: nat)
    ensures
        count == 0 ==> has_leading_zeros(hex_digits(value), count),
        count > 16 ==> !has_leading_zeros(hex_digits(value), count),
{
}

/// Renders `value` as sixteen lowercase hexadecimal digits.
pub fn to_hex(value: u64) -> (text: String)
    ensures
        text@ == hex_digits(value),
{
    let alphabet = "0123456789abcdef";
    proof {
        reveal_strlit("0123456789abcdef");
        assert(alphabet@ =~= hex_alphabet());
    }
    let mut text = String::new();
    let mut i: usize = 0;
    while i < 16
        invariant
            i <= 16,
            alphabet@ == hex_alphabet(),
            alphabet.is_ascii(),
            text@ == hex_digits(value).take(i as int),
        decreases 16 - i,
    {
        let shift: u64 = 60 - 4 * (i as u64);
        let nibble: u64 = (value >> shift) & 0xf;
        proof {
            lemma_nibble_bound(value, i as int);
        }
        let at: usize = nibble as usize;
        let digit = alphabet.substring_ascii(at, at + 1);
        text.append(digit);
        i += 1;
        assert(text@ =~= hex_digits(value).take(i as int));
    }
    assert(hex_digits(value).take(16) =~= hex_digits(value));
    text
}

/// Tells whether `text` begins with at least `count` characters `'0'`.
pub fn starts_with_zeros(text: &str, count: usize) -> (found: bool)
    ensures
        found == has_leading_zeros(text@, count as nat),
{
    let len = text.unicode_len();
    if count > len {
        return false;
    }
    let mut i: usize = 0;
    while i < count
        invariant
            i <= count <= len,
            len == text@.len(),
            forall|j: int| 0 <= j < i ==> text@[j] == '0',
        decreases count - i,
    {
        if text.get_char(i) != '0' {
            return false;
        }
        i += 1;
    }
    true
}

} // verus!
