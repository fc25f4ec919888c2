//! The hyphenated text form of a UUID (`xxxxxxxx-xxxx-xxxx-xxxx-xxxxxxxxxxxx`,
//! lower-case hexadecimal), held as 128 bits most significant nibble first,
//! and the exact inverse that reads that form back.

use vstd::prelude::*;

verus! {

/// Lower-case hexadecimal digit of a nibble.
pub open spec fn hex_char(n: u128) -> char {
    if n < 10 {
        (n + 48) as char
    } else {
        (n + 87) as char
    }
}

/// Value of a lower-case hexadecimal digit.
pub open spec fn hex_value(c: char) -> Option<u128> {
    if '0' <= c && c <= '9' {
        Some((c as u128 - 48) as u128)
    } else if 'a' <= c && c <= 'f' {
        Some((c as u128 - 87) as u128)
    } else {
        None
    }
}

/// Nibble `k` (0 is the most significant) of 128 bits.
pub open spec fn nibble(bits: u128, k: int) -> u128 {
    (bits >> (4 * (31 - k)) as u128) & 0xfu128
}

/// Whether position `i` of the hyphenated form holds a hyphen.
pub open spec fn is_hyphen_position(i: int) -> bool {
    i == 8 || i == 13 || i == 18 || i == 23
}

/// The nibble shown at (non-hyphen) position `i` of the hyphenated form.
pub open spec fn nibble_index(i: int) -> int {
    if i < 8 {
        i
    } else if i < 13 {
        i - 1
    } else if i < 18 {
        i - 2
    } else if i < 23 {
        i - 3
    } else {
        i - 4
    }
}

/// The hyphenated lower-case text of a UUID, as `uuid::Uuid`'s `Display` writes it.
pub open spec fn hyphenated(bits: u128) -> Seq<char> {
    Seq::new(
        36,
        |i: int|
            if is_hyphen_position(i) {
                '-'
            } else {
                hex_char(nibble(bits, nibble_index(i)))
            },
    )
}

/// Whether a text is in hyphenated lower-case UUID form.
pub open spec fn is_hyphenated_text(s: Seq<char>) -> bool {
    &&& s.len() == 36
    &&& forall|i: int|
        0 <= i < 36 ==> if is_hyphen_position(i) {
            s[i] == '-'
        } else {
            hex_value(#[trigger] s[i]) is Some
        }
}

/// The position in the hyphenated form of nibble `k`.
pub open spec fn char_position(k: int) -> int {
    if k < 8 {
        k
    } else if k < 12 {
        k + 1
    } else if k < 16 {
        k + 2
    } else if k < 20 {
        k + 3
    } else {
        k + 4
    }
}

/// The digit value of nibble `k` in a hyphenated text.
pub open spec fn digit_of(s: Seq<char>, k: int) -> u128 {
    match hex_value(s[char_position(k)]) {
        Some(v) => v,
        None => 0,
    }
}

/// The value of the first `j` nibbles of a hyphenated text.
pub open spec fn value_of_prefix(s: Seq<char>, j: nat) -> u128
    decreases j,
{
    if j == 0 {
        0
    } else {
        ((value_of_prefix(s, (j - 1) as nat) << 4u128) | digit_of(s, j - 1)) as u128
    }
}

/// What reading a hyphenated UUID text gives: the bits it shows, or `None`
/// for a text that is not in that form.
pub open spec fn parse_hyphenated(s: Seq<char>) -> Option<u128> {
    if is_hyphenated_text(s) {
        Some(value_of_prefix(s, 32))
    } else {
        None
    }
}

/// The digit of a value below 16 reads back to that value.
pub proof fn lemma_hex_roundtrip(n: u128)
    requires
        n < 16,
    ensures
        hex_value(hex_char(n)) == Some(n),
{
}

proof fn lemma_hex_char_of_value(c: char)
    requires
        hex_value(c) is Some,
    ensures
        hex_char(hex_value(c).unwrap()) == c,
        hex_value(c).unwrap() < 16,
{
}

proof fn lemma_nibble_small(bits: u128, k: int)
    requires
        0 <= k < 32,
    ensures
        nibble(bits, k) < 16,
{
    let s = (4 * (31 - k)) as u128;
    assert((bits >> s) & 0xfu128 < 16) by (bit_vector);
}

proof fn lemma_positions(i: int)
    requires
        0 <= i < 36,
        !is_hyphen_position(i),
    ensures
        0 <= nibble_index(i) < 32,
        char_position(nibble_index(i)) == i,
{
}

proof fn lemma_positions_inverse(k: int)
    requires
        0 <= k < 32,
    ensures
        0 <= char_position(k) < 36,
        !is_hyphen_position(char_position(k)),
        nibble_index(char_position(k)) == k,
{
}

/// Shifting in one more nibble keeps the earlier nibbles, one place higher.
proof fn lemma_shift_in(acc: u128, d: u128, s: u128)
    requires
        d < 16,
        s <= 120,
    ensures
        (((acc << 4u128) | d) >> (s + 4)) & 0xfu128 == (acc >> s) & 0xfu128,
        ((acc << 4u128) | d) & 0xfu128 == d,
{
    let t: u128 = (s + 4) as u128;
    assert((((acc << 4u128) | d) >> t) & 0xfu128 == (acc >> s) & 0xfu128) by (bit_vector)
        requires
            d < 16,
            s <= 120u128,
            t == s + 4u128,
    ;
    assert(((acc << 4u128) | d) & 0xfu128 == d) by (bit_vector)
        requires
            d < 16,
    ;
}

proof fn lemma_shift_bound(acc: u128, d: u128, s: u128)
    requires
        d < 16,
        s + 4 <= 128,
        acc >> s == 0,
    ensures
        ((acc << 4u128) | d) >> (s + 4) == 0,
{
    assert(((acc << 4u128) | d) >> (s + 4) == 0) by (bit_vector)
        requires
            d < 16,
            s + 4 <= 128,
            acc >> s == 0,
    ;
}

/// The value of the first `j` nibbles shows those nibbles' digits.
proof fn lemma_prefix_digits(s: Seq<char>, j: nat)
    requires
        j <= 32,
        is_hyphenated_text(s),
    ensures
        value_of_prefix(s, j) >> (4 * j) as u128 == 0,
        forall|k: int| 0 <= k < j ==> #[trigger] ((value_of_prefix(s, j) >> (4 * (j - 1 - k)) as u128) & 0xfu128) == digit_of(s, k),
    decreases j,
{
    if j == 0 {
        assert(0u128 >> 0u128 == 0) by (bit_vector);
    } else {
        let jp = (j - 1) as nat;
        lemma_prefix_digits(s, jp);
        let acc = value_of_prefix(s, jp);
        let d = digit_of(s, j - 1);
        assert(d < 16) by {
            lemma_positions_inverse(j - 1);
            lemma_hex_char_of_value(s[char_position(j - 1)]);
        }
        lemma_shift_bound(acc, d, (4 * jp) as u128);
        assert forall|k: int| 0 <= k < j implies #[trigger] ((value_of_prefix(s, j) >> (4 * (j - 1 - k)) as u128) & 0xfu128) == digit_of(s, k) by {
            if k == j - 1 {
                lemma_shift_in(acc, d, 0);
                assert(((acc << 4u128) | d) >> 0u128 == ((acc << 4u128) | d)) by (bit_vector);
            } else {
                lemma_shift_in(acc, d, (4 * (jp - 1 - k)) as u128);
                assert((4 * (jp - 1 - k)) as u128 + 4 == (4 * (j - 1 - k)) as u128);
            }
        }
    }
}

/// A text in hyphenated form shows exactly the bits read from it.
pub proof fn lemma_parse_then_show(s: Seq<char>)
    requires
        is_hyphenated_text(s),
    ensures
        hyphenated(value_of_prefix(s, 32)) == s,
{
    let b = value_of_prefix(s, 32);
    lemma_prefix_digits(s, 32);
    assert forall|i: int| 0 <= i < 36 implies hyphenated(b)[i] == s[i] by {
        if !is_hyphen_position(i) {
            let k = nibble_index(i);
            lemma_positions(i);
            assert(nibble(b, k) == ((b >> (4 * (32 - 1 - k)) as u128) & 0xfu128));
            assert(nibble(b, k) == digit_of(s, k));
            lemma_hex_char_of_value(s[i]);
        }
    }
    assert(hyphenated(b) =~= s);
}

/// Reading the first `j` nibbles of the text of `b` gives the top `j` nibbles of `b`.
proof fn lemma_show_then_prefix(b: u128, j: nat)
    requires
        j <= 32,
    ensures
        value_of_prefix(hyphenated(b), j) == b >> (4 * (32 - j)) as u128,
    decreases j,
{
    let s = hyphenated(b);
    if j == 0 {
        assert(b >> 128u128 == 0) by (bit_vector);
    } else {
        let jp = (j - 1) as nat;
        lemma_show_then_prefix(b, jp);
        let k = j - 1;
        lemma_positions_inverse(k);
        lemma_nibble_small(b, k);
        lemma_hex_roundtrip(nibble(b, k));
        assert(digit_of(s, k) == nibble(b, k));
        let t = (4 * (32 - j)) as u128;
        assert((4 * (32 - jp)) as u128 == t + 4);
        assert(nibble(b, k) == (b >> t) & 0xfu128);
        assert((((b >> (t + 4)) << 4u128) | ((b >> t) & 0xfu128)) == b >> t) by (bit_vector)
            requires
                t + 4 <= 128,
        ;
    }
}

/// Reading back the hyphenated text of a UUID gives the UUID, and a text is
/// read to a UUID exactly when it is that UUID's hyphenated text.
pub proof fn lemma_hyphenated_roundtrip(b: u128, s: Seq<char>)
    ensures
        parse_hyphenated(hyphenated(b)) == Some(b),
        parse_hyphenated(s) == Some(b) <==> s == hyphenated(b),
{
    let h = hyphenated(b);
    assert(is_hyphenated_text(h)) by {
        assert forall|i: int| 0 <= i < 36 && !is_hyphen_position(i) implies hex_value(#[trigger] h[i]) is Some by {
            lemma_positions(i);
            lemma_nibble_small(b, nibble_index(i));
            lemma_hex_roundtrip(nibble(b, nibble_index(i)));
        }
    }
    lemma_show_then_prefix(b, 32);
    assert(b >> 0u128 == b) by (bit_vector);
    if parse_hyphenated(s) == Some(b) {
        lemma_parse_then_show(s);
    }
}

/// The hex digit of a nibble.
pub(crate) fn hex_digit(n: u128) -> (c: char)
    requires
        n < 16,
    ensures
        c == hex_char(n),
{
    let d = n as u8;
    if d < 10 {
        (d + 48) as char
    } else {
        (d + 87) as char
    }
}

/// The hyphenated text of a UUID, as characters.
pub fn hyphenated_chars(bits: u128) -> (r: Vec<char>)
    ensures
        r@ == hyphenated(bits),
{
    let mut out: Vec<char> = Vec::new();
    let mut i: usize = 0;
    while i < 36
        invariant
            i <= 36,
            out@ == hyphenated(bits).take(i as int),
        decreases 36 - i,
    {
        let c = if i == 8 || i == 13 || i == 18 || i == 23 {
            '-'
        } else {
            let k: u128 = if i < 8 {
                i as u128
            } else if i < 13 {
                (i - 1) as u128
            } else if i < 18 {
                (i - 2) as u128
            } else if i < 23 {
                (i - 3) as u128
            } else {
                (i - 4) as u128
            };
            let shift: u128 = 4 * (31 - k);
            let n = (bits >> shift) & 0xfu128;
            proof {
                lemma_nibble_small(bits, k as int);
            }
            hex_digit(n)
        };
        out.push(c);
        i = i + 1;
        assert(out@ =~= hyphenated(bits).take(i as int));
    }
    assert(hyphenated(bits).take(36) =~= hyphenated(bits));
    out
}

} // verus!
