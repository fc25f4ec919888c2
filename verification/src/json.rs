//! The JSON text of token claims.
//!
//! Claims are written as a flat JSON object whose layout (keys and order) is
//! fixed by the claims type: a sequence of segments, each a literal piece of
//! text, a string value or an integer value. Strings are escaped as
//! `serde_json` escapes them and integers are written in canonical decimal,
//! so the text is what `serde_json` would write for the claims. The reading
//! of strings and integers is the exact inverse of their writing; reading a
//! whole object is in `json_object`.

use vstd::prelude::*;

use crate::uuid_text::{hex_char, hex_digit};

verus! {

// ---------------------------------------------------------------------------
// Strings
// ---------------------------------------------------------------------------

/// The escaped form of one character inside a JSON string.
pub open spec fn escape_char(c: char) -> Seq<char> {
    if c == '"' {
        seq!['\\', '"']
    } else if c == '\\' {
        seq!['\\', '\\']
    } else if c == '\u{8}' {
        seq!['\\', 'b']
    } else if c == '\u{c}' {
        seq!['\\', 'f']
    } else if c == '\n' {
        seq!['\\', 'n']
    } else if c == '\r' {
        seq!['\\', 'r']
    } else if c == '\t' {
        seq!['\\', 't']
    } else if (c as u32) < 0x20 {
        seq!['\\', 'u', '0', '0', hex_char((c as u32 / 16) as u128), hex_char((c as u32 % 16) as u128)]
    } else {
        seq![c]
    }
}

/// The escaped form of a text inside a JSON string.
pub open spec fn escape(s: Seq<char>) -> Seq<char>
    decreases s.len(),
{
    if s.len() == 0 {
        Seq::empty()
    } else {
        escape_char(s[0]) + escape(s.drop_first())
    }
}

/// The JSON string literal of a text.
pub open spec fn quoted(s: Seq<char>) -> Seq<char> {
    seq!['"'] + escape(s) + seq!['"']
}

/// The character a short escape letter stands for.
pub open spec fn short_escape(e: char) -> Option<char> {
    if e == '"' {
        Some('"')
    } else if e == '\\' {
        Some('\\')
    } else if e == '/' {
        Some('/')
    } else if e == 'b' {
        Some('\u{8}')
    } else if e == 'f' {
        Some('\u{c}')
    } else if e == 'n' {
        Some('\n')
    } else if e == 'r' {
        Some('\r')
    } else if e == 't' {
        Some('\t')
    } else {
        None
    }
}

/// The value of a hexadecimal digit of either case.
pub open spec fn json_hex_value(c: char) -> Option<int> {
    if '0' <= c && c <= '9' {
        Some(c as int - 48)
    } else if 'a' <= c && c <= 'f' {
        Some(c as int - 87)
    } else if 'A' <= c && c <= 'F' {
        Some(c as int - 55)
    } else {
        None
    }
}

/// The value of four hexadecimal digits.
pub open spec fn hex4_value(a: char, b: char, c: char, d: char) -> Option<int> {
    match (json_hex_value(a), json_hex_value(b), json_hex_value(c), json_hex_value(d)) {
        (Some(w), Some(x), Some(y), Some(z)) => Some(((w * 16 + x) * 16 + y) * 16 + z),
        _ => None,
    }
}

/// Whether a code is a UTF-16 surrogate.
pub open spec fn is_surrogate(v: int) -> bool {
    0xD800 <= v <= 0xDFFF
}

/// Reads a `\\u` escape at the start of a text (from its backslash): the
/// character it stands for and the number of characters it takes, six for
/// one escape and twelve for a surrogate pair; a lone surrogate is refused.
pub open spec fn unicode_escape_prefix(t: Seq<char>) -> Option<(char, nat)> {
    if t.len() < 6 {
        None
    } else {
        match hex4_value(t[2], t[3], t[4], t[5]) {
            None => None,
            Some(v) => if !is_surrogate(v) {
                Some((v as char, 6))
            } else if v <= 0xDBFF && t.len() >= 12 && t[6] == '\\' && t[7] == 'u' {
                match hex4_value(t[8], t[9], t[10], t[11]) {
                    Some(w) => if 0xDC00 <= w <= 0xDFFF {
                        Some(((0x10000 + (v - 0xD800) * 0x400 + (w - 0xDC00)) as char, 12))
                    } else {
                        None
                    },
                    None => None,
                }
            } else {
                None
            },
        }
    }
}

/// Reads the body of a JSON string (after its opening quote): the text it
/// stands for and the number of characters up to and including the closing
/// quote, or `None`. Escapes are the short ones and `\uXXXX`, a surrogate
/// pair of two such escapes standing for one character; a lone surrogate
/// is refused, as `serde_json` refuses it.
#[verifier::opaque]
pub open spec fn parse_string_body(t: Seq<char>) -> Option<(Seq<char>, nat)>
    decreases t.len(),
{
    if t.len() == 0 {
        None
    } else if t[0] == '"' {
        Some((Seq::empty(), 1))
    } else if t[0] == '\\' {
        if t.len() < 2 {
            None
        } else if t[1] == 'u' {
            match unicode_escape_prefix(t) {
                Some((c, k)) => if 1 <= k <= t.len() {
                    match parse_string_body(t.skip(k as int)) {
                        Some((d, n)) => Some((seq![c] + d, n + k)),
                        None => None,
                    }
                } else {
                    None
                },
                None => None,
            }
        } else {
            match short_escape(t[1]) {
                Some(c) => match parse_string_body(t.skip(2)) {
                    Some((d, n)) => Some((seq![c] + d, n + 2)),
                    None => None,
                },
                None => None,
            }
        }
    } else if (t[0] as u32) < 0x20 {
        None
    } else {
        match parse_string_body(t.skip(1)) {
            Some((d, n)) => Some((seq![t[0]] + d, n + 1)),
            None => None,
        }
    }
}

proof fn lemma_escape_char_parses(c: char, rest: Seq<char>)
    ensures
        ({
            let e = escape_char(c);
            &&& e.len() >= 1
            &&& e[0] != '"'
            &&& (e + rest).len() > 0
            &&& match parse_string_body(rest) {
                Some((d, n)) => parse_string_body(e + rest) == Some((seq![c] + d, (n + e.len()) as nat)),
                None => parse_string_body(e + rest) is None,
            }
        }),
{
    reveal(parse_string_body);
    let e = escape_char(c);
    let t = e + rest;
    assert(t.skip(e.len() as int) =~= rest);
    if c == '"' || c == '\\' || c == '\u{8}' || c == '\u{c}' || c == '\n' || c == '\r' || c == '\t' {
        assert(t[0] == '\\');
        assert(t[1] == e[1]);
    } else if (c as u32) < 0x20 {
        let v = c as u32;
        let h = (v / 16) as u128;
        let l = (v % 16) as u128;
        assert(h < 2);
        assert(l < 16);
        assert(json_hex_value(hex_char(h)) == Some(h as int));
        assert(json_hex_value(hex_char(l)) == Some(l as int));
        assert(h * 16 + l == v);
        assert(t[1] == 'u' && t[2] == '0' && t[3] == '0' && t[4] == hex_char(h) && t[5] == hex_char(l));
        assert(hex4_value(t[2], t[3], t[4], t[5]) == Some(v as int));
        assert((v as char) == c);
    } else {
        assert(t[0] == c);
    }
}

/// Reading the escaped form of a text followed by a closing quote gives the
/// text back, whatever follows.
pub proof fn lemma_string_roundtrip(s: Seq<char>, rest: Seq<char>)
    ensures
        parse_string_body(escape(s) + seq!['"'] + rest) == Some((s, (escape(s).len() + 1) as nat)),
    decreases s.len(),
{
    reveal(parse_string_body);
    if s.len() == 0 {
        assert(escape(s) + seq!['"'] + rest =~= seq!['"'] + rest);
        assert(s =~= Seq::<char>::empty());
    } else {
        let tail = s.drop_first();
        lemma_string_roundtrip(tail, rest);
        let r2 = escape(tail) + seq!['"'] + rest;
        lemma_escape_char_parses(s[0], r2);
        assert(escape(s) + seq!['"'] + rest =~= escape_char(s[0]) + r2);
        assert(seq![s[0]] + tail =~= s);
    }
}

/// A string body is read in at least one character and at most the whole
/// text.
pub proof fn lemma_string_parse_sound(t: Seq<char>)
    ensures
        parse_string_body(t) matches Some((d, n)) ==> 1 <= n <= t.len(),
    decreases t.len(),
{
    reveal(parse_string_body);
    if t.len() > 0 && t[0] != '"' {
        if t[0] == '\\' && t.len() >= 2 {
            if t[1] == 'u' {
                if t.len() >= 6 {
                    lemma_string_parse_sound(t.skip(6));
                    if t.len() >= 12 {
                        lemma_string_parse_sound(t.skip(12));
                    }
                }
            } else {
                lemma_string_parse_sound(t.skip(2));
            }
        } else {
            lemma_string_parse_sound(t.skip(1));
        }
    }
}

/// Appends the escaped form of a text.
pub fn push_escaped(s: &[char], out: &mut Vec<char>)
    ensures
        final(out)@ == old(out)@ + escape(s@),
{
    let ghost start = out@;
    let mut i: usize = 0;
    while i < s.len()
        invariant
            i <= s@.len(),
            out@ == start + escape(s@.take(i as int)),
        decreases s@.len() - i,
    {
        let c = s[i];
        proof {
            lemma_escape_take(s@, i as int);
        }
        if c == '"' {
            out.push('\\');
            out.push('"');
        } else if c == '\\' {
            out.push('\\');
            out.push('\\');
        } else if c == '\u{8}' {
            out.push('\\');
            out.push('b');
        } else if c == '\u{c}' {
            out.push('\\');
            out.push('f');
        } else if c == '\n' {
            out.push('\\');
            out.push('n');
        } else if c == '\r' {
            out.push('\\');
            out.push('r');
        } else if c == '\t' {
            out.push('\\');
            out.push('t');
        } else if (c as u32) < 0x20 {
            let v = c as u32;
            out.push('\\');
            out.push('u');
            out.push('0');
            out.push('0');
            out.push(hex_digit((v / 16) as u128));
            out.push(hex_digit((v % 16) as u128));
        } else {
            out.push(c);
        }
        i = i + 1;
        assert(out@ =~= start + escape(s@.take(i as int)));
    }
    assert(s@.take(s@.len() as int) =~= s@);
}

/// The escaped form of a prefix extended by one character.
proof fn lemma_escape_take(s: Seq<char>, i: int)
    requires
        0 <= i < s.len(),
    ensures
        escape(s.take(i + 1)) == escape(s.take(i)) + escape_char(s[i]),
{
    lemma_escape_append(s.take(i), seq![s[i]]);
    assert(s.take(i) + seq![s[i]] =~= s.take(i + 1));
    assert(escape(seq![s[i]]) =~= escape_char(s[i])) by {
        assert(seq![s[i]].drop_first() =~= Seq::<char>::empty());
        assert(escape(Seq::<char>::empty()) == Seq::<char>::empty());
        assert(escape(seq![s[i]]) == escape_char(s[i]) + escape(seq![s[i]].drop_first()));
    }
}

/// Escaping distributes over concatenation.
pub proof fn lemma_escape_append(a: Seq<char>, b: Seq<char>)
    ensures
        escape(a + b) == escape(a) + escape(b),
    decreases a.len(),
{
    if a.len() == 0 {
        assert(a + b =~= b);
        assert(escape(a) + escape(b) =~= escape(b));
    } else {
        lemma_escape_append(a.drop_first(), b);
        assert((a + b).drop_first() =~= a.drop_first() + b);
        assert((a + b)[0] == a[0]);
        assert(escape(a + b) =~= escape_char(a[0]) + escape(a.drop_first() + b));
        assert(escape(a) + escape(b) =~= escape_char(a[0]) + (escape(a.drop_first()) + escape(b)));
    }
}

/// What reading a JSON string body at `start` gives, with the end position
/// counted from the start of the whole text.
pub open spec fn string_at(t: Seq<char>, start: int) -> Option<(Seq<char>, int)> {
    match parse_string_body(t.skip(start)) {
        Some((d, n)) => Some((d, start + n)),
        None => None,
    }
}

/// Reads the body of a JSON string that starts at `start` (just after the
/// opening quote): the text and the position after the closing quote.
#[verifier::spinoff_prover]
#[verifier::rlimit(80)]
pub fn parse_string_at(t: &[char], start: usize) -> (r: Option<(Vec<char>, usize)>)
    requires
        start <= t@.len(),
    ensures
        match (r, string_at(t@, start as int)) {
            (Some((d, e)), Some((d2, e2))) => d@ == d2 && e as int == e2,
            (None, None) => true,
            _ => false,
        },
{
    reveal(parse_string_body);
    let ghost whole = t@.skip(start as int);
    let mut decoded: Vec<char> = Vec::new();
    let mut i: usize = start;
    loop
        invariant
            start <= i <= t@.len(),
            whole == t@.skip(start as int),
            parse_string_body(whole) == match parse_string_body(t@.skip(i as int)) {
                Some((d, n)) => Some((decoded@ + d, (n + (i - start)) as nat)),
                None => None::<(Seq<char>, nat)>,
            },
        decreases t@.len() - i,
    {
        proof {
            reveal(parse_string_body);
        }
        let ghost rest = t@.skip(i as int);
        if i >= t.len() {
            assert(rest.len() == 0);
            assert(parse_string_body(rest) is None);
            return None;
        }
        let c = t[i];
        assert(rest[0] == c);
        if c == '"' {
            assert(decoded@ + Seq::<char>::empty() =~= decoded@);
            return Some((decoded, i + 1));
        } else if c == '\\' {
            if i + 1 >= t.len() {
                assert(parse_string_body(rest) is None);
                return None;
            }
            let e = t[i + 1];
            assert(rest[1] == e);
            if e == 'u' {
                let (ch, k) = match read_unicode_escape(t, i) {
                    Some(p) => p,
                    None => return None,
                };
                assert(rest.skip(k as int) =~= t@.skip(i + k));
                decoded.push(ch);
                i = i + k;
            } else {
                let sc = short_escape_exec(e);
                match sc {
                    Some(ch) => {
                        assert(rest.skip(2) =~= t@.skip(i + 2));
                        decoded.push(ch);
                        i = i + 2;
                    },
                    None => {
                        return None;
                    },
                }
            }
        } else if (c as u32) < 0x20 {
            assert(parse_string_body(rest) is None);
            return None;
        } else {
            assert(rest.skip(1) =~= t@.skip(i + 1));
            decoded.push(c);
            i = i + 1;
        }
        assert forall|d: Seq<char>| true implies (decoded@ + d) =~= (decoded@.drop_last() + (seq![decoded@.last()] + d)) by {}
    }
}

/// Reads a `\\u` escape that starts at `i` (at its backslash): the
/// character and the escape's length (see `unicode_escape_prefix`).
fn read_unicode_escape(t: &[char], i: usize) -> (r: Option<(char, usize)>)
    requires
        i <= t@.len(),
    ensures
        match (r, unicode_escape_prefix(t@.skip(i as int))) {
            (Some((c, k)), Some((c2, k2))) => c == c2 && k == k2 && (k == 6 || k == 12) && i + k <= t@.len(),
            (None, None) => true,
            _ => false,
        },
{
    let ghost rest = t@.skip(i as int);
    if t.len() - i < 6 {
        return None;
    }
    assert(rest[2] == t@[i + 2] && rest[3] == t@[i + 3] && rest[4] == t@[i + 4] && rest[5] == t@[i + 5]);
    let v = match hex4_exec(t[i + 2], t[i + 3], t[i + 4], t[i + 5]) {
        Some(v) => v,
        None => return None,
    };
    if v < 0xD800 || v > 0xDFFF {
        let ch = match char_from_u32(v) {
            Some(ch) => ch,
            None => return None,
        };
        Some((ch, 6))
    } else if v <= 0xDBFF && t.len() - i >= 12 && t[i + 6] == '\\' && t[i + 7] == 'u' {
        assert(rest[6] == t@[i + 6] && rest[7] == t@[i + 7] && rest[8] == t@[i + 8] && rest[9] == t@[i + 9]);
        assert(rest[10] == t@[i + 10] && rest[11] == t@[i + 11]);
        let w = match hex4_exec(t[i + 8], t[i + 9], t[i + 10], t[i + 11]) {
            Some(w) => w,
            None => return None,
        };
        if w < 0xDC00 || w > 0xDFFF {
            return None;
        }
        let cp = 0x10000 + (v - 0xD800) * 0x400 + (w - 0xDC00);
        let ch = match char_from_u32(cp) {
            Some(ch) => ch,
            None => return None,
        };
        Some((ch, 12))
    } else {
        if t.len() - i >= 12 {
            assert(rest[6] == t@[i + 6] && rest[7] == t@[i + 7]);
        }
        None
    }
}

/// The value of a hexadecimal digit of either case.
fn json_hex_digit(c: char) -> (r: Option<u32>)
    ensures
        match json_hex_value(c) {
            Some(v) => r == Some(v as u32),
            None => r is None,
        },
{
    if '0' <= c && c <= '9' {
        Some(c as u32 - 48)
    } else if 'a' <= c && c <= 'f' {
        Some(c as u32 - 87)
    } else if 'A' <= c && c <= 'F' {
        Some(c as u32 - 55)
    } else {
        None
    }
}

/// The value of four hexadecimal digits.
fn hex4_exec(a: char, b: char, c: char, d: char) -> (r: Option<u32>)
    ensures
        match hex4_value(a, b, c, d) {
            Some(v) => r == Some(v as u32) && v < 0x10000,
            None => r is None,
        },
{
    match (json_hex_digit(a), json_hex_digit(b), json_hex_digit(c), json_hex_digit(d)) {
        (Some(w), Some(x), Some(y), Some(z)) => Some(((w * 16 + x) * 16 + y) * 16 + z),
        _ => None,
    }
}

/// `char::from_u32`: the character with a code, which std documents as
/// `Some` exactly when the code is a Unicode scalar value (at most
/// `0x10FFFF` and not a surrogate).
#[verifier::external_body]
fn char_from_u32(v: u32) -> (r: Option<char>)
    ensures
        r == (if v <= 0x10FFFF && !is_surrogate(v as int) { Some(v as char) } else { None::<char> }),
{
    char::from_u32(v)
}

/// The character with a code below 0x20.
fn char_of_small(v: u32) -> (c: char)
    requires
        v < 0x20,
    ensures
        c as u32 == v,
        c == v as char,
{
    let b = v as u8;
    b as char
}

fn short_escape_exec(e: char) -> (r: Option<char>)
    ensures
        r == short_escape(e),
{
    if e == '"' {
        Some('"')
    } else if e == '\\' {
        Some('\\')
    } else if e == '/' {
        Some('/')
    } else if e == 'b' {
        Some('\u{8}')
    } else if e == 'f' {
        Some('\u{c}')
    } else if e == 'n' {
        Some('\n')
    } else if e == 'r' {
        Some('\r')
    } else if e == 't' {
        Some('\t')
    } else {
        None
    }
}

// ---------------------------------------------------------------------------
// Integers
// ---------------------------------------------------------------------------

/// Whether a character is an ASCII digit.
pub open spec fn is_digit_char(c: char) -> bool {
    '0' <= c && c <= '9'
}

/// The digit character of a value below 10.
pub open spec fn digit_char(d: nat) -> char {
    (d + 48) as char
}

/// The canonical decimal digits of a natural number (no leading zero).
pub open spec fn digits_of(n: nat) -> Seq<char>
    decreases n,
{
    if n < 10 {
        seq![digit_char(n)]
    } else {
        digits_of(n / 10) + seq![digit_char(n % 10)]
    }
}

/// The canonical decimal text of an integer, as `serde_json` writes it.
pub open spec fn decimal(v: int) -> Seq<char> {
    if v < 0 {
        seq!['-'] + digits_of((-v) as nat)
    } else {
        digits_of(v as nat)
    }
}

/// The value of a sequence of digit characters.
pub open spec fn value_of_digits(s: Seq<char>) -> nat
    decreases s.len(),
{
    if s.len() == 0 {
        0
    } else {
        value_of_digits(s.drop_last()) * 10 + ((s.last() as int - 48) as nat)
    }
}

/// The length of the run of digits at the start of a text.
pub open spec fn digit_run(t: Seq<char>) -> nat
    decreases t.len(),
{
    if t.len() > 0 && is_digit_char(t[0]) {
        1 + digit_run(t.drop_first())
    } else {
        0
    }
}

/// Ten to the power `k`.
pub open spec fn pow10(k: nat) -> nat
    decreases k,
{
    if k == 0 {
        1
    } else {
        10 * pow10((k - 1) as nat)
    }
}

/// The most digits an integer value may have.
pub const MAX_DIGITS: usize = 30;

/// Reads a canonical decimal integer at the start of a text: the value and
/// the number of characters it takes, or `None`. The digit run is read
/// whole; it must be at most `MAX_DIGITS` long, without a leading zero
/// (but for `0` itself), and `-0` is refused.
pub open spec fn parse_int_prefix(t: Seq<char>) -> Option<(int, nat)> {
    let neg = t.len() > 0 && t[0] == '-';
    let body = if neg { t.skip(1) } else { t };
    let k = digit_run(body);
    if k == 0 || k > MAX_DIGITS || (k > 1 && body[0] == '0') || (neg && body[0] == '0') {
        None
    } else {
        let v = value_of_digits(body.take(k as int)) as int;
        Some((if neg { -v } else { v }, if neg { k + 1 } else { k }))
    }
}

pub proof fn lemma_digits_of_props(n: nat)
    ensures
        digits_of(n).len() >= 1,
        forall|i: int| 0 <= i < digits_of(n).len() ==> is_digit_char(#[trigger] digits_of(n)[i]),
        n >= 10 ==> digits_of(n)[0] != '0',
        n < 10 ==> digits_of(n) == seq![digit_char(n)],
        value_of_digits(digits_of(n)) == n,
    decreases n,
{
    if n < 10 {
        let s = digits_of(n);
        assert(s.drop_last() =~= Seq::<char>::empty());
        assert(value_of_digits(Seq::<char>::empty()) == 0);
        assert(digit_char(n) as int == n + 48);
        assert(value_of_digits(s) == value_of_digits(s.drop_last()) * 10 + ((s.last() as int - 48) as nat));
    }
    if n >= 10 {
        lemma_digits_of_props(n / 10);
        let p = digits_of(n / 10);
        let s = digits_of(n);
        assert(s == p + seq![digit_char(n % 10)]);
        assert(s.drop_last() =~= p);
        assert(digit_char(n % 10) as int == n % 10 + 48);
        assert(value_of_digits(s) == value_of_digits(s.drop_last()) * 10 + ((s.last() as int - 48) as nat));
        assert forall|i: int| 0 <= i < s.len() implies is_digit_char(#[trigger] s[i]) by {
            if i < p.len() {
                assert(s[i] == p[i]);
            }
        }
        if n / 10 >= 10 {
            assert(s[0] == p[0]);
        } else {
            assert(s[0] == digit_char(n / 10));
            assert(n / 10 >= 1);
        }
        assert(n == (n / 10) * 10 + n % 10) by {
            vstd::arithmetic::div_mod::lemma_fundamental_div_mod(n as int, 10);
        }
    }
}

proof fn lemma_digit_run_of(s: Seq<char>, rest: Seq<char>)
    requires
        forall|i: int| 0 <= i < s.len() ==> is_digit_char(#[trigger] s[i]),
        rest.len() == 0 || !is_digit_char(rest[0]),
    ensures
        digit_run(s + rest) == s.len(),
    decreases s.len(),
{
    if s.len() == 0 {
        assert(s + rest =~= rest);
    } else {
        assert((s + rest).drop_first() =~= s.drop_first() + rest);
        assert((s + rest)[0] == s[0]);
        lemma_digit_run_of(s.drop_first(), rest);
    }
}

proof fn lemma_digit_run_bounds(t: Seq<char>)
    ensures
        digit_run(t) <= t.len(),
        forall|i: int| 0 <= i < digit_run(t) ==> is_digit_char(#[trigger] t[i]),
        digit_run(t) < t.len() ==> !is_digit_char(t[digit_run(t) as int]),
    decreases t.len(),
{
    if t.len() > 0 && is_digit_char(t[0]) {
        lemma_digit_run_bounds(t.drop_first());
        assert forall|i: int| 0 <= i < digit_run(t) implies is_digit_char(#[trigger] t[i]) by {
            if i > 0 {
                assert(t[i] == t.drop_first()[i - 1]);
            }
        }
        if digit_run(t) < t.len() {
            assert(t[digit_run(t) as int] == t.drop_first()[digit_run(t.drop_first()) as int]);
        }
    }
}

proof fn lemma_digits_len_bound(n: nat, k: nat)
    requires
        n < pow10(k),
        k >= 1,
    ensures
        digits_of(n).len() <= k,
    decreases n,
{
    if n >= 10 {
        assert(k >= 2) by {
            if k == 1 {
                assert(pow10(1) == 10 * pow10(0));
            }
        }
        assert(pow10(k) == 10 * pow10((k - 1) as nat));
        assert(n / 10 < pow10((k - 1) as nat)) by {
            vstd::arithmetic::div_mod::lemma_div_is_ordered(n as int, (pow10(k) - 1) as int, 10);
            vstd::arithmetic::div_mod::lemma_fundamental_div_mod(n as int, 10);
        }
        lemma_digits_len_bound(n / 10, (k - 1) as nat);
    }
}

/// Value of canonical digits is read back by writing them.
proof fn lemma_canonical_digits(s: Seq<char>)
    requires
        s.len() >= 1,
        forall|i: int| 0 <= i < s.len() ==> is_digit_char(#[trigger] s[i]),
        s.len() > 1 ==> s[0] != '0',
    ensures
        digits_of(value_of_digits(s)) == s,
        s.len() > 1 ==> value_of_digits(s) >= 10,
        s[0] != '0' ==> value_of_digits(s) >= 1,
        value_of_digits(s) < pow10(s.len()),
    decreases s.len(),
{
    let d = (s.last() as int - 48) as nat;
    assert(d < 10);
    if s.len() == 1 {
        assert(s.drop_last() =~= Seq::<char>::empty());
        assert(value_of_digits(Seq::<char>::empty()) == 0);
        assert(value_of_digits(s) == value_of_digits(s.drop_last()) * 10 + d);
        assert(value_of_digits(s) == d);
        assert(digit_char(d) == s[0]);
        assert(digits_of(d) =~= s);
        assert(pow10(1) == 10 * pow10(0));
    } else {
        let p = s.drop_last();
        assert forall|i: int| 0 <= i < p.len() implies is_digit_char(#[trigger] p[i]) by {
            assert(p[i] == s[i]);
        }
        assert(p[0] == s[0]);
        lemma_canonical_digits(p);
        let vp = value_of_digits(p);
        let v = value_of_digits(s);
        assert(v == vp * 10 + d);
        assert(v / 10 == vp && v % 10 == d) by {
            vstd::arithmetic::div_mod::lemma_fundamental_div_mod_converse(v as int, 10, vp as int, d as int);
        }
        assert(v >= 10);
        assert(digit_char(d) == s.last());
        assert(digits_of(v) == digits_of(vp) + seq![digit_char(d)]);
        assert(digits_of(v) =~= s);
        assert(pow10(s.len()) == 10 * pow10(p.len()));
        assert(v < pow10(s.len())) by {
            assert(vp + 1 <= pow10(p.len()));
            assert((vp + 1) * 10 <= pow10(p.len()) * 10) by (nonlinear_arith)
                requires
                    vp + 1 <= pow10(p.len()),
            ;
        }
    }
}

/// Reading the decimal text of an integer gives it back, when what follows
/// is not a digit.
pub proof fn lemma_int_roundtrip(v: int, rest: Seq<char>)
    requires
        -pow10(MAX_DIGITS as nat) < v < pow10(MAX_DIGITS as nat),
        rest.len() == 0 || !is_digit_char(rest[0]),
    ensures
        parse_int_prefix(decimal(v) + rest) == Some((v, decimal(v).len() as nat)),
{
    let n: nat = if v < 0 { (-v) as nat } else { v as nat };
    lemma_digits_of_props(n);
    lemma_digits_len_bound(n, MAX_DIGITS as nat);
    let ds = digits_of(n);
    let t = decimal(v) + rest;
    let body = ds + rest;
    if v < 0 {
        assert(t =~= seq!['-'] + body);
        assert(t.skip(1) =~= body);
        assert(t[0] == '-');
    } else {
        assert(t =~= body);
        assert(ds[0] != '-') by {
            assert(is_digit_char(ds[0]));
        }
    }
    lemma_digit_run_of(ds, rest);
    assert(body.take(ds.len() as int) =~= ds);
    if v < 0 {
        assert(n >= 1);
        if n < 10 {
            assert(ds[0] == digit_char(n));
        }
    }
    assert(body[0] == ds[0]);
}

/// A text read as an integer starts with the decimal text of that integer,
/// followed by the end of the text or a non-digit.
pub proof fn lemma_int_parse_sound(t: Seq<char>)
    ensures
        parse_int_prefix(t) matches Some((v, n)) ==> n <= t.len() && t.take(n as int) == decimal(v)
            && (n == t.len() || !is_digit_char(t[n as int])),
{
    if let Some((v, n)) = parse_int_prefix(t) {
        let neg = t.len() > 0 && t[0] == '-';
        let body = if neg { t.skip(1) } else { t };
        let k = digit_run(body);
        lemma_digit_run_bounds(body);
        let ds = body.take(k as int);
        assert forall|i: int| 0 <= i < ds.len() implies is_digit_char(#[trigger] ds[i]) by {
            assert(ds[i] == body[i]);
        }
        assert(ds[0] == body[0]);
        lemma_canonical_digits(ds);
        if neg {
            assert(value_of_digits(ds) >= 1);
            assert(t.take(n as int) =~= seq!['-'] + ds);
            if k < body.len() {
                assert(t[n as int] == body[k as int]);
            }
        } else {
            assert(t.take(n as int) =~= ds);
        }
    }
}

/// Appends the canonical digits of a natural number.
fn push_digits(n: u128, out: &mut Vec<char>)
    ensures
        final(out)@ == old(out)@ + digits_of(n as nat),
    decreases n,
{
    if n >= 10 {
        push_digits(n / 10, out);
    }
    let d = (n % 10) as u8;
    out.push((d + 48) as char);
    proof {
        if n >= 10 {
            assert(digits_of(n as nat) == digits_of((n / 10) as nat) + seq![digit_char((n % 10) as nat)]);
        }
    }
}

/// Appends the canonical decimal text of an integer.
pub fn push_decimal(v: i128, out: &mut Vec<char>)
    requires
        -pow10(MAX_DIGITS as nat) < v < pow10(MAX_DIGITS as nat),
    ensures
        final(out)@ == old(out)@ + decimal(v as int),
{
    assert(pow10(MAX_DIGITS as nat) < 0x7fff_ffff_ffff_ffff_ffff_ffff_ffff_ffff) by {
        reveal_with_fuel(pow10, 31);
    }
    if v < 0 {
        out.push('-');
        push_digits((-v) as u128, out);
    } else {
        push_digits(v as u128, out);
    }
}

/// What reading an integer at `start` gives, with the end position counted
/// from the start of the whole text.
pub open spec fn int_at(t: Seq<char>, start: int) -> Option<(int, int)> {
    match parse_int_prefix(t.skip(start)) {
        Some((v, n)) => Some((v, start + n)),
        None => None,
    }
}

/// Reads a canonical decimal integer starting at `start`: its value and the
/// position after it.
#[verifier::spinoff_prover]
#[verifier::rlimit(40)]
pub fn parse_int_at(t: &[char], start: usize) -> (r: Option<(i128, usize)>)
    requires
        start <= t@.len(),
    ensures
        match (r, int_at(t@, start as int)) {
            (Some((v, e)), Some((v2, e2))) => v as int == v2 && e as int == e2,
            (None, None) => true,
            _ => false,
        },
{
    let ghost whole = t@.skip(start as int);
    let neg = start < t.len() && t[start] == '-';
    let b: usize = if neg { start + 1 } else { start };
    let ghost body = if neg { whole.skip(1) } else { whole };
    assert(body =~= t@.skip(b as int));
    proof {
        lemma_digit_run_bounds(body);
    }
    let ghost k = digit_run(body);
    let mut j: usize = b;
    let mut acc: u128 = 0;
    while j < t.len() && '0' <= t[j] && t[j] <= '9' && j - b < MAX_DIGITS
        invariant
            b <= j <= t@.len(),
            body == t@.skip(b as int),
            k == digit_run(body),
            k <= body.len(),
            forall|i: int| 0 <= i < k ==> is_digit_char(#[trigger] body[i]),
            k < body.len() ==> !is_digit_char(body[k as int]),
            j - b <= k,
            j - b <= MAX_DIGITS,
            acc == value_of_digits(body.take(j - b)),
            acc < pow10((j - b) as nat),
        decreases t@.len() - j,
    {
        let d = (t[j] as u32 - 48) as u128;
        let ghost pre = body.take(j - b);
        assert(body[j - b] == t@[j as int]);
        assert(j - b < k) by {
            if j - b == k {
                assert(k < body.len());
            }
        }
        assert(body.take(j - b + 1).drop_last() =~= pre);
        assert(pow10((j - b + 1) as nat) == 10 * pow10((j - b) as nat));
        assert(pow10(MAX_DIGITS as nat) < 0x7fff_ffff_ffff_ffff_ffff_ffff_ffff_ffff) by {
            reveal_with_fuel(pow10, 31);
        }
        assert(pow10((j - b) as nat) <= pow10(29)) by {
            lemma_pow10_mono((j - b) as nat, 29);
        }
        assert(acc * 10 + d < pow10((j - b + 1) as nat)) by (nonlinear_arith)
            requires
                acc < pow10((j - b) as nat),
                d < 10,
                pow10((j - b + 1) as nat) == 10 * pow10((j - b) as nat),
        ;
        acc = acc * 10 + d;
        j = j + 1;
    }
    let n = j - b;
    if j < t.len() && '0' <= t[j] && t[j] <= '9' {
        // more than MAX_DIGITS digits
        assert(n == MAX_DIGITS);
        assert(body[n as int] == t@[j as int]);
        assert(k > MAX_DIGITS) by {
            if k <= MAX_DIGITS {
                assert(n == k);
            }
        }
        return None;
    }
    assert(n == k) by {
        if n < k {
            assert(body[n as int] == t@[j as int]);
        }
    }
    if n == 0 {
        return None;
    }
    assert(body[0] == t@[b as int]);
    if (n > 1 && t[b] == '0') || (neg && t[b] == '0') {
        return None;
    }
    assert(pow10(MAX_DIGITS as nat) < 0x7fff_ffff_ffff_ffff_ffff_ffff_ffff_ffff) by {
        reveal_with_fuel(pow10, 31);
    }
    assert(acc < pow10(MAX_DIGITS as nat)) by {
        lemma_pow10_mono(n as nat, MAX_DIGITS as nat);
    }
    let v: i128 = if neg { -(acc as i128) } else { acc as i128 };
    Some((v, j))
}

proof fn lemma_pow10_mono(a: nat, b: nat)
    requires
        a <= b,
    ensures
        pow10(a) <= pow10(b),
    decreases b,
{
    if a < b {
        lemma_pow10_mono(a, (b - 1) as nat);
        assert(pow10(b) == 10 * pow10((b - 1) as nat));
    }
}

// ---------------------------------------------------------------------------
// Layouts of segments
// ---------------------------------------------------------------------------

/// A segment of a claims text, as a mathematical value.
pub enum Segment {
    Lit(Seq<char>),
    Str(Seq<char>),
    Int(int),
}

/// A segment of a claims text, as held in memory.
#[derive(Debug, Clone)]
pub enum Field {
    Lit(Vec<char>),
    Str(Vec<char>),
    Int(i128),
}

impl View for Field {
    type V = Segment;

    open spec fn view(&self) -> Segment {
        match self {
            Field::Lit(l) => Segment::Lit(l@),
            Field::Str(s) => Segment::Str(s@),
            Field::Int(v) => Segment::Int(*v as int),
        }
    }
}

/// The text of one segment.
pub open spec fn render_segment(g: Segment) -> Seq<char> {
    match g {
        Segment::Lit(l) => l,
        Segment::Str(s) => quoted(s),
        Segment::Int(v) => decimal(v),
    }
}

/// The text of a sequence of segments.
pub open spec fn render(gs: Seq<Segment>) -> Seq<char>
    decreases gs.len(),
{
    if gs.len() == 0 {
        Seq::empty()
    } else {
        render_segment(gs[0]) + render(gs.drop_first())
    }
}

/// The text of segments split in two is the two texts joined.
pub proof fn lemma_render_append(a: Seq<Segment>, b: Seq<Segment>)
    ensures
        render(a + b) == render(a) + render(b),
    decreases a.len(),
{
    if a.len() == 0 {
        assert(a + b =~= b);
        assert(render(a) + render(b) =~= render(b));
    } else {
        lemma_render_append(a.drop_first(), b);
        assert((a + b).drop_first() =~= a.drop_first() + b);
        assert((a + b)[0] == a[0]);
        assert(render(a) + render(b) =~= render_segment(a[0]) + (render(a.drop_first()) + render(b)));
    }
}

/// Whether a piece of text opens an object member: the character `open`
/// (`{` for the first member, `,` for the others), then the key as a JSON
/// string literal of characters that need no escape, then `:`.
pub open spec fn is_key_piece(l: Seq<char>, open: char) -> bool {
    &&& l.len() >= 4
    &&& l[0] == open && l[1] == '"' && l[l.len() - 2] == '"' && l[l.len() - 1] == ':'
    &&& forall|j: int| 2 <= j < l.len() - 2 ==> escape_char(#[trigger] l[j]) == seq![l[j]]
}

/// Whether segments lay out the members of a compact JSON object, the
/// first key piece opening with `open`: key pieces and values (strings or
/// integers) in turn, closed by `}`.
pub open spec fn members_layout(gs: Seq<Segment>, open: char) -> bool {
    &&& gs.len() >= 3 && gs.len() % 2 == 1
    &&& gs.last() == Segment::Lit(seq!['}'])
    &&& forall|i: int| 0 <= i < gs.len() - 1 && i % 2 == 0 ==>
        ((#[trigger] gs[i]) matches Segment::Lit(l) && is_key_piece(l, if i == 0 { open } else { ',' }))
    &&& forall|i: int| 0 <= i < gs.len() - 1 && i % 2 == 1 ==> !((#[trigger] gs[i]) is Lit)
}

/// Whether segments lay out a compact JSON object with at least one member
/// (see `members_layout`).
pub open spec fn is_object_layout(gs: Seq<Segment>) -> bool {
    members_layout(gs, '{')
}

/// A key piece of a three-letter lower-case key is a plain key piece.
pub proof fn lemma_short_key_piece(l: Seq<char>, open: char, a: char, b: char, c: char)
    requires
        l == seq![open, '"', a, b, c, '"', ':'],
        'a' <= a <= 'z',
        'a' <= b <= 'z',
        'a' <= c <= 'z',
    ensures
        is_key_piece(l, open),
{
    assert forall|j: int| 2 <= j < l.len() - 2 implies escape_char(#[trigger] l[j]) == seq![l[j]] by {
        assert('a' <= l[j] <= 'z');
        assert((l[j] as u32) >= 0x20);
    }
}

/// Whether a character is JSON whitespace.
pub open spec fn is_json_whitespace(c: char) -> bool {
    c == ' ' || c == '\t' || c == '\n' || c == '\r'
}

/// Whether a text neither starts nor ends with JSON whitespace (and is not
/// empty).
pub open spec fn without_outer_whitespace(t: Seq<char>) -> bool {
    t.len() > 0 && !is_json_whitespace(t[0]) && !is_json_whitespace(t.last())
}

/// The text of segments that start with a piece `{` and end with a piece
/// `}` starts with `{` and ends with `}`, so holds no outer whitespace.
pub proof fn lemma_render_braced(gs: Seq<Segment>)
    requires
        gs.len() >= 2,
        gs[0] matches Segment::Lit(l) && l.len() > 0 && l[0] == '{',
        gs.last() == Segment::Lit(seq!['}']),
    ensures
        without_outer_whitespace(render(gs)),
{
    let t = render(gs);
    let init = gs.drop_last();
    assert(init + seq![gs.last()] =~= gs);
    lemma_render_append(init, seq![gs.last()]);
    assert(render(seq![gs.last()]) =~= seq!['}']) by {
        let one = seq![gs.last()];
        assert(one.drop_first() =~= Seq::<Segment>::empty());
        assert(render(one.drop_first()) =~= Seq::<char>::empty());
        assert(render_segment(one[0]) == seq!['}']);
        assert(render(one) == render_segment(one[0]) + render(one.drop_first()));
    }
    assert(init[0] == gs[0]);
    assert(render(init) == render_segment(init[0]) + render(init.drop_first()));
    assert(t.last() == '}');
    assert(t[0] == '{');
}

/// The mathematical segments of fields held in memory.
pub open spec fn segments_of(fs: Seq<Field>) -> Seq<Segment> {
    fs.map_values(|f: Field| f@)
}

/// Every integer field is within the digit limit.
pub open spec fn ints_in_range(fs: Seq<Field>) -> bool {
    forall|i: int|
        0 <= i < fs.len() ==> match #[trigger] fs[i] {
            Field::Int(v) => -pow10(MAX_DIGITS as nat) < v < pow10(MAX_DIGITS as nat),
            _ => true,
        }
}

/// Writes the text of a sequence of fields.
pub fn render_fields(fs: &Vec<Field>) -> (r: Vec<char>)
    requires
        ints_in_range(fs@),
    ensures
        r@ == render(segments_of(fs@)),
{
    let mut out: Vec<char> = Vec::new();
    let mut i: usize = 0;
    while i < fs.len()
        invariant
            i <= fs@.len(),
            ints_in_range(fs@),
            out@ == render(segments_of(fs@).take(i as int)),
        decreases fs@.len() - i,
    {
        let ghost before = out@;
        match &fs[i] {
            Field::Lit(l) => {
                let mut j: usize = 0;
                while j < l.len()
                    invariant
                        j <= l@.len(),
                        out@ == before + l@.take(j as int),
                    decreases l@.len() - j,
                {
                    out.push(l[j]);
                    j = j + 1;
                    assert(out@ =~= before + l@.take(j as int));
                }
                assert(l@.take(l@.len() as int) =~= l@);
            },
            Field::Str(v) => {
                out.push('"');
                push_escaped(v.as_slice(), &mut out);
                out.push('"');
                assert(out@ =~= before + quoted(v@));
            },
            Field::Int(v) => {
                push_decimal(*v, &mut out);
            },
        }
        proof {
            let gs = segments_of(fs@);
            lemma_render_append(gs.take(i as int), seq![gs[i as int]]);
            assert(gs.take(i as int) + seq![gs[i as int]] =~= gs.take(i + 1));
            assert(render(seq![gs[i as int]]) =~= render_segment(gs[i as int])) by {
                assert(seq![gs[i as int]].drop_first() =~= Seq::<Segment>::empty());
                assert(render(Seq::<Segment>::empty()) == Seq::<char>::empty());
            }
        }
        i = i + 1;
    }
    assert(segments_of(fs@).take(fs@.len() as int) =~= segments_of(fs@));
    out
}

} // verus!
