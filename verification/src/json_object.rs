//! Reading a JSON object of claims as `serde_json` reads one into a struct:
//! members in any order, JSON white space between the tokens, and the
//! members whose key is not asked for skipped, whatever their value. The
//! values that fields take are strings (with every JSON escape) and
//! integers; other values (words, other numbers, arrays and objects) are
//! passed over. A member is found by its key, and a key that occurs twice
//! is refused, as `serde` refuses a duplicate field.

use vstd::prelude::*;

use crate::json::{
    decimal, digits_of, escape, escape_char, lemma_digits_of_props, is_digit_char, is_json_whitespace, is_key_piece, lemma_int_parse_sound,
    lemma_int_roundtrip, lemma_string_parse_sound, lemma_string_roundtrip, members_layout, parse_int_at,
    parse_int_prefix, parse_string_at, parse_string_body, pow10, render, render_segment, Field, Segment,
    MAX_DIGITS,
};

verus! {

// ---------------------------------------------------------------------------
// The reading, as mathematical functions of the text
// ---------------------------------------------------------------------------

/// The number of JSON white space characters at the start of a text.
pub open spec fn ws_len(s: Seq<char>) -> nat
    decreases s.len(),
{
    if s.len() > 0 && is_json_whitespace(s[0]) {
        1 + ws_len(s.skip(1))
    } else {
        0
    }
}

/// The word `true`.
pub open spec fn word_true() -> Seq<char> {
    seq!['t', 'r', 'u', 'e']
}

/// The word `false`.
pub open spec fn word_false() -> Seq<char> {
    seq!['f', 'a', 'l', 's', 'e']
}

/// The word `null`.
pub open spec fn word_null() -> Seq<char> {
    seq!['n', 'u', 'l', 'l']
}

/// Reads one of the words `true`, `false` or `null` at the start of a text:
/// the word and its length.
pub open spec fn word_prefix(s: Seq<char>) -> Option<(Seq<char>, nat)> {
    if s.len() >= 4 && s.take(4) == word_true() {
        Some((word_true(), 4))
    } else if s.len() >= 5 && s.take(5) == word_false() {
        Some((word_false(), 5))
    } else if s.len() >= 4 && s.take(4) == word_null() {
        Some((word_null(), 4))
    } else {
        None
    }
}

/// Whether a character can be part of a JSON number.
pub open spec fn is_number_char(c: char) -> bool {
    is_digit_char(c) || c == '-' || c == '+' || c == '.' || c == 'e' || c == 'E'
}

/// The number of number characters at the start of a text.
pub open spec fn number_run(s: Seq<char>) -> nat
    decreases s.len(),
{
    if s.len() > 0 && is_number_char(s[0]) {
        1 + number_run(s.skip(1))
    } else {
        0
    }
}

/// Scans the inside of an array or object, with `depth` brackets open,
/// inside a string or not (and after a backslash in it or not): the number
/// of characters up to and including the bracket that closes the outermost
/// one, or `None` when the text ends first.
pub open spec fn scan_nested(s: Seq<char>, depth: nat, in_str: bool, esc: bool) -> Option<nat>
    decreases s.len(),
{
    if s.len() == 0 {
        None
    } else {
        let c = s[0];
        let next = if in_str {
            if esc {
                scan_nested(s.skip(1), depth, true, false)
            } else if c == '\\' {
                scan_nested(s.skip(1), depth, true, true)
            } else if c == '"' {
                scan_nested(s.skip(1), depth, false, false)
            } else {
                scan_nested(s.skip(1), depth, true, false)
            }
        } else if c == '"' {
            scan_nested(s.skip(1), depth, true, false)
        } else if c == '[' || c == '{' {
            scan_nested(s.skip(1), depth + 1, false, false)
        } else if (c == ']' || c == '}') && depth > 1 {
            scan_nested(s.skip(1), (depth - 1) as nat, false, false)
        } else {
            scan_nested(s.skip(1), depth, false, false)
        };
        if !in_str && (c == ']' || c == '}') && depth <= 1 {
            Some(1)
        } else {
            match next {
                Some(n) => Some(n + 1),
                None => None,
            }
        }
    }
}

/// Reads a value at the start of a text, and the number of characters it
/// takes: a string; an integer; and, held as an empty piece of text since
/// no field of the claims takes them, the words `true`, `false` and `null`,
/// other numbers, and arrays and objects (scanned to their closing
/// bracket, the text having been checked as JSON by `jsonwebtoken`).
pub open spec fn value_prefix(s: Seq<char>) -> Option<(Segment, nat)> {
    if s.len() > 0 && s[0] == '"' {
        match parse_string_body(s.skip(1)) {
            Some((d, n)) => Some((Segment::Str(d), n + 1)),
            None => None,
        }
    } else if s.len() > 0 && (s[0] == '[' || s[0] == '{') {
        match scan_nested(s.skip(1), 1, false, false) {
            Some(n) => Some((Segment::Lit(Seq::empty()), n + 1)),
            None => None,
        }
    } else {
        match word_prefix(s) {
            Some((w, n)) => Some((Segment::Lit(Seq::empty()), n)),
            None => {
                let k = number_run(s);
                if k == 0 {
                    None
                } else {
                    match parse_int_prefix(s) {
                        Some((v, n)) => if n == k {
                            Some((Segment::Int(v), n))
                        } else {
                            Some((Segment::Lit(Seq::empty()), k))
                        },
                        None => Some((Segment::Lit(Seq::empty()), k)),
                    }
                }
            },
        }
    }
}

/// Reads a member at the start of a text (just after `{` or `,`): white
/// space, the key string, white space, `:`, white space, the value and
/// white space; the member and the number of characters read.
pub open spec fn member_prefix(s: Seq<char>) -> Option<((Seq<char>, Segment), nat)> {
    let a = ws_len(s);
    if !(a < s.len() && s[a as int] == '"') {
        None
    } else {
        match parse_string_body(s.skip((a + 1) as int)) {
            None => None,
            Some((k, n)) => {
                let b0 = a + 1 + n;
                let b = b0 + ws_len(s.skip(b0 as int));
                if !(b < s.len() && s[b as int] == ':') {
                    None
                } else {
                    let c = b + 1 + ws_len(s.skip((b + 1) as int));
                    match value_prefix(s.skip(c as int)) {
                        None => None,
                        Some((v, m)) => {
                            let d = c + m;
                            Some(((k, v), d + ws_len(s.skip(d as int))))
                        },
                    }
                }
            },
        }
    }
}

/// Reads the members of an object from just after its `{`: members
/// separated by `,`, the closing `}`, and nothing but white space after it.
pub open spec fn members_body(s: Seq<char>) -> Option<Seq<(Seq<char>, Segment)>>
    decreases s.len(),
{
    match member_prefix(s) {
        None => None,
        Some((m, d)) => if !(d < s.len()) {
            None
        } else if s[d as int] == ',' {
            match members_body(s.skip((d + 1) as int)) {
                Some(rest) => Some(seq![m] + rest),
                None => None,
            }
        } else if s[d as int] == '}' && ws_len(s.skip((d + 1) as int)) == s.len() - (d + 1) {
            Some(seq![m])
        } else {
            None
        },
    }
}

/// Reads a text as a JSON object with at least one member: its members in
/// the order written, or `None`.
pub open spec fn parse_object(t: Seq<char>) -> Option<Seq<(Seq<char>, Segment)>> {
    let a = ws_len(t);
    if a < t.len() && t[a as int] == '{' {
        members_body(t.skip((a + 1) as int))
    } else {
        None
    }
}

/// How many members have a key.
pub open spec fn key_count(ms: Seq<(Seq<char>, Segment)>, k: Seq<char>) -> nat
    decreases ms.len(),
{
    if ms.len() == 0 {
        0
    } else {
        key_count(ms.drop_last(), k) + (if ms.last().0 == k { 1nat } else { 0nat })
    }
}

/// The value of the last member with a key.
pub open spec fn last_value(ms: Seq<(Seq<char>, Segment)>, k: Seq<char>) -> Option<Segment>
    decreases ms.len(),
{
    if ms.len() == 0 {
        None
    } else if ms.last().0 == k {
        Some(ms.last().1)
    } else {
        last_value(ms.drop_last(), k)
    }
}

/// The value of the member with a key: `None` when no member or more than
/// one member has it.
pub open spec fn member(ms: Seq<(Seq<char>, Segment)>, k: Seq<char>) -> Option<Segment> {
    if key_count(ms, k) == 1 {
        last_value(ms, k)
    } else {
        None
    }
}

// ---------------------------------------------------------------------------
// Facts about the reading
// ---------------------------------------------------------------------------

proof fn lemma_ws_len_bound(s: Seq<char>)
    ensures
        ws_len(s) <= s.len(),
        ws_len(s) < s.len() ==> !is_json_whitespace(s[ws_len(s) as int]),
    decreases s.len(),
{
    if s.len() > 0 && is_json_whitespace(s[0]) {
        lemma_ws_len_bound(s.skip(1));
    }
}

proof fn lemma_ws_len_all(s: Seq<char>)
    requires
        forall|i: int| 0 <= i < s.len() ==> is_json_whitespace(#[trigger] s[i]),
    ensures
        ws_len(s) == s.len(),
    decreases s.len(),
{
    if s.len() > 0 {
        lemma_ws_len_all(s.skip(1));
    }
}

proof fn lemma_member_count_zero(ms: Seq<(Seq<char>, Segment)>, k: Seq<char>)
    requires
        forall|a: int| 0 <= a < ms.len() ==> (#[trigger] ms[a]).0 != k,
    ensures
        key_count(ms, k) == 0,
    decreases ms.len(),
{
    if ms.len() > 0 {
        lemma_member_count_zero(ms.drop_last(), k);
    }
}

/// The member with a key that no other member has is found.
pub proof fn lemma_member_unique(ms: Seq<(Seq<char>, Segment)>, k: Seq<char>, j: int)
    requires
        0 <= j < ms.len(),
        ms[j].0 == k,
        forall|a: int| 0 <= a < ms.len() && a != j ==> (#[trigger] ms[a]).0 != k,
    ensures
        member(ms, k) == Some(ms[j].1),
    decreases ms.len(),
{
    let init = ms.drop_last();
    if j == ms.len() - 1 {
        lemma_member_count_zero(init, k);
    } else {
        lemma_member_unique(init, k, j);
    }
}

/// The key of a key piece: the text between its quotes.
pub open spec fn key_of(l: Seq<char>) -> Seq<char> {
    l.subrange(2, l.len() - 2)
}

/// The key of a key piece segment.
pub open spec fn seg_key(g: Segment) -> Seq<char> {
    match g {
        Segment::Lit(l) => key_of(l),
        _ => Seq::empty(),
    }
}

/// The members a layout of segments lays out: each key with the value
/// that follows it.
pub open spec fn layout_members(gs: Seq<Segment>) -> Seq<(Seq<char>, Segment)>
    decreases gs.len(),
{
    if gs.len() < 3 {
        Seq::empty()
    } else {
        seq![(seg_key(gs[0]), gs[1])] + layout_members(gs.skip(2))
    }
}

/// The members of a layout, by index: the key of each key piece with the
/// value after it.
pub proof fn lemma_layout_members_index(gs: Seq<Segment>)
    requires
        gs.len() % 2 == 1,
    ensures
        layout_members(gs).len() == (gs.len() - 1) / 2,
        forall|j: int| 0 <= j < (gs.len() - 1) / 2 ==> #[trigger] layout_members(gs)[j] == (seg_key(gs[2 * j]), gs[2 * j + 1]),
    decreases gs.len(),
{
    if gs.len() >= 3 {
        let tail = gs.skip(2);
        lemma_layout_members_index(tail);
        assert forall|j: int| 0 <= j < (gs.len() - 1) / 2 implies #[trigger] layout_members(gs)[j] == (seg_key(gs[2 * j]), gs[2 * j + 1]) by {
            if j > 0 {
                assert(layout_members(gs)[j] == layout_members(tail)[j - 1]);
                assert(tail[2 * (j - 1)] == gs[2 * j]);
                assert(tail[2 * (j - 1) + 1] == gs[2 * j + 1]);
            }
        }
    }
}

/// Whether no two names of a list are the same.
pub open spec fn distinct_names(names: Seq<Seq<char>>) -> bool {
    forall|a: int, b: int| 0 <= a < names.len() && 0 <= b < names.len() && a != b ==> names[a] != names[b]
}

/// In members whose keys are distinct names, in order, each name finds
/// its own member.
pub proof fn lemma_member_of_names(ms: Seq<(Seq<char>, Segment)>, names: Seq<Seq<char>>, j: int)
    requires
        ms.len() == names.len(),
        forall|a: int| 0 <= a < ms.len() ==> (#[trigger] ms[a]).0 == names[a],
        distinct_names(names),
        0 <= j < ms.len(),
    ensures
        member(ms, names[j]) == Some(ms[j].1),
{
    assert forall|a: int| 0 <= a < ms.len() && a != j implies (#[trigger] ms[a]).0 != names[j] by {
        assert(names[a] != names[j]);
    }
    lemma_member_unique(ms, names[j], j);
}

/// Every integer of the segments is within the digit limit.
pub open spec fn ints_bounded(gs: Seq<Segment>) -> bool {
    forall|i: int|
        0 <= i < gs.len() ==> match #[trigger] gs[i] {
            Segment::Int(v) => -pow10(MAX_DIGITS as nat) < v < pow10(MAX_DIGITS as nat),
            _ => true,
        }
}

proof fn lemma_escape_identity(s: Seq<char>)
    requires
        forall|j: int| 0 <= j < s.len() ==> escape_char(#[trigger] s[j]) == seq![s[j]],
    ensures
        escape(s) == s,
    decreases s.len(),
{
    if s.len() > 0 {
        let tail = s.drop_first();
        assert forall|j: int| 0 <= j < tail.len() implies escape_char(#[trigger] tail[j]) == seq![tail[j]] by {
            assert(tail[j] == s[j + 1]);
        }
        lemma_escape_identity(tail);
        assert(escape_char(s[0]) == seq![s[0]]);
        assert(seq![s[0]] + tail =~= s);
    }
}

proof fn lemma_render_two(gs: Seq<Segment>)
    requires
        gs.len() >= 2,
    ensures
        render(gs) == render_segment(gs[0]) + render_segment(gs[1]) + render(gs.skip(2)),
{
    let t1 = gs.drop_first();
    assert(t1.drop_first() =~= gs.skip(2));
    assert(t1[0] == gs[1]);
    assert(render(gs) == render_segment(gs[0]) + render(t1));
    assert(render(t1) == render_segment(gs[1]) + render(t1.drop_first()));
    assert(render(gs) =~= render_segment(gs[0]) + render_segment(gs[1]) + render(gs.skip(2)));
}

proof fn lemma_number_run_prefix(a: Seq<char>, rest: Seq<char>)
    requires
        forall|i: int| 0 <= i < a.len() ==> is_number_char(#[trigger] a[i]),
        rest.len() > 0,
        !is_number_char(rest[0]),
    ensures
        number_run(a + rest) == a.len(),
    decreases a.len(),
{
    if a.len() == 0 {
        assert(a + rest =~= rest);
    } else {
        let tail = a.skip(1);
        assert forall|i: int| 0 <= i < tail.len() implies is_number_char(#[trigger] tail[i]) by {
            assert(tail[i] == a[i + 1]);
        }
        lemma_number_run_prefix(tail, rest);
        assert((a + rest).skip(1) =~= tail + rest);
        assert((a + rest)[0] == a[0]);
    }
}

/// The text of a value, followed by a text that starts with `,` or `}`,
/// is read back as that value.
proof fn lemma_value_roundtrip(v: Segment, rest: Seq<char>)
    requires
        !(v is Lit),
        v matches Segment::Int(x) ==> -pow10(MAX_DIGITS as nat) < x < pow10(MAX_DIGITS as nat),
        rest.len() > 0,
        rest[0] == ',' || rest[0] == '}',
    ensures
        value_prefix(render_segment(v) + rest) == Some((v, render_segment(v).len())),
        render_segment(v).len() > 0,
        !is_json_whitespace((render_segment(v) + rest)[0]),
{
    let t = render_segment(v) + rest;
    match v {
        Segment::Str(x) => {
            lemma_string_roundtrip(x, rest);
            assert(t.skip(1) =~= escape(x) + seq!['"'] + rest);
            assert(t[0] == '"');
        },
        Segment::Int(x) => {
            assert(!is_digit_char(rest[0]));
            lemma_int_roundtrip(x, rest);
            let ds = decimal(x);
            let n: nat = if x < 0 { (-x) as nat } else { x as nat };
            lemma_digits_of_props(n);
            assert forall|i: int| 0 <= i < ds.len() implies is_number_char(#[trigger] ds[i]) by {
                if x < 0 {
                    if i > 0 {
                        assert(ds[i] == digits_of(n)[i - 1]);
                    }
                } else {
                    assert(ds[i] == digits_of(n)[i]);
                }
            }
            assert(!is_number_char(rest[0]));
            lemma_number_run_prefix(ds, rest);
            assert(ds.len() > 0);
            assert(t[0] == ds[0]);
            assert(is_number_char(ds[0]));
            assert(t.len() >= 4 && t.take(4) == word_true() ==> t[0] == 't');
            assert(t.len() >= 5 && t.take(5) == word_false() ==> t[0] == 'f');
            assert(t.len() >= 4 && t.take(4) == word_null() ==> t[0] == 'n');
        },
        Segment::Lit(_) => {},
    }
}

/// A member written compactly, followed by a text that starts with `,` or
/// `}`, is read back as that member, up to that text.
proof fn lemma_member_step(k: Seq<char>, v: Segment, r: Seq<char>)
    requires
        escape(k) == k,
        !(v is Lit),
        v matches Segment::Int(x) ==> -pow10(MAX_DIGITS as nat) < x < pow10(MAX_DIGITS as nat),
        r.len() > 0,
        r[0] == ',' || r[0] == '}',
    ensures
        ({
            let s = seq!['"'] + k + seq!['"', ':'] + render_segment(v) + r;
            &&& member_prefix(s) == Some(((k, v), (s.len() - r.len()) as nat))
            &&& s.skip(s.len() - r.len()) == r
        }),
{
    let vt = render_segment(v);
    let s = seq!['"'] + k + seq!['"', ':'] + vt + r;
    assert(ws_len(s) == 0);
    let rest_k = seq![':'] + vt + r;
    assert(s.skip(1) =~= escape(k) + seq!['"'] + rest_k);
    lemma_string_roundtrip(k, rest_k);
    let n = k.len() + 1;
    let b0 = 1 + n;
    assert(s.skip(b0 as int) =~= rest_k);
    assert(ws_len(rest_k) == 0);
    assert(s[b0 as int] == ':');
    let vr = vt + r;
    lemma_value_roundtrip(v, r);
    assert(ws_len(vr) == 0);
    let c = b0 + 1;
    assert(s.skip(c as int) =~= vr);
    let d = c + vt.len();
    assert(s.skip(d as int) =~= r);
    assert(ws_len(r) == 0);
    assert(s.len() == d + r.len());
}

/// The members laid out by a layout are read back from the text that
/// follows its opening character.
#[verifier::spinoff_prover]
#[verifier::rlimit(40)]
pub proof fn lemma_members_roundtrip(gs: Seq<Segment>, open: char)
    requires
        members_layout(gs, open),
        ints_bounded(gs),
    ensures
        members_body(render(gs).skip(1)) == Some(layout_members(gs)),
    decreases gs.len(),
{
    let l = match gs[0] {
        Segment::Lit(l) => l,
        _ => Seq::empty(),
    };
    assert(gs[0] matches Segment::Lit(l0) && is_key_piece(l0, open));
    assert(is_key_piece(l, open));
    let k = key_of(l);
    let v = gs[1];
    assert(!(v is Lit));
    let tail = gs.skip(2);
    let r = render(tail);
    lemma_render_two(gs);
    let vt = render_segment(v);
    assert(render_segment(gs[0]) == l);
    assert(l =~= seq![open, '"'] + k + seq!['"', ':']);
    assert forall|j: int| 0 <= j < k.len() implies escape_char(#[trigger] k[j]) == seq![k[j]] by {
        assert(k[j] == l[j + 2]);
    }
    lemma_escape_identity(k);
    assert(tail.len() >= 1);
    assert(r == render_segment(tail[0]) + render(tail.drop_first()));
    if tail.len() == 1 {
        assert(tail[0] == gs.last());
        assert(tail.drop_first() =~= Seq::<Segment>::empty());
        assert(r =~= seq!['}']);
    } else {
        assert(tail[0] == gs[2]);
        assert(gs[2] matches Segment::Lit(l2) && is_key_piece(l2, ','));
        assert(r[0] == ',');
    }
    assert(v matches Segment::Int(x) ==> -pow10(MAX_DIGITS as nat) < x < pow10(MAX_DIGITS as nat)) by {
        let g1 = gs[1];
        assert(match g1 {
            Segment::Int(x) => -pow10(MAX_DIGITS as nat) < x < pow10(MAX_DIGITS as nat),
            _ => true,
        });
    }
    lemma_member_step(k, v, r);
    let s = render(gs).skip(1);
    assert(s =~= seq!['"'] + k + seq!['"', ':'] + vt + r);
    let d = (s.len() - r.len()) as nat;
    assert(s[d as int] == r[0]);
    assert(s.skip((d + 1) as int) =~= r.skip(1));
    if tail.len() == 1 {
        assert(r.skip(1) =~= Seq::<char>::empty());
        assert(layout_members(tail) =~= Seq::<(Seq<char>, Segment)>::empty());
        assert(layout_members(gs) =~= seq![(k, v)]);
    } else {
        assert(members_layout(tail, ',')) by {
            assert forall|i: int| 0 <= i < tail.len() - 1 && i % 2 == 0 implies
                ((#[trigger] tail[i]) matches Segment::Lit(l2) && is_key_piece(l2, if i == 0 { ',' } else { ',' })) by {
                assert(tail[i] == gs[i + 2]);
            }
            assert forall|i: int| 0 <= i < tail.len() - 1 && i % 2 == 1 implies !((#[trigger] tail[i]) is Lit) by {
                assert(tail[i] == gs[i + 2]);
            }
            assert(tail.last() == gs.last());
        }
        assert(ints_bounded(tail)) by {
            assert forall|i: int| 0 <= i < tail.len() implies match #[trigger] tail[i] {
                Segment::Int(x) => -pow10(MAX_DIGITS as nat) < x < pow10(MAX_DIGITS as nat),
                _ => true,
            } by {
                assert(tail[i] == gs[i + 2]);
            }
        }
        lemma_members_roundtrip(tail, ',');
    }
}

/// The text of an object layout is read back as the members it lays out.
pub proof fn lemma_object_roundtrip(gs: Seq<Segment>)
    requires
        members_layout(gs, '{'),
        ints_bounded(gs),
    ensures
        parse_object(render(gs)) == Some(layout_members(gs)),
{
    lemma_members_roundtrip(gs, '{');
    lemma_render_two(gs);
    let l = match gs[0] {
        Segment::Lit(l) => l,
        _ => Seq::empty(),
    };
    assert(gs[0] matches Segment::Lit(l0) && is_key_piece(l0, '{'));
    assert(render_segment(gs[0]) == l);
    assert(render(gs)[0] == '{');
    assert(ws_len(render(gs)) == 0);
}

// ---------------------------------------------------------------------------
// The reading, in memory
// ---------------------------------------------------------------------------

/// The members read, as mathematical values.
pub open spec fn members_view(ms: Seq<(Vec<char>, Field)>) -> Seq<(Seq<char>, Segment)> {
    ms.map_values(|m: (Vec<char>, Field)| (m.0@, m.1@))
}

proof fn lemma_skip_skip(t: Seq<char>, i: int, x: int)
    requires
        0 <= i,
        0 <= x,
        i + x <= t.len(),
    ensures
        t.skip(i).skip(x) == t.skip(i + x),
{
    assert(t.skip(i).skip(x) =~= t.skip(i + x));
}

/// The position after the JSON white space that starts at `i`.
pub fn skip_ws(t: &[char], i: usize) -> (j: usize)
    requires
        i <= t@.len(),
    ensures
        j <= t@.len(),
        j == i + ws_len(t@.skip(i as int)),
{
    let mut j: usize = i;
    while j < t.len() && (t[j] == ' ' || t[j] == '\t' || t[j] == '\n' || t[j] == '\r')
        invariant
            i <= j <= t@.len(),
            i + ws_len(t@.skip(i as int)) == j + ws_len(t@.skip(j as int)),
        decreases t@.len() - j,
    {
        proof {
            lemma_skip_skip(t@, j as int, 1);
            assert(t@.skip(j as int)[0] == t@[j as int]);
        }
        j = j + 1;
    }
    proof {
        if j < t@.len() {
            assert(t@.skip(j as int)[0] == t@[j as int]);
        }
    }
    j
}

/// Reads one of the words `true`, `false` or `null` at `i`: the word and
/// the position after it.
pub fn read_word(t: &[char], i: usize) -> (r: Option<(Vec<char>, usize)>)
    requires
        i <= t@.len(),
    ensures
        match (r, word_prefix(t@.skip(i as int))) {
            (Some((w, e)), Some((w2, n))) => w@ == w2 && e == i + n,
            (None, None) => true,
            _ => false,
        },
{
    let ghost s = t@.skip(i as int);
    let n = t.len() - i;
    if n >= 4 && t[i] == 't' && t[i + 1] == 'r' && t[i + 2] == 'u' && t[i + 3] == 'e' {
        assert(s.take(4) =~= word_true());
        return Some((vec!['t', 'r', 'u', 'e'], i + 4));
    }
    assert(s.len() >= 4 && s.take(4) == word_true() ==> false) by {
        if s.len() >= 4 && s.take(4) == word_true() {
            assert(s.take(4)[0] == t@[i as int] && s.take(4)[1] == t@[i + 1] && s.take(4)[2] == t@[i + 2]
                && s.take(4)[3] == t@[i + 3]);
        }
    }
    if n >= 5 && t[i] == 'f' && t[i + 1] == 'a' && t[i + 2] == 'l' && t[i + 3] == 's' && t[i + 4] == 'e' {
        assert(s.take(5) =~= word_false());
        return Some((vec!['f', 'a', 'l', 's', 'e'], i + 5));
    }
    assert(s.len() >= 5 && s.take(5) == word_false() ==> false) by {
        if s.len() >= 5 && s.take(5) == word_false() {
            assert(s.take(5)[0] == t@[i as int] && s.take(5)[1] == t@[i + 1] && s.take(5)[2] == t@[i + 2]
                && s.take(5)[3] == t@[i + 3] && s.take(5)[4] == t@[i + 4]);
        }
    }
    if n >= 4 && t[i] == 'n' && t[i + 1] == 'u' && t[i + 2] == 'l' && t[i + 3] == 'l' {
        assert(s.take(4) =~= word_null());
        return Some((vec!['n', 'u', 'l', 'l'], i + 4));
    }
    assert(s.len() >= 4 && s.take(4) == word_null() ==> false) by {
        if s.len() >= 4 && s.take(4) == word_null() {
            assert(s.take(4)[0] == t@[i as int] && s.take(4)[1] == t@[i + 1] && s.take(4)[2] == t@[i + 2]
                && s.take(4)[3] == t@[i + 3]);
        }
    }
    None
}

/// The position after the number characters that start at `i`.
fn number_end(t: &[char], i: usize) -> (e: usize)
    requires
        i <= t@.len(),
    ensures
        e == i + number_run(t@.skip(i as int)),
        e <= t@.len(),
{
    let mut e: usize = i;
    while e < t.len() && (('0' <= t[e] && t[e] <= '9') || t[e] == '-' || t[e] == '+' || t[e] == '.' || t[e] == 'e'
        || t[e] == 'E')
        invariant
            i <= e <= t@.len(),
            i + number_run(t@.skip(i as int)) == e + number_run(t@.skip(e as int)),
        decreases t@.len() - e,
    {
        proof {
            lemma_skip_skip(t@, e as int, 1);
            assert(t@.skip(e as int)[0] == t@[e as int]);
        }
        e = e + 1;
    }
    proof {
        if e < t@.len() {
            assert(t@.skip(e as int)[0] == t@[e as int]);
        }
    }
    e
}

/// Scans the inside of an array or object that starts at `start` (just
/// after its opening bracket): the position after its closing bracket (see
/// `scan_nested`).
fn scan_nested_end(t: &[char], start: usize) -> (r: Option<usize>)
    requires
        1 <= start <= t@.len(),
    ensures
        match scan_nested(t@.skip(start as int), 1, false, false) {
            Some(n) => r == Some((start + n) as usize) && start + n <= t@.len(),
            None => r is None,
        },
{
    let mut pos: usize = start;
    let mut depth: usize = 1;
    let mut in_str = false;
    let mut esc = false;
    loop
        invariant
            start <= pos <= t@.len(),
            1 <= start,
            1 <= depth <= pos - start + 1,
            !in_str ==> !esc,
            scan_nested(t@.skip(start as int), 1, false, false) == match scan_nested(
                t@.skip(pos as int),
                depth as nat,
                in_str,
                esc,
            ) {
                Some(n) => Some((n + (pos - start)) as nat),
                None => None::<nat>,
            },
        decreases t@.len() - pos,
    {
        let ghost s = t@.skip(pos as int);
        if pos >= t.len() {
            assert(s.len() == 0);
            return None;
        }
        let c = t[pos];
        proof {
            assert(s[0] == c);
            lemma_skip_skip(t@, pos as int, 1);
        }
        let ghost d0 = depth as nat;
        let ghost i0 = in_str;
        let ghost e0 = esc;
        if in_str {
            if esc {
                esc = false;
            } else if c == '\\' {
                esc = true;
            } else if c == '"' {
                in_str = false;
            }
        } else if c == '"' {
            in_str = true;
        } else if c == '[' || c == '{' {
            depth = depth + 1;
        } else if c == ']' || c == '}' {
            if depth <= 1 {
                return Some(pos + 1);
            }
            depth = depth - 1;
        }
        assert(scan_nested(s, d0, i0, e0) == match scan_nested(s.skip(1), depth as nat, in_str, esc) {
            Some(n) => Some(n + 1),
            None => None::<nat>,
        });
        pos = pos + 1;
    }
}

/// Reads a value at `i`: the value and the position after it.
pub fn read_value(t: &[char], i: usize) -> (r: Option<(Field, usize)>)
    requires
        i <= t@.len(),
    ensures
        match (r, value_prefix(t@.skip(i as int))) {
            (Some((f, e)), Some((v, n))) => f@ == v && e == i + n && e <= t@.len(),
            (None, None) => true,
            _ => false,
        },
{
    let ghost s = t@.skip(i as int);
    if i < t.len() && t[i] == '"' {
        proof {
            lemma_skip_skip(t@, i as int, 1);
            lemma_string_parse_sound(t@.skip(i + 1));
        }
        return match parse_string_at(t, i + 1) {
            Some((d, e)) => Some((Field::Str(d), e)),
            None => None,
        };
    }
    if i < t.len() && (t[i] == '[' || t[i] == '{') {
        proof {
            lemma_skip_skip(t@, i as int, 1);
        }
        return match scan_nested_end(t, i + 1) {
            Some(e) => Some((Field::Lit(Vec::new()), e)),
            None => None,
        };
    }
    match read_word(t, i) {
        Some((_, e)) => Some((Field::Lit(Vec::new()), e)),
        None => {
            let k = number_end(t, i);
            if k == i {
                return None;
            }
            proof {
                lemma_int_parse_sound(s);
            }
            match parse_int_at(t, i) {
                Some((v, e)) => if e == k {
                    Some((Field::Int(v), e))
                } else {
                    Some((Field::Lit(Vec::new()), k))
                },
                None => Some((Field::Lit(Vec::new()), k)),
            }
        },
    }
}

/// Reads a member at `i` (just after `{` or `,`): the key, the value and
/// the position after the white space that follows the value.
pub fn read_member(t: &[char], i: usize) -> (r: Option<(Vec<char>, Field, usize)>)
    requires
        i <= t@.len(),
    ensures
        match (r, member_prefix(t@.skip(i as int))) {
            (Some((k, f, e)), Some((m, d))) => k@ == m.0 && f@ == m.1 && e == i + d && e <= t@.len(),
            (None, None) => true,
            _ => false,
        },
{
    let ghost s = t@.skip(i as int);
    let a = skip_ws(t, i);
    proof {
        lemma_skip_skip(t@, i as int, a - i);
    }
    if !(a < t.len() && t[a] == '"') {
        return None;
    }
    proof {
        lemma_skip_skip(t@, i as int, a - i + 1);
        lemma_string_parse_sound(t@.skip(a + 1));
    }
    let (k, e1) = match parse_string_at(t, a + 1) {
        Some(p) => p,
        None => return None,
    };
    proof {
        lemma_skip_skip(t@, i as int, e1 - i);
    }
    let b = skip_ws(t, e1);
    proof {
        lemma_skip_skip(t@, i as int, b - i);
    }
    if !(b < t.len() && t[b] == ':') {
        return None;
    }
    proof {
        lemma_skip_skip(t@, i as int, b - i + 1);
    }
    let c = skip_ws(t, b + 1);
    proof {
        lemma_skip_skip(t@, i as int, c - i);
    }
    let (f, e2) = match read_value(t, c) {
        Some(p) => p,
        None => return None,
    };
    proof {
        lemma_skip_skip(t@, i as int, e2 - i);
    }
    let d = skip_ws(t, e2);
    Some((k, f, d))
}

/// Reads a text as a JSON object with at least one member (see
/// `parse_object`): its members in the order written.
pub fn read_object(t: &[char]) -> (r: Option<Vec<(Vec<char>, Field)>>)
    ensures
        match (r, parse_object(t@)) {
            (Some(ms), Some(v)) => members_view(ms@) == v,
            (None, None) => true,
            _ => false,
        },
{
    assert(t@.skip(0) =~= t@);
    let a = skip_ws(t, 0);
    if !(a < t.len() && t[a] == '{') {
        return None;
    }
    let start = a + 1;
    let mut out: Vec<(Vec<char>, Field)> = Vec::new();
    let mut pos: usize = start;
    loop
        invariant
            start <= pos <= t@.len(),
            parse_object(t@) == match members_body(t@.skip(pos as int)) {
                Some(rest) => Some(members_view(out@) + rest),
                None => None::<Seq<(Seq<char>, Segment)>>,
            },
        decreases t@.len() - pos,
    {
        let ghost s = t@.skip(pos as int);
        let (k, f, d) = match read_member(t, pos) {
            Some(p) => p,
            None => return None,
        };
        if !(d < t.len()) {
            return None;
        }
        proof {
            lemma_skip_skip(t@, pos as int, d - pos);
            lemma_skip_skip(t@, pos as int, d - pos + 1);
            assert(s[d - pos] == t@[d as int]);
        }
        let ghost before = members_view(out@);
        if t[d] == ',' {
            out.push((k, f));
            proof {
                assert(members_view(out@) =~= before + seq![(k@, f@)]);
                match members_body(t@.skip(d + 1)) {
                    Some(rest) => {
                        assert(before + (seq![(k@, f@)] + rest) =~= members_view(out@) + rest);
                    },
                    None => {},
                }
            }
            pos = d + 1;
        } else if t[d] == '}' {
            let e = skip_ws(t, d + 1);
            if e == t.len() {
                out.push((k, f));
                proof {
                    assert(members_view(out@) =~= before + seq![(k@, f@)]);
                }
                return Some(out);
            } else {
                return None;
            }
        } else {
            return None;
        }
    }
}

/// Finds the member with a key: its index when exactly one member has the
/// key (see `member`), `None` otherwise.
pub fn find_member(ms: &Vec<(Vec<char>, Field)>, k: &[char]) -> (r: Option<usize>)
    ensures
        match r {
            Some(j) => j < ms@.len() && member(members_view(ms@), k@) == Some(members_view(ms@)[j as int].1),
            None => member(members_view(ms@), k@) is None,
        },
{
    let ghost v = members_view(ms@);
    let mut count: usize = 0;
    let mut found: Option<usize> = None;
    let mut j: usize = 0;
    while j < ms.len()
        invariant
            j <= ms@.len(),
            v == members_view(ms@),
            count <= j,
            count == key_count(v.take(j as int), k@),
            match found {
                Some(x) => x < j && last_value(v.take(j as int), k@) == Some(v[x as int].1),
                None => last_value(v.take(j as int), k@) is None,
            },
        decreases ms@.len() - j,
    {
        let ghost prev = v.take(j as int);
        assert(v.take(j + 1).drop_last() =~= prev);
        assert(v.take(j + 1).last() == v[j as int]);
        if crate::text::chars_equal(ms[j].0.as_slice(), k) {
            count = count + 1;
            found = Some(j);
        }
        j = j + 1;
    }
    assert(v.take(ms@.len() as int) =~= v);
    if count == 1 {
        found
    } else {
        None
    }
}

} // verus!
