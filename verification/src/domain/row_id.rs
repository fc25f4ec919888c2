//! `RowID`: a time-ordered (UUID version 7) row identifier.
//!
//! A `RowID` holds the 128 bits of a UUID, most significant byte first, so
//! that comparing the bits as an unsigned integer is the byte-wise order of
//! the UUID, which for version 7 identifiers is their creation order.

use vstd::prelude::*;
use vstd::multiset::Multiset;

use crate::text::string_from_chars;
use crate::uuid_text::{hyphenated, hyphenated_chars, lemma_hyphenated_roundtrip, parse_hyphenated};

verus! {

broadcast use vstd::seq_lib::group_to_multiset_ensures, vstd::multiset::group_multiset_axioms;

/// A unique, time-ordered row identifier (the bits of a UUID).
#[derive(Debug, Clone, Copy, Default, PartialEq, Eq, Structural, PartialOrd, Ord, Hash)]
pub struct RowID(pub u128);

/// The version number of a UUID held as 128 bits (bits 76 to 79).
pub open spec fn uuid_version(bits: u128) -> u128 {
    (bits >> 76u128) & 0xfu128
}

/// The variant field of a UUID held as 128 bits (bits 62 and 63); `2` is
/// the RFC 4122 variant.
pub open spec fn uuid_variant(bits: u128) -> u128 {
    (bits >> 62u128) & 0x3u128
}

/// A sequence of row ids in ascending order.
pub open spec fn sorted_ascending(s: Seq<RowID>) -> bool {
    forall|i: int, j: int| 0 <= i <= j < s.len() ==> s[i].0 <= s[j].0
}

/// A sequence of row ids in descending order.
pub open spec fn sorted_descending(s: Seq<RowID>) -> bool {
    forall|i: int, j: int| 0 <= i <= j < s.len() ==> s[i].0 >= s[j].0
}

/// `m` is the least row id of the non-empty sequence `s`.
pub open spec fn is_least(s: Seq<RowID>, m: RowID) -> bool {
    &&& s.contains(m)
    &&& forall|i: int| 0 <= i < s.len() ==> m.0 <= #[trigger] s[i].0
}

/// `m` is the greatest row id of the non-empty sequence `s`.
pub open spec fn is_greatest(s: Seq<RowID>, m: RowID) -> bool {
    &&& s.contains(m)
    &&& forall|i: int| 0 <= i < s.len() ==> #[trigger] s[i].0 <= m.0
}

/// A fresh UUID version 7 from `uuid::Uuid::now_v7`, as its 128 bits
/// (`Uuid::as_u128`, most significant byte first). The value depends on the
/// clock and on chance; the contract states only that its version field is 7
/// and its variant the RFC 4122 one, which the crate's encoding of version 7
/// identifiers sets (`encode_unix_timestamp_millis`).
#[verifier::external_body]
pub(crate) fn uuid_now_v7() -> (r: u128)
    ensures
        uuid_version(r) == 7,
        uuid_variant(r) == 2,
{
    uuid::Uuid::now_v7().as_u128()
}

/// What `uuid::Uuid::parse_str` gives for a text: the 128 bits of the UUID
/// it denotes, or `None` where it rejects the text.
pub uninterp spec fn spec_uuid_parse(s: Seq<char>) -> Option<u128>;

/// The error type of `uuid::Uuid::parse_str`.
#[verifier::external_type_specification]
#[verifier::external_body]
pub struct ExUuidError(uuid::Error);

/// `uuid::Uuid::parse_str`, with the parsed UUID given as its 128 bits.
/// Per the crate's source, a 36-character text in the hyphenated form is
/// read digit by digit, most significant first, so the lower-case
/// hyphenated text of some bits parses to those bits.
#[verifier::external_body]
fn uuid_parse_str(s: &str) -> (r: Result<u128, uuid::Error>)
    ensures
        match r {
            Ok(v) => spec_uuid_parse(s@) == Some(v),
            Err(_) => spec_uuid_parse(s@) is None,
        },
        parse_hyphenated(s@) is Some ==> r is Ok && r->Ok_0 == parse_hyphenated(s@)->0,
{
    uuid::Uuid::parse_str(s).map(|u| u.as_u128())
}

/// Index of the least element of a non-empty vector.
fn index_of_least(v: &Vec<RowID>) -> (k: usize)
    requires
        v.len() > 0,
    ensures
        k < v.len(),
        forall|i: int| 0 <= i < v.len() ==> v@[k as int].0 <= #[trigger] v@[i].0,
{
    let mut k: usize = 0;
    let mut i: usize = 1;
    while i < v.len()
        invariant
            0 < i <= v.len(),
            k < i,
            forall|j: int| 0 <= j < i ==> v@[k as int].0 <= #[trigger] v@[j].0,
        decreases v.len() - i,
    {
        if v[i].0 < v[k].0 {
            k = i;
        }
        i = i + 1;
    }
    k
}

/// Index of the greatest element of a non-empty vector.
fn index_of_greatest(v: &Vec<RowID>) -> (k: usize)
    requires
        v.len() > 0,
    ensures
        k < v.len(),
        forall|i: int| 0 <= i < v.len() ==> #[trigger] v@[i].0 <= v@[k as int].0,
{
    let mut k: usize = 0;
    let mut i: usize = 1;
    while i < v.len()
        invariant
            0 < i <= v.len(),
            k < i,
            forall|j: int| 0 <= j < i ==> #[trigger] v@[j].0 <= v@[k as int].0,
        decreases v.len() - i,
    {
        if v[i].0 > v[k].0 {
            k = i;
        }
        i = i + 1;
    }
    k
}

/// Removing the element at `k` of `s` and pushing it on `t` keeps the
/// combined multiset.
proof fn lemma_move_element(s: Seq<RowID>, t: Seq<RowID>, k: int)
    requires
        0 <= k < s.len(),
    ensures
        t.push(s[k]).to_multiset().add(s.remove(k).to_multiset())
            =~= t.to_multiset().add(s.to_multiset()),
{
    assert(s.to_multiset().count(s[k]) > 0) by {
        assert(s.contains(s[k]));
    }
}

/// Selection sort: the elements of `ids` in ascending (or descending) order.
fn sort_by_selection(ids: Vec<RowID>, ascending: bool) -> (r: Vec<RowID>)
    ensures
        r@.to_multiset() == ids@.to_multiset(),
        ascending ==> sorted_ascending(r@),
        !ascending ==> sorted_descending(r@),
{
    let mut rest = ids;
    let mut out: Vec<RowID> = Vec::new();
    while rest.len() > 0
        invariant
            out@.to_multiset().add(rest@.to_multiset()) == ids@.to_multiset(),
            ascending ==> sorted_ascending(out@),
            !ascending ==> sorted_descending(out@),
            ascending ==> forall|i: int, j: int|
                0 <= i < out@.len() && 0 <= j < rest@.len() ==> out@[i].0 <= rest@[j].0,
            !ascending ==> forall|i: int, j: int|
                0 <= i < out@.len() && 0 <= j < rest@.len() ==> out@[i].0 >= rest@[j].0,
        decreases rest.len(),
    {
        let k = if ascending {
            index_of_least(&rest)
        } else {
            index_of_greatest(&rest)
        };
        proof {
            lemma_move_element(rest@, out@, k as int);
        }
        let ghost old_rest = rest@;
        let x = rest.remove(k);
        assert(forall|j: int| 0 <= j < rest@.len() ==> rest@[j] == #[trigger] old_rest.remove(k as int)[j]);
        out.push(x);
    }
    assert(rest@.to_multiset() =~= Multiset::empty());
    assert(out@.to_multiset().add(Multiset::empty()) =~= out@.to_multiset());
    out
}

/// Two orderings of the same row ids that are both ascending are the same
/// sequence: sorting has exactly one result.
pub proof fn lemma_ascending_order_is_unique(a: Seq<RowID>, b: Seq<RowID>)
    requires
        sorted_ascending(a),
        sorted_ascending(b),
        a.to_multiset() == b.to_multiset(),
    ensures
        a == b,
    decreases a.len(),
{
    if a.len() == 0 {
        assert(b.len() == 0) by {
            assert(b.to_multiset().len() == 0);
        }
        assert(a =~= b);
    } else {
        assert(b.len() == a.len()) by {
            assert(a.to_multiset().len() == a.len());
            assert(b.to_multiset().len() == b.len());
        }
        // a[0] occurs in b, so b[0] <= a[0]; and symmetrically.
        assert(a.contains(a[0]));
        assert(b.to_multiset().count(a[0]) > 0);
        assert(b.contains(a[0]));
        let ia = choose|i: int| 0 <= i < b.len() && b[i] == a[0];
        assert(b[0].0 <= a[0].0);
        assert(b.contains(b[0]));
        assert(a.to_multiset().count(b[0]) > 0);
        assert(a.contains(b[0]));
        let ib = choose|i: int| 0 <= i < a.len() && a[i] == b[0];
        assert(a[0].0 <= b[0].0);
        assert(a[0] == b[0]);
        let a1 = a.remove(0);
        let b1 = b.remove(0);
        assert(a1.to_multiset() == a.to_multiset().remove(a[0]));
        assert(b1.to_multiset() == b.to_multiset().remove(b[0]));
        assert(sorted_ascending(a1)) by {
            assert forall|i: int, j: int| 0 <= i <= j < a1.len() implies a1[i].0 <= a1[j].0 by {
                assert(a1[i] == a[i + 1]);
                assert(a1[j] == a[j + 1]);
            }
        }
        assert(sorted_ascending(b1)) by {
            assert forall|i: int, j: int| 0 <= i <= j < b1.len() implies b1[i].0 <= b1[j].0 by {
                assert(b1[i] == b[i + 1]);
                assert(b1[j] == b[j + 1]);
            }
        }
        lemma_ascending_order_is_unique(a1, b1);
        assert forall|i: int| 0 <= i < a.len() implies a[i] == b[i] by {
            if i > 0 {
                assert(a[i] == a1[i - 1]);
                assert(b[i] == b1[i - 1]);
            }
        }
        assert(a =~= b);
    }
}

/// The reverse of a descending ordering is the ascending ordering of the same
/// row ids: sorting in descending order gives the ascending result reversed.
pub proof fn lemma_descending_is_reversed_ascending(d: Seq<RowID>, a: Seq<RowID>)
    requires
        sorted_descending(d),
        sorted_ascending(a),
        d.to_multiset() == a.to_multiset(),
    ensures
        d == a.reverse(),
{
    let r = d.reverse();
    assert(sorted_ascending(r)) by {
        assert forall|i: int, j: int| 0 <= i <= j < r.len() implies r[i].0 <= r[j].0 by {
            assert(r[i] == d[d.len() - 1 - i]);
            assert(r[j] == d[d.len() - 1 - j]);
        }
    }
    d.lemma_reverse_to_multiset();
    lemma_ascending_order_is_unique(r, a);
    assert(r.reverse() =~= d);
}

/// The first row id of an ascending ordering of `ids` is their least one
/// (what `min` returns), and the first of a descending ordering is their
/// greatest one (what `max` returns).
pub proof fn lemma_first_of_sorted_is_extreme(ids: Seq<RowID>, s: Seq<RowID>)
    requires
        s.to_multiset() == ids.to_multiset(),
        ids.len() > 0,
    ensures
        sorted_ascending(s) ==> is_least(ids, s[0]),
        sorted_descending(s) ==> is_greatest(ids, s[0]),
{
    assert(s.len() == ids.len()) by {
        assert(s.to_multiset().len() == s.len());
        assert(ids.to_multiset().len() == ids.len());
    }
    assert(s.contains(s[0]));
    assert(ids.to_multiset().count(s[0]) > 0);
    assert forall|i: int| 0 <= i < ids.len() implies s.contains(#[trigger] ids[i]) by {
        assert(ids.contains(ids[i]));
        assert(s.to_multiset().count(ids[i]) > 0);
    }
    if sorted_ascending(s) {
        assert forall|i: int| 0 <= i < ids.len() implies s[0].0 <= #[trigger] ids[i].0 by {
            assert(s.contains(ids[i]));
            let k = choose|k: int| 0 <= k < s.len() && s[k] == ids[i];
        }
    }
    if sorted_descending(s) {
        assert forall|i: int| 0 <= i < ids.len() implies #[trigger] ids[i].0 <= s[0].0 by {
            assert(s.contains(ids[i]));
            let k = choose|k: int| 0 <= k < s.len() && s[k] == ids[i];
        }
    }
}

/// `a` was created before `b` exactly when `b` was created after `a`, and of
/// two row ids exactly one of "before", "after" and "equal" holds.
pub proof fn lemma_before_after_trichotomy(a: RowID, b: RowID)
    ensures
        (a.0 < b.0) == (b.0 > a.0),
        (a.0 < b.0) || (a.0 > b.0) || a == b,
        !((a.0 < b.0) && (a.0 > b.0)),
        a == b ==> !(a.0 < b.0) && !(a.0 > b.0),
{
}

/// A row id read back from its text is the same row id, and the text of a
/// row id is the only lower-case hyphenated text that reads to it.
pub proof fn lemma_row_id_text_roundtrip(id: RowID, s: Seq<char>)
    ensures
        parse_hyphenated(hyphenated(id.0)) == Some(id.0),
        parse_hyphenated(s) == Some(id.0) <==> s == hyphenated(id.0),
{
    lemma_hyphenated_roundtrip(id.0, s);
}

impl RowID {
    /// A new row id: a fresh UUID version 7 of the RFC 4122 variant.
    pub fn new() -> (r: Self)
        ensures
            uuid_version(r.0) == 7,
            uuid_variant(r.0) == 2,
    {
        RowID(uuid_now_v7())
    }

    /// The row id with the given UUID bits.
    pub fn from(bits: u128) -> (r: Self)
        ensures
            r.0 == bits,
    {
        RowID(bits)
    }

    /// Parses a row id from the text of a UUID, as `uuid::Uuid::parse_str`
    /// does; the error is the one that function reports.
    pub fn from_str(s: &str) -> (r: Result<Self, uuid::Error>)
        ensures
            match r {
                Ok(id) => spec_uuid_parse(s@) == Some(id.0),
                Err(_) => spec_uuid_parse(s@) is None,
            },
            parse_hyphenated(s@) matches Some(b) ==> (r matches Ok(id) && id.0 == b),
    {
        match uuid_parse_str(s) {
            Ok(bits) => Ok(RowID(bits)),
            Err(e) => Err(e),
        }
    }

    /// The UUID bits of this row id.
    pub fn into_uuid(self) -> (r: u128)
        ensures
            r == self.0,
    {
        self.0
    }

    /// The version number of the UUID.
    pub fn version_num(&self) -> (r: u128)
        ensures
            r == uuid_version(self.0),
    {
        (self.0 >> 76u128) & 0xfu128
    }

    /// Sorts row ids in ascending (creation) order, in place.
    pub fn sort_ascending(ids: &mut Vec<RowID>)
        ensures
            final(ids)@.to_multiset() == old(ids)@.to_multiset(),
            sorted_ascending(final(ids)@),
    {
        let mut taken: Vec<RowID> = Vec::new();
        std::mem::swap(ids, &mut taken);
        let sorted = sort_by_selection(taken, true);
        *ids = sorted;
    }

    /// Sorts row ids in descending (creation) order, in place.
    pub fn sort_descending(ids: &mut Vec<RowID>)
        ensures
            final(ids)@.to_multiset() == old(ids)@.to_multiset(),
            sorted_descending(final(ids)@),
    {
        let mut taken: Vec<RowID> = Vec::new();
        std::mem::swap(ids, &mut taken);
        let sorted = sort_by_selection(taken, false);
        *ids = sorted;
    }

    /// The row ids in ascending (creation) order, as a new vector.
    pub fn sorted_ascending(ids: Vec<RowID>) -> (r: Vec<RowID>)
        ensures
            r@.to_multiset() == ids@.to_multiset(),
            sorted_ascending(r@),
    {
        sort_by_selection(ids, true)
    }

    /// The row ids in descending (creation) order, as a new vector.
    pub fn sorted_descending(ids: Vec<RowID>) -> (r: Vec<RowID>)
        ensures
            r@.to_multiset() == ids@.to_multiset(),
            sorted_descending(r@),
    {
        sort_by_selection(ids, false)
    }

    /// The least (earliest created) row id, or `None` when there is none.
    pub fn min(ids: &Vec<RowID>) -> (r: Option<RowID>)
        ensures
            r is None <==> ids@.len() == 0,
            r matches Some(m) ==> is_least(ids@, m),
    {
        if ids.len() == 0 {
            None
        } else {
            let k = index_of_least(ids);
            assert(ids@.contains(ids@[k as int]));
            Some(ids[k])
        }
    }

    /// The greatest (latest created) row id, or `None` when there is none.
    pub fn max(ids: &Vec<RowID>) -> (r: Option<RowID>)
        ensures
            r is None <==> ids@.len() == 0,
            r matches Some(m) ==> is_greatest(ids@, m),
    {
        if ids.len() == 0 {
            None
        } else {
            let k = index_of_greatest(ids);
            assert(ids@.contains(ids@[k as int]));
            Some(ids[k])
        }
    }

    /// Whether this row id was created before `other` (orders strictly below it).
    pub fn is_before(&self, other: &RowID) -> (r: bool)
        ensures
            r == (self.0 < other.0),
    {
        self.0 < other.0
    }

    /// Whether this row id was created after `other` (orders strictly above it).
    pub fn is_after(&self, other: &RowID) -> (r: bool)
        ensures
            r == (self.0 > other.0),
    {
        self.0 > other.0
    }

    /// The row id as text: the UUID's hyphenated lower-case form (its
    /// `Display`).
    pub fn to_string(&self) -> (r: String)
        ensures
            r@ == hyphenated(self.0),
    {
        string_from_chars(hyphenated_chars(self.0).as_slice())
    }
}

} // verus!
