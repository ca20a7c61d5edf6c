//! The feed format: line-oriented, comma-separated records of the shape
//! `primaryId,value` or `primaryId,value,secondaryId`. Fields are trimmed of
//! surrounding whitespace; a record whose primary identifier or value is
//! empty after trimming is malformed and is skipped rather than aborting the
//! load; fields beyond the third are ignored.

use vstd::prelude::*;
use crate::index::{first_index, lemma_first_index};

verus! {

/// Whitespace as the feed format trims it: the characters with the Unicode
/// White_Space property.
pub open spec fn is_space(c: char) -> bool {
    let u = c as u32;
    u == 0x09 || u == 0x0a || u == 0x0b || u == 0x0c || u == 0x0d || u == 0x20 || u == 0x85
        || u == 0xa0 || u == 0x1680 || (0x2000 <= u && u <= 0x200a) || u == 0x2028 || u == 0x2029
        || u == 0x202f || u == 0x205f || u == 0x3000
}

/// Whether one character counts as trimmable whitespace.
pub fn is_space_char(c: char) -> (r: bool)
    ensures
        r == is_space(c),
{
    let u = c as u32;
    u == 0x09 || u == 0x0a || u == 0x0b || u == 0x0c || u == 0x0d || u == 0x20 || u == 0x85
        || u == 0xa0 || u == 0x1680 || (0x2000 <= u && u <= 0x200a) || u == 0x2028 || u == 0x2029
        || u == 0x202f || u == 0x205f || u == 0x3000
}

/// `s` with leading whitespace removed.
pub open spec fn trim_front(s: Seq<char>) -> Seq<char>
    decreases s.len(),
{
    if s.len() > 0 && is_space(s[0]) {
        trim_front(s.drop_first())
    } else {
        s
    }
}

/// `s` with trailing whitespace removed.
pub open spec fn trim_back(s: Seq<char>) -> Seq<char>
    decreases s.len(),
{
    if s.len() > 0 && is_space(s.last()) {
        trim_back(s.drop_last())
    } else {
        s
    }
}

/// `s` with surrounding whitespace removed.
pub open spec fn trim_spec(s: Seq<char>) -> Seq<char> {
    trim_back(trim_front(s))
}

/// `s` split at every comma. There is always at least one field; a comma at
/// the very start or end contributes an empty field.
pub open spec fn split_commas(s: Seq<char>) -> Seq<Seq<char>>
    decreases s.len(),
    via split_commas_decreases
{
    if !s.contains(',') {
        seq![s]
    } else {
        let i = first_index(s, ',');
        seq![s.take(i)] + split_commas(s.skip(i + 1))
    }
}

#[via_fn]
proof fn split_commas_decreases(s: Seq<char>) {
    if s.contains(',') {
        lemma_first_index(s, ',');
    }
}

/// Splitting a sequence whose first comma stands at `k` yields the prefix
/// before `k` and the split of the suffix after `k`.
pub proof fn lemma_split_at_comma(s: Seq<char>, k: int)
    requires
        0 <= k < s.len(),
        s[k] == ',',
        forall|j: int| 0 <= j < k ==> s[j] != ',',
    ensures
        split_commas(s) == seq![s.take(k)] + split_commas(s.skip(k + 1)),
{
    assert(s.contains(',')) by {
        assert(s[k] == ',');
    }
    lemma_first_index(s, ',');
    let fi = first_index(s, ',');
    if fi < k {
        assert(s[fi] != ',');
    }
    if k < fi {
        assert(s[k] != ',');
    }
}

/// Splitting a comma-free sequence yields that sequence as the one field.
pub proof fn lemma_split_no_comma(s: Seq<char>)
    requires
        forall|j: int| 0 <= j < s.len() ==> s[j] != ',',
    ensures
        split_commas(s) == seq![s],
{
    if s.contains(',') {
        let i = choose|i: int| 0 <= i < s.len() && s[i] == ',';
        assert(s[i] != ',');
    }
}

/// Model of one accepted feed record: a non-empty primary identifier, a
/// non-empty associated value, and an optional non-empty secondary
/// identifier, each already trimmed.
pub struct RecordModel {
    pub primary: Seq<char>,
    pub value: Seq<char>,
    pub secondary: Option<Seq<char>>,
}

/// What one feed line means: `None` for a malformed (skipped) record, or the
/// trimmed fields. A line holds a record only if it has at least two fields;
/// the primary identifier and the value must be non-empty after trimming; a
/// missing or empty third field means the record names no secondary
/// identifier; fields beyond the third are ignored.
pub open spec fn record_of(line: Seq<char>) -> Option<RecordModel> {
    let parts = split_commas(trim_spec(line));
    if parts.len() < 2 {
        None
    } else {
        let p = trim_spec(parts[0]);
        let v = trim_spec(parts[1]);
        if p.len() == 0 || v.len() == 0 {
            None
        } else {
            let sid = if parts.len() >= 3 {
                trim_spec(parts[2])
            } else {
                Seq::<char>::empty()
            };
            Some(
                RecordModel {
                    primary: p,
                    value: v,
                    secondary: if sid.len() == 0 {
                        None
                    } else {
                        Some(sid)
                    },
                },
            )
        }
    }
}

/// One accepted feed record, fields trimmed.
pub struct FeedRecord {
    /// The primary identifier; non-empty.
    pub primary: String,
    /// The rule's associated value; non-empty.
    pub value: String,
    /// The secondary identifier, when the record names a non-empty one.
    pub secondary: Option<String>,
}

impl View for FeedRecord {
    type V = RecordModel;

    open spec fn view(&self) -> RecordModel {
        RecordModel {
            primary: self.primary@,
            value: self.value@,
            secondary: match self.secondary {
                Some(s) => Some(s@),
                None => None,
            },
        }
    }
}

/// `s` with surrounding whitespace removed.
pub fn trim(s: &str) -> (r: &str)
    ensures
        r@ == trim_spec(s@),
{
    let n = s.unicode_len();
    let mut a: usize = 0;
    proof {
        assert(s@.subrange(0, n as int) =~= s@);
    }
    while a < n && is_space_char(s.get_char(a))
        invariant
            a <= n,
            n == s@.len(),
            trim_front(s@) == trim_front(s@.subrange(a as int, n as int)),
        decreases n - a,
    {
        proof {
            let u = s@.subrange(a as int, n as int);
            assert(u.drop_first() =~= s@.subrange(a as int + 1, n as int));
        }
        a = a + 1;
    }
    proof {
        let u = s@.subrange(a as int, n as int);
        if a < n {
            assert(trim_front(u) == u);
        } else {
            assert(u =~= Seq::<char>::empty());
        }
        assert(trim_front(s@) == s@.subrange(a as int, n as int));
    }
    let mut b: usize = n;
    while b > a && is_space_char(s.get_char(b - 1))
        invariant
            a <= b <= n,
            n == s@.len(),
            trim_front(s@) == s@.subrange(a as int, n as int),
            trim_back(s@.subrange(a as int, n as int)) == trim_back(
                s@.subrange(a as int, b as int),
            ),
        decreases b,
    {
        proof {
            let u = s@.subrange(a as int, b as int);
            assert(u.last() == s@[b - 1]);
            assert(u.drop_last() =~= s@.subrange(a as int, b as int - 1));
        }
        b = b - 1;
    }
    proof {
        let u = s@.subrange(a as int, b as int);
        if b > a {
            assert(trim_back(u) == u);
        } else {
            assert(u =~= Seq::<char>::empty());
        }
        assert(trim_spec(s@) == s@.subrange(a as int, b as int));
    }
    s.substring_char(a, b)
}

/// `s` split at every comma, each field still untrimmed.
pub fn split_fields(s: &str) -> (parts: Vec<String>)
    ensures
        parts.deep_view() == split_commas(s@),
{
    let n = s.unicode_len();
    let mut parts: Vec<String> = Vec::new();
    let mut start: usize = 0;
    let mut i: usize = 0;
    proof {
        assert(s@.subrange(0, n as int) =~= s@);
        assert(parts.deep_view() =~= Seq::<Seq<char>>::empty());
        assert(parts.deep_view() + split_commas(s@) =~= split_commas(s@));
    }
    while i < n
        invariant
            start <= i <= n,
            n == s@.len(),
            forall|j: int| start <= j < i ==> s@[j] != ',',
            split_commas(s@) == parts.deep_view() + split_commas(
                s@.subrange(start as int, n as int),
            ),
        decreases n - i,
    {
        let c = s.get_char(i);
        if c == ',' {
            let seg = s.substring_char(start, i).to_owned();
            let ghost dv = parts.deep_view();
            parts.push(seg);
            proof {
                assert(parts.deep_view() =~= dv.push(seg@));
                let u = s@.subrange(start as int, n as int);
                assert(u[i - start] == ',');
                assert(forall|j: int| 0 <= j < i - start ==> u[j] == s@[start + j] && u[j] != ',');
                lemma_split_at_comma(u, i - start);
                assert(u.take(i - start) =~= s@.subrange(start as int, i as int));
                assert(u.skip(i - start + 1) =~= s@.subrange(i as int + 1, n as int));
                assert(seg@ == s@.subrange(start as int, i as int));
                assert(dv + (seq![seg@] + split_commas(s@.subrange(i as int + 1, n as int)))
                    =~= dv.push(seg@) + split_commas(s@.subrange(i as int + 1, n as int)));
            }
            start = i + 1;
        }
        i = i + 1;
    }
    let seg = s.substring_char(start, n).to_owned();
    let ghost dv = parts.deep_view();
    parts.push(seg);
    proof {
        assert(parts.deep_view() =~= dv.push(seg@));
        let u = s@.subrange(start as int, n as int);
        assert(forall|j: int| 0 <= j < u.len() ==> u[j] == s@[start + j] && u[j] != ',');
        lemma_split_no_comma(u);
        assert(dv + seq![seg@] =~= dv.push(seg@));
    }
    parts
}

/// Parses one feed line: the trimmed fields of an accepted record, or `None`
/// for a malformed record, which the loader skips.
pub fn parse_record(line: &str) -> (r: Option<FeedRecord>)
    ensures
        match r {
            Some(rec) => record_of(line@) == Some(rec@),
            None => record_of(line@) is None,
        },
{
    let trimmed = trim(line);
    let parts = split_fields(trimmed);
    proof {
        assert(parts@.len() == parts.deep_view().len());
    }
    if parts.len() < 2 {
        return None;
    }
    let p_ref = trim(parts[0].as_str());
    let v_ref = trim(parts[1].as_str());
    proof {
        assert(parts@[0]@ == parts.deep_view()[0]);
        assert(parts@[1]@ == parts.deep_view()[1]);
    }
    if p_ref.is_empty() || v_ref.is_empty() {
        return None;
    }
    let secondary = if parts.len() >= 3 {
        let s_ref = trim(parts[2].as_str());
        proof {
            assert(parts@[2]@ == parts.deep_view()[2]);
        }
        if s_ref.is_empty() {
            None
        } else {
            Some(s_ref.to_owned())
        }
    } else {
        None
    };
    Some(FeedRecord { primary: p_ref.to_owned(), value: v_ref.to_owned(), secondary })
}

} // verus!
