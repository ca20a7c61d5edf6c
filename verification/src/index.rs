//! An identifier index: an ordered, duplicate-free assignment of a dense
//! non-negative integer to each distinct identifier string, in first-seen
//! order. Indices are 0-based and contiguous, and are meaningful only within
//! the snapshot whose load pass produced them. The index is write-once
//! during a load and read-only afterwards; there is no removal.
//!
//! Storage is an `indexmap::IndexSet<String>`, used through trusted
//! wrappers; `iset_elems` names the sequence of values it holds, in order.

use vstd::prelude::*;
use indexmap::IndexSet;

verus! {

/// Position of the first occurrence of `x` in `s` (the length of `s` when
/// `x` does not occur).
pub open spec fn first_index<A>(s: Seq<A>, x: A) -> int
    decreases s.len(),
{
    if s.len() == 0 {
        0
    } else if s[0] == x {
        0
    } else {
        1 + first_index(s.drop_first(), x)
    }
}

/// When `x` occurs in `s`, `first_index` is a position of `x` and nothing
/// before it equals `x`.
pub proof fn lemma_first_index<A>(s: Seq<A>, x: A)
    requires
        s.contains(x),
    ensures
        0 <= first_index(s, x) < s.len(),
        s[first_index(s, x)] == x,
        forall|j: int| 0 <= j < first_index(s, x) ==> s[j] != x,
    decreases s.len(),
{
    if s[0] == x {
    } else {
        assert(s.drop_first().contains(x)) by {
            let i = choose|i: int| 0 <= i < s.len() && s[i] == x;
            assert(s.drop_first()[i - 1] == x);
        }
        lemma_first_index(s.drop_first(), x);
        assert forall|j: int| 0 <= j < first_index(s, x) implies s[j] != x by {
            if j > 0 {
                assert(s.drop_first()[j - 1] == s[j]);
            }
        }
    }
}

/// Appending to a sequence does not disturb the position of a value already
/// present, and places an absent value at the old length.
pub proof fn lemma_first_index_push<A>(s: Seq<A>, y: A, x: A)
    ensures
        s.contains(x) ==> first_index(s.push(y), x) == first_index(s, x),
        !s.contains(x) && y == x ==> first_index(s.push(y), x) == s.len(),
    decreases s.len(),
{
    if s.len() == 0 {
        if y == x {
            assert(s.push(y)[0] == y);
        }
    } else {
        assert(s.push(y)[0] == s[0]);
        if s[0] == x {
            assert(s.contains(x)) by {
                assert(s[0] == x);
            }
        } else {
            assert(s.push(y).drop_first() =~= s.drop_first().push(y));
            lemma_first_index_push(s.drop_first(), y, x);
            if s.contains(x) {
                assert(s.drop_first().contains(x)) by {
                    let i = choose|i: int| 0 <= i < s.len() && s[i] == x;
                    assert(s.drop_first()[i - 1] == x);
                }
            } else {
                assert(!s.drop_first().contains(x)) by {
                    if s.drop_first().contains(x) {
                        let i = choose|i: int|
                            0 <= i < s.drop_first().len() && s.drop_first()[i] == x;
                        assert(s[i + 1] == x);
                    }
                }
            }
        }
    }
}

#[verifier::external_type_specification]
#[verifier::external_body]
#[verifier::reject_recursive_types(T)]
#[verifier::reject_recursive_types(S)]
pub struct ExIndexSet<T, S>(IndexSet<T, S>);

/// The values an `IndexSet<String>` holds, in insertion order.
pub uninterp spec fn iset_elems(s: IndexSet<String>) -> Seq<Seq<char>>;

/// Relies on indexmap's `IndexSet::new`: makes an empty set.
#[verifier::external_body]
fn iset_new() -> (r: IndexSet<String>)
    ensures
        iset_elems(r) == Seq::<Seq<char>>::empty(),
{
    IndexSet::new()
}

/// Relies on indexmap's `IndexSet::insert_full`: an equivalent value already
/// present keeps its position and the set is unchanged; otherwise the value
/// is appended at the end. The returned index is the value's position, and
/// the flag says whether it was newly inserted. Positions of a set's
/// elements are unique, so the returned position is the first one.
#[verifier::external_body]
fn iset_insert_full(s: &mut IndexSet<String>, value: String) -> (r: (usize, bool))
    ensures
        r.1 == !iset_elems(*old(s)).contains(value@),
        r.1 ==> iset_elems(*final(s)) == iset_elems(*old(s)).push(value@)
            && r.0 == iset_elems(*old(s)).len(),
        !r.1 ==> iset_elems(*final(s)) == iset_elems(*old(s))
            && r.0 < iset_elems(*old(s)).len()
            && iset_elems(*old(s))[r.0 as int] == value@
            && (forall|j: int| 0 <= j < r.0 ==> iset_elems(*old(s))[j] != value@),
{
    s.insert_full(value)
}

/// Relies on indexmap's `IndexSet::get_index_of`: returns the position of an
/// equivalent value, or `None` when the set holds none. A set holds each
/// value at most once, so the returned position is the first one.
#[verifier::external_body]
fn iset_get_index_of(s: &IndexSet<String>, value: &str) -> (r: Option<usize>)
    ensures
        match r {
            Some(i) => i < iset_elems(*s).len() && iset_elems(*s)[i as int] == value@
                && (forall|j: int| 0 <= j < i ==> iset_elems(*s)[j] != value@),
            None => !iset_elems(*s).contains(value@),
        },
{
    s.get_index_of(value)
}

/// Relies on indexmap's `IndexSet::get_index`: returns the value at a
/// position, or `None` when the position is past the end.
#[verifier::external_body]
fn iset_get_index(s: &IndexSet<String>, i: usize) -> (r: Option<String>)
    ensures
        match r {
            Some(v) => i < iset_elems(*s).len() && v@ == iset_elems(*s)[i as int],
            None => i >= iset_elems(*s).len(),
        },
{
    s.get_index(i).cloned()
}

/// Relies on indexmap's `IndexSet::len`: the number of values held.
#[verifier::external_body]
fn iset_len(s: &IndexSet<String>) -> (n: usize)
    ensures
        n == iset_elems(*s).len(),
{
    s.len()
}

/// Ordered, duplicate-free mapping from identifier string to its dense
/// 0-based position, assigned by first occurrence.
pub struct IdentifierIndex {
    set: IndexSet<String>,
}

impl View for IdentifierIndex {
    type V = Seq<Seq<char>>;

    closed spec fn view(&self) -> Seq<Seq<char>> {
        iset_elems(self.set)
    }
}

impl IdentifierIndex {
    /// An empty index.
    pub fn new() -> (r: IdentifierIndex)
        ensures
            r@ == Seq::<Seq<char>>::empty(),
    {
        IdentifierIndex { set: iset_new() }
    }

    /// First call with a new identifier appends it and returns the new
    /// position; any call with an already-seen identifier returns the
    /// position it was first given, changing nothing.
    pub fn insert_or_get(&mut self, value: String) -> (i: usize)
        ensures
            old(self)@.contains(value@) ==> final(self)@ == old(self)@,
            !old(self)@.contains(value@) ==> final(self)@ == old(self)@.push(value@),
            i == first_index(final(self)@, value@),
            i < final(self)@.len(),
            final(self)@[i as int] == value@,
    {
        let ghost pre = iset_elems(self.set);
        let (i, inserted) = iset_insert_full(&mut self.set, value);
        proof {
            if inserted {
                lemma_first_index_push(pre, value@, value@);
            } else {
                lemma_first_index(pre, value@);
                assert(pre.contains(value@)) by {
                    assert(pre[i as int] == value@);
                }
                assert(first_index(pre, value@) == i as int) by {
                    lemma_first_index(pre, value@);
                    let fi = first_index(pre, value@);
                    if fi < i as int {
                        assert(pre[fi] != value@);
                    }
                }
            }
        }
        i
    }

    /// The position of an identifier in a completed index, or `None` when
    /// the identifier was never seen.
    pub fn index_of(&self, value: &str) -> (r: Option<usize>)
        ensures
            match r {
                Some(i) => self@.contains(value@) && i == first_index(self@, value@)
                    && i < self@.len() && self@[i as int] == value@,
                None => !self@.contains(value@),
            },
    {
        let r = iset_get_index_of(&self.set, value);
        proof {
            if let Some(i) = r {
                assert(self@.contains(value@)) by {
                    assert(self@[i as int] == value@);
                }
                lemma_first_index(self@, value@);
                let fi = first_index(self@, value@);
                if fi < i as int {
                    assert(self@[fi] != value@);
                }
            }
        }
        r
    }

    /// The identifier at a position, or `None` when the position is past
    /// the end.
    pub fn value_at(&self, i: usize) -> (r: Option<String>)
        ensures
            match r {
                Some(v) => i < self@.len() && v@ == self@[i as int],
                None => i >= self@.len(),
            },
    {
        iset_get_index(&self.set, i)
    }

    /// How many identifiers the index holds.
    pub fn len(&self) -> (n: usize)
        ensures
            n == self@.len(),
    {
        iset_len(&self.set)
    }
}

} // verus!
