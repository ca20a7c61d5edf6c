//! The guarantees that tie the loader and the lookup algorithm together,
//! stated over the snapshot model and proved once for all feeds: tier-1
//! precedence of primary-only rules, resolution of combined rules, unknown
//! identifiers as ordinary misses, and determinism of the load.

use vstd::prelude::*;
use crate::feed::record_of;
use crate::index::{first_index, lemma_first_index_push};
use crate::keys::combined_key;
use crate::loader::{load_model, load_step, record_key};
use crate::outcome::Outcome;
use crate::snapshot::{outcome_of, CacheModel};

verus! {

/// A rule stored under the bare primary key blocks unconditionally: the
/// lookup returns that rule's value whatever secondary identifier is
/// supplied, and two lookups with the same primary identifier agree.
pub proof fn lemma_primary_rule_precedence(
    m: CacheModel,
    p: Seq<char>,
    s1: Seq<char>,
    s2: Seq<char>,
)
    requires
        m.ips.contains(p),
        m.vals.contains_key(first_index(m.ips, p) as u64),
    ensures
        outcome_of(m, p, s1) == Outcome::Found(m.vals[first_index(m.ips, p) as u64]),
        outcome_of(m, p, s1) == outcome_of(m, p, s2),
{
}

/// A primary identifier the snapshot never indexed is always an ordinary
/// miss, never an anomaly, whatever the secondary identifier is.
pub proof fn lemma_unknown_primary_not_found(m: CacheModel, p: Seq<char>, s: Seq<char>)
    requires
        !m.ips.contains(p),
    ensures
        outcome_of(m, p, s) == Outcome::NotFound,
{
}

/// When no rule stands under the bare primary key, a pair whose combined
/// key holds a rule resolves to that rule's value.
pub proof fn lemma_combined_rule_found(m: CacheModel, p: Seq<char>, s: Seq<char>)
    requires
        m.ips.contains(p),
        !m.vals.contains_key(first_index(m.ips, p) as u64),
        s.len() > 0,
        m.uas.contains(s),
        m.vals.contains_key(
            combined_key(first_index(m.ips, p) as u64, first_index(m.uas, s) as u64),
        ),
    ensures
        outcome_of(m, p, s) == Outcome::Found(
            m.vals[combined_key(first_index(m.ips, p) as u64, first_index(m.uas, s) as u64)],
        ),
{
}

/// When no rule stands under the bare primary key, an empty secondary
/// identifier or one the snapshot never indexed is an ordinary miss.
pub proof fn lemma_unindexed_secondary_not_found(m: CacheModel, p: Seq<char>, s: Seq<char>)
    requires
        m.ips.contains(p),
        !m.vals.contains_key(first_index(m.ips, p) as u64),
        s.len() == 0 || !m.uas.contains(s),
    ensures
        outcome_of(m, p, s) == Outcome::NotFound,
{
}

/// Reloading an unchanged feed is deterministic: two snapshots built from
/// equal line sequences have identical index assignments and identical map
/// contents.
pub proof fn lemma_reload_deterministic(m1: CacheModel, m2: CacheModel, lines: Seq<Seq<char>>)
    requires
        m1 == load_model(lines),
        m2 == load_model(lines),
    ensures
        m1.ips == m2.ips,
        m1.uas == m2.uas,
        m1.vals == m2.vals,
{
}

/// Loading one more line builds on the load of the lines before it.
pub proof fn lemma_load_model_prefix(lines: Seq<Seq<char>>, i: int)
    requires
        0 <= i < lines.len(),
    ensures
        load_model(lines.subrange(0, i + 1)) == load_step(
            load_model(lines.subrange(0, i)),
            lines[i],
        ),
{
    assert(lines.subrange(0, i + 1).drop_last() =~= lines.subrange(0, i));
    assert(lines.subrange(0, i + 1).last() == lines[i]);
}

/// One load step never disturbs what is already built: an indexed
/// identifier keeps its position, and a mapped key keeps some rule.
pub proof fn lemma_load_step_monotonic(m: CacheModel, line: Seq<char>)
    ensures
        forall|p: Seq<char>| #[trigger]
            m.ips.contains(p) ==> load_step(m, line).ips.contains(p) && first_index(
                load_step(m, line).ips,
                p,
            ) == first_index(m.ips, p),
        forall|s: Seq<char>| #[trigger]
            m.uas.contains(s) ==> load_step(m, line).uas.contains(s) && first_index(
                load_step(m, line).uas,
                s,
            ) == first_index(m.uas, s),
        forall|k: u64| #[trigger] m.vals.contains_key(k) ==> load_step(m, line).vals.contains_key(k),
{
    let m2 = load_step(m, line);
    match record_of(line) {
        None => {},
        Some(rec) => {
            assert forall|p: Seq<char>| #[trigger]
                m.ips.contains(p) implies m2.ips.contains(p) && first_index(m2.ips, p)
                == first_index(m.ips, p) by {
                if !m.ips.contains(rec.primary) {
                    let j = choose|j: int| 0 <= j < m.ips.len() && m.ips[j] == p;
                    assert(m.ips.push(rec.primary)[j] == p);
                    lemma_first_index_push(m.ips, rec.primary, p);
                }
            }
            match rec.secondary {
                None => {},
                Some(sid) => {
                    assert forall|s: Seq<char>| #[trigger]
                        m.uas.contains(s) implies m2.uas.contains(s) && first_index(m2.uas, s)
                        == first_index(m.uas, s) by {
                        if !m.uas.contains(sid) {
                            let j = choose|j: int| 0 <= j < m.uas.len() && m.uas[j] == s;
                            assert(m.uas.push(sid)[j] == s);
                            lemma_first_index_push(m.uas, sid, s);
                        }
                    }
                },
            }
        },
    }
}

/// What the load of a prefix has built survives to the end of the pass.
pub proof fn lemma_load_suffix_monotonic(lines: Seq<Seq<char>>, i: int)
    requires
        0 <= i <= lines.len(),
    ensures
        forall|p: Seq<char>| #[trigger]
            load_model(lines.subrange(0, i)).ips.contains(p) ==> load_model(lines).ips.contains(p)
                && first_index(load_model(lines).ips, p) == first_index(
                load_model(lines.subrange(0, i)).ips,
                p,
            ),
        forall|s: Seq<char>| #[trigger]
            load_model(lines.subrange(0, i)).uas.contains(s) ==> load_model(lines).uas.contains(s)
                && first_index(load_model(lines).uas, s) == first_index(
                load_model(lines.subrange(0, i)).uas,
                s,
            ),
        forall|k: u64| #[trigger]
            load_model(lines.subrange(0, i)).vals.contains_key(k) ==> load_model(
                lines,
            ).vals.contains_key(k),
    decreases lines.len() - i,
{
    let mi = load_model(lines.subrange(0, i));
    if i == lines.len() {
        assert(lines.subrange(0, i) =~= lines);
    } else {
        let mi1 = load_model(lines.subrange(0, i + 1));
        lemma_load_model_prefix(lines, i);
        lemma_load_step_monotonic(mi, lines[i]);
        lemma_load_suffix_monotonic(lines, i + 1);
        assert forall|p: Seq<char>| #[trigger]
            mi.ips.contains(p) implies load_model(lines).ips.contains(p) && first_index(
            load_model(lines).ips,
            p,
        ) == first_index(mi.ips, p) by {
            assert(mi1.ips.contains(p));
        }
        assert forall|s: Seq<char>| #[trigger]
            mi.uas.contains(s) implies load_model(lines).uas.contains(s) && first_index(
            load_model(lines).uas,
            s,
        ) == first_index(mi.uas, s) by {
            assert(mi1.uas.contains(s));
        }
        assert forall|k: u64| #[trigger]
            mi.vals.contains_key(k) implies load_model(lines).vals.contains_key(k) by {
            assert(mi1.vals.contains_key(k));
        }
    }
}

/// Every accepted primary-only record leaves its primary identifier indexed
/// and a rule under its bare primary key in the fully loaded snapshot, so a
/// lookup with that primary identifier finds a rule regardless of which
/// secondary identifier is supplied, and all such lookups agree.
pub proof fn lemma_primary_only_record_blocks(
    lines: Seq<Seq<char>>,
    i: int,
    s1: Seq<char>,
    s2: Seq<char>,
)
    requires
        0 <= i < lines.len(),
        record_of(lines[i]) is Some,
        record_of(lines[i])->0.secondary is None,
    ensures
        ({
            let m = load_model(lines);
            let p = record_of(lines[i])->0.primary;
            &&& m.ips.contains(p)
            &&& m.vals.contains_key(first_index(m.ips, p) as u64)
            &&& outcome_of(m, p, s1) == Outcome::Found(m.vals[first_index(m.ips, p) as u64])
            &&& outcome_of(m, p, s1) == outcome_of(m, p, s2)
        }),
{
    let rec = record_of(lines[i])->0;
    let p = rec.primary;
    let pre = load_model(lines.subrange(0, i));
    let m1 = load_model(lines.subrange(0, i + 1));
    lemma_load_model_prefix(lines, i);
    if !pre.ips.contains(p) {
        assert(pre.ips.push(p)[pre.ips.len() as int] == p);
    }
    assert(m1.ips.contains(p));
    assert(m1.vals.contains_key(first_index(m1.ips, p) as u64));
    lemma_load_suffix_monotonic(lines, i + 1);
    let m = load_model(lines);
    assert(m.ips.contains(p) && first_index(m.ips, p) == first_index(m1.ips, p));
    assert(m.vals.contains_key(first_index(m.ips, p) as u64));
    lemma_primary_rule_precedence(m, p, s1, s2);
}

/// Every accepted combined record leaves both of its identifiers indexed
/// and a rule under their combined key in the fully loaded snapshot; when
/// the full snapshot holds no rule under the bare primary key, looking up
/// exactly that pair finds a rule.
pub proof fn lemma_combined_record_resolves(lines: Seq<Seq<char>>, i: int)
    requires
        0 <= i < lines.len(),
        record_of(lines[i]) is Some,
        record_of(lines[i])->0.secondary is Some,
    ensures
        ({
            let m = load_model(lines);
            let rec = record_of(lines[i])->0;
            let p = rec.primary;
            let s = rec.secondary->0;
            &&& m.ips.contains(p)
            &&& m.uas.contains(s)
            &&& m.vals.contains_key(
                combined_key(first_index(m.ips, p) as u64, first_index(m.uas, s) as u64),
            )
            &&& (!m.vals.contains_key(first_index(m.ips, p) as u64) ==> outcome_of(m, p, s)
                == Outcome::Found(
                m.vals[combined_key(first_index(m.ips, p) as u64, first_index(m.uas, s) as u64)],
            ))
        }),
{
    let rec = record_of(lines[i])->0;
    let p = rec.primary;
    let s = rec.secondary->0;
    let pre = load_model(lines.subrange(0, i));
    let m1 = load_model(lines.subrange(0, i + 1));
    lemma_load_model_prefix(lines, i);
    if !pre.ips.contains(p) {
        assert(pre.ips.push(p)[pre.ips.len() as int] == p);
    }
    if !pre.uas.contains(s) {
        assert(pre.uas.push(s)[pre.uas.len() as int] == s);
    }
    assert(m1.ips.contains(p));
    assert(m1.uas.contains(s));
    assert(m1.vals.contains_key(
        combined_key(first_index(m1.ips, p) as u64, first_index(m1.uas, s) as u64),
    ));
    lemma_load_suffix_monotonic(lines, i + 1);
    let m = load_model(lines);
    assert(m.ips.contains(p) && first_index(m.ips, p) == first_index(m1.ips, p));
    assert(m.uas.contains(s) && first_index(m.uas, s) == first_index(m1.uas, s));
    assert(m.vals.contains_key(
        combined_key(first_index(m.ips, p) as u64, first_index(m.uas, s) as u64),
    ));
    if !m.vals.contains_key(first_index(m.ips, p) as u64) {
        assert(s.len() > 0);
        lemma_combined_rule_found(m, p, s);
    }
}

/// A mapped value survives the rest of the load pass untouched as long as
/// no later accepted record stores under the same key.
pub proof fn lemma_value_survives(lines: Seq<Seq<char>>, i: int, k: u64)
    requires
        0 <= i <= lines.len(),
        load_model(lines.subrange(0, i)).vals.contains_key(k),
        forall|j: int|
            i <= j < lines.len() && record_of(lines[j]) is Some ==> record_key(
                load_model(lines.subrange(0, j)),
                #[trigger] record_of(lines[j])->0,
            ) != k,
    ensures
        load_model(lines).vals.contains_key(k),
        load_model(lines).vals[k] == load_model(lines.subrange(0, i)).vals[k],
    decreases lines.len() - i,
{
    if i == lines.len() {
        assert(lines.subrange(0, i) =~= lines);
    } else {
        lemma_load_model_prefix(lines, i);
        lemma_value_survives(lines, i + 1, k);
    }
}

/// Tier-1 precedence in full: an accepted primary-only record whose key no
/// later accepted record stores under again makes the lookup of its primary
/// identifier return exactly its value, whatever secondary identifier is
/// supplied.
pub proof fn lemma_primary_only_record_value(lines: Seq<Seq<char>>, i: int, s: Seq<char>)
    requires
        0 <= i < lines.len(),
        record_of(lines[i]) is Some,
        record_of(lines[i])->0.secondary is None,
        forall|j: int|
            i < j < lines.len() && record_of(lines[j]) is Some ==> record_key(
                load_model(lines.subrange(0, j)),
                #[trigger] record_of(lines[j])->0,
            ) != record_key(load_model(lines.subrange(0, i)), record_of(lines[i])->0),
    ensures
        ({
            let m = load_model(lines);
            let rec = record_of(lines[i])->0;
            outcome_of(m, rec.primary, s) == Outcome::Found(rec.value)
        }),
{
    let rec = record_of(lines[i])->0;
    let p = rec.primary;
    let pre = load_model(lines.subrange(0, i));
    let m1 = load_model(lines.subrange(0, i + 1));
    let k = record_key(pre, rec);
    lemma_load_model_prefix(lines, i);
    if !pre.ips.contains(p) {
        assert(pre.ips.push(p)[pre.ips.len() as int] == p);
    }
    assert(m1.ips.contains(p));
    assert(m1.vals.contains_key(k) && m1.vals[k] == rec.value);
    lemma_value_survives(lines, i + 1, k);
    lemma_load_suffix_monotonic(lines, i + 1);
    let m = load_model(lines);
    assert(m.ips.contains(p) && first_index(m.ips, p) == first_index(m1.ips, p));
    assert(first_index(m.ips, p) as u64 == k);
    assert(m.vals.contains_key(k) && m.vals[k] == rec.value);
}

/// Combined-rule resolution in full: an accepted combined record whose key
/// no later accepted record stores under again, in a snapshot with no rule
/// under its bare primary key, makes the lookup of exactly its pair return
/// its value.
pub proof fn lemma_combined_record_value(lines: Seq<Seq<char>>, i: int)
    requires
        0 <= i < lines.len(),
        record_of(lines[i]) is Some,
        record_of(lines[i])->0.secondary is Some,
        forall|j: int|
            i < j < lines.len() && record_of(lines[j]) is Some ==> record_key(
                load_model(lines.subrange(0, j)),
                #[trigger] record_of(lines[j])->0,
            ) != record_key(load_model(lines.subrange(0, i)), record_of(lines[i])->0),
        !load_model(lines).vals.contains_key(
            first_index(load_model(lines).ips, record_of(lines[i])->0.primary) as u64,
        ),
    ensures
        ({
            let m = load_model(lines);
            let rec = record_of(lines[i])->0;
            outcome_of(m, rec.primary, rec.secondary->0) == Outcome::Found(rec.value)
        }),
{
    let rec = record_of(lines[i])->0;
    let p = rec.primary;
    let s = rec.secondary->0;
    let pre = load_model(lines.subrange(0, i));
    let m1 = load_model(lines.subrange(0, i + 1));
    let k = record_key(pre, rec);
    lemma_load_model_prefix(lines, i);
    if !pre.ips.contains(p) {
        assert(pre.ips.push(p)[pre.ips.len() as int] == p);
    }
    if !pre.uas.contains(s) {
        assert(pre.uas.push(s)[pre.uas.len() as int] == s);
    }
    assert(m1.ips.contains(p));
    assert(m1.uas.contains(s));
    assert(m1.vals.contains_key(k) && m1.vals[k] == rec.value);
    lemma_value_survives(lines, i + 1, k);
    lemma_load_suffix_monotonic(lines, i + 1);
    let m = load_model(lines);
    assert(m.ips.contains(p) && first_index(m.ips, p) == first_index(m1.ips, p));
    assert(m.uas.contains(s) && first_index(m.uas, s) == first_index(m1.uas, s));
    assert(combined_key(first_index(m.ips, p) as u64, first_index(m.uas, s) as u64) == k);
    assert(m.vals.contains_key(k) && m.vals[k] == rec.value);
    assert(s.len() > 0);
    lemma_combined_rule_found(m, p, s);
}

/// The last write wins: when the feed's last line holds an accepted
/// primary-only record, the rule under that record's bare primary key
/// carries that record's value.
pub proof fn lemma_last_primary_only_value(lines: Seq<Seq<char>>)
    requires
        lines.len() > 0,
        record_of(lines.last()) is Some,
        record_of(lines.last())->0.secondary is None,
    ensures
        ({
            let m = load_model(lines);
            let rec = record_of(lines.last())->0;
            &&& m.ips.contains(rec.primary)
            &&& m.vals[first_index(m.ips, rec.primary) as u64] == rec.value
        }),
{
    let rec = record_of(lines.last())->0;
    let p = rec.primary;
    let pre = load_model(lines.drop_last());
    if !pre.ips.contains(p) {
        assert(pre.ips.push(p)[pre.ips.len() as int] == p);
    }
}

} // verus!
