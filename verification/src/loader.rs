//! The loader: one full pass over the feed's lines builds a brand-new
//! snapshot from scratch. Malformed records are skipped; an accepted record
//! resolves its identifiers to indices (inserting them on first sight) and
//! stores its value under the matching composite key; two records that
//! produce the same key leave the later record's value in place.

use vstd::prelude::*;
use crate::feed::{parse_record, record_of, RecordModel};
use crate::index::first_index;
use crate::keys::combined_key;
use crate::snapshot::{empty_model, CacheData, CacheModel};

verus! {

broadcast use vstd::std_specs::hash::group_hash_axioms;

/// The identifier sequence after resolving one identifier: unchanged when
/// the identifier was seen before, else with it appended at the end.
pub open spec fn insert_ident(s: Seq<Seq<char>>, x: Seq<char>) -> Seq<Seq<char>> {
    if s.contains(x) {
        s
    } else {
        s.push(x)
    }
}

/// The composite key an accepted record stores its value under, given the
/// snapshot model the record is applied to: the bare primary index for a
/// record without a secondary identifier, the combined key otherwise.
pub open spec fn record_key(m: CacheModel, rec: RecordModel) -> u64 {
    let pi = first_index(insert_ident(m.ips, rec.primary), rec.primary) as u64;
    match rec.secondary {
        None => pi,
        Some(sid) => combined_key(pi, first_index(insert_ident(m.uas, sid), sid) as u64),
    }
}

/// One accepted record applied to a snapshot model: the primary identifier
/// is resolved in the primary index; a record without a secondary identifier
/// stores its value under the bare primary key, one with a secondary
/// identifier resolves it in the secondary index and stores its value under
/// the combined key. An insert overwrites any earlier value under the same
/// key: within one load pass the last write wins.
pub open spec fn apply_record(m: CacheModel, rec: RecordModel) -> CacheModel {
    let ips2 = insert_ident(m.ips, rec.primary);
    match rec.secondary {
        None => CacheModel { ips: ips2, uas: m.uas, vals: m.vals.insert(record_key(m, rec), rec.value) },
        Some(sid) => {
            let uas2 = insert_ident(m.uas, sid);
            CacheModel {
                ips: ips2,
                uas: uas2,
                vals: m.vals.insert(record_key(m, rec), rec.value),
            }
        },
    }
}

/// One feed line applied to a snapshot model: a malformed line is skipped
/// and changes nothing.
pub open spec fn load_step(m: CacheModel, line: Seq<char>) -> CacheModel {
    match record_of(line) {
        None => m,
        Some(rec) => apply_record(m, rec),
    }
}

/// The snapshot model that one full load pass over the given lines builds,
/// starting from the empty model. A pure function of the lines alone: equal
/// feeds give identical index assignments and identical map contents.
pub open spec fn load_model(lines: Seq<Seq<char>>) -> CacheModel
    decreases lines.len(),
{
    if lines.len() == 0 {
        empty_model()
    } else {
        load_step(load_model(lines.drop_last()), lines.last())
    }
}

/// Builds a brand-new snapshot from the feed's lines, exactly as
/// `load_model` describes.
pub fn build_from_lines(lines: &Vec<String>) -> (cd: CacheData)
    ensures
        cd@ == load_model(lines.deep_view()),
{
    let ghost all = lines.deep_view();
    let mut cd = CacheData::empty();
    let mut i: usize = 0;
    proof {
        assert(all.subrange(0, 0) =~= Seq::<Seq<char>>::empty());
        assert(cd@ =~= load_model(all.subrange(0, 0)));
    }
    while i < lines.len()
        invariant
            i <= lines@.len(),
            all == lines.deep_view(),
            cd@ == load_model(all.subrange(0, i as int)),
        decreases lines@.len() - i,
    {
        let ghost pre = cd@;
        let line = &lines[i];
        proof {
            let prefix = all.subrange(0, i as int + 1);
            assert(prefix.drop_last() =~= all.subrange(0, i as int));
            assert(prefix.last() == line@);
            assert(load_model(prefix) == load_step(pre, line@));
        }
        match parse_record(line.as_str()) {
            None => {},
            Some(rec) => {
                let ghost recm = rec@;
                let pi = cd.ip_set.insert_or_get(rec.primary);
                proof {
                    assert(cd.ip_set@ == insert_ident(pre.ips, recm.primary));
                    assert(pi as u64 == first_index(cd.ip_set@, recm.primary) as u64);
                }
                match rec.secondary {
                    None => {
                        let ghost mapped = cd.block_map@.map_values(|v: String| v@);
                        cd.block_map.insert(pi as u64, rec.value);
                        proof {
                            assert(cd@.vals =~= mapped.insert(pi as u64, recm.value));
                            assert(cd@ =~= apply_record(pre, recm));
                        }
                    },
                    Some(sid) => {
                        let si = cd.user_agent_set.insert_or_get(sid);
                        proof {
                            assert(cd.user_agent_set@ == insert_ident(
                                pre.uas,
                                recm.secondary->0,
                            ));
                            assert(si as u64 == first_index(cd.user_agent_set@, recm.secondary->0)
                                as u64);
                        }
                        let ck = crate::keys::encode_combined(pi as u64, si as u64);
                        let ghost mapped = cd.block_map@.map_values(|v: String| v@);
                        cd.block_map.insert(ck, rec.value);
                        proof {
                            assert(cd@.vals =~= mapped.insert(ck, recm.value));
                            assert(cd@ =~= apply_record(pre, recm));
                        }
                    },
                }
            },
        }
        i = i + 1;
    }
    proof {
        assert(all.subrange(0, lines@.len() as int) =~= all);
    }
    cd
}

} // verus!
