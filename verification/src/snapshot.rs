//! One immutable snapshot of the rule set: two identifier indices (primary
//! and secondary) and a value map keyed by composite key, all built together
//! from one pass over one feed read and frozen afterwards. Lookups resolve
//! in tiers: a rule stored under the bare primary key blocks unconditionally,
//! whatever secondary identifier was supplied; only then is the combined key
//! consulted.

use vstd::prelude::*;
use std::collections::HashMap;
use crate::index::{first_index, IdentifierIndex};
use crate::keys::combined_key;
use crate::outcome::{AnomalyDetail, AnomalyModel, LookupResult, Outcome};

verus! {

broadcast use vstd::std_specs::hash::group_hash_axioms;

/// Model of one snapshot: the primary identifiers in index order, the
/// secondary identifiers in index order, and the value map.
#[verifier::ext_equal]
pub struct CacheModel {
    pub ips: Seq<Seq<char>>,
    pub uas: Seq<Seq<char>>,
    pub vals: Map<u64, Seq<char>>,
}

/// The model of a snapshot with empty indices and an empty map.
pub open spec fn empty_model() -> CacheModel {
    CacheModel { ips: Seq::empty(), uas: Seq::empty(), vals: Map::empty() }
}

/// The tiered resolution of one (primary, secondary) pair against one
/// snapshot:
/// 1. an unknown primary identifier is an ordinary miss;
/// 2. a rule under the bare primary key blocks unconditionally, regardless
///    of the secondary identifier;
/// 3. an empty or unknown secondary identifier is an ordinary miss;
/// 4. a rule under the combined key blocks;
/// 5. both identifiers resolved yet no rule exists for their combination:
///    the snapshot is internally inconsistent, which is reported as an
///    anomaly, never as an ordinary miss.
pub open spec fn outcome_of(m: CacheModel, p: Seq<char>, s: Seq<char>) -> Outcome {
    if !m.ips.contains(p) {
        Outcome::NotFound
    } else {
        let pi = first_index(m.ips, p) as u64;
        if m.vals.contains_key(pi) {
            Outcome::Found(m.vals[pi])
        } else if s.len() == 0 || !m.uas.contains(s) {
            Outcome::NotFound
        } else {
            let si = first_index(m.uas, s) as u64;
            let k = combined_key(pi, si);
            if m.vals.contains_key(k) {
                Outcome::Found(m.vals[k])
            } else {
                Outcome::Anomaly(
                    AnomalyModel {
                        primary: p,
                        primary_index: pi,
                        secondary: s,
                        secondary_index: si,
                        key: k,
                    },
                )
            }
        }
    }
}

/// All rule data of one snapshot generation, kept together so that a refresh
/// replaces everything at once.
pub struct CacheData {
    /// Composite key to the rule's associated value.
    pub block_map: HashMap<u64, String>,
    /// All distinct primary identifiers, in first-seen order.
    pub ip_set: IdentifierIndex,
    /// All distinct secondary identifiers, in first-seen order.
    pub user_agent_set: IdentifierIndex,
}

impl View for CacheData {
    type V = CacheModel;

    open spec fn view(&self) -> CacheModel {
        CacheModel {
            ips: self.ip_set@,
            uas: self.user_agent_set@,
            vals: self.block_map@.map_values(|v: String| v@),
        }
    }
}

/// How a bare lookup response relates to a lookup outcome: a hit returns the
/// rule's value, an ordinary miss returns the sentinel string "0", and an
/// anomaly is the error case.
pub open spec fn block_response(o: Outcome, r: Result<String, AnomalyDetail>) -> bool {
    match r {
        Ok(v) => match o {
            Outcome::Found(w) => v@ == w,
            Outcome::NotFound => v@ == seq!['0'],
            Outcome::Anomaly(_) => false,
        },
        Err(d) => match o {
            Outcome::Anomaly(dm) => d@ == dm,
            Outcome::Found(_) => false,
            Outcome::NotFound => false,
        },
    }
}

impl CacheData {
    /// A snapshot with empty indices and an empty value map, the state a
    /// cache starts from before its first load.
    pub fn empty() -> (r: CacheData)
        ensures
            r@ == empty_model(),
    {
        let r = CacheData {
            block_map: HashMap::new(),
            ip_set: IdentifierIndex::new(),
            user_agent_set: IdentifierIndex::new(),
        };
        proof {
            assert(r@.vals =~= empty_model().vals);
            assert(r@ =~= empty_model());
        }
        r
    }

    /// Resolves one (primary, secondary) pair against this snapshot alone,
    /// by the tiered algorithm of `outcome_of`.
    pub fn lookup(&self, primary: &str, secondary: &str) -> (r: LookupResult)
        ensures
            r@ == outcome_of(self@, primary@, secondary@),
    {
        let pi = match self.ip_set.index_of(primary) {
            None => {
                return LookupResult::NotFound;
            },
            Some(i) => i,
        };
        let pk = pi as u64;
        assert(pk == first_index(self@.ips, primary@) as u64);
        match self.block_map.get(&pk) {
            Some(v) => {
                return LookupResult::Found(v.clone());
            },
            None => {},
        }
        if secondary.is_empty() {
            return LookupResult::NotFound;
        }
        let si = match self.user_agent_set.index_of(secondary) {
            None => {
                return LookupResult::NotFound;
            },
            Some(i) => i,
        };
        let ck = crate::keys::encode_combined(pk, si as u64);
        match self.block_map.get(&ck) {
            Some(v) => LookupResult::Found(v.clone()),
            None => LookupResult::Anomaly(
                AnomalyDetail {
                    primary: primary.to_owned(),
                    primary_index: pk,
                    secondary: secondary.to_owned(),
                    secondary_index: si as u64,
                    key: ck,
                },
            ),
        }
    }

    /// Resolves a pair and renders the outcome as the bare response: the
    /// rule's value on a hit, the sentinel "0" on an ordinary miss, and the
    /// structured anomaly report as the error.
    pub fn get_block(&self, ip: &str, user_agent: &str) -> (r: Result<String, AnomalyDetail>)
        ensures
            block_response(outcome_of(self@, ip@, user_agent@), r),
    {
        match self.lookup(ip, user_agent) {
            LookupResult::Found(v) => Ok(v),
            LookupResult::NotFound => {
                let z = String::from_str("0");
                proof {
                    reveal_strlit("0");
                    assert(z@ =~= seq!['0']);
                }
                Ok(z)
            },
            LookupResult::Anomaly(d) => Err(d),
        }
    }

    /// The value stored under one composite key, or `None` when the map has
    /// no rule under it.
    pub fn value_for_key(&self, key: u64) -> (r: Option<String>)
        ensures
            match r {
                Some(v) => self@.vals.contains_key(key) && v@ == self@.vals[key],
                None => !self@.vals.contains_key(key),
            },
    {
        match self.block_map.get(&key) {
            Some(v) => Some(v.clone()),
            None => None,
        }
    }

    /// How many rules the value map holds.
    pub fn rule_count(&self) -> (n: usize)
        ensures
            n == self@.vals.len(),
    {
        proof {
            assert(self@.vals.dom() =~= self.block_map@.dom());
        }
        self.block_map.len()
    }
}

} // verus!
