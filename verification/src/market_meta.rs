//! Market metadata used for order normalization.
use crate::text::str_eq;
use vstd::prelude::*;

verus! {

/// Identifier of a market.
#[derive(Debug, Clone, PartialEq, Eq, Hash)]
pub struct MarketId(pub String);

/// Trading limits of a market, in units of 10^-9.
#[derive(Debug)]
pub struct MarketMeta {
    pub market: String,
    pub tick_size_e9: i64,
    pub step_size_e9: i64,
    pub min_order_quantity_e9: i64,
    pub min_order_price_e9: i64,
    pub max_order_price_e9: i64,
}

impl Clone for MarketMeta {
    fn clone(&self) -> (r: Self)
        ensures
            r == *self,
    {
        MarketMeta {
            market: self.market.clone(),
            tick_size_e9: self.tick_size_e9,
            step_size_e9: self.step_size_e9,
            min_order_quantity_e9: self.min_order_quantity_e9,
            min_order_price_e9: self.min_order_price_e9,
            max_order_price_e9: self.max_order_price_e9,
        }
    }
}

/// The markets known to the bot.
#[derive(Debug, Clone)]
pub struct MarketSnapshot {
    pub markets: Vec<MarketMeta>,
}

/// Index of the first entry of `metas` for `market`, if any.
pub open spec fn first_index_of_market(metas: Seq<MarketMeta>, market: Seq<char>) -> Option<int> {
    if exists|i: int| 0 <= i < metas.len() && #[trigger] metas[i].market@ == market {
        Some(
            choose|i: int|
                0 <= i < metas.len() && metas[i].market@ == market && forall|j: int|
                    0 <= j < i ==> #[trigger] metas[j].market@ != market,
        )
    } else {
        None
    }
}

/// Map from market name to metadata, later entries replacing earlier ones.
pub open spec fn metas_by_name(metas: Seq<MarketMeta>) -> Map<Seq<char>, MarketMeta>
    decreases metas.len(),
{
    if metas.len() == 0 {
        Map::empty()
    } else {
        metas_by_name(metas.drop_last()).insert(metas.last().market@, metas.last())
    }
}

/// `s` lists the entries of `m`: each name once, with the entry `m` has for
/// it, and every name of `m`.
pub open spec fn lists_by_name(s: Seq<(String, MarketMeta)>, m: Map<Seq<char>, MarketMeta>) -> bool {
    &&& forall|a: int, b: int| 0 <= a < b < s.len() ==> (#[trigger] s[a]).0@ != (#[trigger] s[b]).0@
    &&& forall|a: int|
        0 <= a < s.len() ==> m.contains_key((#[trigger] s[a]).0@) && m[s[a].0@] == s[a].1
    &&& forall|k: Seq<char>| #[trigger] m.contains_key(k) ==> exists|a: int|
        0 <= a < s.len() && #[trigger] s[a].0@ == k
}

impl MarketSnapshot {
    /// The snapshot by market name, each name once (in the order of its first
    /// entry) with its later entry where it occurs twice.
    pub fn as_map(&self) -> (entries: Vec<(String, MarketMeta)>)
        ensures
            lists_by_name(entries@, metas_by_name(self.markets@)),
            entries.len() <= self.markets.len(),
    {
        let mut out: Vec<(String, MarketMeta)> = Vec::new();
        let mut i: usize = 0;
        while i < self.markets.len()
            invariant
                i <= self.markets.len(),
                out.len() <= i,
                lists_by_name(out@, metas_by_name(self.markets@.take(i as int))),
            decreases self.markets.len() - i,
        {
            let meta = &self.markets[i];
            let ghost before = out@;
            let ghost m0 = metas_by_name(self.markets@.take(i as int));
            proof {
                assert(self.markets@.take(i + 1).drop_last() == self.markets@.take(i as int));
                assert(self.markets@.take(i + 1).last() == *meta);
            }
            let mut j: usize = 0;
            let mut found = false;
            while j < out.len() && !found
                invariant
                    j <= out.len(),
                    out@ == before,
                    !found ==> forall|a: int| 0 <= a < j ==> (#[trigger] out@[a]).0@ != meta.market@,
                    found ==> j < out.len() && out@[j as int].0@ == meta.market@,
                decreases out.len() - j + (if found {
                    0int
                } else {
                    1int
                }),
            {
                if str_eq(out[j].0.as_str(), meta.market.as_str()) {
                    found = true;
                } else {
                    j = j + 1;
                }
            }
            if found {
                out.set(j, (meta.market.clone(), meta.clone()));
                proof {
                    let m1 = m0.insert(meta.market@, *meta);
                    assert forall|k: Seq<char>| #[trigger] m1.contains_key(k) implies exists|a: int|
                        0 <= a < out@.len() && #[trigger] out@[a].0@ == k by {
                        if k == meta.market@ {
                            assert(out@[j as int].0@ == k);
                        } else {
                            let a = choose|a: int| 0 <= a < before.len() && #[trigger] before[a].0@ == k;
                            assert(out@[a].0@ == k);
                        }
                    }
                    assert forall|a: int, b: int| 0 <= a < b < out@.len() implies (#[trigger] out@[a]).0@
                        != (#[trigger] out@[b]).0@ by {
                        assert(before[a].0@ != before[b].0@);
                    }
                }
            } else {
                out.push((meta.market.clone(), meta.clone()));
                proof {
                    let m1 = m0.insert(meta.market@, *meta);
                    assert forall|k: Seq<char>| #[trigger] m1.contains_key(k) implies exists|a: int|
                        0 <= a < out@.len() && #[trigger] out@[a].0@ == k by {
                        if k == meta.market@ {
                            assert(out@[before.len() as int].0@ == k);
                        } else {
                            let a = choose|a: int| 0 <= a < before.len() && #[trigger] before[a].0@ == k;
                            assert(out@[a].0@ == k);
                        }
                    }
                    assert forall|a: int, b: int| 0 <= a < b < out@.len() implies (#[trigger] out@[a]).0@
                        != (#[trigger] out@[b]).0@ by {
                        if b < before.len() {
                            assert(before[a].0@ != before[b].0@);
                        }
                    }
                }
            }
            i = i + 1;
        }
        proof {
            assert(self.markets@.take(self.markets.len() as int) == self.markets@);
        }
        out
    }

    /// The first entry for `market`.
    pub fn get(&self, market: &str) -> (r: Option<&MarketMeta>)
        ensures
            match first_index_of_market(self.markets@, market@) {
                Some(i) => r is Some && *r->0 == self.markets@[i],
                None => r is None,
            },
    {
        let mut i: usize = 0;
        while i < self.markets.len()
            invariant
                i <= self.markets.len(),
                forall|j: int| 0 <= j < i ==> #[trigger] self.markets@[j].market@ != market@,
            decreases self.markets.len() - i,
        {
            if str_eq(self.markets[i].market.as_str(), market) {
                proof {
                    let k = first_index_of_market(self.markets@, market@)->0;
                    assert(self.markets@[i as int].market@ == market@);
                    if k < i {
                        assert(self.markets@[k].market@ != market@);
                    }
                    if k > i {
                        assert(self.markets@[i as int].market@ != market@);
                    }
                }
                return Some(&self.markets[i]);
            }
            i = i + 1;
        }
        None
    }
}

} // verus!
