//! The registry of pools: at most one pool for each unordered pair of assets.
use vstd::prelude::*;

use crate::errors::ErrorCode;
use crate::key::{same_key, Key};
use crate::state::{init_error, initialize_pool, initialized_as, Pool};

verus! {

/// `pool` trades the pair `{x, y}`, named in either order.
pub open spec fn trades_pair(pool: Pool, x: Seq<u8>, y: Seq<u8>) -> bool {
    (pool.asset_a_id@ == x && pool.asset_b_id@ == y) || (pool.asset_a_id@ == y && pool.asset_b_id@ == x)
}

/// Some pool of `pools` trades the pair `{x, y}`.
pub open spec fn has_pair(pools: Seq<Pool>, x: Seq<u8>, y: Seq<u8>) -> bool {
    exists|i: int| 0 <= i < pools.len() && trades_pair(#[trigger] pools[i], x, y)
}

/// Every pool is well formed, and no two pools trade the same pair.
pub open spec fn pools_wf(pools: Seq<Pool>) -> bool {
    &&& forall|i: int| 0 <= i < pools.len() ==> (#[trigger] pools[i]).wf()
    &&& forall|i: int, j: int|
        0 <= i < j < pools.len() ==> !trades_pair(
            #[trigger] pools[i],
            (#[trigger] pools[j]).asset_a_id@,
            pools[j].asset_b_id@,
        )
}

/// What `register` refuses, in the order it checks.
pub open spec fn register_error(
    pools: Seq<Pool>,
    asset_x: Seq<u8>,
    asset_y: Seq<u8>,
    lp_asset_id: Seq<u8>,
    fee_bps: u64,
) -> Option<ErrorCode> {
    if init_error(asset_x, asset_y, lp_asset_id, fee_bps).is_some() {
        init_error(asset_x, asset_y, lp_asset_id, fee_bps)
    } else if has_pair(pools, asset_x, asset_y) {
        Some(ErrorCode::PoolAlreadyExists)
    } else {
        None
    }
}

/// The pools created so far, in order of creation.
pub struct PoolRegistry {
    pools: Vec<Pool>,
}

impl View for PoolRegistry {
    type V = Seq<Pool>;

    closed spec fn view(&self) -> Seq<Pool> {
        self.pools@
    }
}

impl PoolRegistry {
    pub open spec fn wf(&self) -> bool {
        pools_wf(self@)
    }

    /// An empty registry.
    pub fn new() -> (r: PoolRegistry)
        ensures
            r@ == Seq::<Pool>::empty(),
            r.wf(),
    {
        PoolRegistry { pools: Vec::new() }
    }

    /// The number of pools.
    pub fn len(&self) -> (r: usize)
        ensures
            r == self@.len(),
    {
        self.pools.len()
    }

    /// The pool at `index`, if there is one.
    pub fn get(&self, index: usize) -> (r: Option<Pool>)
        ensures
            r == (if index < self@.len() {
                Some(self@[index as int])
            } else {
                None::<Pool>
            }),
    {
        if index < self.pools.len() {
            Some(self.pools[index])
        } else {
            None
        }
    }

    /// The index of the pool for the pair `{asset_x, asset_y}`, named in either order.
    pub fn find(&self, asset_x: &Key, asset_y: &Key) -> (r: Option<usize>)
        ensures
            match r {
                Some(i) => i < self@.len() && trades_pair(self@[i as int], asset_x@, asset_y@),
                None => !has_pair(self@, asset_x@, asset_y@),
            },
    {
        let mut i: usize = 0;
        while i < self.pools.len()
            invariant
                0 <= i <= self@.len(),
                self@ == self.pools@,
                forall|j: int| 0 <= j < i ==> !trades_pair(#[trigger] self@[j], asset_x@, asset_y@),
            decreases self@.len() - i,
        {
            let p = &self.pools[i];
            if (same_key(&p.asset_a_id, asset_x) && same_key(&p.asset_b_id, asset_y)) || (same_key(
                &p.asset_a_id,
                asset_y,
            ) && same_key(&p.asset_b_id, asset_x)) {
                return Some(i);
            }
            i = i + 1;
        }
        None
    }

    /// Creates and records the pool for `{asset_x, asset_y}`, as `initialize_pool`
    /// does, unless the pair already has one; returns its index.
    pub fn register(
        &mut self,
        asset_x: Key,
        asset_y: Key,
        vault_x: Key,
        vault_y: Key,
        lp_asset_id: Key,
        fee_bps: u64,
    ) -> (r: Result<usize, ErrorCode>)
        requires
            old(self).wf(),
        ensures
            final(self).wf(),
            match r {
                Ok(i) => {
                    &&& register_error(old(self)@, asset_x@, asset_y@, lp_asset_id@, fee_bps).is_none()
                    &&& i == old(self)@.len()
                    &&& final(self)@.len() == old(self)@.len() + 1
                    &&& final(self)@.take(i as int) == old(self)@
                    &&& initialized_as(final(self)@[i as int], asset_x, asset_y, vault_x, vault_y, lp_asset_id, fee_bps)
                },
                Err(e) => {
                    &&& register_error(old(self)@, asset_x@, asset_y@, lp_asset_id@, fee_bps) == Some(e)
                    &&& final(self)@ == old(self)@
                },
            },
    {
        let pool = initialize_pool(asset_x, asset_y, vault_x, vault_y, lp_asset_id, fee_bps)?;
        if self.find(&asset_x, &asset_y).is_some() {
            return Err(ErrorCode::PoolAlreadyExists);
        }
        let ghost before = self@;
        proof {
            assert forall|i: int| 0 <= i < before.len() implies !trades_pair(
                #[trigger] before[i],
                pool.asset_a_id@,
                pool.asset_b_id@,
            ) by {
                assert(!trades_pair(before[i], asset_x@, asset_y@));
            }
        }
        let index = self.pools.len();
        self.pools.push(pool);
        proof {
            assert(self@ == before.push(pool));
            assert(self@.take(index as int) =~= before);
        }
        Ok(index)
    }
}

} // verus!
