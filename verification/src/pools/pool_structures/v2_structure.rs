//! Constant-product pools: a token pair and its two reserves.

use vstd::prelude::*;
use crate::errors::PoolSyncError;
use crate::events::PoolEvent;
use crate::pools::abi::AbiValue;
use crate::pools::PoolType;
use crate::primitives::{Address, U256};

verus! {

/// A constant-product pool as last reconciled with the ledger.
#[derive(Debug, Clone)]
pub struct MerchantMoeV2Pool {
    pub address: Address,
    pub token0: Address,
    pub token1: Address,
    pub token0_name: String,
    pub token1_name: String,
    pub token0_decimals: u8,
    pub token1_decimals: u8,
    pub token0_reserves: U256,
    pub token1_reserves: U256,
}

/// The mathematical content of a constant-product pool record.
pub struct V2View {
    pub address: Address,
    pub token0: Address,
    pub token1: Address,
    pub token0_name: Seq<char>,
    pub token1_name: Seq<char>,
    pub token0_decimals: u8,
    pub token1_decimals: u8,
    pub token0_reserves: U256,
    pub token1_reserves: U256,
}

impl View for MerchantMoeV2Pool {
    type V = V2View;

    open spec fn view(&self) -> V2View {
        V2View {
            address: self.address,
            token0: self.token0,
            token1: self.token1,
            token0_name: self.token0_name@,
            token1_name: self.token1_name@,
            token0_decimals: self.token0_decimals,
            token1_decimals: self.token1_decimals,
            token0_reserves: self.token0_reserves,
            token1_reserves: self.token1_reserves,
        }
    }
}

/// The pool after an event: a reserve-sync overwrites both reserves, and any
/// other event is rejected.
pub open spec fn sync_applied(v: V2View, event: PoolEvent) -> Result<V2View, PoolSyncError> {
    match event {
        PoolEvent::Sync { reserve0, reserve1 } => Ok(
            V2View { token0_reserves: reserve0, token1_reserves: reserve1, ..v },
        ),
        _ => Err(PoolSyncError::MalformedRecord),
    }
}

/// Folding in the same reserve-sync twice gives what folding it in once
/// gives.
pub proof fn lemma_sync_idempotent(v: V2View, event: PoolEvent)
    requires
        event is Sync,
    ensures
        sync_applied(v, event) is Ok,
        sync_applied(sync_applied(v, event)->Ok_0, event) == sync_applied(v, event),
{
}

/// Folds a reserve-sync event into the pool: both reserves take the values
/// that the event reports. Any other event is rejected and leaves the pool as
/// it was.
pub fn process_sync_data(pool: &mut MerchantMoeV2Pool, event: &PoolEvent, _pool_type: PoolType) -> (r:
    Result<(), PoolSyncError>)
    ensures
        match r {
            Ok(_) => sync_applied(old(pool)@, *event) == Ok::<V2View, PoolSyncError>(final(pool)@),
            Err(e) => {
                &&& sync_applied(old(pool)@, *event) == Err::<V2View, PoolSyncError>(e)
                &&& final(pool)@ == old(pool)@
            },
        },
{
    match event {
        PoolEvent::Sync { reserve0, reserve1 } => {
            pool.token0_reserves = *reserve0;
            pool.token1_reserves = *reserve1;
            Ok(())
        },
        _ => Err(PoolSyncError::MalformedRecord),
    }
}

/// The number of fields that a bulk-read record of a constant-product pool
/// must hold.
pub const V2_FIELDS: usize = 7;

/// The pool that a bulk-read record describes: address, token0, token1, the
/// decimals of both and the two reserves, in this order; names start empty.
/// A record with too few fields or with a field of the wrong type is
/// rejected.
pub open spec fn v2_decoded(data: Seq<AbiValue>) -> Result<V2View, PoolSyncError> {
    if data.len() < V2_FIELDS || data[0].spec_address() is Err || data[1].spec_address() is Err
        || data[2].spec_address() is Err || data[3].spec_decimals() is Err
        || data[4].spec_decimals() is Err || data[5].spec_uint() is Err
        || data[6].spec_uint() is Err {
        Err(PoolSyncError::MalformedRecord)
    } else {
        Ok(
            V2View {
                address: data[0].spec_address()->Ok_0,
                token0: data[1].spec_address()->Ok_0,
                token1: data[2].spec_address()->Ok_0,
                token0_name: Seq::empty(),
                token1_name: Seq::empty(),
                token0_decimals: data[3].spec_decimals()->Ok_0,
                token1_decimals: data[4].spec_decimals()->Ok_0,
                token0_reserves: data[5].spec_uint()->Ok_0,
                token1_reserves: data[6].spec_uint()->Ok_0,
            },
        )
    }
}

impl MerchantMoeV2Pool {
    /// Builds the pool that a bulk-read record describes.
    pub fn from_values(data: &[AbiValue]) -> (r: Result<MerchantMoeV2Pool, PoolSyncError>)
        ensures
            match r {
                Ok(pool) => v2_decoded(data@) == Ok::<V2View, PoolSyncError>(pool@),
                Err(e) => v2_decoded(data@) == Err::<V2View, PoolSyncError>(e),
            },
    {
        if data.len() < V2_FIELDS {
            return Err(PoolSyncError::MalformedRecord);
        }
        let address: Address = match data[0].as_address() {
            Ok(a) => a,
            Err(e) => {
                return Err(e);
            },
        };
        let token0: Address = match data[1].as_address() {
            Ok(a) => a,
            Err(e) => {
                return Err(e);
            },
        };
        let token1: Address = match data[2].as_address() {
            Ok(a) => a,
            Err(e) => {
                return Err(e);
            },
        };
        let token0_decimals: u8 = match data[3].as_decimals() {
            Ok(d) => d,
            Err(e) => {
                return Err(e);
            },
        };
        let token1_decimals: u8 = match data[4].as_decimals() {
            Ok(d) => d,
            Err(e) => {
                return Err(e);
            },
        };
        let token0_reserves: U256 = match data[5].as_uint() {
            Ok(u) => u,
            Err(e) => {
                return Err(e);
            },
        };
        let token1_reserves: U256 = match data[6].as_uint() {
            Ok(u) => u,
            Err(e) => {
                return Err(e);
            },
        };
        let pool = MerchantMoeV2Pool {
            address,
            token0,
            token1,
            token0_name: String::new(),
            token1_name: String::new(),
            token0_decimals,
            token1_decimals,
            token0_reserves,
            token1_reserves,
        };
        assert(pool@.token0_name =~= Seq::empty());
        assert(pool@.token1_name =~= Seq::empty());
        Ok(pool)
    }
}

} // verus!
