//! The descriptors of the supported protocols.

use vstd::prelude::*;
use crate::errors::PoolSyncError;
use crate::primitives::Address;

pub mod agni_v3_fetcher;
pub mod merchantmoe_v2_fetcher;
pub mod uniswap_v3_fetcher;

pub use agni_v3_fetcher::AgniV3Fetcher;
pub use merchantmoe_v2_fetcher::MerchantMoeV2Fetcher;
pub use uniswap_v3_fetcher::UniswapV3Fetcher;

verus! {

/// Whether `r` is what reading an address at `offset` in the data gives: the
/// address made of the 20 bytes that start there, or a rejection where the
/// data ends before the address does.
pub open spec fn address_read(data: Seq<u8>, offset: int, r: Result<Address, PoolSyncError>) -> bool {
    match r {
        Ok(a) => data.len() >= offset + 20 && a@ == data.subrange(offset, offset + 20),
        Err(e) => data.len() < offset + 20 && e == PoolSyncError::MalformedRecord,
    }
}

/// Reads the address whose 20 bytes start at `offset` in the data.
pub fn address_at(data: &[u8], offset: usize) -> (r: Result<Address, PoolSyncError>)
    ensures
        address_read(data@, offset as int, r),
{
    if data.len() < 20 || data.len() - 20 < offset {
        return Err(PoolSyncError::MalformedRecord);
    }
    assert(data@.len() == data.len());
    let mut bytes: [u8; 20] = [0u8; 20];
    let mut i: usize = 0;
    while i < 20
        invariant
            i <= 20,
            offset + 20 <= data@.len() <= usize::MAX,
            forall|j: int| 0 <= j < i ==> bytes@[j] == data@[offset + j],
        decreases 20 - i,
    {
        bytes[i] = data[offset + i];
        i += 1;
    }
    let a = Address::new(bytes);
    assert(a@ =~= data@.subrange(offset as int, offset + 20));
    Ok(a)
}

} // verus!
