//! The descriptor of Merchant Moe pools.

use vstd::prelude::*;
use crate::chain::Chain;
use crate::errors::PoolSyncError;
use crate::pools::abi::AbiType;
use crate::pools::pool_fetchers::address_at;
use crate::pools::{PoolFetcher, PoolType};
use crate::primitives::Address;

verus! {

/// Describes where Merchant Moe pools are created and how their records are laid
/// out.
pub struct MerchantMoeV2Fetcher;

impl PoolFetcher for MerchantMoeV2Fetcher {
    open spec fn described_type(&self) -> PoolType {
        PoolType::MerchantMoe
    }

    open spec fn factory_bytes(&self, chain: Chain) -> Seq<u8> {
        match chain {
            Chain::Mantle => seq![
                0x5bu8, 0xefu8, 0x01u8, 0x5cu8, 0xa9u8, 0x42u8, 0x4au8, 0x7cu8, 0x07u8, 0xb6u8, 0x84u8, 0x90u8, 0x61u8, 0x6au8, 0x4cu8, 0x1fu8, 0x09u8, 0x4bu8, 0xedu8, 0xecu8,
            ],
        }
    }

    open spec fn creation_signature(&self) -> Seq<char> {
        "PairCreated(address,address,address,uint256)"@
    }

    open spec fn address_offset(&self) -> int {
        12
    }

    open spec fn record_layout(&self) -> Seq<AbiType> {
        seq![
            AbiType::Address,
            AbiType::Address,
            AbiType::Address,
            AbiType::Uint(8),
            AbiType::Uint(8),
            AbiType::Uint(112),
            AbiType::Uint(112),
        ]
    }

    fn pool_type(&self) -> (r: PoolType) {
        PoolType::MerchantMoe
    }

    fn factory_address(&self, chain: Chain) -> (r: Address) {
        match chain {
            Chain::Mantle => {
                let a = Address::new(
                    [
                        0x5b, 0xef, 0x01, 0x5c, 0xa9, 0x42, 0x4a, 0x7c, 0x07, 0xb6, 0x84, 0x90, 0x61, 0x6a, 0x4c, 0x1f, 0x09, 0x4b, 0xed, 0xec,
                    ],
                );
                assert(a@ =~= self.factory_bytes(chain));
                a
            },
        }
    }

    fn pair_created_signature(&self) -> (r: &'static str) {
        "PairCreated(address,address,address,uint256)"
    }

    fn log_to_address(&self, data: &[u8]) -> (r: Result<Address, PoolSyncError>) {
        address_at(data, 12)
    }

    fn get_pool_repr(&self) -> (r: Vec<AbiType>) {
        let r = vec![
            AbiType::Address,
            AbiType::Address,
            AbiType::Address,
            AbiType::Uint(8),
            AbiType::Uint(8),
            AbiType::Uint(112),
            AbiType::Uint(112),
        ];
        assert(r@ =~= self.record_layout());
        r
    }
}

} // verus!
