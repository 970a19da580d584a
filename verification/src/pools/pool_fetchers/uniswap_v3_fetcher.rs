//! The descriptor of Uniswap V3 pools.

use vstd::prelude::*;
use crate::chain::Chain;
use crate::errors::PoolSyncError;
use crate::pools::abi::AbiType;
use crate::pools::pool_fetchers::address_at;
use crate::pools::{PoolFetcher, PoolType};
use crate::primitives::Address;

verus! {

/// Describes where Uniswap V3 pools are created and how their records are laid
/// out.
pub struct UniswapV3Fetcher;

impl PoolFetcher for UniswapV3Fetcher {
    open spec fn described_type(&self) -> PoolType {
        PoolType::UniswapV3
    }

    open spec fn factory_bytes(&self, chain: Chain) -> Seq<u8> {
        match chain {
            Chain::Mantle => seq![
                0x0du8, 0x92u8, 0x2fu8, 0xb1u8, 0xbcu8, 0x19u8, 0x1fu8, 0x64u8, 0x97u8, 0x0au8, 0xc4u8, 0x03u8, 0x76u8, 0x64u8, 0x38u8, 0x08u8, 0xb4u8, 0xb7u8, 0x4du8, 0xf9u8,
            ],
        }
    }

    open spec fn creation_signature(&self) -> Seq<char> {
        "PoolCreated(address,address,uint24,int24,address)"@
    }

    open spec fn address_offset(&self) -> int {
        44
    }

    open spec fn record_layout(&self) -> Seq<AbiType> {
        seq![
            AbiType::Address,
            AbiType::Address,
            AbiType::Uint(8),
            AbiType::Address,
            AbiType::Uint(8),
            AbiType::Uint(128),
            AbiType::Uint(160),
            AbiType::Int(24),
            AbiType::Int(24),
            AbiType::Uint(24),
            AbiType::Int(128),
        ]
    }

    fn pool_type(&self) -> (r: PoolType) {
        PoolType::UniswapV3
    }

    fn factory_address(&self, chain: Chain) -> (r: Address) {
        match chain {
            Chain::Mantle => {
                let a = Address::new(
                    [
                        0x0d, 0x92, 0x2f, 0xb1, 0xbc, 0x19, 0x1f, 0x64, 0x97, 0x0a, 0xc4, 0x03, 0x76, 0x64, 0x38, 0x08, 0xb4, 0xb7, 0x4d, 0xf9,
                    ],
                );
                assert(a@ =~= self.factory_bytes(chain));
                a
            },
        }
    }

    fn pair_created_signature(&self) -> (r: &'static str) {
        "PoolCreated(address,address,uint24,int24,address)"
    }

    fn log_to_address(&self, data: &[u8]) -> (r: Result<Address, PoolSyncError>) {
        address_at(data, 44)
    }

    fn get_pool_repr(&self) -> (r: Vec<AbiType>) {
        let r = vec![
            AbiType::Address,
            AbiType::Address,
            AbiType::Uint(8),
            AbiType::Address,
            AbiType::Uint(8),
            AbiType::Uint(128),
            AbiType::Uint(160),
            AbiType::Int(24),
            AbiType::Int(24),
            AbiType::Uint(24),
            AbiType::Int(128),
        ];
        assert(r@ =~= self.record_layout());
        r
    }
}

} // verus!
