//! The descriptor of Agni pools.

use vstd::prelude::*;
use crate::chain::Chain;
use crate::errors::PoolSyncError;
use crate::pools::abi::AbiType;
use crate::pools::pool_fetchers::address_at;
use crate::pools::{PoolFetcher, PoolType};
use crate::primitives::Address;

verus! {

/// Describes where Agni pools are created and how their records are laid
/// out.
pub struct AgniV3Fetcher;

impl PoolFetcher for AgniV3Fetcher {
    open spec fn described_type(&self) -> PoolType {
        PoolType::Agni
    }

    open spec fn factory_bytes(&self, chain: Chain) -> Seq<u8> {
        match chain {
            Chain::Mantle => seq![
                0x25u8, 0x78u8, 0x0du8, 0xc8u8, 0xfcu8, 0x3cu8, 0xfbu8, 0xd7u8, 0x5fu8, 0x33u8, 0xbfu8, 0xdau8, 0xb6u8, 0x5eu8, 0x96u8, 0x9bu8, 0x60u8, 0x3bu8, 0x20u8, 0x35u8,
            ],
        }
    }

    open spec fn creation_signature(&self) -> Seq<char> {
        "PoolCreated(address,address,uint24,int24,address)"@
    }

    open spec fn address_offset(&self) -> int {
        44
    }

    open spec fn record_layout(&self) -> Seq<AbiType> {
        seq![
            AbiType::Address,
            AbiType::Address,
            AbiType::Uint(8),
            AbiType::Address,
            AbiType::Uint(8),
            AbiType::Uint(128),
            AbiType::Uint(160),
            AbiType::Int(24),
            AbiType::Int(24),
            AbiType::Uint(24),
        ]
    }

    fn pool_type(&self) -> (r: PoolType) {
        PoolType::Agni
    }

    fn factory_address(&self, chain: Chain) -> (r: Address) {
        match chain {
            Chain::Mantle => {
                let a = Address::new(
                    [
                        0x25, 0x78, 0x0d, 0xc8, 0xfc, 0x3c, 0xfb, 0xd7, 0x5f, 0x33, 0xbf, 0xda, 0xb6, 0x5e, 0x96, 0x9b, 0x60, 0x3b, 0x20, 0x35,
                    ],
                );
                assert(a@ =~= self.factory_bytes(chain));
                a
            },
        }
    }

    fn pair_created_signature(&self) -> (r: &'static str) {
        "PoolCreated(address,address,uint24,int24,address)"
    }

    fn log_to_address(&self, data: &[u8]) -> (r: Result<Address, PoolSyncError>) {
        address_at(data, 44)
    }

    fn get_pool_repr(&self) -> (r: Vec<AbiType>) {
        let r = vec![
            AbiType::Address,
            AbiType::Address,
            AbiType::Uint(8),
            AbiType::Address,
            AbiType::Uint(8),
            AbiType::Uint(128),
            AbiType::Uint(160),
            AbiType::Int(24),
            AbiType::Int(24),
            AbiType::Uint(24),
        ];
        assert(r@ =~= self.record_layout());
        r
    }
}

} // verus!
