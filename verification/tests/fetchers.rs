use pool_sync::errors::PoolSyncError;
use pool_sync::pools::abi::AbiType;
use pool_sync::pools::pool_fetchers::{
    address_at, AgniV3Fetcher, MerchantMoeV2Fetcher, UniswapV3Fetcher,
};
use pool_sync::pools::{PoolFetcher, PoolType};
use pool_sync::primitives::Address;
use pool_sync::Chain;

fn hex(text: &str) -> Address {
    let mut bytes = [0u8; 20];
    for i in 0..20 {
        bytes[i] = u8::from_str_radix(&text[2 * i..2 * i + 2], 16).unwrap();
    }
    Address::new(bytes)
}

#[test]
fn fetchers_name_their_pool_type() {
    assert_eq!(UniswapV3Fetcher.pool_type(), PoolType::UniswapV3);
    assert_eq!(MerchantMoeV2Fetcher.pool_type(), PoolType::MerchantMoe);
    assert_eq!(AgniV3Fetcher.pool_type(), PoolType::Agni);
}

#[test]
fn factory_addresses_on_mantle() {
    assert_eq!(
        UniswapV3Fetcher.factory_address(Chain::Mantle),
        hex("0d922Fb1Bc191F64970ac40376643808b4B74Df9")
    );
    assert_eq!(
        MerchantMoeV2Fetcher.factory_address(Chain::Mantle),
        hex("5bEf015CA9424A7C07B68490616a4C1F094BEdEc")
    );
    assert_eq!(
        AgniV3Fetcher.factory_address(Chain::Mantle),
        hex("25780dc8Fc3cfBD75F33bFDAB65e969b603b2035")
    );
}

#[test]
fn creation_event_signatures() {
    assert_eq!(
        UniswapV3Fetcher.pair_created_signature(),
        "PoolCreated(address,address,uint24,int24,address)"
    );
    assert_eq!(
        AgniV3Fetcher.pair_created_signature(),
        "PoolCreated(address,address,uint24,int24,address)"
    );
    assert_eq!(
        MerchantMoeV2Fetcher.pair_created_signature(),
        "PairCreated(address,address,address,uint256)"
    );
}

#[test]
fn v3_creation_data_holds_the_pool_in_its_second_word() {
    let mut data = vec![0u8; 64];
    data[31] = 60;
    for i in 0..20 {
        data[44 + i] = 0xa0 + i as u8;
    }
    let mut expected = [0u8; 20];
    for i in 0..20 {
        expected[i] = 0xa0 + i as u8;
    }
    assert_eq!(UniswapV3Fetcher.log_to_address(&data), Ok(Address::new(expected)));
    assert_eq!(AgniV3Fetcher.log_to_address(&data), Ok(Address::new(expected)));
    assert_eq!(
        UniswapV3Fetcher.log_to_address(&data[..63]),
        Err(PoolSyncError::MalformedRecord)
    );
    assert_eq!(AgniV3Fetcher.log_to_address(&[]), Err(PoolSyncError::MalformedRecord));
}

#[test]
fn v2_creation_data_holds_the_pair_in_its_first_word() {
    let mut data = vec![0u8; 64];
    for i in 0..20 {
        data[12 + i] = 0x10 + i as u8;
    }
    data[63] = 5;
    let mut expected = [0u8; 20];
    for i in 0..20 {
        expected[i] = 0x10 + i as u8;
    }
    assert_eq!(MerchantMoeV2Fetcher.log_to_address(&data), Ok(Address::new(expected)));
    assert_eq!(
        MerchantMoeV2Fetcher.log_to_address(&data[..31]),
        Err(PoolSyncError::MalformedRecord)
    );
    assert_eq!(address_at(&data, 12), Ok(Address::new(expected)));
    assert_eq!(address_at(&data, 45), Err(PoolSyncError::MalformedRecord));
}

#[test]
fn record_layouts() {
    let v3 = vec![
        AbiType::Address,
        AbiType::Address,
        AbiType::Uint(8),
        AbiType::Address,
        AbiType::Uint(8),
        AbiType::Uint(128),
        AbiType::Uint(160),
        AbiType::Int(24),
        AbiType::Int(24),
        AbiType::Uint(24),
    ];
    assert_eq!(AgniV3Fetcher.get_pool_repr(), v3);
    let mut uniswap = v3.clone();
    uniswap.push(AbiType::Int(128));
    assert_eq!(UniswapV3Fetcher.get_pool_repr(), uniswap);
    assert_eq!(
        MerchantMoeV2Fetcher.get_pool_repr(),
        vec![
            AbiType::Address,
            AbiType::Address,
            AbiType::Address,
            AbiType::Uint(8),
            AbiType::Uint(8),
            AbiType::Uint(112),
            AbiType::Uint(112),
        ]
    );
}
