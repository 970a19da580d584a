use alloy::dyn_abi::{DynSolType, DynSolValue};
use alloy::primitives::I256;
use pool_sync::errors::PoolSyncError;
use pool_sync::pools::abi::{
    decode_field, decode_record, decode_records, encode_addresses, number_word, AbiType, AbiValue,
};
use pool_sync::pools::pool_builder::pools_from_answer;
use pool_sync::pools::pool_fetchers::{AgniV3Fetcher, MerchantMoeV2Fetcher, UniswapV3Fetcher};
use pool_sync::pools::{PoolFetcher, PoolInfo, PoolType};
use pool_sync::primitives::{be_bytes_of, Address, U256};

fn address(last: u8) -> Address {
    let mut bytes = [3u8; 20];
    bytes[19] = last;
    Address::new(bytes)
}

fn client_address(a: Address) -> alloy::primitives::Address {
    alloy::primitives::Address::new(a.bytes)
}

fn client_type(layout: &[AbiType]) -> DynSolType {
    DynSolType::Array(Box::new(DynSolType::Tuple(
        layout
            .iter()
            .map(|field| match field {
                AbiType::Address => DynSolType::Address,
                AbiType::Uint(bits) => DynSolType::Uint(*bits),
                AbiType::Int(bits) => DynSolType::Int(*bits),
            })
            .collect(),
    )))
}

fn library_value(value: &DynSolValue) -> AbiValue {
    match value {
        DynSolValue::Address(a) => AbiValue::Address(Address::new(a.into_array())),
        DynSolValue::Uint(u, bits) => AbiValue::Uint(U256::from_limbs(u.into_limbs()), *bits),
        DynSolValue::Int(i, bits) => {
            AbiValue::Int(U256::from_limbs(i.into_raw().into_limbs()), *bits)
        }
        _ => AbiValue::Other,
    }
}

fn v3_tuple(pool: u8, tick: i32, extra: bool) -> DynSolValue {
    let mut fields = vec![
        DynSolValue::Address(client_address(address(pool))),
        DynSolValue::Address(client_address(address(100))),
        DynSolValue::Uint(alloy::primitives::U256::from(18u8), 8),
        DynSolValue::Address(client_address(address(101))),
        DynSolValue::Uint(alloy::primitives::U256::from(6u8), 8),
        DynSolValue::Uint(alloy::primitives::U256::from(123456789u64), 128),
        DynSolValue::Uint(alloy::primitives::U256::from(1u128 << 96), 160),
        DynSolValue::Int(I256::try_from(tick).unwrap(), 24),
        DynSolValue::Int(I256::try_from(60).unwrap(), 24),
        DynSolValue::Uint(alloy::primitives::U256::from(3000u32), 24),
    ];
    if extra {
        fields.push(DynSolValue::Int(I256::try_from(-5).unwrap(), 128));
    }
    DynSolValue::Tuple(fields)
}

fn v2_tuple(pool: u8) -> DynSolValue {
    DynSolValue::Tuple(vec![
        DynSolValue::Address(client_address(address(pool))),
        DynSolValue::Address(client_address(address(100))),
        DynSolValue::Address(client_address(address(101))),
        DynSolValue::Uint(alloy::primitives::U256::from(18u8), 8),
        DynSolValue::Uint(alloy::primitives::U256::from(6u8), 8),
        DynSolValue::Uint(alloy::primitives::U256::from(1000u32), 112),
        DynSolValue::Uint(alloy::primitives::U256::from(2000u32), 112),
    ])
}

#[test]
fn numbers_as_big_endian_bytes() {
    assert_eq!(be_bytes_of(0), [0u8; 8]);
    assert_eq!(be_bytes_of(0x0102030405060708), [1, 2, 3, 4, 5, 6, 7, 8]);
    assert_eq!(be_bytes_of(u64::MAX), [0xff; 8]);
    let word = number_word(0x1234);
    assert_eq!(word.len(), 32);
    assert_eq!(&word[..30], &[0u8; 30]);
    assert_eq!(&word[30..], &[0x12, 0x34]);
}

#[test]
fn address_lists_are_encoded_as_the_client_encodes_them() {
    for n in [0usize, 1, 2, 7] {
        let addresses: Vec<Address> = (0..n).map(|i| address(i as u8 + 1)).collect();
        let expected = DynSolValue::Tuple(vec![DynSolValue::Array(
            addresses.iter().map(|a| DynSolValue::Address(client_address(*a))).collect(),
        )])
        .abi_encode_params();
        assert_eq!(encode_addresses(&addresses), expected);
    }
}

#[test]
fn an_encoded_address_list_decodes_back() {
    let addresses: Vec<Address> = (1..=5).map(address).collect();
    let decoded = decode_records(&[AbiType::Address], &encode_addresses(&addresses)).unwrap();
    let expected: Vec<Vec<AbiValue>> =
        addresses.iter().map(|a| vec![AbiValue::Address(*a)]).collect();
    assert_eq!(decoded, expected);
}

#[test]
fn an_answer_decodes_as_the_client_decodes_it() {
    let layout = UniswapV3Fetcher.get_pool_repr();
    let value = DynSolValue::Array(vec![v3_tuple(1, -42, true), v3_tuple(2, 887220, true)]);
    let answer = value.abi_encode();
    let by_client = client_type(&layout).abi_decode_sequence(&answer).unwrap();
    let expected: Vec<Vec<AbiValue>> = by_client
        .as_array()
        .unwrap()
        .iter()
        .map(|tuple| tuple.as_tuple().unwrap().iter().map(library_value).collect())
        .collect();
    assert_eq!(expected.len(), 2);
    assert_eq!(decode_records(&layout, &answer), Ok(expected));
}

#[test]
fn an_empty_answer_holds_no_records() {
    let answer = DynSolValue::Array(Vec::new()).abi_encode();
    assert_eq!(answer.len(), 64);
    assert_eq!(decode_records(&AgniV3Fetcher.get_pool_repr(), &answer), Ok(Vec::new()));
}

#[test]
fn fields_are_read_word_by_word() {
    let mut bytes = vec![0u8; 96];
    bytes[0] = 0xaa;
    bytes[12..32].copy_from_slice(&address(9).bytes);
    bytes[63] = 18;
    for b in &mut bytes[64..96] {
        *b = 0xff;
    }
    assert_eq!(decode_field(AbiType::Address, &bytes, 0), AbiValue::Address(address(9)));
    assert_eq!(decode_field(AbiType::Uint(8), &bytes, 32), AbiValue::Uint(U256::from_u64(18), 8));
    let minus_one = U256 { w0: u64::MAX, w1: u64::MAX, w2: u64::MAX, w3: u64::MAX };
    assert_eq!(decode_field(AbiType::Int(24), &bytes, 64), AbiValue::Int(minus_one, 24));
    assert_eq!(
        decode_record(&[AbiType::Address, AbiType::Uint(8), AbiType::Int(24)], &bytes, 0),
        vec![
            AbiValue::Address(address(9)),
            AbiValue::Uint(U256::from_u64(18), 8),
            AbiValue::Int(minus_one, 24),
        ]
    );
}

#[test]
fn answers_of_another_shape_are_rejected() {
    let layout = AgniV3Fetcher.get_pool_repr();
    let good = DynSolValue::Array(vec![v3_tuple(1, 0, false)]).abi_encode();
    assert!(decode_records(&layout, &good).is_ok());
    assert_eq!(decode_records(&[], &good), Err(PoolSyncError::MalformedRecord));
    assert_eq!(decode_records(&layout, &good[..63]), Err(PoolSyncError::MalformedRecord));
    assert_eq!(
        decode_records(&layout, &good[..good.len() - 1]),
        Err(PoolSyncError::MalformedRecord)
    );
    let mut offset = good.clone();
    offset[31] = 64;
    assert_eq!(decode_records(&layout, &offset), Err(PoolSyncError::MalformedRecord));
    let mut count = good.clone();
    count[63] = 2;
    assert_eq!(decode_records(&layout, &count), Err(PoolSyncError::MalformedRecord));
    let mut huge = good.clone();
    huge[32] = 1;
    assert_eq!(decode_records(&layout, &huge), Err(PoolSyncError::MalformedRecord));
    let mut trailing = good.clone();
    trailing.extend_from_slice(&[0u8; 32]);
    assert_eq!(decode_records(&layout, &trailing), decode_records(&layout, &good));
}

#[test]
fn pools_are_built_from_an_answer() {
    let answer = DynSolValue::Array(vec![v3_tuple(1, -42, true), v3_tuple(2, 60, true)])
        .abi_encode();
    let pools = pools_from_answer(&UniswapV3Fetcher, &answer).unwrap();
    assert_eq!(pools.len(), 2);
    assert_eq!(pools[0].address(), address(1));
    assert_eq!(pools[0].pool_type(), PoolType::UniswapV3);
    let first = pools[0].get_v3().unwrap();
    assert_eq!(first.token0, address(100));
    assert_eq!(first.token1, address(101));
    assert_eq!((first.token0_decimals, first.token1_decimals), (18, 6));
    assert_eq!(first.liquidity, 123456789);
    assert_eq!(first.sqrt_price, U256::from_u128(1u128 << 96));
    assert_eq!((first.tick, first.tick_spacing, first.fee), (-42, 60, 3000));
    assert_eq!(pools[1].get_v3().unwrap().tick, 60);

    let agni = DynSolValue::Array(vec![v3_tuple(7, 5, false)]).abi_encode();
    let pools = pools_from_answer(&AgniV3Fetcher, &agni).unwrap();
    assert_eq!(pools[0].pool_type(), PoolType::Agni);
    assert_eq!(pools[0].address(), address(7));

    let moe = DynSolValue::Array(vec![v2_tuple(8), v2_tuple(9)]).abi_encode();
    let pools = pools_from_answer(&MerchantMoeV2Fetcher, &moe).unwrap();
    assert_eq!(pools.len(), 2);
    assert_eq!(pools[1].get_v2().unwrap().token1_reserves, U256::from_u64(2000));
}

#[test]
fn a_malformed_answer_builds_no_pools() {
    assert_eq!(
        pools_from_answer(&AgniV3Fetcher, &[0u8; 10]).err(),
        Some(PoolSyncError::MalformedRecord)
    );
}
