use alloy::primitives::keccak256;
use pool_sync::errors::PoolSyncError;
use pool_sync::events::{
    burn_topic, decode_event, decode_logs, event_signatures, mint_topic, swap_topic, sync_topic,
    tick_from, word_of, PoolEvent, PoolLog, RawLog, BURN_SIGNATURE, MINT_SIGNATURE,
    SWAP_SIGNATURE, SYNC_SIGNATURE,
};
use pool_sync::pools::PoolType;
use pool_sync::primitives::{read_be_u64, read_word, Address, U256};

fn address(last: u8) -> Address {
    let mut bytes = [0u8; 20];
    bytes[19] = last;
    Address::new(bytes)
}

fn hashed(signature: &str) -> U256 {
    let hash = keccak256(signature.as_bytes());
    U256::from_limbs(alloy::primitives::U256::from_be_bytes(hash.0).into_limbs())
}

fn word(n: u128) -> Vec<u8> {
    let mut bytes = vec![0u8; 16];
    bytes.extend_from_slice(&n.to_be_bytes());
    bytes
}

fn signed_word(n: i64) -> Vec<u8> {
    let fill = if n < 0 { 0xffu8 } else { 0 };
    let mut bytes = vec![fill; 24];
    bytes.extend_from_slice(&n.to_be_bytes());
    bytes
}

fn signed_topic(n: i64) -> U256 {
    let fill = if n < 0 { u64::MAX } else { 0 };
    U256 { w0: n as u64, w1: fill, w2: fill, w3: fill }
}

fn words(parts: &[Vec<u8>]) -> Vec<u8> {
    parts.concat()
}

fn mint_log(lower: i64, upper: i64, amount: u128) -> RawLog {
    RawLog {
        address: address(1),
        topics: vec![mint_topic(), U256::from_u64(77), signed_topic(lower), signed_topic(upper)],
        data: words(&[word(5), word(amount), word(10), word(20)]),
    }
}

fn burn_log(lower: i64, upper: i64, amount: u128) -> RawLog {
    RawLog {
        address: address(1),
        topics: vec![burn_topic(), U256::from_u64(77), signed_topic(lower), signed_topic(upper)],
        data: words(&[word(amount), word(10), word(20)]),
    }
}

fn swap_log(tick: i64, sqrt_price: u128, liquidity: u128) -> RawLog {
    RawLog {
        address: address(2),
        topics: vec![swap_topic(), U256::from_u64(1), U256::from_u64(2)],
        data: words(&[
            signed_word(-5),
            signed_word(6),
            word(sqrt_price),
            word(liquidity),
            signed_word(tick),
        ]),
    }
}

fn sync_log(reserve0: u128, reserve1: u128) -> RawLog {
    RawLog {
        address: address(3),
        topics: vec![sync_topic()],
        data: words(&[word(reserve0), word(reserve1)]),
    }
}

#[test]
fn topics_are_the_hashes_of_the_signatures() {
    assert_eq!(mint_topic(), hashed(MINT_SIGNATURE));
    assert_eq!(burn_topic(), hashed(BURN_SIGNATURE));
    assert_eq!(swap_topic(), hashed(SWAP_SIGNATURE));
    assert_eq!(sync_topic(), hashed(SYNC_SIGNATURE));
    assert_eq!(MINT_SIGNATURE, "Mint(address,address,int24,int24,uint128,uint256,uint256)");
    assert_eq!(BURN_SIGNATURE, "Burn(address,int24,int24,uint128,uint256,uint256)");
    assert_eq!(SWAP_SIGNATURE, "Swap(address,address,int256,int256,uint160,uint128,int24)");
    assert_eq!(SYNC_SIGNATURE, "Sync(uint112,uint112)");
}

#[test]
fn each_family_has_its_events() {
    let v3 = vec![MINT_SIGNATURE, BURN_SIGNATURE, SWAP_SIGNATURE];
    assert_eq!(event_signatures(PoolType::UniswapV3), v3);
    assert_eq!(event_signatures(PoolType::Agni), v3);
    assert_eq!(event_signatures(PoolType::MerchantMoe), vec![SYNC_SIGNATURE]);
}

#[test]
fn big_endian_words() {
    let mut data = vec![0u8; 40];
    for i in 0..40 {
        data[i] = i as u8;
    }
    assert_eq!(read_be_u64(&data, 0), 0x0001020304050607);
    assert_eq!(read_be_u64(&data, 32), 0x2021222324252627);
    assert_eq!(
        read_word(&data, 8),
        Some(U256 {
            w3: 0x08090a0b0c0d0e0f,
            w2: 0x1011121314151617,
            w1: 0x18191a1b1c1d1e1f,
            w0: 0x2021222324252627,
        })
    );
    assert_eq!(read_word(&data, 9), None);
    assert_eq!(read_word(&data, usize::MAX), None);
    assert_eq!(word_of(&data, 0).map(|w| w.w0), Some(0x18191a1b1c1d1e1f));
    assert_eq!(word_of(&data, 1), None);
    assert_eq!(word_of(&data, usize::MAX), None);
    assert_eq!(read_be_u64(&[0xff; 8], 0), u64::MAX);
}

#[test]
fn ticks_are_numbers_of_24_bits() {
    assert_eq!(tick_from(&signed_topic(0)), Some(0));
    assert_eq!(tick_from(&signed_topic(-887272)), Some(-887272));
    assert_eq!(tick_from(&signed_topic(8388607)), Some(8388607));
    assert_eq!(tick_from(&signed_topic(-8388608)), Some(-8388608));
    assert_eq!(tick_from(&signed_topic(8388608)), None);
    assert_eq!(tick_from(&signed_topic(-8388609)), None);
    assert_eq!(tick_from(&U256 { w0: 5, w1: 0, w2: 0, w3: 1 }), None);
}

#[test]
fn a_mint_log_is_decoded() {
    assert_eq!(
        decode_event(&mint_log(-100, 100, 500)),
        Ok(Some(PoolEvent::Mint { tick_lower: -100, tick_upper: 100, amount: 500 }))
    );
    assert_eq!(
        decode_event(&mint_log(-887220, 887220, u128::MAX)),
        Ok(Some(PoolEvent::Mint { tick_lower: -887220, tick_upper: 887220, amount: u128::MAX }))
    );
}

#[test]
fn a_burn_log_is_decoded() {
    assert_eq!(
        decode_event(&burn_log(-60, 120, 7)),
        Ok(Some(PoolEvent::Burn { tick_lower: -60, tick_upper: 120, amount: 7 }))
    );
}

#[test]
fn a_swap_log_is_decoded() {
    assert_eq!(
        decode_event(&swap_log(-42, 79228162514264337593543950336, 1500)),
        Ok(Some(PoolEvent::Swap {
            tick: -42,
            sqrt_price: U256::from_u128(79228162514264337593543950336),
            liquidity: 1500,
        }))
    );
}

#[test]
fn a_sync_log_is_decoded() {
    assert_eq!(
        decode_event(&sync_log(1000, 2000)),
        Ok(Some(PoolEvent::Sync {
            reserve0: U256::from_u64(1000),
            reserve1: U256::from_u64(2000),
        }))
    );
}

#[test]
fn logs_of_other_events_are_passed_over() {
    let transfer = RawLog {
        address: address(1),
        topics: vec![hashed("Transfer(address,address,uint256)"), U256::from_u64(1)],
        data: word(5),
    };
    assert_eq!(decode_event(&transfer), Ok(None));
    let bare = RawLog { address: address(1), topics: Vec::new(), data: word(5) };
    assert_eq!(decode_event(&bare), Ok(None));
}

#[test]
fn a_pool_event_of_the_wrong_shape_is_rejected() {
    let mut short = mint_log(-100, 100, 500);
    short.data.pop();
    assert_eq!(decode_event(&short), Err(PoolSyncError::MalformedRecord));
    let mut long = burn_log(-100, 100, 500);
    long.data.push(0);
    assert_eq!(decode_event(&long), Err(PoolSyncError::MalformedRecord));
    let mut few = mint_log(-100, 100, 500);
    few.topics.pop();
    assert_eq!(decode_event(&few), Err(PoolSyncError::MalformedRecord));
    let mut many = sync_log(1, 2);
    many.topics.push(U256::zero());
    assert_eq!(decode_event(&many), Err(PoolSyncError::MalformedRecord));
    assert_eq!(decode_event(&mint_log(-8388609, 100, 500)), Err(PoolSyncError::MalformedRecord));
    assert_eq!(decode_event(&burn_log(-100, 8388608, 500)), Err(PoolSyncError::MalformedRecord));
    assert_eq!(decode_event(&swap_log(1 << 30, 5, 5)), Err(PoolSyncError::MalformedRecord));
    let mut wide_amount = burn_log(-100, 100, 500);
    wide_amount.data[15] = 1;
    assert_eq!(decode_event(&wide_amount), Err(PoolSyncError::MalformedRecord));
    let mut wide_price = swap_log(0, 5, 5);
    wide_price.data[64 + 11] = 1;
    assert_eq!(decode_event(&wide_price), Err(PoolSyncError::MalformedRecord));
    wide_price.data[64 + 11] = 0;
    wide_price.data[64 + 12] = 1;
    assert!(decode_event(&wide_price).is_ok());
    let mut wide_reserve = sync_log(1, 2);
    wide_reserve.data[32 + 17] = 1;
    assert_eq!(decode_event(&wide_reserve), Err(PoolSyncError::MalformedRecord));
    wide_reserve.data[32 + 17] = 0;
    wide_reserve.data[32 + 18] = 1;
    assert!(decode_event(&wide_reserve).is_ok());
}

#[test]
fn a_run_of_logs_keeps_its_order() {
    let other = RawLog { address: address(9), topics: vec![U256::from_u64(1)], data: Vec::new() };
    let logs = vec![mint_log(-100, 100, 500), other, sync_log(1, 2), burn_log(-100, 100, 500)];
    assert_eq!(
        decode_logs(&logs),
        Ok(vec![
            PoolLog {
                address: address(1),
                event: PoolEvent::Mint { tick_lower: -100, tick_upper: 100, amount: 500 },
            },
            PoolLog {
                address: address(3),
                event: PoolEvent::Sync {
                    reserve0: U256::from_u64(1),
                    reserve1: U256::from_u64(2),
                },
            },
            PoolLog {
                address: address(1),
                event: PoolEvent::Burn { tick_lower: -100, tick_upper: 100, amount: 500 },
            },
        ])
    );
    assert_eq!(decode_logs(&Vec::new()), Ok(Vec::new()));
}

#[test]
fn one_malformed_log_fails_the_run() {
    let mut bad = sync_log(1, 2);
    bad.data.truncate(63);
    let logs = vec![mint_log(-100, 100, 500), bad, burn_log(-100, 100, 500)];
    assert_eq!(decode_logs(&logs), Err(PoolSyncError::MalformedRecord));
}
