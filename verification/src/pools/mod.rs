//! Pool families and the records kept for each pool.

use vstd::prelude::*;
use crate::errors::PoolSyncError;
use crate::events::PoolEvent;
use crate::pools::abi::AbiValue;
use crate::pools::pool_structures::v2_structure::{
    process_sync_data, sync_applied, v2_decoded, MerchantMoeV2Pool, V2View,
};
use crate::pools::pool_structures::v3_laws::{
    event_usable, lemma_event_keeps_ledger, lemma_event_keeps_same_ledger, same_ledger,
};
use crate::pools::pool_structures::v3_structure::{
    event_applied, ledger_consistent, process_tick_data, v3_decoded, UniswapV3Pool, V3View,
};
use crate::chain::Chain;
use crate::pools::abi::AbiType;
use crate::pools::pool_fetchers::address_read;
use crate::primitives::Address;

pub mod abi;
pub mod pool_builder;
pub mod pool_fetchers;
pub mod pool_structures;

verus! {

/// The supported pool families.
#[derive(Debug, Clone, Copy, PartialEq, Eq, Hash, Structural)]
pub enum PoolType {
    UniswapV3,
    MerchantMoe,
    Agni,
}

impl PoolType {
    /// The family keeps concentrated liquidity over tick ranges.
    pub open spec fn spec_is_v3(self) -> bool {
        self == PoolType::UniswapV3 || self == PoolType::Agni
    }

    /// The family keeps a constant product of two reserves.
    pub open spec fn spec_is_v2(self) -> bool {
        self == PoolType::MerchantMoe
    }

    /// Tells whether the family keeps concentrated liquidity.
    pub fn is_v3(&self) -> (r: bool)
        ensures
            r == self.spec_is_v3(),
    {
        match self {
            PoolType::UniswapV3 => true,
            PoolType::Agni => true,
            PoolType::MerchantMoe => false,
        }
    }

    /// Tells whether the family keeps a constant product of reserves.
    pub fn is_v2(&self) -> (r: bool)
        ensures
            r == self.spec_is_v2(),
    {
        match self {
            PoolType::MerchantMoe => true,
            PoolType::UniswapV3 => false,
            PoolType::Agni => false,
        }
    }
}

/// A populated pool of any supported family.
#[derive(Debug, Clone)]
pub enum Pool {
    UniswapV3(UniswapV3Pool),
    MerchantMoe(MerchantMoeV2Pool),
    Agni(UniswapV3Pool),
}

/// The mathematical content of a pool of any family.
pub enum PoolView {
    UniswapV3(V3View),
    MerchantMoe(V2View),
    Agni(V3View),
}

impl PoolView {
    /// The family that the pool belongs to.
    pub open spec fn pool_type(self) -> PoolType {
        match self {
            PoolView::UniswapV3(_) => PoolType::UniswapV3,
            PoolView::MerchantMoe(_) => PoolType::MerchantMoe,
            PoolView::Agni(_) => PoolType::Agni,
        }
    }

    /// The pool's own address.
    pub open spec fn address(self) -> Address {
        match self {
            PoolView::UniswapV3(p) => p.address,
            PoolView::MerchantMoe(p) => p.address,
            PoolView::Agni(p) => p.address,
        }
    }

    /// The address of the first token.
    pub open spec fn token0(self) -> Address {
        match self {
            PoolView::UniswapV3(p) => p.token0,
            PoolView::MerchantMoe(p) => p.token0,
            PoolView::Agni(p) => p.token0,
        }
    }

    /// The address of the second token.
    pub open spec fn token1(self) -> Address {
        match self {
            PoolView::UniswapV3(p) => p.token1,
            PoolView::MerchantMoe(p) => p.token1,
            PoolView::Agni(p) => p.token1,
        }
    }

    /// The display name of the first token.
    pub open spec fn token0_name(self) -> Seq<char> {
        match self {
            PoolView::UniswapV3(p) => p.token0_name,
            PoolView::MerchantMoe(p) => p.token0_name,
            PoolView::Agni(p) => p.token0_name,
        }
    }

    /// The display name of the second token.
    pub open spec fn token1_name(self) -> Seq<char> {
        match self {
            PoolView::UniswapV3(p) => p.token1_name,
            PoolView::MerchantMoe(p) => p.token1_name,
            PoolView::Agni(p) => p.token1_name,
        }
    }

    /// The decimals of the first token.
    pub open spec fn token0_decimals(self) -> u8 {
        match self {
            PoolView::UniswapV3(p) => p.token0_decimals,
            PoolView::MerchantMoe(p) => p.token0_decimals,
            PoolView::Agni(p) => p.token0_decimals,
        }
    }

    /// The decimals of the second token.
    pub open spec fn token1_decimals(self) -> u8 {
        match self {
            PoolView::UniswapV3(p) => p.token1_decimals,
            PoolView::MerchantMoe(p) => p.token1_decimals,
            PoolView::Agni(p) => p.token1_decimals,
        }
    }

    /// The fee tier; constant-product pools report none.
    pub open spec fn fee(self) -> u32 {
        match self {
            PoolView::UniswapV3(p) => p.fee,
            PoolView::MerchantMoe(_) => 0,
            PoolView::Agni(p) => p.fee,
        }
    }

    /// The pool with the first token's display name replaced.
    pub open spec fn with_token0_name(self, name: Seq<char>) -> PoolView {
        match self {
            PoolView::UniswapV3(p) => PoolView::UniswapV3(V3View { token0_name: name, ..p }),
            PoolView::MerchantMoe(p) => PoolView::MerchantMoe(V2View { token0_name: name, ..p }),
            PoolView::Agni(p) => PoolView::Agni(V3View { token0_name: name, ..p }),
        }
    }

    /// The pool with the second token's display name replaced.
    pub open spec fn with_token1_name(self, name: Seq<char>) -> PoolView {
        match self {
            PoolView::UniswapV3(p) => PoolView::UniswapV3(V3View { token1_name: name, ..p }),
            PoolView::MerchantMoe(p) => PoolView::MerchantMoe(V2View { token1_name: name, ..p }),
            PoolView::Agni(p) => PoolView::Agni(V3View { token1_name: name, ..p }),
        }
    }

    /// A record is kept only if the pool and both tokens have an address
    /// other than the zero address.
    pub open spec fn is_valid(self) -> bool {
        !self.address().spec_is_zero() && !self.token0().spec_is_zero()
            && !self.token1().spec_is_zero()
    }
}

impl View for Pool {
    type V = PoolView;

    open spec fn view(&self) -> PoolView {
        match self {
            Pool::UniswapV3(p) => PoolView::UniswapV3(p@),
            Pool::MerchantMoe(p) => PoolView::MerchantMoe(p@),
            Pool::Agni(p) => PoolView::Agni(p@),
        }
    }
}

/// The pool after one event: a concentrated-liquidity pool folds in mints,
/// burns and swaps and lets other events pass; a constant-product pool folds
/// in reserve-syncs and rejects other events.
#[verifier::opaque]
pub open spec fn pool_event_applied(p: PoolView, event: PoolEvent, is_initial_sync: bool) -> Result<
    PoolView,
    PoolSyncError,
> {
    match p {
        PoolView::UniswapV3(v) => match event_applied(v, event, is_initial_sync) {
            Ok(u) => Ok(PoolView::UniswapV3(u)),
            Err(e) => Err(e),
        },
        PoolView::Agni(v) => match event_applied(v, event, is_initial_sync) {
            Ok(u) => Ok(PoolView::Agni(u)),
            Err(e) => Err(e),
        },
        PoolView::MerchantMoe(v) => match sync_applied(v, event) {
            Ok(u) => Ok(PoolView::MerchantMoe(u)),
            Err(e) => Err(e),
        },
    }
}

/// Whether a pool's tick ledger agrees with its bitmap; a constant-product
/// pool has neither and is always consistent.
pub open spec fn pool_consistent(p: PoolView) -> bool {
    match p {
        PoolView::UniswapV3(v) => ledger_consistent(v),
        PoolView::Agni(v) => ledger_consistent(v),
        PoolView::MerchantMoe(_) => true,
    }
}

/// Whether the ticks that an event names can bound a position of the pool.
pub open spec fn pool_event_usable(p: PoolView, event: PoolEvent) -> bool {
    match p {
        PoolView::UniswapV3(v) => event_usable(event, v.tick_spacing),
        PoolView::Agni(v) => event_usable(event, v.tick_spacing),
        PoolView::MerchantMoe(_) => true,
    }
}

/// An accepted event whose ticks are usable keeps a pool consistent, and
/// events whose ticks were usable before it stay usable after it.
pub proof fn lemma_pool_event_keeps_ledger(
    p: PoolView,
    event: PoolEvent,
    later: PoolEvent,
    is_initial_sync: bool,
)
    requires
        pool_consistent(p),
        pool_event_usable(p, event),
        pool_event_applied(p, event, is_initial_sync) is Ok,
    ensures
        pool_consistent(pool_event_applied(p, event, is_initial_sync)->Ok_0),
        pool_event_usable(pool_event_applied(p, event, is_initial_sync)->Ok_0, later)
            == pool_event_usable(p, later),
{
    reveal(pool_event_applied);
    match p {
        PoolView::UniswapV3(v) => {
            lemma_event_keeps_ledger(v, event, is_initial_sync);
        },
        PoolView::Agni(v) => {
            lemma_event_keeps_ledger(v, event, is_initial_sync);
        },
        PoolView::MerchantMoe(_) => {},
    }
}

/// Whether two pools are of the same family and agree in everything but
/// what a bulk read reports of the moment: for concentrated liquidity the
/// aggregate liquidity, the current tick and the price; for a constant
/// product the two reserves.
pub open spec fn pool_same_ledger(p: PoolView, q: PoolView) -> bool {
    match p {
        PoolView::UniswapV3(u) => q is UniswapV3 && same_ledger(u, q->UniswapV3_0),
        PoolView::Agni(u) => q is Agni && same_ledger(u, q->Agni_0),
        PoolView::MerchantMoe(u) => q is MerchantMoe && u == (V2View {
            token0_reserves: u.token0_reserves,
            token1_reserves: u.token1_reserves,
            ..q->MerchantMoe_0
        }),
    }
}

/// Two pools with the same ledger that both accept an event have the same
/// ledger after it, whatever their initial-sync flags.
pub proof fn lemma_pool_event_keeps_same_ledger(
    p: PoolView,
    q: PoolView,
    event: PoolEvent,
    p_initial: bool,
    q_initial: bool,
)
    requires
        pool_same_ledger(p, q),
        pool_event_applied(p, event, p_initial) is Ok,
        pool_event_applied(q, event, q_initial) is Ok,
    ensures
        pool_same_ledger(
            pool_event_applied(p, event, p_initial)->Ok_0,
            pool_event_applied(q, event, q_initial)->Ok_0,
        ),
{
    reveal(pool_event_applied);
    match p {
        PoolView::UniswapV3(u) => {
            lemma_event_keeps_same_ledger(u, q->UniswapV3_0, event, p_initial, q_initial);
        },
        PoolView::Agni(u) => {
            lemma_event_keeps_same_ledger(u, q->Agni_0, event, p_initial, q_initial);
        },
        PoolView::MerchantMoe(_) => {},
    }
}

/// The pool of the given type that holds a concentrated-liquidity record;
/// a constant-product pool type is rejected.
pub open spec fn v3_wrapped(pool_type: PoolType, v: V3View) -> Result<PoolView, PoolSyncError> {
    match pool_type {
        PoolType::UniswapV3 => Ok(PoolView::UniswapV3(v)),
        PoolType::Agni => Ok(PoolView::Agni(v)),
        PoolType::MerchantMoe => Err(PoolSyncError::MismatchedPoolType),
    }
}

/// The pool of the given type that holds a constant-product record; a
/// concentrated-liquidity pool type is rejected.
pub open spec fn v2_wrapped(pool_type: PoolType, v: V2View) -> Result<PoolView, PoolSyncError> {
    match pool_type {
        PoolType::MerchantMoe => Ok(PoolView::MerchantMoe(v)),
        _ => Err(PoolSyncError::MismatchedPoolType),
    }
}

/// The pool of the given type that a bulk-read record describes.
pub open spec fn pool_decoded(pool_type: PoolType, data: Seq<AbiValue>) -> Result<
    PoolView,
    PoolSyncError,
> {
    if pool_type.spec_is_v3() {
        match v3_decoded(data) {
            Ok(v) => v3_wrapped(pool_type, v),
            Err(e) => Err(e),
        }
    } else {
        match v2_decoded(data) {
            Ok(v) => v2_wrapped(pool_type, v),
            Err(e) => Err(e),
        }
    }
}

impl PoolType {
    /// Builds the pool of this type that a bulk-read record describes.
    pub fn build_pool(&self, pool_data: &[AbiValue]) -> (r: Result<Pool, PoolSyncError>)
        ensures
            match r {
                Ok(pool) => pool_decoded(*self, pool_data@) == Ok::<PoolView, PoolSyncError>(pool@),
                Err(e) => pool_decoded(*self, pool_data@) == Err::<PoolView, PoolSyncError>(e),
            },
    {
        if self.is_v3() {
            match UniswapV3Pool::from_values(pool_data) {
                Ok(pool) => Pool::new_v3(*self, pool),
                Err(e) => Err(e),
            }
        } else {
            match MerchantMoeV2Pool::from_values(pool_data) {
                Ok(pool) => Pool::new_v2(*self, pool),
                Err(e) => Err(e),
            }
        }
    }

    /// The family's name, as used in file names and messages.
    pub fn name(&self) -> (s: &'static str)
        ensures
            s@ == (match self {
                PoolType::UniswapV3 => "UniswapV3"@,
                PoolType::MerchantMoe => "MerchantMoe"@,
                PoolType::Agni => "Agni"@,
            }),
    {
        match self {
            PoolType::UniswapV3 => "UniswapV3",
            PoolType::MerchantMoe => "MerchantMoe",
            PoolType::Agni => "Agni",
        }
    }
}

impl Pool {
    /// Wraps a concentrated-liquidity record as a pool of the given type.
    pub fn new_v3(pool_type: PoolType, pool: UniswapV3Pool) -> (r: Result<Pool, PoolSyncError>)
        ensures
            match r {
                Ok(p) => v3_wrapped(pool_type, pool@) == Ok::<PoolView, PoolSyncError>(p@),
                Err(e) => v3_wrapped(pool_type, pool@) == Err::<PoolView, PoolSyncError>(e),
            },
    {
        match pool_type {
            PoolType::UniswapV3 => Ok(Pool::UniswapV3(pool)),
            PoolType::Agni => Ok(Pool::Agni(pool)),
            PoolType::MerchantMoe => Err(PoolSyncError::MismatchedPoolType),
        }
    }

    /// Wraps a constant-product record as a pool of the given type.
    pub fn new_v2(pool_type: PoolType, pool: MerchantMoeV2Pool) -> (r: Result<Pool, PoolSyncError>)
        ensures
            match r {
                Ok(p) => v2_wrapped(pool_type, pool@) == Ok::<PoolView, PoolSyncError>(p@),
                Err(e) => v2_wrapped(pool_type, pool@) == Err::<PoolView, PoolSyncError>(e),
            },
    {
        match pool_type {
            PoolType::MerchantMoe => Ok(Pool::MerchantMoe(pool)),
            _ => Err(PoolSyncError::MismatchedPoolType),
        }
    }

    /// Tells whether the pool keeps concentrated liquidity.
    pub fn is_v3(&self) -> (r: bool)
        ensures
            r == self@.pool_type().spec_is_v3(),
    {
        match self {
            Pool::UniswapV3(_) => true,
            Pool::Agni(_) => true,
            Pool::MerchantMoe(_) => false,
        }
    }

    /// Tells whether the pool keeps a constant product of reserves.
    pub fn is_v2(&self) -> (r: bool)
        ensures
            r == self@.pool_type().spec_is_v2(),
    {
        match self {
            Pool::MerchantMoe(_) => true,
            Pool::UniswapV3(_) => false,
            Pool::Agni(_) => false,
        }
    }

    /// The concentrated-liquidity record, where the pool holds one.
    pub fn get_v3(&self) -> (r: Option<&UniswapV3Pool>)
        ensures
            match r {
                Some(p) => *self == Pool::UniswapV3(*p) || *self == Pool::Agni(*p),
                None => self is MerchantMoe,
            },
    {
        match self {
            Pool::UniswapV3(pool) => Some(pool),
            Pool::Agni(pool) => Some(pool),
            Pool::MerchantMoe(_) => None,
        }
    }

    /// The constant-product record, where the pool holds one.
    pub fn get_v2(&self) -> (r: Option<&MerchantMoeV2Pool>)
        ensures
            match r {
                Some(p) => *self == Pool::MerchantMoe(*p),
                None => !(self is MerchantMoe),
            },
    {
        match self {
            Pool::MerchantMoe(pool) => Some(pool),
            _ => None,
        }
    }

    /// The concentrated-liquidity record, for changing it in place.
    pub fn get_v3_mut(&mut self) -> (r: Option<&mut UniswapV3Pool>)
        ensures
            match r {
                Some(p) => {
                    &&& *old(self) == Pool::UniswapV3(*p) || *old(self) == Pool::Agni(*p)
                    &&& *final(self) == (match *old(self) {
                        Pool::UniswapV3(_) => Pool::UniswapV3(*final(p)),
                        _ => Pool::Agni(*final(p)),
                    })
                },
                None => (*old(self)) is MerchantMoe && *final(self) == *old(self),
            },
    {
        match self {
            Pool::UniswapV3(pool) => Some(pool),
            Pool::Agni(pool) => Some(pool),
            Pool::MerchantMoe(_) => None,
        }
    }

    /// The constant-product record, for changing it in place.
    pub fn get_v2_mut(&mut self) -> (r: Option<&mut MerchantMoeV2Pool>)
        ensures
            match r {
                Some(p) => {
                    &&& *old(self) == Pool::MerchantMoe(*p)
                    &&& *final(self) == Pool::MerchantMoe(*final(p))
                },
                None => !((*old(self)) is MerchantMoe) && *final(self) == *old(self),
            },
    {
        match self {
            Pool::MerchantMoe(pool) => Some(pool),
            _ => None,
        }
    }

    /// Sets the display name of the first token.
    pub fn update_token0_name(pool: &mut Pool, token0: String)
        ensures
            final(pool)@ == old(pool)@.with_token0_name(token0@),
    {
        match pool {
            Pool::UniswapV3(p) => {
                p.token0_name = token0;
            },
            Pool::MerchantMoe(p) => {
                p.token0_name = token0;
            },
            Pool::Agni(p) => {
                p.token0_name = token0;
            },
        }
    }

    /// Sets the display name of the second token.
    pub fn update_token1_name(pool: &mut Pool, token1: String)
        ensures
            final(pool)@ == old(pool)@.with_token1_name(token1@),
    {
        match pool {
            Pool::UniswapV3(p) => {
                p.token1_name = token1;
            },
            Pool::MerchantMoe(p) => {
                p.token1_name = token1;
            },
            Pool::Agni(p) => {
                p.token1_name = token1;
            },
        }
    }

    /// Folds one event into the pool, by the pool's family.
    ///
    /// A rejected event leaves the pool as it was.
    pub fn apply_event(&mut self, event: &PoolEvent, is_initial_sync: bool) -> (r: Result<
        (),
        PoolSyncError,
    >)
        ensures
            match r {
                Ok(_) => pool_event_applied(old(self)@, *event, is_initial_sync) == Ok::<
                    PoolView,
                    PoolSyncError,
                >(final(self)@),
                Err(e) => {
                    &&& pool_event_applied(old(self)@, *event, is_initial_sync) == Err::<
                        PoolView,
                        PoolSyncError,
                    >(e)
                    &&& final(self)@ == old(self)@
                },
            },
    {
        reveal(pool_event_applied);
        match self {
            Pool::UniswapV3(pool) => process_tick_data(
                pool,
                event,
                PoolType::UniswapV3,
                is_initial_sync,
            ),
            Pool::Agni(pool) => process_tick_data(pool, event, PoolType::Agni, is_initial_sync),
            Pool::MerchantMoe(pool) => process_sync_data(pool, event, PoolType::MerchantMoe),
        }
    }

    /// Tells whether the pool and both of its tokens have an address other
    /// than the zero address.
    pub fn is_valid(&self) -> (r: bool)
        ensures
            r == self@.is_valid(),
    {
        !self.address().is_zero() && !self.token0_address().is_zero()
            && !self.token1_address().is_zero()
    }
}

/// What the synchronisation needs to know about one protocol: where its
/// pools are created, how a creation event names the new pool, and how a
/// bulk-read record of a pool is laid out.
pub trait PoolFetcher {
    /// The pool family that the protocol's pools belong to.
    spec fn described_type(&self) -> PoolType;

    /// The bytes of the address of the protocol's factory on a network.
    spec fn factory_bytes(&self, chain: Chain) -> Seq<u8>;

    /// The signature of the event that the factory emits for a new pool.
    spec fn creation_signature(&self) -> Seq<char>;

    /// Where the new pool's address starts in the data of a creation event.
    spec fn address_offset(&self) -> int;

    /// The types of the fields of a bulk-read record, in order.
    spec fn record_layout(&self) -> Seq<AbiType>;

    /// The pool family that the protocol's pools belong to.
    fn pool_type(&self) -> (r: PoolType)
        ensures
            r == self.described_type(),
    ;

    /// The address of the protocol's factory on the given network.
    fn factory_address(&self, chain: Chain) -> (r: Address)
        ensures
            r@ == self.factory_bytes(chain),
    ;

    /// The signature of the event that the factory emits for a new pool.
    fn pair_created_signature(&self) -> (r: &'static str)
        ensures
            r@ == self.creation_signature(),
    ;

    /// The address of the new pool, from the data of a creation event: the
    /// 20 bytes at the protocol's offset; data that ends before them is
    /// rejected.
    fn log_to_address(&self, data: &[u8]) -> (r: Result<Address, PoolSyncError>)
        ensures
            address_read(data@, self.address_offset(), r),
    ;

    /// The types of the fields of a bulk-read record, in order.
    fn get_pool_repr(&self) -> (r: Vec<AbiType>)
        ensures
            r@ == self.record_layout(),
    ;
}

/// Read access to what every pool records, whatever its family.
pub trait PoolInfo {
    fn address(&self) -> Address;

    fn token0_address(&self) -> Address;

    fn token1_address(&self) -> Address;

    fn token0_name(&self) -> String;

    fn token1_name(&self) -> String;

    fn token0_decimals(&self) -> u8;

    fn token1_decimals(&self) -> u8;

    fn pool_type(&self) -> PoolType;

    fn fee(&self) -> u32;

    fn stable(&self) -> bool;
}

impl PoolInfo for Pool {
    fn address(&self) -> (r: Address)
        ensures
            r == self@.address(),
    {
        match self {
            Pool::UniswapV3(pool) => pool.address,
            Pool::MerchantMoe(pool) => pool.address,
            Pool::Agni(pool) => pool.address,
        }
    }

    fn token0_address(&self) -> (r: Address)
        ensures
            r == self@.token0(),
    {
        match self {
            Pool::UniswapV3(pool) => pool.token0,
            Pool::MerchantMoe(pool) => pool.token0,
            Pool::Agni(pool) => pool.token0,
        }
    }

    fn token1_address(&self) -> (r: Address)
        ensures
            r == self@.token1(),
    {
        match self {
            Pool::UniswapV3(pool) => pool.token1,
            Pool::MerchantMoe(pool) => pool.token1,
            Pool::Agni(pool) => pool.token1,
        }
    }

    fn token0_name(&self) -> (r: String)
        ensures
            r@ == self@.token0_name(),
    {
        match self {
            Pool::UniswapV3(pool) => pool.token0_name.clone(),
            Pool::MerchantMoe(pool) => pool.token0_name.clone(),
            Pool::Agni(pool) => pool.token0_name.clone(),
        }
    }

    fn token1_name(&self) -> (r: String)
        ensures
            r@ == self@.token1_name(),
    {
        match self {
            Pool::UniswapV3(pool) => pool.token1_name.clone(),
            Pool::MerchantMoe(pool) => pool.token1_name.clone(),
            Pool::Agni(pool) => pool.token1_name.clone(),
        }
    }

    fn token0_decimals(&self) -> (r: u8)
        ensures
            r == self@.token0_decimals(),
    {
        match self {
            Pool::UniswapV3(pool) => pool.token0_decimals,
            Pool::MerchantMoe(pool) => pool.token0_decimals,
            Pool::Agni(pool) => pool.token0_decimals,
        }
    }

    fn token1_decimals(&self) -> (r: u8)
        ensures
            r == self@.token1_decimals(),
    {
        match self {
            Pool::UniswapV3(pool) => pool.token1_decimals,
            Pool::MerchantMoe(pool) => pool.token1_decimals,
            Pool::Agni(pool) => pool.token1_decimals,
        }
    }

    fn pool_type(&self) -> (r: PoolType)
        ensures
            r == self@.pool_type(),
    {
        match self {
            Pool::UniswapV3(_) => PoolType::UniswapV3,
            Pool::MerchantMoe(_) => PoolType::MerchantMoe,
            Pool::Agni(_) => PoolType::Agni,
        }
    }

    fn fee(&self) -> (r: u32)
        ensures
            r == self@.fee(),
    {
        match self {
            Pool::UniswapV3(pool) => pool.fee,
            Pool::Agni(pool) => pool.fee,
            Pool::MerchantMoe(_) => 0,
        }
    }

    fn stable(&self) -> (r: bool)
        ensures
            !r,
    {
        false
    }
}

} // verus!
