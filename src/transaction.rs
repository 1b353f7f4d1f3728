//! One directed edge of a cycle: a trade of `source` for `target` on one instrument.
use vstd::arithmetic::div_mod::{lemma_div_is_ordered, lemma_fundamental_div_mod, lemma_mod_pos_bound};
use vstd::arithmetic::mul::lemma_mul_inequality;
use vstd::prelude::*;
use vstd::string::*;

use crate::quantize::{quantize, round_down_to_grid, Grid, SCALE};
use crate::runtime::fresh_uuid;

verus! {

/// The side of the order that realizes a leg.
#[derive(Clone, Copy, Debug, PartialEq, Eq, Structural)]
pub enum Side {
    /// Buys the instrument's base with its quote: `target` is the base.
    Buy,
    /// Sells the instrument's base for its quote: `source` is the base.
    Sell,
}

pub open spec fn side_text(s: Side) -> Seq<char> {
    match s {
        Side::Buy => "BUY"@,
        Side::Sell => "SELL"@,
    }
}

impl Side {
    /// The exchange's name for the side.
    pub fn as_text(&self) -> (r: &'static str)
        ensures
            r@ == side_text(*self),
    {
        match self {
            Side::Buy => "BUY",
            Side::Sell => "SELL",
        }
    }
}

/// A best bid and offer snapshot of one instrument.
#[derive(Clone, Debug)]
pub struct MarketBbo {
    pub instrument_id: String,
    pub ask_price: u64,
    pub ask_qty: u64,
    pub bid_price: u64,
    pub bid_qty: u64,
    pub min_price: u64,
    pub max_price: u64,
    pub min_qty: u64,
    pub max_qty: u64,
    pub step_size: Grid,
    pub tick_size: Grid,
    /// When the exchange produced the snapshot, in milliseconds.
    pub marketdata_timestamp_ms: i64,
    /// When the snapshot was received, in milliseconds.
    pub received_timestamp_ms: i64,
}

/// Why a leg cannot be evaluated on its current snapshot.
#[derive(Clone, Copy, Debug, PartialEq, Eq, Structural)]
pub enum ReadyError {
    InvalidAsk,
    InvalidBid,
    InvalidAskQty,
    InvalidBidQty,
}

/// The description of a leg that the topology emits: which asset is given
/// for which, on what instrument and on which side.
#[derive(Debug)]
pub struct TransactionPlan {
    pub source: String,
    pub target: String,
    pub side: Side,
    pub instrument: String,
    pub exchange_code: String,
}

impl View for TransactionPlan {
    type V = (Seq<char>, Seq<char>, Side, Seq<char>, Seq<char>);

    /// Source, target, side, instrument and exchange code.
    open spec fn view(&self) -> Self::V {
        (self.source@, self.target@, self.side, self.instrument@, self.exchange_code@)
    }
}

/// Fee rate that a new leg starts with: 0.001 of the traded amount.
pub const DEFAULT_FEE_RATE: u64 = 100_000;

/// One leg with the last snapshot it was given.
#[derive(Debug)]
pub struct ArbitrageTransaction {
    pub name: String,
    pub source: String,
    pub target: String,
    pub side: Side,
    pub instrument: String,
    pub exchange_code: String,
    pub ask_price: u64,
    pub bid_price: u64,
    pub min_price: u64,
    pub max_price: u64,
    pub ask_qty: u64,
    pub bid_qty: u64,
    pub min_qty: u64,
    pub max_qty: u64,
    pub step_size: Grid,
    pub tick_size: Grid,
    pub tick_timestamp_ms: i64,
    /// Fee as a fraction of the traded amount, in fixed-point units.
    pub fee_rate: u64,
    pub ready: bool,
}

/// What one evaluation of a leg gives.
#[derive(Debug)]
pub struct ArbitrageTransactionResult {
    pub name: String,
    pub source: String,
    pub target: String,
    pub side: Side,
    pub instrument: String,
    pub exchange_code: String,
    pub qty_in: u64,
    pub qty_to_execute: u64,
    pub qty_out: u64,
    pub price: u64,
    pub fee: u64,
    pub market_qty: u64,
    pub step_size: Grid,
    pub tick_size: Grid,
    pub min_price: u64,
    pub max_price: u64,
    pub min_qty: u64,
    pub max_qty: u64,
    pub tick_timestamp_ms: i64,
    pub uuid: u128,
}

proof fn lemma_product_fits(a: u64, b: u64)
    ensures
        0 <= (a as int) * (b as int) <= u128::MAX,
{
    assert(0 <= (a as int) * (b as int) <= (u64::MAX as int) * (u64::MAX as int)) by (nonlinear_arith)
        requires
            0 <= a <= u64::MAX,
            0 <= b <= u64::MAX,
    ;
}

/// An instrument identifier without its leading `BINANCE_`, when it has one.
pub open spec fn symbol_of(id: Seq<char>) -> Seq<char> {
    if id.len() >= 8 && id.subrange(0, 8) == "BINANCE_"@ {
        id.subrange(8, id.len() as int)
    } else {
        id
    }
}

/// `u` is laid out as a random (version 4, variant 2) identifier.
pub open spec fn is_v4_uuid(u: u128) -> bool {
    (u >> 76u128) & 0xfu128 == 4u128 && (u >> 62u128) & 0x3u128 == 2u128
}

pub open spec fn leg_name(source: Seq<char>, side: Side, target: Seq<char>) -> Seq<char> {
    source + "-("@ + side_text(side) + ")->"@ + target
}

impl ArbitrageTransaction {
    /// The order price: the ask for a purchase, the bid for a sale, on the tick grid.
    pub open spec fn price_spec(&self) -> nat {
        match self.side {
            Side::Buy => quantize(self.ask_price as nat, self.tick_size),
            Side::Sell => quantize(self.bid_price as nat, self.tick_size),
        }
    }

    /// The amount of base before the step grid is applied.
    pub open spec fn raw_qty_spec(&self, qty_in: nat) -> nat {
        match self.side {
            Side::Buy => if self.price_spec() == 0 {
                0
            } else {
                qty_in * (SCALE as nat) / self.price_spec()
            },
            Side::Sell => qty_in,
        }
    }

    /// The amount of base the order trades.
    pub open spec fn qty_to_execute_spec(&self, qty_in: nat) -> nat {
        quantize(self.raw_qty_spec(qty_in), self.step_size)
    }

    /// What the order yields before the fee, in the target asset.
    pub open spec fn gross_spec(&self, qty_in: nat) -> nat {
        match self.side {
            Side::Buy => self.qty_to_execute_spec(qty_in),
            Side::Sell => self.qty_to_execute_spec(qty_in) * self.price_spec() / (SCALE as nat),
        }
    }

    pub open spec fn fee_spec(&self, qty_in: nat) -> nat {
        self.gross_spec(qty_in) * (self.fee_rate as nat) / (SCALE as nat)
    }

    pub open spec fn qty_out_spec(&self, qty_in: nat) -> int {
        self.gross_spec(qty_in) - self.fee_spec(qty_in)
    }

    /// Depth at the top of the book on the side that the order takes.
    pub open spec fn market_qty_spec(&self) -> u64 {
        match self.side {
            Side::Buy => self.ask_qty,
            Side::Sell => self.bid_qty,
        }
    }

    /// The evaluation on `qty_in` is representable: a purchase has a nonzero
    /// price, the amounts fit in 64 bits and the fee does not exceed the gross.
    pub open spec fn evaluable(&self, qty_in: nat) -> bool {
        &&& (self.side == Side::Buy ==> self.price_spec() > 0)
        &&& self.raw_qty_spec(qty_in) <= u64::MAX
        &&& self.gross_spec(qty_in) <= u64::MAX
        &&& self.fee_spec(qty_in) <= self.gross_spec(qty_in)
    }

    pub open spec fn ready_ok_spec(&self) -> bool {
        self.ask_price > 0 && self.bid_price > 0 && self.ask_qty > 0 && self.bid_qty > 0
    }

    /// `self` is `prev` with the market fields of `tick`.
    pub open spec fn updated_from(&self, prev: &ArbitrageTransaction, tick: &MarketBbo) -> bool {
        &&& self.name == prev.name
        &&& self.source == prev.source
        &&& self.target == prev.target
        &&& self.side == prev.side
        &&& self.instrument == prev.instrument
        &&& self.exchange_code == prev.exchange_code
        &&& self.fee_rate == prev.fee_rate
        &&& self.ask_price == tick.ask_price
        &&& self.bid_price == tick.bid_price
        &&& self.min_price == tick.min_price
        &&& self.max_price == tick.max_price
        &&& self.ask_qty == tick.ask_qty
        &&& self.bid_qty == tick.bid_qty
        &&& self.min_qty == tick.min_qty
        &&& self.max_qty == tick.max_qty
        &&& self.step_size == tick.step_size
        &&& self.tick_size == tick.tick_size
        &&& self.tick_timestamp_ms == tick.marketdata_timestamp_ms
        &&& self.ready
    }

    /// `self` is a fresh leg built from `plan`.
    pub open spec fn planned_by(&self, plan: &TransactionPlan) -> bool {
        &&& self.name@ == leg_name(plan.source@, plan.side, plan.target@)
        &&& self.source@ == plan.source@
        &&& self.target@ == plan.target@
        &&& self.side == plan.side
        &&& self.instrument@ == plan.instrument@
        &&& self.exchange_code@ == plan.exchange_code@
        &&& self.fee_rate == DEFAULT_FEE_RATE
        &&& !self.ready
        &&& !self.ready_ok_spec()
    }

    /// A fresh leg built from `plan`.
    pub fn from_plan(plan: &TransactionPlan) -> (r: ArbitrageTransaction)
        ensures
            r.planned_by(plan),
    {
        ArbitrageTransaction::new(
            plan.source.clone(),
            plan.target.clone(),
            plan.side,
            plan.instrument.clone(),
            plan.exchange_code.clone(),
        )
    }

    /// A leg with no snapshot yet and the default fee.
    pub fn new(
        source: String,
        target: String,
        side: Side,
        instrument: String,
        exchange_code: String,
    ) -> (r: ArbitrageTransaction)
        ensures
            r.name@ == leg_name(source@, side, target@),
            r.source@ == source@,
            r.target@ == target@,
            r.side == side,
            r.instrument@ == instrument@,
            r.exchange_code@ == exchange_code@,
            r.ask_price == 0 && r.bid_price == 0 && r.ask_qty == 0 && r.bid_qty == 0,
            r.min_price == 0 && r.max_price == 0 && r.min_qty == 0 && r.max_qty == 0,
            r.step_size == Grid::Unset && r.tick_size == Grid::Unset,
            r.tick_timestamp_ms == 0,
            r.fee_rate == DEFAULT_FEE_RATE,
            !r.ready,
    {
        let mut name = source.clone();
        name.append("-(");
        name.append(side.as_text());
        name.append(")->");
        name.append(target.as_str());
        ArbitrageTransaction {
            name,
            source,
            target,
            side,
            instrument,
            exchange_code,
            ask_price: 0,
            bid_price: 0,
            min_price: 0,
            max_price: 0,
            ask_qty: 0,
            bid_qty: 0,
            min_qty: 0,
            max_qty: 0,
            step_size: Grid::Unset,
            tick_size: Grid::Unset,
            tick_timestamp_ms: 0,
            fee_rate: DEFAULT_FEE_RATE,
            ready: false,
        }
    }

    /// Sets the fee, as a fraction of the traded amount in fixed-point units.
    pub fn set_fee_rate(&mut self, rate: u64)
        ensures
            *final(self) == (ArbitrageTransaction { fee_rate: rate, ..*old(self) }),
    {
        self.fee_rate = rate;
    }

    /// Takes the market fields of `tick` and marks the leg ready. Nothing is checked.
    pub fn update(&mut self, tick: &MarketBbo)
        ensures
            final(self).updated_from(old(self), tick),
    {
        self.ask_price = tick.ask_price;
        self.bid_price = tick.bid_price;
        self.min_price = tick.min_price;
        self.max_price = tick.max_price;
        self.ask_qty = tick.ask_qty;
        self.bid_qty = tick.bid_qty;
        self.min_qty = tick.min_qty;
        self.max_qty = tick.max_qty;
        self.step_size = tick.step_size;
        self.tick_size = tick.tick_size;
        self.tick_timestamp_ms = tick.marketdata_timestamp_ms;
        self.ready = true;
    }

    /// Succeeds when the ask, the bid and both depths are positive; otherwise
    /// names the first of them, in that order, that is zero.
    pub fn is_valid(&self) -> (r: Result<bool, ReadyError>)
        ensures
            r is Ok <==> self.ready_ok_spec(),
            r is Ok ==> r == Ok::<bool, ReadyError>(true),
            r == Err::<bool, ReadyError>(ReadyError::InvalidAsk) <==> self.ask_price == 0,
            r == Err::<bool, ReadyError>(ReadyError::InvalidBid) <==> (self.ask_price > 0
                && self.bid_price == 0),
            r == Err::<bool, ReadyError>(ReadyError::InvalidAskQty) <==> (self.ask_price > 0
                && self.bid_price > 0 && self.ask_qty == 0),
            r == Err::<bool, ReadyError>(ReadyError::InvalidBidQty) <==> (self.ask_price > 0
                && self.bid_price > 0 && self.ask_qty > 0 && self.bid_qty == 0),
    {
        if self.ask_price == 0 {
            Err(ReadyError::InvalidAsk)
        } else if self.bid_price == 0 {
            Err(ReadyError::InvalidBid)
        } else if self.ask_qty == 0 {
            Err(ReadyError::InvalidAskQty)
        } else if self.bid_qty == 0 {
            Err(ReadyError::InvalidBidQty)
        } else {
            Ok(true)
        }
    }

    /// Converts `qty_in` of the source asset through the leg at the current
    /// snapshot. `None` when the result is not representable (see `evaluable`).
    /// Each result carries a fresh identifier.
    pub fn execute(&self, qty_in: u64) -> (r: Option<ArbitrageTransactionResult>)
        ensures
            r is Some <==> self.evaluable(qty_in as nat),
            r matches Some(res) ==> res.describes(self, qty_in as nat) && is_v4_uuid(res.uuid),
    {
        let price: u64;
        let qty_to_execute: u64;
        let gross: u64;
        let market_qty: u64;
        match self.side {
            Side::Buy => {
                price = round_down_to_grid(self.ask_price, self.tick_size);
                if price == 0 {
                    return None;
                }
                proof {
                    lemma_product_fits(qty_in, SCALE);
                }
                let raw: u128 = (qty_in as u128) * (SCALE as u128) / (price as u128);
                if raw > u64::MAX as u128 {
                    return None;
                }
                qty_to_execute = round_down_to_grid(raw as u64, self.step_size);
                gross = qty_to_execute;
                market_qty = self.ask_qty;
            },
            Side::Sell => {
                qty_to_execute = round_down_to_grid(qty_in, self.step_size);
                price = round_down_to_grid(self.bid_price, self.tick_size);
                proof {
                    lemma_product_fits(qty_to_execute, price);
                }
                let g: u128 = (qty_to_execute as u128) * (price as u128) / (SCALE as u128);
                if g > u64::MAX as u128 {
                    return None;
                }
                gross = g as u64;
                market_qty = self.bid_qty;
            },
        }
        proof {
            lemma_product_fits(gross, self.fee_rate);
        }
        let fee_wide: u128 = (gross as u128) * (self.fee_rate as u128) / (SCALE as u128);
        if fee_wide > gross as u128 {
            return None;
        }
        let fee = fee_wide as u64;
        Some(ArbitrageTransactionResult {
            name: self.name.clone(),
            source: self.source.clone(),
            target: self.target.clone(),
            side: self.side,
            instrument: self.instrument.clone(),
            exchange_code: self.exchange_code.clone(),
            qty_in,
            qty_to_execute,
            qty_out: gross - fee,
            price,
            fee,
            market_qty,
            step_size: self.step_size,
            tick_size: self.tick_size,
            min_price: self.min_price,
            max_price: self.max_price,
            min_qty: self.min_qty,
            max_qty: self.max_qty,
            tick_timestamp_ms: self.tick_timestamp_ms,
            uuid: fresh_uuid(),
        })
    }

    pub fn get_instrument(&self) -> (r: &String)
        ensures
            r == &self.instrument,
    {
        &self.instrument
    }

    pub fn get_exchange_code(&self) -> (r: &String)
        ensures
            r == &self.exchange_code,
    {
        &self.exchange_code
    }

    pub fn get_name(&self) -> (r: &String)
        ensures
            r == &self.name,
    {
        &self.name
    }

    pub fn get_source(&self) -> (r: &String)
        ensures
            r == &self.source,
    {
        &self.source
    }
}

impl ArbitrageTransactionResult {
    /// Every field but `uuid` is what evaluating `leg` on `qty_in` gives.
    pub open spec fn describes(&self, leg: &ArbitrageTransaction, qty_in: nat) -> bool {
        &&& self.name@ == leg.name@
        &&& self.source@ == leg.source@
        &&& self.target@ == leg.target@
        &&& self.side == leg.side
        &&& self.instrument@ == leg.instrument@
        &&& self.exchange_code@ == leg.exchange_code@
        &&& self.qty_in == qty_in
        &&& self.qty_to_execute == leg.qty_to_execute_spec(qty_in)
        &&& self.qty_out == leg.qty_out_spec(qty_in)
        &&& self.price == leg.price_spec()
        &&& self.fee == leg.fee_spec(qty_in)
        &&& self.market_qty == leg.market_qty_spec()
        &&& self.step_size == leg.step_size
        &&& self.tick_size == leg.tick_size
        &&& self.min_price == leg.min_price
        &&& self.max_price == leg.max_price
        &&& self.min_qty == leg.min_qty
        &&& self.max_qty == leg.max_qty
        &&& self.tick_timestamp_ms == leg.tick_timestamp_ms
    }

    /// The two results agree on every field but `uuid`.
    pub open spec fn same_but_uuid(&self, other: &ArbitrageTransactionResult) -> bool {
        &&& self.name@ == other.name@
        &&& self.source@ == other.source@
        &&& self.target@ == other.target@
        &&& self.side == other.side
        &&& self.instrument@ == other.instrument@
        &&& self.exchange_code@ == other.exchange_code@
        &&& self.qty_in == other.qty_in
        &&& self.qty_to_execute == other.qty_to_execute
        &&& self.qty_out == other.qty_out
        &&& self.price == other.price
        &&& self.fee == other.fee
        &&& self.market_qty == other.market_qty
        &&& self.step_size == other.step_size
        &&& self.tick_size == other.tick_size
        &&& self.min_price == other.min_price
        &&& self.max_price == other.max_price
        &&& self.min_qty == other.min_qty
        &&& self.max_qty == other.max_qty
        &&& self.tick_timestamp_ms == other.tick_timestamp_ms
    }

    pub fn get_qty_in(&self) -> (r: u64)
        ensures
            r == self.qty_in,
    {
        self.qty_in
    }

    pub fn get_qty_out(&self) -> (r: u64)
        ensures
            r == self.qty_out,
    {
        self.qty_out
    }

    pub fn get_tick_timestamp(&self) -> (r: i64)
        ensures
            r == self.tick_timestamp_ms,
    {
        self.tick_timestamp_ms
    }

    pub fn get_operation(&self) -> (r: Side)
        ensures
            r == self.side,
    {
        self.side
    }

    /// The instrument identifier without its leading `BINANCE_`.
    pub fn get_instrument_symbol(&self) -> (r: String)
        ensures
            r@ == symbol_of(self.instrument@),
    {
        let prefix = "BINANCE_";
        proof {
            reveal_strlit("BINANCE_");
        }
        let id = self.instrument.as_str();
        let n = id.unicode_len();
        if n >= 8 {
            let mut i: usize = 0;
            while i < 8
                invariant
                    i <= 8,
                    n == id@.len(),
                    n >= 8,
                    id@ == self.instrument@,
                    prefix@ == "BINANCE_"@,
                    prefix@.len() == 8,
                    forall|j: int| 0 <= j < i ==> id@[j] == prefix@[j],
                decreases 8 - i,
            {
                if id.get_char(i) != prefix.get_char(i) {
                    assert(id@.subrange(0, 8)[i as int] != prefix@[i as int]);
                    return self.instrument.clone();
                }
                i = i + 1;
            }
            assert(id@.subrange(0, 8) =~= "BINANCE_"@);
            return String::from_str(id.substring_char(8, n));
        }
        self.instrument.clone()
    }

    pub fn get_price(&self) -> (r: u64)
        ensures
            r == self.price,
    {
        self.price
    }

    pub fn get_exchange_code(&self) -> (r: &String)
        ensures
            r == &self.exchange_code,
    {
        &self.exchange_code
    }

    pub fn get_qty_to_execute(&self) -> (r: u64)
        ensures
            r == self.qty_to_execute,
    {
        self.qty_to_execute
    }

    pub fn get_market_qty(&self) -> (r: u64)
        ensures
            r == self.market_qty,
    {
        self.market_qty
    }

    pub fn get_source(&self) -> (r: &String)
        ensures
            r == &self.source,
    {
        &self.source
    }

    pub fn get_target(&self) -> (r: &String)
        ensures
            r == &self.target,
    {
        &self.target
    }

    pub fn get_uuid(&self) -> (r: u128)
        ensures
            r == self.uuid,
    {
        self.uuid
    }

    pub open spec fn valid_ordering_spec(&self) -> bool {
        self.qty_to_execute <= self.market_qty && self.min_qty <= self.qty_to_execute
            && self.qty_to_execute <= self.max_qty
    }

    /// The order fits the top-of-book depth and the instrument's size bounds.
    pub fn is_valid_ordering(&self) -> (r: bool)
        ensures
            r == self.valid_ordering_spec(),
    {
        self.qty_to_execute <= self.market_qty && self.min_qty <= self.qty_to_execute
            && self.qty_to_execute <= self.max_qty
    }
}

/// Two evaluations of one leg on one amount agree on everything but the identifier.
pub proof fn lemma_evaluation_deterministic(leg: ArbitrageTransaction, qty_in: nat, a: ArbitrageTransactionResult, b: ArbitrageTransactionResult)
    requires
        a.describes(&leg, qty_in),
        b.describes(&leg, qty_in),
    ensures
        a.same_but_uuid(&b),
{
}

/// Without fee and without grids a leg conserves value, whatever the
/// amounts: the price is the ask (purchase) or the bid (sale) and the fee is
/// zero; a purchase spends `qty_out * price` of the source, short of `qty_in`
/// by less than one price step of the fixed-point units; a sale trades all
/// of `qty_in` and yields `qty_in * price`, rounded down.
pub proof fn lemma_fee_free_conservation(leg: ArbitrageTransaction, qty_in: nat)
    requires
        leg.fee_rate == 0,
        leg.step_size == Grid::Unset,
        leg.tick_size == Grid::Unset,
        leg.side == Side::Buy ==> leg.ask_price > 0,
    ensures
        leg.fee_spec(qty_in) == 0,
        leg.side == Side::Buy ==> leg.price_spec() == leg.ask_price,
        leg.side == Side::Sell ==> leg.price_spec() == leg.bid_price && leg.qty_to_execute_spec(qty_in)
            == qty_in,
        leg.side == Side::Buy ==> leg.qty_out_spec(qty_in) * leg.price_spec() <= qty_in * SCALE
            < (leg.qty_out_spec(qty_in) + 1) * leg.price_spec(),
        leg.side == Side::Sell ==> leg.qty_out_spec(qty_in) == (qty_in * leg.price_spec()) as int / (
        SCALE as int),
{
    assert forall|x: nat| #[trigger] quantize(x, Grid::Unset) == x by {
        assert((x as int) % 1 == 0);
    }
    let p = leg.price_spec() as int;
    let o = leg.qty_out_spec(qty_in);
    assert(leg.gross_spec(qty_in) * 0 == 0);
    if leg.side == Side::Buy {
        assert(p > 0);
        let n = qty_in * (SCALE as int);
        lemma_fundamental_div_mod(n, p);
        lemma_mod_pos_bound(n, p);
        assert(o == n / p);
        assert(o * p <= n < (o + 1) * p) by (nonlinear_arith)
            requires
                n == p * (n / p) + n % p,
                0 <= n % p < p,
                o == n / p,
        ;
    }
}

} // verus!
