//! The detector: the topology it owns, and what one worker decides on each
//! snapshot it receives.
use vstd::prelude::*;

use crate::arbitrage::{chain_in, chain_ok, final_qty, out_of, refreshed, walk_results, Arbitrage, ArbitrageProfit};
use crate::text::{push_text_new, texts};
use crate::topology::{build_topology, is_topology};
use crate::transaction::{ArbitrageTransaction, MarketBbo, TransactionPlan};

verus! {

/// How the ordering stage places the three orders of a profit.
#[derive(Clone, Copy, Debug, PartialEq, Eq, Structural)]
pub enum ExecutionMode {
    Parallel,
    Sequential,
}

/// `id` is the instrument of some leg of some cycle of `cycles`.
pub open spec fn traded_in(cycles: Seq<Vec<TransactionPlan>>, id: Seq<char>) -> bool {
    exists|i: int, j: int|
        0 <= i < cycles.len() && 0 <= j < cycles[i]@.len() && #[trigger] cycles[i]@[j].instrument@ == id
}

/// The detector's configuration and the cycles it watches.
#[derive(Debug)]
pub struct ArbitrageExecutor {
    /// Amount of the start asset that each walk starts with.
    pub qty_in: u64,
    pub profit_threshold: u64,
    pub exchange: String,
    pub start_asset: String,
    pub transactions_list: Vec<Vec<TransactionPlan>>,
    pub symbol_list: Vec<String>,
    /// Whether profits go on to the ordering stage.
    pub ordering: bool,
}

impl ArbitrageExecutor {
    /// A detector with no cycles yet.
    pub fn new(
        exchange: String,
        start_asset: String,
        symbol_list: &Vec<String>,
        qty_in: u64,
        profit_threshold: u64,
        ordering: bool,
    ) -> (r: ArbitrageExecutor)
        ensures
            r.exchange@ == exchange@,
            r.start_asset@ == start_asset@,
            texts(r.symbol_list@) == texts(symbol_list@),
            r.qty_in == qty_in,
            r.profit_threshold == profit_threshold,
            r.ordering == ordering,
            r.transactions_list@.len() == 0,
    {
        let mut symbols: Vec<String> = Vec::new();
        let mut i: usize = 0;
        while i < symbol_list.len()
            invariant
                i <= symbol_list@.len(),
                texts(symbols@) == texts(symbol_list@.subrange(0, i as int)),
            decreases symbol_list@.len() - i,
        {
            symbols.push(symbol_list[i].clone());
            assert(texts(symbol_list@.subrange(0, i + 1)) =~= texts(symbol_list@.subrange(0, i as int)).push(symbol_list@[i as int]@));
            assert(texts(symbols@) =~= texts(symbol_list@.subrange(0, i as int)).push(symbol_list@[i as int]@));
            i = i + 1;
        }
        assert(symbol_list@.subrange(0, symbol_list@.len() as int) =~= symbol_list@);
        ArbitrageExecutor {
            qty_in,
            profit_threshold,
            exchange,
            start_asset,
            transactions_list: Vec::new(),
            symbol_list: symbols,
            ordering,
        }
    }

    /// Builds the cycles of the symbol list from the start asset, with the
    /// instruments that the persistence layer lists (`listed`) and the
    /// reference catalog holds (`catalog`).
    pub fn initialize(&mut self, listed: &Vec<String>, catalog: &Vec<String>)
        ensures
            is_topology(
                final(self).transactions_list@,
                old(self).exchange@,
                old(self).start_asset@,
                texts(old(self).symbol_list@),
                texts(listed@),
                texts(catalog@),
            ),
            final(self).exchange == old(self).exchange,
            final(self).start_asset == old(self).start_asset,
            final(self).symbol_list == old(self).symbol_list,
            final(self).qty_in == old(self).qty_in,
            final(self).profit_threshold == old(self).profit_threshold,
            final(self).ordering == old(self).ordering,
    {
        self.transactions_list = build_topology(
            &self.exchange,
            &self.start_asset,
            &self.symbol_list,
            listed,
            catalog,
        );
    }

    /// The instruments that the cycles trade, each once, in the order first met.
    pub fn get_instruments(&self) -> (r: Vec<String>)
        ensures
            texts(r@).no_duplicates(),
            forall|id: Seq<char>| #[trigger] texts(r@).contains(id) <==> traded_in(self.transactions_list@, id),
    {
        let ghost cycles = self.transactions_list@;
        let mut r: Vec<String> = Vec::new();
        let mut i: usize = 0;
        while i < self.transactions_list.len()
            invariant
                i <= cycles.len(),
                cycles == self.transactions_list@,
                texts(r@).no_duplicates(),
                forall|id: Seq<char>| #[trigger] texts(r@).contains(id) ==> traded_in(cycles, id),
                forall|a: int, b: int| 0 <= a < i && 0 <= b < cycles[a]@.len() ==> texts(r@).contains(#[trigger] cycles[a]@[b].instrument@),
            decreases cycles.len() - i,
        {
            let plans = &self.transactions_list[i];
            let mut j: usize = 0;
            while j < plans.len()
                invariant
                    i < cycles.len(),
                    j <= plans@.len(),
                    *plans == cycles[i as int],
                    cycles == self.transactions_list@,
                    texts(r@).no_duplicates(),
                    forall|id: Seq<char>| #[trigger] texts(r@).contains(id) ==> traded_in(cycles, id),
                    forall|a: int, b: int| 0 <= a < i && 0 <= b < cycles[a]@.len() ==> texts(r@).contains(#[trigger] cycles[a]@[b].instrument@),
                    forall|b: int| 0 <= b < j ==> texts(r@).contains(#[trigger] cycles[i as int]@[b].instrument@),
                decreases plans@.len() - j,
            {
                let ghost before = texts(r@);
                let ghost id = plans@[j as int].instrument@;
                push_text_new(&mut r, &plans[j].instrument);
                proof {
                    assert(traded_in(cycles, id)) by {
                        assert(cycles[i as int]@[j as int].instrument@ == id);
                    }
                    if !before.contains(id) {
                        assert(texts(r@) == before.push(id));
                        assert forall|x: Seq<char>| #[trigger] texts(r@).contains(x) implies before.contains(x) || x == id by {
                            let k = choose|k: int| 0 <= k < texts(r@).len() && texts(r@)[k] == x;
                            if k < before.len() {
                                assert(before[k] == x);
                            }
                        }
                        assert forall|x: Seq<char>| before.contains(x) implies #[trigger] texts(r@).contains(x) by {
                            let k = choose|k: int| 0 <= k < before.len() && before[k] == x;
                            assert(texts(r@)[k] == x);
                        }
                        assert(texts(r@)[before.len() as int] == id);
                    }
                }
                j = j + 1;
            }
            i = i + 1;
        }
        proof {
            assert forall|id: Seq<char>| traded_in(cycles, id) implies #[trigger] texts(r@).contains(id) by {
                let (a, b) = choose|a: int, b: int|
                    0 <= a < cycles.len() && 0 <= b < cycles[a]@.len() && #[trigger] cycles[a]@[b].instrument@ == id;
                assert(texts(r@).contains(cycles[a]@[b].instrument@));
            }
        }
        r
    }

    /// The workers of the detector, one for each cycle.
    pub fn workers(&self) -> (r: Vec<ArbitrageWorker>)
        requires
            forall|i: int| 0 <= i < self.transactions_list@.len() ==> (#[trigger] self.transactions_list@[i])@.len() == 3,
        ensures
            r@.len() == self.transactions_list@.len(),
            forall|i: int| 0 <= i < r@.len() ==> (#[trigger] r@[i]).fresh_for(&self.transactions_list@[i], self.qty_in, self.ordering),
    {
        let mut r: Vec<ArbitrageWorker> = Vec::new();
        let mut i: usize = 0;
        while i < self.transactions_list.len()
            invariant
                i <= self.transactions_list@.len(),
                r@.len() == i,
                forall|j: int| 0 <= j < self.transactions_list@.len() ==> (#[trigger] self.transactions_list@[j])@.len() == 3,
                forall|j: int| 0 <= j < i ==> (#[trigger] r@[j]).fresh_for(&self.transactions_list@[j], self.qty_in, self.ordering),
            decreases self.transactions_list@.len() - i,
        {
            r.push(ArbitrageWorker::new(&self.transactions_list[i], self.qty_in, self.ordering));
            i = i + 1;
        }
        r
    }
}

/// The orders of a walk fit their depths and size bounds.
pub open spec fn walk_valid(legs: Seq<ArbitrageTransaction>, q: nat) -> bool {
    forall|i: int|
        0 <= i < 3 ==> {
            let e = #[trigger] legs[i].qty_to_execute_spec(chain_in(legs, q, i));
            e <= legs[i].market_qty_spec() && legs[i].min_qty <= e && e <= legs[i].max_qty
        }
}

/// What a walk that starts with `q` returns, less `q`.
pub open spec fn walk_profit(legs: Seq<ArbitrageTransaction>, q: nat) -> int {
    out_of(legs[2], chain_in(legs, q, 2)) - q
}

/// One cycle's detection loop state: the cycle and what it starts each walk with.
#[derive(Debug)]
pub struct ArbitrageWorker {
    pub arbitrage: Arbitrage,
    pub qty_in: u64,
    pub ordering: bool,
}

impl ArbitrageWorker {
    pub open spec fn fresh_for(&self, plans: &Vec<TransactionPlan>, qty_in: u64, ordering: bool) -> bool {
        &&& self.arbitrage.wf()
        &&& forall|i: int| 0 <= i < 3 ==> #[trigger] self.arbitrage.transaction_list@[i].planned_by(&plans@[i])
        &&& self.qty_in == qty_in
        &&& self.ordering == ordering
    }

    pub fn new(plans: &Vec<TransactionPlan>, qty_in: u64, ordering: bool) -> (r: ArbitrageWorker)
        requires
            plans@.len() == 3,
        ensures
            r.fresh_for(plans, qty_in, ordering),
    {
        ArbitrageWorker { arbitrage: Arbitrage::from_transaction_list(plans), qty_in, ordering }
    }

    /// Handles one snapshot. A snapshot of an instrument that the cycle does
    /// not trade changes nothing and gives nothing. Otherwise the cycle is
    /// walked with rescaling, and the profit is handed on when it is positive
    /// and, where the ordering stage is on, every order is valid.
    pub fn on_tick(&mut self, tick: &MarketBbo) -> (r: Option<ArbitrageProfit>)
        requires
            old(self).arbitrage.wf(),
        ensures
            final(self).arbitrage.wf(),
            final(self).qty_in == old(self).qty_in,
            final(self).ordering == old(self).ordering,
            final(self).arbitrage.name == old(self).arbitrage.name,
            final(self).arbitrage.instrument_list == old(self).arbitrage.instrument_list,
            !old(self).arbitrage.routes_spec(tick.instrument_id@) ==> r is None && final(self).arbitrage
                == old(self).arbitrage,
            old(self).arbitrage.routes_spec(tick.instrument_id@) ==> {
                let legs = final(self).arbitrage.transaction_list@;
                let q = final_qty(legs, old(self).qty_in as nat, true);
                &&& forall|i: int| 0 <= i < 3 ==> #[trigger] refreshed(old(self).arbitrage.transaction_list@[i], legs[i], tick)
                &&& r is Some <==> (chain_ok(legs, old(self).qty_in as nat)
                    && walk_profit(legs, q) > 0 && (old(self).ordering ==> walk_valid(legs, q)))
                &&& r matches Some(p) ==> p.wf() && walk_results(p.transaction_result_list@, legs, q)
                    && p.tick_timestamp_ms == tick.marketdata_timestamp_ms
            },
    {
        if !self.arbitrage.routes(tick) {
            return None;
        }
        let found = self.arbitrage.execute(tick, self.qty_in, true);
        let ghost legs = self.arbitrage.transaction_list@;
        let ghost q = final_qty(legs, self.qty_in as nat, true);
        match found {
            Some(p) => {
                proof {
                    assert(p.transaction_result_list@[0].describes(&legs[0], chain_in(legs, q, 0)));
                    assert(p.transaction_result_list@[1].describes(&legs[1], chain_in(legs, q, 1)));
                    assert(p.transaction_result_list@[2].describes(&legs[2], chain_in(legs, q, 2)));
                    assert(p.profit_spec() == walk_profit(legs, q));
                    let rs = p.transaction_result_list@;
                    if p.valid_ordering_spec() {
                        assert(rs[0].valid_ordering_spec() && rs[1].valid_ordering_spec() && rs[2].valid_ordering_spec());
                        assert(walk_valid(legs, q));
                    }
                    if walk_valid(legs, q) {
                        assert(legs[0].qty_to_execute_spec(chain_in(legs, q, 0)) == rs[0].qty_to_execute);
                        assert(legs[1].qty_to_execute_spec(chain_in(legs, q, 1)) == rs[1].qty_to_execute);
                        assert(legs[2].qty_to_execute_spec(chain_in(legs, q, 2)) == rs[2].qty_to_execute);
                        assert(forall|i: int| 0 <= i < rs.len() ==> #[trigger] rs[i].valid_ordering_spec());
                    }
                }
                if p.get_profit() > 0 && (!self.ordering || p.is_valid_ordering()) {
                    Some(p)
                } else {
                    None
                }
            },
            None => None,
        }
    }
}

} // verus!
