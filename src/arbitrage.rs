//! A cycle of three legs that starts and ends in one asset, and the profit
//! that walking it at the current top of book would give.
use vstd::arithmetic::div_mod::{lemma_div_is_ordered, lemma_div_multiples_vanish, lemma_fundamental_div_mod, lemma_mod_pos_bound};
use vstd::arithmetic::mul::lemma_mul_inequality;
use vstd::prelude::*;
use vstd::string::*;

use crate::runtime::{fresh_uuid, now_millis};
use crate::text::{contains_text, push_new, push_text_new, texts};
use crate::transaction::{
    Side,
    is_v4_uuid, ArbitrageTransaction, ArbitrageTransactionResult, MarketBbo, TransactionPlan,
};

verus! {

/// A profitable-or-not walk of a cycle, with the three leg results.
#[derive(Debug)]
pub struct ArbitrageProfit {
    pub name: String,
    pub tick_timestamp_ms: i64,
    pub tick_received_timestamp_ms: i64,
    pub transaction_result_list: Vec<ArbitrageTransactionResult>,
    /// Wall clock when the profit was built, in milliseconds.
    pub create_at_ms: i64,
    pub uuid: u128,
}

impl ArbitrageProfit {
    pub open spec fn wf(&self) -> bool {
        self.transaction_result_list@.len() == 3
    }

    /// What the walk returns minus what it put in, in the start asset.
    pub open spec fn profit_spec(&self) -> int {
        self.transaction_result_list@[2].qty_out - self.transaction_result_list@[0].qty_in
    }

    pub open spec fn valid_ordering_spec(&self) -> bool {
        forall|i: int|
            0 <= i < self.transaction_result_list@.len()
                ==> #[trigger] self.transaction_result_list@[i].valid_ordering_spec()
    }

    /// The assets that the legs touch, each once, in the order first met
    /// (source before target, leg by leg) over the first `n` results.
    pub open spec fn assets_upto(&self, n: nat) -> Seq<Seq<char>>
        decreases n,
    {
        if n == 0 {
            Seq::empty()
        } else {
            let r = self.transaction_result_list@[n - 1];
            push_new(push_new(self.assets_upto((n - 1) as nat), r.source@), r.target@)
        }
    }

    pub fn get_profit(&self) -> (r: i128)
        requires
            self.wf(),
        ensures
            r == self.profit_spec(),
    {
        self.transaction_result_list[2].qty_out as i128 - self.transaction_result_list[0].qty_in as i128
    }

    /// How far apart the first and the last leg's snapshots are, in milliseconds.
    pub fn get_distance(&self) -> (r: i128)
        requires
            self.wf(),
        ensures
            r == self.transaction_result_list@[2].tick_timestamp_ms
                - self.transaction_result_list@[0].tick_timestamp_ms,
    {
        self.transaction_result_list[2].tick_timestamp_ms as i128
            - self.transaction_result_list[0].tick_timestamp_ms as i128
    }

    pub fn get_timestamp(&self) -> (r: i64)
        ensures
            r == self.tick_timestamp_ms,
    {
        self.tick_timestamp_ms
    }

    pub fn get_name(&self) -> (r: &String)
        ensures
            r == &self.name,
    {
        &self.name
    }

    pub fn get_qty_in(&self) -> (r: u64)
        requires
            self.wf(),
        ensures
            r == self.transaction_result_list@[0].qty_in,
    {
        self.transaction_result_list[0].qty_in
    }

    pub fn get_qty_out(&self) -> (r: u64)
        requires
            self.wf(),
        ensures
            r == self.transaction_result_list@[2].qty_out,
    {
        self.transaction_result_list[2].qty_out
    }

    pub fn get_transaction_result_list(&self) -> (r: &Vec<ArbitrageTransactionResult>)
        ensures
            r == &self.transaction_result_list,
    {
        &self.transaction_result_list
    }

    /// The assets that the legs touch, each once, in the order first met.
    pub fn get_asset_list(&self) -> (r: Vec<String>)
        ensures
            texts(r@) == self.assets_upto(self.transaction_result_list@.len()),
    {
        let mut r: Vec<String> = Vec::new();
        let mut i: usize = 0;
        while i < self.transaction_result_list.len()
            invariant
                i <= self.transaction_result_list@.len(),
                texts(r@) == self.assets_upto(i as nat),
            decreases self.transaction_result_list@.len() - i,
        {
            let t = &self.transaction_result_list[i];
            push_text_new(&mut r, &t.source);
            push_text_new(&mut r, &t.target);
            i = i + 1;
        }
        r
    }

    /// Milliseconds from the snapshot's arrival to the profit's creation.
    pub fn get_latency_ms(&self) -> (r: i128)
        ensures
            r == self.create_at_ms - self.tick_received_timestamp_ms,
    {
        self.create_at_ms as i128 - self.tick_received_timestamp_ms as i128
    }

    pub fn get_uuid(&self) -> (r: u128)
        ensures
            r == self.uuid,
    {
        self.uuid
    }

    /// Every leg's order fits its depth and its size bounds.
    pub fn is_valid_ordering(&self) -> (r: bool)
        ensures
            r == self.valid_ordering_spec(),
    {
        let mut i: usize = 0;
        while i < self.transaction_result_list.len()
            invariant
                i <= self.transaction_result_list@.len(),
                forall|j: int| 0 <= j < i ==> #[trigger] self.transaction_result_list@[j].valid_ordering_spec(),
            decreases self.transaction_result_list@.len() - i,
        {
            if !self.transaction_result_list[i].is_valid_ordering() {
                return false;
            }
            i = i + 1;
        }
        true
    }
}

/// The leg can be evaluated on `q`: its snapshot is valid and the result representable.
pub open spec fn usable(leg: ArbitrageTransaction, q: nat) -> bool {
    leg.ready_ok_spec() && leg.evaluable(q)
}

/// What a leg hands to the next one.
pub open spec fn out_of(leg: ArbitrageTransaction, q: nat) -> nat {
    leg.qty_out_spec(q) as nat
}

/// The amount that leg `i` of the walk receives when the first leg gets `q`.
pub open spec fn chain_in(legs: Seq<ArbitrageTransaction>, q: nat, i: int) -> nat {
    if i <= 0 {
        q
    } else if i == 1 {
        out_of(legs[0], q)
    } else {
        out_of(legs[1], out_of(legs[0], q))
    }
}

/// Each of the three legs, fed by the one before, gives a result.
pub open spec fn chain_ok(legs: Seq<ArbitrageTransaction>, q: nat) -> bool {
    forall|i: int| 0 <= i < 3 ==> #[trigger] usable(legs[i], chain_in(legs, q, i))
}

/// The results describe the walk of `legs` on `q`.
pub open spec fn walk_results(
    results: Seq<ArbitrageTransactionResult>,
    legs: Seq<ArbitrageTransaction>,
    q: nat,
) -> bool {
    &&& results.len() == 3
    &&& forall|i: int| 0 <= i < 3 ==> #[trigger] results[i].describes(&legs[i], chain_in(legs, q, i))
}

/// Leg `i` would trade more than the depth at the top of the book.
pub open spec fn exceeds(legs: Seq<ArbitrageTransaction>, q: nat, i: int) -> bool {
    legs[i].qty_to_execute_spec(chain_in(legs, q, i)) > legs[i].market_qty_spec()
}

pub open spec fn needs_rescale(legs: Seq<ArbitrageTransaction>, q: nat) -> bool {
    exists|i: int| 0 <= i < 3 && #[trigger] exceeds(legs, q, i)
}

/// `q` divided by leg `i`'s ratio of traded amount to depth, rounded down,
/// when that ratio exceeds one; `q` otherwise.
pub open spec fn cap(legs: Seq<ArbitrageTransaction>, q: nat, i: int) -> nat {
    if exceeds(legs, q, i) {
        q * (legs[i].market_qty_spec() as nat) / legs[i].qty_to_execute_spec(chain_in(legs, q, i))
    } else {
        q
    }
}

/// `q` divided by the largest ratio of traded amount to depth, rounded down.
pub open spec fn rescaled(legs: Seq<ArbitrageTransaction>, q: nat) -> nat {
    let a = cap(legs, q, 0);
    let b = cap(legs, q, 1);
    let c = cap(legs, q, 2);
    let ab = if a <= b { a } else { b };
    if ab <= c { ab } else { c }
}

/// The amount that the reported walk starts with.
pub open spec fn final_qty(legs: Seq<ArbitrageTransaction>, q: nat, scale: bool) -> nat {
    if scale && chain_ok(legs, q) && needs_rescale(legs, q) {
        rescaled(legs, q)
    } else {
        q
    }
}

/// `new` is `prev` after seeing `tick`.
pub open spec fn refreshed(prev: ArbitrageTransaction, new: ArbitrageTransaction, tick: &MarketBbo) -> bool {
    if prev.instrument@ == tick.instrument_id@ {
        new.updated_from(&prev, tick)
    } else {
        new == prev
    }
}

/// The distinct instruments of three legs, in the order first met.
pub open spec fn distinct_instruments(legs: Seq<ArbitrageTransaction>) -> Seq<Seq<char>> {
    push_new(push_new(seq![legs[0].instrument@], legs[1].instrument@), legs[2].instrument@)
}

pub open spec fn cycle_name(legs: Seq<ArbitrageTransaction>) -> Seq<char> {
    legs[0].name@ + ":"@ + legs[1].name@ + ":"@ + legs[2].name@
}

/// A cycle of three legs with the last snapshot each has seen.
#[derive(Debug)]
pub struct Arbitrage {
    pub name: String,
    pub transaction_list: Vec<ArbitrageTransaction>,
    pub instrument_list: Vec<String>,
}

proof fn lemma_cap_below(q: nat, m: nat, e: nat)
    requires
        m < e,
    ensures
        q * m / e <= q,
        q * m <= u128::MAX || q > u64::MAX || m > u64::MAX,
{
    assert(q * m <= q * e) by (nonlinear_arith)
        requires
            m < e,
    ;
    lemma_div_is_ordered((q * m) as int, (q * e) as int, e as int);
    lemma_div_multiples_vanish(q as int, e as int);
    assert(q * e == e * q) by (nonlinear_arith);
    if q <= u64::MAX && m <= u64::MAX {
        assert(q * m <= u64::MAX * u64::MAX) by (nonlinear_arith)
            requires
                q <= u64::MAX,
                m <= u64::MAX,
        ;
    }
}

impl Arbitrage {
    pub open spec fn wf(&self) -> bool {
        self.transaction_list@.len() == 3
    }

    /// A cycle of three fresh legs built from `plans`.
    pub fn from_transaction_list(plans: &Vec<TransactionPlan>) -> (r: Arbitrage)
        requires
            plans@.len() == 3,
        ensures
            r.wf(),
            forall|i: int| 0 <= i < 3 ==> #[trigger] r.transaction_list@[i].planned_by(&plans@[i]),
            r.name@ == cycle_name(r.transaction_list@),
            texts(r.instrument_list@) == distinct_instruments(r.transaction_list@),
    {
        let mut transaction_list: Vec<ArbitrageTransaction> = Vec::new();
        let mut i: usize = 0;
        while i < plans.len()
            invariant
                i <= plans@.len(),
                transaction_list@.len() == i,
                forall|j: int| 0 <= j < i ==> #[trigger] transaction_list@[j].planned_by(&plans@[j]),
            decreases plans@.len() - i,
        {
            transaction_list.push(ArbitrageTransaction::from_plan(&plans[i]));
            i = i + 1;
        }
        let mut name = transaction_list[0].name.clone();
        name.append(":");
        name.append(transaction_list[1].name.as_str());
        name.append(":");
        name.append(transaction_list[2].name.as_str());
        let instrument_list = Self::distinct_instrument_list(&transaction_list);
        Arbitrage { name, transaction_list, instrument_list }
    }

    fn distinct_instrument_list(legs: &Vec<ArbitrageTransaction>) -> (r: Vec<String>)
        requires
            legs@.len() == 3,
        ensures
            texts(r@) == distinct_instruments(legs@),
    {
        let mut r: Vec<String> = Vec::new();
        r.push(legs[0].instrument.clone());
        assert(texts(r@) =~= seq![legs@[0].instrument@]);
        push_text_new(&mut r, &legs[1].instrument);
        push_text_new(&mut r, &legs[2].instrument);
        r
    }

    /// Whether a snapshot of `instrument_id` concerns this cycle.
    pub open spec fn routes_spec(&self, instrument_id: Seq<char>) -> bool {
        texts(self.instrument_list@).contains(instrument_id)
    }

    /// Whether a snapshot of `tick`'s instrument concerns this cycle.
    pub fn routes(&self, tick: &MarketBbo) -> (r: bool)
        ensures
            r == self.routes_spec(tick.instrument_id@),
    {
        contains_text(&self.instrument_list, &tick.instrument_id)
    }

    fn leg_result(leg: &ArbitrageTransaction, q: u64) -> (r: Option<ArbitrageTransactionResult>)
        ensures
            r is Some <==> usable(*leg, q as nat),
            r matches Some(res) ==> res.describes(leg, q as nat) && is_v4_uuid(res.uuid),
    {
        match leg.is_valid() {
            Ok(_) => leg.execute(q),
            Err(_) => None,
        }
    }

    /// Walks the three legs on `q`, each leg fed by the one before.
    fn walk(&self, q: u64) -> (r: Option<Vec<ArbitrageTransactionResult>>)
        requires
            self.wf(),
        ensures
            r is Some <==> chain_ok(self.transaction_list@, q as nat),
            r matches Some(v) ==> walk_results(v@, self.transaction_list@, q as nat),
            r matches Some(v) ==> forall|i: int| 0 <= i < 3 ==> is_v4_uuid(#[trigger] v@[i].uuid),
    {
        let ghost legs = self.transaction_list@;
        let r0 = match Self::leg_result(&self.transaction_list[0], q) {
            Some(r) => r,
            None => {
                assert(!usable(legs[0], chain_in(legs, q as nat, 0)));
                return None;
            },
        };
        let r1 = match Self::leg_result(&self.transaction_list[1], r0.qty_out) {
            Some(r) => r,
            None => {
                assert(!usable(legs[1], chain_in(legs, q as nat, 1)));
                return None;
            },
        };
        let r2 = match Self::leg_result(&self.transaction_list[2], r1.qty_out) {
            Some(r) => r,
            None => {
                assert(!usable(legs[2], chain_in(legs, q as nat, 2)));
                return None;
            },
        };
        let mut v: Vec<ArbitrageTransactionResult> = Vec::new();
        v.push(r0);
        v.push(r1);
        v.push(r2);
        proof {
            assert(usable(legs[0], chain_in(legs, q as nat, 0)));
            assert(usable(legs[1], chain_in(legs, q as nat, 1)));
            assert(usable(legs[2], chain_in(legs, q as nat, 2)));
            assert(forall|i: int| 0 <= i < 3 ==> #[trigger] v@[i].describes(&legs[i], chain_in(legs, q as nat, i)));
            assert(forall|i: int| 0 <= i < 3 ==> is_v4_uuid(#[trigger] v@[i].uuid));
        }
        Some(v)
    }

    /// Leg `i`'s cap on the starting amount (see `cap`).
    fn leg_cap(&self, results: &Vec<ArbitrageTransactionResult>, q: u64, i: usize) -> (r: u64)
        requires
            self.wf(),
            i < 3,
            walk_results(results@, self.transaction_list@, q as nat),
        ensures
            r == cap(self.transaction_list@, q as nat, i as int),
            r <= q,
    {
        let t = &results[i];
        assert(results@[i as int].describes(&self.transaction_list@[i as int], chain_in(self.transaction_list@, q as nat, i as int)));
        if t.qty_to_execute > t.market_qty {
            proof {
                lemma_cap_below(q as nat, t.market_qty as nat, t.qty_to_execute as nat);
            }
            ((q as u128) * (t.market_qty as u128) / (t.qty_to_execute as u128)) as u64
        } else {
            q
        }
    }

    /// Refreshes the legs that trade `market_bbo`'s instrument, then walks the
    /// cycle on `qty_initial`. With `scale`, when a leg would trade more than
    /// its depth, the walk is made once more, and only once, on `qty_initial`
    /// divided by the largest ratio of traded amount to depth (rounded down);
    /// that second walk is reported as it comes. `None` exactly when some leg
    /// cannot give a result on the first walk; a rescaled walk always can.
    pub fn execute(&mut self, market_bbo: &MarketBbo, qty_initial: u64, scale: bool) -> (r: Option<ArbitrageProfit>)
        requires
            old(self).wf(),
        ensures
            final(self).wf(),
            final(self).name == old(self).name,
            final(self).instrument_list == old(self).instrument_list,
            forall|i: int| 0 <= i < 3 ==> #[trigger] refreshed(old(self).transaction_list@[i], final(self).transaction_list@[i], market_bbo),
            r is Some <==> chain_ok(final(self).transaction_list@, qty_initial as nat),
            r matches Some(p) ==> {
                &&& p.wf()
                &&& walk_results(p.transaction_result_list@, final(self).transaction_list@,
                    final_qty(final(self).transaction_list@, qty_initial as nat, scale))
                &&& p.name@ == final(self).name@
                &&& p.tick_timestamp_ms == market_bbo.marketdata_timestamp_ms
                &&& p.tick_received_timestamp_ms == market_bbo.received_timestamp_ms
                &&& is_v4_uuid(p.uuid)
                &&& forall|i: int| 0 <= i < 3 ==> is_v4_uuid(#[trigger] p.transaction_result_list@[i].uuid)
            },
    {
        let mut i: usize = 0;
        while i < 3
            invariant
                i <= 3,
                self.transaction_list@.len() == 3,
                old(self).transaction_list@.len() == 3,
                self.name == old(self).name,
                self.instrument_list == old(self).instrument_list,
                forall|j: int| 0 <= j < i ==> #[trigger] refreshed(old(self).transaction_list@[j], self.transaction_list@[j], market_bbo),
                forall|j: int| i <= j < 3 ==> #[trigger] self.transaction_list@[j] == old(self).transaction_list@[j],
            decreases 3 - i,
        {
            if self.transaction_list[i].instrument == market_bbo.instrument_id {
                self.transaction_list[i].update(market_bbo);
            }
            i = i + 1;
        }
        let ghost legs = self.transaction_list@;
        let first = match self.walk(qty_initial) {
            Some(v) => v,
            None => return None,
        };
        proof {
            lemma_rescaled_walk_exists(legs, qty_initial as nat, scale);
        }
        let mut results = first;
        if scale {
            let c0 = self.leg_cap(&results, qty_initial, 0);
            let c1 = self.leg_cap(&results, qty_initial, 1);
            let c2 = self.leg_cap(&results, qty_initial, 2);
            let scaled = if c0 <= c1 { c0 } else { c1 };
            let scaled = if scaled <= c2 { scaled } else { c2 };
            let over = results[0].qty_to_execute > results[0].market_qty
                || results[1].qty_to_execute > results[1].market_qty
                || results[2].qty_to_execute > results[2].market_qty;
            proof {
                assert(results@[0].describes(&legs[0], chain_in(legs, qty_initial as nat, 0)));
                assert(results@[1].describes(&legs[1], chain_in(legs, qty_initial as nat, 1)));
                assert(results@[2].describes(&legs[2], chain_in(legs, qty_initial as nat, 2)));
                assert(over == (exceeds(legs, qty_initial as nat, 0) || exceeds(legs, qty_initial as nat, 1)
                    || exceeds(legs, qty_initial as nat, 2)));
                if needs_rescale(legs, qty_initial as nat) {
                    let k = choose|k: int| 0 <= k < 3 && #[trigger] exceeds(legs, qty_initial as nat, k);
                    assert(over);
                }
            }
            if over {
                results = match self.walk(scaled) {
                    Some(v) => v,
                    None => return None,
                };
            }
        }
        Some(ArbitrageProfit {
            name: self.name.clone(),
            tick_timestamp_ms: market_bbo.marketdata_timestamp_ms,
            tick_received_timestamp_ms: market_bbo.received_timestamp_ms,
            transaction_result_list: results,
            create_at_ms: now_millis(),
            uuid: fresh_uuid(),
        })
    }

    pub fn get_name(&self) -> (r: &String)
        ensures
            r == &self.name,
    {
        &self.name
    }

    /// The distinct instruments of the legs, in the order first met.
    pub fn get_instruments(&self) -> (r: Vec<String>)
        requires
            self.wf(),
        ensures
            texts(r@) == distinct_instruments(self.transaction_list@),
    {
        Self::distinct_instrument_list(&self.transaction_list)
    }

    pub fn get_start_asset(&self) -> (r: &String)
        requires
            self.wf(),
        ensures
            r == &self.transaction_list@[0].source,
    {
        &self.transaction_list[0].source
    }
}

proof fn lemma_cap_facts(q: nat, m: nat, e: nat)
    requires
        m < e,
    ensures
        (q * m / e) * e <= q * m,
        q > 0 ==> q * m / e < q,
{
    let qi = q as int;
    let mi = m as int;
    let ei = e as int;
    let n = qi * mi;
    lemma_fundamental_div_mod(n, ei);
    lemma_mod_pos_bound(n, ei);
    assert((n / ei) * ei <= n) by (nonlinear_arith)
        requires
            n == ei * (n / ei) + n % ei,
            0 <= n % ei,
    ;
    if q > 0 {
        assert(n / ei < qi) by (nonlinear_arith)
            requires
                n == ei * (n / ei) + n % ei,
                0 <= n % ei,
                n == qi * mi,
                0 <= mi < ei,
                qi > 0,
        ;
    }
}

proof fn lemma_zero_walk(legs: Seq<ArbitrageTransaction>, i: int)
    requires
        0 <= i < 3,
        legs.len() == 3,
    ensures
        chain_in(legs, 0, i) == 0,
        legs[i].qty_to_execute_spec(0) == 0,
        out_of(legs[i], 0) == 0,
{
    assert forall|k: int| 0 <= k < 3 implies #[trigger] legs[k].qty_to_execute_spec(0) == 0
        && out_of(legs[k], 0) == 0 by {
        crate::quantize::lemma_grid_unit_bounds(legs[k].step_size);
        assert((0int) % (crate::quantize::grid_unit(legs[k].step_size) as int) == 0) by (nonlinear_arith)
            requires
                crate::quantize::grid_unit(legs[k].step_size) >= 1,
        ;
        assert(legs[k].raw_qty_spec(0) == 0);
        assert(0 * legs[k].price_spec() / (crate::quantize::SCALE as nat) == 0);
        assert(0 * (legs[k].fee_rate as nat) / (crate::quantize::SCALE as nat) == 0);
    }
}

/// When a walk is rescaled, the new starting amount is below the old one, the
/// walk can also be made on it, and
/// every leg's traded amount of the first walk, scaled by the same factor,
/// is within that leg's depth: the contraction holds before any rounding
/// to the step and tick grids.
pub proof fn lemma_rescale_contracts(legs: Seq<ArbitrageTransaction>, q: nat)
    requires
        legs.len() == 3,
        chain_ok(legs, q),
        needs_rescale(legs, q),
    ensures
        rescaled(legs, q) < q,
        chain_ok(legs, rescaled(legs, q)),
        forall|i: int|
            0 <= i < 3 ==> rescaled(legs, q) * #[trigger] legs[i].qty_to_execute_spec(chain_in(legs, q, i))
                <= q * (legs[i].market_qty_spec() as nat),
{
    let s = rescaled(legs, q);
    assert forall|i: int| 0 <= i < 3 implies s * #[trigger] legs[i].qty_to_execute_spec(chain_in(legs, q, i))
        <= q * (legs[i].market_qty_spec() as nat) by {
        let e = legs[i].qty_to_execute_spec(chain_in(legs, q, i));
        let m = legs[i].market_qty_spec() as nat;
        if exceeds(legs, q, i) {
            lemma_cap_facts(q, m, e);
            assert(s <= cap(legs, q, i));
            lemma_mul_inequality(s as int, cap(legs, q, i) as int, e as int);
        } else {
            assert(s <= q);
            assert(s * e <= q * m) by (nonlinear_arith)
                requires
                    s <= q,
                    e <= m,
            ;
        }
    }
    let k = choose|k: int| 0 <= k < 3 && #[trigger] exceeds(legs, q, k);
    if q == 0 {
        lemma_zero_walk(legs, k);
        assert(false);
    }
    let e = legs[k].qty_to_execute_spec(chain_in(legs, q, k));
    lemma_cap_facts(q, legs[k].market_qty_spec() as nat, e);
    lemma_rescaled_walk_exists(legs, q, true);
}

/// A walk is rescaled at most once: the walk reported starts with the given
/// amount or with that amount divided by the first walk's largest ratio, and
/// with rescaling off it always starts with the given amount.
pub proof fn lemma_rescale_at_most_once(legs: Seq<ArbitrageTransaction>, q: nat)
    ensures
        final_qty(legs, q, true) == q || final_qty(legs, q, true) == rescaled(legs, q),
        final_qty(legs, q, false) == q,
{
}

proof fn lemma_fee_steps(g1: int, g2: int, r: int, s: int)
    requires
        0 <= g1 <= g2,
        0 <= r,
        0 < s,
        g2 * r / s <= g2,
    ensures
        g1 * r / s <= g1,
        g1 - g1 * r / s <= g2 - g2 * r / s,
{
    let f1 = g1 * r / s;
    let f2 = g2 * r / s;
    let m1 = g1 * r % s;
    let m2 = g2 * r % s;
    lemma_fundamental_div_mod(g1 * r, s);
    lemma_fundamental_div_mod(g2 * r, s);
    lemma_mod_pos_bound(g1 * r, s);
    lemma_mod_pos_bound(g2 * r, s);
    if r <= s {
        assert(g1 * r <= g1 * s && g2 * r - g1 * r <= (g2 - g1) * s) by (nonlinear_arith)
            requires
                0 <= g1 <= g2,
                0 <= r <= s,
        ;
        assert(f1 <= g1) by (nonlinear_arith)
            requires
                g1 * r == s * f1 + m1,
                0 <= m1,
                g1 * r <= g1 * s,
                0 < s,
        ;
        assert(f2 - f1 <= g2 - g1) by (nonlinear_arith)
            requires
                g1 * r == s * f1 + m1,
                g2 * r == s * f2 + m2,
                0 <= m1 < s,
                0 <= m2 < s,
                g2 * r - g1 * r <= (g2 - g1) * s,
                0 < s,
        ;
    } else {
        assert(g1 * (r - s) <= g2 * (r - s)) by (nonlinear_arith)
            requires
                0 <= g1 <= g2,
                s < r,
        ;
        assert(g2 * r < s * g2 + s) by (nonlinear_arith)
            requires
                g2 * r == s * f2 + m2,
                m2 < s,
                f2 <= g2,
                0 < s,
        ;
        assert(f1 <= g1) by (nonlinear_arith)
            requires
                g1 * r == s * f1 + m1,
                0 <= m1,
                g1 * (r - s) <= g2 * (r - s),
                g2 * r < s * g2 + s,
                0 < s,
        ;
        assert(g1 * r >= g1 * s && g2 * r >= g2 * s) by (nonlinear_arith)
            requires
                0 <= g1 <= g2,
                s < r,
        ;
        assert(f1 >= g1) by (nonlinear_arith)
            requires
                g1 * r == s * f1 + m1,
                m1 < s,
                g1 * r >= g1 * s,
                0 < s,
        ;
        assert(f2 >= g2) by (nonlinear_arith)
            requires
                g2 * r == s * f2 + m2,
                m2 < s,
                g2 * r >= g2 * s,
                0 < s,
        ;
    }
}

/// A leg that can be evaluated on an amount can be evaluated on any smaller
/// one, and hands on no more.
proof fn lemma_leg_monotone(leg: ArbitrageTransaction, q1: nat, q2: nat)
    requires
        q1 <= q2,
        leg.evaluable(q2),
    ensures
        leg.evaluable(q1),
        leg.qty_out_spec(q1) <= leg.qty_out_spec(q2),
        0 <= leg.qty_out_spec(q1),
{
    let sc = crate::quantize::SCALE as int;
    let p = leg.price_spec() as int;
    if leg.side == Side::Buy {
        lemma_mul_inequality(q1 as int, q2 as int, sc);
        lemma_div_is_ordered(q1 * sc, q2 * sc, p);
    }
    assert(leg.raw_qty_spec(q1) <= leg.raw_qty_spec(q2));
    crate::quantize::lemma_round_down_monotonic(leg.raw_qty_spec(q1), leg.raw_qty_spec(q2), leg.step_size);
    let e1 = leg.qty_to_execute_spec(q1) as int;
    let e2 = leg.qty_to_execute_spec(q2) as int;
    if leg.side == Side::Sell {
        lemma_mul_inequality(e1, e2, p);
        lemma_div_is_ordered(e1 * p, e2 * p, sc);
    }
    let g1 = leg.gross_spec(q1) as int;
    let g2 = leg.gross_spec(q2) as int;
    assert(g1 <= g2);
    lemma_fee_steps(g1, g2, leg.fee_rate as int, sc);
}

/// Each leg of a walk that can be made on an amount can be made on any
/// smaller one, and receives no more there.
proof fn lemma_chain_monotone(legs: Seq<ArbitrageTransaction>, q1: nat, q2: nat)
    requires
        q1 <= q2,
        chain_ok(legs, q2),
    ensures
        chain_ok(legs, q1),
        forall|i: int| 0 <= i < 3 ==> chain_in(legs, q1, i) <= chain_in(legs, q2, i),
{
    assert(usable(legs[0], chain_in(legs, q2, 0)));
    assert(usable(legs[1], chain_in(legs, q2, 1)));
    assert(usable(legs[2], chain_in(legs, q2, 2)));
    lemma_leg_monotone(legs[0], q1, q2);
    lemma_leg_monotone(legs[1], chain_in(legs, q1, 1), chain_in(legs, q2, 1));
    lemma_leg_monotone(legs[2], chain_in(legs, q1, 2), chain_in(legs, q2, 2));
    assert(usable(legs[0], chain_in(legs, q1, 0)));
    assert(usable(legs[1], chain_in(legs, q1, 1)));
    assert(usable(legs[2], chain_in(legs, q1, 2)));
}

/// The amount a walk reports never exceeds the amount given, and a walk that
/// can be made on the amount given can also be made on the amount reported.
pub proof fn lemma_rescaled_walk_exists(legs: Seq<ArbitrageTransaction>, q: nat, scale: bool)
    requires
        chain_ok(legs, q),
    ensures
        final_qty(legs, q, scale) <= q,
        chain_ok(legs, final_qty(legs, q, scale)),
{
    assert forall|i: int| 0 <= i < 3 implies cap(legs, q, i) <= q by {
        if exceeds(legs, q, i) {
            lemma_cap_below(
                q,
                legs[i].market_qty_spec() as nat,
                legs[i].qty_to_execute_spec(chain_in(legs, q, i)),
            );
        }
    }
    assert(cap(legs, q, 0) <= q && cap(legs, q, 1) <= q && cap(legs, q, 2) <= q);
    lemma_chain_monotone(legs, final_qty(legs, q, scale), q);
}

} // verus!
