//! What the ordering stage submits for a profit, and its pacing setting.
use vstd::prelude::*;

use crate::arbitrage::ArbitrageProfit;
use crate::transaction::{ArbitrageTransactionResult, Side};

verus! {

/// Pause between two submissions when the setting is absent or unreadable.
pub const DEFAULT_SLEEP_MICROS: u64 = 10;

/// One fill-or-kill limit order.
#[derive(Debug)]
pub struct OrderRequest {
    /// The exchange's symbol of the instrument (`ETHBTC`).
    pub symbol: String,
    pub side: Side,
    pub price: u64,
    pub qty: u64,
}

impl OrderRequest {
    /// The order that realizes the leg result `t`.
    pub open spec fn realizes(&self, t: &ArbitrageTransactionResult) -> bool {
        &&& self.symbol@ == t.exchange_code@
        &&& self.side == t.side
        &&& self.price == t.price
        &&& self.qty == t.qty_to_execute
    }
}

/// The orders of a profit, one per leg in order, when every leg's order is
/// valid; `None` otherwise.
pub fn order_requests(profit: &ArbitrageProfit) -> (r: Option<Vec<OrderRequest>>)
    ensures
        r is Some <==> profit.valid_ordering_spec(),
        r matches Some(v) ==> v@.len() == profit.transaction_result_list@.len() && forall|i: int|
            0 <= i < v@.len() ==> #[trigger] v@[i].realizes(&profit.transaction_result_list@[i]),
{
    if !profit.is_valid_ordering() {
        return None;
    }
    let list = &profit.transaction_result_list;
    let mut v: Vec<OrderRequest> = Vec::new();
    let mut i: usize = 0;
    while i < list.len()
        invariant
            i <= list@.len(),
            v@.len() == i,
            forall|j: int| 0 <= j < i ==> #[trigger] v@[j].realizes(&list@[j]),
        decreases list@.len() - i,
    {
        let t = &list[i];
        v.push(OrderRequest { symbol: t.exchange_code.clone(), side: t.side, price: t.price, qty: t.qty_to_execute });
        i = i + 1;
    }
    Some(v)
}

/// The value of a string of decimal digits.
pub open spec fn decimal_value(s: Seq<char>) -> nat
    decreases s.len(),
{
    if s.len() == 0 {
        0
    } else {
        10 * decimal_value(s.drop_last()) + ((s.last() as u32) - ('0' as u32)) as nat
    }
}

pub open spec fn all_digits(s: Seq<char>) -> bool {
    forall|i: int| 0 <= i < s.len() ==> '0' <= #[trigger] s[i] <= '9'
}

/// The digits of a setting: the text after one leading `+`, if it has one.
pub open spec fn digits_of(s: Seq<char>) -> Seq<char> {
    if s.len() > 0 && s[0] == '+' {
        s.subrange(1, s.len() as int)
    } else {
        s
    }
}

/// An optional `+` and then a nonempty string of decimal digits whose value
/// fits in 64 bits: what an unsigned 64-bit integer is written as.
pub open spec fn readable_setting(s: Seq<char>) -> bool {
    digits_of(s).len() > 0 && all_digits(digits_of(s)) && decimal_value(digits_of(s)) <= u64::MAX
}

/// The pause between two submissions, in microseconds: the setting's value
/// when it reads as an unsigned 64-bit integer (see `readable_setting`),
/// `DEFAULT_SLEEP_MICROS` otherwise.
pub fn sleep_between_transactions(setting: Option<&str>) -> (r: u64)
    ensures
        r == (if setting is Some && readable_setting(setting->Some_0@) {
            decimal_value(digits_of(setting->Some_0@))
        } else {
            DEFAULT_SLEEP_MICROS as nat
        }),
{
    if setting.is_none() {
        return DEFAULT_SLEEP_MICROS;
    }
    let s = setting.unwrap();
    let n = s.unicode_len();
    let start: usize = if n > 0 && s.get_char(0) == '+' { 1 } else { 0 };
    let ghost t = digits_of(s@);
    assert(t =~= s@.subrange(start as int, n as int));
    if n == start {
        return DEFAULT_SLEEP_MICROS;
    }
    let mut value: u64 = 0;
    let mut i: usize = start;
    while i < n
        invariant
            start <= i <= n,
            n == s@.len(),
            setting is Some && setting->Some_0 == s,
            t == digits_of(s@),
            t =~= s@.subrange(start as int, n as int),
            all_digits(s@.subrange(start as int, i as int)),
            value == decimal_value(s@.subrange(start as int, i as int)),
        decreases n - i,
    {
        let c = s.get_char(i);
        if c < '0' || c > '9' {
            assert(t[i - start] == c);
            assert(!all_digits(t));
            return DEFAULT_SLEEP_MICROS;
        }
        let d = (c as u32 - '0' as u32) as u64;
        proof {
            let p = s@.subrange(start as int, i + 1);
            assert(p.drop_last() =~= s@.subrange(start as int, i as int));
            assert(p.last() == c);
            assert(decimal_value(p) == 10 * decimal_value(s@.subrange(start as int, i as int)) + d);
            assert(t.subrange(0, i + 1 - start) =~= p);
        }
        if value > (u64::MAX - d) / 10 {
            proof {
                let m = u64::MAX - d;
                assert(10 * value + d > u64::MAX) by (nonlinear_arith)
                    requires
                        value > m / 10,
                        m == u64::MAX - d,
                        0 <= d <= 9,
                ;
                if all_digits(t) {
                    lemma_prefix_bounds(t, (i + 1 - start) as nat);
                }
            }
            return DEFAULT_SLEEP_MICROS;
        }
        value = value * 10 + d;
        i = i + 1;
    }
    value
}

/// A digit string's value is at least that of each of its prefixes.
proof fn lemma_prefix_bounds(s: Seq<char>, k: nat)
    requires
        k <= s.len(),
        all_digits(s),
    ensures
        decimal_value(s.subrange(0, k as int)) <= decimal_value(s),
    decreases s.len() - k,
{
    if k < s.len() {
        lemma_prefix_bounds(s, k + 1);
        let p = s.subrange(0, k as int + 1);
        assert(p.drop_last() =~= s.subrange(0, k as int));
        assert('0' <= p.last() <= '9');
    } else {
        assert(s.subrange(0, k as int) =~= s);
    }
}

} // verus!
