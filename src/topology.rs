//! Enumeration of every three-leg cycle that a universe of assets allows on
//! one exchange.
use itertools::Itertools;
use vstd::prelude::*;
use vstd::string::*;

use crate::text::{contains_text, texts};
use crate::transaction::{Side, TransactionPlan};

verus! {

/// Source, target, side, instrument and exchange code of one leg.
pub type PlanView = (Seq<char>, Seq<char>, Side, Seq<char>, Seq<char>);

/// `a` comes before `b` in lexicographic order.
pub open spec fn lex_lt(a: (usize, usize, usize), b: (usize, usize, usize)) -> bool {
    a.0 < b.0 || (a.0 == b.0 && (a.1 < b.1 || (a.1 == b.1 && a.2 < b.2)))
}

/// `r` lists every strictly increasing triple below `n`, each once, in
/// lexicographic order.
pub open spec fn triples_in_order(r: Seq<(usize, usize, usize)>, n: nat) -> bool {
    &&& forall|a: int| 0 <= a < r.len() ==> #[trigger] r[a].0 < r[a].1 && r[a].1 < r[a].2 && r[a].2 < n
    &&& forall|a: int, b: int| 0 <= a < b < r.len() ==> lex_lt(#[trigger] r[a], #[trigger] r[b])
    &&& forall|t: (usize, usize, usize)| t.0 < t.1 && t.1 < t.2 && t.2 < n ==> #[trigger] r.contains(t)
}

/// Relies on `itertools::Itertools::combinations` over the range `0..n`: the
/// 3-element combinations of `0..n`, each in increasing order, all of them,
/// in lexicographic order.
#[verifier::external_body]
fn index_triples(n: usize) -> (r: Vec<(usize, usize, usize)>)
    ensures
        triples_in_order(r@, n as nat),
{
    (0..n).combinations(3).map(|c| (c[0], c[1], c[2])).collect()
}

/// The identifier of the instrument with base `base` and quote `quote`.
pub open spec fn instrument_id(exchange: Seq<char>, base: Seq<char>, quote: Seq<char>) -> Seq<char> {
    exchange + "_"@ + base + "_"@ + quote
}

/// The leg that gives `a` for `b`: a sale when the instrument `a`/`b` is
/// listed, else a purchase when `b`/`a` is; none when neither is.
pub open spec fn resolve(
    exchange: Seq<char>,
    a: Seq<char>,
    b: Seq<char>,
    listed: Seq<Seq<char>>,
) -> Option<PlanView> {
    if listed.contains(instrument_id(exchange, a, b)) {
        Some((a, b, Side::Sell, instrument_id(exchange, a, b), a + b))
    } else if listed.contains(instrument_id(exchange, b, a)) {
        Some((a, b, Side::Buy, instrument_id(exchange, b, a), b + a))
    } else {
        None
    }
}

/// The cycle `a -> b -> c -> a`, when each edge resolves on `listed` and each
/// of its instruments is also in `catalog`.
pub open spec fn cycle_of(
    exchange: Seq<char>,
    a: Seq<char>,
    b: Seq<char>,
    c: Seq<char>,
    listed: Seq<Seq<char>>,
    catalog: Seq<Seq<char>>,
) -> Option<Seq<PlanView>> {
    match (resolve(exchange, a, b, listed), resolve(exchange, b, c, listed), resolve(exchange, c, a, listed)) {
        (Some(x), Some(y), Some(z)) => if catalog.contains(x.3) && catalog.contains(y.3)
            && catalog.contains(z.3) {
            Some(seq![x, y, z])
        } else {
            None
        },
        _ => None,
    }
}

/// The six orders of a triple, in the order they are tried.
pub open spec fn orders(t: (usize, usize, usize)) -> Seq<(usize, usize, usize)> {
    seq![
        (t.0, t.1, t.2),
        (t.0, t.2, t.1),
        (t.1, t.0, t.2),
        (t.1, t.2, t.0),
        (t.2, t.0, t.1),
        (t.2, t.1, t.0),
    ]
}

/// What the order `o` of the universe's assets contributes: its cycle, when
/// it starts at `start` and the cycle exists.
pub open spec fn contribution(
    exchange: Seq<char>,
    start: Seq<char>,
    universe: Seq<Seq<char>>,
    o: (usize, usize, usize),
    listed: Seq<Seq<char>>,
    catalog: Seq<Seq<char>>,
) -> Seq<Seq<PlanView>> {
    if universe[o.0 as int] == start {
        match cycle_of(exchange, universe[o.0 as int], universe[o.1 as int], universe[o.2 as int], listed, catalog) {
            Some(t) => seq![t],
            None => Seq::empty(),
        }
    } else {
        Seq::empty()
    }
}

/// What the first `m` orders of `t` contribute.
pub open spec fn combo_cycles(
    exchange: Seq<char>,
    start: Seq<char>,
    universe: Seq<Seq<char>>,
    t: (usize, usize, usize),
    m: nat,
    listed: Seq<Seq<char>>,
    catalog: Seq<Seq<char>>,
) -> Seq<Seq<PlanView>>
    decreases m,
{
    if m == 0 {
        Seq::empty()
    } else {
        combo_cycles(exchange, start, universe, t, (m - 1) as nat, listed, catalog)
            + contribution(exchange, start, universe, orders(t)[m - 1], listed, catalog)
    }
}

/// The cycles of the first `n` triples of `combos`, in order.
pub open spec fn cycles_upto(
    exchange: Seq<char>,
    start: Seq<char>,
    universe: Seq<Seq<char>>,
    combos: Seq<(usize, usize, usize)>,
    n: nat,
    listed: Seq<Seq<char>>,
    catalog: Seq<Seq<char>>,
) -> Seq<Seq<PlanView>>
    decreases n,
{
    if n == 0 {
        Seq::empty()
    } else {
        cycles_upto(exchange, start, universe, combos, (n - 1) as nat, listed, catalog)
            + combo_cycles(exchange, start, universe, combos[n - 1], 6, listed, catalog)
    }
}

/// The views of each plan of each cycle.
pub open spec fn cycle_views(v: Seq<Vec<TransactionPlan>>) -> Seq<Seq<PlanView>> {
    v.map_values(|t: Vec<TransactionPlan>| t@.map_values(|p: TransactionPlan| p@))
}

/// `t` is a closed walk from `start` whose instruments are all in both lists.
pub open spec fn closed_cycle(
    t: Seq<PlanView>,
    start: Seq<char>,
    listed: Seq<Seq<char>>,
    catalog: Seq<Seq<char>>,
) -> bool {
    &&& t.len() == 3
    &&& t[0].0 == start
    &&& t[2].1 == start
    &&& t[0].1 == t[1].0
    &&& t[1].1 == t[2].0
    &&& forall|i: int| 0 <= i < 3 ==> listed.contains(#[trigger] t[i].3) && catalog.contains(t[i].3)
}

fn instrument_id_of(exchange: &String, base: &String, quote: &String) -> (r: String)
    ensures
        r@ == instrument_id(exchange@, base@, quote@),
{
    let mut r = exchange.clone();
    r.append("_");
    r.append(base.as_str());
    r.append("_");
    r.append(quote.as_str());
    r
}

fn resolve_edge(exchange: &String, a: &String, b: &String, listed: &Vec<String>) -> (r: Option<TransactionPlan>)
    ensures
        r matches Some(p) ==> resolve(exchange@, a@, b@, texts(listed@)) == Some(p@),
        r is None ==> resolve(exchange@, a@, b@, texts(listed@)) is None,
{
    let id_a = instrument_id_of(exchange, a, b);
    if contains_text(listed, &id_a) {
        let mut code = a.clone();
        code.append(b.as_str());
        return Some(TransactionPlan { source: a.clone(), target: b.clone(), side: Side::Sell, instrument: id_a, exchange_code: code });
    }
    let id_b = instrument_id_of(exchange, b, a);
    if contains_text(listed, &id_b) {
        let mut code = b.clone();
        code.append(a.as_str());
        return Some(TransactionPlan { source: a.clone(), target: b.clone(), side: Side::Buy, instrument: id_b, exchange_code: code });
    }
    None
}

fn cycle_plans(
    exchange: &String,
    a: &String,
    b: &String,
    c: &String,
    listed: &Vec<String>,
    catalog: &Vec<String>,
) -> (r: Option<Vec<TransactionPlan>>)
    ensures
        r matches Some(v) ==> cycle_of(exchange@, a@, b@, c@, texts(listed@), texts(catalog@)) == Some(
            v@.map_values(|p: TransactionPlan| p@),
        ),
        r is None ==> cycle_of(exchange@, a@, b@, c@, texts(listed@), texts(catalog@)) is None,
{
    let x = match resolve_edge(exchange, a, b, listed) {
        Some(p) => p,
        None => return None,
    };
    let y = match resolve_edge(exchange, b, c, listed) {
        Some(p) => p,
        None => return None,
    };
    let z = match resolve_edge(exchange, c, a, listed) {
        Some(p) => p,
        None => return None,
    };
    if !(contains_text(catalog, &x.instrument) && contains_text(catalog, &y.instrument) && contains_text(catalog, &z.instrument)) {
        return None;
    }
    let ghost views = seq![x@, y@, z@];
    let mut v: Vec<TransactionPlan> = Vec::new();
    v.push(x);
    v.push(y);
    v.push(z);
    assert(v@.map_values(|p: TransactionPlan| p@) =~= views);
    Some(v)
}

proof fn lemma_cycle_closed(
    exchange: Seq<char>,
    a: Seq<char>,
    b: Seq<char>,
    c: Seq<char>,
    listed: Seq<Seq<char>>,
    catalog: Seq<Seq<char>>,
)
    requires
        cycle_of(exchange, a, b, c, listed, catalog) is Some,
    ensures
        closed_cycle(cycle_of(exchange, a, b, c, listed, catalog)->Some_0, a, listed, catalog),
{
    let t = cycle_of(exchange, a, b, c, listed, catalog)->Some_0;
    assert(t[0] == resolve(exchange, a, b, listed)->Some_0);
    assert(t[1] == resolve(exchange, b, c, listed)->Some_0);
    assert(t[2] == resolve(exchange, c, a, listed)->Some_0);
}

/// `r` holds the cycles of `universe` from `start` (see `build_topology`),
/// and each of them is a closed walk from `start` over listed instruments.
pub open spec fn is_topology(
    r: Seq<Vec<TransactionPlan>>,
    exchange: Seq<char>,
    start: Seq<char>,
    universe: Seq<Seq<char>>,
    listed: Seq<Seq<char>>,
    catalog: Seq<Seq<char>>,
) -> bool {
    &&& exists|combos: Seq<(usize, usize, usize)>|
        triples_in_order(combos, universe.len()) && cycle_views(r) == cycles_upto(
            exchange,
            start,
            universe,
            combos,
            combos.len(),
            listed,
            catalog,
        )
    &&& forall|i: int|
        0 <= i < r.len() ==> closed_cycle(#[trigger] cycle_views(r)[i], start, listed, catalog)
    &&& forall|i: int| 0 <= i < r.len() ==> (#[trigger] r[i])@.len() == 3
}

/// Every cycle that the universe `symbol_list` allows from `start_asset` on
/// `exchange`: for each three assets of the universe (in the order of their
/// positions), each of their six orders that starts at `start_asset` and
/// whose three edges resolve on `listed` to instruments that `catalog`
/// also holds gives one cycle, in the order tried.
pub fn build_topology(
    exchange: &String,
    start_asset: &String,
    symbol_list: &Vec<String>,
    listed: &Vec<String>,
    catalog: &Vec<String>,
) -> (r: Vec<Vec<TransactionPlan>>)
    ensures
        is_topology(r@, exchange@, start_asset@, texts(symbol_list@), texts(listed@), texts(catalog@)),
{
    let ghost ex = exchange@;
    let ghost st = start_asset@;
    let ghost uni = texts(symbol_list@);
    let ghost li = texts(listed@);
    let ghost ca = texts(catalog@);
    let combos = index_triples(symbol_list.len());
    let mut out: Vec<Vec<TransactionPlan>> = Vec::new();
    let mut a: usize = 0;
    while a < combos.len()
        invariant
            a <= combos@.len(),
            uni == texts(symbol_list@),
            li == texts(listed@),
            ca == texts(catalog@),
            ex == exchange@,
            st == start_asset@,
            triples_in_order(combos@, symbol_list@.len() as nat),
            cycle_views(out@) == cycles_upto(ex, st, uni, combos@, a as nat, li, ca),
            forall|i: int| 0 <= i < out@.len() ==> closed_cycle(#[trigger] cycle_views(out@)[i], st, li, ca),
            forall|i: int| 0 <= i < out@.len() ==> (#[trigger] out@[i])@.len() == 3,
        decreases combos@.len() - a,
    {
        let t = combos[a];
        assert(t == combos@[a as int]);
        let ords: Vec<(usize, usize, usize)> = vec![
            (t.0, t.1, t.2),
            (t.0, t.2, t.1),
            (t.1, t.0, t.2),
            (t.1, t.2, t.0),
            (t.2, t.0, t.1),
            (t.2, t.1, t.0),
        ];
        assert(ords@ =~= orders(t));
        let mut m: usize = 0;
        while m < 6
            invariant
                m <= 6,
                a < combos@.len(),
                uni == texts(symbol_list@),
            li == texts(listed@),
            ca == texts(catalog@),
            ex == exchange@,
            st == start_asset@,
                t == combos@[a as int],
                t.0 < symbol_list@.len() && t.1 < symbol_list@.len() && t.2 < symbol_list@.len(),
                ords@ == orders(t),
                cycle_views(out@) == cycles_upto(ex, st, uni, combos@, a as nat, li, ca) + combo_cycles(
                    ex,
                    st,
                    uni,
                    t,
                    m as nat,
                    li,
                    ca,
                ),
                forall|i: int| 0 <= i < out@.len() ==> closed_cycle(#[trigger] cycle_views(out@)[i], st, li, ca),
                forall|i: int| 0 <= i < out@.len() ==> (#[trigger] out@[i])@.len() == 3,
            decreases 6 - m,
        {
            let o = ords[m];
            let ghost before = cycle_views(out@);
            assert(o == orders(t)[m as int]);
            assert(o.0 < symbol_list@.len() && o.1 < symbol_list@.len() && o.2 < symbol_list@.len());
            assert(uni[o.0 as int] == symbol_list@[o.0 as int]@);
            assert(uni[o.1 as int] == symbol_list@[o.1 as int]@);
            assert(uni[o.2 as int] == symbol_list@[o.2 as int]@);
            assert(combo_cycles(ex, st, uni, t, (m + 1) as nat, li, ca) == combo_cycles(ex, st, uni, t, m as nat, li, ca)
                + contribution(ex, st, uni, o, li, ca));
            if symbol_list[o.0] == *start_asset {
                match cycle_plans(exchange, &symbol_list[o.0], &symbol_list[o.1], &symbol_list[o.2], listed, catalog) {
                    Some(v) => {
                        proof {
                            lemma_cycle_closed(ex, uni[o.0 as int], uni[o.1 as int], uni[o.2 as int], li, ca);
                        }
                        out.push(v);
                        assert(cycle_views(out@) =~= before.push(v@.map_values(|p: TransactionPlan| p@)));
                    },
                    None => {},
                }
            }
            assert(cycle_views(out@) =~= cycles_upto(ex, st, uni, combos@, a as nat, li, ca) + combo_cycles(
                ex,
                st,
                uni,
                t,
                (m + 1) as nat,
                li,
                ca,
            ));
            m = m + 1;
        }
        a = a + 1;
    }
    assert(triples_in_order(combos@, uni.len()) && cycle_views(out@) == cycles_upto(ex, st, uni, combos@, combos@.len(), li, ca));
    out
}

} // verus!
