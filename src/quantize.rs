//! Rounding of amounts and prices down to an exchange's step or tick grid.
use vstd::arithmetic::div_mod::{
    lemma_div_is_ordered, lemma_fundamental_div_mod, lemma_mod_multiples_basic,
    lemma_mod_pos_bound,
};
use vstd::arithmetic::mul::lemma_mul_inequality;
use vstd::prelude::*;
use vstd::string::*;

verus! {

/// One whole unit of an asset or of a price, in the library's fixed-point units.
pub const SCALE: u64 = 100_000_000;

/// Number of fractional digits that the fixed-point units carry.
pub const SCALE_DIGITS: u32 = 8;

/// A quantization grid, as the exchange publishes it.
#[derive(Clone, Copy, Debug, PartialEq, Eq, Structural)]
pub enum Grid {
    /// No grid is known: values are left as they are.
    Unset,
    /// Values are kept to this many fractional digits (a grid of `1.0` keeps none).
    Digits(u32),
}

pub open spec fn pow10(n: nat) -> nat
    decreases n,
{
    if n == 0 {
        1
    } else {
        10 * pow10((n - 1) as nat)
    }
}

/// The grid's spacing, in fixed-point units.
pub open spec fn grid_unit(g: Grid) -> nat {
    match g {
        Grid::Unset => 1,
        Grid::Digits(d) => if d >= SCALE_DIGITS {
            1
        } else {
            pow10((SCALE_DIGITS - d) as nat)
        },
    }
}

/// `x` rounded down to the largest multiple of the grid's spacing.
pub open spec fn quantize(x: nat, g: Grid) -> nat {
    (x as int - (x as int) % (grid_unit(g) as int)) as nat
}

proof fn lemma_pow10_bounds(n: nat)
    requires
        n <= 8,
    ensures
        1 <= pow10(n) <= pow10(8),
        pow10(8) == SCALE,
    decreases n,
{
    reveal_with_fuel(pow10, 9);
    if n > 0 {
        lemma_pow10_bounds((n - 1) as nat);
    }
}

/// A grid's spacing is between one unit and one whole.
pub proof fn lemma_grid_unit_bounds(g: Grid)
    ensures
        1 <= grid_unit(g) <= SCALE,
{
    match g {
        Grid::Unset => {
            lemma_pow10_bounds(8);
        },
        Grid::Digits(d) => {
            if d < SCALE_DIGITS {
                lemma_pow10_bounds((SCALE_DIGITS - d) as nat);
            } else {
                lemma_pow10_bounds(8);
            }
        },
    }
}

/// The grid's spacing, in fixed-point units.
pub fn grid_unit_of(g: Grid) -> (u: u64)
    ensures
        u == grid_unit(g),
        1 <= u <= SCALE,
{
    proof {
        lemma_grid_unit_bounds(g);
    }
    match g {
        Grid::Unset => 1,
        Grid::Digits(d) => {
            if d >= SCALE_DIGITS {
                1
            } else {
                let n: u32 = SCALE_DIGITS - d;
                let mut u: u64 = 1;
                let mut i: u32 = 0;
                while i < n
                    invariant
                        n <= 8,
                        i <= n,
                        u == pow10(i as nat),
                        n == SCALE_DIGITS - d,
                        d < SCALE_DIGITS,
                    decreases n - i,
                {
                    proof {
                        lemma_pow10_bounds((i + 1) as nat);
                    }
                    u = u * 10;
                    i = i + 1;
                }
                u
            }
        },
    }
}

/// Rounds `x` down to the grid: the largest multiple of the grid's spacing
/// that is at most `x`. An unset grid leaves `x` unchanged.
pub fn round_down_to_grid(x: u64, g: Grid) -> (r: u64)
    ensures
        r == quantize(x as nat, g),
        r <= x,
        (r as int) % (grid_unit(g) as int) == 0,
        x - r < grid_unit(g),
{
    let u = grid_unit_of(g);
    proof {
        lemma_quantize_facts(x as nat, g);
    }
    let m = x % u;
    proof {
        lemma_mod_pos_bound(x as int, u as int);
        assert(m <= x) by (nonlinear_arith)
            requires
                m == (x as int) % (u as int),
                0 <= (x as int) % (u as int) < u,
                u >= 1,
        ;
    }
    x - m
}

proof fn lemma_quantize_facts(x: nat, g: Grid)
    ensures
        quantize(x, g) <= x,
        x - quantize(x, g) < grid_unit(g),
        quantize(x, g) == (grid_unit(g) as int) * ((x as int) / (grid_unit(g) as int)),
        (quantize(x, g) as int) % (grid_unit(g) as int) == 0,
{
    let u = grid_unit(g) as int;
    lemma_grid_unit_bounds(g);
    lemma_fundamental_div_mod(x as int, u);
    lemma_mod_pos_bound(x as int, u);
    lemma_mod_multiples_basic(x as int / u, u);
    assert(u * (x as int / u) == (x as int / u) * u) by (nonlinear_arith);
}

/// Rounding down to a grid a second time changes nothing.
pub proof fn lemma_round_down_idempotent(x: nat, g: Grid)
    ensures
        quantize(quantize(x, g), g) == quantize(x, g),
{
    lemma_quantize_facts(x, g);
}

/// Rounding down to a grid keeps the order of its inputs.
pub proof fn lemma_round_down_monotonic(x: nat, y: nat, g: Grid)
    requires
        x <= y,
    ensures
        quantize(x, g) <= quantize(y, g),
{
    let u = grid_unit(g) as int;
    lemma_quantize_facts(x, g);
    lemma_quantize_facts(y, g);
    lemma_div_is_ordered(x as int, y as int, u);
    lemma_mul_inequality(x as int / u, y as int / u, u);
    assert(u * (x as int / u) == (x as int / u) * u) by (nonlinear_arith);
    assert(u * (y as int / u) == (y as int / u) * u) by (nonlinear_arith);
}

/// The text denotes one: `1`, or `1.` followed by zeros only.
pub open spec fn is_one_text(s: Seq<char>) -> bool {
    s =~= seq!['1'] || (s.len() >= 2 && s[0] == '1' && s[1] == '.' && forall|i: int|
        2 <= i < s.len() ==> s[i] == '0')
}

/// The grid that a published step or tick text stands for: `NaN` leaves values
/// unset, a text that denotes one keeps no fractional digit, and any other
/// text keeps as many fractional digits as it has characters beyond its first
/// two (`0.001` keeps three, `0.00010` keeps five). `None` for a shorter text.
pub open spec fn grid_of_text(s: Seq<char>) -> Option<Grid> {
    if s =~= seq!['N', 'a', 'N'] {
        Some(Grid::Unset)
    } else if is_one_text(s) {
        Some(Grid::Digits(0))
    } else if 2 <= s.len() <= u32::MAX + 2 {
        Some(Grid::Digits((s.len() - 2) as u32))
    } else {
        None
    }
}

/// The grid that a published step or tick text stands for (see `grid_of_text`).
pub fn grid_from_text(text: &str) -> (r: Option<Grid>)
    ensures
        r == grid_of_text(text@),
{
    let n = text.unicode_len();
    if n == 3 && text.get_char(0) == 'N' && text.get_char(1) == 'a' && text.get_char(2) == 'N' {
        assert(text@ =~= seq!['N', 'a', 'N']);
        return Some(Grid::Unset);
    }
    if n == 1 && text.get_char(0) == '1' {
        assert(text@ =~= seq!['1']);
        return Some(Grid::Digits(0));
    }
    if n < 2 {
        return None;
    }
    if text.get_char(0) == '1' && text.get_char(1) == '.' {
        let mut i: usize = 2;
        while i < n
            invariant
                2 <= i <= n,
                n == text@.len(),
                forall|j: int| 2 <= j < i ==> text@[j] == '0',
            ensures
                2 <= i <= n,
                forall|j: int| 2 <= j < i ==> text@[j] == '0',
                i == n || text@[i as int] != '0',
            decreases n - i,
        {
            if text.get_char(i) != '0' {
                break;
            }
            i = i + 1;
        }
        if i == n {
            return Some(Grid::Digits(0));
        }
        assert(text@[i as int] != '0');
    }
    if n - 2 > u32::MAX as usize {
        return None;
    }
    Some(Grid::Digits((n - 2) as u32))
}

} // verus!
