//! The puzzle of the five coins: in which order do they satisfy
//! `a + b * c^2 + d^3 - e = 399`?

use vstd::prelude::*;
use itertools::Itertools;

verus! {

/// One of the five coins. Each stands for a number.
#[derive(Clone, Copy, Debug, PartialEq, Eq, Structural)]
pub enum Coin {
    Blue,
    Red,
    Corroded,
    Concave,
    Shiny,
}

impl Coin {
    /// The number that the coin stands for.
    pub open spec fn spec_value(&self) -> u16 {
        match self {
            Coin::Blue => 9,
            Coin::Red => 2,
            Coin::Corroded => 3,
            Coin::Concave => 7,
            Coin::Shiny => 5,
        }
    }

    /// The number that the coin stands for.
    #[verifier::when_used_as_spec(spec_value)]
    pub fn value(&self) -> (v: u16)
        ensures
            v == self.spec_value(),
    {
        match self {
            Coin::Blue => 9,
            Coin::Red => 2,
            Coin::Corroded => 3,
            Coin::Concave => 7,
            Coin::Shiny => 5,
        }
    }
}

/// The five coins, in the order in which they are tried.
pub open spec fn all_coins() -> Seq<Coin> {
    seq![Coin::Blue, Coin::Red, Coin::Corroded, Coin::Concave, Coin::Shiny]
}

/// Whether `coins` are five coins that, taken in order as a, b, c, d and e,
/// satisfy `a + b * c^2 + d^3 - e = 399`.
pub open spec fn solves(coins: Seq<Coin>) -> bool {
    &&& coins.len() == 5
    &&& coins[0].value() + coins[1].value() * (coins[2].value() * coins[2].value())
        + coins[3].value() * (coins[3].value() * coins[3].value()) - coins[4].value() == 399
}

/// The arrangements as sequences of coins.
pub open spec fn rows(arrangements: Seq<Vec<Coin>>) -> Seq<Seq<Coin>> {
    arrangements.map_values(|row: Vec<Coin>| row@)
}

/// The arrangements of `k` of the `coins` in the order in which
/// `Itertools::permutations` yields them.
pub uninterp spec fn coin_permutations(coins: Seq<Coin>, k: nat) -> Seq<Seq<Coin>>;

/// All arrangements of `k` of the `coins`, by `Itertools::permutations`.
///
/// Trusted: the result is what that iterator yields, collected, and each
/// arrangement it yields holds `k` coins. The bound on the number of coins
/// keeps the collected result small.
#[verifier::external_body]
fn permutations(coins: &Vec<Coin>, k: usize) -> (r: Vec<Vec<Coin>>)
    requires
        coins@.len() <= 8,
    ensures
        rows(r@) == coin_permutations(coins@, k as nat),
        forall|i: int| 0 <= i < r@.len() ==> (#[trigger] r@[i])@.len() == k,
{
    coins.iter().copied().permutations(k).collect()
}

proof fn lemma_cube_bound(x: u16, y: u16, z: u16)
    requires
        x <= 9,
        y <= 9,
        z <= 9,
    ensures
        y * z <= 81,
        x * (y * z) <= 729,
{
    assert(y * z <= 81) by (nonlinear_arith)
        requires
            y <= 9,
            z <= 9,
    ;
    assert(x * (y * z) <= 729) by (nonlinear_arith)
        requires
            x <= 9,
            y * z <= 81,
    ;
}

/// Whether `coins` solve the equation.
pub fn is_solution(coins: &Vec<Coin>) -> (b: bool)
    ensures
        b == solves(coins@),
{
    if coins.len() != 5 {
        return false;
    }
    let a: u16 = coins[0].value();
    let b: u16 = coins[1].value();
    let c: u16 = coins[2].value();
    let d: u16 = coins[3].value();
    let e: u16 = coins[4].value();
    proof {
        lemma_cube_bound(b, c, c);
        lemma_cube_bound(d, d, d);
    }
    a + b * (c * c) + d * (d * d) - e == 399
}

/// Those of `candidates` that solve the equation, in their order.
pub fn select_solutions(candidates: &Vec<Vec<Coin>>) -> (r: Vec<Vec<Coin>>)
    ensures
        rows(r@) == rows(candidates@).filter(|coins: Seq<Coin>| solves(coins)),
{
    let ghost pred = |coins: Seq<Coin>| solves(coins);
    let mut found: Vec<Vec<Coin>> = Vec::new();
    proof {
        reveal(Seq::filter);
        assert(rows(candidates@).take(0) =~= Seq::<Seq<Coin>>::empty());
        assert(rows(found@) =~= Seq::<Seq<Coin>>::empty());
    }
    for i in 0..candidates.len()
        invariant
            pred == |coins: Seq<Coin>| solves(coins),
            rows(found@) == rows(candidates@).take(i as int).filter(pred),
    {
        let candidate: &Vec<Coin> = &candidates[i];
        let ghost so_far = rows(candidates@).take(i as int);
        let ghost longer = rows(candidates@).take(i + 1);
        proof {
            reveal(Seq::filter);
            assert(longer.drop_last() =~= so_far);
            assert(longer.last() == candidate@);
        }
        if is_solution(candidate) {
            let mut row: Vec<Coin> = Vec::new();
            for j in 0..candidate.len()
                invariant
                    row@ == candidate@.take(j as int),
            {
                row.push(candidate[j]);
                assert(row@ =~= candidate@.take(j + 1));
            }
            assert(row@ =~= candidate@);
            let ghost earlier = rows(found@);
            found.push(row);
            assert(rows(found@) =~= earlier.push(candidate@));
        }
    }
    assert(rows(candidates@).take(candidates@.len() as int) =~= rows(candidates@));
    found
}

/// The arrangements of the five coins that solve the equation.
pub fn solve_equation() -> (r: Vec<Vec<Coin>>)
    ensures
        rows(r@) == coin_permutations(all_coins(), 5).filter(|coins: Seq<Coin>| solves(coins)),
{
    let coins: Vec<Coin> = vec![Coin::Blue, Coin::Red, Coin::Corroded, Coin::Concave, Coin::Shiny];
    assert(coins@ =~= all_coins());
    let candidates: Vec<Vec<Coin>> = permutations(&coins, 5);
    select_solutions(&candidates)
}

} // verus!
