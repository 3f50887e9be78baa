//! The chains in which the game links the trading offices: each office names
//! the next office of its town, and the next office of its merchant; an index
//! at or beyond the number of offices ends a chain.
use vstd::prelude::*;

use crate::mods::{autotrade_changes_from, autotrade_setting_changes, AutotradeSettingChange, AUTOTRADE_WARE_COUNT};

verus! {

/// The offices visited when following the links `next` from office `i` until an
/// index at or beyond the last office, or `None` if that takes more than `fuel`
/// steps.
pub open spec fn chain_from(next: Seq<u32>, i: int, fuel: nat) -> Option<Seq<u32>>
    decreases fuel,
{
    if i < 0 || i >= next.len() {
        Some(Seq::empty())
    } else if fuel == 0 {
        None
    } else {
        match chain_from(next, next[i] as int, (fuel - 1) as nat) {
            Some(rest) => Some(seq![i as u32] + rest),
            None => None,
        }
    }
}

/// Whether following the links from office `i` comes to an end (the game's
/// links never run in a circle).
pub open spec fn chain_ends(next: Seq<u32>, i: int) -> bool {
    exists|fuel: nat| #[trigger] chain_from(next, i, fuel) is Some
}

/// The offices of the chain that starts at office `i`, in order.
pub open spec fn office_chain_spec(next: Seq<u32>, i: int) -> Seq<u32> {
    chain_from(next, i, choose|fuel: nat| #[trigger] chain_from(next, i, fuel) is Some).unwrap()
}

/// Follows the links `next` from office `first` and lists the offices of the
/// chain, in order.
pub fn office_chain(next: &Vec<u32>, first: u32) -> (offices: Vec<u32>)
    requires
        chain_ends(next@, first as int),
    ensures
        offices@ == office_chain_spec(next@, first as int),
{
    let ghost f = choose|fuel: nat| #[trigger] chain_from(next@, first as int, fuel) is Some;
    let ghost total = chain_from(next@, first as int, f).unwrap();
    let mut offices: Vec<u32> = vec![];
    let mut i: u32 = first;
    let ghost mut fuel: nat = f;
    while (i as usize) < next.len()
        invariant
            chain_from(next@, i as int, fuel) is Some,
            offices@ + chain_from(next@, i as int, fuel).unwrap() == total,
        decreases fuel,
    {
        let ghost before = offices@;
        let ghost rest = chain_from(next@, i as int, fuel).unwrap();
        offices.push(i);
        let n = next[i as usize];
        proof {
            fuel = (fuel - 1) as nat;
            assert(rest == seq![i] + chain_from(next@, n as int, fuel).unwrap());
            assert(offices@ + chain_from(next@, n as int, fuel).unwrap() =~= before + rest);
        }
        i = n;
    }
    assert(offices@ + Seq::<u32>::empty() =~= offices@);
    offices
}

/// The orders that copy the trading settings of the office `setting` to every
/// other office of the chain `chain`, office by office; `stocks` holds each
/// office's own stock limits.
pub open spec fn synchronization_changes(
    chain: Seq<u32>,
    setting: u32,
    setting_stock: Seq<i32>,
    setting_prices: Seq<i32>,
    scalings: Seq<i32>,
    stocks: Seq<Vec<i32>>,
) -> Seq<AutotradeSettingChange>
    decreases chain.len(),
{
    if chain.len() == 0 {
        Seq::empty()
    } else {
        let o = chain.last();
        synchronization_changes(chain.drop_last(), setting, setting_stock, setting_prices, scalings, stocks) + if o
            == setting {
            Seq::empty()
        } else {
            autotrade_changes_from(
                setting_stock,
                setting_prices,
                scalings,
                o,
                stocks[o as int]@,
                AUTOTRADE_WARE_COUNT as int,
            )
        }
    }
}

/// The orders that give every office of the merchant, whose chain of offices
/// starts at `first` and is linked by `next`, the trading settings of the
/// office `setting`, for every ware that office trades.
pub fn autotrade_synchronization(
    next: &Vec<u32>,
    first: u32,
    setting: u32,
    setting_stock: &[i32],
    setting_prices: &[i32],
    scalings: &[i32],
    stocks: &Vec<Vec<i32>>,
) -> (changes: Vec<AutotradeSettingChange>)
    requires
        chain_ends(next@, first as int),
        stocks@.len() == next@.len(),
        forall|o: int| 0 <= o < stocks@.len() ==> (#[trigger] stocks@[o])@.len() >= AUTOTRADE_WARE_COUNT,
        setting_stock@.len() >= AUTOTRADE_WARE_COUNT,
        setting_prices@.len() >= AUTOTRADE_WARE_COUNT,
        scalings@.len() >= AUTOTRADE_WARE_COUNT,
        forall|w: int| 0 <= w < AUTOTRADE_WARE_COUNT ==> #[trigger] scalings@[w] > 0,
    ensures
        changes@ == synchronization_changes(
            office_chain_spec(next@, first as int),
            setting,
            setting_stock@,
            setting_prices@,
            scalings@,
            stocks@,
        ),
{
    let chain = office_chain(next, first);
    proof {
        lemma_chain_in_range(next@, first as int, choose|fuel: nat| #[trigger] chain_from(next@, first as int, fuel) is Some);
    }
    let mut changes: Vec<AutotradeSettingChange> = vec![];
    let mut k: usize = 0;
    while k < chain.len()
        invariant
            k <= chain@.len(),
            stocks@.len() == next@.len(),
            forall|j: int| 0 <= j < chain@.len() ==> (#[trigger] chain@[j]) < next@.len(),
            forall|o: int| 0 <= o < stocks@.len() ==> (#[trigger] stocks@[o])@.len() >= AUTOTRADE_WARE_COUNT,
            setting_stock@.len() >= AUTOTRADE_WARE_COUNT,
            setting_prices@.len() >= AUTOTRADE_WARE_COUNT,
            scalings@.len() >= AUTOTRADE_WARE_COUNT,
            forall|w: int| 0 <= w < AUTOTRADE_WARE_COUNT ==> #[trigger] scalings@[w] > 0,
            changes@ == synchronization_changes(
                chain@.take(k as int),
                setting,
                setting_stock@,
                setting_prices@,
                scalings@,
                stocks@,
            ),
        decreases chain@.len() - k,
    {
        let o = chain[k];
        assert(chain@.take(k + 1).drop_last() =~= chain@.take(k as int));
        if o != setting {
            assert(o < next@.len());
            let mut office_changes = autotrade_setting_changes(
                setting_stock,
                setting_prices,
                scalings,
                o,
                stocks[o as usize].as_slice(),
            );
            changes.append(&mut office_changes);
        } else {
            assert(changes@ =~= changes@ + Seq::<AutotradeSettingChange>::empty());
        }
        k += 1;
    }
    assert(chain@.take(chain@.len() as int) =~= chain@);
    changes
}

/// Every office of a chain exists: its index lies below the number of offices.
pub proof fn lemma_chain_in_range(next: Seq<u32>, i: int, fuel: nat)
    requires
        chain_from(next, i, fuel) is Some,
    ensures
        forall|j: int|
            0 <= j < chain_from(next, i, fuel).unwrap().len() ==> (#[trigger] chain_from(next, i, fuel).unwrap()[j])
                < next.len(),
    decreases fuel,
{
    if 0 <= i < next.len() {
        lemma_chain_in_range(next, next[i] as int, (fuel - 1) as nat);
        let rest = chain_from(next, next[i] as int, (fuel - 1) as nat).unwrap();
        let all = chain_from(next, i, fuel).unwrap();
        assert forall|j: int| 0 <= j < all.len() implies (#[trigger] all[j]) < next.len() by {
            if j > 0 {
                assert(all[j] == rest[j - 1]);
            }
        }
    }
}

} // verus!
