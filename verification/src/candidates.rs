//! The piles that a draw chooses among: for each kind of slot, the positions
//! of the piles that can serve it, in order, and the rule that decides when a
//! rare slot is filled from the value piles. A random draw picks an entry of
//! one of these lists; everything else about the pick is fixed here.

use crate::models::{Pile, PileType, Rarity};
use crate::odds::rarity_at_least;
use crate::pack_gen::{
    energy_eligible, energy_type_of, has_energy, in_list, rare_or_better, trainer_eligible,
    value_eligible,
};
use crate::text::string_views;
use vstd::prelude::*;

verus! {

/// The positions of the items that `ok` accepts, in order.
pub open spec fn eligible_indices<T>(piles: Seq<T>, ok: spec_fn(T) -> bool) -> Seq<int>
    decreases piles.len(),
{
    if piles.len() == 0 {
        Seq::empty()
    } else {
        let r = eligible_indices(piles.drop_last(), ok);
        if ok(piles.last()) {
            r.push(piles.len() - 1)
        } else {
            r
        }
    }
}

/// Trainers piles with cards.
pub open spec fn trainer_pred() -> spec_fn(Pile) -> bool {
    |p: Pile| trainer_eligible(p)
}

/// Value piles with cards, at least as rare as `target`.
pub open spec fn value_pred(target: Rarity) -> spec_fn(Pile) -> bool {
    |p: Pile| value_eligible(p, target)
}

/// Energy piles with cards of type `t`, where `t` is not left out.
pub open spec fn energy_pred(out: Seq<String>, t: Seq<char>) -> spec_fn(Pile) -> bool {
    |p: Pile| energy_eligible(p, out) && energy_type_of(p) == t
}

/// The positions of the trainers piles a trainer slot can draw from.
pub open spec fn trainer_indices(piles: Seq<Pile>) -> Seq<int> {
    eligible_indices(piles, trainer_pred())
}

/// The positions of the value piles a slot that rolled `target` can draw from.
pub open spec fn value_indices(piles: Seq<Pile>, target: Rarity) -> Seq<int> {
    eligible_indices(piles, value_pred(target))
}

/// The positions of the energy piles of type `t` an energy slot can draw from.
pub open spec fn energy_indices(piles: Seq<Pile>, out: Seq<String>, t: Seq<char>) -> Seq<int> {
    eligible_indices(piles, energy_pred(out, t))
}

/// The energy types an energy slot can draw, each once, in the order of
/// their first pile.
pub open spec fn energy_types(piles: Seq<Pile>, out: Seq<String>) -> Seq<Seq<char>>
    decreases piles.len(),
{
    if piles.len() == 0 {
        Seq::empty()
    } else {
        let r = energy_types(piles.drop_last(), out);
        let p = piles.last();
        if energy_eligible(p, out) && !r.contains(energy_type_of(p)) {
            r.push(energy_type_of(p))
        } else {
            r
        }
    }
}

/// A rarity slot is filled from the value piles when some value pile is rare
/// enough, the slot rolled Rare or better, and the coin came up.
pub open spec fn value_pool_used(n_value: int, target: Rarity, coin: bool) -> bool {
    n_value > 0 && rare_or_better(target) && coin
}

/// The positions held in a list of indices.
pub open spec fn index_view(v: Seq<usize>) -> Seq<int> {
    v.map_values(|k: usize| k as int)
}

/// Law: the positions listed are exactly those of the items that `ok`
/// accepts, each once and in increasing order.
pub proof fn lemma_eligible_indices<T>(piles: Seq<T>, ok: spec_fn(T) -> bool)
    ensures
        forall|m: int|
            0 <= m < eligible_indices(piles, ok).len() ==> 0 <= #[trigger] eligible_indices(piles, ok)[m]
                < piles.len() && ok(piles[eligible_indices(piles, ok)[m]]),
        forall|m: int, n: int|
            0 <= m < n < eligible_indices(piles, ok).len() ==> #[trigger] eligible_indices(piles, ok)[m]
                < #[trigger] eligible_indices(piles, ok)[n],
        forall|k: int| 0 <= k < piles.len() && ok(#[trigger] piles[k]) ==> eligible_indices(piles, ok).contains(k),
    decreases piles.len(),
{
    if piles.len() > 0 {
        let pre = piles.drop_last();
        lemma_eligible_indices(pre, ok);
        let r = eligible_indices(pre, ok);
        assert forall|k: int| 0 <= k < piles.len() && ok(#[trigger] piles[k]) implies eligible_indices(
            piles,
            ok,
        ).contains(k) by {
            if k < piles.len() - 1 {
                assert(pre[k] == piles[k]);
                let m = choose|m: int| 0 <= m < r.len() && r[m] == k;
                if ok(piles.last()) {
                    assert(r.push(piles.len() - 1)[m] == k);
                }
            } else {
                assert(eligible_indices(piles, ok).last() == k);
            }
        }
        assert forall|m: int|
            0 <= m < eligible_indices(piles, ok).len() implies 0 <= #[trigger] eligible_indices(piles, ok)[m]
                < piles.len() && ok(piles[eligible_indices(piles, ok)[m]]) by {
            if m < r.len() {
                assert(eligible_indices(piles, ok)[m] == r[m]);
                assert(pre[r[m]] == piles[r[m]]);
            }
        }
    }
}

/// Law: every energy type listed has a pile to draw from, and some type is
/// listed whenever some energy pile can be drawn.
pub proof fn lemma_energy_types(piles: Seq<Pile>, out: Seq<String>)
    ensures
        forall|m: int|
            0 <= m < energy_types(piles, out).len() ==> exists|k: int|
                0 <= k < piles.len() && energy_eligible(#[trigger] piles[k], out) && energy_type_of(piles[k])
                    == #[trigger] energy_types(piles, out)[m],
        has_energy(piles, out) ==> energy_types(piles, out).len() > 0,
    decreases piles.len(),
{
    if piles.len() > 0 {
        let pre = piles.drop_last();
        lemma_energy_types(pre, out);
        let r = energy_types(pre, out);
        let last = piles.len() - 1;
        assert forall|m: int| 0 <= m < energy_types(piles, out).len() implies exists|k: int|
            0 <= k < piles.len() && energy_eligible(#[trigger] piles[k], out) && energy_type_of(piles[k])
                == #[trigger] energy_types(piles, out)[m] by {
            if m < r.len() {
                assert(energy_types(piles, out)[m] == r[m]);
                let k = choose|k: int|
                    0 <= k < pre.len() && energy_eligible(#[trigger] pre[k], out) && energy_type_of(pre[k])
                        == #[trigger] r[m];
                assert(pre[k] == piles[k]);
            } else {
                assert(energy_eligible(piles[last], out));
            }
        }
        if has_energy(piles, out) {
            let k = choose|k: int| 0 <= k < piles.len() && energy_eligible(#[trigger] piles[k], out);
            if k < last {
                assert(pre[k] == piles[k]);
                assert(has_energy(pre, out));
            }
        }
    }
}

/// Law: an energy type is listed exactly when an energy pile of that type
/// can be drawn, and then that type's pile list is not empty.
pub proof fn lemma_energy_type_has_piles(piles: Seq<Pile>, out: Seq<String>, m: int)
    requires
        0 <= m < energy_types(piles, out).len(),
    ensures
        energy_indices(piles, out, energy_types(piles, out)[m]).len() > 0,
{
    lemma_energy_types(piles, out);
    let t = energy_types(piles, out)[m];
    let k = choose|k: int|
        0 <= k < piles.len() && energy_eligible(#[trigger] piles[k], out) && energy_type_of(piles[k]) == t;
    lemma_eligible_indices(piles, energy_pred(out, t));
    assert(energy_pred(out, t)(piles[k]));
}

/// The positions of the trainers piles with cards, in order.
pub fn trainer_candidates(piles: &Vec<Pile>) -> (r: Vec<usize>)
    ensures
        index_view(r@) == trainer_indices(piles@),
{
    let mut r: Vec<usize> = Vec::new();
    let mut j: usize = 0;
    while j < piles.len()
        invariant
            j <= piles@.len(),
            index_view(r@) == trainer_indices(piles@.take(j as int)),
        decreases piles@.len() - j,
    {
        assert(piles@.take(j + 1).drop_last() =~= piles@.take(j as int));
        let p = &piles[j];
        if matches!(p.pile_type, PileType::Trainers) && p.estimated_count > 0 {
            let ghost before = r@;
            r.push(j);
            assert(index_view(r@) =~= index_view(before).push(j as int));
        }
        j = j + 1;
    }
    assert(piles@.take(j as int) =~= piles@);
    r
}

/// The positions of the value piles with cards that are at least as rare as
/// `target`, in order.
pub fn value_candidates(piles: &Vec<Pile>, target: Rarity) -> (r: Vec<usize>)
    ensures
        index_view(r@) == value_indices(piles@, target),
{
    let mut r: Vec<usize> = Vec::new();
    let mut j: usize = 0;
    while j < piles.len()
        invariant
            j <= piles@.len(),
            index_view(r@) == value_indices(piles@.take(j as int), target),
        decreases piles@.len() - j,
    {
        assert(piles@.take(j + 1).drop_last() =~= piles@.take(j as int));
        let p = &piles[j];
        match &p.pile_type {
            PileType::Value { price_rarity, rarity, .. } => {
                let effective = match rarity {
                    Some(r) => *r,
                    None => *price_rarity,
                };
                if p.estimated_count > 0 && rarity_at_least(effective, target) {
                    let ghost before = r@;
                    r.push(j);
                    assert(index_view(r@) =~= index_view(before).push(j as int));
                }
            },
            _ => {},
        }
        j = j + 1;
    }
    assert(piles@.take(j as int) =~= piles@);
    r
}

/// Whether some string of `list` equals `s`.
pub fn list_contains(list: &Vec<String>, s: &String) -> (b: bool)
    ensures
        b == in_list(list@, s@),
        b == string_views(list@).contains(s@),
{
    let mut j: usize = 0;
    while j < list.len()
        invariant
            j <= list@.len(),
            forall|m: int| 0 <= m < j ==> (#[trigger] list@[m])@ != s@,
        decreases list@.len() - j,
    {
        if list[j] == *s {
            assert(string_views(list@)[j as int] == s@);
            return true;
        }
        j = j + 1;
    }
    assert forall|m: int| 0 <= m < string_views(list@).len() implies string_views(list@)[m] != s@ by {
        assert(string_views(list@)[m] == list@[m]@);
    }
    false
}

/// The energy types that an energy slot can draw, each once, in the order of
/// their first pile: those of energy piles with cards that are not in `out`.
pub fn energy_type_candidates(piles: &Vec<Pile>, out: &Vec<String>) -> (r: Vec<String>)
    ensures
        string_views(r@) == energy_types(piles@, out@),
{
    let mut r: Vec<String> = Vec::new();
    let mut j: usize = 0;
    while j < piles.len()
        invariant
            j <= piles@.len(),
            string_views(r@) == energy_types(piles@.take(j as int), out@),
        decreases piles@.len() - j,
    {
        assert(piles@.take(j + 1).drop_last() =~= piles@.take(j as int));
        let p = &piles[j];
        match &p.pile_type {
            PileType::Energy { energy_type } => {
                if !list_contains(out, energy_type) && p.estimated_count > 0 && !list_contains(
                    &r,
                    energy_type,
                ) {
                    let ghost before = r@;
                    r.push(energy_type.clone());
                    assert(string_views(r@) =~= string_views(before).push(energy_type@));
                }
            },
            _ => {},
        }
        j = j + 1;
    }
    assert(piles@.take(j as int) =~= piles@);
    r
}

/// The positions of the energy piles of type `t` with cards, in order, where
/// `t` is not in `out`.
pub fn energy_piles_of_type(piles: &Vec<Pile>, out: &Vec<String>, t: &String) -> (r: Vec<usize>)
    ensures
        index_view(r@) == energy_indices(piles@, out@, t@),
{
    let mut r: Vec<usize> = Vec::new();
    let mut j: usize = 0;
    while j < piles.len()
        invariant
            j <= piles@.len(),
            index_view(r@) == energy_indices(piles@.take(j as int), out@, t@),
        decreases piles@.len() - j,
    {
        assert(piles@.take(j + 1).drop_last() =~= piles@.take(j as int));
        let p = &piles[j];
        match &p.pile_type {
            PileType::Energy { energy_type } => {
                if !list_contains(out, energy_type) && p.estimated_count > 0 && *energy_type == *t {
                    let ghost before = r@;
                    r.push(j);
                    assert(index_view(r@) =~= index_view(before).push(j as int));
                }
            },
            _ => {},
        }
        j = j + 1;
    }
    assert(piles@.take(j as int) =~= piles@);
    r
}

/// Whether a rarity slot that rolled `target` is filled from the value
/// piles, given how many value piles qualify and how the coin came up.
pub fn use_value_pool(n_value: usize, target: Rarity, coin: bool) -> (b: bool)
    ensures
        b == value_pool_used(n_value as int, target, coin),
{
    n_value > 0 && rarity_at_least(target, Rarity::Rare) && coin
}

/// `new` holds the items of `old` at positions `idx`, which increase: `new`
/// is `old` with some items left out and the rest in their order.
pub open spec fn subsequence_at<T>(old: Seq<T>, new: Seq<T>, idx: Seq<int>) -> bool {
    &&& idx.len() == new.len()
    &&& forall|i: int| 0 <= i < idx.len() ==> 0 <= #[trigger] idx[i] < old.len() && new[i] == old[idx[i]]
    &&& forall|i: int, j: int| 0 <= i < j < idx.len() ==> #[trigger] idx[i] < #[trigger] idx[j]
}

} // verus!
