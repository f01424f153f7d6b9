//! Pack layouts and odds: slot order and rarity rolls.
//!
//! The Modern 5-card layout follows Scarlet & Violet style packs: the rare is
//! in the last slot, the rest are common/uncommon. Other pack types are not
//! implemented yet.

use crate::models::{PackTypeId, Rarity};
use crate::rng::gen_range_u32;
use rand::rngs::StdRng;
use vstd::prelude::*;

verus! {

/// Role of a slot in the physical pack.
#[derive(Debug, Clone, Copy, PartialEq, Eq, Structural)]
pub enum SlotRole {
    Common,
    Uncommon,
    Rare,
    Energy,
    Trainer,
}

/// Per-slot config: role and the weights of the rarity put there.
/// e.g. `[(Common, 90), (Uncommon, 10)]` means 90% common, 10% uncommon.
#[derive(Debug, Clone)]
pub struct SlotOdds {
    pub role: SlotRole,
    pub rarity_weights: Vec<(Rarity, u32)>,
}

/// Full layout for a pack type: number of slots and odds per slot (0-based).
pub struct PackLayout {
    pub slot_count: u32,
    pub slots: Vec<SlotOdds>,
}

/// Role of each slot of the Modern layout, in physical order.
pub open spec fn modern_role(i: int, add_energy: bool) -> SlotRole {
    if i == 0 {
        SlotRole::Common
    } else if i == 1 {
        if add_energy { SlotRole::Energy } else { SlotRole::Common }
    } else if i == 2 {
        SlotRole::Trainer
    } else if i == 3 {
        SlotRole::Uncommon
    } else {
        SlotRole::Rare
    }
}

/// Rarity weights of each slot of the Modern layout.
pub open spec fn modern_weights(i: int, add_energy: bool) -> Seq<(Rarity, u32)> {
    if i == 0 || (i == 1 && !add_energy) {
        seq![(Rarity::Common, 90u32), (Rarity::Uncommon, 10u32)]
    } else if i == 1 || i == 2 {
        seq![(Rarity::Common, 1u32)]
    } else if i == 3 {
        seq![(Rarity::Common, 25u32), (Rarity::Uncommon, 75u32)]
    } else {
        seq![(Rarity::Rare, 800u32), (Rarity::DoubleRare, 140u32), (Rarity::UltraRare, 60u32)]
    }
}

/// `layout` is the Modern 5-card layout.
pub open spec fn is_modern_layout(layout: PackLayout, add_energy: bool) -> bool {
    &&& layout.slot_count == 5
    &&& layout.slots@.len() == 5
    &&& forall|i: int|
        0 <= i < 5 ==> {
            &&& (#[trigger] layout.slots@[i]).role == modern_role(i, add_energy)
            &&& layout.slots@[i].rarity_weights@ == modern_weights(i, add_energy)
        }
}

impl PackLayout {
    /// The layout for the given pack type; `None` for types not implemented.
    /// When `add_energy` is true, slot 2 (index 1) is an energy slot.
    pub fn for_pack_type(id: PackTypeId, add_energy: bool) -> (r: Option<PackLayout>)
        ensures
            r is Some <==> id == PackTypeId::Modern,
            r matches Some(layout) ==> is_modern_layout(layout, add_energy),
    {
        match id {
            PackTypeId::Modern => Some(modern_5_card_layout(add_energy)),
            PackTypeId::Classic | PackTypeId::Legacy => None,
        }
    }
}

/// Modern 5-card layout: slot 5 (index 4) is the rare slot, slot 3 the
/// trainer slot; slot 2 is an energy slot when `add_energy` is true.
pub fn modern_5_card_layout(add_energy: bool) -> (layout: PackLayout)
    ensures
        is_modern_layout(layout, add_energy),
{
    let slot2 = if add_energy {
        SlotOdds { role: SlotRole::Energy, rarity_weights: vec![(Rarity::Common, 1)] }
    } else {
        SlotOdds {
            role: SlotRole::Common,
            rarity_weights: vec![(Rarity::Common, 90), (Rarity::Uncommon, 10)],
        }
    };
    let slot1 = SlotOdds {
        role: SlotRole::Common,
        rarity_weights: vec![(Rarity::Common, 90), (Rarity::Uncommon, 10)],
    };
    let slot3 = SlotOdds { role: SlotRole::Trainer, rarity_weights: vec![(Rarity::Common, 1)] };
    let slot4 = SlotOdds {
        role: SlotRole::Uncommon,
        rarity_weights: vec![(Rarity::Common, 25), (Rarity::Uncommon, 75)],
    };
    let slot5 = SlotOdds {
        role: SlotRole::Rare,
        rarity_weights: vec![
            (Rarity::Rare, 800),
            (Rarity::DoubleRare, 140),
            (Rarity::UltraRare, 60),
        ],
    };
    proof {
        assert(slot1.rarity_weights@ =~= modern_weights(0, add_energy));
        assert(slot2.rarity_weights@ =~= modern_weights(1, add_energy));
        assert(slot3.rarity_weights@ =~= modern_weights(2, add_energy));
        assert(slot4.rarity_weights@ =~= modern_weights(3, add_energy));
        assert(slot5.rarity_weights@ =~= modern_weights(4, add_energy));
    }
    let slots = vec![slot1, slot2, slot3, slot4, slot5];
    PackLayout { slot_count: 5, slots }
}

/// Sum of the weights.
pub open spec fn weight_total(ws: Seq<(Rarity, u32)>) -> nat
    decreases ws.len(),
{
    if ws.len() == 0 {
        0
    } else {
        weight_total(ws.drop_last()) + (ws.last().1 as nat)
    }
}

/// The rarity whose weight band holds `roll`, walking the bands in order;
/// `None` when `roll` lies past all of them.
pub open spec fn band_for_roll(ws: Seq<(Rarity, u32)>, roll: int) -> Option<Rarity>
    decreases ws.len(),
{
    if ws.len() == 0 {
        None
    } else if roll < ws[0].1 {
        Some(ws[0].0)
    } else {
        band_for_roll(ws.drop_first(), roll - ws[0].1)
    }
}

/// The rarity rolled with `roll`: the band that holds it, or else the last
/// rarity listed, or else Common.
pub open spec fn rarity_for_roll_spec(ws: Seq<(Rarity, u32)>, roll: int) -> Rarity {
    match band_for_roll(ws, roll) {
        Some(r) => r,
        None => if ws.len() > 0 { ws.last().0 } else { Rarity::Common },
    }
}

/// The rarity rolled with `roll` (see `rarity_for_roll_spec`).
pub fn rarity_for_roll(rarity_weights: &Vec<(Rarity, u32)>, roll: u32) -> (r: Rarity)
    ensures
        r == rarity_for_roll_spec(rarity_weights@, roll as int),
{
    let ghost ws = rarity_weights@;
    let mut rest: u32 = roll;
    let mut i: usize = 0;
    assert(ws.skip(0) =~= ws);
    while i < rarity_weights.len()
        invariant
            ws == rarity_weights@,
            i <= ws.len(),
            band_for_roll(ws, roll as int) == band_for_roll(ws.skip(i as int), rest as int),
        decreases ws.len() - i,
    {
        let (rarity, weight) = rarity_weights[i];
        assert(ws.skip(i as int)[0] == ws[i as int]);
        assert(ws.skip(i as int).drop_first() =~= ws.skip(i + 1));
        if rest < weight {
            return rarity;
        }
        rest = rest - weight;
        i = i + 1;
    }
    assert(ws.skip(i as int).len() == 0);
    if rarity_weights.len() > 0 {
        rarity_weights[rarity_weights.len() - 1].0
    } else {
        Rarity::Common
    }
}

/// Lemma: the total of a prefix grows by the next weight.
proof fn lemma_weight_total_take(ws: Seq<(Rarity, u32)>, i: int)
    requires
        0 <= i < ws.len(),
    ensures
        weight_total(ws.take(i + 1)) == weight_total(ws.take(i)) + ws[i].1,
        weight_total(ws.take(i)) <= weight_total(ws.take(i + 1)),
{
    assert(ws.take(i + 1).drop_last() =~= ws.take(i));
}

/// Law: every roll below the total weight falls into one of the weight
/// bands, so a roll never falls back to a default rarity.
pub proof fn lemma_band_covers(ws: Seq<(Rarity, u32)>, roll: int)
    requires
        0 <= roll < weight_total(ws),
    ensures
        band_for_roll(ws, roll) is Some,
    decreases ws.len(),
{
    if ws.len() > 0 && roll >= ws[0].1 {
        lemma_weight_total_drop_first(ws);
        lemma_band_covers(ws.drop_first(), roll - ws[0].1);
    }
}

/// Lemma: the total is the first weight plus the total of the rest.
proof fn lemma_weight_total_drop_first(ws: Seq<(Rarity, u32)>)
    requires
        ws.len() > 0,
    ensures
        weight_total(ws) == ws[0].1 + weight_total(ws.drop_first()),
    decreases ws.len(),
{
    if ws.len() > 1 {
        lemma_weight_total_drop_first(ws.drop_last());
        assert(ws.drop_last().drop_first() =~= ws.drop_first().drop_last());
        assert(ws.drop_last()[0] == ws[0]);
        assert(ws.drop_first().last() == ws.last());
        assert(weight_total(ws) == weight_total(ws.drop_last()) + ws.last().1);
        assert(weight_total(ws.drop_first()) == weight_total(ws.drop_first().drop_last())
            + ws.drop_first().last().1);
    } else {
        assert(ws.drop_first().len() == 0);
        assert(ws.drop_last().len() == 0);
        assert(weight_total(ws.drop_last()) == 0);
        assert(weight_total(ws.drop_first()) == 0);
        assert(ws.last() == ws[0]);
    }
}

/// The total weight of a slot's odds: the bound of the roll for that slot.
pub fn slot_weight_total(slot_odds: &SlotOdds) -> (total: u32)
    requires
        weight_total(slot_odds.rarity_weights@) <= u32::MAX,
    ensures
        total == weight_total(slot_odds.rarity_weights@),
{
    let ghost ws = slot_odds.rarity_weights@;
    let mut total: u32 = 0;
    let mut i: usize = 0;
    while i < slot_odds.rarity_weights.len()
        invariant
            ws == slot_odds.rarity_weights@,
            i <= ws.len(),
            total == weight_total(ws.take(i as int)),
            weight_total(ws) <= u32::MAX,
        decreases ws.len() - i,
    {
        proof {
            lemma_weight_total_take(ws, i as int);
            lemma_weight_total_prefix_bound(ws, i + 1);
        }
        total = total + slot_odds.rarity_weights[i].1;
        i = i + 1;
    }
    assert(ws.take(i as int) =~= ws);
    total
}

/// Roll a rarity for a slot given its odds: a roll in `0..total` is drawn and
/// mapped to the band that holds it.
pub fn roll_rarity_for_slot(slot_odds: &SlotOdds, rng: &mut StdRng) -> (r: Rarity)
    requires
        0 < weight_total(slot_odds.rarity_weights@) <= u32::MAX,
    ensures
        exists|roll: int|
            0 <= roll < weight_total(slot_odds.rarity_weights@) && r == #[trigger] rarity_for_roll_spec(
                slot_odds.rarity_weights@,
                roll,
            ),
{
    let total = slot_weight_total(slot_odds);
    let roll = gen_range_u32(rng, 0, total);
    rarity_for_roll(&slot_odds.rarity_weights, roll)
}

/// Lemma: a prefix total is at most the whole total.
proof fn lemma_weight_total_prefix_bound(ws: Seq<(Rarity, u32)>, i: int)
    requires
        0 <= i <= ws.len(),
    ensures
        weight_total(ws.take(i)) <= weight_total(ws),
    decreases ws.len() - i,
{
    if i < ws.len() {
        lemma_weight_total_take(ws, i);
        lemma_weight_total_prefix_bound(ws, i + 1);
    } else {
        assert(ws.take(i) =~= ws);
    }
}

/// Rank of a rarity, from Common (0) to UltraRare (4).
pub open spec fn rarity_rank(r: Rarity) -> int {
    match r {
        Rarity::Common => 0,
        Rarity::Uncommon => 1,
        Rarity::Rare => 2,
        Rarity::DoubleRare => 3,
        Rarity::UltraRare => 4,
    }
}

/// Whether a value pile's rarity is at least as high as the target, so that
/// it may serve a slot that rolled the target.
pub fn rarity_at_least(pile_rarity: Rarity, target: Rarity) -> (b: bool)
    ensures
        b == (rarity_rank(pile_rarity) >= rarity_rank(target)),
{
    rank(pile_rarity) >= rank(target)
}

fn rank(r: Rarity) -> (n: u8)
    ensures
        n == rarity_rank(r),
{
    match r {
        Rarity::Common => 0,
        Rarity::Uncommon => 1,
        Rarity::Rare => 2,
        Rarity::DoubleRare => 3,
        Rarity::UltraRare => 4,
    }
}

/// Law: "at least as rare as" is a total order on rarities: reflexive,
/// antisymmetric, transitive and total.
pub proof fn lemma_rarity_order(a: Rarity, b: Rarity, c: Rarity)
    ensures
        rarity_rank(a) >= rarity_rank(a),
        rarity_rank(a) >= rarity_rank(b) && rarity_rank(b) >= rarity_rank(a) ==> a == b,
        rarity_rank(a) >= rarity_rank(b) && rarity_rank(b) >= rarity_rank(c) ==> rarity_rank(a)
            >= rarity_rank(c),
        rarity_rank(a) >= rarity_rank(b) || rarity_rank(b) >= rarity_rank(a),
{
}

/// Law: the rarity listed at place `j` owns the `ws[j].1` rolls that follow
/// the weights before it, all below the total: every roll in that band gives
/// that rarity. So a roll drawn uniformly below the total (as
/// `roll_rarity_for_slot` draws it) gives the rarity at place `j` at least
/// with chance `ws[j].1 / total`, and exactly so when no other place lists it.
pub proof fn lemma_band_owns_its_weight(ws: Seq<(Rarity, u32)>, j: int, roll: int)
    requires
        0 <= j < ws.len(),
        weight_total(ws.take(j)) <= roll < weight_total(ws.take(j)) + ws[j].1,
    ensures
        band_for_roll(ws, roll) == Some(ws[j].0),
        rarity_for_roll_spec(ws, roll) == ws[j].0,
        roll < weight_total(ws),
    decreases j,
{
    lemma_weight_total_take(ws, j);
    lemma_weight_total_prefix_bound(ws, j + 1);
    if j == 0 {
        assert(ws.take(0).len() == 0);
    } else {
        let t = ws.drop_first();
        lemma_weight_total_drop_first(ws.take(j));
        assert(ws.take(j).drop_first() =~= t.take(j - 1));
        assert(ws.take(j)[0] == ws[0]);
        assert(t[j - 1] == ws[j]);
        lemma_band_owns_its_weight(t, j - 1, roll - ws[0].1);
    }
}

} // verus!
