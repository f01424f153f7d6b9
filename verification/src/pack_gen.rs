//! Pack generation: roll slots, pick piles, produce A/B instructions,
//! decrement the estimated counts.

use crate::candidates::{
    eligible_indices,
    energy_indices, energy_pred, energy_piles_of_type, energy_type_candidates, energy_types,
    index_view, lemma_eligible_indices, lemma_energy_type_has_piles, lemma_energy_types,
    trainer_candidates, trainer_indices, trainer_pred, use_value_pool, value_candidates,
    value_indices, value_pool_used, value_pred,
};
use crate::models::{
    effective_value_rarity, PackTypeId, Pile, PileType, Rarity, CRITICAL_LOW_THRESHOLD,
};
use crate::odds::{
    band_for_roll, modern_role, modern_weights, rarity_at_least, rarity_for_roll_spec,
    rarity_rank, roll_rarity_for_slot, weight_total, PackLayout, SlotRole,
};
use crate::rng::{gen_range_u32, gen_range_usize, gen_ratio};
use crate::selection::{
    ab_instruction_for_index, generate_ab_instruction, valid_instruction, AbInstruction,
};
use crate::state::{has_id, is_first_with_id, position_of_id, total_count, unique_ids, PersistedState};
use crate::text::{decimal, join_strings, seq_join, string_views, u32_to_string};
use rand::rngs::StdRng;
use vstd::prelude::*;

verus! {

/// One card slot of a generated pack: which pile to use and the A/B instruction.
#[derive(Debug, Clone)]
pub struct SlotInstruction {
    /// 1-based physical slot number (order to fill).
    pub slot_number: u32,
    /// Human-readable slot role (e.g. "Common", "Rare", "Energy").
    pub slot_role: String,
    pub pile_id: u128,
    pub pile_name: String,
    pub instruction: AbInstruction,
}

/// Result of generating one pack: instructions per slot and a warning when
/// some piles run low.
#[derive(Debug, Clone)]
pub struct PackResult {
    pub slots: Vec<SlotInstruction>,
    pub warning: Option<String>,
}

pub open spec fn trainer_eligible(p: Pile) -> bool {
    p.pile_type is Trainers && p.estimated_count > 0
}

/// Some string of `list` reads `t`.
pub open spec fn in_list(list: Seq<String>, t: Seq<char>) -> bool {
    exists|j: int| 0 <= j < list.len() && (#[trigger] list[j])@ == t
}

/// An energy pile with cards, whose type is not left out.
pub open spec fn energy_eligible(p: Pile, out: Seq<String>) -> bool {
    match p.pile_type {
        PileType::Energy { energy_type } => !in_list(out, energy_type@) && p.estimated_count > 0,
        _ => false,
    }
}

pub open spec fn bulk_eligible(p: Pile) -> bool {
    p.pile_type is Bulk && p.estimated_count > 0
}

/// A value pile with cards whose rarity is at least `target`.
pub open spec fn value_eligible(p: Pile, target: Rarity) -> bool {
    match p.pile_type {
        PileType::Value { price_rarity, rarity, .. } => p.estimated_count > 0 && rarity_rank(
            effective_value_rarity(price_rarity, rarity),
        ) >= rarity_rank(target),
        _ => false,
    }
}

pub open spec fn rare_or_better(r: Rarity) -> bool {
    rarity_rank(r) >= rarity_rank(Rarity::Rare)
}

pub open spec fn has_trainer(piles: Seq<Pile>) -> bool {
    exists|k: int| 0 <= k < piles.len() && trainer_eligible(#[trigger] piles[k])
}

pub open spec fn has_energy(piles: Seq<Pile>, out: Seq<String>) -> bool {
    exists|k: int| 0 <= k < piles.len() && energy_eligible(#[trigger] piles[k], out)
}

pub open spec fn has_bulk(piles: Seq<Pile>) -> bool {
    exists|k: int| 0 <= k < piles.len() && bulk_eligible(#[trigger] piles[k])
}

/// Total estimated count of the bulk piles.
pub open spec fn bulk_total(piles: Seq<Pile>) -> nat
    decreases piles.len(),
{
    if piles.len() == 0 {
        0
    } else {
        bulk_total(piles.drop_last()) + if bulk_eligible(piles.last()) {
            piles.last().estimated_count as nat
        } else {
            0
        }
    }
}

/// `t` can come out of a roll with weights `ws`.
pub open spec fn rolled(ws: Seq<(Rarity, u32)>, t: Rarity) -> bool {
    exists|roll: int| 0 <= roll < weight_total(ws) && t == #[trigger] rarity_for_roll_spec(ws, roll)
}

/// Pile `p` may fill slot `i` of the Modern layout: an energy slot takes an
/// energy pile not left out, the trainer slot a trainers pile, and a rarity
/// slot a bulk pile, or, when the rolled rarity is Rare or better, a value
/// pile at least that rare.
pub open spec fn serves_slot(p: Pile, i: int, s: crate::models::Settings) -> bool {
    let ae = s.add_energy_to_packs;
    match modern_role(i, ae) {
        SlotRole::Energy => energy_eligible(p, s.energy_types_out@),
        SlotRole::Trainer => trainer_eligible(p),
        _ => exists|t: Rarity|
            #[trigger] rolled(modern_weights(i, ae), t) && (bulk_eligible(p) || (rare_or_better(t)
                && value_eligible(p, t))),
    }
}

pub open spec fn role_label(role: SlotRole) -> Seq<char> {
    match role {
        SlotRole::Common => "Common"@,
        SlotRole::Uncommon => "Uncommon"@,
        SlotRole::Rare => "Rare"@,
        SlotRole::Energy => "Energy"@,
        SlotRole::Trainer => "Trainer"@,
    }
}

/// Pile `k` is what the draws for slot `i` of the Modern layout can give:
/// for an energy slot an entry of the pile list of one of the energy types,
/// for the trainer slot an entry of the trainers list, and for a rarity slot
/// the pick for some rolled rarity and some outcome of the coin.
pub open spec fn drawn_for_slot(piles: Seq<Pile>, k: int, i: int, s: crate::models::Settings) -> bool {
    let ae = s.add_energy_to_packs;
    let out = s.energy_types_out@;
    match modern_role(i, ae) {
        SlotRole::Energy => exists|t: int, pick: int|
            0 <= t < energy_types(piles, out).len() && 0 <= pick < energy_indices(
                piles,
                out,
                energy_types(piles, out)[t],
            ).len() && k == #[trigger] energy_indices(piles, out, #[trigger] energy_types(piles, out)[t])[pick],
        SlotRole::Trainer => exists|pick: int|
            0 <= pick < trainer_indices(piles).len() && k == #[trigger] trainer_indices(piles)[pick],
        _ => exists|t: Rarity, coin: bool|
            rolled(modern_weights(i, ae), t) && #[trigger] card_slot_pick(piles, t, coin, k),
    }
}

/// `slot` is slot `i` of a pack drawn from pile `k` of `s`.
pub open spec fn slot_filled_from(slot: SlotInstruction, i: int, s: PersistedState, k: int) -> bool {
    &&& 0 <= k < s.piles@.len()
    &&& slot.slot_number == i + 1
    &&& slot.slot_role@ == role_label(modern_role(i, s.settings.add_energy_to_packs))
    &&& slot.pile_id == s.piles@[k].id
    &&& slot.pile_name == s.piles@[k].name
    &&& serves_slot(s.piles@[k], i, s.settings)
    &&& drawn_for_slot(s.piles@, k, i, s.settings)
    &&& valid_instruction(slot.instruction, s.piles@[k].estimated_count as int)
}

pub open spec fn slot_ok(slot: SlotInstruction, i: int, s: PersistedState) -> bool {
    exists|k: int| #[trigger] slot_filled_from(slot, i, s, k)
}

/// Why no pack can be drawn from `s`, if that is so.
pub open spec fn pack_error(s: PersistedState) -> Option<Seq<char>> {
    if s.settings.pack_type != PackTypeId::Modern {
        Some("Pack type not implemented"@)
    } else if !has_bulk(s.piles@) {
        Some("No bulk piles available"@)
    } else if s.settings.add_energy_to_packs && !has_energy(
        s.piles@,
        s.settings.energy_types_out@,
    ) {
        Some("No energy piles available (or all marked out)"@)
    } else if !has_trainer(s.piles@) {
        Some("No trainers pile available"@)
    } else {
        None
    }
}

/// How many slots were drawn from the pile with id `id`.
pub open spec fn times_picked(slots: Seq<SlotInstruction>, id: u128) -> nat
    decreases slots.len(),
{
    if slots.len() == 0 {
        0
    } else {
        times_picked(slots.drop_last(), id) + if slots.last().pile_id == id {
            1nat
        } else {
            0nat
        }
    }
}

pub open spec fn saturating_sub(a: int, b: int) -> int {
    if a > b {
        a - b
    } else {
        0
    }
}

/// `after` is `before` with each id's count lowered (not below 0) by the
/// number of slots drawn from it; the lowering lands on the first pile with
/// that id. Nothing else changes.
pub open spec fn counts_after_picks(
    before: Seq<Pile>,
    after: Seq<Pile>,
    slots: Seq<SlotInstruction>,
) -> bool {
    &&& after.len() == before.len()
    &&& forall|j: int|
        0 <= j < before.len() ==> {
            &&& (#[trigger] after[j]).id == before[j].id
            &&& after[j].name == before[j].name
            &&& after[j].pile_type == before[j].pile_type
            &&& after[j].estimated_count == if is_first_with_id(before, before[j].id, j) {
                saturating_sub(
                    before[j].estimated_count as int,
                    times_picked(slots, before[j].id) as int,
                )
            } else {
                before[j].estimated_count as int
            }
        }
}

pub open spec fn is_low(p: Pile) -> bool {
    p.estimated_count < CRITICAL_LOW_THRESHOLD
}

/// Names of the piles with fewer cards than the threshold (empty ones
/// included), in order.
pub open spec fn low_pile_names(piles: Seq<Pile>) -> Seq<Seq<char>>
    decreases piles.len(),
{
    if piles.len() == 0 {
        Seq::empty()
    } else {
        let r = low_pile_names(piles.drop_last());
        if is_low(piles.last()) {
            r.push(piles.last().name@)
        } else {
            r
        }
    }
}

/// The warning shown after a pack: the low piles, if any.
pub open spec fn low_pile_warning(piles: Seq<Pile>) -> Option<Seq<char>> {
    let names = low_pile_names(piles);
    if names.len() == 0 {
        None
    } else {
        Some(
            "Some piles are below "@ + decimal(CRITICAL_LOW_THRESHOLD as nat)
                + " cards; consider refilling or combining: "@ + seq_join(names, ", "@),
        )
    }
}

pub open spec fn option_view(o: Option<String>) -> Option<Seq<char>> {
    match o {
        Some(s) => Some(s@),
        None => None,
    }
}

/// Label of a slot role.
pub fn slot_role_label(role: SlotRole) -> (s: &'static str)
    ensures
        s@ == role_label(role),
{
    match role {
        SlotRole::Common => "Common",
        SlotRole::Uncommon => "Uncommon",
        SlotRole::Rare => "Rare",
        SlotRole::Energy => "Energy",
        SlotRole::Trainer => "Trainer",
    }
}

/// Pick from trainers: a single pool, pure random. The pile is the entry
/// at a uniformly drawn place of the trainers list.
fn pick_trainer(state: &PersistedState, rng: &mut StdRng) -> (r: Result<(usize, AbInstruction), String>)
    ensures
        r matches Ok((k, inst)) ==> exists|pick: int|
            0 <= pick < trainer_indices(state.piles@).len() && k == #[trigger] trainer_indices(
                state.piles@,
            )[pick],
        r matches Ok((k, inst)) ==> k < state.piles@.len() && trainer_eligible(state.piles@[k as int])
            && valid_instruction(inst, state.piles@[k as int].estimated_count as int),
        r matches Err(e) ==> e@ == "No trainers pile available"@,
        r is Err <==> !has_trainer(state.piles@),
{
    let trainers = trainer_candidates(&state.piles);
    proof {
        lemma_eligible_indices(state.piles@, trainer_pred());
    }
    if trainers.len() == 0 {
        proof {
            assert forall|k: int| 0 <= k < state.piles@.len() implies !trainer_eligible(
                #[trigger] state.piles@[k],
            ) by {
                if trainer_eligible(state.piles@[k]) {
                    assert(trainer_pred()(state.piles@[k]));
                }
            }
        }
        return Err(String::from_str("No trainers pile available"));
    }
    let pick = gen_range_usize(rng, 0, trainers.len());
    let k = trainers[pick];
    proof {
        assert(index_view(trainers@)[pick as int] == k as int);
        assert(trainer_pred()(state.piles@[k as int]));
    }
    let (inst, _) = generate_ab_instruction(state.piles[k].estimated_count, rng);
    Ok((k, inst))
}

/// The energy type of an energy pile (empty for other piles).
pub open spec fn energy_type_of(p: Pile) -> Seq<char> {
    match p.pile_type {
        PileType::Energy { energy_type } => energy_type@,
        _ => Seq::empty(),
    }
}

/// Pick from energy: each energy type that is not left out and has cards is
/// equally likely; then one of that type's piles with cards, then one card
/// from it.
fn pick_energy(state: &PersistedState, rng: &mut StdRng) -> (r: Result<(usize, AbInstruction), String>)
    ensures
        r matches Ok((k, inst)) ==> exists|t: int, pick: int|
            0 <= t < energy_types(state.piles@, state.settings.energy_types_out@).len() && 0 <= pick
                < energy_indices(
                state.piles@,
                state.settings.energy_types_out@,
                energy_types(state.piles@, state.settings.energy_types_out@)[t],
            ).len() && k == #[trigger] energy_indices(
                state.piles@,
                state.settings.energy_types_out@,
                #[trigger] energy_types(state.piles@, state.settings.energy_types_out@)[t],
            )[pick],
        r matches Ok((k, inst)) ==> k < state.piles@.len() && energy_eligible(
            state.piles@[k as int],
            state.settings.energy_types_out@,
        ) && valid_instruction(inst, state.piles@[k as int].estimated_count as int),
        r matches Err(e) ==> e@ == "No energy piles available (or all marked out)"@,
        r is Err <==> !has_energy(state.piles@, state.settings.energy_types_out@),
{
    let ghost out = state.settings.energy_types_out@;
    let ghost piles = state.piles@;
    let types = energy_type_candidates(&state.piles, &state.settings.energy_types_out);
    proof {
        lemma_energy_types(piles, out);
    }
    if types.len() == 0 {
        return Err(String::from_str("No energy piles available (or all marked out)"));
    }
    let t = gen_range_usize(rng, 0, types.len());
    let chosen = &types[t];
    let ghost ts = energy_types(piles, out);
    proof {
        assert(string_views(types@)[t as int] == chosen@);
        lemma_energy_type_has_piles(piles, out, t as int);
        lemma_eligible_indices(piles, energy_pred(out, chosen@));
    }
    let energy = energy_piles_of_type(&state.piles, &state.settings.energy_types_out, chosen);
    if energy.len() == 0 {
        return Err(String::from_str("No energy piles available (or all marked out)"));
    }
    let pick = gen_range_usize(rng, 0, energy.len());
    let k = energy[pick];
    proof {
        assert(index_view(energy@)[pick as int] == k as int);
        assert(energy_pred(out, chosen@)(piles[k as int]));
        assert(ts[t as int] == chosen@);
        assert(energy_indices(piles, out, ts[t as int])[pick as int] == k as int);
    }
    if state.piles[k].estimated_count == 0 {
        return Err(String::from_str("Selected energy pile has no cards"));
    }
    let (inst, _) = generate_ab_instruction(state.piles[k].estimated_count, rng);
    Ok((k, inst))
}

proof fn lemma_bulk_total_step(piles: Seq<Pile>, i: int)
    requires
        0 <= i < piles.len(),
    ensures
        bulk_total(piles.take(i + 1)) == bulk_total(piles.take(i)) + if bulk_eligible(piles[i]) {
            piles[i].estimated_count as nat
        } else {
            0
        },
{
    assert(piles.take(i + 1).drop_last() =~= piles.take(i));
}

proof fn lemma_bulk_total_prefix(piles: Seq<Pile>, i: int)
    requires
        0 <= i <= piles.len(),
    ensures
        bulk_total(piles.take(i)) <= bulk_total(piles),
    decreases piles.len() - i,
{
    if i < piles.len() {
        lemma_bulk_total_step(piles, i);
        lemma_bulk_total_prefix(piles, i + 1);
    } else {
        assert(piles.take(i) =~= piles);
    }
}

/// The bulk piles laid end to end form one combined range of card
/// positions: position `roll` falls in bulk pile `k` at index `idx` when the
/// bulk piles before `k` hold `roll - idx` cards and `idx` is below pile
/// `k`'s count.
pub open spec fn bulk_position(piles: Seq<Pile>, roll: int, k: int, idx: int) -> bool {
    &&& 0 <= k < piles.len()
    &&& bulk_eligible(piles[k])
    &&& bulk_total(piles.take(k)) + idx == roll
    &&& 0 <= idx < piles[k].estimated_count
}

/// The bulk pile and index of position `roll` in the combined bulk range.
pub fn locate_in_bulk(piles: &Vec<Pile>, roll: u32) -> (r: (usize, u32))
    requires
        roll < bulk_total(piles@),
        bulk_total(piles@) <= u32::MAX,
    ensures
        bulk_position(piles@, roll as int, r.0 as int, r.1 as int),
{
    let ghost ps = piles@;
    let mut rest: u32 = roll;
    let mut j: usize = 0;
    assert(ps.take(0) =~= Seq::<Pile>::empty());
    while j < piles.len()
        invariant
            ps == piles@,
            j <= ps.len(),
            roll < bulk_total(ps),
            bulk_total(ps) <= u32::MAX,
            bulk_total(ps.take(j as int)) + rest == roll,
        decreases ps.len() - j,
    {
        proof {
            lemma_bulk_total_step(ps, j as int);
        }
        let p = &piles[j];
        if matches!(p.pile_type, PileType::Bulk) && p.estimated_count > 0 {
            if rest < p.estimated_count {
                return (j, rest);
            }
            rest = rest - p.estimated_count;
        }
        j = j + 1;
    }
    proof {
        assert(ps.take(j as int) =~= ps);
    }
    (0, 0)
}

/// Pile `k` can be the pick of a rarity slot that rolled `target`, given how
/// the coin came up: an entry of the value list when the value piles are
/// used, else the bulk pile holding some position of the combined bulk
/// range.
pub open spec fn card_slot_pick(piles: Seq<Pile>, target: Rarity, coin: bool, k: int) -> bool {
    let vi = value_indices(piles, target);
    if value_pool_used(vi.len() as int, target, coin) {
        exists|pick: int| 0 <= pick < vi.len() && k == #[trigger] vi[pick]
    } else {
        exists|roll: int, idx: int| 0 <= roll < bulk_total(piles) && #[trigger] bulk_position(piles, roll, k, idx)
    }
}

/// Pick a card for a rarity slot: when the target is Rare or better and some
/// value pile is rare enough, use a value pile 70% of the time; otherwise
/// pick from the bulk piles, weighted by their counts.
fn pick_card_slot(state: &PersistedState, target_rarity: Rarity, rng: &mut StdRng) -> (r: Result<
    (usize, AbInstruction),
    String,
>)
    requires
        bulk_total(state.piles@) <= u32::MAX,
    ensures
        r matches Ok((k, inst)) ==> exists|coin: bool|
            #[trigger] card_slot_pick(state.piles@, target_rarity, coin, k as int),
        r matches Ok((k, inst)) ==> k < state.piles@.len() && (bulk_eligible(state.piles@[k as int])
            || (rare_or_better(target_rarity) && value_eligible(state.piles@[k as int], target_rarity)))
            && valid_instruction(inst, state.piles@[k as int].estimated_count as int),
        r matches Err(e) ==> e@ == "No bulk piles available"@ && !has_bulk(state.piles@),
        has_bulk(state.piles@) ==> r is Ok,
{
    let ghost piles = state.piles@;
    let value_piles = value_candidates(&state.piles, target_rarity);
    proof {
        lemma_eligible_indices(piles, value_pred(target_rarity));
    }
    let coin = value_piles.len() > 0 && rarity_at_least(target_rarity, Rarity::Rare) && gen_ratio(rng, 7, 10);
    let use_value = use_value_pool(value_piles.len(), target_rarity, coin);
    let (k, index) = if use_value {
        let pick = gen_range_usize(rng, 0, value_piles.len());
        let k = value_piles[pick];
        proof {
            assert(index_view(value_piles@)[pick as int] == k as int);
            assert(value_pred(target_rarity)(piles[k as int]));
            assert(card_slot_pick(piles, target_rarity, coin, k as int));
        }
        let index = gen_range_u32(rng, 0, state.piles[k].estimated_count);
        (k, index)
    } else {
        let mut bulk: Vec<usize> = Vec::new();
        let mut total: u32 = 0;
        let mut j: usize = 0;
        while j < state.piles.len()
            invariant
                j <= piles.len(),
                piles == state.piles@,
                bulk_total(piles) <= u32::MAX,
                total == bulk_total(piles.take(j as int)),
                forall|m: int|
                    0 <= m < bulk@.len() ==> #[trigger] bulk@[m] < piles.len() && bulk_eligible(
                        piles[bulk@[m] as int],
                    ),
                bulk@.len() > 0 ==> total > 0,
                forall|k: int| 0 <= k < j && bulk_eligible(#[trigger] piles[k]) ==> bulk@.len() > 0,
            decreases piles.len() - j,
        {
            proof {
                lemma_bulk_total_step(piles, j as int);
                lemma_bulk_total_prefix(piles, j + 1);
            }
            let p = &state.piles[j];
            if matches!(p.pile_type, PileType::Bulk) && p.estimated_count > 0 {
                bulk.push(j);
                total = total + p.estimated_count;
            }
            j = j + 1;
        }
        if bulk.len() == 0 {
            return Err(String::from_str("No bulk piles available"));
        }
        if total == 0 {
            return Err(String::from_str("Bulk piles have no cards"));
        }
        let roll = gen_range_u32(rng, 0, total);
        proof {
            assert(piles.take(piles.len() as int) =~= piles);
        }
        let (chosen, idx) = locate_in_bulk(&state.piles, roll);
        proof {
            assert(bulk_position(piles, roll as int, chosen as int, idx as int));
            assert(card_slot_pick(piles, target_rarity, coin, chosen as int));
        }
        (chosen, idx)
    };
    let inst = ab_instruction_for_index(state.piles[k].estimated_count, index, rng);
    proof {
        assert(0 <= index < piles[k as int].estimated_count);
        assert(crate::selection::instruction_for(inst, piles[k as int].estimated_count as int, index as int));
    }
    Ok((k, inst))
}

/// Warning about piles that run low, if any.
fn critical_low_warning(piles: &Vec<Pile>) -> (r: Option<String>)
    ensures
        option_view(r) == low_pile_warning(piles@),
{
    let mut low: Vec<String> = Vec::new();
    let mut j: usize = 0;
    while j < piles.len()
        invariant
            j <= piles@.len(),
            string_views(low@) == low_pile_names(piles@.take(j as int)),
        decreases piles@.len() - j,
    {
        assert(piles@.take(j + 1).drop_last() =~= piles@.take(j as int));
        let p = &piles[j];
        if p.estimated_count < CRITICAL_LOW_THRESHOLD {
            let ghost before = low@;
            low.push(p.name.clone());
            assert(string_views(low@) =~= string_views(before).push(p.name@));
        }
        j = j + 1;
    }
    assert(piles@.take(j as int) =~= piles@);
    if low.len() == 0 {
        None
    } else {
        let mut w = String::from_str("Some piles are below ");
        let n = u32_to_string(CRITICAL_LOW_THRESHOLD);
        w.append(n.as_str());
        w.append(" cards; consider refilling or combining: ");
        let names = join_strings(&low, ", ");
        w.append(names.as_str());
        Some(w)
    }
}


/// Lemma: a rolled rarity is one of the rarities listed.
proof fn lemma_band_member(ws: Seq<(Rarity, u32)>, roll: int)
    ensures
        band_for_roll(ws, roll) matches Some(r) ==> exists|j: int|
            0 <= j < ws.len() && (#[trigger] ws[j]).0 == r,
    decreases ws.len(),
{
    if ws.len() > 0 && roll >= ws[0].1 {
        lemma_band_member(ws.drop_first(), roll - ws[0].1);
        if let Some(r) = band_for_roll(ws, roll) {
            let j = choose|j: int| 0 <= j < ws.drop_first().len() && (#[trigger] ws.drop_first()[j]).0 == r;
            assert(ws[j + 1] == ws.drop_first()[j]);
        }
    }
}

/// Lemma: the common slots of the Modern layout never roll Rare or better.
proof fn lemma_common_slot_roll(i: int, ae: bool, roll: int)
    requires
        i == 0 || (i == 1 && !ae),
    ensures
        !rare_or_better(rarity_for_roll_spec(modern_weights(i, ae), roll)),
{
    let ws = modern_weights(i, ae);
    lemma_band_member(ws, roll);
    assert(ws.len() == 2);
    assert(ws[0].0 == Rarity::Common);
    assert(ws[1].0 == Rarity::Uncommon);
    assert(ws.last() == ws[1]);
}

/// Lemma: the rarity slots of the Modern layout have a positive total weight
/// that fits in a `u32`.
proof fn lemma_modern_weight_totals(i: int, ae: bool)
    requires
        0 <= i < 5,
    ensures
        0 < weight_total(modern_weights(i, ae)) <= u32::MAX,
{
    let ws = modern_weights(i, ae);
    reveal_with_fuel(weight_total, 4);
    if ws.len() == 1 {
        assert(ws.drop_last().len() == 0);
    } else if ws.len() == 2 {
        assert(ws.drop_last().drop_last().len() == 0);
    } else {
        assert(ws.drop_last().drop_last().drop_last().len() == 0);
    }
}

/// Generate one pack: returns the slot instructions and lowers the estimated
/// counts of the piles drawn from. On error the state is left unchanged.
pub fn generate_pack(state: &mut PersistedState, rng: &mut StdRng) -> (r: Result<PackResult, String>)
    requires
        old(state).settings.pack_type == PackTypeId::Modern ==> bulk_total(old(state).piles@)
            <= u32::MAX,
    ensures
        r is Ok <==> pack_error(*old(state)) is None,
        old(state).settings.pack_type != PackTypeId::Modern ==> *final(rng) == *old(rng),
        r matches Err(e) ==> *final(state) == *old(state) && pack_error(*old(state)) == Some(e@),
        r matches Ok(res) ==> {
            &&& res.slots@.len() == 5
            &&& forall|i: int| 0 <= i < 5 ==> slot_ok(#[trigger] res.slots@[i], i, *old(state))
            &&& forall|i: int| 0 <= i < 5 ==> has_id(old(state).piles@, #[trigger] res.slots@[i].pile_id)
            &&& final(state).settings == old(state).settings
            &&& counts_after_picks(old(state).piles@, final(state).piles@, res.slots@)
            &&& option_view(res.warning) == low_pile_warning(final(state).piles@)
        },
{
    let ghost s0 = *state;
    let ghost ae = s0.settings.add_energy_to_packs;
    let layout = match PackLayout::for_pack_type(state.settings.pack_type, state.settings.add_energy_to_packs) {
        Some(l) => l,
        None => {
            return Err(String::from_str("Pack type not implemented"));
        },
    };
    if layout.slot_count as usize != layout.slots.len() {
        return Err(String::from_str("Layout slot count mismatch"));
    }
    let mut slots_out: Vec<SlotInstruction> = Vec::new();
    let mut i: usize = 0;
    while i < layout.slots.len()
        invariant
            *state == s0,
            ae == s0.settings.add_energy_to_packs,
            s0.settings.pack_type == PackTypeId::Modern,
            bulk_total(s0.piles@) <= u32::MAX,
            crate::odds::is_modern_layout(layout, ae),
            i <= 5,
            slots_out@.len() == i,
            forall|m: int| 0 <= m < i ==> slot_ok(#[trigger] slots_out@[m], m, s0),
            i >= 1 ==> has_bulk(s0.piles@),
            i >= 2 && ae ==> has_energy(s0.piles@, s0.settings.energy_types_out@),
            i >= 3 ==> has_trainer(s0.piles@),
        decreases 5 - i,
    {
        let slot_odds = &layout.slots[i];
        assert(slot_odds.role == modern_role(i as int, ae));
        let slot_number = (i + 1) as u32;
        let slot_role = String::from_str(slot_role_label(slot_odds.role));
        let picked = match slot_odds.role {
            SlotRole::Energy => pick_energy(state, rng),
            SlotRole::Trainer => pick_trainer(state, rng),
            _ => {
                proof {
                    lemma_modern_weight_totals(i as int, ae);
                }
                let rarity = roll_rarity_for_slot(slot_odds, rng);
                assert(rolled(modern_weights(i as int, ae), rarity));
                let picked = pick_card_slot(state, rarity, rng);
                proof {
                    if i == 0 || (i == 1 && !ae) {
                        let roll = choose|roll: int|
                            0 <= roll < weight_total(modern_weights(i as int, ae)) && rarity
                                == #[trigger] rarity_for_roll_spec(modern_weights(i as int, ae), roll);
                        lemma_common_slot_roll(i as int, ae, roll);
                    }
                    if let Ok((k, _)) = picked {
                        let coin = choose|coin: bool|
                            #[trigger] card_slot_pick(state.piles@, rarity, coin, k as int);
                        assert(card_slot_pick(state.piles@, rarity, coin, k as int));
                        assert(drawn_for_slot(state.piles@, k as int, i as int, s0.settings));
                        assert(serves_slot(state.piles@[k as int], i as int, s0.settings));
                        if i == 0 || (i == 1 && !ae) {
                            assert(bulk_eligible(state.piles@[k as int]));
                        }
                    }
                }
                picked
            },
        };
        match picked {
            Ok((k, inst)) => {
                let slot = SlotInstruction {
                    slot_number,
                    slot_role,
                    pile_id: state.piles[k].id,
                    pile_name: state.piles[k].name.clone(),
                    instruction: inst,
                };
                assert(slot_filled_from(slot, i as int, s0, k as int));
                slots_out.push(slot);
                proof {
                    assert(slot_ok(slots_out@[i as int], i as int, s0));
                    if i == 0 || (i == 1 && !ae) {
                        assert(bulk_eligible(s0.piles@[k as int]));
                    }
                    if i == 1 && ae {
                        assert(energy_eligible(s0.piles@[k as int], s0.settings.energy_types_out@));
                    }
                    if i == 2 {
                        assert(trainer_eligible(s0.piles@[k as int]));
                    }
                }
            },
            Err(e) => {
                return Err(e);
            },
        }
        i = i + 1;
    }
    let ghost before = state.piles@;
    let mut m: usize = 0;
    while m < slots_out.len()
        invariant
            m <= slots_out@.len(),
            slots_out@.len() == 5,
            forall|q: int| 0 <= q < 5 ==> slot_ok(#[trigger] slots_out@[q], q, s0),
            before == s0.piles@,
            state.settings == s0.settings,
            counts_after_picks(before, state.piles@, slots_out@.take(m as int)),
        decreases slots_out@.len() - m,
    {
        let id = slots_out[m].pile_id;
        let ghost cur = state.piles@;
        proof {
            assert(slots_out@.take(m + 1).drop_last() =~= slots_out@.take(m as int));
        }
        match position_of_id(&state.piles, id) {
            Some(f) => {
                let c = state.piles[f].estimated_count;
                let mut p = state.piles[f].duplicate();
                p.estimated_count = if c > 0 { c - 1 } else { 0 };
                state.piles.set(f, p);
                proof {
                    assert forall|j: int| 0 <= j < before.len() implies is_first_with_id(before, before[j].id, j)
                        == is_first_with_id(cur, cur[j].id, j) by {
                        assert(cur[j].id == before[j].id);
                        if is_first_with_id(cur, cur[j].id, j) {
                            assert forall|q: int| 0 <= q < j implies (#[trigger] before[q]).id != before[j].id by {
                                assert(cur[q].id == before[q].id);
                            }
                        }
                        if is_first_with_id(before, before[j].id, j) {
                            assert forall|q: int| 0 <= q < j implies (#[trigger] cur[q]).id != cur[j].id by {
                                assert(cur[q].id == before[q].id);
                            }
                        }
                    }
                    assert(is_first_with_id(before, before[f as int].id, f as int));
                    assert forall|j: int| 0 <= j < before.len() && j != f && before[j].id == id
                        implies !is_first_with_id(before, id, j) by {
                        if j < f {
                            assert(cur[j].id == before[j].id);
                        } else {
                            assert(before[f as int].id == id);
                        }
                    }
                }
            },
            None => {
                proof {
                    assert forall|j: int| 0 <= j < before.len() implies (#[trigger] before[j]).id != id by {
                        assert(cur[j].id == before[j].id);
                    }
                }
            },
        }
        m = m + 1;
    }
    assert(slots_out@.take(5) =~= slots_out@);
    assert forall|i: int| 0 <= i < 5 implies has_id(s0.piles@, #[trigger] slots_out@[i].pile_id) by {
        assert(slot_ok(slots_out@[i], i, s0));
        let k = choose|k: int| #[trigger] slot_filled_from(slots_out@[i], i, s0, k);
        assert(s0.piles@[k].id == slots_out@[i].pile_id);
    }
    let warning = critical_low_warning(&state.piles);
    Ok(PackResult { slots: slots_out, warning })
}

/// Number of slots drawn from the piles, counted pile by pile.
pub open spec fn picked_total(piles: Seq<Pile>, slots: Seq<SlotInstruction>) -> nat
    decreases piles.len(),
{
    if piles.len() == 0 {
        0
    } else {
        picked_total(piles.drop_last(), slots) + times_picked(slots, piles.last().id)
    }
}

/// Number of piles with id `id`.
pub open spec fn id_hits(piles: Seq<Pile>, id: u128) -> nat
    decreases piles.len(),
{
    if piles.len() == 0 {
        0
    } else {
        id_hits(piles.drop_last(), id) + if piles.last().id == id {
            1nat
        } else {
            0nat
        }
    }
}

proof fn lemma_picked_total_push(piles: Seq<Pile>, slots: Seq<SlotInstruction>, s: SlotInstruction)
    ensures
        picked_total(piles, slots.push(s)) == picked_total(piles, slots) + id_hits(piles, s.pile_id),
    decreases piles.len(),
{
    assert(slots.push(s).drop_last() =~= slots);
    if piles.len() > 0 {
        lemma_picked_total_push(piles.drop_last(), slots, s);
    }
}

proof fn lemma_unique_drop_last(piles: Seq<Pile>)
    requires
        unique_ids(piles),
        piles.len() > 0,
    ensures
        unique_ids(piles.drop_last()),
        !has_id(piles.drop_last(), piles.last().id),
{
    let d = piles.drop_last();
    assert forall|i: int, j: int| 0 <= i < j < d.len() implies (#[trigger] d[i]).id != (#[trigger] d[j]).id by {
        assert(d[i] == piles[i] && d[j] == piles[j]);
    }
    if has_id(d, piles.last().id) {
        let k = choose|k: int| 0 <= k < d.len() && (#[trigger] d[k]).id == piles.last().id;
        assert(piles[k].id != piles[piles.len() - 1].id);
    }
}

proof fn lemma_id_hits(piles: Seq<Pile>, id: u128)
    requires
        unique_ids(piles),
    ensures
        id_hits(piles, id) == if has_id(piles, id) {
            1nat
        } else {
            0nat
        },
    decreases piles.len(),
{
    if piles.len() > 0 {
        let d = piles.drop_last();
        lemma_unique_drop_last(piles);
        lemma_id_hits(d, id);
        if has_id(piles, id) && piles.last().id != id {
            let k = choose|k: int| 0 <= k < piles.len() && (#[trigger] piles[k]).id == id;
            assert(d[k] == piles[k]);
        }
        if has_id(d, id) {
            let k = choose|k: int| 0 <= k < d.len() && (#[trigger] d[k]).id == id;
            assert(piles[k] == d[k]);
        }
    }
}

proof fn lemma_picked_total_all(piles: Seq<Pile>, slots: Seq<SlotInstruction>)
    requires
        unique_ids(piles),
        forall|i: int| 0 <= i < slots.len() ==> has_id(piles, #[trigger] slots[i].pile_id),
    ensures
        picked_total(piles, slots) == slots.len(),
    decreases slots.len(),
{
    if slots.len() == 0 {
        lemma_picked_total_none(piles, slots);
    } else {
        let d = slots.drop_last();
        assert forall|i: int| 0 <= i < d.len() implies has_id(piles, #[trigger] d[i].pile_id) by {
            assert(d[i] == slots[i]);
        }
        lemma_picked_total_all(piles, d);
        lemma_picked_total_push(piles, d, slots.last());
        lemma_id_hits(piles, slots.last().pile_id);
        assert(d.push(slots.last()) =~= slots);
        assert(has_id(piles, slots[slots.len() - 1].pile_id));
    }
}

proof fn lemma_picked_total_none(piles: Seq<Pile>, slots: Seq<SlotInstruction>)
    requires
        slots.len() == 0,
    ensures
        picked_total(piles, slots) == 0,
    decreases piles.len(),
{
    if piles.len() > 0 {
        lemma_picked_total_none(piles.drop_last(), slots);
    }
}

proof fn lemma_totals_after_picks(before: Seq<Pile>, after: Seq<Pile>, slots: Seq<SlotInstruction>)
    requires
        after.len() == before.len(),
        forall|j: int|
            0 <= j < before.len() ==> (#[trigger] after[j]).estimated_count == saturating_sub(
                before[j].estimated_count as int,
                times_picked(slots, before[j].id) as int,
            ),
    ensures
        total_count(before) <= total_count(after) + picked_total(before, slots),
        (forall|j: int|
            0 <= j < before.len() ==> times_picked(slots, (#[trigger] before[j]).id)
                <= before[j].estimated_count) ==> total_count(before) == total_count(after)
            + picked_total(before, slots),
    decreases before.len(),
{
    if before.len() > 0 {
        let (b, a) = (before.drop_last(), after.drop_last());
        assert forall|j: int| 0 <= j < b.len() implies (#[trigger] a[j]).estimated_count
            == saturating_sub(b[j].estimated_count as int, times_picked(slots, b[j].id) as int) by {
            assert(a[j] == after[j] && b[j] == before[j]);
        }
        lemma_totals_after_picks(b, a, slots);
        let n = before.len() - 1;
        assert(after[n].estimated_count == saturating_sub(
            before[n].estimated_count as int,
            times_picked(slots, before[n].id) as int,
        ));
        if forall|j: int|
            0 <= j < before.len() ==> times_picked(slots, (#[trigger] before[j]).id)
                <= before[j].estimated_count {
            assert forall|j: int| 0 <= j < b.len() implies times_picked(slots, (#[trigger] b[j]).id)
                <= b[j].estimated_count by {
                assert(b[j] == before[j]);
            }
            assert(times_picked(slots, before[n].id) <= before[n].estimated_count);
        }
    }
}

/// Law: when pile ids are unique and every slot names one of the piles (as
/// `generate_pack` guarantees), a pack takes at most one card per slot from
/// the piles' total count, and exactly one per slot when no pile was drawn
/// more often than it had cards.
pub proof fn lemma_pack_takes_one_card_per_slot(
    before: Seq<Pile>,
    after: Seq<Pile>,
    slots: Seq<SlotInstruction>,
)
    requires
        counts_after_picks(before, after, slots),
        unique_ids(before),
        forall|i: int| 0 <= i < slots.len() ==> has_id(before, #[trigger] slots[i].pile_id),
    ensures
        total_count(before) <= total_count(after) + slots.len(),
        (forall|j: int|
            0 <= j < before.len() ==> times_picked(slots, (#[trigger] before[j]).id)
                <= before[j].estimated_count) ==> total_count(after) + slots.len() == total_count(before),
{
    assert forall|j: int| 0 <= j < before.len() implies is_first_with_id(before, before[j].id, j) by {
        assert forall|k: int| 0 <= k < j implies (#[trigger] before[k]).id != before[j].id by {
            assert(before[k].id != before[j].id);
        }
    }
    assert forall|j: int| 0 <= j < before.len() implies (#[trigger] after[j]).estimated_count
        == saturating_sub(before[j].estimated_count as int, times_picked(slots, before[j].id) as int) by {
        assert(is_first_with_id(before, before[j].id, j));
    }
    lemma_totals_after_picks(before, after, slots);
    lemma_picked_total_all(before, slots);
}

/// `names` are the names of the piles at positions `idx`, which increase.
pub open spec fn names_at(piles: Seq<Pile>, names: Seq<Seq<char>>, idx: Seq<int>) -> bool {
    &&& idx.len() == names.len()
    &&& forall|i: int| 0 <= i < idx.len() ==> 0 <= #[trigger] idx[i] < piles.len() && names[i] == piles[idx[i]].name@
    &&& forall|i: int, j: int| 0 <= i < j < idx.len() ==> #[trigger] idx[i] < #[trigger] idx[j]
}

/// The piles with fewer cards than the threshold, whatever their type.
pub open spec fn below_threshold() -> spec_fn(Pile) -> bool {
    |p: Pile| p.estimated_count < CRITICAL_LOW_THRESHOLD
}

proof fn lemma_low_names_positions(piles: Seq<Pile>)
    ensures
        low_pile_names(piles).len() == eligible_indices(piles, below_threshold()).len(),
        forall|i: int|
            0 <= i < low_pile_names(piles).len() ==> #[trigger] low_pile_names(piles)[i]
                == piles[eligible_indices(piles, below_threshold())[i]].name@,
    decreases piles.len(),
{
    if piles.len() > 0 {
        let pre = piles.drop_last();
        lemma_low_names_positions(pre);
        lemma_eligible_indices(pre, below_threshold());
        let kp = eligible_indices(pre, below_threshold());
        assert forall|i: int| 0 <= i < low_pile_names(piles).len() implies #[trigger] low_pile_names(
            piles,
        )[i] == piles[eligible_indices(piles, below_threshold())[i]].name@ by {
            if i < kp.len() {
                assert(low_pile_names(piles)[i] == low_pile_names(pre)[i]);
                assert(eligible_indices(piles, below_threshold())[i] == kp[i]);
                assert(pre[kp[i]] == piles[kp[i]]);
            }
        }
    }
}

/// Law: the warning after a pack names exactly the piles, of every type and
/// empty ones included, that hold fewer than `CRITICAL_LOW_THRESHOLD` cards,
/// in their order; it is given exactly when there is such a pile, and then
/// it lists their names joined by ", ".
pub proof fn lemma_warning_names_every_low_pile(piles: Seq<Pile>)
    ensures
        exists|idx: Seq<int>|
            #[trigger] names_at(piles, low_pile_names(piles), idx) && forall|k: int|
                0 <= k < piles.len() ==> ((#[trigger] piles[k]).estimated_count < CRITICAL_LOW_THRESHOLD
                    <==> idx.contains(k)),
        (low_pile_warning(piles) is Some) <==> exists|k: int|
            0 <= k < piles.len() && (#[trigger] piles[k]).estimated_count < CRITICAL_LOW_THRESHOLD,
        low_pile_warning(piles) matches Some(w) ==> w.len() > seq_join(low_pile_names(piles), ", "@).len()
            && w.subrange(w.len() - seq_join(low_pile_names(piles), ", "@).len(), w.len() as int)
            == seq_join(low_pile_names(piles), ", "@),
{
    lemma_low_names_positions(piles);
    lemma_eligible_indices(piles, below_threshold());
    let idx = eligible_indices(piles, below_threshold());
    assert forall|k: int| 0 <= k < piles.len() implies ((#[trigger] piles[k]).estimated_count
        < CRITICAL_LOW_THRESHOLD <==> idx.contains(k)) by {
        if idx.contains(k) {
            let m = choose|m: int| 0 <= m < idx.len() && idx[m] == k;
            assert(below_threshold()(piles[idx[m]]));
        }
        if piles[k].estimated_count < CRITICAL_LOW_THRESHOLD {
            assert(below_threshold()(piles[k]));
        }
    }
    if exists|k: int| 0 <= k < piles.len() && (#[trigger] piles[k]).estimated_count < CRITICAL_LOW_THRESHOLD {
        let k = choose|k: int| 0 <= k < piles.len() && (#[trigger] piles[k]).estimated_count < CRITICAL_LOW_THRESHOLD;
        assert(idx.contains(k));
    }
    if low_pile_names(piles).len() > 0 {
        let m = idx[0];
        assert(below_threshold()(piles[m]));
    }
    if let Some(w) = low_pile_warning(piles) {
        let j = seq_join(low_pile_names(piles), ", "@);
        let pre = "Some piles are below "@ + decimal(CRITICAL_LOW_THRESHOLD as nat)
            + " cards; consider refilling or combining: "@;
        reveal_strlit("Some piles are below ");
        assert(w == pre + j);
        assert(w.subrange(w.len() - j.len(), w.len() as int) =~= j);
    }
    assert(names_at(piles, low_pile_names(piles), idx));
}

/// Law: the combined bulk range gives each bulk pile exactly as many
/// positions as it holds cards. Every position `idx` of bulk pile `k` is one
/// roll below the bulk total, and no roll lies in two piles; so a roll drawn
/// uniformly below `bulk_total` (as `pick_card_slot` draws it) lands in pile
/// `k` with chance `count / bulk_total`.
pub proof fn lemma_bulk_range_weighted_by_count(piles: Seq<Pile>, k: int, idx: int, roll: int, k2: int, idx2: int)
    requires
        0 <= k < piles.len(),
        bulk_eligible(piles[k]),
        0 <= idx < piles[k].estimated_count,
    ensures
        0 <= bulk_total(piles.take(k)) + idx < bulk_total(piles),
        bulk_position(piles, bulk_total(piles.take(k)) + idx, k, idx),
        bulk_position(piles, roll, k, idx) && bulk_position(piles, roll, k2, idx2) ==> k2 == k && idx2 == idx,
{
    lemma_bulk_total_step(piles, k);
    lemma_bulk_total_prefix(piles, k + 1);
    if bulk_position(piles, roll, k, idx) && bulk_position(piles, roll, k2, idx2) {
        if k < k2 {
            lemma_bulk_total_prefix(piles.take(k2), k + 1);
            assert(piles.take(k2).take(k + 1) =~= piles.take(k + 1));
        } else if k2 < k {
            lemma_bulk_total_step(piles, k2);
            lemma_bulk_total_prefix(piles.take(k), k2 + 1);
            assert(piles.take(k).take(k2 + 1) =~= piles.take(k2 + 1));
        }
    }
}

} // verus!
