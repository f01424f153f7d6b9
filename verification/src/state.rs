//! Persisted app state (piles and settings) and the operations on it.

use crate::models::{PackTypeId, Pile, PileType, Rarity, Settings};
use crate::candidates::{eligible_indices, lemma_eligible_indices, subsequence_at};
use crate::dates::opt_view;
use crate::pages::{hex_char, hex_digits, uuid_hyphenated, uuid_text};
use crate::text::{comma_list, parse_comma_list, str_eq, string_views, trim_spec, trimmed};
use vstd::prelude::*;

verus! {

/// Piles and settings, as saved between runs.
#[derive(Debug, Clone)]
pub struct PersistedState {
    pub piles: Vec<Pile>,
    pub settings: Settings,
}

impl Default for PersistedState {
    fn default() -> (s: PersistedState)
        ensures
            s.piles@.len() == 0,
            s.settings.pack_size == 5,
            s.settings.pack_type == crate::models::PackTypeId::Modern,
            !s.settings.add_energy_to_packs,
            s.settings.energy_types_out@.len() == 0,
    {
        PersistedState { piles: Vec::new(), settings: Settings::default() }
    }
}

/// `j` is the first position of a pile with id `id`.
pub open spec fn is_first_with_id(piles: Seq<Pile>, id: u128, j: int) -> bool {
    &&& 0 <= j < piles.len()
    &&& piles[j].id == id
    &&& forall|k: int| 0 <= k < j ==> (#[trigger] piles[k]).id != id
}

/// Some pile has id `id`.
pub open spec fn has_id(piles: Seq<Pile>, id: u128) -> bool {
    exists|k: int| 0 <= k < piles.len() && (#[trigger] piles[k]).id == id
}

/// Position of the first pile with id `id`, if any.
pub fn position_of_id(piles: &Vec<Pile>, id: u128) -> (r: Option<usize>)
    ensures
        r matches Some(j) ==> is_first_with_id(piles@, id, j as int),
        r is None <==> !has_id(piles@, id),
{
    let mut j: usize = 0;
    while j < piles.len()
        invariant
            j <= piles@.len(),
            forall|k: int| 0 <= k < j ==> (#[trigger] piles@[k]).id != id,
        decreases piles@.len() - j,
    {
        if piles[j].id == id {
            return Some(j);
        }
        j = j + 1;
    }
    None
}

/// Sum of the estimated counts.
pub open spec fn total_count(piles: Seq<Pile>) -> nat
    decreases piles.len(),
{
    if piles.len() == 0 {
        0
    } else {
        total_count(piles.drop_last()) + piles.last().estimated_count as nat
    }
}

/// Position of the first pile with id `id` (meaningful when there is one).
pub open spec fn first_pos(piles: Seq<Pile>, id: u128) -> int {
    choose|j: int| is_first_with_id(piles, id, j)
}

/// Estimated count of the first pile with id `id`, or 0 when there is none.
pub open spec fn count_of(piles: Seq<Pile>, id: u128) -> int {
    if has_id(piles, id) {
        piles[first_pos(piles, id)].estimated_count as int
    } else {
        0
    }
}

/// The piles whose id is neither `a` nor `b`, in order.
pub open spec fn keep_except(piles: Seq<Pile>, a: u128, b: u128) -> Seq<Pile>
    decreases piles.len(),
{
    if piles.len() == 0 {
        Seq::empty()
    } else {
        let r = keep_except(piles.drop_last(), a, b);
        if piles.last().id != a && piles.last().id != b {
            r.push(piles.last())
        } else {
            r
        }
    }
}

/// No two piles share an id.
pub open spec fn unique_ids(piles: Seq<Pile>) -> bool {
    forall|i: int, j: int| 0 <= i < j < piles.len() ==> (#[trigger] piles[i]).id != (#[trigger] piles[j]).id
}

/// Lemma: there is at most one first position for an id, and when the id
/// occurs, `first_pos` is it.
pub proof fn lemma_first_pos(piles: Seq<Pile>, id: u128)
    ensures
        has_id(piles, id) ==> is_first_with_id(piles, id, first_pos(piles, id)),
        forall|j: int| is_first_with_id(piles, id, j) ==> j == first_pos(piles, id),
{
    if has_id(piles, id) {
        let k = choose|k: int| 0 <= k < piles.len() && (#[trigger] piles[k]).id == id;
        lemma_first_exists(piles, id, k);
        let f = first_pos(piles, id);
        assert forall|j: int| is_first_with_id(piles, id, j) implies j == f by {
            if j < f {
                assert(piles[j].id == id);
            } else if j > f {
                assert(piles[f].id == id);
            }
        }
    } else {
        assert forall|j: int| is_first_with_id(piles, id, j) implies j == first_pos(piles, id) by {
            assert(piles[j].id == id);
        }
    }
}

proof fn lemma_first_exists(piles: Seq<Pile>, id: u128, k: int)
    requires
        0 <= k < piles.len(),
        piles[k].id == id,
    ensures
        exists|j: int| is_first_with_id(piles, id, j),
    decreases k,
{
    if exists|q: int| 0 <= q < k && (#[trigger] piles[q]).id == id {
        let q = choose|q: int| 0 <= q < k && (#[trigger] piles[q]).id == id;
        lemma_first_exists(piles, id, q);
    } else {
        assert(is_first_with_id(piles, id, k));
    }
}

/// Lemma: the total after appending a pile grows by its count.
pub proof fn lemma_total_push(piles: Seq<Pile>, p: Pile)
    ensures
        total_count(piles.push(p)) == total_count(piles) + p.estimated_count,
{
    assert(piles.push(p).drop_last() =~= piles);
}

/// Lemma: replacing one pile changes the total by the difference of counts.
pub proof fn lemma_total_update(piles: Seq<Pile>, j: int, p: Pile)
    requires
        0 <= j < piles.len(),
    ensures
        total_count(piles.update(j, p)) + piles[j].estimated_count == total_count(piles)
            + p.estimated_count,
    decreases piles.len(),
{
    if j == piles.len() - 1 {
        assert(piles.update(j, p).drop_last() =~= piles.drop_last());
    } else {
        lemma_total_update(piles.drop_last(), j, p);
        assert(piles.update(j, p).drop_last() =~= piles.drop_last().update(j, p));
    }
}

/// Append a new pile (with a fresh id) named `name` with surrounding
/// whitespace removed.
pub fn add_pile(state: &mut PersistedState, name: &str, pile_type: PileType, estimated_count: u32)
    ensures
        final(state).settings == old(state).settings,
        final(state).piles@.len() == old(state).piles@.len() + 1,
        final(state).piles@.drop_last() == old(state).piles@,
        final(state).piles@.last().name@ == trim_spec(name@),
        final(state).piles@.last().pile_type == pile_type,
        final(state).piles@.last().estimated_count == estimated_count,
        final(state).piles@.last().id & 0xF000C000000000000000u128 == 0x40008000000000000000u128,
{
    let pile = Pile::new(trimmed(name), pile_type, estimated_count);
    state.piles.push(pile);
    assert(state.piles@.drop_last() =~= old(state).piles@);
}

/// The pile type chosen in the "add pile" form: `"trainers"`, `"energy"`
/// (type defaults to "Basic"), `"value"`, or anything else for bulk.
pub fn pile_type_from_form(
    kind: &str,
    energy_type: Option<String>,
    price_min_usd_bits: Option<u64>,
    price_max_usd_bits: Option<u64>,
    price_rarity: Rarity,
) -> (t: PileType)
    ensures
        pile_type_for_form(t, kind@, energy_type, price_min_usd_bits, price_max_usd_bits, price_rarity),
{
    if str_eq(kind, "trainers") {
        PileType::Trainers
    } else if str_eq(kind, "energy") {
        let energy_type = match energy_type {
            Some(t) => t,
            None => String::from_str("Basic"),
        };
        PileType::Energy { energy_type }
    } else if str_eq(kind, "value") {
        PileType::Value {
            price_min_usd_bits,
            price_max_usd_bits,
            price_rarity,
            rarity: None,
        }
    } else {
        PileType::Bulk
    }
}

/// `t` is the pile type that the "add pile" form asks for.
pub open spec fn pile_type_for_form(
    t: PileType,
    kind: Seq<char>,
    energy_type: Option<String>,
    price_min_usd_bits: Option<u64>,
    price_max_usd_bits: Option<u64>,
    price_rarity: Rarity,
) -> bool {
    if kind == "trainers"@ {
        t is Trainers
    } else if kind == "energy"@ {
        match t {
            PileType::Energy { energy_type: e } => match energy_type {
                Some(given) => e == given,
                None => e@ == "Basic"@,
            },
            _ => false,
        }
    } else if kind == "value"@ {
        t == PileType::Value { price_min_usd_bits, price_max_usd_bits, price_rarity, rarity: None }
    } else {
        t is Bulk
    }
}

/// The pile type after the "edit pile" form: an energy pile takes the new
/// type (trimmed) when one is given; a value pile takes the new price range
/// (and its rarity), keeping its explicit rarity; other types are unchanged.
pub open spec fn edited_pile_type(
    old_type: PileType,
    new_type: PileType,
    energy_type: Option<String>,
    price_min_usd_bits: Option<u64>,
    price_max_usd_bits: Option<u64>,
    price_rarity: Rarity,
) -> bool {
    match old_type {
        PileType::Energy { energy_type: e } => match energy_type {
            Some(given) => new_type matches PileType::Energy { energy_type: n } && n@ == trim_spec(given@),
            None => new_type == old_type,
        },
        PileType::Value { rarity, .. } => new_type == PileType::Value {
            price_min_usd_bits,
            price_max_usd_bits,
            price_rarity,
            rarity,
        },
        _ => new_type == old_type,
    }
}

/// Apply the "edit pile" form to the first pile with id `id`: new name
/// (trimmed), new count, and the type fields that apply to its type.
/// Returns whether such a pile exists; if not, nothing changes.
pub fn update_pile(
    state: &mut PersistedState,
    id: u128,
    name: &str,
    estimated_count: u32,
    energy_type: Option<String>,
    price_min_usd_bits: Option<u64>,
    price_max_usd_bits: Option<u64>,
    price_rarity: Rarity,
) -> (found: bool)
    ensures
        found == has_id(old(state).piles@, id),
        final(state).settings == old(state).settings,
        !found ==> final(state).piles@ == old(state).piles@,
        found ==> {
            let j = first_pos(old(state).piles@, id);
            let p = final(state).piles@[j];
            &&& final(state).piles@.len() == old(state).piles@.len()
            &&& forall|k: int|
                0 <= k < old(state).piles@.len() && k != j ==> final(state).piles@[k]
                    == old(state).piles@[k]
            &&& p.id == id
            &&& p.name@ == trim_spec(name@)
            &&& p.estimated_count == estimated_count
            &&& edited_pile_type(
                old(state).piles@[j].pile_type,
                p.pile_type,
                energy_type,
                price_min_usd_bits,
                price_max_usd_bits,
                price_rarity,
            )
        },
{
    proof {
        lemma_first_pos(state.piles@, id);
    }
    let j = match position_of_id(&state.piles, id) {
        Some(j) => j,
        None => {
            return false;
        },
    };
    let old_type = state.piles[j].pile_type.duplicate();
    let new_type = match old_type {
        PileType::Energy { energy_type: e } => match energy_type {
            Some(t) => PileType::Energy { energy_type: trimmed(t.as_str()) },
            None => PileType::Energy { energy_type: e },
        },
        PileType::Value { rarity, .. } => PileType::Value {
            price_min_usd_bits,
            price_max_usd_bits,
            price_rarity,
            rarity,
        },
        other => other,
    };
    let p = Pile { id: state.piles[j].id, name: trimmed(name), pile_type: new_type, estimated_count };
    state.piles.set(j, p);
    true
}

/// Remove every pile with id `id`.
pub fn delete_pile(state: &mut PersistedState, id: u128)
    ensures
        final(state).settings == old(state).settings,
        final(state).piles@ == keep_except(old(state).piles@, id, id),
{
    let kept = piles_except(&state.piles, id, id);
    state.piles = kept;
}

/// Copies of the piles whose id is neither `a` nor `b`, in order.
fn piles_except(piles: &Vec<Pile>, a: u128, b: u128) -> (r: Vec<Pile>)
    ensures
        r@ == keep_except(piles@, a, b),
{
    let mut r: Vec<Pile> = Vec::new();
    let mut j: usize = 0;
    while j < piles.len()
        invariant
            j <= piles@.len(),
            r@ == keep_except(piles@.take(j as int), a, b),
        decreases piles@.len() - j,
    {
        assert(piles@.take(j + 1).drop_last() =~= piles@.take(j as int));
        if piles[j].id != a && piles[j].id != b {
            r.push(piles[j].duplicate());
        }
        j = j + 1;
    }
    assert(piles@.take(j as int) =~= piles@);
    r
}

/// Merge the piles `id_a` and `id_b` into a new pile (fresh id) named
/// `new_name` (trimmed). Its count is `estimated_count`, or when that is 0 the
/// sum of the two piles' counts; its type is that of pile `id_a` (bulk when
/// there is none). Every pile with either id is removed.
pub fn combine_piles(
    state: &mut PersistedState,
    id_a: u128,
    id_b: u128,
    new_name: &str,
    estimated_count: u32,
)
    requires
        estimated_count > 0 || count_of(old(state).piles@, id_a) + count_of(old(state).piles@, id_b)
            <= u32::MAX,
    ensures
        final(state).settings == old(state).settings,
        final(state).piles@.len() == keep_except(old(state).piles@, id_a, id_b).len() + 1,
        final(state).piles@.drop_last() == keep_except(old(state).piles@, id_a, id_b),
        final(state).piles@.last().id & 0xF000C000000000000000u128 == 0x40008000000000000000u128,
        final(state).piles@.last().name@ == trim_spec(new_name@),
        final(state).piles@.last().estimated_count == if estimated_count > 0 {
            estimated_count as int
        } else {
            count_of(old(state).piles@, id_a) + count_of(old(state).piles@, id_b)
        },
        final(state).piles@.last().pile_type == if has_id(old(state).piles@, id_a) {
            old(state).piles@[first_pos(old(state).piles@, id_a)].pile_type
        } else {
            PileType::Bulk
        },
{
    proof {
        lemma_first_pos(state.piles@, id_a);
        lemma_first_pos(state.piles@, id_b);
    }
    let pos_a = position_of_id(&state.piles, id_a);
    let pos_b = position_of_id(&state.piles, id_b);
    let count_a = match pos_a {
        Some(j) => state.piles[j].estimated_count,
        None => 0,
    };
    let count_b = match pos_b {
        Some(j) => state.piles[j].estimated_count,
        None => 0,
    };
    let new_count = if estimated_count > 0 { estimated_count } else { count_a + count_b };
    let typ = match pos_a {
        Some(j) => state.piles[j].pile_type.duplicate(),
        None => PileType::Bulk,
    };
    let mut kept = piles_except(&state.piles, id_a, id_b);
    kept.push(Pile::new(trimmed(new_name), typ, new_count));
    state.piles = kept;
    assert(state.piles@.drop_last() =~= keep_except(old(state).piles@, id_a, id_b));
}

/// Split `split_count` cards (at most the pile's count) off the first pile
/// with id `source_id` into a new pile (fresh id, same type) named `new_name`
/// (trimmed). Returns whether a split happened; nothing changes when the pile
/// is missing or the amount is 0.
pub fn split_pile(state: &mut PersistedState, source_id: u128, new_name: &str, split_count: u32) -> (done: bool)
    ensures
        final(state).settings == old(state).settings,
        done == (has_id(old(state).piles@, source_id) && split_count > 0 && count_of(
            old(state).piles@,
            source_id,
        ) > 0),
        !done ==> final(state).piles@ == old(state).piles@,
        done ==> {
            let j = first_pos(old(state).piles@, source_id);
            let src = old(state).piles@[j];
            let moved = if split_count < src.estimated_count {
                split_count as int
            } else {
                src.estimated_count as int
            };
            &&& final(state).piles@.len() == old(state).piles@.len() + 1
            &&& final(state).piles@.drop_last() == old(state).piles@.update(
                j,
                Pile { estimated_count: (src.estimated_count - moved) as u32, ..src },
            )
            &&& final(state).piles@.last().name@ == trim_spec(new_name@)
            &&& final(state).piles@.last().pile_type == src.pile_type
            &&& final(state).piles@.last().estimated_count == moved
            &&& final(state).piles@.last().id & 0xF000C000000000000000u128
                == 0x40008000000000000000u128
        },
        total_count(final(state).piles@) == total_count(old(state).piles@),
{
    proof {
        lemma_first_pos(state.piles@, source_id);
    }
    let j = match position_of_id(&state.piles, source_id) {
        Some(j) => j,
        None => {
            return false;
        },
    };
    let src_count = state.piles[j].estimated_count;
    let moved = if split_count < src_count { split_count } else { src_count };
    if moved == 0 {
        return false;
    }
    let typ = state.piles[j].pile_type.duplicate();
    let mut src = state.piles[j].duplicate();
    src.estimated_count = src_count - moved;
    let ghost before = state.piles@;
    state.piles.set(j, src);
    let ghost mid = state.piles@;
    let new_pile = Pile::new(trimmed(new_name), typ, moved);
    state.piles.push(new_pile);
    proof {
        assert(state.piles@.drop_last() =~= mid);
        lemma_total_update(before, j as int, src);
        lemma_total_push(mid, new_pile);
    }
    true
}

/// Sum of the counts of the piles with id `id`.
pub open spec fn matching_total(piles: Seq<Pile>, id: u128) -> nat
    decreases piles.len(),
{
    if piles.len() == 0 {
        0
    } else {
        matching_total(piles.drop_last(), id) + if piles.last().id == id {
            piles.last().estimated_count as nat
        } else {
            0
        }
    }
}

proof fn lemma_keep_total(piles: Seq<Pile>, a: u128, b: u128)
    requires
        a != b,
    ensures
        total_count(keep_except(piles, a, b)) + matching_total(piles, a) + matching_total(piles, b)
            == total_count(piles),
    decreases piles.len(),
{
    if piles.len() > 0 {
        lemma_keep_total(piles.drop_last(), a, b);
        let r = keep_except(piles.drop_last(), a, b);
        if piles.last().id != a && piles.last().id != b {
            lemma_total_push(r, piles.last());
        }
    }
}

proof fn lemma_matching_is_count(piles: Seq<Pile>, id: u128)
    requires
        unique_ids(piles),
    ensures
        matching_total(piles, id) == count_of(piles, id),
    decreases piles.len(),
{
    lemma_first_pos(piles, id);
    if piles.len() > 0 {
        let d = piles.drop_last();
        assert(unique_ids(d)) by {
            assert forall|i: int, j: int| 0 <= i < j < d.len() implies (#[trigger] d[i]).id != (#[trigger] d[j]).id by {
                assert(d[i] == piles[i] && d[j] == piles[j]);
            }
        }
        lemma_matching_is_count(d, id);
        lemma_first_pos(d, id);
        let n = piles.len() - 1;
        if piles.last().id == id {
            assert(!has_id(d, id)) by {
                if has_id(d, id) {
                    let k = choose|k: int| 0 <= k < d.len() && (#[trigger] d[k]).id == id;
                    assert(piles[k].id != piles[n].id);
                }
            }
            assert(is_first_with_id(piles, id, n)) by {
                assert forall|k: int| 0 <= k < n implies (#[trigger] piles[k]).id != id by {
                    assert(d[k] == piles[k]);
                }
            }
        } else if has_id(d, id) {
            let f = first_pos(d, id);
            assert(is_first_with_id(piles, id, f)) by {
                assert forall|k: int| 0 <= k < f implies (#[trigger] piles[k]).id != id by {
                    assert(d[k] == piles[k]);
                }
            }
            assert(has_id(piles, id));
        } else {
            assert(!has_id(piles, id)) by {
                if has_id(piles, id) {
                    let k = choose|k: int| 0 <= k < piles.len() && (#[trigger] piles[k]).id == id;
                    assert(k != n);
                    assert(d[k] == piles[k]);
                }
            }
        }
    }
}

/// Law: when pile ids are unique, combining two different piles with count 0
/// (the new pile takes the sum of their counts) keeps the total number of
/// cards across all piles.
pub proof fn lemma_combine_keeps_total(before: Seq<Pile>, after: Seq<Pile>, a: u128, b: u128)
    requires
        unique_ids(before),
        a != b,
        after.len() == keep_except(before, a, b).len() + 1,
        after.drop_last() == keep_except(before, a, b),
        after.last().estimated_count == count_of(before, a) + count_of(before, b),
    ensures
        total_count(after) == total_count(before),
{
    lemma_keep_total(before, a, b);
    lemma_matching_is_count(before, a);
    lemma_matching_is_count(before, b);
    assert(after =~= after.drop_last().push(after.last()));
    lemma_total_push(after.drop_last(), after.last());
}

/// Pack type named in the settings form: "classic", "legacy", anything else
/// is Modern.
pub open spec fn pack_type_for_name(name: Seq<char>) -> PackTypeId {
    if name == "classic"@ {
        PackTypeId::Classic
    } else if name == "legacy"@ {
        PackTypeId::Legacy
    } else {
        PackTypeId::Modern
    }
}

/// `n` limited to `1..=20`.
pub open spec fn clamp_pack_size(n: u32) -> u32 {
    if n < 1 {
        1
    } else if n > 20 {
        20
    } else {
        n
    }
}

/// Apply the settings form. Fields left out of the form keep their value,
/// except the energy checkbox, which is on only when sent as "1".
pub fn apply_settings_form(
    settings: &mut Settings,
    pack_size: Option<u32>,
    pack_type: Option<&str>,
    add_energy: Option<&str>,
    energy_types_out: Option<&str>,
)
    ensures
        final(settings).pack_size == match pack_size {
            Some(n) => clamp_pack_size(n),
            None => old(settings).pack_size,
        },
        final(settings).pack_type == match pack_type {
            Some(t) => pack_type_for_name(t@),
            None => old(settings).pack_type,
        },
        final(settings).add_energy_to_packs == (add_energy matches Some(a) && a@ == "1"@),
        match energy_types_out {
            Some(list) => string_views(final(settings).energy_types_out@) == comma_list(list@),
            None => final(settings).energy_types_out == old(settings).energy_types_out,
        },
{
    if let Some(n) = pack_size {
        settings.pack_size = if n < 1 {
            1
        } else if n > 20 {
            20
        } else {
            n
        };
    }
    if let Some(t) = pack_type {
        settings.pack_type = if str_eq(t, "classic") {
            PackTypeId::Classic
        } else if str_eq(t, "legacy") {
            PackTypeId::Legacy
        } else {
            PackTypeId::Modern
        };
    }
    settings.add_energy_to_packs = match add_energy {
        Some(a) => str_eq(a, "1"),
        None => false,
    };
    if let Some(list) = energy_types_out {
        settings.energy_types_out = parse_comma_list(list);
    }
}

/// Whether `s` starts with a Windows verbatim prefix (`\\?\`).
pub open spec fn has_verbatim_prefix(s: Seq<char>) -> bool {
    s.len() >= 4 && s[0] == '\\' && s[1] == '\\' && s[2] == '?' && s[3] == '\\'
}

/// Whether `c` separates path components (`/`, or `\` where the platform
/// uses it) or ends a Windows drive prefix (`:`).
pub open spec fn is_path_mark(c: char) -> bool {
    c == '/' || c == '\\' || c == ':'
}

/// A single plain path component: not empty, with no separator and no drive
/// mark.
pub open spec fn plain_component(s: Seq<char>) -> bool {
    s.len() > 0 && forall|i: int| 0 <= i < s.len() ==> !is_path_mark(#[trigger] s[i])
}

/// `path` is `file` joined onto `dir`: `file` alone when `dir` is empty,
/// nothing between the two when `dir` ends in `/`, one separator between
/// them when `dir` ends in none (nor in a drive mark), and in any case `dir`,
/// at most one separator, and `file`.
pub open spec fn joined_path(dir: Seq<char>, file: Seq<char>, path: Seq<char>) -> bool {
    &&& dir.len() == 0 ==> path == file
    &&& dir.len() > 0 && dir.last() == '/' ==> path == dir + file
    &&& dir.len() > 0 && !is_path_mark(dir.last()) ==> (path == dir + seq!['/'] + file || path
        == dir + seq!['\\'] + file)
    &&& (path == dir + file || path == dir + seq!['/'] + file || path == dir + seq!['\\'] + file)
}

/// `Path::join` of a plain relative file name onto a directory, read back as
/// text (`to_string_lossy`, which changes nothing in text that came from a
/// `&str`). std documents that pushing a relative path extends the existing
/// one, adding a separator unless the directory is empty or already ends in
/// one, and that on Windows a directory with a verbatim prefix is normalized
/// first; the contract claims the extension, outside that case, and leaves
/// open which separator the platform puts in (`/` on Unix, `\` on Windows).
#[verifier::external_body]
fn path_join(dir: &str, file: &str) -> (r: String)
    requires
        plain_component(file@),
    ensures
        !has_verbatim_prefix(dir@) ==> joined_path(dir@, file@, r@),
{
    std::path::Path::new(dir).join(file).to_string_lossy().into_owned()
}

/// `path` is `dir`, one `/`, and a last component `file` that `Path::parent`
/// removes whole: `dir` does not end in a separator or a `.` component and
/// holds no `\` or drive mark, and `file` is a plain component other than `.`.
pub open spec fn parent_split(path: Seq<char>, dir: Seq<char>, file: Seq<char>) -> bool {
    &&& path == dir + seq!['/'] + file
    &&& dir.len() > 0
    &&& forall|i: int| 0 <= i < dir.len() ==> #[trigger] dir[i] != '\\' && dir[i] != ':'
    &&& dir.last() != '/'
    &&& !(dir.len() >= 2 && dir[dir.len() - 2] == '/' && dir.last() == '.')
    &&& plain_component(file)
    &&& file != seq!['.']
}

/// What is known of the parent `r` of `path`: none for the empty path, `""`
/// for a plain component, `dir` for `dir/file` split as `parent_split` says,
/// and in any case the start of the path.
pub open spec fn parent_fits(path: Seq<char>, r: Option<Seq<char>>) -> bool {
    &&& path.len() == 0 ==> r is None
    &&& plain_component(path) ==> r == Some(Seq::<char>::empty())
    &&& forall|dir: Seq<char>, file: Seq<char>| #[trigger] parent_split(path, dir, file) ==> r == Some(dir)
    &&& r matches Some(p) ==> p.len() <= path.len() && path.take(p.len() as int) == p
}

/// `Path::parent`, read back as text. std documents that it gives the path
/// without its final component, `""` for a relative path of one component,
/// and nothing for the empty path or one that ends in a root or prefix. The
/// contract claims those cases, and that the parent is always the start of
/// the path; it leaves open what it is for paths of other shapes (a trailing
/// separator, `.` components, Windows prefixes).
#[verifier::external_body]
fn path_parent(path: &str) -> (r: Option<String>)
    ensures
        parent_fits(path@, opt_view(r)),
{
    match std::path::Path::new(path).parent() {
        Some(p) => Some(p.to_string_lossy().into_owned()),
        None => None,
    }
}

/// The directory that holds the state file at `state_path`, where the packs
/// are kept too: its parent, or `.` where it has none.
pub fn data_dir_for(state_path: &str) -> (r: String)
    ensures
        state_path@.len() == 0 ==> r@ == "."@,
        plain_component(state_path@) ==> r@.len() == 0,
        forall|dir: Seq<char>, file: Seq<char>|
            #[trigger] parent_split(state_path@, dir, file) ==> r@ == dir,
        r@ == "."@ || (r@.len() <= state_path@.len() && state_path@.take(r@.len() as int) == r@),
{
    match path_parent(state_path) {
        Some(p) => p,
        None => {
            proof {
                reveal_strlit(".");
            }
            String::from_str(".")
        },
    }
}

/// The file that holds the list of opened packs, inside the data directory.
pub fn packs_list_path(data_dir: &str) -> (r: String)
    ensures
        !has_verbatim_prefix(data_dir@) ==> joined_path(data_dir@, "packs.json"@, r@),
{
    proof {
        reveal_strlit("packs.json");
    }
    path_join(data_dir, "packs.json")
}

/// The lowercase hexadecimal digits and `-` are plain path characters.
proof fn lemma_hex_digits_plain(n: nat, k: nat)
    ensures
        forall|i: int| 0 <= i < hex_digits(n, k).len() ==> !is_path_mark(#[trigger] hex_digits(n, k)[i]),
        hex_digits(n, k).len() == k,
    decreases k,
{
    if k > 0 {
        lemma_hex_digits_plain(n / 16, (k - 1) as nat);
        let d = n % 16;
        assert(d < 16);
        assert(hex_char(d) != '/' && hex_char(d) != '\\' && hex_char(d) != ':');
    }
}

/// The file name of a saved pack: its UUID text and `.json`.
pub open spec fn pack_file_name(id: u128) -> Seq<char> {
    uuid_hyphenated(id) + ".json"@
}

/// The file of the saved pack with id `pack_id`: `<uuid>.json` in the
/// `packs` directory inside the data directory.
pub fn pack_file_path(data_dir: &str, pack_id: u128) -> (r: String)
    ensures
        !has_verbatim_prefix(data_dir@) ==> exists|packs_dir: Seq<char>|
            #[trigger] joined_path(data_dir@, "packs"@, packs_dir) && (!has_verbatim_prefix(packs_dir)
                ==> joined_path(packs_dir, pack_file_name(pack_id), r@)),
{
    proof {
        reveal_strlit("packs");
        reveal_strlit(".json");
        reveal_strlit("-");
    }
    let dir = path_join(data_dir, "packs");
    let mut name = uuid_text(pack_id);
    name.append(".json");
    proof {
        let h = hex_digits(pack_id as nat, 32);
        lemma_hex_digits_plain(pack_id as nat, 32);
        let u = uuid_hyphenated(pack_id);
        assert forall|i: int| 0 <= i < name@.len() implies !is_path_mark(#[trigger] name@[i]) by {
            if i < u.len() {
                assert(name@[i] == u[i]);
                if i < 8 {
                    assert(u[i] == h[i]);
                } else if i == 8 || i == 13 || i == 18 || i == 23 {
                } else if i < 13 {
                    assert(u[i] == h[i - 1]);
                } else if i < 18 {
                    assert(u[i] == h[i - 2]);
                } else if i < 23 {
                    assert(u[i] == h[i - 3]);
                } else {
                    assert(u[i] == h[i - 4]);
                }
            } else {
                assert(name@[i] == ".json"@[i - u.len()]);
            }
        }
    }
    path_join(dir.as_str(), name.as_str())
}

/// The piles whose id is neither `a` nor `b`.
pub open spec fn other_id(a: u128, b: u128) -> spec_fn(Pile) -> bool {
    |p: Pile| p.id != a && p.id != b
}

proof fn lemma_keep_except_positions(piles: Seq<Pile>, a: u128, b: u128)
    ensures
        keep_except(piles, a, b).len() == eligible_indices(piles, other_id(a, b)).len(),
        forall|i: int|
            0 <= i < keep_except(piles, a, b).len() ==> #[trigger] keep_except(piles, a, b)[i]
                == piles[eligible_indices(piles, other_id(a, b))[i]],
    decreases piles.len(),
{
    if piles.len() > 0 {
        let pre = piles.drop_last();
        lemma_keep_except_positions(pre, a, b);
        lemma_eligible_indices(pre, other_id(a, b));
        let kp = eligible_indices(pre, other_id(a, b));
        assert forall|i: int| 0 <= i < keep_except(piles, a, b).len() implies #[trigger] keep_except(
            piles,
            a,
            b,
        )[i] == piles[eligible_indices(piles, other_id(a, b))[i]] by {
            if i < kp.len() {
                assert(keep_except(piles, a, b)[i] == keep_except(pre, a, b)[i]);
                assert(eligible_indices(piles, other_id(a, b))[i] == kp[i]);
                assert(pre[kp[i]] == piles[kp[i]]);
            }
        }
    }
}

/// Law: the piles left by removing the ids `a` and `b` (deleting a pile, or
/// the two piles that a combine merges) are exactly the other piles, each
/// whatever its type or count, in their order: every pile whose id is
/// neither `a` nor `b` stays, and no other.
pub proof fn lemma_keep_except_keeps_other_piles(piles: Seq<Pile>, a: u128, b: u128)
    ensures
        exists|idx: Seq<int>|
            #[trigger] subsequence_at(piles, keep_except(piles, a, b), idx) && forall|k: int|
                0 <= k < piles.len() ==> ((piles[k].id != a && piles[k].id != b) <==> idx.contains(k)),
{
    lemma_keep_except_positions(piles, a, b);
    lemma_eligible_indices(piles, other_id(a, b));
    let idx = eligible_indices(piles, other_id(a, b));
    assert forall|k: int| 0 <= k < piles.len() implies ((piles[k].id != a && piles[k].id != b)
        <==> idx.contains(k)) by {
        if idx.contains(k) {
            let m = choose|m: int| 0 <= m < idx.len() && idx[m] == k;
            assert(other_id(a, b)(piles[idx[m]]));
        }
        if piles[k].id != a && piles[k].id != b {
            assert(other_id(a, b)(piles[k]));
        }
    }
    assert(subsequence_at(piles, keep_except(piles, a, b), idx));
}

} // verus!
