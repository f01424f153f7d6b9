use pack_picker::candidates::{
    energy_piles_of_type, energy_type_candidates, list_contains, trainer_candidates, use_value_pool,
    value_candidates,
};
use pack_picker::models::{Pile, PileType, Rarity};
use pack_picker::odds::{modern_5_card_layout, slot_weight_total, SlotOdds, SlotRole};

fn pile(name: &str, pile_type: PileType, count: u32) -> Pile {
    Pile { id: 0, name: name.to_string(), pile_type, estimated_count: count }
}

fn energy(t: &str, count: u32) -> Pile {
    pile(t, PileType::Energy { energy_type: t.to_string() }, count)
}

fn value(price_rarity: Rarity, rarity: Option<Rarity>, count: u32) -> Pile {
    pile(
        "Value",
        PileType::Value { price_min_usd_bits: None, price_max_usd_bits: None, price_rarity, rarity },
        count,
    )
}

#[test]
fn trainer_list_keeps_order_and_skips_empty() {
    let piles = vec![
        pile("T1", PileType::Trainers, 3),
        pile("Bulk", PileType::Bulk, 50),
        pile("T2", PileType::Trainers, 0),
        pile("T3", PileType::Trainers, 1),
    ];
    assert_eq!(trainer_candidates(&piles), vec![0, 3]);
    assert_eq!(trainer_candidates(&vec![]), Vec::<usize>::new());
}

#[test]
fn value_list_uses_effective_rarity() {
    let piles = vec![
        value(Rarity::UltraRare, Some(Rarity::Common), 9),
        value(Rarity::Rare, None, 9),
        value(Rarity::Common, Some(Rarity::DoubleRare), 9),
        value(Rarity::UltraRare, None, 0),
        pile("Bulk", PileType::Bulk, 9),
    ];
    assert_eq!(value_candidates(&piles, Rarity::Rare), vec![1, 2]);
    assert_eq!(value_candidates(&piles, Rarity::DoubleRare), vec![2]);
    assert_eq!(value_candidates(&piles, Rarity::Common), vec![0, 1, 2]);
}

#[test]
fn energy_types_are_listed_once_in_first_pile_order() {
    let piles = vec![
        energy("Water", 5),
        energy("Fire", 0),
        energy("Fire", 4),
        energy("Water", 2),
        energy("Grass", 3),
    ];
    let out = vec!["Grass".to_string()];
    assert_eq!(energy_type_candidates(&piles, &out), vec!["Water".to_string(), "Fire".to_string()]);
    assert_eq!(energy_type_candidates(&piles, &vec![]).len(), 3);
    assert_eq!(energy_piles_of_type(&piles, &out, &"Water".to_string()), vec![0, 3]);
    assert_eq!(energy_piles_of_type(&piles, &out, &"Fire".to_string()), vec![2]);
    assert_eq!(energy_piles_of_type(&piles, &out, &"Grass".to_string()), Vec::<usize>::new());
}

#[test]
fn value_pool_needs_piles_rare_target_and_coin() {
    assert!(use_value_pool(2, Rarity::Rare, true));
    assert!(use_value_pool(1, Rarity::UltraRare, true));
    assert!(!use_value_pool(2, Rarity::Rare, false));
    assert!(!use_value_pool(0, Rarity::Rare, true));
    assert!(!use_value_pool(2, Rarity::Uncommon, true));
}

#[test]
fn list_membership() {
    let list = vec!["Fire".to_string(), "Water".to_string()];
    assert!(list_contains(&list, &"Water".to_string()));
    assert!(!list_contains(&list, &"water".to_string()));
    assert!(!list_contains(&vec![], &"Fire".to_string()));
}

#[test]
fn roll_bound_is_the_weight_total() {
    let odds = SlotOdds { role: SlotRole::Rare, rarity_weights: vec![(Rarity::Rare, 70), (Rarity::DoubleRare, 20), (Rarity::UltraRare, 10)] };
    assert_eq!(slot_weight_total(&odds), 100);
    let layout = modern_5_card_layout(false);
    assert!(slot_weight_total(&layout.slots[0]) > 0);
}
