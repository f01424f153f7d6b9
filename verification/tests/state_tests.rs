use pack_picker::models::{PackTypeId, Pile, PileType, Rarity, Settings};
use pack_picker::state::{
    add_pile, apply_settings_form, combine_piles, delete_pile, pile_type_from_form, position_of_id, split_pile,
    update_pile, PersistedState,
};

fn pile(id: u128, name: &str, pile_type: PileType, count: u32) -> Pile {
    Pile { id, name: name.to_string(), pile_type, estimated_count: count }
}

fn state(piles: Vec<Pile>) -> PersistedState {
    PersistedState { piles, settings: Settings::default() }
}

fn total(s: &PersistedState) -> u32 {
    s.piles.iter().map(|p| p.estimated_count).sum()
}

#[test]
fn default_state_and_settings() {
    let s = PersistedState::default();
    assert!(s.piles.is_empty());
    assert_eq!(s.settings.pack_size, 5);
    assert_eq!(s.settings.pack_type, PackTypeId::Modern);
    assert!(!s.settings.add_energy_to_packs);
    assert!(s.settings.energy_types_out.is_empty());
}

#[test]
fn new_piles_get_version_4_ids() {
    let a = Pile::new("a".to_string(), PileType::Bulk, 3);
    let b = Pile::new("b".to_string(), PileType::Bulk, 3);
    assert_ne!(a.id, b.id);
    assert_eq!(a.id & 0xF000C000000000000000u128, 0x40008000000000000000u128);
    assert_eq!(a.name, "a");
    assert_eq!(a.estimated_count, 3);
}

#[test]
fn first_pile_with_id() {
    let piles = vec![pile(5, "x", PileType::Bulk, 1), pile(6, "y", PileType::Bulk, 2), pile(6, "z", PileType::Bulk, 3)];
    assert_eq!(position_of_id(&piles, 6), Some(1));
    assert_eq!(position_of_id(&piles, 5), Some(0));
    assert_eq!(position_of_id(&piles, 9), None);
}

#[test]
fn add_pile_trims_name() {
    let mut s = state(vec![]);
    add_pile(&mut s, "  Bulk commons \n", PileType::Bulk, 100);
    assert_eq!(s.piles.len(), 1);
    assert_eq!(s.piles[0].name, "Bulk commons");
    assert_eq!(s.piles[0].estimated_count, 100);
}

#[test]
fn form_pile_types() {
    assert!(matches!(pile_type_from_form("trainers", None, None, None, Rarity::Rare), PileType::Trainers));
    match pile_type_from_form("energy", None, None, None, Rarity::Rare) {
        PileType::Energy { energy_type } => assert_eq!(energy_type, "Basic"),
        _ => panic!("energy expected"),
    }
    match pile_type_from_form("energy", Some("Fire".to_string()), None, None, Rarity::Rare) {
        PileType::Energy { energy_type } => assert_eq!(energy_type, "Fire"),
        _ => panic!("energy expected"),
    }
    match pile_type_from_form("value", None, Some(1), Some(2), Rarity::Uncommon) {
        PileType::Value { price_min_usd_bits, price_max_usd_bits, price_rarity, rarity } => {
            assert_eq!((price_min_usd_bits, price_max_usd_bits, price_rarity, rarity), (Some(1), Some(2), Rarity::Uncommon, None));
        }
        _ => panic!("value expected"),
    }
    assert!(matches!(pile_type_from_form("bulk", None, None, None, Rarity::Rare), PileType::Bulk));
    assert!(matches!(pile_type_from_form("anything", None, None, None, Rarity::Rare), PileType::Bulk));
}

#[test]
fn update_pile_edits_fields_for_its_type() {
    let mut s = state(vec![
        pile(1, "Fire", PileType::Energy { energy_type: "Fire".to_string() }, 10),
        pile(2, "Hits", PileType::Value { price_min_usd_bits: None, price_max_usd_bits: None, price_rarity: Rarity::Rare, rarity: Some(Rarity::UltraRare) }, 10),
        pile(3, "Bulk", PileType::Bulk, 10),
    ]);
    assert!(update_pile(&mut s, 1, " Flames ", 7, Some(" Fire2 ".to_string()), Some(9), None, Rarity::Common));
    assert_eq!(s.piles[0].name, "Flames");
    assert_eq!(s.piles[0].estimated_count, 7);
    match &s.piles[0].pile_type {
        PileType::Energy { energy_type } => assert_eq!(energy_type, "Fire2"),
        _ => panic!("still energy"),
    }
    assert!(update_pile(&mut s, 2, "Hits", 8, Some("x".to_string()), Some(4), Some(5), Rarity::DoubleRare));
    match &s.piles[1].pile_type {
        PileType::Value { price_min_usd_bits, price_max_usd_bits, price_rarity, rarity } => {
            assert_eq!((*price_min_usd_bits, *price_max_usd_bits, *price_rarity, *rarity), (Some(4), Some(5), Rarity::DoubleRare, Some(Rarity::UltraRare)));
        }
        _ => panic!("still value"),
    }
    assert!(update_pile(&mut s, 3, "B", 0, None, None, None, Rarity::Rare));
    assert!(matches!(s.piles[2].pile_type, PileType::Bulk));
    assert_eq!(s.piles[2].estimated_count, 0);
    assert!(!update_pile(&mut s, 99, "nope", 1, None, None, None, Rarity::Rare));
    assert_eq!(s.piles.len(), 3);
}

#[test]
fn delete_removes_every_pile_with_the_id() {
    let mut s = state(vec![pile(1, "a", PileType::Bulk, 1), pile(2, "b", PileType::Bulk, 2), pile(1, "c", PileType::Bulk, 3)]);
    delete_pile(&mut s, 1);
    assert_eq!(s.piles.len(), 1);
    assert_eq!(s.piles[0].name, "b");
    delete_pile(&mut s, 7);
    assert_eq!(s.piles.len(), 1);
}

#[test]
fn combine_sums_counts_and_keeps_the_total() {
    let mut s = state(vec![
        pile(1, "a", PileType::Trainers, 30),
        pile(2, "b", PileType::Bulk, 12),
        pile(3, "c", PileType::Bulk, 5),
    ]);
    let before = total(&s);
    combine_piles(&mut s, 1, 2, " merged ", 0);
    assert_eq!(total(&s), before);
    assert_eq!(s.piles.len(), 2);
    assert_eq!(s.piles[0].name, "c");
    assert_eq!(s.piles[1].name, "merged");
    assert_eq!(s.piles[1].estimated_count, 42);
    assert!(matches!(s.piles[1].pile_type, PileType::Trainers));
}

#[test]
fn combine_with_given_count_or_missing_piles() {
    let mut s = state(vec![pile(1, "a", PileType::Bulk, 30), pile(2, "b", PileType::Bulk, 12)]);
    combine_piles(&mut s, 1, 2, "m", 100);
    assert_eq!(s.piles.len(), 1);
    assert_eq!(s.piles[0].estimated_count, 100);
    let mut s = state(vec![pile(1, "a", PileType::Energy { energy_type: "W".to_string() }, 30)]);
    combine_piles(&mut s, 8, 9, "m", 0);
    assert_eq!(s.piles.len(), 2);
    assert_eq!(s.piles[1].estimated_count, 0);
    assert!(matches!(s.piles[1].pile_type, PileType::Bulk));
}

#[test]
fn split_moves_cards_and_keeps_the_total() {
    let mut s = state(vec![pile(1, "Bulk", PileType::Bulk, 100), pile(2, "T", PileType::Trainers, 5)]);
    assert!(split_pile(&mut s, 1, " Bulk part 2 ", 30));
    assert_eq!(total(&s), 105);
    assert_eq!(s.piles[0].estimated_count, 70);
    assert_eq!(s.piles[2].name, "Bulk part 2");
    assert_eq!(s.piles[2].estimated_count, 30);
    assert!(matches!(s.piles[2].pile_type, PileType::Bulk));
    // More than the pile holds: everything moves.
    assert!(split_pile(&mut s, 2, "all", 50));
    assert_eq!(s.piles[1].estimated_count, 0);
    assert_eq!(s.piles[3].estimated_count, 5);
    assert_eq!(total(&s), 105);
    // Nothing to move, or no such pile.
    assert!(!split_pile(&mut s, 2, "none", 3));
    assert!(!split_pile(&mut s, 1, "zero", 0));
    assert!(!split_pile(&mut s, 42, "missing", 3));
    assert_eq!(s.piles.len(), 4);
}

#[test]
fn settings_form_fields() {
    let mut st = Settings::default();
    apply_settings_form(&mut st, Some(0), Some("classic"), Some("1"), Some(" Fire, ,Water ,, "));
    assert_eq!(st.pack_size, 1);
    assert_eq!(st.pack_type, PackTypeId::Classic);
    assert!(st.add_energy_to_packs);
    assert_eq!(st.energy_types_out, vec!["Fire".to_string(), "Water".to_string()]);
    apply_settings_form(&mut st, Some(99), Some("legacy"), None, None);
    assert_eq!(st.pack_size, 20);
    assert_eq!(st.pack_type, PackTypeId::Legacy);
    assert!(!st.add_energy_to_packs);
    assert_eq!(st.energy_types_out, vec!["Fire".to_string(), "Water".to_string()]);
    apply_settings_form(&mut st, Some(7), Some("whatever"), Some("on"), Some(""));
    assert_eq!(st.pack_size, 7);
    assert_eq!(st.pack_type, PackTypeId::Modern);
    assert!(!st.add_energy_to_packs);
    assert!(st.energy_types_out.is_empty());
    apply_settings_form(&mut st, None, None, Some("1"), None);
    assert_eq!(st.pack_size, 7);
    assert!(st.add_energy_to_packs);
}
