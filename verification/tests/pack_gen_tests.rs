use pack_picker::models::{PackTypeId, Pile, PileType, Rarity, Settings};
use pack_picker::pack_gen::{generate_pack, locate_in_bulk, slot_role_label};
use pack_picker::odds::SlotRole;
use pack_picker::state::PersistedState;
use rand::rngs::StdRng;
use rand::SeedableRng;

fn pile(id: u128, name: &str, pile_type: PileType, count: u32) -> Pile {
    Pile { id, name: name.to_string(), pile_type, estimated_count: count }
}

fn settings(add_energy: bool, out: &[&str]) -> Settings {
    Settings {
        pack_size: 5,
        pack_type: PackTypeId::Modern,
        add_energy_to_packs: add_energy,
        energy_types_out: out.iter().map(|s| s.to_string()).collect(),
    }
}

fn value(min_bits: Option<u64>, price_rarity: Rarity, rarity: Option<Rarity>) -> PileType {
    PileType::Value { price_min_usd_bits: min_bits, price_max_usd_bits: None, price_rarity, rarity }
}

fn counts(s: &PersistedState) -> Vec<u32> {
    s.piles.iter().map(|p| p.estimated_count).collect()
}

#[test]
fn stubbed_pack_type_is_an_error_and_changes_nothing() {
    let mut s = PersistedState { piles: vec![pile(1, "Bulk", PileType::Bulk, 100)], settings: settings(false, &[]) };
    s.settings.pack_type = PackTypeId::Classic;
    let mut rng = StdRng::seed_from_u64(1);
    assert_eq!(generate_pack(&mut s, &mut rng).unwrap_err(), "Pack type not implemented");
    assert_eq!(counts(&s), vec![100]);
}

#[test]
fn missing_piles_give_the_first_error_in_slot_order() {
    let mut rng = StdRng::seed_from_u64(2);
    let mut s = PersistedState { piles: vec![pile(1, "T", PileType::Trainers, 50)], settings: settings(false, &[]) };
    assert_eq!(generate_pack(&mut s, &mut rng).unwrap_err(), "No bulk piles available");
    // Empty bulk piles do not count.
    s.piles.push(pile(2, "B", PileType::Bulk, 0));
    assert_eq!(generate_pack(&mut s, &mut rng).unwrap_err(), "No bulk piles available");
    let mut s = PersistedState { piles: vec![pile(2, "B", PileType::Bulk, 80)], settings: settings(false, &[]) };
    assert_eq!(generate_pack(&mut s, &mut rng).unwrap_err(), "No trainers pile available");
    assert_eq!(counts(&s), vec![80]);
    let mut s = PersistedState {
        piles: vec![pile(2, "B", PileType::Bulk, 80), pile(3, "T", PileType::Trainers, 50)],
        settings: settings(true, &[]),
    };
    assert_eq!(generate_pack(&mut s, &mut rng).unwrap_err(), "No energy piles available (or all marked out)");
    s.piles.push(pile(4, "Fire", PileType::Energy { energy_type: "Fire".to_string() }, 20));
    s.settings.energy_types_out = vec!["Fire".to_string()];
    assert_eq!(generate_pack(&mut s, &mut rng).unwrap_err(), "No energy piles available (or all marked out)");
    assert_eq!(counts(&s), vec![80, 50, 20]);
}

#[test]
fn pack_slots_follow_layout_and_counts_drop() {
    let mut rng = StdRng::seed_from_u64(42);
    for _ in 0..30 {
        let mut s = PersistedState {
            piles: vec![
                pile(1, "Bulk A", PileType::Bulk, 300),
                pile(2, "Trainers", PileType::Trainers, 200),
                pile(3, "Water", PileType::Energy { energy_type: "Water".to_string() }, 100),
                pile(4, "Fire", PileType::Energy { energy_type: "Fire".to_string() }, 100),
                pile(5, "Hits", value(None, Rarity::DoubleRare, None), 100),
                pile(6, "Bulk B", PileType::Bulk, 300),
            ],
            settings: settings(true, &["Fire"]),
        };
        let before: u32 = s.piles.iter().map(|p| p.estimated_count).sum();
        let res = generate_pack(&mut s, &mut rng).expect("all piles present");
        assert_eq!(res.slots.len(), 5);
        let roles: Vec<&str> = res.slots.iter().map(|x| x.slot_role.as_str()).collect();
        assert_eq!(roles, vec!["Common", "Energy", "Trainer", "Uncommon", "Rare"]);
        for (i, slot) in res.slots.iter().enumerate() {
            assert_eq!(slot.slot_number, i as u32 + 1);
        }
        assert_eq!(res.slots[1].pile_id, 3);
        assert_eq!(res.slots[1].pile_name, "Water");
        assert_eq!(res.slots[2].pile_id, 2);
        for i in [0usize, 3] {
            assert!(res.slots[i].pile_id == 1 || res.slots[i].pile_id == 6);
        }
        assert!([1u128, 5, 6].contains(&res.slots[4].pile_id));
        let after: u32 = s.piles.iter().map(|p| p.estimated_count).sum();
        assert_eq!(before - after, 5);
        for p in &s.piles {
            let picked = res.slots.iter().filter(|x| x.pile_id == p.id).count() as u32;
            let start_count = match p.id { 1 | 6 => 300, 2 => 200, _ => 100 };
            assert_eq!(p.estimated_count, start_count - picked);
        }
        assert!(res.warning.is_none());
    }
}

#[test]
fn counts_saturate_at_zero_and_warning_lists_low_piles() {
    let mut rng = StdRng::seed_from_u64(5);
    let mut s = PersistedState {
        piles: vec![pile(1, "Tiny bulk", PileType::Bulk, 1), pile(2, "Trainers", PileType::Trainers, 39)],
        settings: settings(false, &[]),
    };
    let res = generate_pack(&mut s, &mut rng).expect("a bulk and a trainers pile");
    // Four rarity slots drew from the one-card bulk pile.
    assert_eq!(counts(&s), vec![0, 38]);
    assert_eq!(
        res.warning.as_deref(),
        Some("Some piles are below 40 cards; consider refilling or combining: Tiny bulk, Trainers")
    );
    for slot in &res.slots {
        if slot.pile_id == 1 {
            assert!(slot.instruction.sequence.is_empty());
            assert_eq!(slot.instruction.final_number, 2);
        }
    }
}

#[test]
fn warning_joins_names_in_pile_order() {
    let mut rng = StdRng::seed_from_u64(9);
    let mut s = PersistedState {
        piles: vec![
            pile(1, "Big bulk", PileType::Bulk, 1000),
            pile(2, "Low one", PileType::Bulk, 0),
            pile(3, "Trainers", PileType::Trainers, 12),
            pile(4, "Spare", PileType::Trainers, 1000),
        ],
        settings: settings(false, &[]),
    };
    // Whichever trainer pile is drawn, "Trainers" ends below 40; the empty
    // bulk pile is listed too.
    let res = generate_pack(&mut s, &mut rng).unwrap();
    let low: Vec<&str> = s.piles.iter().filter(|p| p.estimated_count < 40).map(|p| p.name.as_str()).collect();
    assert_eq!(low, vec!["Low one", "Trainers"]);
    assert_eq!(
        res.warning.unwrap(),
        "Some piles are below 40 cards; consider refilling or combining: Low one, Trainers"
    );
}

#[test]
fn only_empty_low_piles_still_warn() {
    let mut rng = StdRng::seed_from_u64(21);
    let mut s = PersistedState {
        piles: vec![
            pile(1, "Bulk", PileType::Bulk, 500),
            pile(2, "Trainers", PileType::Trainers, 500),
            pile(3, "Empty", PileType::Bulk, 0),
        ],
        settings: settings(false, &[]),
    };
    let res = generate_pack(&mut s, &mut rng).unwrap();
    assert_eq!(res.warning.as_deref(), Some("Some piles are below 40 cards; consider refilling or combining: Empty"));
}

#[test]
fn energy_types_are_drawn_per_type() {
    // Three Water piles and one Grass pile: both types must come up.
    let mut rng = StdRng::seed_from_u64(8);
    let mut seen_water = false;
    let mut seen_grass = false;
    for _ in 0..60 {
        let mut s = PersistedState {
            piles: vec![
                pile(1, "Bulk", PileType::Bulk, 500),
                pile(2, "Trainers", PileType::Trainers, 500),
                pile(3, "W1", PileType::Energy { energy_type: "Water".to_string() }, 50),
                pile(4, "W2", PileType::Energy { energy_type: "Water".to_string() }, 50),
                pile(5, "W3", PileType::Energy { energy_type: "Water".to_string() }, 0),
                pile(6, "G", PileType::Energy { energy_type: "Grass".to_string() }, 50),
            ],
            settings: settings(true, &[]),
        };
        let res = generate_pack(&mut s, &mut rng).unwrap();
        match res.slots[1].pile_id {
            3 | 4 => seen_water = true,
            6 => seen_grass = true,
            other => panic!("energy slot drew pile {}", other),
        }
    }
    assert!(seen_water && seen_grass);
}

#[test]
fn stubbed_pack_type_ignores_huge_bulk_counts() {
    let mut s = PersistedState {
        piles: vec![pile(1, "A", PileType::Bulk, u32::MAX), pile(2, "B", PileType::Bulk, u32::MAX)],
        settings: settings(false, &[]),
    };
    s.settings.pack_type = PackTypeId::Legacy;
    let mut rng = StdRng::seed_from_u64(1);
    assert_eq!(generate_pack(&mut s, &mut rng).unwrap_err(), "Pack type not implemented");
    assert_eq!(counts(&s), vec![u32::MAX, u32::MAX]);
}

#[test]
fn value_piles_serve_only_rare_slots() {
    let mut rng = StdRng::seed_from_u64(11);
    let mut used_value = false;
    for _ in 0..60 {
        let mut s = PersistedState {
            piles: vec![
                pile(1, "Bulk", PileType::Bulk, 500),
                pile(2, "Trainers", PileType::Trainers, 500),
                pile(3, "Ultra", value(Some(0x4049000000000000), Rarity::Common, Some(Rarity::UltraRare)), 500),
            ],
            settings: settings(false, &[]),
        };
        let res = generate_pack(&mut s, &mut rng).unwrap();
        for i in 0..4 {
            assert_ne!(res.slots[i].pile_id, 3);
        }
        if res.slots[4].pile_id == 3 {
            used_value = true;
        }
    }
    assert!(used_value);
    // A value pile whose rarity is below Rare is never used.
    for _ in 0..30 {
        let mut s = PersistedState {
            piles: vec![
                pile(1, "Bulk", PileType::Bulk, 500),
                pile(2, "Trainers", PileType::Trainers, 500),
                pile(3, "Cheap", value(None, Rarity::Uncommon, None), 500),
            ],
            settings: settings(false, &[]),
        };
        let res = generate_pack(&mut s, &mut rng).unwrap();
        assert!(res.slots.iter().all(|x| x.pile_id != 3));
    }
}

#[test]
fn bulk_range_positions() {
    let piles = vec![
        pile(1, "a", PileType::Bulk, 3),
        pile(2, "t", PileType::Trainers, 100),
        pile(3, "b", PileType::Bulk, 0),
        pile(4, "c", PileType::Bulk, 5),
    ];
    assert_eq!(locate_in_bulk(&piles, 0), (0, 0));
    assert_eq!(locate_in_bulk(&piles, 2), (0, 2));
    assert_eq!(locate_in_bulk(&piles, 3), (3, 0));
    assert_eq!(locate_in_bulk(&piles, 7), (3, 4));
}

#[test]
fn slot_role_labels() {
    assert_eq!(slot_role_label(SlotRole::Common), "Common");
    assert_eq!(slot_role_label(SlotRole::Uncommon), "Uncommon");
    assert_eq!(slot_role_label(SlotRole::Rare), "Rare");
    assert_eq!(slot_role_label(SlotRole::Energy), "Energy");
    assert_eq!(slot_role_label(SlotRole::Trainer), "Trainer");
}
