use pack_picker::models::{PackTypeId, Rarity};
use pack_picker::odds::{modern_5_card_layout, rarity_at_least, rarity_for_roll, roll_rarity_for_slot, PackLayout, SlotOdds, SlotRole};
use rand::rngs::StdRng;
use rand::SeedableRng;

fn roles(layout: &PackLayout) -> Vec<SlotRole> {
    layout.slots.iter().map(|s| s.role).collect()
}

#[test]
fn modern_layout_slot_order() {
    let layout = PackLayout::for_pack_type(PackTypeId::Modern, false).expect("modern is implemented");
    assert_eq!(layout.slot_count, 5);
    assert_eq!(
        roles(&layout),
        vec![SlotRole::Common, SlotRole::Common, SlotRole::Trainer, SlotRole::Uncommon, SlotRole::Rare]
    );
    assert_eq!(layout.slots[0].rarity_weights, vec![(Rarity::Common, 90), (Rarity::Uncommon, 10)]);
    assert_eq!(layout.slots[3].rarity_weights, vec![(Rarity::Common, 25), (Rarity::Uncommon, 75)]);
    assert_eq!(
        layout.slots[4].rarity_weights,
        vec![(Rarity::Rare, 800), (Rarity::DoubleRare, 140), (Rarity::UltraRare, 60)]
    );
}

#[test]
fn modern_layout_with_energy_slot() {
    let layout = modern_5_card_layout(true);
    assert_eq!(
        roles(&layout),
        vec![SlotRole::Common, SlotRole::Energy, SlotRole::Trainer, SlotRole::Uncommon, SlotRole::Rare]
    );
    assert_eq!(layout.slots[1].rarity_weights, vec![(Rarity::Common, 1)]);
}

#[test]
fn stubbed_pack_types_have_no_layout() {
    assert!(PackLayout::for_pack_type(PackTypeId::Classic, false).is_none());
    assert!(PackLayout::for_pack_type(PackTypeId::Legacy, true).is_none());
}

#[test]
fn roll_maps_to_weight_bands() {
    let w = vec![(Rarity::Rare, 800), (Rarity::DoubleRare, 140), (Rarity::UltraRare, 60)];
    assert_eq!(rarity_for_roll(&w, 0), Rarity::Rare);
    assert_eq!(rarity_for_roll(&w, 799), Rarity::Rare);
    assert_eq!(rarity_for_roll(&w, 800), Rarity::DoubleRare);
    assert_eq!(rarity_for_roll(&w, 939), Rarity::DoubleRare);
    assert_eq!(rarity_for_roll(&w, 940), Rarity::UltraRare);
    assert_eq!(rarity_for_roll(&w, 999), Rarity::UltraRare);
    // Past the bands: the last rarity listed; no bands at all: Common.
    assert_eq!(rarity_for_roll(&w, 5000), Rarity::UltraRare);
    assert_eq!(rarity_for_roll(&vec![], 3), Rarity::Common);
}

#[test]
fn rolled_rarity_is_one_of_the_weights() {
    let mut rng = StdRng::seed_from_u64(3);
    let odds = SlotOdds { role: SlotRole::Uncommon, rarity_weights: vec![(Rarity::Common, 25), (Rarity::Uncommon, 75)] };
    for _ in 0..200 {
        let r = roll_rarity_for_slot(&odds, &mut rng);
        assert!(r == Rarity::Common || r == Rarity::Uncommon);
    }
    let only = SlotOdds { role: SlotRole::Rare, rarity_weights: vec![(Rarity::Common, 0), (Rarity::DoubleRare, 5)] };
    for _ in 0..50 {
        assert_eq!(roll_rarity_for_slot(&only, &mut rng), Rarity::DoubleRare);
    }
}

#[test]
fn rarity_order_is_total() {
    let all = [Rarity::Common, Rarity::Uncommon, Rarity::Rare, Rarity::DoubleRare, Rarity::UltraRare];
    for (i, a) in all.iter().enumerate() {
        for (j, b) in all.iter().enumerate() {
            assert_eq!(rarity_at_least(*a, *b), i >= j);
        }
    }
    assert!(rarity_at_least(Rarity::UltraRare, Rarity::Rare));
    assert!(!rarity_at_least(Rarity::Uncommon, Rarity::Rare));
}

#[test]
fn pack_type_labels() {
    assert_eq!(PackTypeId::Modern.label(), "Modern");
    assert_eq!(PackTypeId::Classic.label(), "Classic (coming soon)");
    assert_eq!(PackTypeId::Legacy.label(), "Legacy (coming soon)");
    assert!(PackTypeId::Modern.is_implemented());
    assert!(!PackTypeId::Classic.is_implemented());
    assert!(!PackTypeId::Legacy.is_implemented());
    assert_eq!(PackTypeId::default(), PackTypeId::Modern);
}
