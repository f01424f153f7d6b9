use pack_picker::packs::{
    apply_pack_edits, card_summary_from_slots, list_entry_for_record, nonempty_or_none, pack_record_from_result,
    record_new_pack, refresh_list_entry, remove_list_entry, sort_newest_first, str_lt, PackListEntry, PackRecord,
    SavedPackSlot,
};
use pack_picker::pack_gen::{PackResult, SlotInstruction};
use pack_picker::selection::{AbInstruction, Half};

fn slot(n: u32, card: Option<&str>) -> SavedPackSlot {
    SavedPackSlot {
        slot_number: n,
        slot_role: "Common".to_string(),
        pile_name: "Bulk".to_string(),
        instruction_display: "A \u{2014} 3".to_string(),
        card_name: card.map(|c| c.to_string()),
        card_notes: None,
        recognized_card_id: None,
        card_holo: None,
        card_image_url: None,
    }
}

fn entry(id: u128, created_at: &str) -> PackListEntry {
    PackListEntry { id, created_at: created_at.to_string(), title: None, notes: None, card_summary: None }
}

fn record(id: u128, slots: Vec<SavedPackSlot>) -> PackRecord {
    PackRecord {
        id,
        created_at: "2024-07-15T15:24:00+00:00".to_string(),
        title: String::new(),
        notes: String::new(),
        slots,
        warning: Some("careful".to_string()),
    }
}

#[test]
fn card_summary_joins_noted_names() {
    assert_eq!(card_summary_from_slots(&vec![slot(1, None), slot(2, Some(""))]), None);
    assert_eq!(
        card_summary_from_slots(&vec![slot(1, Some("Pikachu")), slot(2, None), slot(3, Some("")), slot(4, Some("Eevee"))]),
        Some("Pikachu \u{b7} Eevee".to_string())
    );
}

#[test]
fn record_for_generated_pack() {
    let result = PackResult {
        slots: vec![SlotInstruction {
            slot_number: 1,
            slot_role: "Rare".to_string(),
            pile_id: 9,
            pile_name: "Hits".to_string(),
            instruction: AbInstruction { sequence: vec![Half::B, Half::A], final_number: 4 },
        }],
        warning: None,
    };
    let r = pack_record_from_result(&result, 77, "2024-01-01T00:00:00+00:00".to_string());
    assert_eq!(r.id, 77);
    assert_eq!(r.created_at, "2024-01-01T00:00:00+00:00");
    assert!(r.title.is_empty() && r.notes.is_empty());
    assert_eq!(r.slots.len(), 1);
    assert_eq!(r.slots[0].instruction_display, "B, A \u{2014} 4");
    assert_eq!(r.slots[0].pile_name, "Hits");
    assert_eq!(r.slots[0].slot_role, "Rare");
    assert!(r.slots[0].card_name.is_none());
    assert!(r.warning.is_none());
}

#[test]
fn list_entries() {
    let mut rec = record(5, vec![slot(1, Some("Mew"))]);
    rec.title = "Friday".to_string();
    let e = list_entry_for_record(&rec);
    assert_eq!(e.id, 5);
    assert_eq!(e.title.as_deref(), Some("Friday"));
    assert_eq!(e.notes, None);
    assert_eq!(e.card_summary.as_deref(), Some("Mew"));
    assert_eq!(nonempty_or_none(&String::new()), None);
    let mut list = vec![entry(1, "b")];
    record_new_pack(&mut list, 2, "c".to_string());
    assert_eq!(list.iter().map(|e| e.id).collect::<Vec<_>>(), vec![2, 1]);
    remove_list_entry(&mut list, 1);
    assert_eq!(list.iter().map(|e| e.id).collect::<Vec<_>>(), vec![2]);
}

#[test]
fn sort_is_newest_first_and_stable() {
    let mut list = vec![
        entry(1, "2024-01-01T00:00:00+00:00"),
        entry(2, "2024-03-01T00:00:00+00:00"),
        entry(3, "2024-01-01T00:00:00+00:00"),
        entry(4, "2025-01-01T00:00:00+00:00"),
        entry(5, "2024-03-01T00:00:00+00:00"),
    ];
    sort_newest_first(&mut list);
    assert_eq!(list.iter().map(|e| e.id).collect::<Vec<_>>(), vec![4, 2, 5, 1, 3]);
    assert!(str_lt("abc", "abd"));
    assert!(str_lt("ab", "abc"));
    assert!(!str_lt("abc", "abc"));
    assert!(!str_lt("b", "abc"));
}

#[test]
fn refresh_updates_entry_then_sorts() {
    let mut list = vec![entry(1, "2024-05-01"), entry(2, "2024-04-01")];
    let mut rec = record(2, vec![slot(1, Some("Onix"))]);
    rec.created_at = "2024-06-01".to_string();
    rec.notes = "from Sam".to_string();
    refresh_list_entry(&mut list, 2, &rec);
    assert_eq!(list[0].id, 2);
    assert_eq!(list[0].created_at, "2024-06-01");
    assert_eq!(list[0].notes.as_deref(), Some("from Sam"));
    assert_eq!(list[0].card_summary.as_deref(), Some("Onix"));
    assert_eq!(list[1].id, 1);
    let missing = record(9, vec![]);
    refresh_list_entry(&mut list, 9, &missing);
    assert_eq!(list.iter().map(|e| e.id).collect::<Vec<_>>(), vec![2, 1]);
}

#[test]
fn pack_edits() {
    let mut rec = record(3, vec![slot(1, Some("Old")), slot(2, Some("Keep"))]);
    apply_pack_edits(
        &mut rec,
        Some("  Night pull ".to_string()),
        Some("2024-07-15T15:24".to_string()),
        None,
        &vec![Some("  ".to_string()), None],
        &vec![Some(" shiny ".to_string()), None],
    );
    assert_eq!(rec.title, "Night pull");
    assert_eq!(rec.notes, "");
    assert_eq!(rec.created_at, "2024-07-15T15:24:00+00:00");
    assert_eq!(rec.slots[0].card_name, None);
    assert_eq!(rec.slots[0].card_notes.as_deref(), Some("shiny"));
    assert_eq!(rec.slots[1].card_name.as_deref(), Some("Keep"));
    assert_eq!(rec.warning.as_deref(), Some("careful"));
    // A date that does not parse keeps the old one.
    apply_pack_edits(&mut rec, None, Some("yesterday".to_string()), Some("n".to_string()), &vec![None, None], &vec![None, None]);
    assert_eq!(rec.created_at, "2024-07-15T15:24:00+00:00");
    assert_eq!(rec.title, "");
    assert_eq!(rec.notes, "n");
}
