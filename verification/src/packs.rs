//! Saved packs: the per-pack record, the list of opened packs, and the edits
//! made to them.

use crate::candidates::{eligible_indices, lemma_eligible_indices, subsequence_at};
use crate::dates::{parse_datetime_local_to_rfc3339, parsed_local_date};
use crate::pack_gen::{option_view, PackResult};
use crate::selection::instruction_text;
use crate::text::{seq_join, string_views, trim_spec, trimmed};
use vstd::prelude::*;

verus! {

/// One slot of a saved pack, with what the user noted about the card pulled.
#[derive(Debug, Clone)]
pub struct SavedPackSlot {
    pub slot_number: u32,
    pub slot_role: String,
    pub pile_name: String,
    pub instruction_display: String,
    pub card_name: Option<String>,
    pub card_notes: Option<String>,
    pub recognized_card_id: Option<String>,
    pub card_holo: Option<bool>,
    pub card_image_url: Option<String>,
}

/// A saved pack (one file per pack). `id` is the 128-bit value of its UUID.
#[derive(Debug, Clone)]
pub struct PackRecord {
    pub id: u128,
    /// RFC 3339 timestamp.
    pub created_at: String,
    pub title: String,
    pub notes: String,
    pub slots: Vec<SavedPackSlot>,
    pub warning: Option<String>,
}

/// An entry of the list of opened packs.
#[derive(Debug, Clone)]
pub struct PackListEntry {
    pub id: u128,
    pub created_at: String,
    pub title: Option<String>,
    pub notes: Option<String>,
    pub card_summary: Option<String>,
}

/// The card names noted in the slots, in order, empty ones left out.
pub open spec fn noted_card_names(slots: Seq<SavedPackSlot>) -> Seq<Seq<char>>
    decreases slots.len(),
{
    if slots.len() == 0 {
        Seq::empty()
    } else {
        let r = noted_card_names(slots.drop_last());
        match slots.last().card_name {
            Some(n) => if n@.len() > 0 {
                r.push(n@)
            } else {
                r
            },
            None => r,
        }
    }
}

/// One-line summary of the card names, joined by a middle dot.
pub open spec fn card_summary_spec(slots: Seq<SavedPackSlot>) -> Option<Seq<char>> {
    let names = noted_card_names(slots);
    if names.len() == 0 {
        None
    } else {
        Some(seq_join(names, " \u{b7} "@))
    }
}

/// Single-line summary of the card names of a pack, joined by " · ".
pub fn card_summary_from_slots(slots: &Vec<SavedPackSlot>) -> (r: Option<String>)
    ensures
        option_view(r) == card_summary_spec(slots@),
{
    let mut names: Vec<String> = Vec::new();
    let mut j: usize = 0;
    while j < slots.len()
        invariant
            j <= slots@.len(),
            string_views(names@) == noted_card_names(slots@.take(j as int)),
        decreases slots@.len() - j,
    {
        assert(slots@.take(j + 1).drop_last() =~= slots@.take(j as int));
        if let Some(n) = &slots[j].card_name {
            if n.as_str().unicode_len() > 0 {
                let ghost before = names@;
                names.push(n.clone());
                assert(string_views(names@) =~= string_views(before).push(n@));
            }
        }
        j = j + 1;
    }
    assert(slots@.take(j as int) =~= slots@);
    if names.len() == 0 {
        None
    } else {
        Some(crate::text::join_strings(&names, " \u{b7} "))
    }
}

/// `None` for an empty string, else a copy of it.
pub open spec fn nonempty_view(s: Seq<char>) -> Option<Seq<char>> {
    if s.len() == 0 {
        None
    } else {
        Some(s)
    }
}

pub fn nonempty_or_none(s: &String) -> (r: Option<String>)
    ensures
        option_view(r) == nonempty_view(s@),
{
    if s.as_str().unicode_len() == 0 {
        None
    } else {
        Some(s.clone())
    }
}

/// The saved slot for a generated slot: its instruction as text, no card yet.
pub open spec fn saved_slot_for(s: crate::pack_gen::SlotInstruction, saved: SavedPackSlot) -> bool {
    &&& saved.slot_number == s.slot_number
    &&& saved.slot_role == s.slot_role
    &&& saved.pile_name == s.pile_name
    &&& saved.instruction_display@ == instruction_text(s.instruction)
    &&& saved.card_name is None
    &&& saved.card_notes is None
    &&& saved.recognized_card_id is None
    &&& saved.card_holo is None
    &&& saved.card_image_url is None
}

/// The record saved for a freshly generated pack: no title or notes yet.
pub fn pack_record_from_result(result: &PackResult, id: u128, created_at: String) -> (r: PackRecord)
    ensures
        r.id == id,
        r.created_at == created_at,
        r.title@.len() == 0,
        r.notes@.len() == 0,
        r.warning == result.warning,
        r.slots@.len() == result.slots@.len(),
        forall|i: int| 0 <= i < r.slots@.len() ==> saved_slot_for(result.slots@[i], #[trigger] r.slots@[i]),
{
    let mut slots: Vec<SavedPackSlot> = Vec::new();
    let mut i: usize = 0;
    while i < result.slots.len()
        invariant
            i <= result.slots@.len(),
            slots@.len() == i,
            forall|k: int| 0 <= k < i ==> saved_slot_for(result.slots@[k], #[trigger] slots@[k]),
        decreases result.slots@.len() - i,
    {
        let s = &result.slots[i];
        slots.push(SavedPackSlot {
            slot_number: s.slot_number,
            slot_role: s.slot_role.clone(),
            pile_name: s.pile_name.clone(),
            instruction_display: s.instruction.display_string(),
            card_name: None,
            card_notes: None,
            recognized_card_id: None,
            card_holo: None,
            card_image_url: None,
        });
        i = i + 1;
    }
    let warning = match &result.warning {
        Some(w) => Some(w.clone()),
        None => None,
    };
    PackRecord { id, created_at, title: String::new(), notes: String::new(), slots, warning }
}

/// `e` is the list entry describing `record`.
pub open spec fn entry_describes(e: PackListEntry, record: PackRecord) -> bool {
    &&& e.id == record.id
    &&& entry_shows(e, record)
}

/// `e` shows the date, title, notes and card summary of `record`.
pub open spec fn entry_shows(e: PackListEntry, record: PackRecord) -> bool {
    &&& e.created_at == record.created_at
    &&& option_view(e.title) == nonempty_view(record.title@)
    &&& option_view(e.notes) == nonempty_view(record.notes@)
    &&& option_view(e.card_summary) == card_summary_spec(record.slots@)
}

/// The list entry for a saved pack.
pub fn list_entry_for_record(record: &PackRecord) -> (e: PackListEntry)
    ensures
        entry_describes(e, *record),
{
    PackListEntry {
        id: record.id,
        created_at: record.created_at.clone(),
        title: nonempty_or_none(&record.title),
        notes: nonempty_or_none(&record.notes),
        card_summary: card_summary_from_slots(&record.slots),
    }
}

/// Put a new, untitled pack at the front of the list.
pub fn record_new_pack(list: &mut Vec<PackListEntry>, id: u128, created_at: String)
    ensures
        final(list)@ == old(list)@.insert(
            0,
            PackListEntry { id, created_at, title: None, notes: None, card_summary: None },
        ),
{
    list.insert(0, PackListEntry { id, created_at, title: None, notes: None, card_summary: None });
}

/// The entries whose id is not `id`, in order.
pub open spec fn entries_except(list: Seq<PackListEntry>, id: u128) -> Seq<PackListEntry>
    decreases list.len(),
{
    if list.len() == 0 {
        Seq::empty()
    } else {
        let r = entries_except(list.drop_last(), id);
        if list.last().id != id {
            r.push(list.last())
        } else {
            r
        }
    }
}

/// Remove every entry with id `id`.
pub fn remove_list_entry(list: &mut Vec<PackListEntry>, id: u128)
    ensures
        final(list)@ == entries_except(old(list)@, id),
{
    let mut kept: Vec<PackListEntry> = Vec::new();
    let mut j: usize = 0;
    while j < list.len()
        invariant
            j <= list@.len(),
            kept@ == entries_except(list@.take(j as int), id),
        decreases list@.len() - j,
    {
        assert(list@.take(j + 1).drop_last() =~= list@.take(j as int));
        if list[j].id != id {
            let e = &list[j];
            kept.push(
                PackListEntry {
                    id: e.id,
                    created_at: e.created_at.clone(),
                    title: clone_opt(&e.title),
                    notes: clone_opt(&e.notes),
                    card_summary: clone_opt(&e.card_summary),
                },
            );
        }
        j = j + 1;
    }
    assert(list@.take(j as int) =~= list@);
    *list = kept;
}

fn clone_opt(o: &Option<String>) -> (r: Option<String>)
    ensures
        r == *o,
{
    match o {
        Some(s) => Some(s.clone()),
        None => None,
    }
}

/// Apply the "edit pack" form: title and notes (trimmed), the date when it
/// parses, and per slot the card name and notes given (trimmed; empty means
/// none). The date is a `datetime-local` value. `slot_names[i]` / `slot_notes[i]` is what the form sent for slot `i`.
pub fn apply_pack_edits(
    record: &mut PackRecord,
    title: Option<String>,
    created_at: Option<String>,
    notes: Option<String>,
    slot_names: &Vec<Option<String>>,
    slot_notes: &Vec<Option<String>>,
)
    requires
        slot_names@.len() == old(record).slots@.len(),
        slot_notes@.len() == old(record).slots@.len(),
    ensures
        final(record).id == old(record).id,
        final(record).warning == old(record).warning,
        final(record).title@ == trim_spec(opt_or_empty(title)),
        final(record).notes@ == trim_spec(opt_or_empty(notes)),
        final(record).created_at@ == match created_at {
            Some(c) => match parsed_local_date(c@) {
                Some(d) => d,
                None => old(record).created_at@,
            },
            None => old(record).created_at@,
        },
        final(record).slots@.len() == old(record).slots@.len(),
        forall|i: int|
            0 <= i < old(record).slots@.len() ==> edited_slot(
                old(record).slots@[i],
                #[trigger] final(record).slots@[i],
                slot_names@[i],
                slot_notes@[i],
            ),
{
    let t = match &title {
        Some(s) => trimmed(s.as_str()),
        None => String::new(),
    };
    record.title = t;
    if let Some(c) = &created_at {
        if let Some(d) = parse_datetime_local_to_rfc3339(c.as_str()) {
            record.created_at = d;
        }
    }
    let n = match &notes {
        Some(s) => trimmed(s.as_str()),
        None => String::new(),
    };
    record.notes = n;
    let ghost before = record.slots@;
    let ghost head = *record;
    let mut i: usize = 0;
    while i < record.slots.len()
        invariant
            record.id == head.id,
            record.title == head.title,
            record.notes == head.notes,
            record.created_at == head.created_at,
            record.warning == head.warning,
            i <= record.slots@.len(),
            record.slots@.len() == before.len(),
            slot_names@.len() == before.len(),
            slot_notes@.len() == before.len(),
            forall|k: int| 0 <= k < i ==> edited_slot(before[k], #[trigger] record.slots@[k], slot_names@[k], slot_notes@[k]),
            forall|k: int| i <= k < before.len() ==> #[trigger] record.slots@[k] == before[k],
        decreases before.len() - i,
    {
        let s = &record.slots[i];
        let card_name = match &slot_names[i] {
            Some(v) => cleaned_field(v),
            None => clone_opt(&s.card_name),
        };
        let card_notes = match &slot_notes[i] {
            Some(v) => cleaned_field(v),
            None => clone_opt(&s.card_notes),
        };
        let updated = SavedPackSlot {
            slot_number: s.slot_number,
            slot_role: s.slot_role.clone(),
            pile_name: s.pile_name.clone(),
            instruction_display: s.instruction_display.clone(),
            card_name,
            card_notes,
            recognized_card_id: clone_opt(&s.recognized_card_id),
            card_holo: s.card_holo,
            card_image_url: clone_opt(&s.card_image_url),
        };
        record.slots.set(i, updated);
        i = i + 1;
    }
}

pub open spec fn opt_or_empty(o: Option<String>) -> Seq<char> {
    match o {
        Some(s) => s@,
        None => Seq::empty(),
    }
}

/// A form field for a card: trimmed, `None` when empty.
pub open spec fn cleaned_field_view(v: Seq<char>) -> Option<Seq<char>> {
    nonempty_view(trim_spec(v))
}

fn cleaned_field(v: &String) -> (r: Option<String>)
    ensures
        option_view(r) == cleaned_field_view(v@),
{
    let t = trimmed(v.as_str());
    nonempty_or_none(&t)
}

/// `after` is slot `before` edited with the form values `name` and `notes`:
/// a value sent replaces the field (trimmed; empty means none), a value not
/// sent keeps it; nothing else changes.
pub open spec fn edited_slot(
    before: SavedPackSlot,
    after: SavedPackSlot,
    name: Option<String>,
    notes: Option<String>,
) -> bool {
    &&& after.slot_number == before.slot_number
    &&& after.slot_role == before.slot_role
    &&& after.pile_name == before.pile_name
    &&& after.instruction_display == before.instruction_display
    &&& after.recognized_card_id == before.recognized_card_id
    &&& after.card_holo == before.card_holo
    &&& after.card_image_url == before.card_image_url
    &&& match name {
        Some(v) => option_view(after.card_name) == cleaned_field_view(v@),
        None => after.card_name == before.card_name,
    }
    &&& match notes {
        Some(v) => option_view(after.card_notes) == cleaned_field_view(v@),
        None => after.card_notes == before.card_notes,
    }
}

/// `a` comes strictly before `b` in lexicographic order of code points (the
/// order of `String`'s `Ord`, since UTF-8 keeps code point order).
pub open spec fn text_lt(a: Seq<char>, b: Seq<char>) -> bool
    decreases a.len(),
{
    if a.len() == 0 {
        b.len() > 0
    } else if b.len() == 0 {
        false
    } else if (a[0] as int) < (b[0] as int) {
        true
    } else if a[0] == b[0] {
        text_lt(a.drop_first(), b.drop_first())
    } else {
        false
    }
}

/// Whether `a` comes strictly before `b` (see `text_lt`).
pub fn str_lt(a: &str, b: &str) -> (r: bool)
    ensures
        r == text_lt(a@, b@),
{
    let na = a.unicode_len();
    let nb = b.unicode_len();
    let mut i: usize = 0;
    assert(a@.skip(0) =~= a@);
    assert(b@.skip(0) =~= b@);
    while i < na && i < nb
        invariant
            na == a@.len(),
            nb == b@.len(),
            i <= na,
            i <= nb,
            text_lt(a@, b@) == text_lt(a@.skip(i as int), b@.skip(i as int)),
        decreases na - i,
    {
        let ca = a.get_char(i);
        let cb = b.get_char(i);
        let ghost ra = a@.skip(i as int);
        let ghost rb = b@.skip(i as int);
        assert(ra[0] == ca && rb[0] == cb);
        if (ca as u32) < (cb as u32) {
            return true;
        }
        if ca != cb {
            return false;
        }
        assert(ra.drop_first() =~= a@.skip(i + 1));
        assert(rb.drop_first() =~= b@.skip(i + 1));
        i = i + 1;
    }
    i == na && i < nb
}

/// `e` inserted into `sorted` (newest first) after every entry at least as
/// recent, before the first older one.
pub open spec fn insert_by_date(sorted: Seq<PackListEntry>, e: PackListEntry) -> Seq<PackListEntry>
    decreases sorted.len(),
{
    if sorted.len() == 0 {
        seq![e]
    } else if text_lt(sorted[0].created_at@, e.created_at@) {
        seq![e] + sorted
    } else {
        seq![sorted[0]] + insert_by_date(sorted.drop_first(), e)
    }
}

/// The list sorted newest first by `created_at`, entries with equal dates
/// keeping their order (what a stable sort gives).
pub open spec fn newest_first(list: Seq<PackListEntry>) -> Seq<PackListEntry>
    decreases list.len(),
{
    if list.len() == 0 {
        Seq::empty()
    } else {
        insert_by_date(newest_first(list.drop_last()), list.last())
    }
}

proof fn lemma_insert_by_date_at(sorted: Seq<PackListEntry>, e: PackListEntry, p: int)
    requires
        0 <= p <= sorted.len(),
        forall|k: int| 0 <= k < p ==> !text_lt((#[trigger] sorted[k]).created_at@, e.created_at@),
        p < sorted.len() ==> text_lt(sorted[p].created_at@, e.created_at@),
    ensures
        insert_by_date(sorted, e) == sorted.insert(p, e),
    decreases sorted.len(),
{
    if sorted.len() == 0 {
        assert(sorted.insert(p, e) =~= seq![e]);
    } else if p == 0 {
        assert(sorted.insert(p, e) =~= seq![e] + sorted);
    } else {
        let d = sorted.drop_first();
        assert forall|k: int| 0 <= k < p - 1 implies !text_lt((#[trigger] d[k]).created_at@, e.created_at@) by {
            assert(d[k] == sorted[k + 1]);
        }
        lemma_insert_by_date_at(d, e, p - 1);
        assert(sorted.insert(p, e) =~= seq![sorted[0]] + d.insert(p - 1, e));
    }
}

fn clone_entry(e: &PackListEntry) -> (r: PackListEntry)
    ensures
        r == *e,
{
    PackListEntry {
        id: e.id,
        created_at: e.created_at.clone(),
        title: clone_opt(&e.title),
        notes: clone_opt(&e.notes),
        card_summary: clone_opt(&e.card_summary),
    }
}

/// Sort the list newest first by `created_at` (stable).
pub fn sort_newest_first(list: &mut Vec<PackListEntry>)
    ensures
        final(list)@ == newest_first(old(list)@),
{
    let mut sorted: Vec<PackListEntry> = Vec::new();
    let mut j: usize = 0;
    while j < list.len()
        invariant
            j <= list@.len(),
            sorted@ == newest_first(list@.take(j as int)),
        decreases list@.len() - j,
    {
        assert(list@.take(j + 1).drop_last() =~= list@.take(j as int));
        let e = clone_entry(&list[j]);
        let mut p: usize = 0;
        while p < sorted.len() && !str_lt(sorted[p].created_at.as_str(), e.created_at.as_str())
            invariant
                p <= sorted@.len(),
                forall|k: int| 0 <= k < p ==> !text_lt((#[trigger] sorted@[k]).created_at@, e.created_at@),
            decreases sorted@.len() - p,
        {
            p = p + 1;
        }
        proof {
            lemma_insert_by_date_at(sorted@, e, p as int);
        }
        sorted.insert(p, e);
        j = j + 1;
    }
    assert(list@.take(j as int) =~= list@);
    *list = sorted;
}

/// `j` is the first entry with id `id`.
pub open spec fn is_first_entry(list: Seq<PackListEntry>, id: u128, j: int) -> bool {
    &&& 0 <= j < list.len()
    &&& list[j].id == id
    &&& forall|k: int| 0 <= k < j ==> (#[trigger] list[k]).id != id
}

/// `mid` is `before` with the first entry with id `id` (if any) showing
/// `record` anew.
pub open spec fn refreshed(
    before: Seq<PackListEntry>,
    mid: Seq<PackListEntry>,
    id: u128,
    record: PackRecord,
) -> bool {
    if exists|j: int| is_first_entry(before, id, j) {
        exists|j: int|
            #[trigger] is_first_entry(before, id, j) && mid == before.update(j, mid[j]) && mid[j].id
                == id && entry_shows(mid[j], record)
    } else {
        mid == before
    }
}

/// After pack `id` was edited: its entry takes the record's title, notes,
/// card summary and date, and the list is sorted newest first.
pub fn refresh_list_entry(list: &mut Vec<PackListEntry>, id: u128, record: &PackRecord)
    ensures
        exists|mid: Seq<PackListEntry>| #[trigger] refreshed(old(list)@, mid, id, *record) && final(list)@
            == newest_first(mid),
{
    let mut j: usize = 0;
    while j < list.len() && list[j].id != id
        invariant
            j <= list@.len(),
            forall|k: int| 0 <= k < j ==> (#[trigger] list@[k]).id != id,
        decreases list@.len() - j,
    {
        j = j + 1;
    }
    let ghost before = list@;
    if j < list.len() {
        let mut e = list_entry_for_record(record);
        e.id = id;
        list.set(j, e);
        assert(is_first_entry(before, id, j as int));
        assert(list@ == before.update(j as int, list@[j as int]));
        assert(refreshed(before, list@, id, *record));
    } else {
        assert forall|k: int| !is_first_entry(before, id, k) by {
            if is_first_entry(before, id, k) {
                assert(before[k].id == id);
            }
        }
        assert(refreshed(before, list@, id, *record));
    }
    let ghost mid = list@;
    sort_newest_first(list);
    assert(refreshed(before, mid, id, *record) && list@ == newest_first(mid));
}

proof fn lemma_text_lt_asymmetric(a: Seq<char>, b: Seq<char>)
    ensures
        text_lt(a, b) ==> !text_lt(b, a),
    decreases a.len(),
{
    if a.len() > 0 && b.len() > 0 && a[0] == b[0] {
        lemma_text_lt_asymmetric(a.drop_first(), b.drop_first());
    }
}

proof fn lemma_text_lt_transitive(a: Seq<char>, b: Seq<char>, c: Seq<char>)
    ensures
        text_lt(a, b) && text_lt(b, c) ==> text_lt(a, c),
    decreases a.len(),
{
    if a.len() > 0 && b.len() > 0 && c.len() > 0 {
        lemma_text_lt_transitive(a.drop_first(), b.drop_first(), c.drop_first());
    }
}

proof fn lemma_text_lt_total(a: Seq<char>, b: Seq<char>)
    ensures
        a != b ==> text_lt(a, b) || text_lt(b, a),
    decreases a.len(),
{
    if a.len() > 0 && b.len() > 0 && a[0] == b[0] {
        lemma_text_lt_total(a.drop_first(), b.drop_first());
        if a.drop_first() == b.drop_first() {
            assert(a =~= seq![a[0]] + a.drop_first());
            assert(b =~= seq![b[0]] + b.drop_first());
        }
    } else if a.len() == 0 && b.len() == 0 {
        assert(a =~= b);
    } else if a.len() > 0 && b.len() > 0 {
        assert((a[0] as int) != (b[0] as int));
    }
}

/// The list is newest first: no entry is older than a later one.
pub open spec fn is_newest_first(s: Seq<PackListEntry>) -> bool {
    forall|i: int, j: int|
        0 <= i < j < s.len() ==> !text_lt((#[trigger] s[i]).created_at@, (#[trigger] s[j]).created_at@)
}

/// Where `insert_by_date` puts `e`: after the leading entries that are not
/// older than it.
pub open spec fn insert_position(sorted: Seq<PackListEntry>, e: PackListEntry) -> int
    decreases sorted.len(),
{
    if sorted.len() == 0 {
        0
    } else if text_lt(sorted[0].created_at@, e.created_at@) {
        0
    } else {
        1 + insert_position(sorted.drop_first(), e)
    }
}

proof fn lemma_insert_position(sorted: Seq<PackListEntry>, e: PackListEntry)
    ensures
        0 <= insert_position(sorted, e) <= sorted.len(),
        forall|k: int|
            0 <= k < insert_position(sorted, e) ==> !text_lt((#[trigger] sorted[k]).created_at@, e.created_at@),
        insert_position(sorted, e) < sorted.len() ==> text_lt(
            sorted[insert_position(sorted, e)].created_at@,
            e.created_at@,
        ),
    decreases sorted.len(),
{
    if sorted.len() > 0 && !text_lt(sorted[0].created_at@, e.created_at@) {
        let d = sorted.drop_first();
        lemma_insert_position(d, e);
        assert forall|k: int| 0 <= k < insert_position(sorted, e) implies !text_lt(
            (#[trigger] sorted[k]).created_at@,
            e.created_at@,
        ) by {
            if k > 0 {
                assert(sorted[k] == d[k - 1]);
            }
        }
    }
}

proof fn lemma_insert_keeps_order(sorted: Seq<PackListEntry>, e: PackListEntry)
    requires
        is_newest_first(sorted),
    ensures
        is_newest_first(insert_by_date(sorted, e)),
        insert_by_date(sorted, e).to_multiset() == sorted.to_multiset().insert(e),
{
    let p = insert_position(sorted, e);
    lemma_insert_position(sorted, e);
    lemma_insert_by_date_at(sorted, e, p);
    let r = sorted.insert(p, e);
    vstd::seq_lib::to_multiset_insert(sorted, p, e);
    assert forall|i: int, j: int| 0 <= i < j < r.len() implies !text_lt(
        (#[trigger] r[i]).created_at@,
        (#[trigger] r[j]).created_at@,
    ) by {
        if j < p {
            assert(r[i] == sorted[i] && r[j] == sorted[j]);
        } else if j == p {
            assert(r[i] == sorted[i] && r[j] == e);
        } else if i == p {
            let k = j - 1;
            assert(r[i] == e && r[j] == sorted[k]);
            let sp = sorted[p].created_at@;
            let sk = sorted[k].created_at@;
            lemma_text_lt_total(sp, sk);
            lemma_text_lt_transitive(sk, sp, e.created_at@);
            lemma_text_lt_asymmetric(sk, e.created_at@);
            if k > p {
                assert(!text_lt(sp, sk));
            }
        } else if i < p {
            assert(r[i] == sorted[i] && r[j] == sorted[j - 1]);
        } else {
            assert(r[i] == sorted[i - 1] && r[j] == sorted[j - 1]);
        }
    }
}

/// Law: sorting newest first gives a list in which no entry is older than a
/// later one, holding the same entries as before.
pub proof fn lemma_newest_first_sorted(list: Seq<PackListEntry>)
    ensures
        is_newest_first(newest_first(list)),
        newest_first(list).to_multiset() == list.to_multiset(),
    decreases list.len(),
{
    if list.len() > 0 {
        lemma_newest_first_sorted(list.drop_last());
        lemma_insert_keeps_order(newest_first(list.drop_last()), list.last());
        vstd::seq_lib::to_multiset_build(list.drop_last(), list.last());
        assert(list.drop_last().push(list.last()) =~= list);
    } else {
        assert(newest_first(list) =~= list);
    }
}

/// The entries whose id is not `id`.
pub open spec fn other_entry(id: u128) -> spec_fn(PackListEntry) -> bool {
    |e: PackListEntry| e.id != id
}

proof fn lemma_entries_except_positions(list: Seq<PackListEntry>, id: u128)
    ensures
        entries_except(list, id).len() == eligible_indices(list, other_entry(id)).len(),
        forall|i: int|
            0 <= i < entries_except(list, id).len() ==> #[trigger] entries_except(list, id)[i]
                == list[eligible_indices(list, other_entry(id))[i]],
    decreases list.len(),
{
    if list.len() > 0 {
        let pre = list.drop_last();
        lemma_entries_except_positions(pre, id);
        lemma_eligible_indices(pre, other_entry(id));
        let kp = eligible_indices(pre, other_entry(id));
        assert forall|i: int| 0 <= i < entries_except(list, id).len() implies #[trigger] entries_except(
            list,
            id,
        )[i] == list[eligible_indices(list, other_entry(id))[i]] by {
            if i < kp.len() {
                assert(entries_except(list, id)[i] == entries_except(pre, id)[i]);
                assert(eligible_indices(list, other_entry(id))[i] == kp[i]);
                assert(pre[kp[i]] == list[kp[i]]);
            }
        }
    }
}

/// Law: removing a pack from the list keeps every other entry, in the order
/// the list had (so a list kept newest first stays newest first), and drops
/// exactly the entries with that id.
pub proof fn lemma_remove_keeps_order(list: Seq<PackListEntry>, id: u128)
    ensures
        exists|idx: Seq<int>|
            #[trigger] subsequence_at(list, entries_except(list, id), idx) && forall|k: int|
                0 <= k < list.len() ==> (list[k].id != id <==> idx.contains(k)),
{
    lemma_entries_except_positions(list, id);
    lemma_eligible_indices(list, other_entry(id));
    let idx = eligible_indices(list, other_entry(id));
    assert forall|k: int| 0 <= k < list.len() implies (list[k].id != id <==> idx.contains(k)) by {
        if idx.contains(k) {
            let m = choose|m: int| 0 <= m < idx.len() && idx[m] == k;
            assert(other_entry(id)(list[idx[m]]));
        }
        if list[k].id != id {
            assert(other_entry(id)(list[k]));
        }
    }
    assert(subsequence_at(list, entries_except(list, id), idx));
}

} // verus!
