//! HTML pages of the web interface, built from the library's values.

use crate::dates::{
    chrono_rfc3339_reformat, created_at_to_datetime_local_value, display_format, format_pack_date,
    local_input_format, shown_date,
};
use crate::models::{pack_type_label, PackTypeId, Settings};
use crate::pack_gen::{option_view, PackResult, SlotInstruction};
use crate::packs::{PackListEntry, PackRecord, SavedPackSlot};
use crate::selection::instruction_text;
use crate::text::{
    decimal, html_escape, html_escaped, join_strings, seq_join, string_views, u32_to_string,
    usize_to_string,
};
use vstd::prelude::*;

verus! {

/// Start of every page, up to the title text.
pub const LAYOUT_HEAD: &'static str = "<!DOCTYPE html>\n<html lang=\"en\">\n<head>\n<meta charset=\"utf-8\">\n<meta name=\"viewport\" content=\"width=device-width, initial-scale=1\">\n<title>";

/// From after the title text to the start of the page's content.
pub const LAYOUT_BODY: &'static str = " \u{2013} Pok\u{e9}mon TCG Pack Picker</title>\n<link rel=\"icon\" type=\"image/svg+xml\" href=\"/static/images/logo.svg\">\n<link rel=\"stylesheet\" href=\"/static/css/style.css?v=2\">\n</head>\n<body>\n<header class=\"site-header\">\n<a href=\"/\" class=\"site-logo\"><img src=\"/static/images/logo.svg\" alt=\"\"> Pok\u{e9}mon TCG Pack Picker</a>\n<nav class=\"site-nav\">\n<a href=\"/\">Home</a>\n<a href=\"/piles\">Piles</a>\n<a href=\"/packs\">Packs</a>\n<a href=\"/settings\">Settings</a>\n</nav>\n</header>\n<main class=\"main-wrap\">\n";

/// End of every page, after its content.
pub const LAYOUT_TAIL: &'static str = "\n</main>\n<footer class=\"site-footer\">Pok\u{e9}mon TCG Pack Picker \u{2013} Build booster packs from your collection. Not affiliated with The Pok\u{e9}mon Company.</footer>\n</body>\n</html>";

/// A whole page: the site's header and navigation, `content`, and the footer.
pub open spec fn layout_page(title: Seq<char>, content: Seq<char>) -> Seq<char> {
    LAYOUT_HEAD@ + title + LAYOUT_BODY@ + content + LAYOUT_TAIL@
}

/// The page layout around `content`, with `title` in the browser's title bar.
pub fn base_layout(title: &str, content: &str) -> (r: String)
    ensures
        r@ == layout_page(title@, content@),
{
    let mut r = String::from_str(LAYOUT_HEAD);
    r.append(title);
    r.append(LAYOUT_BODY);
    r.append(content);
    r.append(LAYOUT_TAIL);
    r
}

/// One slot of a generated pack, as a card on the result page.
pub open spec fn slot_card(s: SlotInstruction) -> Seq<char> {
    "<div class=\"slot-card\"><span class=\"slot-badge\">Slot "@ + decimal(s.slot_number as nat)
        + " \u{b7} "@ + s.slot_role@ + "</span><span class=\"pile-name\">"@ + html_escaped(
        s.pile_name@,
    ) + "</span><span class=\"instruction\">"@ + html_escaped(instruction_text(s.instruction))
        + "</span></div>"@
}

/// The cards of all slots, one per line.
pub open spec fn slot_cards(slots: Seq<SlotInstruction>) -> Seq<char> {
    seq_join(slots.map_values(|s: SlotInstruction| slot_card(s)), "\n"@)
}

/// The low-pile tip shown above the slots, if there is one.
pub open spec fn warning_block(w: Option<Seq<char>>) -> Seq<char> {
    match w {
        Some(t) => "<div class=\"alert-warning\"><strong>Trainer tip:</strong> "@ + html_escaped(t)
            + "</div>"@,
        None => Seq::empty(),
    }
}

/// Heading and explanation of the pack result page.
pub const PACK_RESULT_INTRO: &'static str = "<h1 class=\"page-title\">Your Booster Pack</h1>\n<p class=\"page-subtitle\">Fill each slot in order. Go to the pile, apply the A/B sequence (A = top half, B = bottom half), then use the final number when you have 10 or fewer cards left.</p>\n";

/// Links below the slots of the pack result page.
pub const PACK_RESULT_ACTIONS: &'static str = "</div>\n<div class=\"pack-result-actions pack-edit-actions\"><a href=\"/\" class=\"btn-primary\">Open another pack</a><a href=\"/piles\" class=\"btn-secondary\">My Piles</a></div>";

/// The page that shows a freshly generated pack.
pub open spec fn pack_result_page(slots: Seq<SlotInstruction>, warning: Option<Seq<char>>) -> Seq<char> {
    layout_page(
        "Your pack"@,
        PACK_RESULT_INTRO@ + warning_block(warning) + "\n<div class=\"slot-cards\">"@ + slot_cards(
            slots,
        ) + PACK_RESULT_ACTIONS@,
    )
}

fn slot_card_html(s: &SlotInstruction) -> (r: String)
    ensures
        r@ == slot_card(*s),
{
    let mut r = String::from_str("<div class=\"slot-card\"><span class=\"slot-badge\">Slot ");
    let n = u32_to_string(s.slot_number);
    r.append(n.as_str());
    r.append(" \u{b7} ");
    r.append(s.slot_role.as_str());
    r.append("</span><span class=\"pile-name\">");
    let name = html_escape(s.pile_name.as_str());
    r.append(name.as_str());
    r.append("</span><span class=\"instruction\">");
    let text = s.instruction.display_string();
    let inst = html_escape(text.as_str());
    r.append(inst.as_str());
    r.append("</span></div>");
    r
}

/// The page that shows a freshly generated pack: the low-pile tip, if any,
/// then one card per slot with its pile and A/B instruction.
pub fn pack_result_html(result: &PackResult) -> (r: String)
    ensures
        r@ == pack_result_page(result.slots@, option_view(result.warning)),
{
    let ghost cards_spec = result.slots@.map_values(|s: SlotInstruction| slot_card(s));
    let mut cards: Vec<String> = Vec::new();
    let mut i: usize = 0;
    while i < result.slots.len()
        invariant
            i <= result.slots@.len(),
            cards_spec == result.slots@.map_values(|s: SlotInstruction| slot_card(s)),
            string_views(cards@) =~= cards_spec.take(i as int),
        decreases result.slots@.len() - i,
    {
        let c = slot_card_html(&result.slots[i]);
        let ghost before = cards@;
        cards.push(c);
        proof {
            assert(string_views(cards@) =~= string_views(before).push(cards_spec[i as int]));
            assert(cards_spec.take(i + 1) =~= cards_spec.take(i as int).push(cards_spec[i as int]));
        }
        i = i + 1;
    }
    assert(cards_spec.take(i as int) =~= cards_spec);
    let joined = join_strings(&cards, "\n");
    let mut content = String::from_str(PACK_RESULT_INTRO);
    match &result.warning {
        Some(w) => {
            content.append("<div class=\"alert-warning\"><strong>Trainer tip:</strong> ");
            let e = html_escape(w.as_str());
            content.append(e.as_str());
            content.append("</div>");
        },
        None => {},
    }
    content.append("\n<div class=\"slot-cards\">");
    content.append(joined.as_str());
    content.append(PACK_RESULT_ACTIONS);
    base_layout("Your pack", content.as_str())
}

/// The form value of a pack type.
pub open spec fn pack_type_value(t: PackTypeId) -> Seq<char> {
    match t {
        PackTypeId::Modern => "modern"@,
        PackTypeId::Classic => "classic"@,
        PackTypeId::Legacy => "legacy"@,
    }
}

/// One choice of the pack type menu; types that cannot be generated yet are
/// shown disabled.
pub open spec fn pack_type_option(t: PackTypeId, selected: bool) -> Seq<char> {
    "<option value=\""@ + pack_type_value(t) + "\" "@ + (if selected {
        "selected"@
    } else {
        Seq::empty()
    }) + (if t == PackTypeId::Modern {
        Seq::empty()
    } else {
        " disabled"@
    }) + ">"@ + pack_type_label(t) + "</option>"@
}

/// The pack type menu, with the current type selected.
pub open spec fn pack_type_options(current: PackTypeId) -> Seq<char> {
    pack_type_option(PackTypeId::Modern, current == PackTypeId::Modern) + "\n"@ + pack_type_option(
        PackTypeId::Classic,
        current == PackTypeId::Classic,
    ) + "\n"@ + pack_type_option(PackTypeId::Legacy, current == PackTypeId::Legacy)
}

/// Settings page, up to the pack size.
pub const SETTINGS_INTRO: &'static str = "<h1 class=\"page-title\">Settings</h1>\n<p class=\"page-subtitle\">Pack format and energy options. Changes apply to the next pack you open.</p>\n<div class=\"card-panel\">\n<form id=\"settings-form\" method=\"post\" action=\"/settings\">\n<div class=\"form-group\"><label>Cards per pack</label><input type=\"number\" name=\"pack_size\" value=\"";

/// Settings page, from the pack size to the pack type menu.
pub const SETTINGS_TYPE: &'static str = "\" min=\"1\" max=\"20\"></div>\n<div class=\"form-group\"><label>Pack type</label><select name=\"pack_type\">";

/// Settings page, from the pack type menu to the energy checkbox's state.
pub const SETTINGS_ENERGY: &'static str = "</select></div>\n<div class=\"form-group\"><label class=\"checkbox-label\"><input type=\"checkbox\" name=\"add_energy\" value=\"1\" ";

/// Settings page, from the energy checkbox to the excluded energy types.
pub const SETTINGS_EXCLUDED: &'static str = "> Add Energy card to packs</label></div>\n<div class=\"form-group\"><label>Energy types to exclude (comma-separated)</label><input type=\"text\" name=\"energy_types_out\" value=\"";

/// Settings page, after the excluded energy types: the rest of the form and
/// the script that saves each change as it is made.
pub const SETTINGS_END: &'static str = "\" placeholder=\"e.g. Fire, Water\"></div>\n<button type=\"submit\" class=\"btn-primary\">Back home</button>\n</form>\n</div>\n<script>\n(function() {\n  var form = document.getElementById('settings-form');\n  if (!form) return;\n  function save() {\n    var fd = new FormData(form);\n    fetch(form.action, { method: 'POST', body: fd, headers: { 'X-Requested-With': 'XMLHttpRequest' } });\n  }\n  [].slice.call(form.querySelectorAll('input, select')).forEach(function(el) {\n    el.addEventListener('blur', save);\n    el.addEventListener('change', save);\n  });\n})();\n</script>";

/// The settings page, filled in with the current settings.
pub open spec fn settings_page(s: Settings) -> Seq<char> {
    layout_page(
        "Settings"@,
        SETTINGS_INTRO@ + decimal(s.pack_size as nat) + SETTINGS_TYPE@ + pack_type_options(
            s.pack_type,
        ) + SETTINGS_ENERGY@ + (if s.add_energy_to_packs {
            "checked"@
        } else {
            Seq::empty()
        }) + SETTINGS_EXCLUDED@ + html_escaped(
            seq_join(string_views(s.energy_types_out@), ", "@),
        ) + SETTINGS_END@,
    )
}

fn pack_type_option_html(t: PackTypeId, selected: bool) -> (r: String)
    ensures
        r@ == pack_type_option(t, selected),
{
    let mut r = String::from_str("<option value=\"");
    match t {
        PackTypeId::Modern => r.append("modern"),
        PackTypeId::Classic => r.append("classic"),
        PackTypeId::Legacy => r.append("legacy"),
    }
    r.append("\" ");
    if selected {
        r.append("selected");
    }
    if !t.is_implemented() {
        r.append(" disabled");
    }
    r.append(">");
    r.append(t.label());
    r.append("</option>");
    r
}

/// The settings page: pack size, pack type menu, energy checkbox and the
/// excluded energy types, filled in from `s`.
pub fn settings_page_html(s: &Settings) -> (r: String)
    ensures
        r@ == settings_page(*s),
{
    let mut content = String::from_str(SETTINGS_INTRO);
    let size = u32_to_string(s.pack_size);
    content.append(size.as_str());
    content.append(SETTINGS_TYPE);
    let o1 = pack_type_option_html(PackTypeId::Modern, s.pack_type == PackTypeId::Modern);
    let o2 = pack_type_option_html(PackTypeId::Classic, s.pack_type == PackTypeId::Classic);
    let o3 = pack_type_option_html(PackTypeId::Legacy, s.pack_type == PackTypeId::Legacy);
    content.append(o1.as_str());
    content.append("\n");
    content.append(o2.as_str());
    content.append("\n");
    content.append(o3.as_str());
    content.append(SETTINGS_ENERGY);
    if s.add_energy_to_packs {
        content.append("checked");
    }
    content.append(SETTINGS_EXCLUDED);
    let energy = join_strings(&s.energy_types_out, ", ");
    let escaped = html_escape(energy.as_str());
    content.append(escaped.as_str());
    content.append(SETTINGS_END);
    base_layout("Settings", content.as_str())
}

/// The lowercase hexadecimal digit for `d` (`0 <= d < 16`).
pub open spec fn hex_char(d: nat) -> char {
    if d < 10 {
        ((d + 48) as u8) as char
    } else {
        ((d + 87) as u8) as char
    }
}

/// The last `k` hexadecimal digits of `n`, most significant first, with
/// leading zeros.
pub open spec fn hex_digits(n: nat, k: nat) -> Seq<char>
    decreases k,
{
    if k == 0 {
        Seq::empty()
    } else {
        hex_digits(n / 16, (k - 1) as nat).push(hex_char(n % 16))
    }
}

/// The hyphenated text of the UUID whose 128-bit value is `id`: 32 lowercase
/// hexadecimal digits in groups of 8, 4, 4, 4 and 12.
pub open spec fn uuid_hyphenated(id: u128) -> Seq<char> {
    let h = hex_digits(id as nat, 32);
    h.subrange(0, 8) + "-"@ + h.subrange(8, 12) + "-"@ + h.subrange(12, 16) + "-"@ + h.subrange(
        16,
        20,
    ) + "-"@ + h.subrange(20, 32)
}

/// `Uuid::from_u128` followed by `to_string`. In the crate's source,
/// `from_u128` takes the value's big-endian bytes, and `Display` writes the
/// hyphenated form in lowercase; the contract claims that text.
#[verifier::external_body]
pub(crate) fn uuid_text(id: u128) -> (r: String)
    ensures
        r@ == uuid_hyphenated(id),
{
    uuid::Uuid::from_u128(id).to_string()
}

/// The text of an optional field, empty when absent.
pub open spec fn text_or_empty(o: Option<String>) -> Seq<char> {
    match o {
        Some(t) => t@,
        None => Seq::empty(),
    }
}

/// `html` when `text` is not empty, else nothing.
pub open spec fn when_nonempty(text: Seq<char>, html: Seq<char>) -> Seq<char> {
    if text.len() > 0 {
        html
    } else {
        Seq::empty()
    }
}

/// The title column of a pack's row: its title, notes and card summary, each
/// only where it is not empty.
pub open spec fn title_cell(e: PackListEntry) -> Seq<char> {
    let title = text_or_empty(e.title);
    let notes = text_or_empty(e.notes);
    let cards = text_or_empty(e.card_summary);
    when_nonempty(title, "<div>"@ + html_escaped(title) + "</div>"@) + when_nonempty(
        notes,
        "<div class=\"pack-list-notes\">"@ + html_escaped(notes) + "</div>"@,
    ) + when_nonempty(cards, "<div class=\"pack-list-cards\">"@ + html_escaped(cards) + "</div>"@)
}

/// One row of the packs table: a link to the pack, its title column and the
/// date it was opened.
pub open spec fn pack_row(e: PackListEntry) -> Seq<char> {
    "<tr><td><a href=\"/packs/"@ + uuid_hyphenated(e.id) + "\">View / edit</a></td><td>"@
        + title_cell(e) + "</td><td>"@ + html_escaped(
        shown_date(chrono_rfc3339_reformat(e.created_at@, display_format()), e.created_at@),
    ) + "</td></tr>"@
}

/// Packs page, up to the table's rows.
pub const PACKS_INTRO: &'static str = "<h1 class=\"page-title\">Packs</h1>\n<p class=\"page-subtitle\">Opened packs. Open a pack from <a href=\"/\">Home</a>; then you can edit title, notes, and what card was pulled per slot.</p>\n<div class=\"card-panel\">\n<table class=\"data-table\"><thead><tr><th></th><th>Title</th><th>Opened</th></tr></thead><tbody>\n";

/// Packs page, after the table's rows.
pub const PACKS_END: &'static str = "\n</tbody></table>\n</div>\n<div class=\"pack-edit-actions\"><a href=\"/\" class=\"btn-primary\">Open a pack</a><a href=\"/piles\" class=\"btn-secondary\">Piles</a></div>";

/// The only row of the packs table while no pack has been opened.
pub const NO_PACKS_ROW: &'static str = "<tr><td colspan=\"3\">No packs yet. <a href=\"/\">Open a pack</a> to get started.</td></tr>";

/// The packs page: one row per pack of the list, in its order.
pub open spec fn packs_index_page(list: Seq<PackListEntry>) -> Seq<char> {
    layout_page(
        "Packs"@,
        PACKS_INTRO@ + (if list.len() == 0 {
            NO_PACKS_ROW@
        } else {
            seq_join(list.map_values(|e: PackListEntry| pack_row(e)), "\n"@)
        }) + PACKS_END@,
    )
}

fn append_div_when_nonempty(r: &mut String, open: &str, text: &Option<String>)
    ensures
        final(r)@ == old(r)@ + when_nonempty(
            text_or_empty(*text),
            open@ + html_escaped(text_or_empty(*text)) + "</div>"@,
        ),
{
    match text {
        Some(t) => {
            if t.unicode_len() > 0 {
                r.append(open);
                let x = html_escape(t.as_str());
                r.append(x.as_str());
                r.append("</div>");
            }
        },
        None => {},
    }
}

fn pack_row_html(e: &PackListEntry) -> (r: String)
    ensures
        r@ == pack_row(*e),
{
    let mut r = String::from_str("<tr><td><a href=\"/packs/");
    let id = uuid_text(e.id);
    r.append(id.as_str());
    r.append("\">View / edit</a></td><td>");
    append_div_when_nonempty(&mut r, "<div>", &e.title);
    append_div_when_nonempty(&mut r, "<div class=\"pack-list-notes\">", &e.notes);
    append_div_when_nonempty(&mut r, "<div class=\"pack-list-cards\">", &e.card_summary);
    r.append("</td><td>");
    let date = format_pack_date(e.created_at.as_str());
    let d = html_escape(date.as_str());
    r.append(d.as_str());
    r.append("</td></tr>");
    r
}

/// The packs page: a row per opened pack with a link to it, its title, notes
/// and card summary, and the date it was opened.
pub fn packs_index_html(list: &Vec<PackListEntry>) -> (r: String)
    ensures
        r@ == packs_index_page(list@),
{
    let ghost rows_spec = list@.map_values(|e: PackListEntry| pack_row(e));
    let mut rows: Vec<String> = Vec::new();
    let mut i: usize = 0;
    while i < list.len()
        invariant
            i <= list@.len(),
            rows_spec == list@.map_values(|e: PackListEntry| pack_row(e)),
            string_views(rows@) =~= rows_spec.take(i as int),
        decreases list@.len() - i,
    {
        let row = pack_row_html(&list[i]);
        let ghost before = rows@;
        rows.push(row);
        proof {
            assert(string_views(rows@) =~= string_views(before).push(rows_spec[i as int]));
            assert(rows_spec.take(i + 1) =~= rows_spec.take(i as int).push(rows_spec[i as int]));
        }
        i = i + 1;
    }
    assert(rows_spec.take(i as int) =~= rows_spec);
    let mut content = String::from_str(PACKS_INTRO);
    if list.len() == 0 {
        content.append(NO_PACKS_ROW);
    } else {
        let joined = join_strings(&rows, "\n");
        content.append(joined.as_str());
    }
    content.append(PACKS_END);
    base_layout("Packs", content.as_str())
}

/// One slot of a saved pack as two table rows: the slot and its instruction
/// with fields for the card pulled (named by the slot's index `i`), then the
/// pile it came from.
pub open spec fn detail_slot_rows(i: nat, s: SavedPackSlot) -> Seq<char> {
    "<tr><td>Slot "@ + decimal(s.slot_number as nat) + " \u{b7} "@ + html_escaped(s.slot_role@)
        + "</td><td>"@ + html_escaped(s.instruction_display@) + DETAIL_NAME_FIELD@ + decimal(i)
        + "_card_name\" value=\""@ + html_escaped(text_or_empty(s.card_name)) + DETAIL_NOTES_FIELD@
        + decimal(i) + "_card_notes\" value=\""@ + html_escaped(text_or_empty(s.card_notes))
        + DETAIL_PILE_ROW@ + html_escaped(s.pile_name@) + " \u{b7} "@ + html_escaped(
        s.instruction_display@,
    ) + "</span></td></tr>"@
}

/// The rows of all slots, one slot after another.
pub open spec fn detail_rows(slots: Seq<SavedPackSlot>) -> Seq<char> {
    seq_join(Seq::new(slots.len(), |i: int| detail_slot_rows(i as nat, slots[i])), "\n"@)
}

/// The tip saved with a pack, if there is one.
pub open spec fn tip_block(w: Option<Seq<char>>) -> Seq<char> {
    match w {
        Some(t) => "<div class=\"alert-warning\"><strong>Tip:</strong> "@ + html_escaped(t) + "</div>"@,
        None => Seq::empty(),
    }
}

/// The `datetime-local` value of a stored timestamp, empty where it does not
/// parse.
pub open spec fn local_input_value(created_at: Seq<char>) -> Seq<char> {
    match chrono_rfc3339_reformat(created_at, local_input_format()) {
        Some(f) => f,
        None => Seq::empty(),
    }
}

/// Slot row, from the instruction to the card name field's index.
pub const DETAIL_NAME_FIELD: &'static str = "</td><td><input type=\"text\" name=\"slot_";

/// Slot row, from the card name to the card notes field's index.
pub const DETAIL_NOTES_FIELD: &'static str = "\" placeholder=\"Card name\"></td><td><input type=\"text\" name=\"slot_";

/// Slot rows, from the card notes to the pile's name.
pub const DETAIL_PILE_ROW: &'static str = "\" placeholder=\"Notes\"></td></tr>\n<tr><td colspan=\"2\"></td><td colspan=\"2\"><span class=\"muted\">Pile: ";

/// Pack page, up to the date it was opened.
pub const DETAIL_INTRO: &'static str = "<h1 class=\"page-title\">Pack</h1>\n<p class=\"page-subtitle\">Opened ";

/// Pack page, after the date it was opened.
pub const DETAIL_OPENED_END: &'static str = ". Edit title, notes, and what was pulled per slot.</p>\n";

/// Pack page, from the tip to the pack's id in the form's address.
pub const DETAIL_FORM: &'static str = "\n<div class=\"card-panel\">\n<form id=\"pack-edit-form\" method=\"post\" action=\"/packs/";

/// Pack page, from the form's address to the title.
pub const DETAIL_TITLE: &'static str = "\">\n<div class=\"form-group\"><label>Title</label><input type=\"text\" name=\"title\" value=\"";

/// Pack page, from the title to the date field's value.
pub const DETAIL_DATE: &'static str = "\" placeholder=\"e.g. Friday night pull\"></div>\n<div class=\"form-group\"><label>Date opened</label><input type=\"datetime-local\" name=\"created_at\" value=\"";

/// Pack page, from the date field to the notes.
pub const DETAIL_NOTES: &'static str = "\"></div>\n<div class=\"form-group\"><label>Notes (e.g. who pulled this pack)</label><textarea name=\"notes\" rows=\"2\" placeholder=\"e.g. Who pulled, where, etc.\">";

/// Pack page, from the notes to the slot rows.
pub const DETAIL_TABLE: &'static str = "</textarea></div>\n<table class=\"data-table\"><thead><tr><th>Slot</th><th>Instruction</th><th>Card name</th><th>Card notes</th></tr></thead><tbody>\n";

/// Pack page, from the slot rows to the pack's id in the delete form.
pub const DETAIL_DELETE: &'static str = "\n</tbody></table>\n</form>\n<div class=\"pack-edit-actions\">\n<button type=\"submit\" form=\"pack-edit-form\" class=\"btn-primary\">Back to packs</button>\n<form action=\"/packs/";

/// Pack page, after the delete form's address: the rest of the page and the
/// script that saves each change as it is made.
pub const DETAIL_END: &'static str = "/delete\" method=\"post\" class=\"pack-delete-form\" onsubmit=\"return confirm('Are you sure? This pack will be deleted.');\">\n<button type=\"submit\" class=\"btn-danger\">Delete pack</button>\n</form>\n</div>\n<script>\n(function() {\n  var form = document.getElementById('pack-edit-form');\n  if (!form) return;\n  function save() {\n    var fd = new FormData(form);\n    fetch(form.action, { method: 'POST', body: fd, headers: { 'X-Requested-With': 'XMLHttpRequest' } });\n  }\n  [].slice.call(form.querySelectorAll('input, textarea')).forEach(function(el) {\n    el.addEventListener('blur', save);\n    el.addEventListener('change', save);\n  });\n})();\n</script>\n</div>";

/// The page of one saved pack, whose id is `id`: its date, tip, title and
/// notes, and the slots with what was pulled from each.
pub open spec fn pack_detail_page(id: u128, r: PackRecord) -> Seq<char> {
    layout_page(
        "Edit pack"@,
        DETAIL_INTRO@ + html_escaped(
            shown_date(chrono_rfc3339_reformat(r.created_at@, display_format()), r.created_at@),
        ) + DETAIL_OPENED_END@ + tip_block(option_view(r.warning)) + DETAIL_FORM@ + uuid_hyphenated(
            id,
        ) + DETAIL_TITLE@ + html_escaped(r.title@) + DETAIL_DATE@ + html_escaped(
            local_input_value(r.created_at@),
        ) + DETAIL_NOTES@ + html_escaped(r.notes@) + DETAIL_TABLE@ + detail_rows(r.slots@)
            + DETAIL_DELETE@ + uuid_hyphenated(id) + DETAIL_END@,
    )
}

fn append_escaped(r: &mut String, text: &str)
    ensures
        final(r)@ == old(r)@ + html_escaped(text@),
{
    let e = html_escape(text);
    r.append(e.as_str());
}

fn append_escaped_opt(r: &mut String, text: &Option<String>)
    ensures
        final(r)@ == old(r)@ + html_escaped(text_or_empty(*text)),
{
    match text {
        Some(t) => append_escaped(r, t.as_str()),
        None => {},
    }
}

fn detail_slot_rows_html(i: usize, s: &SavedPackSlot) -> (r: String)
    ensures
        r@ == detail_slot_rows(i as nat, *s),
{
    let mut r = String::from_str("<tr><td>Slot ");
    let n = u32_to_string(s.slot_number);
    r.append(n.as_str());
    r.append(" \u{b7} ");
    append_escaped(&mut r, s.slot_role.as_str());
    r.append("</td><td>");
    append_escaped(&mut r, s.instruction_display.as_str());
    r.append(DETAIL_NAME_FIELD);
    let k = usize_to_string(i);
    r.append(k.as_str());
    r.append("_card_name\" value=\"");
    append_escaped_opt(&mut r, &s.card_name);
    r.append(DETAIL_NOTES_FIELD);
    r.append(k.as_str());
    r.append("_card_notes\" value=\"");
    append_escaped_opt(&mut r, &s.card_notes);
    r.append(DETAIL_PILE_ROW);
    append_escaped(&mut r, s.pile_name.as_str());
    r.append(" \u{b7} ");
    append_escaped(&mut r, s.instruction_display.as_str());
    r.append("</span></td></tr>");
    r
}

/// The page of one saved pack, whose id is `id`: when it was opened, the tip
/// saved with it, fields for its title, date and notes, and per slot the
/// instruction, the pile and fields for the card pulled.
pub fn pack_detail_html(id: u128, record: &PackRecord) -> (r: String)
    ensures
        r@ == pack_detail_page(id, *record),
{
    let ghost rows_spec = Seq::new(
        record.slots@.len(),
        |i: int| detail_slot_rows(i as nat, record.slots@[i]),
    );
    let mut rows: Vec<String> = Vec::new();
    let mut i: usize = 0;
    while i < record.slots.len()
        invariant
            i <= record.slots@.len(),
            rows_spec == Seq::new(
                record.slots@.len(),
                |i: int| detail_slot_rows(i as nat, record.slots@[i]),
            ),
            string_views(rows@) =~= rows_spec.take(i as int),
        decreases record.slots@.len() - i,
    {
        let row = detail_slot_rows_html(i, &record.slots[i]);
        let ghost before = rows@;
        rows.push(row);
        proof {
            assert(string_views(rows@) =~= string_views(before).push(rows_spec[i as int]));
            assert(rows_spec.take(i + 1) =~= rows_spec.take(i as int).push(rows_spec[i as int]));
        }
        i = i + 1;
    }
    assert(rows_spec.take(i as int) =~= rows_spec);
    let joined = join_strings(&rows, "\n");
    let id_text = uuid_text(id);
    let mut content = String::from_str(DETAIL_INTRO);
    let date = format_pack_date(record.created_at.as_str());
    append_escaped(&mut content, date.as_str());
    content.append(DETAIL_OPENED_END);
    match &record.warning {
        Some(w) => {
            content.append("<div class=\"alert-warning\"><strong>Tip:</strong> ");
            append_escaped(&mut content, w.as_str());
            content.append("</div>");
        },
        None => {},
    }
    content.append(DETAIL_FORM);
    content.append(id_text.as_str());
    content.append(DETAIL_TITLE);
    append_escaped(&mut content, record.title.as_str());
    content.append(DETAIL_DATE);
    let local = created_at_to_datetime_local_value(record.created_at.as_str());
    append_escaped(&mut content, local.as_str());
    content.append(DETAIL_NOTES);
    append_escaped(&mut content, record.notes.as_str());
    content.append(DETAIL_TABLE);
    content.append(joined.as_str());
    content.append(DETAIL_DELETE);
    content.append(id_text.as_str());
    content.append(DETAIL_END);
    base_layout("Edit pack", content.as_str())
}

/// How many of the latest packs the home page lists.
pub const HOME_LATEST_PACKS: usize = 4;

/// The summary of the current settings on the home page.
pub open spec fn settings_line(s: Settings) -> Seq<char> {
    pack_type_label(s.pack_type) + " \u{b7} "@ + decimal(s.pack_size as nat)
        + " cards per pack \u{b7} Energy in packs: "@ + (if s.add_energy_to_packs {
        "Yes"@
    } else {
        "No"@
    })
}

/// The summary of the current settings shown on the home page: pack type,
/// pack size and whether packs get an energy card.
pub fn home_settings_line(s: &Settings) -> (r: String)
    ensures
        r@ == settings_line(*s),
{
    let mut r = String::from_str(s.pack_type.label());
    r.append(" \u{b7} ");
    let n = u32_to_string(s.pack_size);
    r.append(n.as_str());
    r.append(" cards per pack \u{b7} Energy in packs: ");
    if s.add_energy_to_packs {
        r.append("Yes");
    } else {
        r.append("No");
    }
    r
}

/// A pack of the home page's latest packs: a link with its title, or
/// "(no title)" where it has none, and its notes where there are any.
pub open spec fn latest_pack_link(e: PackListEntry) -> Seq<char> {
    let title = match e.title {
        Some(t) => t@,
        None => "(no title)"@,
    };
    let notes = text_or_empty(e.notes);
    "<a href=\"/packs/"@ + uuid_hyphenated(e.id) + "\" class=\"home-latest-pack\">"@
        + "<span class=\"home-latest-title\">"@ + html_escaped(title) + "</span>"@ + when_nonempty(
        notes,
        "<span class=\"home-latest-notes\">"@ + html_escaped(notes) + "</span>"@,
    ) + "</a>"@
}

/// The home page's list of latest packs: the first few of the list, or an
/// invitation to open one while there are none.
pub open spec fn latest_packs(list: Seq<PackListEntry>) -> Seq<char> {
    if list.len() == 0 {
        "<p class=\"home-latest-empty\">No packs yet. <a href=\"/\">Open a pack</a> to get started.</p>"@
    } else {
        let shown = if list.len() <= HOME_LATEST_PACKS {
            list
        } else {
            list.take(HOME_LATEST_PACKS as int)
        };
        seq_join(shown.map_values(|e: PackListEntry| latest_pack_link(e)), "\n"@)
    }
}

fn latest_pack_link_html(e: &PackListEntry) -> (r: String)
    ensures
        r@ == latest_pack_link(*e),
{
    let mut r = String::from_str("<a href=\"/packs/");
    let id = uuid_text(e.id);
    r.append(id.as_str());
    r.append("\" class=\"home-latest-pack\">");
    r.append("<span class=\"home-latest-title\">");
    match &e.title {
        Some(t) => {
            let x = html_escape(t.as_str());
            r.append(x.as_str());
        },
        None => {
            let x = html_escape("(no title)");
            r.append(x.as_str());
        },
    }
    r.append("</span>");
    match &e.notes {
        Some(t) => {
            if t.unicode_len() > 0 {
                r.append("<span class=\"home-latest-notes\">");
                let x = html_escape(t.as_str());
                r.append(x.as_str());
                r.append("</span>");
            }
        },
        None => {},
    }
    r.append("</a>");
    r
}

/// The home page's list of the latest packs: links to the first
/// `HOME_LATEST_PACKS` packs of the list (newest first), each with its title
/// and notes, or a line inviting to open a pack while there is none.
pub fn latest_packs_html(list: &Vec<PackListEntry>) -> (r: String)
    ensures
        r@ == latest_packs(list@),
{
    if list.len() == 0 {
        return String::from_str(
            "<p class=\"home-latest-empty\">No packs yet. <a href=\"/\">Open a pack</a> to get started.</p>",
        );
    }
    let n: usize = if list.len() <= HOME_LATEST_PACKS {
        list.len()
    } else {
        HOME_LATEST_PACKS
    };
    let ghost shown = list@.take(n as int);
    let ghost items = shown.map_values(|e: PackListEntry| latest_pack_link(e));
    let mut out: Vec<String> = Vec::new();
    let mut i: usize = 0;
    while i < n
        invariant
            n <= list@.len(),
            i <= n,
            shown == list@.take(n as int),
            items == shown.map_values(|e: PackListEntry| latest_pack_link(e)),
            string_views(out@) =~= items.take(i as int),
        decreases n - i,
    {
        let o = latest_pack_link_html(&list[i]);
        let ghost before = out@;
        out.push(o);
        proof {
            assert(string_views(out@) =~= string_views(before).push(items[i as int]));
            assert(items.take(i + 1) =~= items.take(i as int).push(items[i as int]));
        }
        i = i + 1;
    }
    proof {
        assert(items.take(i as int) =~= items);
        if list@.len() <= HOME_LATEST_PACKS {
            assert(shown =~= list@);
        }
    }
    join_strings(&out, "\n")
}

/// Error page, up to the message.
pub const PACK_ERROR_INTRO: &'static str = "<h1 class=\"page-title\">Couldn't open a pack</h1>\n<div class=\"card-panel\">\n<p>";

/// Error page, after the message.
pub const PACK_ERROR_END: &'static str = "</p>\n<p><a href=\"/\" class=\"btn-secondary\">Back home</a> <a href=\"/piles\" class=\"btn-secondary\">Manage piles</a></p>\n</div>";

/// The page shown when no pack could be opened, with the reason.
pub open spec fn pack_error_page(message: Seq<char>) -> Seq<char> {
    layout_page("Error"@, PACK_ERROR_INTRO@ + html_escaped(message) + PACK_ERROR_END@)
}

/// The page shown when no pack could be opened: the reason, and links back
/// home and to the piles.
pub fn pack_error_html(message: &str) -> (r: String)
    ensures
        r@ == pack_error_page(message@),
{
    let mut content = String::from_str(PACK_ERROR_INTRO);
    let e = html_escape(message);
    content.append(e.as_str());
    content.append(PACK_ERROR_END);
    base_layout("Error", content.as_str())
}

} // verus!
