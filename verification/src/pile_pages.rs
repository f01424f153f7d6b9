//! HTML pages for managing piles: the list, the edit form, and the forms to
//! combine and split piles.

use crate::models::{Pile, PileType};
use crate::pages::{base_layout, layout_page, uuid_hyphenated, uuid_text};
use crate::text::{decimal, html_escape, html_escaped, join_strings, seq_join, string_views, u32_to_string};
use vstd::prelude::*;

verus! {

/// One pile as a choice of a pile menu.
pub open spec fn pile_option(p: Pile) -> Seq<char> {
    "<option value=\""@ + uuid_hyphenated(p.id) + "\">"@ + html_escaped(p.name@) + "</option>"@
}

/// Every pile as a choice, one per line, in order.
pub open spec fn pile_options(piles: Seq<Pile>) -> Seq<char> {
    seq_join(piles.map_values(|p: Pile| pile_option(p)), "\n"@)
}

/// A pile with cards, as a choice of the split menu, with its count.
pub open spec fn split_option(p: Pile) -> Seq<char> {
    "<option value=\""@ + uuid_hyphenated(p.id) + "\">"@ + html_escaped(p.name@) + " (est. "@
        + decimal(p.estimated_count as nat) + ")</option>"@
}

/// The split menu's choices: the piles that hold cards, in order.
pub open spec fn split_option_items(piles: Seq<Pile>) -> Seq<Seq<char>>
    decreases piles.len(),
{
    if piles.len() == 0 {
        Seq::empty()
    } else {
        let r = split_option_items(piles.drop_last());
        if piles.last().estimated_count > 0 {
            r.push(split_option(piles.last()))
        } else {
            r
        }
    }
}

/// Combine form, up to the first pile menu.
pub const COMBINE_INTRO: &'static str = "<h1 class=\"page-title\">Combine two piles</h1>\n<p class=\"page-subtitle\">Merge two piles into one. The two original piles will be removed.</p>\n<div class=\"card-panel\">\n<form method=\"post\" action=\"/piles/combine\">\n<div class=\"form-group\"><label>First pile</label><select name=\"id_a\" required>";

/// Combine form, between the two pile menus.
pub const COMBINE_SECOND: &'static str = "</select></div>\n<div class=\"form-group\"><label>Second pile</label><select name=\"id_b\" required>";

/// Combine form, after the second pile menu.
pub const COMBINE_END: &'static str = "</select></div>\n<div class=\"form-group\"><label>New pile name</label><input type=\"text\" name=\"new_name\" required placeholder=\"e.g. Bulk combined\"></div>\n<div class=\"form-group\"><label>Estimated total count (or 0 to use sum)</label><input type=\"number\" name=\"estimated_count\" min=\"0\" value=\"0\" placeholder=\"sum or your estimate\"></div>\n<button type=\"submit\" class=\"btn-primary\">Combine</button> <a href=\"/piles\" class=\"btn-secondary\">Back to piles</a>\n</form>\n</div>";

/// Split form, up to the source pile menu.
pub const SPLIT_INTRO: &'static str = "<h1 class=\"page-title\">Split a pile</h1>\n<p class=\"page-subtitle\">Create a new pile from an existing one. Enter the count for the new pile; the original pile's count will be reduced by that amount.</p>\n<div class=\"card-panel\">\n<form method=\"post\" action=\"/piles/split\">\n<div class=\"form-group\"><label>Source pile</label><select name=\"source_id\" required>";

/// Split form, after the source pile menu.
pub const SPLIT_END: &'static str = "</select></div>\n<div class=\"form-group\"><label>New pile name</label><input type=\"text\" name=\"new_name\" required placeholder=\"e.g. Bulk part 2\"></div>\n<div class=\"form-group\"><label>Count to split off (into new pile)</label><input type=\"number\" name=\"split_count\" min=\"1\" required></div>\n<button type=\"submit\" class=\"btn-primary\">Split</button> <a href=\"/piles\" class=\"btn-secondary\">Back to piles</a>\n</form>\n</div>";

/// The page to combine two piles: every pile in both menus.
pub open spec fn combine_page(piles: Seq<Pile>) -> Seq<char> {
    layout_page(
        "Combine piles"@,
        COMBINE_INTRO@ + pile_options(piles) + COMBINE_SECOND@ + pile_options(piles) + COMBINE_END@,
    )
}

/// The page to split a pile: the piles that hold cards in the menu.
pub open spec fn split_page(piles: Seq<Pile>) -> Seq<char> {
    layout_page(
        "Split pile"@,
        SPLIT_INTRO@ + seq_join(split_option_items(piles), "\n"@) + SPLIT_END@,
    )
}

fn pile_option_html(p: &Pile) -> (r: String)
    ensures
        r@ == pile_option(*p),
{
    let mut r = String::from_str("<option value=\"");
    let id = uuid_text(p.id);
    r.append(id.as_str());
    r.append("\">");
    let name = html_escape(p.name.as_str());
    r.append(name.as_str());
    r.append("</option>");
    r
}

fn pile_options_html(piles: &Vec<Pile>) -> (r: String)
    ensures
        r@ == pile_options(piles@),
{
    let ghost items = piles@.map_values(|p: Pile| pile_option(p));
    let mut out: Vec<String> = Vec::new();
    let mut i: usize = 0;
    while i < piles.len()
        invariant
            i <= piles@.len(),
            items == piles@.map_values(|p: Pile| pile_option(p)),
            string_views(out@) =~= items.take(i as int),
        decreases piles@.len() - i,
    {
        let o = pile_option_html(&piles[i]);
        let ghost before = out@;
        out.push(o);
        proof {
            assert(string_views(out@) =~= string_views(before).push(items[i as int]));
            assert(items.take(i + 1) =~= items.take(i as int).push(items[i as int]));
        }
        i = i + 1;
    }
    assert(items.take(i as int) =~= items);
    join_strings(&out, "\n")
}

/// The page to combine two piles, with every pile in both menus.
pub fn combine_page_html(piles: &Vec<Pile>) -> (r: String)
    ensures
        r@ == combine_page(piles@),
{
    let options = pile_options_html(piles);
    let mut content = String::from_str(COMBINE_INTRO);
    content.append(options.as_str());
    content.append(COMBINE_SECOND);
    content.append(options.as_str());
    content.append(COMBINE_END);
    base_layout("Combine piles", content.as_str())
}

fn split_option_html(p: &Pile) -> (r: String)
    ensures
        r@ == split_option(*p),
{
    let mut r = String::from_str("<option value=\"");
    let id = uuid_text(p.id);
    r.append(id.as_str());
    r.append("\">");
    let name = html_escape(p.name.as_str());
    r.append(name.as_str());
    r.append(" (est. ");
    let n = u32_to_string(p.estimated_count);
    r.append(n.as_str());
    r.append(")</option>");
    r
}

/// The page to split a pile; only piles that hold cards can be chosen.
pub fn split_page_html(piles: &Vec<Pile>) -> (r: String)
    ensures
        r@ == split_page(piles@),
{
    let mut out: Vec<String> = Vec::new();
    let mut i: usize = 0;
    while i < piles.len()
        invariant
            i <= piles@.len(),
            string_views(out@) =~= split_option_items(piles@.take(i as int)),
        decreases piles@.len() - i,
    {
        proof {
            assert(piles@.take(i + 1).drop_last() =~= piles@.take(i as int));
        }
        if piles[i].estimated_count > 0 {
            let o = split_option_html(&piles[i]);
            let ghost before = out@;
            out.push(o);
            assert(string_views(out@) =~= string_views(before).push(o@));
        }
        i = i + 1;
    }
    assert(piles@.take(i as int) =~= piles@);
    let options = join_strings(&out, "\n");
    let mut content = String::from_str(SPLIT_INTRO);
    content.append(options.as_str());
    content.append(SPLIT_END);
    base_layout("Split pile", content.as_str())
}

/// What the piles table shows as a pile's type; a value pile shows its
/// price range, whose two ends (`price_min`, `price_max`) are given as text.
pub open spec fn pile_type_text(t: PileType, price_min: Seq<char>, price_max: Seq<char>) -> Seq<char> {
    match t {
        PileType::Trainers => "Trainers"@,
        PileType::Energy { energy_type } => "Energy ("@ + energy_type@ + ")"@,
        PileType::Bulk => "Bulk"@,
        PileType::Value { .. } => "Value "@ + price_min + "\u{2013}"@ + price_max,
    }
}

/// One row of the piles table: name, type, count, and the edit and delete
/// actions.
pub open spec fn pile_row(p: Pile, price_min: Seq<char>, price_max: Seq<char>) -> Seq<char> {
    "<tr><td>"@ + html_escaped(p.name@) + "</td><td>"@ + pile_type_text(p.pile_type, price_min, price_max)
        + "</td><td>"@ + decimal(p.estimated_count as nat) + PILE_ROW_ACTIONS@ + uuid_hyphenated(p.id)
        + PILE_ROW_DELETE@ + uuid_hyphenated(p.id) + PILE_ROW_END@
}

/// Piles row, from the count to the pile's id in the edit link.
pub const PILE_ROW_ACTIONS: &'static str = "</td><td class=\"cell-actions\"><a href=\"/piles/";

/// Piles row, from the edit link to the pile's id in the delete form.
pub const PILE_ROW_DELETE: &'static str = "/edit\">Edit</a> <form action=\"/piles/";

/// Piles row, after the delete form's address.
pub const PILE_ROW_END: &'static str = "/delete\" method=\"post\" style=\"display:inline\"><button type=\"submit\" class=\"btn-danger\">Delete</button></form></td></tr>";

/// Piles page, up to the table's rows.
pub const PILES_INTRO: &'static str = "<h1 class=\"page-title\">Piles</h1>\n<p class=\"page-subtitle\">Manage your card piles. Combine or split piles when you refill or reorganize.</p>\n<p><a href=\"/piles/combine\" class=\"btn-secondary\">Combine two piles</a> &nbsp; <a href=\"/piles/split\" class=\"btn-secondary\">Split a pile</a></p>\n<div class=\"card-panel\">\n<table class=\"data-table\"><thead><tr><th>Pile name</th><th>Type</th><th>Est. count</th><th>Actions</th></tr></thead><tbody>\n";

/// Piles page, after the table's rows: the form to add a pile.
pub const PILES_END: &'static str = "\n</tbody></table>\n</div>\n<div class=\"card-panel\">\n<h2>Add a new pile</h2>\n<form method=\"post\" action=\"/piles\">\n<div class=\"form-group\"><label>Pile name</label><input type=\"text\" name=\"name\" required placeholder=\"e.g. Bulk commons\"></div>\n<div class=\"form-group\"><label>Type</label><select name=\"pile_type\">\n<option value=\"bulk\">Bulk</option>\n<option value=\"trainers\">Trainers</option>\n<option value=\"energy\">Energy</option>\n<option value=\"value\">Value (price range \u{2192} rarity)</option>\n</select></div>\n<div class=\"form-group\"><label>Energy type (if Energy)</label><input type=\"text\" name=\"energy_type\" placeholder=\"e.g. Fire, Water\"></div>\n<div class=\"form-row\">\n<div class=\"form-group\"><label>Price min $ (if Value)</label><input type=\"number\" step=\"0.01\" name=\"price_min\" placeholder=\"0\"></div>\n<div class=\"form-group\"><label>Price max $ (if Value)</label><input type=\"number\" step=\"0.01\" name=\"price_max\" placeholder=\"\"></div>\n</div>\n<div class=\"form-group\"><label>Estimated count</label><input type=\"number\" name=\"estimated_count\" value=\"100\" min=\"1\" required></div>\n<button type=\"submit\" class=\"btn-primary\">Add pile</button>\n</form>\n</div>";

/// The piles page: one row per pile, in order, then the form to add one.
/// `price_mins[i]` and `price_maxs[i]` are the price texts of pile `i`.
pub open spec fn piles_page(piles: Seq<Pile>, price_mins: Seq<Seq<char>>, price_maxs: Seq<Seq<char>>) -> Seq<char> {
    layout_page(
        "Piles"@,
        PILES_INTRO@ + seq_join(
            Seq::new(piles.len(), |i: int| pile_row(piles[i], price_mins[i], price_maxs[i])),
            "\n"@,
        ) + PILES_END@,
    )
}

fn pile_row_html(p: &Pile, price_min: &str, price_max: &str) -> (r: String)
    ensures
        r@ == pile_row(*p, price_min@, price_max@),
{
    let mut r = String::from_str("<tr><td>");
    let name = html_escape(p.name.as_str());
    r.append(name.as_str());
    r.append("</td><td>");
    match &p.pile_type {
        PileType::Trainers => r.append("Trainers"),
        PileType::Energy { energy_type } => {
            r.append("Energy (");
            r.append(energy_type.as_str());
            r.append(")");
        },
        PileType::Bulk => r.append("Bulk"),
        PileType::Value { .. } => {
            r.append("Value ");
            r.append(price_min);
            r.append("\u{2013}");
            r.append(price_max);
        },
    }
    r.append("</td><td>");
    let n = u32_to_string(p.estimated_count);
    r.append(n.as_str());
    r.append(PILE_ROW_ACTIONS);
    let id = uuid_text(p.id);
    r.append(id.as_str());
    r.append(PILE_ROW_DELETE);
    r.append(id.as_str());
    r.append(PILE_ROW_END);
    r
}

/// The piles page: a row per pile with its name, type, count and actions,
/// then the form to add a pile. A value pile's type shows its price range,
/// whose two ends are given, per pile, in `price_mins` and `price_maxs`.
pub fn piles_page_html(piles: &Vec<Pile>, price_mins: &Vec<String>, price_maxs: &Vec<String>) -> (r: String)
    requires
        price_mins@.len() == piles@.len(),
        price_maxs@.len() == piles@.len(),
    ensures
        r@ == piles_page(piles@, string_views(price_mins@), string_views(price_maxs@)),
{
    let ghost mins = string_views(price_mins@);
    let ghost maxs = string_views(price_maxs@);
    let ghost rows_spec = Seq::new(piles@.len(), |i: int| pile_row(piles@[i], mins[i], maxs[i]));
    let mut rows: Vec<String> = Vec::new();
    let mut i: usize = 0;
    while i < piles.len()
        invariant
            i <= piles@.len(),
            price_mins@.len() == piles@.len(),
            price_maxs@.len() == piles@.len(),
            mins == string_views(price_mins@),
            maxs == string_views(price_maxs@),
            rows_spec == Seq::new(piles@.len(), |i: int| pile_row(piles@[i], mins[i], maxs[i])),
            string_views(rows@) =~= rows_spec.take(i as int),
        decreases piles@.len() - i,
    {
        let row = pile_row_html(&piles[i], price_mins[i].as_str(), price_maxs[i].as_str());
        let ghost before = rows@;
        rows.push(row);
        proof {
            assert(string_views(rows@) =~= string_views(before).push(rows_spec[i as int]));
            assert(rows_spec.take(i + 1) =~= rows_spec.take(i as int).push(rows_spec[i as int]));
        }
        i = i + 1;
    }
    assert(rows_spec.take(i as int) =~= rows_spec);
    let joined = join_strings(&rows, "\n");
    let mut content = String::from_str(PILES_INTRO);
    content.append(joined.as_str());
    content.append(PILES_END);
    base_layout("Piles", content.as_str())
}

/// The energy type that the edit form shows: that of an energy pile, else
/// nothing.
pub open spec fn energy_field(t: PileType) -> Seq<char> {
    match t {
        PileType::Energy { energy_type } => energy_type@,
        _ => Seq::empty(),
    }
}

/// A price text that the edit form shows: the given one for a value pile,
/// else nothing.
pub open spec fn price_field(t: PileType, price: Seq<char>) -> Seq<char> {
    match t {
        PileType::Value { .. } => price,
        _ => Seq::empty(),
    }
}

/// Edit form, up to the pile's id in the form's address.
pub const EDIT_PILE_INTRO: &'static str = "<h1 class=\"page-title\">Edit pile</h1>\n<div class=\"card-panel\">\n<form id=\"pile-edit-form\" method=\"post\" action=\"/piles/";

/// Edit form, from the address to the name.
pub const EDIT_PILE_NAME: &'static str = "/edit\">\n<div class=\"form-group\"><label>Pile name</label><input type=\"text\" name=\"name\" value=\"";

/// Edit form, from the name to the count.
pub const EDIT_PILE_COUNT: &'static str = "\" required></div>\n<div class=\"form-group\"><label>Estimated count</label><input type=\"number\" name=\"estimated_count\" value=\"";

/// Edit form, from the count to the energy type.
pub const EDIT_PILE_ENERGY: &'static str = "\" min=\"0\"></div>\n<div class=\"form-group\"><label>Energy type (if Energy)</label><input type=\"text\" name=\"energy_type\" value=\"";

/// Edit form, from the energy type to the lower price.
pub const EDIT_PILE_MIN: &'static str = "\"></div>\n<div class=\"form-row\"><div class=\"form-group\"><label>Price min $</label><input type=\"text\" name=\"price_min\" value=\"";

/// Edit form, from the lower to the upper price.
pub const EDIT_PILE_MAX: &'static str = "\"></div><div class=\"form-group\"><label>Price max $</label><input type=\"text\" name=\"price_max\" value=\"";

/// Edit form, after the upper price: the rest of the form and the script
/// that saves each change as it is made.
pub const EDIT_PILE_END: &'static str = "\"></div></div>\n<button type=\"submit\" class=\"btn-primary\">Back to piles</button>\n</form>\n</div>\n<script>\n(function() {\n  var form = document.getElementById('pile-edit-form');\n  if (!form) return;\n  function save() {\n    var fd = new FormData(form);\n    fetch(form.action, { method: 'POST', body: fd, headers: { 'X-Requested-With': 'XMLHttpRequest' } });\n  }\n  [].slice.call(form.querySelectorAll('input, textarea')).forEach(function(el) {\n    el.addEventListener('blur', save);\n    el.addEventListener('change', save);\n  });\n})();\n</script>";

/// The form to edit a pile, whose id is `id`.
pub open spec fn edit_pile_page(id: u128, p: Pile, price_min: Seq<char>, price_max: Seq<char>) -> Seq<char> {
    layout_page(
        "Edit pile"@,
        EDIT_PILE_INTRO@ + uuid_hyphenated(id) + EDIT_PILE_NAME@ + html_escaped(p.name@)
            + EDIT_PILE_COUNT@ + decimal(p.estimated_count as nat) + EDIT_PILE_ENERGY@ + html_escaped(
            energy_field(p.pile_type),
        ) + EDIT_PILE_MIN@ + html_escaped(price_field(p.pile_type, price_min)) + EDIT_PILE_MAX@
            + html_escaped(price_field(p.pile_type, price_max)) + EDIT_PILE_END@,
    )
}

/// The form to edit the pile `p`, whose id is `id`: name, count, energy type
/// and, for a value pile, its prices, given as text in `price_min` and
/// `price_max`.
pub fn edit_pile_html(id: u128, p: &Pile, price_min: &str, price_max: &str) -> (r: String)
    ensures
        r@ == edit_pile_page(id, *p, price_min@, price_max@),
{
    let mut content = String::from_str(EDIT_PILE_INTRO);
    let id_text = uuid_text(id);
    content.append(id_text.as_str());
    content.append(EDIT_PILE_NAME);
    let name = html_escape(p.name.as_str());
    content.append(name.as_str());
    content.append(EDIT_PILE_COUNT);
    let n = u32_to_string(p.estimated_count);
    content.append(n.as_str());
    content.append(EDIT_PILE_ENERGY);
    let (energy, min_text, max_text) = match &p.pile_type {
        PileType::Energy { energy_type } => (html_escape(energy_type.as_str()), String::new(), String::new()),
        PileType::Value { .. } => (String::new(), html_escape(price_min), html_escape(price_max)),
        _ => (String::new(), String::new(), String::new()),
    };
    content.append(energy.as_str());
    content.append(EDIT_PILE_MIN);
    content.append(min_text.as_str());
    content.append(EDIT_PILE_MAX);
    content.append(max_text.as_str());
    content.append(EDIT_PILE_END);
    base_layout("Edit pile", content.as_str())
}

} // verus!
