use pack_picker::models::{PackTypeId, Pile, PileType, Rarity, Settings};
use pack_picker::pack_gen::{PackResult, SlotInstruction};
use pack_picker::packs::{PackListEntry, PackRecord, SavedPackSlot};
use pack_picker::state::{data_dir_for, pack_file_path, packs_list_path};
use pack_picker::pages::{
    base_layout, home_settings_line, latest_packs_html, pack_detail_html, pack_error_html, pack_result_html,
    packs_index_html, settings_page_html,
};
use pack_picker::pile_pages::{combine_page_html, edit_pile_html, piles_page_html, split_page_html};
use pack_picker::selection::{AbInstruction, Half};

const ID: u128 = 0xa1a2a3a4b1b2c1c2d1d2d3d4d5d6d7d8;
const ID_TEXT: &str = "a1a2a3a4-b1b2-c1c2-d1d2-d3d4d5d6d7d8";

fn pile(id: u128, name: &str, pile_type: PileType, count: u32) -> Pile {
    Pile { id, name: name.to_string(), pile_type, estimated_count: count }
}

fn entry(id: u128, title: Option<&str>, notes: Option<&str>) -> PackListEntry {
    PackListEntry {
        id,
        created_at: "not a date".to_string(),
        title: title.map(|t| t.to_string()),
        notes: notes.map(|t| t.to_string()),
        card_summary: None,
    }
}

fn page(title: &str, content: &str) -> String {
    format!(
        r#"<!DOCTYPE html>
<html lang="en">
<head>
<meta charset="utf-8">
<meta name="viewport" content="width=device-width, initial-scale=1">
<title>{} – Pokémon TCG Pack Picker</title>
<link rel="icon" type="image/svg+xml" href="/static/images/logo.svg">
<link rel="stylesheet" href="/static/css/style.css?v=2">
</head>
<body>
<header class="site-header">
<a href="/" class="site-logo"><img src="/static/images/logo.svg" alt=""> Pokémon TCG Pack Picker</a>
<nav class="site-nav">
<a href="/">Home</a>
<a href="/piles">Piles</a>
<a href="/packs">Packs</a>
<a href="/settings">Settings</a>
</nav>
</header>
<main class="main-wrap">
{}
</main>
<footer class="site-footer">Pokémon TCG Pack Picker – Build booster packs from your collection. Not affiliated with The Pokémon Company.</footer>
</body>
</html>"#,
        title, content
    )
}

#[test]
fn layout_wraps_title_and_content() {
    assert_eq!(base_layout("Home", "<p>hi</p>"), page("Home", "<p>hi</p>"));
}

#[test]
fn pack_result_page_shows_tip_and_slots() {
    let result = PackResult {
        slots: vec![
            SlotInstruction {
                slot_number: 1,
                slot_role: "Common".to_string(),
                pile_id: 1,
                pile_name: "Bulk <A>".to_string(),
                instruction: AbInstruction { sequence: vec![Half::A, Half::B], final_number: 7 },
            },
            SlotInstruction {
                slot_number: 2,
                slot_role: "Rare".to_string(),
                pile_id: 2,
                pile_name: "Hits".to_string(),
                instruction: AbInstruction { sequence: vec![], final_number: 3 },
            },
        ],
        warning: Some("Low & low".to_string()),
    };
    let content = "<h1 class=\"page-title\">Your Booster Pack</h1>\n<p class=\"page-subtitle\">Fill each slot in order. Go to the pile, apply the A/B sequence (A = top half, B = bottom half), then use the final number when you have 10 or fewer cards left.</p>\n<div class=\"alert-warning\"><strong>Trainer tip:</strong> Low &amp; low</div>\n<div class=\"slot-cards\"><div class=\"slot-card\"><span class=\"slot-badge\">Slot 1 · Common</span><span class=\"pile-name\">Bulk &lt;A&gt;</span><span class=\"instruction\">A, B — 7</span></div>\n<div class=\"slot-card\"><span class=\"slot-badge\">Slot 2 · Rare</span><span class=\"pile-name\">Hits</span><span class=\"instruction\"> — 3</span></div></div>\n<div class=\"pack-result-actions pack-edit-actions\"><a href=\"/\" class=\"btn-primary\">Open another pack</a><a href=\"/piles\" class=\"btn-secondary\">My Piles</a></div>";
    assert_eq!(pack_result_html(&result), page("Your pack", content));
    let quiet = PackResult { slots: vec![], warning: None };
    let html = pack_result_html(&quiet);
    assert!(!html.contains("Trainer tip"));
    assert!(html.contains("left.</p>\n\n<div class=\"slot-cards\"></div>"));
}

#[test]
fn settings_page_marks_current_choices() {
    let s = Settings {
        pack_size: 7,
        pack_type: PackTypeId::Classic,
        add_energy_to_packs: true,
        energy_types_out: vec!["Fire".to_string(), "\"Water\"".to_string()],
    };
    let html = settings_page_html(&s);
    assert!(html.contains("name=\"pack_size\" value=\"7\" min=\"1\""));
    assert!(html.contains(
        "<select name=\"pack_type\"><option value=\"modern\" >Modern</option>\n<option value=\"classic\" selected disabled>Classic (coming soon)</option>\n<option value=\"legacy\"  disabled>Legacy (coming soon)</option></select>"
    ));
    assert!(html.contains("name=\"add_energy\" value=\"1\" checked> Add Energy"));
    assert!(html.contains("name=\"energy_types_out\" value=\"Fire, &quot;Water&quot;\" placeholder"));
    assert!(html.contains("(function() {\n  var form = document.getElementById('settings-form');"));
    let d = settings_page_html(&Settings::default());
    assert!(d.contains("<option value=\"modern\" selected>Modern</option>"));
    assert!(d.contains("name=\"add_energy\" value=\"1\" > Add Energy"));
    assert!(d.contains("name=\"energy_types_out\" value=\"\" placeholder"));
}

#[test]
fn packs_page_lists_entries_or_invites() {
    let empty = packs_index_html(&vec![]);
    assert!(empty.contains(
        "<tbody>\n<tr><td colspan=\"3\">No packs yet. <a href=\"/\">Open a pack</a> to get started.</td></tr>\n</tbody>"
    ));
    let mut e = entry(ID, Some("Fri <night>"), Some(""));
    e.card_summary = Some("Pikachu".to_string());
    let html = packs_index_html(&vec![e, entry(0, None, None)]);
    let row1 = format!(
        "<tr><td><a href=\"/packs/{}\">View / edit</a></td><td><div>Fri &lt;night&gt;</div><div class=\"pack-list-cards\">Pikachu</div></td><td>not a date</td></tr>",
        ID_TEXT
    );
    let row2 = "<tr><td><a href=\"/packs/00000000-0000-0000-0000-000000000000\">View / edit</a></td><td></td><td>not a date</td></tr>";
    assert!(html.contains(&format!("<tbody>\n{}\n{}\n</tbody>", row1, row2)));
    assert!(!html.contains("No packs yet"));
}

#[test]
fn pack_page_fills_form_fields() {
    let record = PackRecord {
        id: ID,
        created_at: "2024-07-15T15:24:00+00:00".to_string(),
        title: "Night".to_string(),
        notes: "with \"Sam\"".to_string(),
        slots: vec![SavedPackSlot {
            slot_number: 1,
            slot_role: "Common".to_string(),
            pile_name: "Bulk".to_string(),
            instruction_display: "A \u{2014} 3".to_string(),
            card_name: Some("Eevee".to_string()),
            card_notes: None,
            recognized_card_id: None,
            card_holo: None,
            card_image_url: None,
        }],
        warning: Some("tip".to_string()),
    };
    let html = pack_detail_html(ID, &record);
    assert!(html.contains("<p class=\"page-subtitle\">Opened Monday, July 15, 3:24 PM. Edit title"));
    assert!(html.contains("<div class=\"alert-warning\"><strong>Tip:</strong> tip</div>"));
    assert!(html.contains(&format!("action=\"/packs/{}\">", ID_TEXT)));
    assert!(html.contains(&format!("<form action=\"/packs/{}/delete\"", ID_TEXT)));
    assert!(html.contains("name=\"title\" value=\"Night\""));
    assert!(html.contains("name=\"created_at\" value=\"2024-07-15T15:24\""));
    assert!(html.contains("rows=\"2\" placeholder=\"e.g. Who pulled, where, etc.\">with &quot;Sam&quot;</textarea>"));
    assert!(html.contains(
        "<tr><td>Slot 1 · Common</td><td>A — 3</td><td><input type=\"text\" name=\"slot_0_card_name\" value=\"Eevee\" placeholder=\"Card name\"></td><td><input type=\"text\" name=\"slot_0_card_notes\" value=\"\" placeholder=\"Notes\"></td></tr>\n<tr><td colspan=\"2\"></td><td colspan=\"2\"><span class=\"muted\">Pile: Bulk · A — 3</span></td></tr>"
    ));
}

#[test]
fn home_lists_at_most_four_latest_packs() {
    assert_eq!(
        latest_packs_html(&vec![]),
        "<p class=\"home-latest-empty\">No packs yet. <a href=\"/\">Open a pack</a> to get started.</p>"
    );
    let list: Vec<PackListEntry> = (0..5u128).map(|i| entry(i, None, None)).collect();
    let html = latest_packs_html(&list);
    assert_eq!(html.matches("home-latest-pack\"").count(), 4);
    assert!(!html.contains("00000000-0000-0000-0000-000000000004"));
    let one = latest_packs_html(&vec![entry(ID, Some(""), Some("n"))]);
    assert_eq!(
        one,
        format!(
            "<a href=\"/packs/{}\" class=\"home-latest-pack\"><span class=\"home-latest-title\"></span><span class=\"home-latest-notes\">n</span></a>",
            ID_TEXT
        )
    );
    let untitled = latest_packs_html(&vec![entry(1, None, None)]);
    assert!(untitled.contains("<span class=\"home-latest-title\">(no title)</span></a>"));
}

#[test]
fn home_settings_summary() {
    assert_eq!(home_settings_line(&Settings::default()), "Modern · 5 cards per pack · Energy in packs: No");
    let s = Settings { pack_size: 3, pack_type: PackTypeId::Legacy, add_energy_to_packs: true, energy_types_out: vec![] };
    assert_eq!(home_settings_line(&s), "Legacy (coming soon) · 3 cards per pack · Energy in packs: Yes");
}

#[test]
fn error_page_escapes_message() {
    let content = "<h1 class=\"page-title\">Couldn't open a pack</h1>\n<div class=\"card-panel\">\n<p>No &lt;bulk&gt;</p>\n<p><a href=\"/\" class=\"btn-secondary\">Back home</a> <a href=\"/piles\" class=\"btn-secondary\">Manage piles</a></p>\n</div>";
    assert_eq!(pack_error_html("No <bulk>"), page("Error", content));
}

#[test]
fn packs_list_lives_in_data_dir() {
    assert_eq!(packs_list_path("/data"), "/data/packs.json");
    assert_eq!(packs_list_path("/data/"), "/data/packs.json");
    assert_eq!(packs_list_path(""), "packs.json");
    assert_eq!(packs_list_path("./data"), "./data/packs.json");
}

#[test]
fn pack_files_live_in_packs_dir() {
    assert_eq!(pack_file_path("./data", ID), format!("./data/packs/{}.json", ID_TEXT));
    assert_eq!(pack_file_path("", 1), "packs/00000000-0000-0000-0000-000000000001.json");
}

#[test]
fn data_dir_is_state_files_parent() {
    assert_eq!(data_dir_for("./data/state.json"), "./data");
    assert_eq!(data_dir_for("/srv/app/state.json"), "/srv/app");
    assert_eq!(data_dir_for("state.json"), "");
    assert_eq!(data_dir_for(""), ".");
    assert_eq!(data_dir_for("/"), ".");
}

fn sample_piles() -> Vec<Pile> {
    vec![
        pile(ID, "Bulk & co", PileType::Bulk, 120),
        pile(2, "Fire", PileType::Energy { energy_type: "Fire".to_string() }, 0),
        pile(
            3,
            "Hits",
            PileType::Value {
                price_min_usd_bits: None,
                price_max_usd_bits: None,
                price_rarity: Rarity::Rare,
                rarity: None,
            },
            9,
        ),
    ]
}

#[test]
fn piles_page_rows() {
    let piles = sample_piles();
    let mins = vec![String::new(), String::new(), "$1.00".to_string()];
    let maxs = vec![String::new(), String::new(), "$5.00".to_string()];
    let html = piles_page_html(&piles, &mins, &maxs);
    let row1 = format!(
        "<tr><td>Bulk &amp; co</td><td>Bulk</td><td>120</td><td class=\"cell-actions\"><a href=\"/piles/{0}/edit\">Edit</a> <form action=\"/piles/{0}/delete\" method=\"post\" style=\"display:inline\"><button type=\"submit\" class=\"btn-danger\">Delete</button></form></td></tr>",
        ID_TEXT
    );
    assert!(html.contains(&format!("<tbody>\n{}\n<tr><td>Fire</td><td>Energy (Fire)</td><td>0</td>", row1)));
    assert!(html.contains("<tr><td>Hits</td><td>Value $1.00–$5.00</td><td>9</td>"));
    assert!(html.contains("<option value=\"value\">Value (price range → rarity)</option>"));
}

#[test]
fn edit_pile_form_fields() {
    let piles = sample_piles();
    let html = edit_pile_html(ID, &piles[0], "1", "2");
    assert!(html.contains(&format!("action=\"/piles/{}/edit\">", ID_TEXT)));
    assert!(html.contains("name=\"name\" value=\"Bulk &amp; co\" required"));
    assert!(html.contains("name=\"estimated_count\" value=\"120\" min=\"0\""));
    assert!(html.contains("name=\"price_min\" value=\"\""));
    let energy = edit_pile_html(2, &piles[1], "1", "2");
    assert!(energy.contains("name=\"energy_type\" value=\"Fire\""));
    let value = edit_pile_html(3, &piles[2], "1.5", "7");
    assert!(value.contains("name=\"price_min\" value=\"1.5\""));
    assert!(value.contains("name=\"price_max\" value=\"7\""));
    assert!(value.contains("name=\"energy_type\" value=\"\""));
}

#[test]
fn combine_and_split_menus() {
    let piles = sample_piles();
    let options = format!(
        "<option value=\"{}\">Bulk &amp; co</option>\n<option value=\"00000000-0000-0000-0000-000000000002\">Fire</option>\n<option value=\"00000000-0000-0000-0000-000000000003\">Hits</option>",
        ID_TEXT
    );
    let combine = combine_page_html(&piles);
    assert!(combine.contains(&format!("<select name=\"id_a\" required>{}</select>", options)));
    assert!(combine.contains(&format!("<select name=\"id_b\" required>{}</select>", options)));
    let split = split_page_html(&piles);
    assert!(split.contains(&format!(
        "<select name=\"source_id\" required><option value=\"{}\">Bulk &amp; co (est. 120)</option>\n<option value=\"00000000-0000-0000-0000-000000000003\">Hits (est. 9)</option></select>",
        ID_TEXT
    )));
    assert!(!split.contains("Fire"));
}
