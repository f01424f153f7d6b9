use pack_picker::text::{html_escape, join_strings, parse_comma_list, str_eq, trimmed};
use pack_picker::dates::{created_at_to_datetime_local_value, display_date_from, format_pack_date, parse_datetime_local_to_rfc3339, replace_double_spaces};
use pack_picker::hero::{hero_sprite_edge_types, SpriteEdgeType::{Inner, Outer}};
use pack_picker::recognition::{
    card_details_from_response, card_details_url, card_id_result, recognize_endpoint, RecognitionError,
    RecognitionResponse, TcgCardData, TcgCardImages, TcgCardResponse, TcgSet,
};

#[test]
fn html_escaping() {
    assert_eq!(html_escape("a<b>&\"c'"), "a&lt;b&gt;&amp;&quot;c'");
    assert_eq!(html_escape(""), "");
    assert_eq!(html_escape("Pok\u{e9}mon"), "Pok\u{e9}mon");
}

#[test]
fn comma_lists_and_strings() {
    assert_eq!(parse_comma_list("Fire, Water ,,  Grass"), vec!["Fire", "Water", "Grass"]);
    assert!(parse_comma_list("").is_empty());
    assert!(parse_comma_list(" , ,").is_empty());
    assert_eq!(parse_comma_list("a,\u{3000}b\u{3000}"), vec!["a", "b"]);
    assert_eq!(join_strings(&vec!["x".to_string(), "y".to_string(), "z".to_string()], ", "), "x, y, z");
    assert_eq!(join_strings(&vec![], ", "), "");
    assert!(str_eq("abc", "abc"));
    assert!(!str_eq("abc", "abd"));
    assert!(!str_eq("ab", "abc"));
    assert_eq!(trimmed("\t hi there \n"), "hi there");
}

#[test]
fn pack_dates() {
    assert_eq!(format_pack_date("2024-07-15T15:24:00+00:00"), "Monday, July 15, 3:24 PM");
    assert_eq!(format_pack_date("2024-07-05T09:04:00+00:00"), "Friday, July 5, 9:04 AM");
    assert_eq!(format_pack_date("not a date"), "not a date");
    assert_eq!(created_at_to_datetime_local_value("2024-07-15T15:24:59+02:00"), "2024-07-15T15:24");
    assert_eq!(created_at_to_datetime_local_value("garbage"), "");
    assert_eq!(parse_datetime_local_to_rfc3339(" 2024-07-15T15:24 "), Some("2024-07-15T15:24:00+00:00".to_string()));
    assert_eq!(parse_datetime_local_to_rfc3339("   "), None);
    assert_eq!(parse_datetime_local_to_rfc3339("2024-13-01T00:00"), None);
    assert_eq!(display_date_from(Some(" Friday, July  5,  9:04 AM "), "x"), "Friday, July 5, 9:04 AM");
    assert_eq!(display_date_from(None, "raw"), "raw");
    assert_eq!(replace_double_spaces("a   b    c"), "a  b  c");
}

#[test]
fn hero_edges() {
    assert_eq!(hero_sprite_edge_types(0, 0, 2, 2), (Outer, Inner, Inner, Outer));
    assert_eq!(hero_sprite_edge_types(1, 1, 2, 2), (Inner, Outer, Outer, Inner));
    assert_eq!(hero_sprite_edge_types(1, 1, 3, 3), (Inner, Inner, Inner, Inner));
    assert_eq!(hero_sprite_edge_types(1, 0, 3, 5), (Outer, Inner, Inner, Inner));
}

#[test]
fn recognition_answers() {
    let both = RecognitionResponse { card_id: Some("a-1".to_string()), card_id_alt: Some("b-2".to_string()) };
    assert_eq!(both.card_id(), Some("a-1"));
    let alt = RecognitionResponse { card_id: None, card_id_alt: Some("b-2".to_string()) };
    assert_eq!(alt.card_id(), Some("b-2"));
    assert_eq!(card_id_result(&alt).unwrap(), "b-2");
    let none = RecognitionResponse { card_id: None, card_id_alt: None };
    assert!(matches!(card_id_result(&none), Err(RecognitionError::NoCardId)));
    assert_eq!(recognize_endpoint("http://127.0.0.1:5001//"), "http://127.0.0.1:5001/recognize");
    assert_eq!(recognize_endpoint("http://h"), "http://h/recognize");
    assert_eq!(card_details_url("swsh12-123"), "https://api.pokemontcg.io/v2/cards/swsh12-123");
}

#[test]
fn card_details_pick_an_image() {
    let make = |large: Option<&str>, small: Option<&str>| TcgCardResponse {
        data: TcgCardData {
            id: "base1-4".to_string(),
            name: "Charizard".to_string(),
            set: TcgSet { name: "Base".to_string() },
            images: TcgCardImages { large: large.map(|s| s.to_string()), small: small.map(|s| s.to_string()) },
        },
    };
    let d = card_details_from_response(make(Some("L"), Some("S")));
    assert_eq!((d.id.as_str(), d.name.as_str(), d.set_name.as_str(), d.image_url.as_str()), ("base1-4", "Charizard", "Base", "L"));
    assert_eq!(card_details_from_response(make(None, Some("S"))).image_url, "S");
    assert_eq!(card_details_from_response(make(None, None)).image_url, "");
}

#[test]
fn numbers_in_decimal() {
    assert_eq!(pack_picker::text::u32_to_string(0), "0");
    assert_eq!(pack_picker::text::u32_to_string(40), "40");
    assert_eq!(pack_picker::text::u32_to_string(u32::MAX), "4294967295");
    assert_eq!(pack_picker::text::usize_to_string(7), "7");
    assert_eq!(pack_picker::text::usize_to_string(1090), "1090");
}

#[test]
fn trim_removes_unicode_whitespace_at_both_ends() {
    assert_eq!(pack_picker::text::trim("  Fire \t\n"), "Fire");
    assert_eq!(pack_picker::text::trim("\u{3000}a b\u{a0}"), "a b");
    assert_eq!(pack_picker::text::trim(" \u{2003} "), "");
    assert_eq!(pack_picker::text::trim(""), "");
    assert_eq!(pack_picker::text::trim("x\u{200b}"), "x\u{200b}");
    assert!(pack_picker::text::is_whitespace_char('\u{85}'));
    assert!(!pack_picker::text::is_whitespace_char('x'));
}
