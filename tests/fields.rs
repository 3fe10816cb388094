use beancounter::error::ParseError;
use beancounter::fields::{
    capture_key_line, capture_required_line, capture_required_number_key, parse_description,
    parse_item_level, parse_item_quality, parse_item_quantity, parse_item_rarity, parse_kind,
    parse_pack_size,
};
use beancounter::item::{Item, KeyCapture};
use beancounter::messages::ClipboardEvent;
use beancounter::tooltip_parser::{contains_text, spawn_tooltip_parser};
use beancounter::values::{extract_map_roll, parse_number};

#[test]
fn key_line_captures_value_and_rest() {
    assert_eq!(
        capture_key_line("Item Level: 79\n--------", "Item Level").unwrap(),
        KeyCapture::Capture("79".to_string(), "--------".to_string())
    );
}

#[test]
fn key_line_without_key_keeps_the_whole_text() {
    assert_eq!(
        capture_key_line("Quality: +20% (augmented)\nnext", "Item Level").unwrap(),
        KeyCapture::NoCapture("Quality: +20% (augmented)\nnext".to_string())
    );
}

#[test]
fn key_line_on_empty_text_names_the_key() {
    match capture_key_line("", "Item Level") {
        Err(ParseError::EmptyKeyedInput(key)) => assert_eq!(key, "Item Level".to_string()),
        _ => assert!(false),
    }
}

#[test]
fn required_line_on_empty_text_fails() {
    assert!(matches!(capture_required_line(""), Err(ParseError::EmptyInput)));
    assert_eq!(
        parse_kind("Shaped Cage Map").unwrap(),
        ("Shaped Cage Map".to_string(), "".to_string())
    );
}

#[test]
fn percentage_rolls_are_read() {
    assert_eq!(
        parse_item_quantity("Item Quantity: +142% (augmented)\nx").unwrap(),
        (142, "x".to_string())
    );
    assert_eq!(parse_item_rarity("Item Rarity: +72% (augmented)").unwrap().0, 72);
    assert_eq!(parse_pack_size("Monster Pack Size: +46% (augmented)").unwrap().0, 46);
    assert_eq!(parse_item_quality("Quality: +20% (augmented)").unwrap().0, 20);
}

#[test]
fn malformed_roll_names_the_value() {
    match capture_required_number_key("Quality: 20%", "Quality") {
        Err(ParseError::MalformedPercentageRoll(v)) => assert_eq!(v, "20%".to_string()),
        _ => assert!(false),
    }
    match capture_required_number_key("Item Level: 5", "Quality") {
        Err(ParseError::MissingKey(k)) => assert_eq!(k, "Quality".to_string()),
        _ => assert!(false),
    }
}

#[test]
fn map_roll_reads_only_the_exact_pattern() {
    assert_eq!(extract_map_roll("+142% (augmented)").unwrap(), 142);
    assert_eq!(extract_map_roll("+0% (augmented)").unwrap(), 0);
    assert!(extract_map_roll("142% (augmented)").is_err());
    assert!(extract_map_roll("+% (augmented)").is_err());
    assert!(extract_map_roll("+14x2% (augmented)").is_err());
    assert!(extract_map_roll("+142% (augmented) ").is_err());
    assert!(extract_map_roll("+4294967296% (augmented)").is_err());
    assert!(extract_map_roll("+\u{0663}% (augmented)").is_err());
}

#[test]
fn item_level_must_be_a_number() {
    assert_eq!(parse_item_level("Item Level: 79").unwrap().0, 79);
    match parse_item_level("Item Level: high\nx") {
        Err(ParseError::MalformedNumber(k, v)) => {
            assert_eq!(k, "Item Level".to_string());
            assert_eq!(v, "high".to_string());
        }
        _ => assert!(false),
    }
    assert!(matches!(
        parse_item_level("Map Tier: 3"),
        Err(ParseError::MissingKey(_))
    ));
}

#[test]
fn description_must_not_be_empty() {
    assert_eq!(parse_description("x".to_string()).unwrap(), "x".to_string());
    assert!(matches!(
        parse_description(String::new()),
        Err(ParseError::EmptyDescription)
    ));
}

#[test]
fn numbers_follow_unsigned_decimal_syntax() {
    assert_eq!(parse_number("0"), Some(0));
    assert_eq!(parse_number("+17"), Some(17));
    assert_eq!(parse_number("007"), Some(7));
    assert_eq!(parse_number("4294967295"), Some(4294967295));
    assert_eq!(parse_number("4294967296"), None);
    assert_eq!(parse_number(""), None);
    assert_eq!(parse_number("+"), None);
    assert_eq!(parse_number("-1"), None);
    assert_eq!(parse_number("1 "), None);
}

#[test]
fn substring_search() {
    assert!(contains_text("Shaped Cage Map", "Map"));
    assert!(!contains_text("Sadist Garb", "Map"));
    assert!(contains_text("abc", ""));
    assert!(!contains_text("Ma", "Map"));
}

#[test]
fn worker_step_hands_on_items_and_drops_failures() {
    let good = ClipboardEvent {
        content: "Rarity: Unique\nInpulsa's Broken Heart\nSadist Garb\n--------".to_string(),
    };
    match spawn_tooltip_parser(&good) {
        Some(Item::UniqueStub(u)) => assert_eq!(u.name, "Inpulsa's Broken Heart".to_string()),
        _ => assert!(false),
    }
    let bad = ClipboardEvent { content: "just some copied text".to_string() };
    assert!(spawn_tooltip_parser(&bad).is_none());
}
