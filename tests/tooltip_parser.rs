use beancounter::error::ParseError;
use beancounter::fields::{
    parse_affixes, parse_divider, parse_name, parse_rarity, parse_stack_size, parse_tier,
};
use beancounter::item::{Item, ItemRarity, StackSize};
use beancounter::lines::gather;
use beancounter::tooltip_parser::parse_tooltip;

const CHAOS_ORB: &str = "Rarity: Currency
Chaos Orb
--------
Stack Size: 20/10
--------
Reforges a rare item with new random modifiers
--------
Right click this item then left click a rare item to apply it.
Shift click to unstack.";

const ESSENCE_OF_SPITE: &str = "Rarity: Currency
Shrieking Essence of Spite
--------
Stack Size: 1/9
--------
Upgrades a normal item to rare with one guaranteed property
Properties restricted to level 82 and below
Weapon: +(15-17)% to Critical Strike Chance
Other Item: (13-15)% increased Damage over Time
--------
Right click this item then left click a normal item to apply it. Shift click to unstack.";

const SHAPED_CAGE: &str = "Rarity: Normal
Shaped Cage Map
--------
Map Tier: 8 (augmented)
--------
Item Level: 75
--------
Travel to this Map by using it in the Templar Laboratory or a personal Map Device. Maps can only be used once.";

const SHAPED_UNDERGROUND_SEA: &str = "Rarity: Rare
Chimeric Paradise
Shaped Underground Sea Map
--------
Map Tier: 11 (augmented)
Item Quantity: +142% (augmented)
Item Rarity: +72% (augmented)
Monster Pack Size: +46% (augmented)
Quality: +20% (augmented)
--------
Item Level: 79
--------
Area is inhabited by ranged monsters
Monsters deal 110% extra Damage as Lightning
Players are Cursed with Elemental Weakness
Monsters have 40% increased Area of Effect
Area contains many Totems
Monsters fire 2 additional Projectiles
Unique Boss has 25% increased Life
Unique Boss has 45% increased Area of Effect
Monsters have 100% increased Critical Strike Chance
+30% to Monster Critical Strike Multiplier
Players have 40% less Recovery Rate of Life and Energy Shield
Monsters cannot be Stunned
--------
Travel to this Map by using it in the Templar Laboratory or a personal Map Device. Maps can only be used once.";

const HETEROCHROMIA_CARD: &str = "Rarity: Divination Card
Heterochromia
--------
Stack Size: 1/2
--------
Two-Stone Ring
--------
The eye of the beholder sees both sides of the story.";

const INPULSAS_BROKEN_HEART: &str = "Rarity: Unique
Inpulsa's Broken Heart
Sadist Garb
--------
Evasion Rating: 816
Energy Shield: 233
--------
Requirements:
Level: 68
Dex: 103
Int: 109
--------
Item Level: 75";

#[test]
fn should_correctly_parse_correct_strings() {
    let test_string = "Map Tier: 18 (augmented)";
    match parse_tier(test_string) {
        Ok((x, _rest)) => {
            assert_eq!(x, 18);
        }
        Err(e) => {
            println!("{:?}", e);
            assert!(false);
        }
    }
}

#[test]
fn should_die_on_malformed_tiers() {
    let test_string = "Map Tier: OPOP (augmented)";
    assert!(parse_tier(test_string).is_err());
}

#[test]
fn should_stop_at_divider() {
    let test_string = "Foo\nBar\n--------\nBaz";
    let res = parse_affixes(test_string);

    assert!(res.is_ok());

    let (affixes, rest) = res.unwrap();
    assert_eq!(rest, "--------\nBaz".to_string());
    assert_eq!(affixes.len(), 2);
    assert_eq!(affixes[0], "Foo".to_string());
    assert_eq!(affixes[1], "Bar".to_string());
}

#[test]
fn should_parse_name_correctly() {
    let test_string = "Chaos Orb\nFoobar";
    let res = parse_name(test_string);

    assert!(res.is_ok());

    let (name, rest) = res.unwrap();
    assert_eq!(name, "Chaos Orb".to_string());
    assert_eq!(rest, "Foobar".to_string());
}

#[test]
fn should_parse_diviers() {
    let test_string = "--------";
    let res = parse_divider(test_string);

    assert!(res.is_ok());

    let uw = res.unwrap();

    assert_eq!(uw, "".to_string());
}

#[test]
fn should_break_on_malformed_dividers() {
    let test_string = "------";
    let res = parse_divider(test_string);

    assert!(res.is_err());
}

#[test]
fn should_parse_simple_stacks() {
    let test_string = "Stack Size: 10/20\n";
    let res = parse_stack_size(test_string);

    assert!(res.is_ok());

    let (stacks, _rest) = res.unwrap();

    assert_eq!(stacks.current, 10);
    assert_eq!(stacks.max, 20);
}

#[test]
fn should_break_on_malformed_stacks() {
    let test_string = "Stack Size: Foo/Bar";
    let res = parse_stack_size(test_string);

    assert!(res.is_err());

    let other_test_string = "Stack Size: 10/12/10";
    let res2 = parse_stack_size(other_test_string);

    assert!(res2.is_err());
}

#[test]
fn should_break_on_stacks_without_slash() {
    let test_string = "Stack Size: 10";
    let res = parse_stack_size(test_string);

    assert!(res.is_err());
}

#[test]
fn should_parse_unique_rarities() {
    let test_string = "Rarity: Unique\n";
    assert_eq!(
        parse_rarity(test_string).unwrap(),
        (ItemRarity::Unique, "".to_string())
    )
}

#[test]
fn should_error_on_bad_rarities() {
    let test_string = "Rarity: Some Shit";
    assert!(parse_rarity(test_string).is_err());
}

#[test]
fn should_correclty_handle_empty_string() {
    let test_string = "";
    assert!(parse_rarity(test_string).is_err());
}

#[test]
fn should_parse_currencies() {
    let result = parse_tooltip(CHAOS_ORB);

    match result.unwrap() {
        Item::Currency(c) => {
            assert_eq!(c.name, "Chaos Orb".to_string());
            assert_eq!(c.affixes.len(), 1);
            assert_eq!(
                c.stack_size,
                StackSize {
                    current: 20,
                    max: 10,
                }
            )
        }
        _ => assert!(false),
    }
}

#[test]
fn should_parse_essences() {
    let result = parse_tooltip(ESSENCE_OF_SPITE);

    match result.unwrap() {
        Item::Currency(c) => {
            assert_eq!(c.affixes.len(), 4);
            assert_eq!(c.stack_size, StackSize { current: 1, max: 9 });
            assert_eq!(c.name, "Shrieking Essence of Spite".to_string());
        }
        _ => assert!(false),
    }
}

#[test]
fn should_parse_maps() {
    let result = parse_tooltip(SHAPED_CAGE);

    match result {
        Ok(Item::MapItem(m)) => {
            assert_eq!(m.kind, "Shaped Cage Map".to_string());
            assert_eq!(m.name, None);
            assert_eq!(m.rarity, ItemRarity::Normal);
            assert_eq!(m.item_level, 75);
            assert_eq!(m.affixes.len(), 0);
            assert_eq!(m.tier, 8);
        }
        Ok(_) => assert!(false),
        Err(e) => {
            println!("{:?}", e);
            assert!(false)
        }
    }
}

#[test]
fn should_parse_complex_maps() {
    match parse_tooltip(SHAPED_UNDERGROUND_SEA) {
        Ok(Item::MapItem(map)) => {
            assert_eq!(map.tier, 11);
            assert_eq!(map.kind, "Shaped Underground Sea Map".to_string());
            assert_eq!(map.item_level, 79);
            assert_eq!(map.quality, 20);
            assert_eq!(map.item_quantity, 142);
            assert_eq!(map.item_rarity, 72);
            assert_eq!(map.pack_size, 46);
            assert_eq!(map.affixes.len(), 12);
        }
        Ok(_) => assert!(false),
        Err(some_err) => {
            println!("{:?}", some_err);
            assert!(false)
        }
    }
}

#[test]
fn should_parse_divination_cards() {
    let result = parse_tooltip(HETEROCHROMIA_CARD);

    assert!(result.is_ok());

    match result.unwrap() {
        Item::DivinationCard(c) => {
            assert_eq!(c.name, "Heterochromia".to_string());
            assert_eq!(c.reward, "Two-Stone Ring".to_string());
            assert_eq!(c.stack_size, StackSize { current: 1, max: 2 });
        }
        _ => assert!(false),
    }
}

#[test]
fn should_parse_uniques_stubs() {
    match parse_tooltip(INPULSAS_BROKEN_HEART) {
        Ok(Item::UniqueStub(u)) => assert_eq!(u.name, "Inpulsa's Broken Heart".to_string()),
        Ok(_) => assert!(false),
        Err(_e) => assert!(false),
    }
}

#[test]
fn should_preserve_newlines() {
    let test_string = String::from("a\nb\nc\nd");
    let first_line = test_string.lines().next().unwrap();
    let rest = gather(&test_string[first_line.len() + 1..]);
    assert_eq!(rest, "b\nc\nd");
}

#[test]
fn complex_map_keeps_name_rarity_and_affix_order() {
    match parse_tooltip(SHAPED_UNDERGROUND_SEA) {
        Ok(Item::MapItem(map)) => {
            assert_eq!(map.name, Some("Chimeric Paradise".to_string()));
            assert_eq!(map.rarity, ItemRarity::Rare);
            assert_eq!(map.affixes[0], "Area is inhabited by ranged monsters".to_string());
            assert_eq!(map.affixes[11], "Monsters cannot be Stunned".to_string());
        }
        _ => assert!(false),
    }
}

#[test]
fn currency_sections_are_kept_verbatim() {
    match parse_tooltip(CHAOS_ORB).unwrap() {
        Item::Currency(c) => {
            assert_eq!(
                c.affixes,
                vec!["Reforges a rare item with new random modifiers".to_string()]
            );
            assert_eq!(
                c.description,
                "Right click this item then left click a rare item to apply it.\nShift click to unstack."
                    .to_string()
            );
        }
        _ => assert!(false),
    }
}

#[test]
fn divination_card_keeps_description() {
    match parse_tooltip(HETEROCHROMIA_CARD).unwrap() {
        Item::DivinationCard(c) => {
            assert_eq!(
                c.description,
                "The eye of the beholder sees both sides of the story.".to_string()
            );
        }
        _ => assert!(false),
    }
}

#[test]
fn divination_card_without_reward_is_refused() {
    let card = "Rarity: Divination Card\nThe Void\n--------\nStack Size: 1/1\n--------\n--------\nReshuffle.";
    assert!(matches!(parse_tooltip(card), Err(ParseError::MissingReward)));
}

#[test]
fn normal_items_that_are_not_maps_are_unsupported() {
    let text = "Rarity: Normal\nIron Ring\n--------\nItem Level: 2";
    match parse_tooltip(text) {
        Err(ParseError::UnsupportedItemKind(kind)) => assert_eq!(kind, "Iron Ring".to_string()),
        _ => assert!(false),
    }
}

#[test]
fn rare_items_that_are_not_maps_are_unsupported() {
    let text = "Rarity: Rare\nGale Coil\nIron Ring\n--------\nItem Level: 2";
    match parse_tooltip(text) {
        Err(ParseError::UnsupportedItemKind(kind)) => assert_eq!(kind, "Iron Ring".to_string()),
        _ => assert!(false),
    }
}

#[test]
fn tooltip_without_rarity_line_is_refused() {
    assert!(matches!(
        parse_tooltip("Chaos Orb\n--------"),
        Err(ParseError::MissingRarityPrefix)
    ));
}

#[test]
fn unknown_rarity_names_the_rarity() {
    match parse_rarity("Rarity: Some Shit") {
        Err(ParseError::UnknownRarity(name)) => assert_eq!(name, "Some Shit".to_string()),
        _ => assert!(false),
    }
}

#[test]
fn empty_rarity_input_is_empty_input() {
    assert!(matches!(parse_rarity(""), Err(ParseError::EmptyInput)));
}

#[test]
fn every_rarity_name_is_read() {
    let names = [
        ("Rarity: Currency", ItemRarity::Currency),
        ("Rarity: Divination Card", ItemRarity::DivinationCard),
        ("Rarity: Normal", ItemRarity::Normal),
        ("Rarity: Magical", ItemRarity::Magical),
        ("Rarity: Rare", ItemRarity::Rare),
        ("Rarity: Unique", ItemRarity::Unique),
    ];
    for (line, rarity) in names.iter() {
        assert_eq!(parse_rarity(line).unwrap(), (*rarity, "".to_string()));
    }
}

#[test]
fn short_divider_names_the_line() {
    match parse_divider("------\nnext") {
        Err(ParseError::MalformedDivider(line)) => assert_eq!(line, "------".to_string()),
        _ => assert!(false),
    }
}

#[test]
fn divider_on_empty_text_is_empty_input() {
    assert!(matches!(parse_divider(""), Err(ParseError::EmptyInput)));
}

#[test]
fn divider_hands_on_the_following_lines() {
    assert_eq!(parse_divider("--------\nA\nB").unwrap(), "A\nB".to_string());
}

#[test]
fn malformed_stack_names_the_line() {
    match parse_stack_size("Stack Size: 10/12/10\nrest") {
        Err(ParseError::MalformedStackSize(line)) => {
            assert_eq!(line, "Stack Size: 10/12/10".to_string())
        }
        _ => assert!(false),
    }
    assert!(matches!(
        parse_stack_size("Stacks: 10/12"),
        Err(ParseError::MalformedStackSize(_))
    ));
    assert!(matches!(
        parse_stack_size("Stack Size: 10/4294967296"),
        Err(ParseError::MalformedStackSize(_))
    ));
}

#[test]
fn stack_size_hands_on_the_rest() {
    let (stack, rest) = parse_stack_size("Stack Size: 4294967295/0\n--------").unwrap();
    assert_eq!(stack, StackSize { current: 4294967295, max: 0 });
    assert_eq!(rest, "--------".to_string());
}

#[test]
fn affixes_without_divider_are_unterminated() {
    assert!(matches!(
        parse_affixes("Foo\nBar"),
        Err(ParseError::UnterminatedAffixList)
    ));
    assert!(matches!(parse_affixes(""), Err(ParseError::EmptyInput)));
}

#[test]
fn affixes_may_be_empty_before_a_divider() {
    let (affixes, rest) = parse_affixes("--------").unwrap();
    assert!(affixes.is_empty());
    assert_eq!(rest, "--------\n".to_string());
}

#[test]
fn tier_reads_two_digits_at_most() {
    assert_eq!(parse_tier("Map Tier: 5").unwrap().0, 5);
    assert_eq!(parse_tier("Map Tier: 123").unwrap().0, 12);
    match parse_tier("Map Tier: OPOP (augmented)") {
        Err(ParseError::MalformedTier(value)) => assert_eq!(value, "OPOP (augmented)".to_string()),
        _ => assert!(false),
    }
    match parse_tier("Item Level: 70") {
        Err(ParseError::MissingKey(key)) => assert_eq!(key, "Map Tier".to_string()),
        _ => assert!(false),
    }
}

#[test]
fn crlf_line_endings_are_read_as_line_feeds() {
    let (name, rest) = parse_name("Chaos Orb\r\n--------\r\nend").unwrap();
    assert_eq!(name, "Chaos Orb".to_string());
    assert_eq!(rest, "--------\nend".to_string());
}

#[test]
fn gather_drops_a_final_line_ending() {
    assert_eq!(gather("b\nc\n"), "b\nc".to_string());
    assert_eq!(gather(""), "".to_string());
    assert_eq!(gather("b\n\nc"), "b\n\nc".to_string());
}
