use vstd::prelude::*;
use crate::error::{outcome, Failure, ParseError};
use crate::fields::{
    divider_line, has_prefix, lemma_divider_index_is, parse_affixes, parse_description,
    parse_divider, parse_item_level, parse_item_quality, parse_item_quantity, parse_item_rarity,
    parse_kind, parse_name, parse_pack_size, parse_rarity, parse_stack_size, parse_tier,
    rarity_named, spec_affixes, spec_description, spec_divider, spec_item_level, spec_number_key,
    spec_rarity, spec_required_line, spec_stack_size, spec_tier, stack_value,
};
use crate::item::{
    Currency, CurrencyView, DivinationCard, DivinationCardView, Item, ItemRarity, ItemView,
    MapItem, MapView, StackSize, UniqueStub,
};
use crate::lines::{
    chars_of, is_plain_line, is_plain_text, join_lines, lemma_index_of_is,
    lemma_join_lines_restores, lemma_stacked, lines, stacked,
};
use crate::messages::ClipboardEvent;
use crate::values::{all_digits, digits_value, is_digit, unsigned_digits};

verus! {

/// `t` occurs somewhere in `s`.
pub open spec fn has_infix(s: Seq<char>, t: Seq<char>) -> bool {
    exists|i: int| 0 <= i && i + t.len() <= s.len() && #[trigger] s.subrange(i, i + t.len()) == t
}

/// A currency: name, divider, stack size, divider, affixes, divider, description.
pub open spec fn spec_currency(s: Seq<char>) -> Result<ItemView, Failure> {
    match spec_required_line(s) {
        Err(e) => Err(e),
        Ok((name, s)) => match spec_divider(s) {
            Err(e) => Err(e),
            Ok(s) => match spec_stack_size(s) {
                Err(e) => Err(e),
                Ok((stack_size, s)) => match spec_divider(s) {
                    Err(e) => Err(e),
                    Ok(s) => match spec_affixes(s) {
                        Err(e) => Err(e),
                        Ok((affixes, s)) => match spec_divider(s) {
                            Err(e) => Err(e),
                            Ok(s) => match spec_description(s) {
                                Err(e) => Err(e),
                                Ok(description) => Ok(
                                    ItemView::Currency(
                                        CurrencyView { name, stack_size, affixes, description },
                                    ),
                                ),
                            },
                        },
                    },
                },
            },
        },
    }
}

/// A divination card: laid out as a currency, with its reward as the first affix.
pub open spec fn spec_divination_card(s: Seq<char>) -> Result<ItemView, Failure> {
    match spec_required_line(s) {
        Err(e) => Err(e),
        Ok((name, s)) => match spec_divider(s) {
            Err(e) => Err(e),
            Ok(s) => match spec_stack_size(s) {
                Err(e) => Err(e),
                Ok((stack_size, s)) => match spec_divider(s) {
                    Err(e) => Err(e),
                    Ok(s) => match spec_affixes(s) {
                        Err(e) => Err(e),
                        Ok((affixes, s)) => match spec_divider(s) {
                            Err(e) => Err(e),
                            Ok(s) => match spec_description(s) {
                                Err(e) => Err(e),
                                Ok(description) => if affixes.len() == 0 {
                                    Err(Failure::MissingReward)
                                } else {
                                    Ok(
                                        ItemView::DivinationCard(
                                            DivinationCardView {
                                                name,
                                                stack_size,
                                                reward: affixes[0],
                                                description,
                                            },
                                        ),
                                    )
                                },
                            },
                        },
                    },
                },
            },
        },
    }
}

/// A map of normal rarity: divider, tier, divider, item level, divider, description.
pub open spec fn spec_common_map(kind: Seq<char>, rarity: ItemRarity, s: Seq<char>) -> Result<
    ItemView,
    Failure,
> {
    match spec_divider(s) {
        Err(e) => Err(e),
        Ok(s) => match spec_tier(s) {
            Err(e) => Err(e),
            Ok((tier, s)) => match spec_divider(s) {
                Err(e) => Err(e),
                Ok(s) => match spec_item_level(s) {
                    Err(e) => Err(e),
                    Ok((item_level, s)) => match spec_divider(s) {
                        Err(e) => Err(e),
                        Ok(s) => match spec_description(s) {
                            Err(e) => Err(e),
                            Ok(_) => Ok(
                                ItemView::MapItem(
                                    MapView {
                                        name: None,
                                        kind,
                                        tier,
                                        item_quantity: 0,
                                        item_rarity: 0,
                                        quality: 0,
                                        pack_size: 0,
                                        affixes: seq![],
                                        item_level,
                                        rarity,
                                    },
                                ),
                            ),
                        },
                    },
                },
            },
        },
    }
}

/// A magic, rare or unique map: divider, tier, item quantity, item rarity,
/// pack size, quality, divider, item level, divider, affixes, divider,
/// description.
pub open spec fn spec_uncommon_map(
    name: Seq<char>,
    kind: Seq<char>,
    rarity: ItemRarity,
    s: Seq<char>,
) -> Result<ItemView, Failure> {
    match spec_divider(s) {
        Err(e) => Err(e),
        Ok(s) => match spec_tier(s) {
            Err(e) => Err(e),
            Ok((tier, s)) => match spec_number_key(s, "Item Quantity"@) {
                Err(e) => Err(e),
                Ok((item_quantity, s)) => match spec_number_key(s, "Item Rarity"@) {
                    Err(e) => Err(e),
                    Ok((item_rarity, s)) => match spec_number_key(s, "Monster Pack Size"@) {
                        Err(e) => Err(e),
                        Ok((pack_size, s)) => match spec_number_key(s, "Quality"@) {
                            Err(e) => Err(e),
                            Ok((quality, s)) => match spec_divider(s) {
                                Err(e) => Err(e),
                                Ok(s) => match spec_item_level(s) {
                                    Err(e) => Err(e),
                                    Ok((item_level, s)) => match spec_divider(s) {
                                        Err(e) => Err(e),
                                        Ok(s) => match spec_affixes(s) {
                                            Err(e) => Err(e),
                                            Ok((affixes, s)) => match spec_divider(s) {
                                                Err(e) => Err(e),
                                                Ok(s) => match spec_description(s) {
                                                    Err(e) => Err(e),
                                                    Ok(_) => Ok(
                                                        ItemView::MapItem(
                                                            MapView {
                                                                name: Some(name),
                                                                kind,
                                                                tier,
                                                                item_quantity,
                                                                item_rarity,
                                                                quality,
                                                                pack_size,
                                                                affixes,
                                                                item_level,
                                                                rarity,
                                                            },
                                                        ),
                                                    ),
                                                },
                                            },
                                        },
                                    },
                                },
                            },
                        },
                    },
                },
            },
        },
    }
}

/// An item of normal rarity: its kind, then what that kind holds.
pub open spec fn spec_common_item(s: Seq<char>) -> Result<ItemView, Failure> {
    match spec_required_line(s) {
        Err(e) => Err(e),
        Ok((kind, s)) => if has_infix(kind, "Map"@) {
            spec_common_map(kind, ItemRarity::Normal, s)
        } else {
            Err(Failure::UnsupportedItemKind(kind))
        },
    }
}

/// A magic, rare or unique item: its name, its kind, then what that kind holds.
pub open spec fn spec_uncommon_item(s: Seq<char>, rarity: ItemRarity) -> Result<ItemView, Failure> {
    match spec_required_line(s) {
        Err(e) => Err(e),
        Ok((name, s)) => match spec_required_line(s) {
            Err(e) => Err(e),
            Ok((kind, s)) => if has_infix(kind, "Map"@) {
                spec_uncommon_map(name, kind, rarity, s)
            } else if rarity == ItemRarity::Unique {
                Ok(ItemView::UniqueStub(name))
            } else {
                Err(Failure::UnsupportedItemKind(kind))
            },
        },
    }
}

/// A whole tooltip: its rarity line decides how the rest is read.
pub open spec fn spec_tooltip(s: Seq<char>) -> Result<ItemView, Failure> {
    match spec_rarity(s) {
        Err(e) => Err(e),
        Ok((rarity, s)) => match rarity {
            ItemRarity::Currency => spec_currency(s),
            ItemRarity::DivinationCard => spec_divination_card(s),
            ItemRarity::Normal => spec_common_item(s),
            _ => spec_uncommon_item(s, rarity),
        },
    }
}

/// Whether `t` occurs in `s` at index `i`.
fn matches_at(s: &Vec<char>, t: &Vec<char>, i: usize) -> (r: bool)
    requires
        i + t@.len() <= s@.len(),
    ensures
        r == (s@.subrange(i as int, i + t@.len()) == t@),
{
    let n = s.len();
    let mut j: usize = 0;
    while j < t.len()
        invariant
            n == s@.len(),
            i + t@.len() <= s@.len(),
            j <= t@.len(),
            forall|m: int| 0 <= m < j ==> s@[i + m] == t@[m],
        decreases t@.len() - j,
    {
        if s[i + j] != t[j] {
            assert(s@.subrange(i as int, i + t@.len())[j as int] != t@[j as int]);
            return false;
        }
        j = j + 1;
    }
    assert(s@.subrange(i as int, i + t@.len()) =~= t@);
    true
}

/// Whether `needle` occurs in `text`.
pub fn contains_text(text: &str, needle: &str) -> (r: bool)
    ensures
        r == has_infix(text@, needle@),
{
    let s = chars_of(text);
    let t = chars_of(needle);
    if t.len() > s.len() {
        return false;
    }
    if t.len() == 0 {
        assert(text@.subrange(0int, 0int + needle@.len()) =~= needle@);
        return true;
    }
    let mut i: usize = 0;
    while i <= s.len() - t.len()
        invariant
            s@ == text@,
            t@ == needle@,
            0 < t@.len() <= s@.len(),
            i <= s@.len() - t@.len() + 1,
            forall|k: int| 0 <= k < i ==> #[trigger] s@.subrange(k, k + t@.len()) != t@,
        decreases s@.len() - i,
    {
        if matches_at(&s, &t, i) {
            return true;
        }
        i = i + 1;
    }
    false
}

/// Reads a currency tooltip, past its rarity line.
pub fn parse_currency(rest: &str) -> (r: Result<Item, ParseError>)
    ensures
        outcome(r) == spec_currency(rest@),
{
    let (name, rest) = parse_name(rest)?;
    let rest = parse_divider(rest.as_str())?;
    let (stack_size, rest) = parse_stack_size(rest.as_str())?;
    let rest = parse_divider(rest.as_str())?;
    let (affixes, rest) = parse_affixes(rest.as_str())?;
    let rest = parse_divider(rest.as_str())?;
    let description = parse_description(rest)?;
    Ok(Item::Currency(Currency { name, stack_size, affixes, description }))
}

/// Reads a divination card tooltip, past its rarity line. The first affix line
/// is the card's reward; further ones are dropped.
pub fn parse_divination_cards(item: &str) -> (r: Result<Item, ParseError>)
    ensures
        outcome(r) == spec_divination_card(item@),
{
    let (name, rest) = parse_name(item)?;
    let rest = parse_divider(rest.as_str())?;
    let (stack_size, rest) = parse_stack_size(rest.as_str())?;
    let rest = parse_divider(rest.as_str())?;
    let (mut affixes, rest) = parse_affixes(rest.as_str())?;
    let rest = parse_divider(rest.as_str())?;
    let description = parse_description(rest)?;
    if affixes.len() == 0 {
        return Err(ParseError::MissingReward);
    }
    let ghost listed = affixes.deep_view();
    let reward = affixes.remove(0);
    assert(reward@ == listed[0]);
    Ok(Item::DivinationCard(DivinationCard { name, stack_size, reward, description }))
}

/// Reads a map of normal rarity, past its kind line.
pub fn parse_common_map(kind: String, rarity: ItemRarity, rest: &str) -> (r: Result<Item, ParseError>)
    ensures
        outcome(r) == spec_common_map(kind@, rarity, rest@),
{
    let rest = parse_divider(rest)?;
    let (tier, rest) = parse_tier(rest.as_str())?;
    let rest = parse_divider(rest.as_str())?;
    let (item_level, rest) = parse_item_level(rest.as_str())?;
    let rest = parse_divider(rest.as_str())?;
    let _description = parse_description(rest)?;
    let affixes: Vec<String> = Vec::new();
    assert(affixes.deep_view() =~= Seq::<Seq<char>>::empty());
    Ok(
        Item::MapItem(
            MapItem {
                name: None,
                kind,
                tier,
                item_quantity: 0,
                item_rarity: 0,
                quality: 0,
                pack_size: 0,
                affixes,
                item_level,
                rarity,
            },
        ),
    )
}

/// Reads a magic, rare or unique map, past its kind line.
pub fn parse_uncommon_map(name: String, kind: String, rarity: ItemRarity, rest: &str) -> (r: Result<
    Item,
    ParseError,
>)
    ensures
        outcome(r) == spec_uncommon_map(name@, kind@, rarity, rest@),
{
    let rest = parse_divider(rest)?;
    let (tier, rest) = parse_tier(rest.as_str())?;
    let (item_quantity, rest) = parse_item_quantity(rest.as_str())?;
    let (item_rarity, rest) = parse_item_rarity(rest.as_str())?;
    let (pack_size, rest) = parse_pack_size(rest.as_str())?;
    let (quality, rest) = parse_item_quality(rest.as_str())?;
    let rest = parse_divider(rest.as_str())?;
    let (item_level, rest) = parse_item_level(rest.as_str())?;
    let rest = parse_divider(rest.as_str())?;
    let (affixes, rest) = parse_affixes(rest.as_str())?;
    let rest = parse_divider(rest.as_str())?;
    let _description = parse_description(rest)?;
    Ok(
        Item::MapItem(
            MapItem {
                name: Some(name),
                kind,
                tier,
                item_quantity,
                item_rarity,
                quality,
                pack_size,
                affixes,
                item_level,
                rarity,
            },
        ),
    )
}

/// Reads an item of normal rarity, past its rarity line.
pub fn parse_common_item(rest: &str) -> (r: Result<Item, ParseError>)
    ensures
        outcome(r) == spec_common_item(rest@),
{
    let (kind, rest) = parse_kind(rest)?;
    if contains_text(kind.as_str(), "Map") {
        parse_common_map(kind, ItemRarity::Normal, rest.as_str())
    } else {
        Err(ParseError::UnsupportedItemKind(kind))
    }
}

/// Reads a magic, rare or unique item, past its rarity line.
pub fn parse_uncommon_item(rest: &str, rarity: ItemRarity) -> (r: Result<Item, ParseError>)
    ensures
        outcome(r) == spec_uncommon_item(rest@, rarity),
{
    let (name, rest) = parse_name(rest)?;
    let (kind, rest) = parse_kind(rest.as_str())?;
    if contains_text(kind.as_str(), "Map") {
        return parse_uncommon_map(name, kind, rarity, rest.as_str());
    }
    if rarity == ItemRarity::Unique {
        return Ok(Item::UniqueStub(UniqueStub { name }));
    }
    Err(ParseError::UnsupportedItemKind(kind))
}

/// Reads a whole tooltip into an item.
pub fn parse_tooltip(content: &str) -> (r: Result<Item, ParseError>)
    ensures
        outcome(r) == spec_tooltip(content@),
{
    let (rarity, rest) = parse_rarity(content)?;
    match rarity {
        ItemRarity::Currency => parse_currency(rest.as_str()),
        ItemRarity::DivinationCard => parse_divination_cards(rest.as_str()),
        ItemRarity::Normal => parse_common_item(rest.as_str()),
        ItemRarity::Magical | ItemRarity::Rare | ItemRarity::Unique => parse_uncommon_item(
            rest.as_str(),
            rarity,
        ),
    }
}

/// One step of the parsing worker: the item that a clipboard capture describes,
/// to be handed on, or nothing when its text is not a tooltip that can be read.
pub fn spawn_tooltip_parser(event: &ClipboardEvent) -> (r: Option<Item>)
    ensures
        match spec_tooltip(event.content@) {
            Ok(v) => r matches Some(item) && item.deep_view() == v,
            Err(_) => r is None,
        },
{
    match parse_tooltip(event.content.as_str()) {
        Ok(item) => Some(item),
        Err(_) => None,
    }
}

/// A number written as it stands in a tooltip: ASCII digits that fit a `u32`.
pub open spec fn is_decimal(d: Seq<char>) -> bool {
    d.len() > 0 && all_digits(d) && digits_value(d) <= u32::MAX
}

/// The lines of a currency tooltip up to the divider that closes its affixes.
pub open spec fn currency_head(
    name: Seq<char>,
    current: Seq<char>,
    max: Seq<char>,
    affixes: Seq<Seq<char>>,
) -> Seq<Seq<char>> {
    seq![
        "Rarity: Currency"@,
        name,
        divider_line(),
        "Stack Size: "@ + current + seq!['/'] + max,
        divider_line(),
    ] + affixes + seq![divider_line()]
}

proof fn lemma_literal_lines()
    ensures
        is_plain_line(divider_line()),
        is_plain_line("Rarity: Currency"@),
        has_prefix("Rarity: Currency"@, "Rarity: "@),
        rarity_named("Rarity: Currency"@.skip("Rarity: "@.len() as int)) == Some(ItemRarity::Currency),
{
    reveal_strlit("Rarity: Currency");
    reveal_strlit("Rarity: ");
    reveal_strlit("Currency");
    reveal_strlit("Unique");
    reveal_strlit("--------");
    let d = divider_line();
    if d.contains('\n') {
        let k = choose|k: int| 0 <= k < d.len() && d[k] == '\n';
        assert(d[k] == '-');
    }
    let r = "Rarity: Currency"@;
    if r.contains('\n') {
        let k = choose|k: int| 0 <= k < r.len() && r[k] == '\n';
        assert(false);
    }
    assert(r.take(8) =~= "Rarity: "@);
    assert(r.skip(8) =~= "Currency"@);
}

proof fn lemma_stack_line(current: Seq<char>, max: Seq<char>)
    requires
        is_decimal(current),
        is_decimal(max),
    ensures
        is_plain_line("Stack Size: "@ + current + seq!['/'] + max),
        has_prefix("Stack Size: "@ + current + seq!['/'] + max, "Stack Size: "@),
        stack_value(("Stack Size: "@ + current + seq!['/'] + max).skip("Stack Size: "@.len() as int))
            == Some(
            StackSize { current: digits_value(current) as u32, max: digits_value(max) as u32 },
        ),
{
    reveal_strlit("Stack Size: ");
    let p = "Stack Size: "@;
    let stack_line = p + current + seq!['/'] + max;
    let value = current + seq!['/'] + max;
    if stack_line.contains('\n') {
        let k = choose|k: int| 0 <= k < stack_line.len() && stack_line[k] == '\n';
        if k < p.len() {
            assert(stack_line[k] == p[k]);
        } else if k < p.len() + current.len() {
            assert(stack_line[k] == current[k - p.len()]);
            assert(is_digit(current[k - p.len()]));
        } else if k > p.len() + current.len() {
            assert(stack_line[k] == max[k - p.len() - current.len() - 1]);
            assert(is_digit(max[k - p.len() - current.len() - 1]));
        }
    }
    assert(stack_line.last() == max.last());
    assert(is_digit(max[max.len() - 1]));
    assert(stack_line.take(p.len() as int) =~= p);
    assert(stack_line.skip(p.len() as int) =~= value);
    assert forall|j: int| 0 <= j < current.len() implies value[j] != '/' by {
        assert(value[j] == current[j]);
        assert(is_digit(current[j]));
    }
    lemma_index_of_is(value, '/', current.len() as int);
    assert(value.take(current.len() as int) =~= current);
    assert(value.skip(current.len() + 1int) =~= max);
    if max.contains('/') {
        let k = choose|k: int| 0 <= k < max.len() && max[k] == '/';
        assert(is_digit(max[k]));
    }
    assert(is_digit(current[0]) && is_digit(max[0]));
    assert(unsigned_digits(current) == current);
    assert(unsigned_digits(max) == max);
}

proof fn lemma_affix_section(affixes: Seq<Seq<char>>, description: Seq<char>)
    requires
        forall|i: int|
            0 <= i < affixes.len() ==> is_plain_line(#[trigger] affixes[i]) && affixes[i]
                != divider_line(),
        is_plain_line(divider_line()),
        is_plain_text(description),
        description.len() > 0,
    ensures
        spec_affixes(stacked(affixes + seq![divider_line()], description)) == Ok::<
            (Seq<Seq<char>>, Seq<char>),
            Failure,
        >((affixes, stacked(seq![divider_line()], description))),
{
    let d = divider_line();
    let tail = affixes + seq![d];
    assert forall|i: int| 0 <= i < tail.len() implies is_plain_line(#[trigger] tail[i]) by {
        if i < affixes.len() {
            assert(tail[i] == affixes[i]);
        }
    }
    lemma_stacked(tail, description);
    let ls = lines(stacked(tail, description));
    assert(ls =~= affixes + seq![d] + lines(description));
    assert(ls[affixes.len() as int] == d);
    assert forall|j: int| 0 <= j < affixes.len() implies ls[j] != d by {
        assert(ls[j] == affixes[j]);
    }
    lemma_divider_index_is(ls, affixes.len() as int);
    assert(ls.take(affixes.len() as int) =~= affixes);
    assert(ls.skip(affixes.len() + 1int) =~= lines(description));
    lemma_join_lines_restores(description);
    assert(join_lines(seq![d]) == d);
}

/// Reading a text stacked from plain lines takes its first line.
proof fn lemma_read_line(ls: Seq<Seq<char>>, t: Seq<char>)
    requires
        ls.len() > 1,
        forall|i: int| 0 <= i < ls.len() ==> is_plain_line(#[trigger] ls[i]),
        is_plain_text(t),
        t.len() > 0,
    ensures
        spec_required_line(stacked(ls, t)) == Ok::<(Seq<char>, Seq<char>), Failure>(
            (ls[0], stacked(ls.drop_first(), t)),
        ),
        ls[0] == divider_line() ==> spec_divider(stacked(ls, t)) == Ok::<Seq<char>, Failure>(
            stacked(ls.drop_first(), t),
        ),
        forall|i: int| 0 <= i < ls.drop_first().len() ==> is_plain_line(#[trigger] ls.drop_first()[i]),
{
    lemma_stacked(ls, t);
    assert forall|i: int| 0 <= i < ls.drop_first().len() implies is_plain_line(
        #[trigger] ls.drop_first()[i],
    ) by {
        assert(ls.drop_first()[i] == ls[i + 1]);
    }
}

/// A currency tooltip reads back as the currency it was written from: its name,
/// affixes and description verbatim, in order, and the stack size that its
/// `Stack Size: <current>/<max>` line writes.
pub proof fn lemma_currency_tooltip_round_trip(
    name: Seq<char>,
    current: Seq<char>,
    max: Seq<char>,
    affixes: Seq<Seq<char>>,
    description: Seq<char>,
)
    requires
        is_plain_line(name),
        is_decimal(current),
        is_decimal(max),
        forall|i: int|
            0 <= i < affixes.len() ==> is_plain_line(#[trigger] affixes[i]) && affixes[i]
                != divider_line(),
        is_plain_text(description),
        description.len() > 0,
    ensures
        spec_tooltip(stacked(currency_head(name, current, max, affixes), description)) == Ok::<
            ItemView,
            Failure,
        >(
            ItemView::Currency(
                CurrencyView {
                    name,
                    stack_size: StackSize {
                        current: digits_value(current) as u32,
                        max: digits_value(max) as u32,
                    },
                    affixes,
                    description,
                },
            ),
        ),
{
    let l = currency_head(name, current, max, affixes);
    let d = divider_line();
    let t = description;
    lemma_literal_lines();
    lemma_stack_line(current, max);
    assert forall|i: int| 0 <= i < l.len() implies is_plain_line(#[trigger] l[i]) by {
        if i >= 5 && i < 5 + affixes.len() {
            assert(l[i] == affixes[i - 5]);
        }
    }
    lemma_read_line(l, t);
    assert(l.drop_first().drop_first() =~= l.skip(2));
    assert(l.skip(2).drop_first() =~= l.skip(3));
    assert(l.skip(3).drop_first() =~= l.skip(4));
    assert(l.skip(4).drop_first() =~= l.skip(5));
    assert(l.skip(5) =~= affixes + seq![d]);
    lemma_read_line(l.drop_first(), t);
    lemma_read_line(l.skip(2), t);
    lemma_read_line(l.skip(3), t);
    lemma_read_line(l.skip(4), t);
    lemma_affix_section(affixes, t);
    lemma_stacked(seq![d], t);
    assert(spec_rarity(stacked(l, t)) == Ok::<(ItemRarity, Seq<char>), Failure>(
        (ItemRarity::Currency, stacked(l.drop_first(), t)),
    ));
    assert(spec_stack_size(stacked(l.skip(3), t)) == Ok::<(StackSize, Seq<char>), Failure>(
        (
            StackSize { current: digits_value(current) as u32, max: digits_value(max) as u32 },
            stacked(l.skip(4), t),
        ),
    ));
}

} // verus!
