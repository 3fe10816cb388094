use vstd::prelude::*;
use vstd::string::StrSliceExecFns;
use crate::error::{outcome, Failure, ParseError};
use crate::item::{ItemRarity, KeyCapture, KeyCaptureView, Rest, StackSize};
use crate::lines::{
    chars_of, find_char_from, first_line, gather_from, index_of, join_lines, lemma_index_of_bounds,
    lemma_lines_unfold, line_at, lines, rest_after_line,
};
use crate::values::{
    decimal_u32, digits_value, extract_map_roll, is_digit, parse_number, roll_value,
};

verus! {

/// The line that separates the sections of a tooltip.
pub open spec fn divider_line() -> Seq<char> {
    "--------"@
}

pub open spec fn has_prefix(s: Seq<char>, p: Seq<char>) -> bool {
    p.len() <= s.len() && s.take(p.len() as int) == p
}

/// What starts the line that holds `key`.
pub open spec fn key_prefix(key: Seq<char>) -> Seq<char> {
    key + seq![':', ' ']
}

/// The first line of `s` and the rest of it.
pub open spec fn spec_required_line(s: Seq<char>) -> Result<(Seq<char>, Seq<char>), Failure> {
    if s.len() == 0 {
        Err(Failure::EmptyInput)
    } else {
        Ok((first_line(s), rest_after_line(s)))
    }
}

/// The value of the `key: value` line that opens `s`, or `s` itself when it
/// opens with another line.
pub open spec fn spec_key_line(s: Seq<char>, key: Seq<char>) -> Result<KeyCaptureView, Failure> {
    if s.len() == 0 {
        Err(Failure::EmptyKeyedInput(key))
    } else if has_prefix(first_line(s), key_prefix(key)) {
        Ok(KeyCaptureView::Capture(first_line(s).skip(key.len() + 2int), rest_after_line(s)))
    } else {
        Ok(KeyCaptureView::NoCapture(s))
    }
}

/// The percentage roll held by the line of `key` that opens `s`.
pub open spec fn spec_number_key(s: Seq<char>, key: Seq<char>) -> Result<(u32, Seq<char>), Failure> {
    match spec_key_line(s, key) {
        Err(e) => Err(e),
        Ok(KeyCaptureView::Capture(v, rest)) => match roll_value(v) {
            Some(n) => Ok((n, rest)),
            None => Err(Failure::MalformedPercentageRoll(v)),
        },
        Ok(KeyCaptureView::NoCapture(_)) => Err(Failure::MissingKey(key)),
    }
}

/// The item level that the line opening `s` holds.
pub open spec fn spec_item_level(s: Seq<char>) -> Result<(u32, Seq<char>), Failure> {
    match spec_key_line(s, "Item Level"@) {
        Err(e) => Err(e),
        Ok(KeyCaptureView::Capture(v, rest)) => match decimal_u32(v) {
            Some(n) => Ok((n, rest)),
            None => Err(Failure::MalformedNumber("Item Level"@, v)),
        },
        Ok(KeyCaptureView::NoCapture(_)) => Err(Failure::MissingKey("Item Level"@)),
    }
}

/// The leading ASCII digits of a tier value, two at most.
pub open spec fn tier_digits(v: Seq<char>) -> Seq<char> {
    if v.len() > 0 && is_digit(v[0]) {
        if v.len() > 1 && is_digit(v[1]) {
            v.take(2)
        } else {
            v.take(1)
        }
    } else {
        seq![]
    }
}

/// The map tier that the line opening `s` holds.
pub open spec fn spec_tier(s: Seq<char>) -> Result<(u32, Seq<char>), Failure> {
    match spec_key_line(s, "Map Tier"@) {
        Err(e) => Err(e),
        Ok(KeyCaptureView::Capture(v, rest)) => if tier_digits(v).len() == 0 {
            Err(Failure::MalformedTier(v))
        } else {
            Ok((digits_value(tier_digits(v)) as u32, rest))
        },
        Ok(KeyCaptureView::NoCapture(_)) => Err(Failure::MissingKey("Map Tier"@)),
    }
}

/// Index of the first divider among `ls`.
pub open spec fn divider_index(ls: Seq<Seq<char>>) -> Option<int>
    decreases ls.len(),
{
    if ls.len() == 0 {
        None
    } else if ls[0] == divider_line() {
        Some(0)
    } else {
        match divider_index(ls.drop_first()) {
            Some(k) => Some(k + 1),
            None => None,
        }
    }
}

/// The lines of `s` before its first divider, and the text from that divider on.
pub open spec fn spec_affixes(s: Seq<char>) -> Result<(Seq<Seq<char>>, Seq<char>), Failure> {
    if s.len() == 0 {
        Err(Failure::EmptyInput)
    } else {
        match divider_index(lines(s)) {
            None => Err(Failure::UnterminatedAffixList),
            Some(k) => Ok(
                (
                    lines(s).take(k),
                    divider_line() + seq!['\n'] + join_lines(lines(s).skip(k + 1)),
                ),
            ),
        }
    }
}

pub open spec fn spec_description(s: Seq<char>) -> Result<Seq<char>, Failure> {
    if s.len() > 0 {
        Ok(s)
    } else {
        Err(Failure::EmptyDescription)
    }
}

/// The rarity that a name stands for.
pub open spec fn rarity_named(n: Seq<char>) -> Option<ItemRarity> {
    if n == "Unique"@ {
        Some(ItemRarity::Unique)
    } else if n == "Currency"@ {
        Some(ItemRarity::Currency)
    } else if n == "Normal"@ {
        Some(ItemRarity::Normal)
    } else if n == "Magical"@ {
        Some(ItemRarity::Magical)
    } else if n == "Rare"@ {
        Some(ItemRarity::Rare)
    } else if n == "Divination Card"@ {
        Some(ItemRarity::DivinationCard)
    } else {
        None
    }
}

/// The rarity that the `Rarity: <name>` line opening `s` gives.
pub open spec fn spec_rarity(s: Seq<char>) -> Result<(ItemRarity, Seq<char>), Failure> {
    if s.len() == 0 {
        Err(Failure::EmptyInput)
    } else if has_prefix(first_line(s), "Rarity: "@) {
        let name = first_line(s).skip("Rarity: "@.len() as int);
        match rarity_named(name) {
            Some(r) => Ok((r, rest_after_line(s))),
            None => Err(Failure::UnknownRarity(name)),
        }
    } else {
        Err(Failure::MissingRarityPrefix)
    }
}

/// The text after the divider that opens `s`.
pub open spec fn spec_divider(s: Seq<char>) -> Result<Seq<char>, Failure> {
    if s.len() == 0 {
        Err(Failure::EmptyInput)
    } else if first_line(s) == divider_line() {
        Ok(rest_after_line(s))
    } else {
        Err(Failure::MalformedDivider(first_line(s)))
    }
}

/// The stack size that `v`, the value of a `Stack Size` line, writes as
/// `<current>/<max>`.
pub open spec fn stack_value(v: Seq<char>) -> Option<StackSize> {
    let k = index_of(v, '/');
    if k < v.len() && !v.skip(k + 1).contains('/') {
        match (decimal_u32(v.take(k)), decimal_u32(v.skip(k + 1))) {
            (Some(current), Some(max)) => Some(StackSize { current, max }),
            _ => None,
        }
    } else {
        None
    }
}

/// The stack size that the `Stack Size: <current>/<max>` line opening `s` gives.
pub open spec fn spec_stack_size(s: Seq<char>) -> Result<(StackSize, Seq<char>), Failure> {
    if s.len() == 0 {
        Err(Failure::EmptyInput)
    } else if has_prefix(first_line(s), "Stack Size: "@) {
        match stack_value(first_line(s).skip("Stack Size: "@.len() as int)) {
            Some(st) => Ok((st, rest_after_line(s))),
            None => Err(Failure::MalformedStackSize(first_line(s))),
        }
    } else {
        Err(Failure::MalformedStackSize(first_line(s)))
    }
}

/// `line` without `prefix`, where it starts with `prefix`.
fn strip_prefix_chars(line: &str, prefix: &Vec<char>) -> (r: Option<String>)
    ensures
        r is Some <==> has_prefix(line@, prefix@),
        r matches Some(x) ==> x@ == line@.skip(prefix@.len() as int),
{
    let v = chars_of(line);
    if prefix.len() > v.len() {
        return None;
    }
    let mut i: usize = 0;
    while i < prefix.len()
        invariant
            v@ == line@,
            prefix@.len() <= v@.len(),
            0 <= i <= prefix@.len(),
            forall|j: int| 0 <= j < i ==> v@[j] == prefix@[j],
        decreases prefix@.len() - i,
    {
        if v[i] != prefix[i] {
            assert(line@.take(prefix@.len() as int)[i as int] != prefix@[i as int]);
            return None;
        }
        i = i + 1;
    }
    assert(line@.take(prefix@.len() as int) =~= prefix@);
    Some(line.substring_char(prefix.len(), v.len()).to_string())
}

/// Takes the first line of `item` as a field, and gathers the other lines as the rest.
pub fn capture_required_line(item: &str) -> (r: Result<(String, Rest), ParseError>)
    ensures
        outcome(r) == spec_required_line(item@),
{
    let v = chars_of(item);
    if v.len() == 0 {
        return Err(ParseError::EmptyInput);
    }
    let (line, next) = line_at(item, &v, 0);
    let rest = gather_from(item, &v, next);
    assert(item@.skip(0) =~= item@);
    Ok((line, rest))
}

/// Reads the line `key: value` that opens `item`, if it is there.
pub fn capture_key_line(item: &str, key: &str) -> (r: Result<KeyCapture, ParseError>)
    ensures
        outcome(r) == spec_key_line(item@, key@),
{
    let (line, rest) = match capture_required_line(item) {
        Ok(p) => p,
        Err(_) => {
            return Err(ParseError::EmptyKeyedInput(key.to_string()));
        },
    };
    let mut prefix = chars_of(key);
    prefix.push(':');
    prefix.push(' ');
    assert(prefix@ =~= key_prefix(key@));
    match strip_prefix_chars(line.as_str(), &prefix) {
        Some(value) => Ok(KeyCapture::Capture(value, rest)),
        None => Ok(KeyCapture::NoCapture(item.to_string())),
    }
}

/// Reads the percentage roll on the line of `key` that opens `item`.
pub fn capture_required_number_key(item: &str, key: &str) -> (r: Result<(u32, Rest), ParseError>)
    ensures
        outcome(r) == spec_number_key(item@, key@),
{
    match capture_key_line(item, key)? {
        KeyCapture::Capture(value, rest) => match extract_map_roll(value.as_str()) {
            Ok(n) => Ok((n, rest)),
            Err(e) => Err(e),
        },
        KeyCapture::NoCapture(_) => Err(ParseError::MissingKey(key.to_string())),
    }
}

/// Reads the `Item Quantity: +<n>% (augmented)` line that opens `item`.
pub fn parse_item_quantity(item: &str) -> (r: Result<(u32, Rest), ParseError>)
    ensures
        outcome(r) == spec_number_key(item@, "Item Quantity"@),
{
    capture_required_number_key(item, "Item Quantity")
}

/// Reads the `Item Rarity: +<n>% (augmented)` line that opens `item`.
pub fn parse_item_rarity(item: &str) -> (r: Result<(u32, Rest), ParseError>)
    ensures
        outcome(r) == spec_number_key(item@, "Item Rarity"@),
{
    capture_required_number_key(item, "Item Rarity")
}

/// Reads the `Monster Pack Size: +<n>% (augmented)` line that opens `item`.
pub fn parse_pack_size(item: &str) -> (r: Result<(u32, Rest), ParseError>)
    ensures
        outcome(r) == spec_number_key(item@, "Monster Pack Size"@),
{
    capture_required_number_key(item, "Monster Pack Size")
}

/// Reads the `Quality: +<n>% (augmented)` line that opens `item`.
pub fn parse_item_quality(item: &str) -> (r: Result<(u32, Rest), ParseError>)
    ensures
        outcome(r) == spec_number_key(item@, "Quality"@),
{
    capture_required_number_key(item, "Quality")
}

/// Reads the line that names the kind of an item.
pub fn parse_kind(item: &str) -> (r: Result<(String, Rest), ParseError>)
    ensures
        outcome(r) == spec_required_line(item@),
{
    capture_required_line(item)
}

/// Reads the line that names an item.
pub fn parse_name(item: &str) -> (r: Result<(String, Rest), ParseError>)
    ensures
        outcome(r) == spec_required_line(item@),
{
    capture_required_line(item)
}

/// Reads the `Item Level: <n>` line that opens `item`.
pub fn parse_item_level(item: &str) -> (r: Result<(u32, Rest), ParseError>)
    ensures
        outcome(r) == spec_item_level(item@),
{
    match capture_key_line(item, "Item Level")? {
        KeyCapture::Capture(value, rest) => match parse_number(value.as_str()) {
            Some(n) => Ok((n, rest)),
            None => Err(ParseError::MalformedNumber("Item Level".to_string(), value)),
        },
        KeyCapture::NoCapture(_) => Err(ParseError::MissingKey("Item Level".to_string())),
    }
}

/// Reads the `Map Tier: <n>` line that opens `item`; the tier is read from the
/// leading digits of the value, two at most, so that `18 (augmented)` gives 18.
pub fn parse_tier(item: &str) -> (r: Result<(u32, Rest), ParseError>)
    ensures
        outcome(r) == spec_tier(item@),
{
    match capture_key_line(item, "Map Tier")? {
        KeyCapture::Capture(value, rest) => {
            let v = chars_of(value.as_str());
            if v.len() == 0 || v[0] < '0' || v[0] > '9' {
                return Err(ParseError::MalformedTier(value));
            }
            let first: u32 = v[0] as u32 - '0' as u32;
            let tier = if v.len() > 1 && '0' <= v[1] && v[1] <= '9' {
                proof {
                    let d = tier_digits(value@);
                    assert(d.drop_last() =~= v@.take(1));
                    assert(v@.take(1).drop_last() =~= Seq::<char>::empty());
                    assert(digits_value(Seq::<char>::empty()) == 0);
                    assert(digits_value(v@.take(1)) == first);
                    assert(d.last() == v@[1]);
                    assert(digits_value(d) == first * 10 + (v@[1] as int - '0' as int));
                }
                first * 10 + (v[1] as u32 - '0' as u32)
            } else {
                proof {
                    assert(tier_digits(value@).drop_last() =~= Seq::<char>::empty());
                    assert(digits_value(Seq::<char>::empty()) == 0);
                    assert(digits_value(tier_digits(value@)) == first);
                }
                first
            };
            Ok((tier, rest))
        },
        KeyCapture::NoCapture(_) => Err(ParseError::MissingKey("Map Tier".to_string())),
    }
}

/// Checks that a text is non-empty, and hands it on as a description.
pub fn parse_description(item: String) -> (r: Result<String, ParseError>)
    ensures
        outcome(r) == spec_description(item@),
{
    if !item.as_str().is_empty() {
        Ok(item)
    } else {
        Err(ParseError::EmptyDescription)
    }
}

/// Reads the `Rarity: <name>` line that opens `item`.
pub fn parse_rarity(item: &str) -> (r: Result<(ItemRarity, Rest), ParseError>)
    ensures
        outcome(r) == spec_rarity(item@),
{
    let (line, rest) = capture_required_line(item)?;
    let prefix = chars_of("Rarity: ");
    match strip_prefix_chars(line.as_str(), &prefix) {
        Some(name) => {
            let rarity = if name == "Unique".to_string() {
                ItemRarity::Unique
            } else if name == "Currency".to_string() {
                ItemRarity::Currency
            } else if name == "Normal".to_string() {
                ItemRarity::Normal
            } else if name == "Magical".to_string() {
                ItemRarity::Magical
            } else if name == "Rare".to_string() {
                ItemRarity::Rare
            } else if name == "Divination Card".to_string() {
                ItemRarity::DivinationCard
            } else {
                return Err(ParseError::UnknownRarity(name));
            };
            Ok((rarity, rest))
        },
        None => Err(ParseError::MissingRarityPrefix),
    }
}

/// Reads the divider line that opens `item`, and returns what follows it.
pub fn parse_divider(item: &str) -> (r: Result<Rest, ParseError>)
    ensures
        outcome(r) == spec_divider(item@),
{
    let (line, rest) = capture_required_line(item)?;
    if line == "--------".to_string() {
        Ok(rest)
    } else {
        Err(ParseError::MalformedDivider(line))
    }
}

/// Reads the `Stack Size: <current>/<max>` line that opens `item`.
pub fn parse_stack_size(item: &str) -> (r: Result<(StackSize, Rest), ParseError>)
    ensures
        outcome(r) == spec_stack_size(item@),
{
    let (line, rest) = capture_required_line(item)?;
    let prefix = chars_of("Stack Size: ");
    let value = match strip_prefix_chars(line.as_str(), &prefix) {
        Some(x) => x,
        None => {
            return Err(ParseError::MalformedStackSize(line));
        },
    };
    let v = chars_of(value.as_str());
    let slash = find_char_from(&v, 0, '/');
    assert(v@.skip(0) =~= v@);
    if slash == v.len() {
        return Err(ParseError::MalformedStackSize(line));
    }
    let second = find_char_from(&v, slash + 1, '/');
    proof {
        lemma_index_of_bounds(v@.skip(slash + 1), '/');
    }
    if second < v.len() {
        assert(v@.skip(slash + 1)[second - slash - 1] == '/');
        return Err(ParseError::MalformedStackSize(line));
    }
    let current = parse_number(value.as_str().substring_char(0, slash));
    let max = parse_number(value.as_str().substring_char(slash + 1, v.len()));
    proof {
        assert(v@.subrange(0, slash as int) =~= v@.take(slash as int));
        assert(v@.subrange(slash + 1, v@.len() as int) =~= v@.skip(slash + 1));
    }
    match (current, max) {
        (Some(current), Some(max)) => Ok((StackSize { current, max }, rest)),
        _ => Err(ParseError::MalformedStackSize(line)),
    }
}

pub(crate) proof fn lemma_divider_index_is(ls: Seq<Seq<char>>, k: int)
    requires
        0 <= k <= ls.len(),
        forall|j: int| 0 <= j < k ==> ls[j] != divider_line(),
        k < ls.len() ==> ls[k] == divider_line(),
    ensures
        divider_index(ls) == if k < ls.len() {
            Some(k)
        } else {
            None::<int>
        },
    decreases ls.len(),
{
    if ls.len() > 0 && k > 0 {
        let t = ls.drop_first();
        assert forall|j: int| 0 <= j < k - 1 implies t[j] != divider_line() by {
            assert(t[j] == ls[j + 1]);
        }
        if k < ls.len() {
            assert(t[k - 1] == ls[k]);
        }
        lemma_divider_index_is(t, k - 1);
    }
}

/// Reads affix lines up to the first divider. The divider stays at the head of
/// the rest, for the next step to read.
pub fn parse_affixes(item: &str) -> (r: Result<(Vec<String>, Rest), ParseError>)
    ensures
        outcome(r) == spec_affixes(item@),
{
    let v = chars_of(item);
    if v.len() == 0 {
        return Err(ParseError::EmptyInput);
    }
    let mut affixes: Vec<String> = Vec::new();
    let mut i: usize = 0;
    assert(item@.skip(0) =~= item@);
    assert(lines(item@) =~= affixes.deep_view() + lines(item@.skip(0)));
    loop
        invariant
            v@ == item@,
            i <= v@.len(),
            item@.len() > 0,
            lines(item@) == affixes.deep_view() + lines(item@.skip(i as int)),
            forall|j: int| 0 <= j < affixes.deep_view().len() ==> affixes.deep_view()[j] != divider_line(),
        decreases v@.len() - i,
    {
        if i == v.len() {
            proof {
                assert(item@.skip(i as int) =~= Seq::<char>::empty());
                assert(lines(item@) =~= affixes.deep_view());
                lemma_divider_index_is(lines(item@), lines(item@).len() as int);
            }
            return Err(ParseError::UnterminatedAffixList);
        }
        let (line, next) = line_at(item, &v, i);
        proof {
            lemma_lines_unfold(item@.skip(i as int));
        }
        if line == "--------".to_string() {
            let gathered = gather_from(item, &v, next);
            let mut rest = "--------".to_string();
            rest.append("\n");
            rest.append(gathered.as_str());
            proof {
                reveal_strlit("\n");
                let ls = lines(item@);
                let k = affixes.deep_view().len() as int;
                assert(ls =~= affixes.deep_view() + seq![line@] + lines(item@.skip(next as int)));
                assert(ls[k] == line@);
                lemma_divider_index_is(ls, k);
                assert(ls.take(k) =~= affixes.deep_view());
                assert(ls.skip(k + 1) =~= lines(item@.skip(next as int)));
                assert(rest@ =~= divider_line() + seq!['\n'] + join_lines(ls.skip(k + 1)));
            }
            return Ok((affixes, rest));
        }
        let ghost before = affixes.deep_view();
        affixes.push(line);
        proof {
            assert(affixes.deep_view() =~= before + seq![line@]);
            assert(lines(item@) =~= affixes.deep_view() + lines(item@.skip(next as int)));
        }
        i = next;
    }
}

} // verus!
