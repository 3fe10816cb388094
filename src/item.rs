use vstd::prelude::*;

verus! {

/// The text that a parsing step left unread.
pub type Rest = String;

/// An item read from a tooltip: exactly one of its kinds.
#[derive(Debug)]
pub enum Item {
    Currency(Currency),
    DivinationCard(DivinationCard),
    MapItem(MapItem),
    UniqueStub(UniqueStub),
}

/// A full record of a piece of gear.
#[derive(Debug, PartialEq)]
pub struct Gear {
    pub name: String,
    pub rarity: ItemRarity,
    pub affixes: Vec<String>,
    pub sockets: String,
    pub item_level: u32,
    pub requirements: Requirements,
}

#[derive(Debug, PartialEq)]
pub struct Currency {
    pub name: String,
    pub stack_size: StackSize,
    pub affixes: Vec<String>,
    pub description: String,
}

#[derive(Debug, PartialEq)]
pub struct DivinationCard {
    pub name: String,
    pub stack_size: StackSize,
    pub reward: String,
    pub description: String,
}

#[derive(Debug, PartialEq)]
pub struct MapItem {
    pub name: Option<String>,
    pub kind: String,
    pub tier: u32,
    pub item_quantity: u32,
    pub item_rarity: u32,
    pub quality: u32,
    pub pack_size: u32,
    pub affixes: Vec<String>,
    pub item_level: u32,
    pub rarity: ItemRarity,
}

/// What is known of a unique item that is not a map: its name.
#[derive(Debug, PartialEq)]
pub struct UniqueStub {
    pub name: String,
}

/// The attributes a character needs to use a piece of gear.
#[derive(Debug, PartialEq, Eq, Clone, Copy, Structural)]
pub struct Requirements {
    pub level: u32,
    pub strength: u32,
    pub intelligence: u32,
    pub dexterity: u32,
}

/// How many items a stack holds, and how many it can hold.
#[derive(Debug, PartialEq, Eq, Clone, Copy, Structural)]
pub struct StackSize {
    pub current: u32,
    pub max: u32,
}

#[derive(Debug, PartialEq, Eq, Clone, Copy, Structural)]
pub enum ItemRarity {
    Currency,
    DivinationCard,
    Normal,
    Magical,
    Rare,
    Unique,
}

/// The outcome of looking for a `Key: Value` line: the value and the lines
/// after it, or the whole text, untouched, when the key is not there.
#[derive(Debug, PartialEq)]
pub enum KeyCapture {
    Capture(String, Rest),
    NoCapture(Rest),
}

pub struct CurrencyView {
    pub name: Seq<char>,
    pub stack_size: StackSize,
    pub affixes: Seq<Seq<char>>,
    pub description: Seq<char>,
}

pub struct DivinationCardView {
    pub name: Seq<char>,
    pub stack_size: StackSize,
    pub reward: Seq<char>,
    pub description: Seq<char>,
}

pub struct MapView {
    pub name: Option<Seq<char>>,
    pub kind: Seq<char>,
    pub tier: u32,
    pub item_quantity: u32,
    pub item_rarity: u32,
    pub quality: u32,
    pub pack_size: u32,
    pub affixes: Seq<Seq<char>>,
    pub item_level: u32,
    pub rarity: ItemRarity,
}

pub enum ItemView {
    Currency(CurrencyView),
    DivinationCard(DivinationCardView),
    MapItem(MapView),
    UniqueStub(Seq<char>),
}

pub enum KeyCaptureView {
    Capture(Seq<char>, Seq<char>),
    NoCapture(Seq<char>),
}

impl DeepView for StackSize {
    type V = StackSize;

    open spec fn deep_view(&self) -> StackSize {
        *self
    }
}

impl DeepView for ItemRarity {
    type V = ItemRarity;

    open spec fn deep_view(&self) -> ItemRarity {
        *self
    }
}

impl DeepView for KeyCapture {
    type V = KeyCaptureView;

    open spec fn deep_view(&self) -> KeyCaptureView {
        match self {
            KeyCapture::Capture(v, r) => KeyCaptureView::Capture(v@, r@),
            KeyCapture::NoCapture(r) => KeyCaptureView::NoCapture(r@),
        }
    }
}

impl DeepView for Item {
    type V = ItemView;

    open spec fn deep_view(&self) -> ItemView {
        match self {
            Item::Currency(c) => ItemView::Currency(
                CurrencyView {
                    name: c.name@,
                    stack_size: c.stack_size,
                    affixes: c.affixes.deep_view(),
                    description: c.description@,
                },
            ),
            Item::DivinationCard(d) => ItemView::DivinationCard(
                DivinationCardView {
                    name: d.name@,
                    stack_size: d.stack_size,
                    reward: d.reward@,
                    description: d.description@,
                },
            ),
            Item::MapItem(m) => ItemView::MapItem(
                MapView {
                    name: match m.name {
                        Some(n) => Some(n@),
                        None => None,
                    },
                    kind: m.kind@,
                    tier: m.tier,
                    item_quantity: m.item_quantity,
                    item_rarity: m.item_rarity,
                    quality: m.quality,
                    pack_size: m.pack_size,
                    affixes: m.affixes.deep_view(),
                    item_level: m.item_level,
                    rarity: m.rarity,
                },
            ),
            Item::UniqueStub(u) => ItemView::UniqueStub(u.name@),
        }
    }
}

} // verus!
