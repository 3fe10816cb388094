use vstd::prelude::*;
use crate::item::Item;

verus! {

/// The text of one clipboard capture.
#[derive(Debug, PartialEq)]
pub struct ClipboardEvent {
    pub content: String,
}

/// A message to the storage worker.
#[derive(Debug)]
pub enum DatabaseMessage {
    Save(Item),
    ShutDown,
    Panic { reason: String },
}

/// Details of a currency as the price service lists them.
#[allow(non_snake_case)]
#[derive(Debug, PartialEq)]
pub struct NinjaDetails {
    pub id: u32,
    pub icon: String,
    pub poeTradeId: i32,
    pub name: String,
}

} // verus!
