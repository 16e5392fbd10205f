//! A catalog item as the remote catalog stores it, with an optional object id.
use vstd::prelude::*;

verus! {

/// The id of a stored catalog item.
#[derive(Debug, Clone)]
pub struct Id {
    pub oid: Option<String>,
}

/// A catalog item as stored remotely.
#[derive(Debug, Clone)]
pub struct MonsoonItem {
    pub id: Id,
    pub sku: Option<String>,
    pub title: Option<String>,
    pub upc: Option<String>,
    pub manufacturer_part_num: Option<String>,
    pub asin: Option<String>,
    pub locator_code: Option<String>,
    pub quantity: Option<String>,
    pub condition: Option<String>,
    pub price: Option<String>,
    pub fnsku: Option<String>,
}

} // verus!
