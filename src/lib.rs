//! Ledger of inventory cases prepared for shipment: signed entries per SKU and
//! case, their aggregation, branching of groups, and the checks run on a
//! physical count.
use vstd::prelude::*;

pub mod branch;
pub mod check;
pub mod db;
pub mod entry;
pub mod export;
pub mod import;
pub mod item;
pub mod ledger;
pub mod login;
pub mod plan;
pub mod schema;
pub mod status;
pub mod words;

verus! {

/// A record shown as one row of a table, under column titles.
pub trait Table {
    fn headers(&self) -> Vec<&str>;

    fn row(&self) -> Vec<&str>;
}

} // verus!
