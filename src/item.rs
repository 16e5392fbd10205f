//! A catalog item shown as a table row.
use vstd::prelude::*;

use crate::entry::{opt_text, text_or_empty};
use crate::Table;

verus! {

/// The id of a stored catalog item.
#[derive(Debug, Clone)]
pub struct Id {
    pub oid: String,
}

/// A catalog item, shown as one row of a table.
#[derive(Debug, Clone)]
pub struct MonsoonItem {
    pub id: Option<Id>,
    pub sku: Option<String>,
    pub title: Option<String>,
    pub upc: Option<String>,
    pub manufacturer_part_num: Option<String>,
    pub asin: Option<String>,
    pub locator_code: Option<String>,
    pub quantity: Option<String>,
    pub condition: Option<String>,
    pub price: Option<String>,
    pub fnsku: Option<String>,
}

/// The column titles of a catalog item.
pub open spec fn item_headers() -> Seq<Seq<char>> {
    seq![
        "Sku"@,
        "Title"@,
        "Upc"@,
        "PartNum"@,
        "Asin"@,
        "Locator"@,
        "Qt"@,
        "Condition"@,
        "Price"@,
        "Fnsku"@,
    ]
}

/// The cells of a catalog item, an absent field shown empty.
pub open spec fn item_cells(m: MonsoonItem) -> Seq<Seq<char>> {
    seq![
        text_or_empty(opt_text(m.sku)),
        text_or_empty(opt_text(m.title)),
        text_or_empty(opt_text(m.upc)),
        text_or_empty(opt_text(m.manufacturer_part_num)),
        text_or_empty(opt_text(m.asin)),
        text_or_empty(opt_text(m.locator_code)),
        text_or_empty(opt_text(m.quantity)),
        text_or_empty(opt_text(m.condition)),
        text_or_empty(opt_text(m.price)),
        text_or_empty(opt_text(m.fnsku)),
    ]
}

fn cell(o: &Option<String>) -> (r: &str)
    ensures
        r@ == text_or_empty(opt_text(*o)),
{
    match o {
        Some(x) => x.as_str(),
        None => {
            proof {
                reveal_strlit("");
            }
            ""
        },
    }
}

impl Table for MonsoonItem {
    fn headers(&self) -> (r: Vec<&str>)
        ensures
            r@.map_values(|h: &str| h@) == item_headers(),
    {
        let v = vec![
            "Sku",
            "Title",
            "Upc",
            "PartNum",
            "Asin",
            "Locator",
            "Qt",
            "Condition",
            "Price",
            "Fnsku",
        ];
        assert(v@.map_values(|h: &str| h@) =~= item_headers());
        v
    }

    fn row(&self) -> (r: Vec<&str>)
        ensures
            r@.map_values(|c: &str| c@) == item_cells(*self),
    {
        let v = vec![
            cell(&self.sku),
            cell(&self.title),
            cell(&self.upc),
            cell(&self.manufacturer_part_num),
            cell(&self.asin),
            cell(&self.locator_code),
            cell(&self.quantity),
            cell(&self.condition),
            cell(&self.price),
            cell(&self.fnsku),
        ];
        assert(v@.map_values(|c: &str| c@) =~= item_cells(*self));
        v
    }
}

} // verus!
