//! Vendor reports behind a plan: shipping-plan rows become entries, and
//! storage-fee and inventory rows fill in what they know of each SKU.
use vstd::prelude::*;

use crate::entry::{
    clone_text, lemma_views_push, opt_text, order_dims, ordered_dims, texts, views, Entry,
    EntryView, Weight,
};
use crate::words::{distinct_ids, distinct_strings, gen_pw_uuid};

verus! {

/// One row of a shipping plan, with weights in hundredths of a pound.
#[derive(Debug)]
pub struct GDriveEntry {
    pub info: Option<String>,
    pub fnsku: Option<String>,
    pub quantity: Option<u32>,
    pub pack_type: Option<String>,
    pub staging_group: Option<String>,
    pub unit_weight: Option<Weight>,
    pub case_qt: Option<u32>,
    pub case_weight: Option<Weight>,
}

/// Why a plan row cannot become entries. The whole import stops on one.
#[derive(Clone, Copy, Debug, PartialEq, Eq, Structural)]
pub enum ImportError {
    /// The row names no SKU.
    MissingFnsku,
    /// The row gives no quantity.
    MissingQuantity,
    /// A cased row gives no quantity per case.
    MissingCaseQuantity,
    /// The quantity is not a whole number of cases.
    Indivisible,
    /// A cased row amounts to no case.
    NoCases,
    /// A quantity or weight is beyond what an entry holds.
    TooLarge,
    /// The case ids are not one distinct id per case.
    CaseIds,
}

/// The row ships loose, in one unit of its staging group.
pub open spec fn is_loose(row: GDriveEntry) -> bool {
    row.pack_type matches Some(p) && p@ == "Loose"@
}

/// The weight of a loose row: unit weight times quantity, rounded to the
/// nearest whole pound (halves up), in hundredths.
pub open spec fn loose_weight(row: GDriveEntry) -> int {
    let unit = match row.unit_weight {
        Some(w) => w.hundredths as int,
        None => 0,
    };
    ((unit * row.quantity->0 + 50) / 100) * 100
}

/// The reason `row` cannot become entries, if any.
pub open spec fn row_error(row: GDriveEntry) -> Option<ImportError> {
    if row.fnsku is None {
        Some(ImportError::MissingFnsku)
    } else if row.quantity is None {
        Some(ImportError::MissingQuantity)
    } else if is_loose(row) {
        if row.quantity->0 > i32::MAX || loose_weight(row) > u32::MAX {
            Some(ImportError::TooLarge)
        } else {
            None
        }
    } else if row.case_qt is None {
        Some(ImportError::MissingCaseQuantity)
    } else if row.case_qt->0 == 0 || row.quantity->0 % row.case_qt->0 != 0 {
        Some(ImportError::Indivisible)
    } else if row.quantity->0 / row.case_qt->0 == 0 {
        Some(ImportError::NoCases)
    } else if row.case_qt->0 > i32::MAX {
        Some(ImportError::TooLarge)
    } else {
        None
    }
}

/// How many case ids a valid row needs: none when loose, else one per case.
pub open spec fn ids_needed(row: GDriveEntry) -> nat {
    if is_loose(row) {
        0
    } else {
        (row.quantity->0 / row.case_qt->0) as nat
    }
}

/// An entry with only a SKU, quantity, case id and weight.
pub open spec fn bare_entry(
    fnsku: Seq<char>,
    units: i32,
    id: Seq<char>,
    total_pounds: Option<Weight>,
) -> EntryView {
    EntryView {
        amz_size: None,
        fnsku,
        msku: None,
        title: None,
        asin: None,
        condition: None,
        units,
        total_pounds,
        id,
        upc: None,
        case_dimensions: None,
        amz_dimensions: None,
    }
}

/// The entries of a valid row: for a loose row, one entry of the whole
/// quantity in its staging group with the rounded total weight; for a cased
/// row, one entry per case id holding one case's quantity and weight.
pub open spec fn row_entries(row: GDriveEntry, ids: Seq<Seq<char>>) -> Seq<EntryView> {
    let fnsku = row.fnsku->0@;
    if is_loose(row) {
        let group = match row.staging_group {
            Some(g) => g@,
            None => Seq::empty(),
        };
        seq![
            bare_entry(
                fnsku,
                row.quantity->0 as i32,
                group,
                Some(Weight { hundredths: loose_weight(row) as u32 }),
            ),
        ]
    } else {
        ids.map_values(
            |id: Seq<char>| bare_entry(fnsku, row.case_qt->0 as i32, id, row.case_weight),
        )
    }
}

fn text_is_loose(p: &Option<String>) -> (r: bool)
    ensures
        r == (p matches Some(t) && t@ == "Loose"@),
{
    match p {
        Some(t) => *t == String::from_str("Loose"),
        None => false,
    }
}

impl GDriveEntry {
    /// Checks the row, returning how many case ids it needs.
    pub fn validate(&self) -> (r: Result<u32, ImportError>)
        ensures
            r == match row_error(*self) {
                Some(e) => Err::<u32, ImportError>(e),
                None => Ok(ids_needed(*self) as u32),
            },
    {
        if self.fnsku.is_none() {
            return Err(ImportError::MissingFnsku);
        }
        let quantity = match self.quantity {
            None => {
                return Err(ImportError::MissingQuantity);
            },
            Some(q) => q,
        };
        if text_is_loose(&self.pack_type) {
            let unit: u64 = match self.unit_weight {
                Some(w) => w.hundredths as u64,
                None => 0,
            };
            assert(unit * quantity <= 0xffff_fffe_0000_0001) by (nonlinear_arith)
                requires
                    unit <= 0xffff_ffff,
                    quantity <= 0xffff_ffff,
            ;
            let total: u64 = (unit * quantity as u64 + 50) / 100 * 100;
            if quantity > i32::MAX as u32 || total > u32::MAX as u64 {
                return Err(ImportError::TooLarge);
            }
            return Ok(0);
        }
        let per_case = match self.case_qt {
            None => {
                return Err(ImportError::MissingCaseQuantity);
            },
            Some(c) => c,
        };
        if per_case == 0 || quantity % per_case != 0 {
            return Err(ImportError::Indivisible);
        }
        if quantity / per_case == 0 {
            return Err(ImportError::NoCases);
        }
        if per_case > i32::MAX as u32 {
            return Err(ImportError::TooLarge);
        }
        Ok(quantity / per_case)
    }

    /// The entries of the row, taking the case ids of a cased row from
    /// `ids`, which must then hold one distinct id per case (a loose row
    /// takes none).
    pub fn entries_with_ids(&self, ids: &Vec<String>) -> (r: Result<Vec<Entry>, ImportError>)
        ensures
            row_error(*self) matches Some(e) ==> r == Err::<Vec<Entry>, ImportError>(e),
            row_error(*self) is None ==> (ids@.len() != ids_needed(*self) || !distinct_ids(
                texts(ids@),
            ) <==> r == Err::<Vec<Entry>, ImportError>(ImportError::CaseIds)),
            row_error(*self) is None && ids@.len() == ids_needed(*self) && distinct_ids(
                texts(ids@),
            ) ==> r is Ok,
            r matches Ok(v) ==> views(v@) == row_entries(*self, texts(ids@)),
    {
        let needed = match self.validate() {
            Err(e) => {
                return Err(e);
            },
            Ok(n) => n,
        };
        if ids.len() != needed as usize || !distinct_strings(ids) {
            return Err(ImportError::CaseIds);
        }
        let fnsku = match &self.fnsku {
            Some(f) => f,
            None => {
                return Err(ImportError::MissingFnsku);
            },
        };
        let quantity = match self.quantity {
            Some(q) => q,
            None => {
                return Err(ImportError::MissingQuantity);
            },
        };
        let ghost want = row_entries(*self, texts(ids@));
        let mut out: Vec<Entry> = Vec::new();
        if text_is_loose(&self.pack_type) {
            let unit: u64 = match self.unit_weight {
                Some(w) => w.hundredths as u64,
                None => 0,
            };
            assert(unit * quantity <= 0xffff_fffe_0000_0001) by (nonlinear_arith)
                requires
                    unit <= 0xffff_ffff,
                    quantity <= 0xffff_ffff,
            ;
            let total: u64 = (unit * quantity as u64 + 50) / 100 * 100;
            let mut e = Entry::default();
            e.set_fnsku(fnsku.clone());
            e.set_units(quantity as i32);
            e.set_total_pounds(Some(Weight { hundredths: total as u32 }));
            let group = match &self.staging_group {
                Some(g) => g.clone(),
                None => String::new(),
            };
            e.set_id(group);
            proof {
                lemma_views_push(out@, e);
                assert(views(out@.push(e)) =~= want);
            }
            out.push(e);
            return Ok(out);
        }
        let per_case = match self.case_qt {
            Some(c) => c,
            None => {
                return Err(ImportError::MissingCaseQuantity);
            },
        };
        let mut i: usize = 0;
        while i < ids.len()
            invariant
                i <= ids.len(),
                !is_loose(*self),
                self.fnsku == Some(*fnsku),
                self.case_qt == Some(per_case),
                per_case <= i32::MAX,
                want == row_entries(*self, texts(ids@)),
                views(out@) == want.take(i as int),
            decreases ids.len() - i,
        {
            let mut e = Entry::default();
            e.set_fnsku(fnsku.clone());
            e.set_units(per_case as i32);
            e.set_id(ids[i].clone());
            e.set_total_pounds(self.case_weight);
            proof {
                lemma_views_push(out@, e);
                assert(want.take(i + 1) =~= want.take(i as int).push(e@));
            }
            out.push(e);
            i = i + 1;
        }
        assert(want.take(ids.len() as int) =~= want);
        Ok(out)
    }

    /// The entries of the row, each case of a cased row under a freshly
    /// generated id, no two alike. Refuses an invalid row with its error,
    /// and returns `CaseIds` in the unlikely event that two generated ids
    /// collide.
    pub fn to_entries(&self) -> (r: Result<Vec<Entry>, ImportError>)
        ensures
            row_error(*self) matches Some(e) ==> r == Err::<Vec<Entry>, ImportError>(e),
            row_error(*self) is None ==> (r is Ok || r == Err::<Vec<Entry>, ImportError>(
                ImportError::CaseIds,
            )),
            row_error(*self) is None && ids_needed(*self) == 0 ==> r is Ok,
            r matches Ok(v) ==> exists|ids: Seq<Seq<char>>|
                ids.len() == ids_needed(*self) && distinct_ids(ids) && views(v@) == row_entries(
                    *self,
                    ids,
                ),
    {
        let needed = match self.validate() {
            Err(e) => {
                return Err(e);
            },
            Ok(n) => n,
        };
        let mut ids: Vec<String> = Vec::new();
        let mut n: u32 = 0;
        while n < needed
            invariant
                n <= needed,
                ids@.len() == n,
            decreases needed - n,
        {
            ids.push(gen_pw_uuid());
            n = n + 1;
        }
        proof {
            if needed == 0 {
                assert(distinct_ids(texts(ids@)));
            }
        }
        let r = self.entries_with_ids(&ids);
        proof {
            if r is Ok {
                assert(texts(ids@).len() == ids_needed(*self));
            }
        }
        r
    }
}

/// One row of the monthly storage-fee report: what the marketplace knows of
/// a SKU, with sides in whole inches (rounded up) and weight in hundredths of
/// a pound.
#[derive(Debug)]
pub struct MonthlyStorageFees {
    pub asin: Option<String>,
    pub fnsku: String,
    pub product_name: Option<String>,
    pub longest_side: Option<u32>,
    pub median_side: Option<u32>,
    pub shortest_side: Option<u32>,
    pub weight: Option<Weight>,
    pub product_size_tier: Option<String>,
}

/// One row of the inventory report: the merchant SKU and condition of a SKU.
#[derive(Debug)]
pub struct AmzFbaInventory {
    pub msku: String,
    pub fnsku: String,
    pub asin: String,
    pub condition: String,
    pub warehouse: String,
    pub available: String,
}

/// `i` is the first row of `fees` for SKU `f`.
pub open spec fn first_fee(fees: Seq<MonthlyStorageFees>, f: Seq<char>, i: int) -> bool {
    &&& 0 <= i < fees.len()
    &&& fees[i].fnsku@ == f
    &&& forall|j: int| 0 <= j < i ==> (#[trigger] fees[j]).fnsku@ != f
}

/// `i` is the first row of `inv` for SKU `f`.
pub open spec fn first_inventory(inv: Seq<AmzFbaInventory>, f: Seq<char>, i: int) -> bool {
    &&& 0 <= i < inv.len()
    &&& inv[i].fnsku@ == f
    &&& forall|j: int| 0 <= j < i ==> (#[trigger] inv[j]).fnsku@ != f
}

pub open spec fn side(s: Option<u32>) -> u32 {
    match s {
        Some(x) => x,
        None => 0,
    }
}

/// `e` with what the fee rows know of its SKU: title, size tier, ASIN,
/// weight and measurements, from the first row of its SKU.
pub open spec fn with_fees(e: EntryView, fees: Seq<MonthlyStorageFees>) -> EntryView {
    if exists|i: int| first_fee(fees, e.fnsku, i) {
        let f = fees[choose|i: int| first_fee(fees, e.fnsku, i)];
        EntryView {
            title: opt_text(f.product_name),
            amz_size: opt_text(f.product_size_tier),
            asin: opt_text(f.asin),
            total_pounds: f.weight,
            amz_dimensions: Some(
                ordered_dims(side(f.longest_side), side(f.median_side), side(f.shortest_side)),
            ),
            ..e
        }
    } else {
        e
    }
}

/// `e` with the merchant SKU and condition of the first inventory row of its
/// SKU.
pub open spec fn with_inventory(e: EntryView, inv: Seq<AmzFbaInventory>) -> EntryView {
    if exists|i: int| first_inventory(inv, e.fnsku, i) {
        let r = inv[choose|i: int| first_inventory(inv, e.fnsku, i)];
        EntryView { msku: Some(r.msku@), condition: Some(r.condition@), ..e }
    } else {
        e
    }
}

/// `e` filled from both reports.
pub open spec fn filled(
    e: EntryView,
    fees: Seq<MonthlyStorageFees>,
    inv: Seq<AmzFbaInventory>,
) -> EntryView {
    with_inventory(with_fees(e, fees), inv)
}

fn find_fee(fees: &Vec<MonthlyStorageFees>, e: &Entry) -> (r: Option<usize>)
    ensures
        match r {
            Some(i) => first_fee(fees@, e@.fnsku, i as int),
            None => !exists|i: int| first_fee(fees@, e@.fnsku, i),
        },
{
    let mut i: usize = 0;
    while i < fees.len()
        invariant
            i <= fees.len(),
            forall|j: int| 0 <= j < i ==> (#[trigger] fees@[j]).fnsku@ != e@.fnsku,
        decreases fees.len() - i,
    {
        if e.fnsku_is(fees[i].fnsku.as_str()) {
            return Some(i);
        }
        i = i + 1;
    }
    None
}

fn find_inventory(inv: &Vec<AmzFbaInventory>, e: &Entry) -> (r: Option<usize>)
    ensures
        match r {
            Some(i) => first_inventory(inv@, e@.fnsku, i as int),
            None => !exists|i: int| first_inventory(inv@, e@.fnsku, i),
        },
{
    let mut i: usize = 0;
    while i < inv.len()
        invariant
            i <= inv.len(),
            forall|j: int| 0 <= j < i ==> (#[trigger] inv@[j]).fnsku@ != e@.fnsku,
        decreases inv.len() - i,
    {
        if e.fnsku_is(inv[i].fnsku.as_str()) {
            return Some(i);
        }
        i = i + 1;
    }
    None
}

/// Fills each entry with what the reports know of its SKU: from the first
/// fee row of the SKU its title, size tier, ASIN, weight and marketplace
/// measurements; from the first inventory row its merchant SKU and
/// condition. Entries of SKUs that a report lacks keep those fields.
pub fn fill_entries(
    entries: &mut Vec<Entry>,
    fees: &Vec<MonthlyStorageFees>,
    inventory: &Vec<AmzFbaInventory>,
)
    ensures
        views(final(entries)@) == views(old(entries)@).map_values(
            |e: EntryView| filled(e, fees@, inventory@),
        ),
{
    let ghost before = views(entries@);
    let mut out: Vec<Entry> = Vec::new();
    let mut i: usize = 0;
    while i < entries.len()
        invariant
            i <= entries.len(),
            before == views(entries@),
            views(out@) == before.take(i as int).map_values(
                |e: EntryView| filled(e, fees@, inventory@),
            ),
        decreases entries.len() - i,
    {
        let mut item = entries[i].clone();
        assert(item@ == before[i as int]);
        let ghost start = item@;
        match find_fee(fees, &item) {
            Some(k) => {
                let found = &fees[k];
                item.set_title(clone_text(&found.product_name));
                item.set_amz_size(clone_text(&found.product_size_tier));
                item.set_asin(clone_text(&found.asin));
                item.set_total_pounds(found.weight);
                let longest = match found.longest_side {
                    Some(x) => x,
                    None => 0,
                };
                let median = match found.median_side {
                    Some(x) => x,
                    None => 0,
                };
                let shortest = match found.shortest_side {
                    Some(x) => x,
                    None => 0,
                };
                item.put_amz_dimensions(order_dims(longest, median, shortest));
                proof {
                    assert(first_fee(fees@, start.fnsku, k as int));
                    let c = choose|j: int| first_fee(fees@, start.fnsku, j);
                    assert(c == k as int) by {
                        if c < k {
                            assert(fees@[c].fnsku@ != start.fnsku);
                        }
                        if k < c {
                            assert(fees@[k as int].fnsku@ != start.fnsku);
                        }
                    }
                }
            },
            None => {},
        }
        assert(item@ == with_fees(start, fees@));
        let ghost middle = item@;
        match find_inventory(inventory, &item) {
            Some(k) => {
                let found = &inventory[k];
                item.set_msku(Some(found.msku.clone()));
                item.set_condition(Some(found.condition.clone()));
                proof {
                    assert(first_inventory(inventory@, middle.fnsku, k as int));
                    let c = choose|j: int| first_inventory(inventory@, middle.fnsku, j);
                    assert(c == k as int) by {
                        if c < k {
                            assert(inventory@[c].fnsku@ != middle.fnsku);
                        }
                        if k < c {
                            assert(inventory@[k as int].fnsku@ != middle.fnsku);
                        }
                    }
                }
            },
            None => {},
        }
        assert(item@ == filled(start, fees@, inventory@));
        proof {
            lemma_views_push(out@, item);
            assert(before.take(i + 1).map_values(|e: EntryView| filled(e, fees@, inventory@))
                =~= before.take(i as int).map_values(
                |e: EntryView| filled(e, fees@, inventory@),
            ).push(item@));
        }
        out.push(item);
        i = i + 1;
    }
    assert(before.take(entries.len() as int) =~= before);
    *entries = out;
}

/// The rows of a shipping plan that name a SKU.
#[derive(Debug)]
pub struct GDrivePlan {
    helper: Vec<GDriveEntry>,
}

/// The rows of `rows` that name a SKU, in their order.
pub open spec fn named_rows(rows: Seq<GDriveEntry>) -> Seq<GDriveEntry>
    decreases rows.len(),
{
    if rows.len() == 0 {
        Seq::empty()
    } else {
        let p = named_rows(rows.drop_last());
        if rows.last().fnsku is Some {
            p.push(rows.last())
        } else {
            p
        }
    }
}

/// The entries of the rows of `rows`, one after another, the cases of row
/// `k` under the ids `ids[k]`.
pub open spec fn plan_entries(rows: Seq<GDriveEntry>, ids: Seq<Seq<Seq<char>>>) -> Seq<EntryView>
    decreases rows.len(),
{
    if rows.len() == 0 || ids.len() == 0 {
        Seq::empty()
    } else {
        plan_entries(rows.drop_last(), ids.drop_last()) + row_entries(rows.last(), ids.last())
    }
}

/// `ids` gives each row of `rows` the distinct case ids it needs.
pub open spec fn ids_for_rows(rows: Seq<GDriveEntry>, ids: Seq<Seq<Seq<char>>>) -> bool {
    &&& ids.len() == rows.len()
    &&& forall|k: int|
        0 <= k < rows.len() ==> (#[trigger] ids[k]).len() == ids_needed(rows[k]) && distinct_ids(
            ids[k],
        )
}

impl Clone for GDriveEntry {
    fn clone(&self) -> (r: GDriveEntry)
        ensures
            r == *self,
    {
        GDriveEntry {
            info: clone_text(&self.info),
            fnsku: clone_text(&self.fnsku),
            quantity: self.quantity,
            pack_type: clone_text(&self.pack_type),
            staging_group: clone_text(&self.staging_group),
            unit_weight: self.unit_weight,
            case_qt: self.case_qt,
            case_weight: self.case_weight,
        }
    }
}

impl GDrivePlan {
    pub closed spec fn rows(&self) -> Seq<GDriveEntry> {
        self.helper@
    }

    /// Keeps the rows that name a SKU, in their order.
    pub fn from_rows(rows: &Vec<GDriveEntry>) -> (r: GDrivePlan)
        ensures
            r.rows() == named_rows(rows@),
    {
        let mut kept: Vec<GDriveEntry> = Vec::new();
        let mut i: usize = 0;
        while i < rows.len()
            invariant
                i <= rows.len(),
                kept@ == named_rows(rows@.take(i as int)),
            decreases rows.len() - i,
        {
            assert(rows@.take(i + 1).drop_last() =~= rows@.take(i as int));
            if rows[i].fnsku.is_some() {
                kept.push(rows[i].clone());
            }
            i = i + 1;
        }
        assert(rows@.take(rows.len() as int) =~= rows@);
        GDrivePlan { helper: kept }
    }

    /// The entries of every row, in row order, filled from the storage-fee
    /// and inventory reports. The first row that cannot become entries stops
    /// the import with its error, and no entry is returned.
    pub fn to_entries(
        &self,
        fees: &Vec<MonthlyStorageFees>,
        inventory: &Vec<AmzFbaInventory>,
    ) -> (r: Result<Vec<Entry>, ImportError>)
        ensures
            r is Ok ==> forall|i: int| 0 <= i < self.rows().len() ==> row_error(
                #[trigger] self.rows()[i],
            ) is None,
            (forall|i: int| 0 <= i < self.rows().len() ==> row_error(#[trigger] self.rows()[i])
                is None) ==> (r is Ok || r == Err::<Vec<Entry>, ImportError>(ImportError::CaseIds)),
            (forall|i: int|
                0 <= i < self.rows().len() ==> row_error(#[trigger] self.rows()[i]) is None
                    && ids_needed(self.rows()[i]) == 0) ==> r is Ok,
            r matches Err(e) ==> exists|i: int|
                0 <= i < self.rows().len() && (forall|j: int|
                    0 <= j < i ==> row_error(#[trigger] self.rows()[j]) is None) && (row_error(
                    #[trigger] self.rows()[i],
                ) == Some(e) || row_error(self.rows()[i]) is None && e
                    == ImportError::CaseIds),
            r matches Ok(v) ==> exists|ids: Seq<Seq<Seq<char>>>|
                ids_for_rows(self.rows(), ids) && views(v@) == plan_entries(
                    self.rows(),
                    ids,
                ).map_values(|e: EntryView| filled(e, fees@, inventory@)),
    {
        let mut all: Vec<Entry> = Vec::new();
        let ghost mut ids: Seq<Seq<Seq<char>>> = Seq::empty();
        let mut i: usize = 0;
        while i < self.helper.len()
            invariant
                i <= self.helper.len(),
                forall|j: int| 0 <= j < i ==> row_error(#[trigger] self.helper@[j]) is None,
                ids_for_rows(self.helper@.take(i as int), ids),
                views(all@) == plan_entries(self.helper@.take(i as int), ids),
            decreases self.helper.len() - i,
        {
            match self.helper[i].to_entries() {
                Err(e) => {
                    return Err(e);
                },
                Ok(mut v) => {
                    let ghost row = self.helper@[i as int];
                    let ghost rid = choose|rid: Seq<Seq<char>>|
                        rid.len() == ids_needed(row) && distinct_ids(rid) && views(v@)
                            == row_entries(row, rid);
                    let ghost before = all@;
                    let ghost added = v@;
                    all.append(&mut v);
                    proof {
                        let rows = self.helper@.take(i + 1);
                        assert(rows.drop_last() =~= self.helper@.take(i as int));
                        assert(ids.push(rid).drop_last() =~= ids);
                        assert(views(all@) =~= views(before) + views(added)) by {
                            assert(all@ =~= before + added);
                        }
                        ids = ids.push(rid);
                        assert(ids_for_rows(rows, ids)) by {
                            assert forall|k: int| 0 <= k < rows.len() implies (
                            #[trigger] ids[k]).len() == ids_needed(rows[k]) && distinct_ids(
                                ids[k],
                            ) by {
                                if k < i {
                                    assert(rows[k] == self.helper@.take(i as int)[k]);
                                }
                            }
                        }
                    }
                },
            }
            i = i + 1;
        }
        assert(self.helper@.take(self.helper.len() as int) =~= self.helper@);
        fill_entries(&mut all, fees, inventory);
        Ok(all)
    }
}

/// Two characters are equal once ASCII letters are lowercased.
pub open spec fn same_ignoring_ascii_case(a: char, b: char) -> bool {
    ||| a == b
    ||| 'A' <= a <= 'Z' && b as u32 == a as u32 + 32
    ||| 'A' <= b <= 'Z' && a as u32 == b as u32 + 32
}

/// Two texts are equal once ASCII letters are lowercased.
pub open spec fn eq_ignoring_ascii_case(a: Seq<char>, b: Seq<char>) -> bool {
    a.len() == b.len() && forall|i: int|
        0 <= i < a.len() ==> same_ignoring_ascii_case(#[trigger] a[i], b[i])
}

fn text_eq_ignore_ascii_case(a: &str, b: &str) -> (r: bool)
    ensures
        r == eq_ignoring_ascii_case(a@, b@),
{
    let n = a.unicode_len();
    if n != b.unicode_len() {
        return false;
    }
    let mut i: usize = 0;
    while i < n
        invariant
            i <= n,
            n == a@.len(),
            n == b@.len(),
            forall|j: int| 0 <= j < i ==> same_ignoring_ascii_case(#[trigger] a@[j], b@[j]),
        decreases n - i,
    {
        let x = a.get_char(i);
        let y = b.get_char(i);
        let same = x == y || ('A' <= x && x <= 'Z' && y as u32 == x as u32 + 32) || ('A' <= y
            && y <= 'Z' && x as u32 == y as u32 + 32);
        if !same {
            return false;
        }
        i = i + 1;
    }
    true
}

impl AmzFbaInventory {
    /// True unless some header is `weight` in any ASCII case: the inventory
    /// report has no weight column, so a report with one is another kind.
    pub fn accepts_headers(headers: &Vec<String>) -> (r: bool)
        ensures
            r == !exists|i: int|
                0 <= i < headers@.len() && eq_ignoring_ascii_case(
                    #[trigger] headers@[i]@,
                    "weight"@,
                ),
    {
        let mut i: usize = 0;
        while i < headers.len()
            invariant
                i <= headers.len(),
                forall|j: int|
                    0 <= j < i ==> !eq_ignoring_ascii_case(#[trigger] headers@[j]@, "weight"@),
            decreases headers.len() - i,
        {
            if text_eq_ignore_ascii_case(headers[i].as_str(), "weight") {
                return false;
            }
            i = i + 1;
        }
        true
    }
}

/// The condition of a listing, as the listings report codes it.
#[derive(Clone, Copy, Debug, PartialEq, Eq, Structural)]
pub enum Condition {
    New,
    UsedLikeNew,
    Other,
}

impl Condition {
    /// Code 11 is new and code 1 is used like new; the report's other codes
    /// are not told apart.
    pub fn from_code(code: u32) -> (r: Condition)
        ensures
            code == 11 ==> r == Condition::New,
            code == 1 ==> r == Condition::UsedLikeNew,
            code != 11 && code != 1 ==> r == Condition::Other,
    {
        if code == 11 {
            Condition::New
        } else if code == 1 {
            Condition::UsedLikeNew
        } else {
            Condition::Other
        }
    }
}

/// One row of the all-listings report.
#[derive(Debug)]
pub struct AllListingsReport {
    pub seller_sku: Option<String>,
    pub asin: Option<String>,
    pub item_name: Option<String>,
    pub product_id_type: Option<String>,
    pub item_condition: Condition,
    pub product_id: Option<String>,
}

/// The columns of the all-listings report, in order.
pub open spec fn listing_columns() -> Seq<Seq<char>> {
    seq![
        "seller-sku"@,
        "asin1"@,
        "item-name"@,
        "product-id-type"@,
        "item-condition"@,
        "product-id"@,
    ]
}

impl AllListingsReport {
    /// True when the headers are exactly the report's columns, in order.
    pub fn accepts_headers(headers: &Vec<String>) -> (r: bool)
        ensures
            r == (headers@.map_values(|h: String| h@) == listing_columns()),
    {
        let mut expected: Vec<String> = Vec::new();
        expected.push(String::from_str("seller-sku"));
        expected.push(String::from_str("asin1"));
        expected.push(String::from_str("item-name"));
        expected.push(String::from_str("product-id-type"));
        expected.push(String::from_str("item-condition"));
        expected.push(String::from_str("product-id"));
        assert(expected@.map_values(|h: String| h@) =~= listing_columns());
        if headers.len() != expected.len() {
            assert(headers@.map_values(|h: String| h@).len() != listing_columns().len());
            return false;
        }
        let mut i: usize = 0;
        while i < headers.len()
            invariant
                i <= headers.len(),
                headers.len() == expected.len(),
                expected@.map_values(|h: String| h@) == listing_columns(),
                forall|j: int| 0 <= j < i ==> (#[trigger] headers@[j])@ == expected@[j]@,
            decreases headers.len() - i,
        {
            if headers[i] != expected[i] {
                assert(headers@.map_values(|h: String| h@)[i as int] != listing_columns()[i as int]);
                return false;
            }
            i = i + 1;
        }
        assert(headers@.map_values(|h: String| h@) =~= listing_columns());
        true
    }
}

} // verus!
