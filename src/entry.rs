//! The ledger record: one signed quantity of one SKU inside one physical case.
use vstd::prelude::*;

verus! {

/// A weight, held in hundredths of a pound.
#[derive(Clone, Copy, Debug, PartialEq, Eq, Structural)]
pub struct Weight {
    pub hundredths: u32,
}

/// Outer measurements of a case in whole inches, longest side first.
#[derive(Clone, Copy, Debug, PartialEq, Eq, Structural)]
pub struct Dims {
    pub length: u32,
    pub width: u32,
    pub height: u32,
}

/// One signed quantity of one SKU that sits in exactly one physical case.
///
/// `units` is a delta: the quantity of a SKU is the sum over all its entries.
#[derive(Debug)]
pub struct Entry {
    amz_size: Option<String>,
    fnsku: String,
    msku: Option<String>,
    title: Option<String>,
    asin: Option<String>,
    condition: Option<String>,
    units: i32,
    total_pounds: Option<Weight>,
    id: String,
    upc: Option<String>,
    case_dimensions: Option<Dims>,
    amz_dimensions: Option<Dims>,
}

/// Measurements are stored longest side first.
pub open spec fn dims_ordered(d: Option<Dims>) -> bool {
    match d {
        Some(x) => x.length >= x.width >= x.height,
        None => true,
    }
}

impl Entry {
    #[verifier::type_invariant]
    closed spec fn measurements_ordered(&self) -> bool {
        dims_ordered(self.case_dimensions) && dims_ordered(self.amz_dimensions)
    }
}

/// What an [`Entry`] holds, as mathematical values.
pub struct EntryView {
    pub amz_size: Option<Seq<char>>,
    pub fnsku: Seq<char>,
    pub msku: Option<Seq<char>>,
    pub title: Option<Seq<char>>,
    pub asin: Option<Seq<char>>,
    pub condition: Option<Seq<char>>,
    pub units: i32,
    pub total_pounds: Option<Weight>,
    pub id: Seq<char>,
    pub upc: Option<Seq<char>>,
    pub case_dimensions: Option<Dims>,
    pub amz_dimensions: Option<Dims>,
}

impl EntryView {
    /// The same record with another quantity.
    pub open spec fn with_units(self, units: i32) -> EntryView {
        EntryView { units, ..self }
    }
}

/// The text of an optional string.
pub open spec fn opt_text(o: Option<String>) -> Option<Seq<char>> {
    match o {
        Some(s) => Some(s@),
        None => None,
    }
}

/// The text of an optional string, or the empty text when there is none.
pub open spec fn text_or_empty(o: Option<Seq<char>>) -> Seq<char> {
    match o {
        Some(s) => s,
        None => Seq::empty(),
    }
}

impl View for Entry {
    type V = EntryView;

    closed spec fn view(&self) -> EntryView {
        EntryView {
            amz_size: opt_text(self.amz_size),
            fnsku: self.fnsku@,
            msku: opt_text(self.msku),
            title: opt_text(self.title),
            asin: opt_text(self.asin),
            condition: opt_text(self.condition),
            units: self.units,
            total_pounds: self.total_pounds,
            id: self.id@,
            upc: opt_text(self.upc),
            case_dimensions: self.case_dimensions,
            amz_dimensions: self.amz_dimensions,
        }
    }
}

/// The views of a sequence of entries.
pub open spec fn views(s: Seq<Entry>) -> Seq<EntryView> {
    s.map_values(|e: Entry| e@)
}

/// A copy of an optional string.
pub(crate) fn clone_text(o: &Option<String>) -> (r: Option<String>)
    ensures
        r == *o,
{
    match o {
        Some(s) => Some(s.clone()),
        None => None,
    }
}

impl Clone for Entry {
    fn clone(&self) -> (r: Entry)
        ensures
            r == *self,
    {
        proof {
            use_type_invariant(self);
        }
        Entry {
            amz_size: clone_text(&self.amz_size),
            fnsku: self.fnsku.clone(),
            msku: clone_text(&self.msku),
            title: clone_text(&self.title),
            asin: clone_text(&self.asin),
            condition: clone_text(&self.condition),
            units: self.units,
            total_pounds: self.total_pounds,
            id: self.id.clone(),
            upc: clone_text(&self.upc),
            case_dimensions: self.case_dimensions,
            amz_dimensions: self.amz_dimensions,
        }
    }
}

/// The texts of a sequence of strings.
pub open spec fn texts(v: Seq<String>) -> Seq<Seq<char>> {
    v.map_values(|t: String| t@)
}

pub proof fn lemma_views_push(s: Seq<Entry>, e: Entry)
    ensures
        views(s.push(e)) == views(s).push(e@),
{
    assert(views(s.push(e)) =~= views(s).push(e@));
}

/// The three sides ordered longest first: the longest and shortest of the
/// inputs, and the remaining one between them.
pub open spec fn ordered_dims(x: u32, y: u32, z: u32) -> Dims {
    let (a, b, c) = (x as int, y as int, z as int);
    let hi = if a >= b && a >= c {
        a
    } else if b >= c {
        b
    } else {
        c
    };
    let lo = if a <= b && a <= c {
        a
    } else if b <= c {
        b
    } else {
        c
    };
    Dims { length: hi as u32, width: (a + b + c - hi - lo) as u32, height: lo as u32 }
}

pub(crate) fn order_dims(a: u32, b: u32, c: u32) -> (r: Dims)
    ensures
        r == ordered_dims(a, b, c),
        r.length >= r.width >= r.height,
{
    let hi = if a >= b && a >= c {
        a
    } else if b >= c {
        b
    } else {
        c
    };
    let lo = if a <= b && a <= c {
        a
    } else if b <= c {
        b
    } else {
        c
    };
    let mid = if hi == a && lo == b || hi == b && lo == a {
        c
    } else if hi == a && lo == c || hi == c && lo == a {
        b
    } else {
        a
    };
    Dims { length: hi, width: mid, height: lo }
}

fn text_or_empty_of(o: &Option<String>) -> (r: &str)
    ensures
        r@ == text_or_empty(opt_text(*o)),
{
    match o {
        Some(x) => x.as_str(),
        None => {
            proof {
                reveal_strlit("");
            }
            ""
        },
    }
}

impl Default for Entry {
    fn default() -> (r: Entry)
        ensures
            r@ == (EntryView {
                amz_size: None,
                fnsku: Seq::empty(),
                msku: None,
                title: None,
                asin: None,
                condition: None,
                units: 0,
                total_pounds: None,
                id: Seq::empty(),
                upc: None,
                case_dimensions: None,
                amz_dimensions: None,
            }),
    {
        Entry {
            amz_size: None,
            fnsku: String::new(),
            msku: None,
            title: None,
            asin: None,
            condition: None,
            units: 0,
            total_pounds: None,
            id: String::new(),
            upc: None,
            case_dimensions: None,
            amz_dimensions: None,
        }
    }
}

impl Entry {
    /// True when both entries describe the same SKU.
    pub fn same_fnsku(&self, other: &Entry) -> (r: bool)
        ensures
            r == (self@.fnsku == other@.fnsku),
    {
        self.fnsku == other.fnsku
    }

    /// True when both entries sit in the same case.
    pub fn same_id(&self, other: &Entry) -> (r: bool)
        ensures
            r == (self@.id == other@.id),
    {
        self.id == other.id
    }

    /// True when the entry's SKU is one of `list`.
    pub fn fnsku_listed(&self, list: &Vec<String>) -> (r: bool)
        ensures
            r == texts(list@).contains(self@.fnsku),
    {
        let mut i: usize = 0;
        while i < list.len()
            invariant
                i <= list.len(),
                forall|j: int| 0 <= j < i ==> (#[trigger] list@[j])@ != self@.fnsku,
            decreases list.len() - i,
        {
            if list[i] == self.fnsku {
                assert(texts(list@)[i as int] == self@.fnsku);
                return true;
            }
            i = i + 1;
        }
        assert forall|j: int| 0 <= j < texts(list@).len() implies texts(list@)[j]
            != self@.fnsku by {
            assert(list@[j]@ != self@.fnsku);
        }
        false
    }

    /// True when the entry describes the SKU `name`.
    pub fn fnsku_is(&self, name: &str) -> (r: bool)
        ensures
            r == (self@.fnsku == name@),
    {
        let n = String::from_str(name);
        self.fnsku == n
    }

    /// True when the entry sits in the case named `name`.
    pub fn id_is(&self, name: &str) -> (r: bool)
        ensures
            r == (self@.id == name@),
    {
        let n = String::from_str(name);
        self.id == n
    }

    pub fn get_amz_dimensions(&self) -> (r: Option<Dims>)
        ensures
            r == self@.amz_dimensions,
            dims_ordered(r),
    {
        proof {
            use_type_invariant(self);
        }
        self.amz_dimensions
    }

    pub fn get_case_dimensions(&self) -> (r: Option<Dims>)
        ensures
            r == self@.case_dimensions,
            dims_ordered(r),
    {
        proof {
            use_type_invariant(self);
        }
        self.case_dimensions
    }

    pub fn set_amz_size(&mut self, set: Option<String>)
        ensures
            final(self)@ == (EntryView { amz_size: opt_text(set), ..old(self)@ }),
    {
        proof {
            use_type_invariant(&*self);
        }
        self.amz_size = set;
    }

    pub fn set_fnsku(&mut self, set: String)
        ensures
            final(self)@ == (EntryView { fnsku: set@, ..old(self)@ }),
    {
        proof {
            use_type_invariant(&*self);
        }
        self.fnsku = set;
    }

    pub fn set_msku(&mut self, set: Option<String>)
        ensures
            final(self)@ == (EntryView { msku: opt_text(set), ..old(self)@ }),
    {
        proof {
            use_type_invariant(&*self);
        }
        self.msku = set;
    }

    pub fn set_title(&mut self, set: Option<String>)
        ensures
            final(self)@ == (EntryView { title: opt_text(set), ..old(self)@ }),
    {
        proof {
            use_type_invariant(&*self);
        }
        self.title = set;
    }

    pub fn set_asin(&mut self, set: Option<String>)
        ensures
            final(self)@ == (EntryView { asin: opt_text(set), ..old(self)@ }),
    {
        proof {
            use_type_invariant(&*self);
        }
        self.asin = set;
    }

    pub fn set_condition(&mut self, set: Option<String>)
        ensures
            final(self)@ == (EntryView { condition: opt_text(set), ..old(self)@ }),
    {
        proof {
            use_type_invariant(&*self);
        }
        self.condition = set;
    }

    pub fn set_units(&mut self, set: i32)
        ensures
            final(self)@ == old(self)@.with_units(set),
    {
        proof {
            use_type_invariant(&*self);
        }
        self.units = set;
    }

    pub fn set_total_pounds(&mut self, set: Option<Weight>)
        ensures
            final(self)@ == (EntryView { total_pounds: set, ..old(self)@ }),
    {
        proof {
            use_type_invariant(&*self);
        }
        self.total_pounds = set;
    }

    pub fn set_id(&mut self, set: String)
        ensures
            final(self)@ == (EntryView { id: set@, ..old(self)@ }),
    {
        proof {
            use_type_invariant(&*self);
        }
        self.id = set;
    }

    pub fn set_upc(&mut self, set: Option<String>)
        ensures
            final(self)@ == (EntryView { upc: opt_text(set), ..old(self)@ }),
    {
        proof {
            use_type_invariant(&*self);
        }
        self.upc = set;
    }

    pub fn get_amz_size(&self) -> (r: &Option<String>)
        ensures
            opt_text(*r) == self@.amz_size,
    {
        &self.amz_size
    }

    pub fn get_fnsku(&self) -> (r: &str)
        ensures
            r@ == self@.fnsku,
    {
        self.fnsku.as_str()
    }

    pub fn get_msku(&self) -> (r: &Option<String>)
        ensures
            opt_text(*r) == self@.msku,
    {
        &self.msku
    }

    pub fn get_title(&self) -> (r: &Option<String>)
        ensures
            opt_text(*r) == self@.title,
    {
        &self.title
    }

    pub fn get_asin(&self) -> (r: &Option<String>)
        ensures
            opt_text(*r) == self@.asin,
    {
        &self.asin
    }

    pub fn get_condition(&self) -> (r: &Option<String>)
        ensures
            opt_text(*r) == self@.condition,
    {
        &self.condition
    }

    pub fn get_units(&self) -> (r: i32)
        ensures
            r == self@.units,
    {
        self.units
    }

    pub fn get_total_pounds(&self) -> (r: Option<Weight>)
        ensures
            r == self@.total_pounds,
    {
        self.total_pounds
    }

    pub fn get_id(&self) -> (r: &str)
        ensures
            r@ == self@.id,
    {
        self.id.as_str()
    }

    pub fn get_upc(&self) -> (r: &Option<String>)
        ensures
            opt_text(*r) == self@.upc,
    {
        &self.upc
    }

    /// Stores case measurements, given in whole inches (each side rounded
    /// up), ordered longest side first.
    pub fn set_dimensions(&mut self, dims: Option<[u32; 3]>)
        ensures
            final(self)@ == (EntryView {
                case_dimensions: match dims {
                    Some(d) => Some(ordered_dims(d@[0], d@[1], d@[2])),
                    None => None,
                },
                ..old(self)@
            }),
    {
        proof {
            use_type_invariant(&*self);
        }
        self.case_dimensions = match dims {
            Some(d) => Some(order_dims(d[0], d[1], d[2])),
            None => None,
        };
    }

    /// Stores the marketplace's measurements, given in whole inches (each
    /// side rounded up), ordered longest side first.
    pub fn set_amz_dimensions(&mut self, dims: Option<[u32; 3]>)
        ensures
            final(self)@ == (EntryView {
                amz_dimensions: match dims {
                    Some(d) => Some(ordered_dims(d@[0], d@[1], d@[2])),
                    None => None,
                },
                ..old(self)@
            }),
    {
        proof {
            use_type_invariant(&*self);
        }
        self.amz_dimensions = match dims {
            Some(d) => Some(order_dims(d[0], d[1], d[2])),
            None => None,
        };
    }

    pub(crate) fn put_amz_dimensions(&mut self, dims: Dims)
        requires
            dims_ordered(Some(dims)),
        ensures
            final(self)@ == (EntryView { amz_dimensions: Some(dims), ..old(self)@ }),
    {
        proof {
            use_type_invariant(&*self);
        }
        self.amz_dimensions = Some(dims);
    }

    pub fn str_amz_size(&self) -> (r: &str)
        ensures
            r@ == text_or_empty(self@.amz_size),
    {
        text_or_empty_of(&self.amz_size)
    }

    pub fn str_fnsku(&self) -> (r: &str)
        ensures
            r@ == self@.fnsku,
    {
        self.fnsku.as_str()
    }

    pub fn str_msku(&self) -> (r: &str)
        ensures
            r@ == text_or_empty(self@.msku),
    {
        text_or_empty_of(&self.msku)
    }

    pub fn str_title(&self) -> (r: &str)
        ensures
            r@ == text_or_empty(self@.title),
    {
        text_or_empty_of(&self.title)
    }

    pub fn str_asin(&self) -> (r: &str)
        ensures
            r@ == text_or_empty(self@.asin),
    {
        text_or_empty_of(&self.asin)
    }

    pub fn str_condition(&self) -> (r: &str)
        ensures
            r@ == text_or_empty(self@.condition),
    {
        text_or_empty_of(&self.condition)
    }

    pub fn str_id(&self) -> (r: &str)
        ensures
            r@ == self@.id,
    {
        self.id.as_str()
    }

    pub fn str_upc(&self) -> (r: &str)
        ensures
            r@ == text_or_empty(self@.upc),
    {
        text_or_empty_of(&self.upc)
    }
}

} // verus!
