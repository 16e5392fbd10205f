//! The reconciliation of a physical count against the ledger, and the
//! entries that a scanned line creates.
use vstd::prelude::*;

use crate::entry::{lemma_views_push, opt_text, texts, views, Entry, EntryView};
use crate::ledger::{cases_with_sign, count_cases_with_sign, units_sum, Sign};
use crate::words::{distinct_ids, distinct_strings, gen_pw_uuid};

verus! {

/// Weight above which a case needs handling care: 49 pounds, in hundredths.
pub const LIFT_LIMIT_HUNDREDTHS: u32 = 4900;

/// Side length above which a case is too long, in inches.
pub const LENGTH_LIMIT_INCHES: u32 = 24;

/// A problem found by a check.
#[derive(Debug)]
pub enum Warn {
    Upc,
    Cases,
    Sku,
    Units,
    TeamLift(Vec<Entry>),
    Weight(Vec<Entry>),
    Dimesions(Vec<Entry>),
    MissingInfo(Vec<Entry>),
    Special,
    Forbid,
}

/// What a [`Warn`] holds, as mathematical values.
pub enum WarnView {
    Upc,
    Cases,
    Sku,
    Units,
    TeamLift(Seq<EntryView>),
    Weight(Seq<EntryView>),
    Dimesions(Seq<EntryView>),
    MissingInfo(Seq<EntryView>),
    Special,
    Forbid,
}

impl View for Warn {
    type V = WarnView;

    open spec fn view(&self) -> WarnView {
        match self {
            Warn::Upc => WarnView::Upc,
            Warn::Cases => WarnView::Cases,
            Warn::Sku => WarnView::Sku,
            Warn::Units => WarnView::Units,
            Warn::TeamLift(v) => WarnView::TeamLift(views(v@)),
            Warn::Weight(v) => WarnView::Weight(views(v@)),
            Warn::Dimesions(v) => WarnView::Dimesions(views(v@)),
            Warn::MissingInfo(v) => WarnView::MissingInfo(views(v@)),
            Warn::Special => WarnView::Special,
            Warn::Forbid => WarnView::Forbid,
        }
    }
}

/// The properties of a single entry that the checks look for.
pub enum Flag {
    TeamLift,
    TooHeavy,
    TooLong,
    MissingInfo,
}

/// The weight in hundredths of a pound, 0 when unknown.
pub open spec fn weight_of(e: EntryView) -> int {
    match e.total_pounds {
        Some(w) => w.hundredths as int,
        None => 0,
    }
}

pub open spec fn flagged(e: EntryView, flag: Flag) -> bool {
    match flag {
        Flag::TeamLift => e.units == 1 && weight_of(e) > LIFT_LIMIT_HUNDREDTHS,
        Flag::TooHeavy => e.units > 1 && weight_of(e) > LIFT_LIMIT_HUNDREDTHS,
        Flag::TooLong => match e.case_dimensions {
            Some(d) => d.length > LENGTH_LIMIT_INCHES || d.width > LENGTH_LIMIT_INCHES || d.height
                > LENGTH_LIMIT_INCHES,
            None => false,
        },
        Flag::MissingInfo => e.case_dimensions is None || e.total_pounds is None,
    }
}

/// The entries of `s` that carry `flag`, in their order.
pub open spec fn with_flag(s: Seq<EntryView>, flag: Flag) -> Seq<EntryView>
    decreases s.len(),
{
    if s.len() == 0 {
        Seq::empty()
    } else {
        let p = with_flag(s.drop_last(), flag);
        if flagged(s.last(), flag) {
            p.push(s.last())
        } else {
            p
        }
    }
}

/// `None` for no entries, else the entries.
pub open spec fn some_if_any(s: Seq<EntryView>) -> Option<Seq<EntryView>> {
    if s.len() == 0 {
        None
    } else {
        Some(s)
    }
}

/// Some entry of `s` has the UPC `upc` (both may be absent).
pub open spec fn upc_present(s: Seq<EntryView>, upc: Option<Seq<char>>) -> bool {
    exists|i: int| 0 <= i < s.len() && (#[trigger] s[i]).upc == upc
}

pub open spec fn cases_agree(s: Seq<EntryView>, cases: Option<u32>) -> bool {
    match cases {
        Some(c) => c == cases_with_sign(s, Sign::Positive),
        None => false,
    }
}

pub open spec fn units_agree(s: Seq<EntryView>, units: Option<u32>) -> bool {
    match units {
        Some(u) => u == units_sum(s),
        None => false,
    }
}

pub open spec fn warn_if(cond: bool, w: WarnView) -> Seq<WarnView> {
    if cond {
        seq![w]
    } else {
        Seq::empty()
    }
}

/// Every warning for the count `upc`, `units`, `cases` against the entries
/// `s`, in the order of the checks.
pub open spec fn warnings(
    s: Seq<EntryView>,
    upc: Option<Seq<char>>,
    units: Option<u32>,
    cases: Option<u32>,
) -> Seq<WarnView> {
    warn_if(!upc_present(s, upc), WarnView::Upc) + warn_if(
        !cases_agree(s, cases),
        WarnView::Cases,
    ) + warn_if(!units_agree(s, units), WarnView::Units) + warn_if(
        with_flag(s, Flag::TeamLift).len() > 0,
        WarnView::TeamLift(with_flag(s, Flag::TeamLift)),
    ) + warn_if(
        with_flag(s, Flag::TooHeavy).len() > 0,
        WarnView::Weight(with_flag(s, Flag::TooHeavy)),
    ) + warn_if(
        with_flag(s, Flag::TooLong).len() > 0,
        WarnView::Dimesions(with_flag(s, Flag::TooLong)),
    ) + warn_if(
        with_flag(s, Flag::MissingInfo).len() > 0,
        WarnView::MissingInfo(with_flag(s, Flag::MissingInfo)),
    )
}

/// The views of a list of warnings.
pub open spec fn warn_views(w: Seq<Warn>) -> Seq<WarnView> {
    w.map_values(|x: Warn| x@)
}

fn is_flagged(e: &Entry, flag: &Flag) -> (r: bool)
    ensures
        r == flagged(e@, *flag),
{
    let heavy = match e.get_total_pounds() {
        Some(w) => w.hundredths > LIFT_LIMIT_HUNDREDTHS,
        None => false,
    };
    match flag {
        Flag::TeamLift => e.get_units() == 1 && heavy,
        Flag::TooHeavy => e.get_units() > 1 && heavy,
        Flag::TooLong => match e.get_case_dimensions() {
            Some(d) => d.length > LENGTH_LIMIT_INCHES || d.width > LENGTH_LIMIT_INCHES || d.height
                > LENGTH_LIMIT_INCHES,
            None => false,
        },
        Flag::MissingInfo => e.get_case_dimensions().is_none() || e.get_total_pounds().is_none(),
    }
}

fn flagged_entries(entries: &Vec<Entry>, flag: Flag) -> (r: Option<Vec<Entry>>)
    ensures
        match r {
            Some(v) => some_if_any(with_flag(views(entries@), flag)) == Some(views(v@)),
            None => some_if_any(with_flag(views(entries@), flag)) is None,
        },
{
    let ghost s = views(entries@);
    let mut out: Vec<Entry> = Vec::new();
    let mut i: usize = 0;
    while i < entries.len()
        invariant
            i <= entries.len(),
            s == views(entries@),
            views(out@) == with_flag(s.take(i as int), flag),
        decreases entries.len() - i,
    {
        proof {
            assert(s.take(i + 1).drop_last() =~= s.take(i as int));
            assert(entries@[i as int]@ == s[i as int]);
        }
        if is_flagged(&entries[i], &flag) {
            let e = entries[i].clone();
            proof {
                lemma_views_push(out@, e);
            }
            out.push(e);
        }
        i = i + 1;
    }
    assert(s.take(entries.len() as int) =~= s);
    if out.len() == 0 {
        assert(views(out@).len() == 0);
        None
    } else {
        assert(views(out@).len() > 0);
        Some(out)
    }
}

fn same_text(a: &Option<String>, b: &Option<String>) -> (r: bool)
    ensures
        r == (opt_text(*a) == opt_text(*b)),
{
    match (a, b) {
        (Some(x), Some(y)) => *x == *y,
        (None, None) => true,
        _ => false,
    }
}

/// Appends `w` to `list` when `cond` holds.
fn push_warn_if(list: &mut Vec<Warn>, cond: bool, w: Warn)
    ensures
        warn_views(final(list)@) == warn_views(old(list)@) + warn_if(cond, w@),
{
    if cond {
        list.push(w);
        assert(warn_views(list@) =~= warn_views(old(list)@) + warn_if(cond, w@));
    } else {
        assert(warn_views(list@) =~= warn_views(old(list)@) + warn_if(cond, w@));
    }
}

proof fn lemma_warning(list: Seq<Warn>, w: Warn)
    ensures
        warn_views(list.push(w)) == warn_views(list) + warn_if(true, w@),
{
    assert(warn_views(list.push(w)) =~= warn_views(list) + warn_if(true, w@));
}

proof fn lemma_no_warning(list: Seq<Warn>, cond: bool, w: WarnView)
    ensures
        !cond ==> warn_views(list) == warn_views(list) + warn_if(cond, w),
{
    assert(warn_views(list) + Seq::<WarnView>::empty() =~= warn_views(list));
}

/// A physical count of one line against the entries it is expected to
/// match, and the warnings found.
#[derive(Debug)]
pub struct CheckRow {
    predicate: Vec<Entry>,
    upc: Option<String>,
    units: Option<u32>,
    cases: Option<u32>,
    warn: Option<Vec<Warn>>,
}

impl CheckRow {
    pub closed spec fn spec_predicate(&self) -> Seq<EntryView> {
        views(self.predicate@)
    }

    pub closed spec fn spec_upc(&self) -> Option<Seq<char>> {
        opt_text(self.upc)
    }

    pub closed spec fn spec_units(&self) -> Option<u32> {
        self.units
    }

    pub closed spec fn spec_cases(&self) -> Option<u32> {
        self.cases
    }

    /// A row expecting `predicate`, with nothing counted yet.
    pub fn new(predicate: Vec<Entry>) -> (r: CheckRow)
        ensures
            r.spec_predicate() == views(predicate@),
            r.spec_upc() is None,
            r.spec_units() is None,
            r.spec_cases() is None,
    {
        CheckRow { predicate, upc: None, units: None, cases: None, warn: None }
    }

    /// A row expecting `predicate`, with the operator's count.
    pub fn with_count(
        predicate: Vec<Entry>,
        upc: Option<String>,
        units: Option<u32>,
        cases: Option<u32>,
    ) -> (r: CheckRow)
        ensures
            r.spec_predicate() == views(predicate@),
            r.spec_upc() == opt_text(upc),
            r.spec_units() == units,
            r.spec_cases() == cases,
    {
        CheckRow { predicate, upc, units, cases, warn: None }
    }

    /// Runs every check and lists the warnings, in the order: UPC, cases,
    /// units, team lift, weight, length, missing information.
    pub fn all_checks(&self) -> (r: Option<Vec<Warn>>)
        ensures
            r matches Some(w) && warn_views(w@) == warnings(
                self.spec_predicate(),
                self.spec_upc(),
                self.spec_units(),
                self.spec_cases(),
            ),
    {
        let ghost s = self.spec_predicate();
        let mut found: Vec<Warn> = Vec::new();
        let upc_ok = self.same_upc();
        push_warn_if(&mut found, !upc_ok, Warn::Upc);
        let cases_ok = self.same_num_cases();
        push_warn_if(&mut found, !cases_ok, Warn::Cases);
        let units_ok = self.same_num_units();
        push_warn_if(&mut found, !units_ok, Warn::Units);
        let ghost before_lift = found@;
        if let Some(v) = self.cases_need_team_lift() {
            let w = Warn::TeamLift(v);
            proof {
                lemma_warning(found@, w);
            }
            found.push(w);
        }
        let ghost before_heavy = found@;
        if let Some(v) = self.cases_too_heavy() {
            let w = Warn::Weight(v);
            proof {
                lemma_warning(found@, w);
            }
            found.push(w);
        }
        let ghost before_long = found@;
        if let Some(v) = self.cases_too_long() {
            let w = Warn::Dimesions(v);
            proof {
                lemma_warning(found@, w);
            }
            found.push(w);
        }
        let ghost before_info = found@;
        if let Some(v) = self.needs_info() {
            let w = Warn::MissingInfo(v);
            proof {
                lemma_warning(found@, w);
            }
            found.push(w);
        }
        proof {
            let lift = with_flag(s, Flag::TeamLift);
            let heavy = with_flag(s, Flag::TooHeavy);
            let long = with_flag(s, Flag::TooLong);
            let info = with_flag(s, Flag::MissingInfo);
            lemma_no_warning(before_lift, lift.len() > 0, WarnView::TeamLift(lift));
            lemma_no_warning(before_heavy, heavy.len() > 0, WarnView::Weight(heavy));
            lemma_no_warning(before_long, long.len() > 0, WarnView::Dimesions(long));
            lemma_no_warning(before_info, info.len() > 0, WarnView::MissingInfo(info));
            assert(warn_views(before_heavy) == warn_views(before_lift) + warn_if(
                lift.len() > 0,
                WarnView::TeamLift(lift),
            ));
            assert(warn_views(before_long) == warn_views(before_heavy) + warn_if(
                heavy.len() > 0,
                WarnView::Weight(heavy),
            ));
            assert(warn_views(before_info) == warn_views(before_long) + warn_if(
                long.len() > 0,
                WarnView::Dimesions(long),
            ));
            assert(warn_views(found@) == warn_views(before_info) + warn_if(
                info.len() > 0,
                WarnView::MissingInfo(info),
            ));
        }
        Some(found)
    }

    /// The entries of a single unit weighing over 49 pounds, which need a
    /// team-lift label; `None` when there are none.
    pub fn cases_need_team_lift(&self) -> (r: Option<Vec<Entry>>)
        ensures
            match r {
                Some(v) => some_if_any(with_flag(self.spec_predicate(), Flag::TeamLift)) == Some(
                    views(v@),
                ),
                None => with_flag(self.spec_predicate(), Flag::TeamLift).len() == 0,
            },
    {
        flagged_entries(&self.predicate, Flag::TeamLift)
    }

    /// The entries of more than one unit weighing over 49 pounds; `None`
    /// when there are none.
    pub fn cases_too_heavy(&self) -> (r: Option<Vec<Entry>>)
        ensures
            match r {
                Some(v) => some_if_any(with_flag(self.spec_predicate(), Flag::TooHeavy)) == Some(
                    views(v@),
                ),
                None => with_flag(self.spec_predicate(), Flag::TooHeavy).len() == 0,
            },
    {
        flagged_entries(&self.predicate, Flag::TooHeavy)
    }

    /// The entries with a case side over 24 inches; `None` when there are
    /// none.
    pub fn cases_too_long(&self) -> (r: Option<Vec<Entry>>)
        ensures
            match r {
                Some(v) => some_if_any(with_flag(self.spec_predicate(), Flag::TooLong)) == Some(
                    views(v@),
                ),
                None => with_flag(self.spec_predicate(), Flag::TooLong).len() == 0,
            },
    {
        flagged_entries(&self.predicate, Flag::TooLong)
    }

    /// The entries missing case measurements or weight; `None` when there
    /// are none.
    pub fn needs_info(&self) -> (r: Option<Vec<Entry>>)
        ensures
            match r {
                Some(v) => some_if_any(with_flag(self.spec_predicate(), Flag::MissingInfo))
                    == Some(views(v@)),
                None => with_flag(self.spec_predicate(), Flag::MissingInfo).len() == 0,
            },
    {
        flagged_entries(&self.predicate, Flag::MissingInfo)
    }

    /// True when a case count was given and equals the number of cases with
    /// units above 0.
    pub fn same_num_cases(&self) -> (r: bool)
        ensures
            r == cases_agree(self.spec_predicate(), self.spec_cases()),
    {
        match self.cases {
            None => false,
            Some(input) => {
                let expectation = count_cases_with_sign(&self.predicate, Sign::Positive);
                input as usize == expectation
            },
        }
    }

    /// True when a unit count was given and equals the net units.
    pub fn same_num_units(&self) -> (r: bool)
        ensures
            r == units_agree(self.spec_predicate(), self.spec_units()),
    {
        match self.units {
            None => false,
            Some(input) => {
                let expectation = crate::ledger::wide_total(&self.predicate);
                input as i128 == expectation
            },
        }
    }

    /// True when some expected entry has the counted UPC.
    pub fn same_upc(&self) -> (r: bool)
        ensures
            r == upc_present(self.spec_predicate(), self.spec_upc()),
    {
        let ghost s = self.spec_predicate();
        let mut i: usize = 0;
        while i < self.predicate.len()
            invariant
                i <= self.predicate.len(),
                s == views(self.predicate@),
                forall|j: int| 0 <= j < i ==> (#[trigger] s[j]).upc != opt_text(self.upc),
            decreases self.predicate.len() - i,
        {
            assert(self.predicate@[i as int]@ == s[i as int]);
            if same_text(&self.upc, self.predicate[i].get_upc()) {
                return true;
            }
            i = i + 1;
        }
        false
    }
}

/// One scanned line: a SKU, its UPC, the units in each case and the number
/// of cases.
#[derive(Debug)]
pub struct Scan {
    pub fnsku: String,
    pub upc: Option<String>,
    pub units_per_case: i32,
    pub cases: u32,
}

/// Why a scanned line was refused. No entry is created when one is returned.
#[derive(Clone, Copy, Debug, PartialEq, Eq, Structural)]
pub enum ScanError {
    /// The SKU is empty.
    MissingFnsku,
    /// The units per case are not above 0.
    NoUnitsPerCase,
    /// The number of cases is 0.
    NoCases,
    /// The case ids are not one distinct id per case.
    CaseIds,
}

/// The validation error of a scanned line, if any.
pub open spec fn scan_error(fnsku: Seq<char>, units_per_case: i32, cases: u32) -> Option<
    ScanError,
> {
    if fnsku.len() == 0 {
        Some(ScanError::MissingFnsku)
    } else if units_per_case <= 0 {
        Some(ScanError::NoUnitsPerCase)
    } else if cases == 0 {
        Some(ScanError::NoCases)
    } else {
        None
    }
}

/// The entry of one scanned case.
pub open spec fn scanned_case(
    fnsku: Seq<char>,
    upc: Option<Seq<char>>,
    units: i32,
    id: Seq<char>,
) -> EntryView {
    EntryView {
        amz_size: None,
        fnsku,
        msku: None,
        title: None,
        asin: None,
        condition: None,
        units,
        total_pounds: None,
        id,
        upc,
        case_dimensions: None,
        amz_dimensions: None,
    }
}

/// One entry per case id, each holding `units` of `fnsku` with `upc`.
pub open spec fn scanned_cases(
    fnsku: Seq<char>,
    upc: Option<Seq<char>>,
    units: i32,
    ids: Seq<Seq<char>>,
) -> Seq<EntryView> {
    ids.map_values(|id: Seq<char>| scanned_case(fnsku, upc, units, id))
}

/// The entries of one scanned line all carry the line's SKU, UPC and units
/// per case, one entry per case id; with distinct ids given, no two entries
/// share a case id.
pub proof fn law_scanned_cases(
    fnsku: Seq<char>,
    upc: Option<Seq<char>>,
    units: i32,
    ids: Seq<Seq<char>>,
)
    requires
        distinct_ids(ids),
    ensures
        scanned_cases(fnsku, upc, units, ids).len() == ids.len(),
        forall|i: int|
            0 <= i < ids.len() ==> (#[trigger] scanned_cases(fnsku, upc, units, ids)[i]).fnsku
                == fnsku && scanned_cases(fnsku, upc, units, ids)[i].upc == upc && scanned_cases(
                fnsku,
                upc,
                units,
                ids,
            )[i].units == units,
        forall|i: int, j: int|
            0 <= i < j < ids.len() ==> (#[trigger] scanned_cases(fnsku, upc, units, ids)[i]).id
                != (#[trigger] scanned_cases(fnsku, upc, units, ids)[j]).id,
{
    assert forall|i: int, j: int| 0 <= i < j < ids.len() implies (#[trigger] scanned_cases(
        fnsku,
        upc,
        units,
        ids,
    )[i]).id != (#[trigger] scanned_cases(fnsku, upc, units, ids)[j]).id by {
        assert(ids[i] != ids[j]);
    }
}

impl Scan {
    /// Refuses a line with an empty SKU, no units per case or no cases.
    pub fn validate(&self) -> (r: Result<(), ScanError>)
        ensures
            r == match scan_error(self.fnsku@, self.units_per_case, self.cases) {
                Some(e) => Err::<(), ScanError>(e),
                None => Ok(()),
            },
    {
        if self.fnsku.as_str().is_empty() {
            Err(ScanError::MissingFnsku)
        } else if self.units_per_case <= 0 {
            Err(ScanError::NoUnitsPerCase)
        } else if self.cases == 0 {
            Err(ScanError::NoCases)
        } else {
            Ok(())
        }
    }

    /// The entries of a valid line, one per case, each with its id from
    /// `ids`; the ids must be one distinct id per case.
    pub fn entries_with_ids(&self, ids: &Vec<String>) -> (r: Result<Vec<Entry>, ScanError>)
        ensures
            scan_error(self.fnsku@, self.units_per_case, self.cases) matches Some(e) ==> r
                == Err::<Vec<Entry>, ScanError>(e),
            scan_error(self.fnsku@, self.units_per_case, self.cases) is None ==> (ids@.len()
                != self.cases || !distinct_ids(texts(ids@)) <==> r == Err::<Vec<Entry>, ScanError>(
                ScanError::CaseIds,
            )),
            scan_error(self.fnsku@, self.units_per_case, self.cases) is None && ids@.len()
                == self.cases && distinct_ids(texts(ids@)) ==> r is Ok,
            r matches Ok(v) ==> views(v@) == scanned_cases(
                self.fnsku@,
                opt_text(self.upc),
                self.units_per_case,
                texts(ids@),
            ),
    {
        if let Err(e) = self.validate() {
            return Err(e);
        }
        if ids.len() != self.cases as usize || !distinct_strings(ids) {
            return Err(ScanError::CaseIds);
        }
        let ghost want = scanned_cases(
            self.fnsku@,
            opt_text(self.upc),
            self.units_per_case,
            texts(ids@),
        );
        let mut out: Vec<Entry> = Vec::new();
        let mut i: usize = 0;
        while i < ids.len()
            invariant
                i <= ids.len(),
                want == scanned_cases(
                    self.fnsku@,
                    opt_text(self.upc),
                    self.units_per_case,
                    texts(ids@),
                ),
                views(out@) == want.take(i as int),
            decreases ids.len() - i,
        {
            let mut e = Entry::default();
            e.set_fnsku(self.fnsku.clone());
            e.set_upc(self.upc.clone());
            e.set_units(self.units_per_case);
            e.set_id(ids[i].clone());
            proof {
                lemma_views_push(out@, e);
                assert(e@ == want[i as int]);
                assert(want.take(i + 1) =~= want.take(i as int).push(e@));
            }
            out.push(e);
            i = i + 1;
        }
        assert(want.take(ids.len() as int) =~= want);
        Ok(out)
    }

    /// Submits a scanned line: refuses an invalid one, else makes one entry
    /// per case, all of the line's SKU and UPC and each with a freshly
    /// generated case id, no two alike. Refuses with `CaseIds` in the
    /// unlikely event that two generated ids collide.
    pub fn submit(&self) -> (r: Result<Vec<Entry>, ScanError>)
        ensures
            scan_error(self.fnsku@, self.units_per_case, self.cases) matches Some(e) ==> r
                == Err::<Vec<Entry>, ScanError>(e),
            scan_error(self.fnsku@, self.units_per_case, self.cases) is None ==> (r == Err::<
                Vec<Entry>,
                ScanError,
            >(ScanError::CaseIds) || r is Ok),
            r matches Ok(v) ==> exists|ids: Seq<Seq<char>>|
                ids.len() == self.cases && distinct_ids(ids) && views(v@) == scanned_cases(
                    self.fnsku@,
                    opt_text(self.upc),
                    self.units_per_case,
                    ids,
                ),
    {
        if let Err(e) = self.validate() {
            return Err(e);
        }
        let mut ids: Vec<String> = Vec::new();
        let mut n: u32 = 0;
        while n < self.cases
            invariant
                n <= self.cases,
                ids@.len() == n,
            decreases self.cases - n,
        {
            ids.push(gen_pw_uuid());
            n = n + 1;
        }
        let r = self.entries_with_ids(&ids);
        proof {
            if r is Ok {
                assert(texts(ids@).len() == self.cases);
            }
        }
        r
    }
}

} // verus!
