//! A plan is a ledger of entries; this trait gives a `Vec<Entry>` the
//! ledger's operations as methods.
use vstd::prelude::*;

use crate::entry::{texts, views, Entry};
use crate::ledger::{
    as_folded_cases, as_group_by_case, as_negated, by_fnsku, case_views, cases_with_sign,
    count_cases_with_sign, count_seen_cases, fits_i32, folded, folds_fit, get_as_sums,
    get_case_named, grouped, keys, negated, select_by_fnsku, sku_total, summed, sums_fit,
    total_units, units_of_skus, units_sum, with_key, Key, Sign,
};

verus! {

/// The operations of a ledger of entries.
pub trait Plan: View<V = Seq<Entry>> + Sized {
    /// A copy of the entries.
    fn entries(&self) -> (r: Vec<Entry>)
        ensures
            r@ == self@,
    ;

    /// The entries whose SKU is not one of `i`.
    fn remove_fnskus(&self, i: &Vec<String>) -> (r: Vec<Entry>)
        ensures
            views(r@) == by_fnsku(views(self@), texts(i@), false),
    ;

    /// A copy with every quantity negated (`i32::MIN` becomes 0).
    fn as_negated(&self) -> (r: Vec<Entry>)
        ensures
            views(r@) == negated(views(self@)),
    ;

    /// The number of cases whose net units are above 0.
    fn number_of_real_cases(&self) -> (r: usize)
        ensures
            r == cases_with_sign(views(self@), Sign::Positive),
    ;

    /// The number of cases whose net units are not 0.
    fn number_of_nonzero_cases(&self) -> (r: usize)
        ensures
            r == cases_with_sign(views(self@), Sign::Nonzero),
    ;

    /// The number of cases whose net units are below 0.
    fn negative_unit_case_count(&self) -> (r: usize)
        ensures
            r == cases_with_sign(views(self@), Sign::Negative),
    ;

    /// The cases, each summed by SKU.
    fn as_folded_cases(&self) -> (r: Vec<(String, Vec<Entry>)>)
        requires
            folds_fit(views(self@)),
        ensures
            case_views(r@) == folded(views(self@)),
    ;

    /// The entries, partitioned by case.
    fn as_group_by_case(&self) -> (r: Vec<(String, Vec<Entry>)>)
        ensures
            case_views(r@) == grouped(views(self@)),
    ;

    /// The number of distinct cases ever recorded, negated ones included.
    fn number_of_seen_cases(&self) -> (r: usize)
        ensures
            r == keys(views(self@), Key::Case).len(),
    ;

    /// One entry per SKU carrying the SKU's net units; case boundaries are
    /// not kept.
    fn get_as_sums(&self) -> (r: Vec<Entry>)
        requires
            sums_fit(views(self@)),
        ensures
            views(r@) == summed(views(self@)),
    ;

    /// Each SKU with its net units.
    fn units_of_skus(&self) -> (r: Vec<(String, i32)>)
        requires
            sums_fit(views(self@)),
        ensures
            r@.len() == keys(views(self@), Key::Fnsku).len(),
            forall|j: int|
                0 <= j < r@.len() ==> (#[trigger] r@[j]).0@ == keys(views(self@), Key::Fnsku)[j]
                    && r@[j].1 == sku_total(views(self@), keys(views(self@), Key::Fnsku)[j]),
    ;

    /// The sum of all units.
    fn units(&self) -> (r: i32)
        requires
            fits_i32(units_sum(views(self@))),
        ensures
            r == units_sum(views(self@)),
    ;

    /// The entries of the case named `case_name`.
    fn get_case_named(&self, case_name: &str) -> (r: Vec<Entry>)
        ensures
            views(r@) == with_key(views(self@), Key::Case, case_name@),
    ;
}

impl Plan for Vec<Entry> {
    fn entries(&self) -> (r: Vec<Entry>) {
        let mut out: Vec<Entry> = Vec::new();
        let mut i: usize = 0;
        while i < self.len()
            invariant
                i <= self.len(),
                out@ == self@.take(i as int),
            decreases self.len() - i,
        {
            out.push(self[i].clone());
            assert(out@ =~= self@.take(i + 1));
            i = i + 1;
        }
        assert(self@.take(self.len() as int) =~= self@);
        out
    }

    fn remove_fnskus(&self, i: &Vec<String>) -> (r: Vec<Entry>) {
        select_by_fnsku(self, i, false)
    }

    fn as_negated(&self) -> (r: Vec<Entry>) {
        as_negated(self)
    }

    fn number_of_real_cases(&self) -> (r: usize) {
        count_cases_with_sign(self, Sign::Positive)
    }

    fn number_of_nonzero_cases(&self) -> (r: usize) {
        count_cases_with_sign(self, Sign::Nonzero)
    }

    fn negative_unit_case_count(&self) -> (r: usize) {
        count_cases_with_sign(self, Sign::Negative)
    }

    fn as_folded_cases(&self) -> (r: Vec<(String, Vec<Entry>)>) {
        as_folded_cases(self)
    }

    fn as_group_by_case(&self) -> (r: Vec<(String, Vec<Entry>)>) {
        as_group_by_case(self)
    }

    fn number_of_seen_cases(&self) -> (r: usize) {
        count_seen_cases(self)
    }

    fn get_as_sums(&self) -> (r: Vec<Entry>) {
        get_as_sums(self)
    }

    fn units_of_skus(&self) -> (r: Vec<(String, i32)>) {
        units_of_skus(self)
    }

    fn units(&self) -> (r: i32) {
        total_units(self)
    }

    fn get_case_named(&self, case_name: &str) -> (r: Vec<Entry>) {
        get_case_named(self, case_name)
    }
}

} // verus!
