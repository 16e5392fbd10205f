use plaine::entry::{Dims, Entry, Weight};
use plaine::plan::Plan;

fn entry(fnsku: &str, id: &str, units: i32) -> Entry {
    let mut e = Entry::default();
    e.set_fnsku(fnsku.to_string());
    e.set_id(id.to_string());
    e.set_units(units);
    e
}

fn units_by_fnsku(entries: &[Entry]) -> Vec<(String, i32)> {
    entries
        .iter()
        .map(|e| (e.get_fnsku().to_string(), e.get_units()))
        .collect()
}

#[test]
fn scenario_net_zero_case_is_not_counted() {
    let plan = vec![entry("X", "c1", 5), entry("X", "c1", -5)];
    let folded = plan.as_folded_cases();
    assert_eq!(folded.len(), 1);
    assert_eq!(folded[0].0, "c1");
    assert_eq!(units_by_fnsku(&folded[0].1), vec![("X".to_string(), 0)]);
    assert_eq!(plan.number_of_real_cases(), 0);
    assert_eq!(plan.number_of_nonzero_cases(), 0);
}

#[test]
fn sums_keep_first_seen_order_and_metadata() {
    let mut first = entry("A", "c1", 3);
    first.set_title(Some("first".to_string()));
    let mut later = entry("A", "c2", 4);
    later.set_title(Some("later".to_string()));
    let plan = vec![first, entry("B", "c1", 7), later, entry("B", "c3", -2)];
    let sums = plan.get_as_sums();
    assert_eq!(
        units_by_fnsku(&sums),
        vec![("A".to_string(), 7), ("B".to_string(), 5)]
    );
    assert_eq!(sums[0].get_title(), &Some("first".to_string()));
    assert_eq!(sums[0].get_id(), "c1");
}

#[test]
fn sums_are_a_fixed_point() {
    let plan = vec![
        entry("A", "c1", 3),
        entry("B", "c1", 7),
        entry("A", "c2", 4),
        entry("C", "c2", 0),
        entry("B", "c3", -2),
    ];
    let once = plan.get_as_sums();
    let twice = once.get_as_sums();
    assert_eq!(units_by_fnsku(&once), units_by_fnsku(&twice));
    assert_eq!(once.len(), 3);
}

#[test]
fn sums_of_empty_ledger() {
    let plan: Vec<Entry> = Vec::new();
    assert!(plan.get_as_sums().is_empty());
    assert!(plan.as_group_by_case().is_empty());
    assert_eq!(plan.units(), 0);
    assert_eq!(plan.number_of_real_cases(), 0);
}

#[test]
fn units_of_skus_and_total() {
    let plan = vec![entry("A", "c1", 3), entry("B", "c1", 7), entry("A", "c2", -1)];
    assert_eq!(
        plan.units_of_skus(),
        vec![("A".to_string(), 2), ("B".to_string(), 7)]
    );
    assert_eq!(plan.units(), 9);
}

#[test]
fn group_by_case_keeps_order() {
    let plan = vec![
        entry("A", "c2", 1),
        entry("B", "c1", 2),
        entry("C", "c2", 3),
    ];
    let cases = plan.as_group_by_case();
    assert_eq!(cases.len(), 2);
    assert_eq!(cases[0].0, "c2");
    assert_eq!(
        units_by_fnsku(&cases[0].1),
        vec![("A".to_string(), 1), ("C".to_string(), 3)]
    );
    assert_eq!(cases[1].0, "c1");
    assert_eq!(units_by_fnsku(&cases[1].1), vec![("B".to_string(), 2)]);
}

#[test]
fn case_counts_by_sign() {
    let plan = vec![
        entry("A", "pos", 4),
        entry("A", "neg", -3),
        entry("A", "zero", 2),
        entry("B", "zero", -2),
        entry("A", "pos", 1),
    ];
    assert_eq!(plan.number_of_seen_cases(), 3);
    assert_eq!(plan.number_of_real_cases(), 1);
    assert_eq!(plan.number_of_nonzero_cases(), 2);
    assert_eq!(plan.negative_unit_case_count(), 1);
}

#[test]
fn negation_twice_restores_units() {
    let plan = vec![entry("A", "c1", 12), entry("B", "c1", -20), entry("C", "c2", 0)];
    let neg = plan.as_negated();
    assert_eq!(
        units_by_fnsku(&neg),
        vec![("A".to_string(), -12), ("B".to_string(), 20), ("C".to_string(), 0)]
    );
    let back = neg.as_negated();
    assert_eq!(units_by_fnsku(&back), units_by_fnsku(&plan));
}

#[test]
fn negation_of_minimum_is_zero() {
    let plan = vec![entry("A", "c1", i32::MIN), entry("A", "c1", i32::MAX)];
    let neg = plan.as_negated();
    assert_eq!(neg[0].get_units(), 0);
    assert_eq!(neg[1].get_units(), -i32::MAX);
}

#[test]
fn remove_and_pick_by_fnsku() {
    let plan = vec![entry("A", "c1", 1), entry("B", "c1", 2), entry("A", "c2", 3)];
    let kept = plan.remove_fnskus(&vec!["A".to_string()]);
    assert_eq!(units_by_fnsku(&kept), vec![("B".to_string(), 2)]);
    let unchanged = plan.remove_fnskus(&vec!["Z".to_string()]);
    assert_eq!(units_by_fnsku(&unchanged), units_by_fnsku(&plan));
    let case = plan.get_case_named("c2");
    assert_eq!(units_by_fnsku(&case), vec![("A".to_string(), 3)]);
    assert!(plan.get_case_named("nope").is_empty());
}

#[test]
fn dimensions_are_stored_longest_first() {
    let mut e = Entry::default();
    e.set_dimensions(Some([10, 30, 20]));
    assert_eq!(
        e.get_case_dimensions(),
        Some(Dims { length: 30, width: 20, height: 10 })
    );
    e.set_amz_dimensions(Some([5, 5, 9]));
    assert_eq!(
        e.get_amz_dimensions(),
        Some(Dims { length: 9, width: 5, height: 5 })
    );
    e.set_dimensions(None);
    assert_eq!(e.get_case_dimensions(), None);
}

#[test]
fn text_accessors_default_to_empty() {
    let mut e = entry("F", "box", 1);
    assert_eq!(e.str_msku(), "");
    assert_eq!(e.str_upc(), "");
    e.set_msku(Some("M-1".to_string()));
    e.set_upc(Some("0123".to_string()));
    e.set_total_pounds(Some(Weight { hundredths: 250 }));
    assert_eq!(e.str_msku(), "M-1");
    assert_eq!(e.str_upc(), "0123");
    assert_eq!(e.str_fnsku(), "F");
    assert_eq!(e.str_id(), "box");
    assert_eq!(e.get_total_pounds(), Some(Weight { hundredths: 250 }));
}
