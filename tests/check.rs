use plaine::check::{CheckRow, Scan, ScanError, Warn};
use plaine::entry::{Entry, Weight};

fn entry(fnsku: &str, id: &str, units: i32) -> Entry {
    let mut e = Entry::default();
    e.set_fnsku(fnsku.to_string());
    e.set_id(id.to_string());
    e.set_units(units);
    e
}

fn measured(fnsku: &str, id: &str, units: i32, hundredths: u32, dims: [u32; 3]) -> Entry {
    let mut e = entry(fnsku, id, units);
    e.set_total_pounds(Some(Weight { hundredths }));
    e.set_dimensions(Some(dims));
    e.set_upc(Some("111".to_string()));
    e
}

#[test]
fn scenario_team_lift_or_too_heavy() {
    let one = measured("X", "c1", 1, 5000, [10, 10, 10]);
    let row = CheckRow::new(vec![one.clone()]);
    assert_eq!(row.cases_need_team_lift().map(|v| v.len()), Some(1));
    assert!(row.cases_too_heavy().is_none());

    let mut two = one;
    two.set_units(2);
    let row = CheckRow::new(vec![two]);
    assert!(row.cases_need_team_lift().is_none());
    assert_eq!(row.cases_too_heavy().map(|v| v.len()), Some(1));
}

#[test]
fn weight_at_limit_is_not_flagged() {
    let row = CheckRow::new(vec![measured("X", "c1", 1, 4900, [24, 24, 24])]);
    assert!(row.cases_need_team_lift().is_none());
    assert!(row.cases_too_long().is_none());
    assert!(row.needs_info().is_none());
    let row = CheckRow::new(vec![measured("X", "c1", 1, 4901, [25, 1, 1])]);
    assert!(row.cases_need_team_lift().is_some());
    assert!(row.cases_too_long().is_some());
}

#[test]
fn missing_information() {
    let bare = entry("X", "c1", 3);
    let row = CheckRow::new(vec![bare]);
    assert_eq!(row.needs_info().map(|v| v.len()), Some(1));
}

#[test]
fn all_checks_of_matching_count() {
    let pred = vec![
        measured("X", "c1", 5, 1000, [10, 10, 10]),
        measured("X", "c2", 5, 1000, [10, 10, 10]),
    ];
    let row = CheckRow::with_count(pred, Some("111".to_string()), Some(10), Some(2));
    assert!(row.same_upc());
    assert!(row.same_num_cases());
    assert!(row.same_num_units());
    let warnings = row.all_checks().unwrap();
    assert!(warnings.is_empty());
}

#[test]
fn all_checks_in_order() {
    let pred = vec![
        measured("X", "c1", 1, 6000, [30, 10, 10]),
        entry("Y", "c2", 4),
    ];
    let row = CheckRow::with_count(pred, Some("999".to_string()), Some(3), Some(1));
    let warnings = row.all_checks().unwrap();
    let kinds: Vec<&str> = warnings
        .iter()
        .map(|w| match w {
            Warn::Upc => "upc",
            Warn::Cases => "cases",
            Warn::Units => "units",
            Warn::TeamLift(_) => "lift",
            Warn::Weight(_) => "weight",
            Warn::Dimesions(_) => "dims",
            Warn::MissingInfo(_) => "info",
            _ => "other",
        })
        .collect();
    assert_eq!(kinds, vec!["upc", "cases", "units", "lift", "dims", "info"]);
}

#[test]
fn counts_without_input_disagree() {
    let row = CheckRow::new(vec![entry("X", "c1", 5)]);
    assert!(!row.same_num_cases());
    assert!(!row.same_num_units());
    assert!(row.same_upc());
}

#[test]
fn scenario_scan_without_fnsku_is_rejected() {
    let scan = Scan { fnsku: String::new(), upc: None, units_per_case: 5, cases: 2 };
    assert_eq!(scan.submit().unwrap_err(), ScanError::MissingFnsku);
}

#[test]
fn scan_validation_errors() {
    let zero_units = Scan { fnsku: "X".to_string(), upc: None, units_per_case: 0, cases: 2 };
    assert_eq!(zero_units.submit().unwrap_err(), ScanError::NoUnitsPerCase);
    let zero_cases = Scan { fnsku: "X".to_string(), upc: None, units_per_case: 5, cases: 0 };
    assert_eq!(zero_cases.submit().unwrap_err(), ScanError::NoCases);
    let ok = Scan { fnsku: "X".to_string(), upc: None, units_per_case: 5, cases: 2 };
    let same = vec!["a".to_string(), "a".to_string()];
    assert_eq!(ok.entries_with_ids(&same).unwrap_err(), ScanError::CaseIds);
    let short = vec!["a".to_string()];
    assert_eq!(ok.entries_with_ids(&short).unwrap_err(), ScanError::CaseIds);
}

#[test]
fn scan_cases_share_sku_with_distinct_ids() {
    let scan = Scan {
        fnsku: "X9".to_string(),
        upc: Some("0042".to_string()),
        units_per_case: 6,
        cases: 4,
    };
    let made = scan.submit().unwrap();
    assert_eq!(made.len(), 4);
    for e in &made {
        assert_eq!(e.get_fnsku(), "X9");
        assert_eq!(e.get_upc(), &Some("0042".to_string()));
        assert_eq!(e.get_units(), 6);
        let id = e.get_id();
        assert!(id.len() > 36 + 4);
        let (_, uuid) = id.split_at(id.len() - 36);
        assert_eq!(uuid.split('-').map(|g| g.len()).collect::<Vec<_>>(), vec![8, 4, 4, 4, 12]);
    }
    for i in 0..made.len() {
        for j in 0..i {
            assert_ne!(made[i].get_id(), made[j].get_id());
        }
    }
}
