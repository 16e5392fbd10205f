use plaine::entry::{Dims, Entry, Weight};
use plaine::import::{
    AllListingsReport, AmzFbaInventory, Condition, GDriveEntry, GDrivePlan, ImportError,
    MonthlyStorageFees,
};

fn row(fnsku: Option<&str>, quantity: Option<u32>, pack: &str, case_qt: Option<u32>) -> GDriveEntry {
    GDriveEntry {
        info: None,
        fnsku: fnsku.map(|s| s.to_string()),
        quantity,
        pack_type: Some(pack.to_string()),
        staging_group: Some("stage-1".to_string()),
        unit_weight: Some(Weight { hundredths: 125 }),
        case_qt,
        case_weight: Some(Weight { hundredths: 2000 }),
    }
}

#[test]
fn scenario_cased_row_makes_one_entry_per_case() {
    let made = row(Some("F1"), Some(30), "Case", Some(10)).to_entries().unwrap();
    assert_eq!(made.len(), 3);
    for e in &made {
        assert_eq!(e.get_units(), 10);
        assert_eq!(e.get_fnsku(), "F1");
        assert_eq!(e.get_total_pounds(), Some(Weight { hundredths: 2000 }));
    }
    assert_ne!(made[0].get_id(), made[1].get_id());
    assert_ne!(made[1].get_id(), made[2].get_id());
    assert_ne!(made[0].get_id(), made[2].get_id());
}

#[test]
fn scenario_uneven_cases_are_refused() {
    let r = row(Some("F1"), Some(31), "Case", Some(10)).to_entries();
    assert_eq!(r.unwrap_err(), ImportError::Indivisible);
}

#[test]
fn loose_row_rounds_total_weight() {
    // 1.25 lb times 7 units is 8.75 lb, rounded to 9 lb.
    let made = row(Some("F2"), Some(7), "Loose", None).to_entries().unwrap();
    assert_eq!(made.len(), 1);
    assert_eq!(made[0].get_units(), 7);
    assert_eq!(made[0].get_id(), "stage-1");
    assert_eq!(made[0].get_total_pounds(), Some(Weight { hundredths: 900 }));
}

#[test]
fn row_errors() {
    assert_eq!(
        row(None, Some(3), "Case", Some(1)).to_entries().unwrap_err(),
        ImportError::MissingFnsku
    );
    assert_eq!(
        row(Some("F"), None, "Case", Some(1)).to_entries().unwrap_err(),
        ImportError::MissingQuantity
    );
    assert_eq!(
        row(Some("F"), Some(3), "Case", None).to_entries().unwrap_err(),
        ImportError::MissingCaseQuantity
    );
    assert_eq!(
        row(Some("F"), Some(3), "Case", Some(0)).to_entries().unwrap_err(),
        ImportError::Indivisible
    );
    assert_eq!(
        row(Some("F"), Some(0), "Case", Some(5)).to_entries().unwrap_err(),
        ImportError::NoCases
    );
    assert_eq!(
        row(Some("F"), Some(u32::MAX), "Loose", None).to_entries().unwrap_err(),
        ImportError::TooLarge
    );
    let two = row(Some("F"), Some(4), "Case", Some(2));
    let ids = vec!["x".to_string(), "x".to_string()];
    assert_eq!(two.entries_with_ids(&ids).unwrap_err(), ImportError::CaseIds);
    let ids = vec!["x".to_string(), "y".to_string()];
    let made = two.entries_with_ids(&ids).unwrap();
    assert_eq!(made[1].get_id(), "y");
}

fn fee(fnsku: &str) -> MonthlyStorageFees {
    MonthlyStorageFees {
        asin: Some("B0B9CCP98J".to_string()),
        fnsku: fnsku.to_string(),
        product_name: Some("Sony".to_string()),
        longest_side: Some(11),
        median_side: Some(5),
        shortest_side: Some(11),
        weight: Some(Weight { hundredths: 294 }),
        product_size_tier: Some("Standard-Size".to_string()),
    }
}

fn stock(fnsku: &str, msku: &str) -> AmzFbaInventory {
    AmzFbaInventory {
        msku: msku.to_string(),
        fnsku: fnsku.to_string(),
        asin: String::new(),
        condition: "New".to_string(),
        warehouse: String::new(),
        available: String::new(),
    }
}

#[test]
fn plan_import_fills_from_reports() {
    let rows = vec![
        row(Some("F1"), Some(20), "Case", Some(10)),
        row(None, Some(5), "Case", Some(5)),
        row(Some("F2"), Some(7), "Loose", None),
    ];
    let plan = GDrivePlan::from_rows(&rows);
    let fees = vec![fee("F1")];
    let inv = vec![stock("F2", "M-2"), stock("F2", "M-other")];
    let made = plan.to_entries(&fees, &inv).unwrap();
    assert_eq!(made.len(), 3);
    assert_eq!(made[0].get_title(), &Some("Sony".to_string()));
    assert_eq!(made[0].get_total_pounds(), Some(Weight { hundredths: 294 }));
    assert_eq!(
        made[0].get_amz_dimensions(),
        Some(Dims { length: 11, width: 11, height: 5 })
    );
    assert_eq!(made[0].get_msku(), &None);
    assert_eq!(made[2].get_msku(), &Some("M-2".to_string()));
    assert_eq!(made[2].get_condition(), &Some("New".to_string()));
    assert_eq!(made[2].get_title(), &None);
}

#[test]
fn plan_import_stops_on_bad_row() {
    let rows = vec![
        row(Some("F1"), Some(20), "Case", Some(10)),
        row(Some("F3"), Some(21), "Case", Some(10)),
    ];
    let plan = GDrivePlan::from_rows(&rows);
    let r = plan.to_entries(&Vec::new(), &Vec::new());
    assert_eq!(r.unwrap_err(), ImportError::Indivisible);
}

#[test]
fn fill_leaves_unknown_skus() {
    let mut e = Entry::default();
    e.set_fnsku("Q".to_string());
    let mut entries = vec![e];
    plaine::import::fill_entries(&mut entries, &vec![fee("F1")], &vec![stock("F1", "M")]);
    assert_eq!(entries[0].get_title(), &None);
    assert_eq!(entries[0].get_msku(), &None);
}

#[test]
fn report_headers() {
    let inv = vec!["seller-sku".to_string(), "fnsku".to_string()];
    assert!(AmzFbaInventory::accepts_headers(&inv));
    let fees = vec!["asin".to_string(), "WeIgHt".to_string()];
    assert!(!AmzFbaInventory::accepts_headers(&fees));
    let listing: Vec<String> = [
        "seller-sku",
        "asin1",
        "item-name",
        "product-id-type",
        "item-condition",
        "product-id",
    ]
    .iter()
    .map(|s| s.to_string())
    .collect();
    assert!(AllListingsReport::accepts_headers(&listing));
    assert!(!AllListingsReport::accepts_headers(&listing[1..].to_vec()));
    assert_eq!(Condition::from_code(11), Condition::New);
    assert_eq!(Condition::from_code(1), Condition::UsedLikeNew);
    assert_eq!(Condition::from_code(2), Condition::Other);
}

#[test]
fn plan_of_loose_rows_always_imports() {
    let empty = GDrivePlan::from_rows(&Vec::new());
    assert!(empty.to_entries(&Vec::new(), &Vec::new()).unwrap().is_empty());
    let rows = vec![
        row(Some("L1"), Some(2), "Loose", None),
        row(Some("L2"), Some(3), "Loose", None),
    ];
    let made = GDrivePlan::from_rows(&rows)
        .to_entries(&Vec::new(), &Vec::new())
        .unwrap();
    assert_eq!(made.len(), 2);
    assert_eq!(made[1].get_fnsku(), "L2");
    assert_eq!(made[1].get_units(), 3);
}
