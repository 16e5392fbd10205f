use plaine::branch::{branch, BranchError, Selection};
use plaine::entry::Entry;
use plaine::plan::Plan;
use plaine::status::Status;

fn entry(fnsku: &str, id: &str, units: i32) -> Entry {
    let mut e = Entry::default();
    e.set_fnsku(fnsku.to_string());
    e.set_id(id.to_string());
    e.set_units(units);
    e
}

fn group() -> Vec<Entry> {
    vec![
        entry("A", "c1", 10),
        entry("B", "c1", 15),
        entry("C", "c2", 15),
    ]
}

#[test]
fn scenario_branch_moves_fifteen_of_forty() {
    let g = group();
    assert_eq!(g.units(), 40);
    let done = branch(Some(&g), &vec!["B".to_string()], Selection::Selected).unwrap();
    assert_eq!(done.branch.units(), 15);
    assert_eq!(done.trunk.units(), 25);
    assert_eq!(done.trunk.len(), 4);
    assert_eq!(done.status, Status::Open);
    assert_eq!(done.trunk.units() + done.branch.units(), g.units());
}

#[test]
fn branch_of_unselected() {
    let g = group();
    let done = branch(Some(&g), &vec!["B".to_string()], Selection::Unselected).unwrap();
    assert_eq!(done.branch.units(), 25);
    assert_eq!(done.trunk.units(), 15);
}

#[test]
fn branch_errors() {
    let g = group();
    assert_eq!(
        branch(None, &vec!["A".to_string()], Selection::Selected).unwrap_err(),
        BranchError::NoActiveGroup
    );
    assert_eq!(
        branch(Some(&g), &vec!["Z".to_string()], Selection::Selected).unwrap_err(),
        BranchError::NothingSelected
    );
    let all = vec!["A".to_string(), "B".to_string(), "C".to_string()];
    assert_eq!(
        branch(Some(&g), &all, Selection::Unselected).unwrap_err(),
        BranchError::EverythingSelected
    );
}

#[test]
fn status_progression() {
    assert_eq!(Status::default(), Status::Open);
    let mut s = Status::Open;
    let mut names = vec![s.name().to_string()];
    while !s.is_terminal() {
        s = s.next();
        names.push(s.name().to_string());
    }
    assert_eq!(
        names,
        vec![
            "Open",
            "Check",
            "Confirm",
            "Measure",
            "BoxContents",
            "CaseLabel",
            "Staged",
            "Shipped"
        ]
    );
    assert_eq!(Status::Shipped.next(), Status::Shipped);
    assert_eq!(Status::record_name("trunk", "tok"), "trunk_tok.json");
    let fresh = Status::fresh_record_name("trunk");
    assert!(fresh.starts_with("trunk_"));
    assert!(fresh.ends_with(".json"));
    assert_eq!(fresh.len(), "trunk_".len() + 36 + ".json".len());
}
