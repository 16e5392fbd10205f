use plaine::db::{Building, Mongo};
use plaine::entry::Entry;
use plaine::export::{
    check_file_contents, check_file_name, upload_contents, upload_file_name, UploadError,
};
use plaine::item::MonsoonItem;
use plaine::login::LoginFormProp;
use plaine::words::{gen_pw, gen_pw_uuid, group_file_name, is_record_file};
use plaine::Table;

fn entry(fnsku: &str, id: &str, units: i32) -> Entry {
    let mut e = Entry::default();
    e.set_fnsku(fnsku.to_string());
    e.set_id(id.to_string());
    e.set_units(units);
    e
}

#[test]
fn check_file_lists_sums() {
    let mut a = entry("F1", "c1", 12);
    a.set_asin(Some("B01".to_string()));
    a.set_title(Some("Lamp".to_string()));
    a.set_amz_size(Some("Small".to_string()));
    let entries = vec![a, entry("F1", "c2", -20), entry("F2", "c2", 3)];
    let text = check_file_contents(&entries, "plan7");
    assert_eq!(
        text,
        "plan7\nASIN,TITLE,UNITS,SIZE,FNSKU,UPC,COUNT,NOTES\n\
         \"B01\",\"Lamp\",\"-8\",\"Small\",\"F1\",'\n\
         \"\",\"\",\"3\",\"\",\"F2\",'\n"
    );
    assert_eq!(check_file_name("plan7"), "plan7-CheckFile.csv");
}

#[test]
fn upload_lists_merchant_skus() {
    let mut a = entry("F1", "c1", 12);
    a.set_msku(Some("M1".to_string()));
    let mut b = entry("F1", "c2", 30);
    b.set_msku(Some("M1".to_string()));
    let entries = vec![a, b, entry("F2", "c2", 3)];
    let text = upload_contents("header\n", &entries).unwrap();
    assert_eq!(text, "header\nM1\t42\tSeller\tSeller\n");
    assert_eq!(
        upload_contents("header\n", &vec![entry("F2", "c2", 3)]).unwrap_err(),
        UploadError::Empty
    );
    assert_eq!(upload_file_name("b1"), "b1-Upload.txt");
}

/// Hyphenated lowercase hex in groups of 8, 4, 4, 4 and 12.
fn looks_like_uuid(s: &str) -> bool {
    let groups: Vec<&str> = s.split('-').collect();
    groups.iter().map(|g| g.len()).collect::<Vec<_>>() == vec![8, 4, 4, 4, 12]
        && groups
            .iter()
            .all(|g| g.chars().all(|c| c.is_ascii_digit() || ('a'..='f').contains(&c)))
}

#[test]
fn random_names() {
    let pw = gen_pw();
    assert!(pw.contains('-'));
    assert!(!pw.starts_with('-') && !pw.ends_with('-'));
    let long = gen_pw_uuid();
    assert!(long.len() > 36 + 4);
    let (words, uuid) = long.split_at(long.len() - 36);
    assert!(looks_like_uuid(uuid));
    assert!(words.ends_with('-'));
    let words = &words[..words.len() - 1];
    assert!(words.contains('-'));
    assert!(!words.starts_with('-') && !words.ends_with('-'));
    assert_ne!(gen_pw_uuid(), gen_pw_uuid());
    let file = group_file_name("store/", "trunk");
    assert!(file.starts_with("store/trunk_"));
    assert!(is_record_file(&file));
    assert!(!is_record_file("notes.txt"));
    assert!(!is_record_file("json"));
}

#[test]
fn catalog_item_row() {
    let item = MonsoonItem {
        id: None,
        sku: Some("mo40600000123".to_string()),
        title: Some("AudioQue (5.0 meters)".to_string()),
        upc: None,
        manufacturer_part_num: Some("GOLDG05R".to_string()),
        asin: Some("B005TI1PJ8".to_string()),
        locator_code: Some("01-01B".to_string()),
        quantity: Some("0".to_string()),
        condition: Some("New".to_string()),
        price: Some("199.95".to_string()),
        fnsku: Some("X062KI3RCB".to_string()),
    };
    assert_eq!(item.headers().len(), 10);
    assert_eq!(item.headers()[3], "PartNum");
    let row = item.row();
    assert_eq!(row[0], "mo40600000123");
    assert_eq!(row[2], "");
    assert_eq!(row[7], "New");
}

#[test]
fn credentials_and_login_form() {
    let mut m: Mongo<Building> = Mongo::new();
    m.set_user("ann");
    m.set_password("pw");
    m.set_database("items");
    assert_eq!(
        m.connection_uri(),
        "mongodb+srv://ann:pw@plaine-cluster.tqhag7f.mongodb.net/?retryWrites=true&w=majority"
    );
    let ready = m.into_ready();
    assert_eq!(ready.database(), "items");
    let mut form = LoginFormProp::default();
    form.set("ann", "secret");
    assert_eq!(form.clone_get(), ("ann".to_string(), "secret".to_string()));
}
