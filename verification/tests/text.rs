use tinydb::text::lower_str;
use tinydb::text::str_eq;

#[test]
fn lower_str_folds_ascii_letters() {
    assert_eq!("abc_123", lower_str("AbC_123"));
    assert_eq!("", lower_str(""));
    assert_eq!("create", lower_str("CREATE"));
}

#[test]
fn str_eq_compares_contents() {
    assert!(str_eq("table", "table"));
    assert!(!str_eq("table", "tables"));
    assert!(!str_eq("table", "tAble"));
    assert!(str_eq("", ""));
}
