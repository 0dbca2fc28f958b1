use sysmon::text::{str_eq, str_precedes};

#[test]
fn equal_strings_compare_equal() {
    assert!(str_eq("light_blue", "light_blue"));
    assert!(str_eq("", ""));
    assert!(!str_eq("red", "Red"));
    assert!(!str_eq("red", "reds"));
}

#[test]
fn precedes_follows_str_order() {
    let samples = ["", "a", "ab", "b", "B", "é", "a b", "cpu", "cpu2", "zz", "ü"];
    for a in samples.iter() {
        for b in samples.iter() {
            assert_eq!(str_precedes(a, b), a < b, "{:?} vs {:?}", a, b);
        }
    }
}
