use convolver::settings::Settings;

#[test]
fn new_settings_are_all_ones() {
    let s = Settings::new(2);
    assert_eq!(s.area_size, 2);
    assert_eq!(s.values, vec![1; 4]);
}

#[test]
fn resizing_resets_to_ones() {
    let mut s = Settings::new(2);
    s.set_weight(1, 0, 5);
    s.set_area_size(3);
    assert_eq!(s.area_size, 3);
    assert_eq!(s.values, vec![1; 9]);
}

#[test]
fn same_size_keeps_weights() {
    let mut s = Settings::new(2);
    s.set_weight(0, 1, -4);
    s.set_area_size(2);
    assert_eq!(s.values, vec![1, 1, -4, 1]);
}

#[test]
fn change_detection_compares_by_value() {
    let prev = Settings::new(2);
    let mut cur = prev.clone();
    assert!(!cur.changed(&prev));
    assert!(cur == prev);
    cur.set_weight(1, 1, 0);
    assert!(cur.changed(&prev));
    cur.set_weight(1, 1, 1);
    assert!(!cur.changed(&prev));
    cur.set_area_size(1);
    assert!(cur.changed(&prev));
}
