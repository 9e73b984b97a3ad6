use photomosaic::datastructs::ShiftRegister;

#[test]
fn new_register_is_empty() {
    let mut r = ShiftRegister::new();
    assert_eq!(r.bits(), 0);
    assert_eq!(r.count_true(), 0);
    assert!(r.full_recent(0));
    assert!(!r.full_recent(1));
    assert!(!r.pop());
}

#[test]
fn pop_returns_values_in_reverse_push_order() {
    let mut r = ShiftRegister::new();
    r.push(true);
    r.push(false);
    r.push(true);
    assert!(r.pop());
    assert!(!r.pop());
    assert!(r.pop());
    assert!(!r.pop());
}

#[test]
fn pop_after_push_gives_pushed_value() {
    let mut r = ShiftRegister::new();
    r.push(true);
    r.push(true);
    r.push(false);
    let before = r.bits();
    r.push(true);
    assert!(r.pop());
    assert_eq!(r.bits(), before);
    r.push(false);
    assert!(!r.pop());
}

#[test]
fn push_after_pop_restores_register() {
    let mut r = ShiftRegister::new();
    for v in [true, false, false, true, true] {
        r.push(v);
    }
    let before = r.bits();
    let v = r.pop();
    r.push(v);
    assert_eq!(r.bits(), before);
}

#[test]
fn bits_hold_most_recent_entry_lowest() {
    let mut r = ShiftRegister::new();
    r.push(true);
    assert_eq!(r.bits(), 1);
    r.push(false);
    assert_eq!(r.bits(), 2);
    r.push(true);
    assert_eq!(r.bits(), 5);
}

#[test]
fn full_recent_counts_trailing_trues() {
    let mut r = ShiftRegister::new();
    r.push(false);
    for _ in 0..5 {
        r.push(true);
    }
    assert!(r.full_recent(5));
    assert!(!r.full_recent(6));
    assert!(r.full_recent(3));
    r.push(false);
    assert!(!r.full_recent(1));
    assert!(r.full_recent(0));
}

#[test]
fn full_recent_up_to_all_entries() {
    let mut r = ShiftRegister::new();
    for _ in 0..127 {
        r.push(true);
    }
    assert!(r.full_recent(127));
    assert!(!r.full_recent(128));
    r.push(true);
    assert!(r.full_recent(127));
    assert!(r.full_recent(128));
    assert_eq!(r.count_true(), 128);
    r.push(false);
    assert!(!r.full_recent(128));
    assert!(!r.full_recent(1));
}

#[test]
fn oldest_entry_falls_off() {
    let mut r = ShiftRegister::new();
    r.push(true);
    for _ in 0..128 {
        r.push(false);
    }
    assert_eq!(r.count_true(), 0);
    assert_eq!(r.bits(), 0);
}

#[test]
fn count_true_counts_set_entries() {
    let mut r = ShiftRegister::new();
    for v in [true, false, true, true, false] {
        r.push(v);
    }
    assert_eq!(r.count_true(), 3);
    r.pop();
    assert_eq!(r.count_true(), 3);
    r.pop();
    assert_eq!(r.count_true(), 2);
}
