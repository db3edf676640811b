use ash_meet_bot::auth::{parse_u64, AllowList};

#[test]
fn listed_ids_are_admins() {
    let list = AllowList::from_config("1006004227082, 42,+7");
    assert!(list.is_admin(1006004227082));
    assert!(list.is_admin(42));
    assert!(list.is_admin(7));
}

#[test]
fn unlisted_ids_are_denied() {
    let list = AllowList::from_config("1006004227082, 42");
    assert!(!list.is_admin(43));
    assert!(!list.is_admin(0));
    assert!(!AllowList::from_config("").is_admin(0));
}

#[test]
fn malformed_entries_are_skipped() {
    let list = AllowList::from_config("abc, -5, 12x, , 99, 18446744073709551616");
    assert!(list.is_admin(99));
    assert!(!list.is_admin(5));
    assert!(!list.is_admin(12));
}

#[test]
fn decimal_reading() {
    assert_eq!(parse_u64("0"), Some(0));
    assert_eq!(parse_u64("+15"), Some(15));
    assert_eq!(parse_u64("18446744073709551615"), Some(u64::MAX));
    assert_eq!(parse_u64("18446744073709551616"), None);
    assert_eq!(parse_u64("+"), None);
    assert_eq!(parse_u64(""), None);
    assert_eq!(parse_u64("-1"), None);
    assert_eq!(parse_u64("1 2"), None);
}
