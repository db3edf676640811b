use ash_meet_bot::event::{get_meet_link, make_meet_event, unique_id, CreatedEvent, EntryPoint};

#[test]
fn unique_id_is_alphanumeric_of_length() {
    let id = unique_id(32);
    assert_eq!(id.chars().count(), 32);
    assert!(id.chars().all(|c| c.is_ascii_alphanumeric()));
    assert_eq!(unique_id(0), "");
}

#[test]
fn unique_ids_differ() {
    assert_ne!(unique_id(32), unique_id(32));
}

#[test]
fn request_carries_fields_and_token() {
    let r = make_meet_event("standup", 10, 20, Some("Asia/Shanghai"));
    assert_eq!(r.summary, "standup");
    assert_eq!((r.start, r.end), (10, 20));
    assert_eq!(r.time_zone.as_deref(), Some("Asia/Shanghai"));
    assert_eq!(r.conference_type, "hangoutsMeet");
    assert_eq!(r.request_id.len(), 32);
    let again = make_meet_event("standup", 10, 20, None);
    assert_eq!(again.time_zone, None);
    assert_ne!(r.request_id, again.request_id);
}

#[test]
fn link_is_first_entry_uri() {
    let e = CreatedEvent {
        entry_points: Some(vec![
            EntryPoint { uri: Some("https://meet.example/abc".to_string()) },
            EntryPoint { uri: Some("tel:+1".to_string()) },
        ]),
    };
    assert_eq!(get_meet_link(&e), Some("https://meet.example/abc"));
}

#[test]
fn no_link_without_entry_points() {
    assert_eq!(get_meet_link(&CreatedEvent { entry_points: None }), None);
    assert_eq!(get_meet_link(&CreatedEvent { entry_points: Some(vec![]) }), None);
    let e = CreatedEvent {
        entry_points: Some(vec![EntryPoint { uri: None }, EntryPoint { uri: Some("x".to_string()) }]),
    };
    assert_eq!(get_meet_link(&e), None);
}
