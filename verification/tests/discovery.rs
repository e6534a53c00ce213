use trackpad_pointer::input_event_mouse::{find_event_mouse, find_event_mouses};

#[test]
fn keeps_only_event_mouse_names_in_order() {
    let names = vec![
        "pci-0000:00:15.1-platform-i2c_designware.1-event-mouse".to_string(),
        "platform-i8042-serio-0-event-kbd".to_string(),
        "pci-0000:00:14.0-usb-0:2:1.0-event-mouse".to_string(),
        "platform-pcspkr-event-spkr".to_string(),
    ];
    let found = find_event_mouses(names);
    assert_eq!(
        found,
        vec![
            "pci-0000:00:15.1-platform-i2c_designware.1-event-mouse".to_string(),
            "pci-0000:00:14.0-usb-0:2:1.0-event-mouse".to_string(),
        ]
    );
}

#[test]
fn no_matches_yields_empty() {
    let names = vec!["event-kbd".to_string(), "event-mous".to_string()];
    assert!(find_event_mouses(names).is_empty());
    assert_eq!(find_event_mouse(vec![]), None);
}

#[test]
fn first_match_is_returned() {
    let names = vec![
        "event-kbd".to_string(),
        "a-event-mouse".to_string(),
        "b-event-mouse".to_string(),
    ];
    assert_eq!(find_event_mouse(names), Some("a-event-mouse".to_string()));
}

#[test]
fn marker_may_sit_anywhere_in_the_name() {
    let names = vec!["event-mouse".to_string(), "xevent-mousex".to_string()];
    assert_eq!(find_event_mouses(names).len(), 2);
}
