use icedshell::fdo_icons::FdIcon;
use icedshell::tray::eventstream::{
    icon_fallback, split_service_name, MenuLayout, SNItem, SNItemEvent, StreamState, TrayEvent,
};
use icedshell::tray::service::{Message, TrayItems, TrayService};

fn item(name: &str, title: &str) -> SNItem {
    SNItem {
        name: name.to_string(),
        title: title.to_string(),
        tool_tip: None,
        icon: None,
        menu: MenuLayout::empty(),
    }
}

#[test]
fn service_name_with_embedded_path() {
    let (dest, path) = split_service_name(":1.52/org/ayatana/NotificationItem/nm_applet");
    assert_eq!(dest, ":1.52");
    assert_eq!(path, "/org/ayatana/NotificationItem/nm_applet");
}

#[test]
fn service_name_without_path_gets_the_default() {
    let (dest, path) = split_service_name("org.kde.StatusNotifierItem-2-1");
    assert_eq!(dest, "org.kde.StatusNotifierItem-2-1");
    assert_eq!(path, "/StatusNotifierItem");
}

#[test]
fn service_name_splits_at_the_first_slash() {
    let (dest, path) = split_service_name("a/b/c");
    assert_eq!(dest, "a");
    assert_eq!(path, "/b/c");
}

#[test]
fn pixmap_wins_over_named_icon() {
    let pixmap = FdIcon::Image("pixmap.png".to_string());
    let named = FdIcon::Svg("named.svg".to_string());
    match icon_fallback(Some(pixmap), Some(named)) {
        Some(FdIcon::Image(p)) => assert_eq!(p, "pixmap.png"),
        other => panic!("expected the pixmap icon, got {other:?}"),
    }
    match icon_fallback(None, Some(FdIcon::Svg("named.svg".to_string()))) {
        Some(FdIcon::Svg(p)) => assert_eq!(p, "named.svg"),
        other => panic!("expected the named icon, got {other:?}"),
    }
    assert!(icon_fallback(None, None).is_none());
}

#[test]
fn multiplexer_setup_emits_the_snapshot() {
    let machine = StreamState::start();
    let (machine, event) = machine.on_setup(vec![item("org.y", "Y")]);
    match event {
        TrayEvent::RegisteredItems(items) => {
            assert_eq!(items.len(), 1);
            assert_eq!(items[0].name, "org.y");
        }
        other => panic!("expected the snapshot event, got {other:?}"),
    }
    match machine {
        StreamState::Active { merged } => assert_eq!(merged, vec!["org.y".to_string()]),
        other => panic!("expected an active machine, got {other:?}"),
    }
}

#[test]
fn registration_grows_the_fanin_without_losing_streams() {
    let machine = StreamState::start();
    let (machine, _) = machine.on_setup(vec![item("org.y", "Y")]);
    let (machine, out) = machine.on_event(TrayEvent::ItemRegistered(Box::new(item("org.x", "X"))));
    match machine {
        StreamState::Active { ref merged } => {
            assert_eq!(
                *merged,
                vec!["org.y".to_string(), "org.x".to_string()],
                "Y's stream stays merged and X's joins"
            );
        }
        ref other => panic!("expected an active machine, got {other:?}"),
    }
    match out {
        TrayEvent::ItemRegistered(it) => assert_eq!(it.name, "org.x"),
        other => panic!("the event passes through unchanged, got {other:?}"),
    }
    // X's later notification passes through while the fan-in keeps Y
    let (machine, out) = machine.on_event(TrayEvent::SNItem(Box::new(SNItemEvent::IconChanged(
        "org.x".to_string(),
        FdIcon::Svg("x.svg".to_string()),
    ))));
    assert!(matches!(out, TrayEvent::SNItem(_)));
    match machine {
        StreamState::Active { merged } => {
            assert_eq!(merged, vec!["org.y".to_string(), "org.x".to_string()]);
        }
        other => panic!("expected an active machine, got {other:?}"),
    }
}

#[test]
fn unregistration_passes_through_and_keeps_the_fanin() {
    let machine = StreamState::start();
    let (machine, _) = machine.on_setup(vec![item("org.y", "Y")]);
    let (machine, out) = machine.on_event(TrayEvent::ItemUnregistered("org.y".to_string()));
    assert!(matches!(out, TrayEvent::ItemUnregistered(_)));
    match machine {
        StreamState::Active { merged } => {
            assert_eq!(merged, vec!["org.y".to_string()], "the dead stream ends on its own");
        }
        other => panic!("expected an active machine, got {other:?}"),
    }
}

#[test]
fn setup_failure_is_terminal() {
    let machine = StreamState::start();
    let machine = machine.on_setup_failed();
    assert!(matches!(machine, StreamState::Error));
}

#[test]
fn items_are_ordered_by_name() {
    let mut service = TrayService::new();
    service.update(Message::Registered(Box::new(item("org.b", "B"))));
    service.update(Message::Registered(Box::new(item("org.a", "A"))));
    service.update(Message::Registered(Box::new(item("org.c", "C"))));
    let names: Vec<&str> =
        service.items.as_vec().iter().map(|it| it.name.as_str()).collect();
    assert_eq!(names, vec!["org.a", "org.b", "org.c"]);
}

#[test]
fn registering_again_replaces_the_item() {
    let mut service = TrayService::new();
    service.update(Message::Registered(Box::new(item("org.a", "old title"))));
    service.update(Message::Registered(Box::new(item("org.a", "new title"))));
    assert_eq!(service.items.len(), 1);
    assert_eq!(service.items.as_vec()[0].title, "new title");
}

#[test]
fn unregistering_removes_the_item() {
    let mut service = TrayService::new();
    service.update(Message::Registered(Box::new(item("org.a", "A"))));
    service.update(Message::Registered(Box::new(item("org.b", "B"))));
    service.update(Message::Unregistered("org.a".to_string()));
    assert_eq!(service.items.len(), 1);
    assert_eq!(service.items.as_vec()[0].name, "org.b");
}

#[test]
fn icon_change_patches_the_named_item() {
    let mut service = TrayService::new();
    service.update(Message::Registered(Box::new(item("org.a", "A"))));
    service.update(Message::IconChanged(
        "org.a".to_string(),
        FdIcon::Svg("a.svg".to_string()),
    ));
    match &service.items.as_vec()[0].icon {
        Some(FdIcon::Svg(p)) => assert_eq!(p, "a.svg"),
        other => panic!("expected the new icon, got {other:?}"),
    }
}

#[test]
fn icon_change_for_unknown_name_is_noop() {
    let mut service = TrayService::new();
    service.update(Message::Registered(Box::new(item("org.a", "A"))));
    service.update(Message::IconChanged(
        "org.zz".to_string(),
        FdIcon::Svg("zz.svg".to_string()),
    ));
    assert_eq!(service.items.len(), 1);
    assert!(service.items.as_vec()[0].icon.is_none());
}

#[test]
fn menu_layout_change_replaces_the_menu() {
    let mut service = TrayService::new();
    service.update(Message::Registered(Box::new(item("org.a", "A"))));
    let menu = MenuLayout {
        id: 7,
        label: "root".to_string(),
        children: vec![MenuLayout { id: 8, label: "entry".to_string(), children: vec![] }],
    };
    service.update(Message::MenuLayoutChanged("org.a".to_string(), menu));
    let got = &service.items.as_vec()[0].menu;
    assert_eq!(got.id, 7);
    assert_eq!(got.children.len(), 1);
    assert_eq!(got.children[0].label, "entry");
}

#[test]
fn snapshot_replaces_all_items() {
    let mut service = TrayService::new();
    service.update(Message::Registered(Box::new(item("org.old", "Old"))));
    let snapshot = TrayItems::from_vec(vec![item("org.b", "B"), item("org.a", "A")]);
    service.update(Message::UpdateItems(snapshot));
    let names: Vec<&str> =
        service.items.as_vec().iter().map(|it| it.name.as_str()).collect();
    assert_eq!(names, vec!["org.a", "org.b"]);
}

#[test]
fn lookup_by_name() {
    let mut service = TrayService::new();
    service.update(Message::Registered(Box::new(item("org.a", "A"))));
    assert!(service.items.get(&"org.a".to_string()).is_some());
    assert!(service.items.get(&"org.b".to_string()).is_none());
}

#[test]
fn tray_events_flatten_into_messages() {
    match Message::from_tray(TrayEvent::ItemRegistered(Box::new(item("org.a", "A")))) {
        Message::Registered(it) => assert_eq!(it.name, "org.a"),
        other => panic!("expected a registration, got {other:?}"),
    }
    match Message::from_tray(TrayEvent::ItemUnregistered("org.a".to_string())) {
        Message::Unregistered(name) => assert_eq!(name, "org.a"),
        other => panic!("expected an unregistration, got {other:?}"),
    }
    match Message::from_tray(TrayEvent::SNItem(Box::new(SNItemEvent::MenuLayoutChanged(
        "org.a".to_string(),
        MenuLayout::empty(),
    )))) {
        Message::MenuLayoutChanged(name, _) => assert_eq!(name, "org.a"),
        other => panic!("expected a menu change, got {other:?}"),
    }
    match Message::from_tray(TrayEvent::RegisteredItems(vec![
        item("org.b", "B"),
        item("org.a", "A"),
    ])) {
        Message::UpdateItems(items) => {
            assert_eq!(items.len(), 2);
            assert_eq!(items.as_vec()[0].name, "org.a");
        }
        other => panic!("expected an item snapshot, got {other:?}"),
    }
}
