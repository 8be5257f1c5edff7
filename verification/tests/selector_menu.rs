use pico_limbo::client::ClientState;
use pico_limbo::menu::{handle_selector_click, open_selector_for_selected_slot, SelectorAction};
use pico_limbo::navigation::LobbyDestination;
use pico_limbo::protocol::ProtocolVersion;
use pico_limbo::selector::{
    build_selector_menu, legacy_item_id_for, ClickContainer, LobbySelector, OpenSelectorState, SelectorClick,
};

fn selector(item: &str) -> LobbySelector {
    LobbySelector::new(4, item.to_string(), None, vec![])
}

fn dest(id: &str) -> LobbyDestination {
    LobbyDestination::new(id, id, "lobby")
}

fn make_click(slot: i16, button: u8, mode: u8, state_id: i32) -> ClickContainer {
    ClickContainer { window_id: 1, state_id, slot, action_number: 0, button, mode }
}

fn open_state_with_two_dests() -> OpenSelectorState {
    build_selector_menu(1, &vec![dest("a"), dest("b")], ProtocolVersion::V1_21, &vec![], Some(1000))
}

#[test]
fn compass_id_per_version_bucket() {
    let sel = selector("minecraft:compass");
    assert_eq!(sel.resolve_item_id(ProtocolVersion::V1_12_2, None), Some(345));
    for (version, registry) in [(ProtocolVersion::V1_13, 562), (ProtocolVersion::V1_16, 683), (ProtocolVersion::V1_21_6, 989)] {
        assert_eq!(sel.resolve_item_id(version, Some(registry)), Some(registry));
    }
}

#[test]
fn item_absent_from_missing_registry_version_returns_none() {
    let sel = selector("minecraft:netherite_chestplate");
    assert_eq!(sel.resolve_item_id(ProtocolVersion::V1_15_2, None), None);
    assert_eq!(sel.resolve_item_id(ProtocolVersion::V1_12_2, None), None);
}

#[test]
fn hotbar_packet_reflects_item_resolution() {
    let unknown = selector("minecraft:unknown_item_xyz");
    assert!(unknown.resolve_item_id(ProtocolVersion::V1_21, None).is_none());
    assert!(unknown.build_hotbar_slot(ProtocolVersion::V1_21, None).is_none());

    let compass = selector("minecraft:compass");
    let update = compass.build_hotbar_slot(ProtocolVersion::V1_21, Some(928)).unwrap();
    assert_eq!(update.hotbar_slot, 4);
    assert_eq!(update.slot.item_id, 928);
    assert_eq!(update.slot.count, 1);
}

#[test]
fn legacy_item_table() {
    assert_eq!(legacy_item_id_for("minecraft:map"), Some(395));
    assert_eq!(legacy_item_id_for("minecraft:filled_map"), Some(395));
    assert_eq!(legacy_item_id_for("minecraft:iron_ingot"), Some(265));
    assert_eq!(legacy_item_id_for("compass"), None);
}

#[test]
fn build_selector_menu_slot_layout() {
    let dests = vec![dest("survival"), dest("creative"), dest("minigames")];
    let state = build_selector_menu(1, &dests, ProtocolVersion::V1_21, &vec![], Some(1000));

    assert_eq!(state.slot_map[0], Some("survival".to_string()));
    assert_eq!(state.slot_map[1], Some("creative".to_string()));
    assert_eq!(state.slot_map[2], Some("minigames".to_string()));
    assert_eq!(state.slots.len(), 27);
    for i in 3..27 {
        assert!(state.slot_map[i].is_none());
        assert_eq!(state.slots[i].item_id(), -1);
    }
    assert_eq!(state.slots[0].item_id(), 1000);
    assert_eq!(state.slots[0].lore, vec!["<gray>Click to connect.".to_string()]);
}

#[test]
fn legacy_menu_uses_numeric_paper() {
    let state = build_selector_menu(1, &vec![dest("a")], ProtocolVersion::V1_8, &vec![], Some(1000));
    assert_eq!(state.slots[0].item_id(), 339);
    let state = build_selector_menu(1, &vec![dest("a")], ProtocolVersion::V1_21, &vec![], None);
    assert_eq!(state.slots[0].item_id(), 339);
}

#[test]
fn classify_clicks_select_destination_slot() {
    let state = open_state_with_two_dests();
    assert_eq!(state.classify(&make_click(0, 0, 0, 1), ProtocolVersion::V1_21), SelectorClick::Select { slot_index: 0 });
    assert_eq!(state.classify(&make_click(1, 1, 0, 1), ProtocolVersion::V1_21), SelectorClick::Select { slot_index: 1 });
}

#[test]
fn classify_invalid_interactions_require_resync() {
    let state = open_state_with_two_dests();
    let version = ProtocolVersion::V1_21;
    for pkt in [make_click(0, 0, 1, 1), make_click(0, 0, 5, 1), make_click(27, 0, 0, 1), make_click(5, 0, 0, 1)] {
        assert_eq!(
            state.classify(&pkt, version),
            SelectorClick::RequiresResync,
            "expected RequiresResync for pkt slot={} mode={}",
            pkt.slot,
            pkt.mode
        );
    }
}

#[test]
fn classify_outside_window_is_ignored() {
    let state = open_state_with_two_dests();
    assert_eq!(state.classify(&make_click(-999, 0, 0, 1), ProtocolVersion::V1_21), SelectorClick::Ignored);
}

#[test]
fn classify_stale_state_id_version_behavior() {
    let state = open_state_with_two_dests();
    let stale = make_click(0, 0, 0, 0);

    assert_eq!(state.classify(&stale, ProtocolVersion::V1_17_1), SelectorClick::RequiresResync);
    assert_eq!(state.classify(&stale, ProtocolVersion::V1_12_2), SelectorClick::Select { slot_index: 0 });
}

fn client_in_slot(slot: u8, version: ProtocolVersion) -> ClientState {
    let mut c = ClientState::new();
    c.set_protocol_version(version);
    c.set_selected_hotbar_slot(slot);
    c
}

#[test]
fn opening_selector_allocates_window_and_sends_menu() {
    let mut client = client_in_slot(4, ProtocolVersion::V1_21);
    let sel = LobbySelector::new(4, "minecraft:compass".to_string(), Some("<gold>Servers".to_string()), vec![]);
    let actions = open_selector_for_selected_slot(&mut client, Some(&sel), &vec![dest("a")], &vec![], Some(1000));
    assert_eq!(actions.len(), 2);
    match &actions[0] {
        SelectorAction::OpenScreen { window_id, title } => {
            assert_eq!(*window_id, 1);
            assert_eq!(title, "<gold>Servers");
        }
        other => panic!("unexpected {other:?}"),
    }
    assert!(client.open_selector().is_some());

    let again = open_selector_for_selected_slot(&mut client, Some(&sel), &vec![dest("a")], &vec![], Some(1000));
    assert_eq!(again.len(), 3);
    assert!(matches!(again[0], SelectorAction::CloseContainer { window_id: 1 }));
    assert!(matches!(again[1], SelectorAction::OpenScreen { window_id: 2, .. }));
}

#[test]
fn opening_selector_from_other_slot_does_nothing() {
    let mut client = client_in_slot(3, ProtocolVersion::V1_21);
    let sel = selector("minecraft:compass");
    assert!(open_selector_for_selected_slot(&mut client, Some(&sel), &vec![dest("a")], &vec![], None).is_empty());
    assert!(open_selector_for_selected_slot(&mut client, None, &vec![dest("a")], &vec![], None).is_empty());
    let mut client = client_in_slot(4, ProtocolVersion::V1_21);
    assert!(open_selector_for_selected_slot(&mut client, Some(&sel), &vec![], &vec![], None).is_empty());
    assert!(client.open_selector().is_none());
}

#[test]
fn clicking_destination_connects_and_closes() {
    let mut client = client_in_slot(4, ProtocolVersion::V1_21);
    let sel = selector("minecraft:compass");
    let dests = vec![LobbyDestination::new("a", "A", "server-a")];
    open_selector_for_selected_slot(&mut client, Some(&sel), &dests, &vec![], Some(1000));
    let actions = handle_selector_click(&mut client, &make_click(0, 0, 0, 1), &dests);
    assert_eq!(actions.len(), 2);
    match &actions[0] {
        SelectorAction::Connect { server } => assert_eq!(server, "server-a"),
        other => panic!("unexpected {other:?}"),
    }
    assert!(matches!(actions[1], SelectorAction::CloseContainer { window_id: 1 }));
    assert!(client.open_selector().is_none());
}

#[test]
fn refused_click_resyncs_with_next_state_id() {
    let mut client = client_in_slot(4, ProtocolVersion::V1_8);
    let sel = selector("minecraft:compass");
    let dests = vec![dest("a")];
    open_selector_for_selected_slot(&mut client, Some(&sel), &dests, &vec![], None);
    let actions = handle_selector_click(&mut client, &make_click(0, 0, 1, 1), &dests);
    assert_eq!(actions.len(), 2);
    assert!(matches!(actions[0], SelectorAction::Confirm(_)));
    assert!(matches!(actions[1], SelectorAction::SetContainerContent { window_id: 1, state_id: 2, .. }));
    assert_eq!(client.open_selector().unwrap().state_id, 2);
}

#[test]
fn unknown_destination_resyncs_and_tells_player() {
    let mut client = client_in_slot(4, ProtocolVersion::V1_21);
    let sel = selector("minecraft:compass");
    open_selector_for_selected_slot(&mut client, Some(&sel), &vec![dest("gone")], &vec![], None);
    let actions = handle_selector_click(&mut client, &make_click(0, 0, 0, 1), &vec![]);
    assert_eq!(actions.len(), 2);
    match &actions[1] {
        SelectorAction::Feedback { message } => assert_eq!(message, "Unknown server: gone"),
        other => panic!("unexpected {other:?}"),
    }
}

#[test]
fn click_in_other_window_is_ignored() {
    let mut client = client_in_slot(4, ProtocolVersion::V1_21);
    let sel = selector("minecraft:compass");
    open_selector_for_selected_slot(&mut client, Some(&sel), &vec![dest("a")], &vec![], None);
    let mut click = make_click(0, 0, 0, 1);
    click.window_id = 9;
    assert!(handle_selector_click(&mut client, &click, &vec![dest("a")]).is_empty());
    assert!(client.open_selector().is_some());
}

#[test]
fn explicit_slot_item_and_glint_are_honoured() {
    let dests = vec![
        LobbyDestination::new("a", "A", "s").with_item("minecraft:diamond").with_slot(Some(5)).with_enchanted(true),
        dest("b"),
    ];
    let state = build_selector_menu(1, &dests, ProtocolVersion::V1_21, &vec![Some(880), None], Some(1000));
    assert_eq!(state.slot_map[5], Some("a".to_string()));
    assert_eq!(state.slot_map[0], Some("b".to_string()));
    assert_eq!(state.slots[5].item_id(), 880);
    assert!(state.slots[5].enchanted);
    assert_eq!(state.slots[0].item_id(), 1000);
    assert!(!state.slots[0].enchanted);
    let legacy = build_selector_menu(1, &dests, ProtocolVersion::V1_12_2, &vec![], None);
    assert_eq!(legacy.slots[5].item_id(), 264);
}

#[test]
fn taken_or_outside_slot_falls_back_to_first_free() {
    let dests = vec![
        LobbyDestination::new("a", "A", "s").with_slot(Some(2)),
        LobbyDestination::new("b", "B", "s").with_slot(Some(2)),
        LobbyDestination::new("c", "C", "s").with_slot(Some(200)),
    ];
    let state = build_selector_menu(1, &dests, ProtocolVersion::V1_21, &vec![], Some(1));
    assert_eq!(state.slot_map[2], Some("a".to_string()));
    assert_eq!(state.slot_map[0], Some("b".to_string()));
    assert_eq!(state.slot_map[1], Some("c".to_string()));
}
