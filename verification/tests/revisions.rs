use pico_limbo::chunks::{spiral_positions, ChunkPacket, CircularChunkPacketIterator};
use pico_limbo::client::ClientState;
use pico_limbo::commands::{is_float_literal, Command, ParseCommandError};
use pico_limbo::connection::{kick_outcome, scoreboard_interval_ms, scoreboard_step, DisconnectKind};
use pico_limbo::config::GameModeConfig;
use pico_limbo::join::{plan_play_join, register_lobby_session, JoinSettings, JoinStep};
use pico_limbo::lobby::{EntityId, LobbyPosition, LobbySession, LobbyState};
use pico_limbo::play::{drop_requires_resync, run_command, toggle_feedback, use_visibility_toggle, CommandAction};
use pico_limbo::protocol::{ProtocolVersion, State};
use pico_limbo::server_commands::ServerCommands;
use pico_limbo::text::escape_minimessage_text;
use pico_limbo::visibility::{join_visibility_packets_for_newcomer, movement_visibility_packets, visibility_toggle_packets, VisibilityPacket};

fn speed_commands() -> ServerCommands {
    ServerCommands::new(String::new(), "fly".to_string(), "flyspeed".to_string(), String::new(), String::new())
}

fn float_ok(s: &str) -> bool {
    is_float_literal(&s.chars().collect::<Vec<char>>())
}

#[test]
fn fly_speed_must_be_a_float() {
    let cmds = speed_commands();
    assert_eq!(Command::parse(&cmds, "flyspeed abc"), Err(ParseCommandError::InvalidSpeed));
    assert_eq!(Command::parse(&cmds, "flyspeed 5"), Ok(Command::FlySpeed("5".to_string())));
    assert_eq!(Command::parse(&cmds, "flyspeed -2"), Ok(Command::FlySpeed("-2".to_string())));
    assert_eq!(Command::parse(&cmds, "flyspeed"), Ok(Command::FlySpeed("0.05".to_string())));
}

#[test]
fn float_literals_follow_f32_parsing() {
    for s in ["1", "1.", ".5", "-2.5e1", "+3E-2", "inf", "-Infinity", "NaN", "0.05", "007"] {
        assert!(float_ok(s), "{s}");
        assert!(s.parse::<f32>().is_ok(), "{s}");
    }
    for s in ["", ".", "e5", "1e", "1e+", "1.2.3", "abc", "--1", "1x", "infinit", "+"] {
        assert!(!float_ok(s), "{s}");
        assert!(s.parse::<f32>().is_err(), "{s}");
    }
}

#[test]
fn fly_toggle_touches_only_flight() {
    let mut c = ClientState::new();
    c.set_protocol_version(ProtocolVersion::V1_21);
    c.set_entity_id(7);
    let actions = run_command(&mut c, &speed_commands(), &vec![], "fly");
    assert_eq!(actions.len(), 1);
    assert!(matches!(actions[0], CommandAction::Abilities { allow_flying: true, flying: false, .. }));
    assert_eq!(c.entity_id(), 7);
    assert!(c.take_pending_chat_plan().is_none());
}

#[test]
fn chunk_packets_follow_the_spiral_with_light_updates() {
    let mut it = CircularChunkPacketIterator::new((3, 4), 1, ProtocolVersion::V1_17);
    assert_eq!(it.next(), Some(ChunkPacket::ChunkData { chunk_x: 3, chunk_z: 4 }));
    assert_eq!(it.next(), Some(ChunkPacket::LightUpdate { chunk_x: 3, chunk_z: 4 }));
    assert_eq!(it.next(), Some(ChunkPacket::ChunkData { chunk_x: 4, chunk_z: 4 }));
    let mut modern = CircularChunkPacketIterator::new((3, 4), 1, ProtocolVersion::V1_18);
    let spiral = spiral_positions(3, 4, 1);
    for (x, z) in spiral {
        assert_eq!(modern.next(), Some(ChunkPacket::ChunkData { chunk_x: x, chunk_z: z }));
    }
    assert_eq!(modern.next(), None);
}

#[test]
fn spiral_distance_never_decreases() {
    let points = spiral_positions(0, 0, 3);
    assert_eq!(points[0], (0, 0));
    let rings: Vec<i32> = points.iter().map(|(x, y)| x.abs().max(y.abs())).collect();
    assert!(rings.windows(2).all(|w| w[0] <= w[1]));
}

#[test]
fn escaping_is_piecewise_and_counts() {
    let a = "a&<b";
    let b = ">c";
    assert_eq!(
        escape_minimessage_text(&format!("{a}{b}")),
        format!("{}{}", escape_minimessage_text(a), escape_minimessage_text(b))
    );
    assert_eq!(escape_minimessage_text("plain text"), "plain text");
    assert_eq!(escape_minimessage_text("&lt;"), "&amp;lt;");
    assert_eq!(escape_minimessage_text("a&<b>").len(), 5 + 4 + 3 + 3);
}

fn join_session(uuid: u128, name: &str) -> LobbySession {
    LobbySession::new(uuid, name, None, ProtocolVersion::V1_20_3, LobbyPosition::default())
}

fn join_settings() -> JoinSettings {
    JoinSettings {
        game_mode: GameModeConfig::Spectator,
        hardcore: false,
        allow_flight: false,
        view_distance: 0,
        reduced_debug_info: false,
        has_welcome_message: true,
        has_action_bar: false,
        has_tab_list: false,
        title: None,
        has_boss_bar: false,
        player_has_uuid: true,
        time_ticks: 1000,
        time_locked: false,
    }
}

#[test]
fn test_lobby_join_assigns_unique_entity_ids_and_counts_sessions() {
    let mut lobby = LobbyState::new();
    let mut first = ClientState::new();
    first.set_protocol_version(ProtocolVersion::V1_20_3);
    first.set_state(State::Configuration);
    let mut second = ClientState::new();
    second.set_protocol_version(ProtocolVersion::V1_20_3);
    second.set_state(State::Configuration);

    register_lobby_session(&mut first, &mut lobby, join_session(1, "First"));
    let b1 = plan_play_join(&mut first, &join_settings());
    register_lobby_session(&mut second, &mut lobby, join_session(2, "Second"));
    let b2 = plan_play_join(&mut second, &join_settings());

    assert_eq!(first.entity_id(), 1);
    assert_eq!(second.entity_id(), 2);
    assert_eq!(lobby.len(), 2);
    assert!(matches!(b1[0], JoinStep::Login { entity_id: 1, .. }));
    assert!(matches!(b2[0], JoinStep::Login { entity_id: 2, .. }));
    assert!(b1.contains(&JoinStep::WelcomeMessage));
}

#[test]
fn join_newcomer_packets_scale_with_existing_player_count() {
    let mut state = LobbyState::new();
    for uuid in 1..=3u128 {
        state.insert(LobbySession::new(uuid, "p", None, ProtocolVersion::V1_21, LobbyPosition::default()));
    }
    let newcomer = state.insert(LobbySession::new(9, "new", None, ProtocolVersion::V1_21, LobbyPosition::default()));
    let plan = state.plan_join_visibility(newcomer.session_id).unwrap();
    assert_eq!(join_visibility_packets_for_newcomer(&plan, ProtocolVersion::V1_21).len(), 12);
}

#[test]
fn movement_packets_use_legacy_teleport_for_large_delta_on_v1_21() {
    let p = LobbyPosition::new(1, 2, 3, 4, 5);
    assert_eq!(
        movement_visibility_packets(ProtocolVersion::V1_21, EntityId::new(8), p, true, true, None),
        vec![VisibilityPacket::TeleportEntity { entity_id: 8, position: p }]
    );
}

#[test]
fn kick_and_scoreboard_decisions() {
    assert_eq!(kick_outcome(State::Play, true), (true, Some(DisconnectKind::Play)));
    assert_eq!(kick_outcome(State::Status, true), (true, None));
    assert_eq!(kick_outcome(State::Play, false), (false, None));
    assert_eq!(scoreboard_interval_ms(10), 50);
    assert_eq!(scoreboard_interval_ms(1000), 1000);
    let last = vec![(1u64, "a".to_string()), (2u64, "b".to_string())];
    let rendered = vec![(1u64, "a".to_string()), (2u64, "c".to_string()), (3u64, "d".to_string())];
    let (changed, next) = scoreboard_step(&last, &rendered);
    assert_eq!(changed, vec![2, 3]);
    assert_eq!(next, rendered);
}

fn toggle_client(slot: u8) -> ClientState {
    let mut c = ClientState::default();
    c.set_protocol_version(ProtocolVersion::V1_21);
    c.set_selected_hotbar_slot(slot);
    c
}

/// Player-action statuses 3 and 4 drop the held stack or one held item.
fn drops_selected(status: u8) -> bool {
    status == 3 || status == 4
}

const SELECTOR_SLOT: Option<u8> = Some(4);
const TOGGLE_SLOT: Option<u8> = Some(8);

#[test]
fn no_toggle_configured_returns_none() {
    let mut c = toggle_client(8);
    assert!(use_visibility_toggle(&mut c, None).is_none());
    assert!(c.players_visible());
}

#[test]
fn wrong_slot_returns_none() {
    let mut c = toggle_client(4);
    assert!(use_visibility_toggle(&mut c, TOGGLE_SLOT).is_none());
    assert!(c.players_visible());
}

#[test]
fn correct_slot_flips_visibility_and_returns_batch() {
    let mut c = toggle_client(8);
    assert!(c.players_visible());
    let first = use_visibility_toggle(&mut c, TOGGLE_SLOT);
    assert!(first.is_some());
    assert!(!c.players_visible(), "flag must be flipped to false");
    let second = use_visibility_toggle(&mut c, TOGGLE_SLOT);
    assert!(second.is_some());
    assert!(c.players_visible(), "flag must flip back to true");
    assert_eq!(c.protocol_version(), Some(ProtocolVersion::V1_21));
    assert_eq!(c.selected_hotbar_slot(), 8);
}

#[test]
fn drop_selected_protected_slot_resyncs_inventory() {
    let c = toggle_client(4);
    assert!(drop_requires_resync(drops_selected(4), c.selected_hotbar_slot(), SELECTOR_SLOT, TOGGLE_SLOT));
}

#[test]
fn drop_stack_selected_protected_slot_resyncs_inventory() {
    let c = toggle_client(8);
    assert!(drop_requires_resync(drops_selected(3), c.selected_hotbar_slot(), SELECTOR_SLOT, TOGGLE_SLOT));
}

#[test]
fn drop_selected_unprotected_slot_is_ignored() {
    let c = toggle_client(0);
    assert!(!drop_requires_resync(drops_selected(4), c.selected_hotbar_slot(), SELECTOR_SLOT, TOGGLE_SLOT));
}

#[test]
fn non_drop_action_on_protected_slot_is_ignored() {
    let c = toggle_client(4);
    assert!(!drop_requires_resync(drops_selected(0), c.selected_hotbar_slot(), SELECTOR_SLOT, TOGGLE_SLOT));
}

#[test]
fn visibility_toggle_feedback_and_packets() {
    assert_eq!(toggle_feedback(false, &Some("on".to_string()), &Some("off".to_string())), Some("off".to_string()));
    assert_eq!(toggle_feedback(true, &None, &Some("off".to_string())), None);
    let mut state = LobbyState::new();
    state.insert(LobbySession::new(1, "other", None, ProtocolVersion::V1_21, LobbyPosition::default()));
    let me = state.insert(LobbySession::new(2, "me", None, ProtocolVersion::V1_21, LobbyPosition::default()));
    let plan = state.plan_join_visibility(me.session_id).unwrap();
    let hide = visibility_toggle_packets(&plan, ProtocolVersion::V1_21, false);
    assert!(matches!(hide[0], VisibilityPacket::RemoveEntities { entity_id: 1 }));
    assert_eq!(visibility_toggle_packets(&plan, ProtocolVersion::V1_21, true).len(), 4);
}

#[test]
fn toggle_with_server_destinations_includes_no_player_packets_when_lobby_empty() {
    let mut state = LobbyState::new();
    let me = state.insert(LobbySession::new(1, "Steve", None, ProtocolVersion::V1_21, LobbyPosition::default()));
    let plan = state.plan_join_visibility(me.session_id).unwrap();
    let hide = visibility_toggle_packets(&plan, ProtocolVersion::V1_21, false);
    let has_remove = hide.iter().any(|p| matches!(p, VisibilityPacket::RemoveEntities { .. }));
    assert!(!has_remove, "no other players to remove");
}

#[test]
fn lobby_features_follow_the_lobby_switch() {
    let selector = pico_limbo::config::SelectorItemConfig::default();
    let (npcs, sel) = pico_limbo::config::lobby_features(true, vec![1, 2], Some(selector.clone()));
    assert_eq!(npcs, vec![1, 2]);
    assert_eq!(sel.map(|s| s.slot), Some(selector.slot));
    let (npcs, sel) = pico_limbo::config::lobby_features(false, vec![1, 2], Some(selector));
    assert!(npcs.is_empty());
    assert!(sel.is_none());
}
