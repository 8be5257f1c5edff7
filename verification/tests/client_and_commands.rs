use pico_limbo::client::{ClientState, KeepAliveStatus};
use pico_limbo::commands::{Command, ParseCommandError};
use pico_limbo::config::{GameModeConfig, ScoreboardConfig, ScoreboardEnabledMode, SelectorItemConfig, TimeConfig};
use pico_limbo::join::{login_shape, plan_play_join, JoinSettings, JoinStep, LoginShape};
use pico_limbo::lobby::{LobbyPosition, LobbySession, LobbyState};
use pico_limbo::navigation::LobbyDestination;
use pico_limbo::play::{handle_chat_message, run_command, CommandAction};
use pico_limbo::protocol::{ProtocolVersion, State};
use pico_limbo::server_commands::ServerCommands;

fn commands() -> ServerCommands {
    ServerCommands::new(
        "spawn".to_string(),
        "fly".to_string(),
        "flyspeed".to_string(),
        "transfer".to_string(),
        "server".to_string(),
    )
}

fn play_client(version: ProtocolVersion) -> ClientState {
    let mut c = ClientState::new();
    c.set_protocol_version(version);
    c
}

#[test]
fn window_ids_wrap_from_200_to_1() {
    let mut c = ClientState::new();
    let mut last = 0u8;
    for expected in 1..=200u8 {
        last = c.allocate_window_id();
        assert_eq!(last, expected);
    }
    assert_eq!(last, 200);
    assert_eq!(c.allocate_window_id(), 1);
}

#[test]
fn toggling_visibility_twice_restores_it() {
    let mut c = ClientState::new();
    assert!(c.players_visible());
    assert!(!c.toggle_players_visible());
    assert!(c.toggle_players_visible());
}

#[test]
fn keep_alive_only_moves_forward() {
    let mut c = ClientState::new();
    assert!(!c.should_enable_keep_alive());
    c.set_keep_alive_enabled();
    assert!(!c.should_enable_keep_alive());
    c.set_keep_alive_should_enable();
    assert!(c.should_enable_keep_alive());
    c.set_keep_alive_enabled();
    assert!(!c.should_enable_keep_alive());
    c.set_keep_alive_should_enable();
    assert!(!c.should_enable_keep_alive());
    let _ = KeepAliveStatus::Enabled;
}

#[test]
fn chat_rate_limit_spacing() {
    let mut c = ClientState::new();
    assert!(c.check_chat_rate_limit(750, 1_000));
    assert!(!c.check_chat_rate_limit(750, 1_500));
    assert!(c.check_chat_rate_limit(750, 1_750));
}

#[test]
fn kick_message_is_kept() {
    let mut c = ClientState::new();
    assert!(c.should_kick().is_none());
    c.kick("bye");
    assert_eq!(c.should_kick().as_deref(), Some("bye"));
}

#[test]
fn command_parsing_uses_defaults() {
    let cmds = commands();
    assert_eq!(Command::parse(&cmds, "flyspeed"), Ok(Command::FlySpeed("0.05".to_string())));
    assert_eq!(Command::parse(&cmds, "transfer example.org"), Ok(Command::Transfer("example.org".to_string(), 25565)));
    assert_eq!(Command::parse(&cmds, "transfer example.org 25570"), Ok(Command::Transfer("example.org".to_string(), 25570)));
    assert_eq!(Command::parse(&cmds, "  "), Err(ParseCommandError::Empty));
    assert_eq!(Command::parse(&cmds, "transfer"), Err(ParseCommandError::InvalidHost));
    assert_eq!(Command::parse(&cmds, "transfer host port"), Err(ParseCommandError::InvalidPort));
    assert_eq!(Command::parse(&cmds, "server"), Err(ParseCommandError::MissingDestinationId));
    assert_eq!(Command::parse(&cmds, "dance"), Err(ParseCommandError::Unknown));
}

#[test]
fn disabled_command_is_unknown() {
    let cmds = ServerCommands::new(String::new(), "fly".to_string(), String::new(), String::new(), String::new());
    assert_eq!(Command::parse(&cmds, "spawn"), Err(ParseCommandError::Unknown));
    assert_eq!(Command::parse(&cmds, "fly"), Ok(Command::Fly));
}

#[test]
fn fly_command_toggles_flight() {
    let mut c = play_client(ProtocolVersion::V1_21);
    let actions = run_command(&mut c, &commands(), &vec![], "fly");
    assert!(matches!(actions[0], CommandAction::Abilities { allow_flying: true, flying: false, .. }));
    assert!(c.is_flight_allowed());
    assert!(c.is_flying());
    let actions = run_command(&mut c, &commands(), &vec![], "fly");
    assert!(matches!(actions[0], CommandAction::Abilities { allow_flying: false, flying: false, .. }));
    assert!(!c.is_flight_allowed());
}

#[test]
fn transfer_needs_recent_client() {
    let mut old = play_client(ProtocolVersion::V1_20_3);
    assert!(run_command(&mut old, &commands(), &vec![], "transfer host 1").is_empty());
    let mut new = play_client(ProtocolVersion::V1_20_5);
    let actions = run_command(&mut new, &commands(), &vec![], "transfer host 1");
    assert!(matches!(&actions[0], CommandAction::Transfer { host, port: 1 } if host == "host"));
}

#[test]
fn server_command_connects_or_reports() {
    let mut c = play_client(ProtocolVersion::V1_21);
    let dests = vec![LobbyDestination::new("survival", "Survival", "surv-1")];
    let actions = run_command(&mut c, &commands(), &dests, "server survival");
    assert!(matches!(&actions[0], CommandAction::Connect { server } if server == "surv-1"));
    let actions = run_command(&mut c, &commands(), &dests, "server creative");
    assert!(matches!(&actions[0], CommandAction::Feedback { message } if message == "Unknown server: creative"));
    assert!(run_command(&mut c, &commands(), &dests, "unknown").is_empty());
}

fn lobby_with(client: &mut ClientState) -> LobbyState {
    let mut lobby = LobbyState::new();
    let s = lobby.insert(LobbySession::new(
        1,
        "TestPlayer",
        None,
        ProtocolVersion::V1_20_5,
        LobbyPosition::default(),
    ));
    client.set_lobby_session_id(s.session_id);
    lobby
}

#[test]
fn overlong_message_does_not_broadcast() {
    let mut client = play_client(ProtocolVersion::V1_20_5);
    let lobby = lobby_with(&mut client);
    let long_message = "a".repeat(257);

    let feedback = handle_chat_message(&mut client, &lobby, &long_message, 0);

    assert_eq!(feedback.as_deref(), Some("Chat message is too long."));
    assert!(client.take_pending_chat_plan().is_none());
}

#[test]
fn rate_limited_second_message_does_not_broadcast() {
    let mut client = play_client(ProtocolVersion::V1_20_5);
    let lobby = lobby_with(&mut client);

    assert!(handle_chat_message(&mut client, &lobby, "first", 10_000).is_none());
    assert!(client.take_pending_chat_plan().is_some());

    let feedback = handle_chat_message(&mut client, &lobby, "second", 10_100);

    assert_eq!(feedback.as_deref(), Some("You are sending messages too quickly."));
    assert!(client.take_pending_chat_plan().is_none());
}

#[test]
fn command_does_not_broadcast_as_chat() {
    let mut client = play_client(ProtocolVersion::V1_20_5);
    let _lobby = lobby_with(&mut client);

    let actions = run_command(&mut client, &commands(), &vec![], "spawn");

    assert!(matches!(actions[0], CommandAction::TeleportToSpawn));
    assert!(client.take_pending_chat_plan().is_none());
}

fn settings() -> JoinSettings {
    JoinSettings {
        game_mode: GameModeConfig::Spectator,
        hardcore: false,
        allow_flight: false,
        view_distance: 2,
        reduced_debug_info: false,
        has_welcome_message: false,
        has_action_bar: false,
        has_tab_list: false,
        title: None,
        has_boss_bar: false,
        player_has_uuid: true,
        time_ticks: 1000,
        time_locked: false,
    }
}

#[test]
fn join_sequence_for_modern_client() {
    let mut c = play_client(ProtocolVersion::V1_21);
    let steps = plan_play_join(&mut c, &settings());
    assert!(matches!(steps[0], JoinStep::Login { shape: LoginShape::DimensionIndex, game_mode: GameModeConfig::Spectator, .. }));
    assert_eq!(steps.last(), Some(&JoinStep::Chunks));
    assert!(steps.contains(&JoinStep::StartWaitingForChunks));
    assert!(!steps.contains(&JoinStep::Brand));
    assert_eq!(c.state(), State::Play);
    assert!(c.should_enable_keep_alive());
    assert!(c.is_flying());
}

#[test]
fn join_sequence_for_oldest_client_uses_creative() {
    let mut c = play_client(ProtocolVersion::V1_7_2);
    let steps = plan_play_join(&mut c, &settings());
    assert!(matches!(steps[0], JoinStep::Login { shape: LoginShape::PreV1_16Dimension, game_mode: GameModeConfig::Creative, .. }));
    assert!(!steps.contains(&JoinStep::Chunks));
    assert!(!steps.contains(&JoinStep::SkinLayers));
    assert!(!c.is_flying());
}

#[test]
fn login_shapes_by_version() {
    assert_eq!(login_shape(ProtocolVersion::V1_16_1), LoginShape::RegistryCodec);
    assert_eq!(login_shape(ProtocolVersion::V1_18_2), LoginShape::DimensionCodec);
    assert_eq!(login_shape(ProtocolVersion::V1_20), LoginShape::RegistryCodec);
    assert_eq!(login_shape(ProtocolVersion::V1_20_3), LoginShape::PostV1_20_2);
}

#[test]
fn configuration_defaults() {
    let sb = ScoreboardConfig::default();
    assert_eq!(sb.enabled, ScoreboardEnabledMode::Lobby);
    assert_eq!(sb.title, "<bold>PicoLobby</bold>");
    assert_eq!(sb.update_interval_ms, 1000);
    assert_eq!(sb.lines.len(), 3);
    let sel = SelectorItemConfig::default();
    assert_eq!(sel.slot, 4);
    assert_eq!(sel.item, "minecraft:compass");
    assert_eq!(GameModeConfig::default(), GameModeConfig::Spectator);
}

#[test]
fn scoreboard_modes() {
    assert!(ScoreboardEnabledMode::Lobby.should_send(true));
    assert!(!ScoreboardEnabledMode::Lobby.should_send(false));
    assert!(ScoreboardEnabledMode::Always.should_send(false));
    assert!(!ScoreboardEnabledMode::Never.should_send(true));
    assert_eq!(ScoreboardEnabledMode::from_config_str("lobby"), Ok(ScoreboardEnabledMode::Lobby));
    assert_eq!(ScoreboardEnabledMode::from_config_str("yes"), Err("expected \"lobby\", true, or false".to_string()));
}

#[test]
fn time_names_ignore_case() {
    assert_eq!(TimeConfig::parse("NIGHT"), Ok(TimeConfig::Night));
    assert_eq!(TimeConfig::parse("Midnight"), Ok(TimeConfig::Midnight));
    assert_eq!(TimeConfig::parse("dusk"), Err("Invalid time config: dusk".to_string()));
    assert_eq!(TimeConfig::Noon.ticks(), 6000);
    assert_eq!(TimeConfig::Ticks(42).ticks(), 42);
}
