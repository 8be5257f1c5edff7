use pico_limbo::bench::{escape_minimessage, private_message_packets};
use pico_limbo::client::ClientState;
use pico_limbo::connection::{
    disconnect_kind, first_play_packet, join_bookkeeping, leave_bookkeeping, version_buckets, DisconnectKind,
    JoinBookkeeping, LeaveBookkeeping,
};
use pico_limbo::join::{advertised_commands, handle_login_acknowledged, AdvertisedCommand, ConfigStep};
use pico_limbo::lobby::{EntityId, LobbyNpcInteraction, LobbyNpcId, LobbyRecipient, LobbySessionId};
use pico_limbo::navigation::LobbyDestination;
use pico_limbo::play::{answer_npc_interaction, CommandAction};
use pico_limbo::profile::{player_textures, unresolved_player_message, Profile, ProfileError};
use pico_limbo::protocol::{ProtocolVersion, State};
use pico_limbo::server_commands::ServerCommands;

fn bucket_recipient(id: u64, version: ProtocolVersion) -> LobbyRecipient {
    LobbyRecipient {
        session_id: LobbySessionId::new(id),
        uuid: id as u128,
        entity_id: EntityId::new(id as i32),
        protocol_version: version,
    }
}

#[test]
fn recipients_are_bucketed_by_version_in_order() {
    let recipients = vec![
        bucket_recipient(1, ProtocolVersion::V1_21),
        bucket_recipient(2, ProtocolVersion::V1_8),
        bucket_recipient(3, ProtocolVersion::V1_21),
        bucket_recipient(4, ProtocolVersion::V1_8),
    ];
    let connected = vec![LobbySessionId::new(1), LobbySessionId::new(3), LobbySessionId::new(4)];
    let buckets = version_buckets(&recipients, &connected);
    assert_eq!(buckets.len(), 2);
    let modern = buckets.iter().find(|b| b.version == ProtocolVersion::V1_21).unwrap();
    assert_eq!(modern.sessions, vec![LobbySessionId::new(1), LobbySessionId::new(3)]);
    let legacy = buckets.iter().find(|b| b.version == ProtocolVersion::V1_8).unwrap();
    assert_eq!(legacy.sessions, vec![LobbySessionId::new(4)]);
    assert!(version_buckets(&recipients, &vec![]).is_empty());
}

#[test]
fn disconnect_packets_by_phase() {
    assert_eq!(disconnect_kind(State::Login), Some(DisconnectKind::Login));
    assert_eq!(disconnect_kind(State::Play), Some(DisconnectKind::Play));
    assert_eq!(disconnect_kind(State::Handshake), None);
    assert_eq!(disconnect_kind(State::Status), None);
}

#[test]
fn first_play_packet_is_seen_once() {
    let mut was = false;
    assert!(!first_play_packet(&mut was, State::Configuration));
    assert!(first_play_packet(&mut was, State::Play));
    assert!(was);
    assert!(!first_play_packet(&mut was, State::Play));
}

#[test]
fn join_and_leave_bookkeeping() {
    let sid = LobbySessionId::new(5);
    assert_eq!(join_bookkeeping(false, Some(sid)), JoinBookkeeping::CountPlayer);
    assert_eq!(join_bookkeeping(true, Some(sid)), JoinBookkeeping::RegisterLobbySession(sid));
    assert_eq!(join_bookkeeping(true, None), JoinBookkeeping::Nothing);
    assert_eq!(leave_bookkeeping(false, true, Some(sid)), LeaveBookkeeping::Nothing);
    assert_eq!(leave_bookkeeping(true, true, Some(sid)), LeaveBookkeeping::LeaveLobby(Some(sid)));
    assert_eq!(leave_bookkeeping(true, false, None), LeaveBookkeeping::UncountPlayer);
}

fn config_client(version: ProtocolVersion) -> ClientState {
    let mut c = ClientState::new();
    c.set_protocol_version(version);
    c.set_state(State::Login);
    c
}

#[test]
fn test_login_ack_supported_protocol() {
    let mut c = config_client(ProtocolVersion::V1_20_2);
    let steps = handle_login_acknowledged(&mut c).unwrap();
    assert_eq!(steps, vec![ConfigStep::Brand, ConfigStep::RegistryCodec, ConfigStep::FinishConfiguration]);
    assert_eq!(c.state(), State::Configuration);
}

#[test]
fn test_login_ack_unsupported_protocol() {
    let mut c = config_client(ProtocolVersion::V1_20);
    assert_eq!(
        handle_login_acknowledged(&mut c),
        Err("Configuration state not supported for this version".to_string())
    );
    assert_eq!(c.state(), State::Login);
}

#[test]
fn test_configuration_packets_v1_21_request_known_packs() {
    let mut c = config_client(ProtocolVersion::V1_21);
    assert_eq!(handle_login_acknowledged(&mut c).unwrap(), vec![ConfigStep::Brand, ConfigStep::KnownPacks]);
    let mut c = config_client(ProtocolVersion::V1_20_5);
    assert_eq!(
        handle_login_acknowledged(&mut c).unwrap(),
        vec![ConfigStep::Brand, ConfigStep::RegistryDataPerRegistry, ConfigStep::FinishConfiguration]
    );
}

#[test]
fn transfer_is_advertised_from_1_20_5() {
    let cmds = ServerCommands::new(
        "spawn".to_string(),
        String::new(),
        "flyspeed".to_string(),
        "transfer".to_string(),
        String::new(),
    );
    assert_eq!(
        advertised_commands(ProtocolVersion::V1_20_3, &cmds),
        vec![
            AdvertisedCommand::NoArguments { alias: "spawn".to_string() },
            AdvertisedCommand::FlySpeed { alias: "flyspeed".to_string() },
        ]
    );
    assert_eq!(advertised_commands(ProtocolVersion::V1_21, &cmds).len(), 3);
}

#[test]
fn npc_interaction_connects_or_reports() {
    let dests = vec![LobbyDestination::new("survival", "Survival", "surv")];
    let known = LobbyNpcInteraction { npc_id: LobbyNpcId::new("npc"), destination_id: "survival".to_string() };
    assert!(matches!(answer_npc_interaction(&dests, &known), CommandAction::Connect { server } if server == "surv"));
    let unknown = LobbyNpcInteraction { npc_id: LobbyNpcId::new("npc"), destination_id: "void".to_string() };
    assert!(matches!(answer_npc_interaction(&dests, &unknown), CommandAction::Feedback { message } if message == "Unknown server: void"));
}

#[test]
fn missing_textures_and_unresolved_players_are_explained() {
    let empty = Profile { properties: vec![] };
    assert_eq!(player_textures(&empty, "Steve").unwrap_err(), "player 'Steve' has no textures");
    let err = ProfileError::Request("timeout".to_string());
    assert_eq!(unresolved_player_message("Steve", &err), "could not resolve player 'Steve': request failed: timeout");
}

#[test]
fn workloads_measure_what_they_name() {
    assert_eq!(private_message_packets(), 2);
    assert_eq!(escape_minimessage(), "&lt;red&gt;Alice &amp; Bob&lt;/red&gt; &gt; lobby".len());
}
