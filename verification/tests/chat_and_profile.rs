use pico_limbo::chat::{
    chat_packet_kind, format_lobby_chat, format_lobby_lifecycle_message, format_private_message_for_recipient,
    format_private_message_for_sender, private_message_packets_for_plan, ChatPacketKind,
};
use pico_limbo::config::{AntispamConfig, DEFAULT_CHAT_ANTISPAM_MESSAGE, DEFAULT_CHAT_COOLDOWN_MS};
use pico_limbo::lobby::{EntityId, LobbyPrivateMessagePlan, LobbyRecipient, LobbySessionId};
use pico_limbo::profile::{check_response, snippet, Profile, ProfileError, ProfileProperty};
use pico_limbo::protocol::ProtocolVersion;
use pico_limbo::text::escape_minimessage_text;

fn dm_plan() -> LobbyPrivateMessagePlan {
    LobbyPrivateMessagePlan {
        sender_session_id: LobbySessionId::new(1),
        recipient_session_id: LobbySessionId::new(2),
        sender_username: "Sender".to_string(),
        recipient_username: "Recipient".to_string(),
        message: "hello".to_string(),
        sender_format: "<gray>[me -> {recipient}]</gray> <white>{message}</white>".to_string(),
        recipient_format: "<gray>[{sender} -> me]</gray> <white>{message}</white>".to_string(),
        sender_recipient: LobbyRecipient {
            session_id: LobbySessionId::new(1),
            uuid: 1,
            entity_id: EntityId::new(1),
            protocol_version: ProtocolVersion::V1_18_2,
        },
        message_recipient: LobbyRecipient {
            session_id: LobbySessionId::new(2),
            uuid: 2,
            entity_id: EntityId::new(2),
            protocol_version: ProtocolVersion::V1_19,
        },
    }
}

#[test]
fn default_antispam_config_matches_basic_chat_limit() {
    let config = AntispamConfig::default();

    assert!(config.enabled);
    assert_eq!(config.chat_cooldown_ms, DEFAULT_CHAT_COOLDOWN_MS);
    assert_eq!(config.message, DEFAULT_CHAT_ANTISPAM_MESSAGE);
}

#[test]
fn disabled_antispam_keeps_default_limits() {
    let config = AntispamConfig::disabled();
    assert!(!config.enabled);
    assert_eq!(config.chat_cooldown_ms, 750);
}

#[test]
fn chat_packet_version_dispatch() {
    assert_eq!(chat_packet_kind(ProtocolVersion::V1_18_2), ChatPacketKind::LegacyChat);
    assert_eq!(chat_packet_kind(ProtocolVersion::V1_19), ChatPacketKind::SystemChat);
}

#[test]
fn sender_name_appears_in_chat_output() {
    let text = format_lobby_chat("Steve", "hello", "<white>&lt;{sender}&gt; {message}</white>");

    assert!(text.contains("Steve"), "sender name must appear in output");
    assert!(text.contains("hello"), "message must appear in output");
}

#[test]
fn user_text_does_not_become_minimessage_markup() {
    let text = format_lobby_chat("sender", "<red>hello</red>", "<white>&lt;{sender}&gt; {message}</white>");

    assert!(!text.contains("<red>"));
    assert_eq!(text, "<white>&lt;sender&gt; &lt;red&gt;hello&lt;/red&gt;</white>");
}

#[test]
fn private_message_views_contain_expected_names_and_message() {
    let plan = dm_plan();

    let sender_text = format_private_message_for_sender(&plan);
    let recipient_text = format_private_message_for_recipient(&plan);

    assert!(sender_text.contains("Recipient"));
    assert!(sender_text.contains("hello"));
    assert!(recipient_text.contains("Sender"));
    assert!(recipient_text.contains("hello"));
    assert_eq!(sender_text, "<gray>[me -> Recipient]</gray> <white>hello</white>");
    assert_eq!(recipient_text, "<gray>[Sender -> me]</gray> <white>hello</white>");
}

#[test]
fn private_message_user_text_does_not_become_minimessage_markup() {
    let mut plan = dm_plan();
    plan.sender_username = "<red>Sender</red>".to_string();
    plan.message = "<red>hello</red>".to_string();

    assert!(!format_private_message_for_sender(&plan).contains("<red>"));
    assert!(!format_private_message_for_recipient(&plan).contains("<red>"));
}

#[test]
fn private_message_packets_use_recipient_versions() {
    let packets = private_message_packets_for_plan(&dm_plan());

    assert_eq!(packets[0].0.kind, ChatPacketKind::LegacyChat);
    assert_eq!(packets[1].0.kind, ChatPacketKind::SystemChat);
    assert_eq!(packets[0].0.recipient.session_id, LobbySessionId::new(1));
}

#[test]
fn lifecycle_player_name_does_not_become_minimessage_markup() {
    let text = format_lobby_lifecycle_message("<red>Steve</red>", "<yellow>{player} joined the game</yellow>");

    assert!(text.contains("Steve"));
    assert!(!text.contains("<red>"));
}

#[test]
fn escape_handles_ampersand_first() {
    assert_eq!(escape_minimessage_text("a&<b>"), "a&amp;&lt;b&gt;");
}

#[test]
fn snippet_reports_empty_body() {
    assert_eq!(snippet("   \n  "), "<empty>");
}

#[test]
fn snippet_truncates_long_body() {
    let body = "x".repeat(500);
    let out = snippet(&body);
    assert!(out.ends_with('…'));
    assert_eq!(out.chars().filter(|c| *c == 'x').count(), 200);
}

#[test]
fn snippet_keeps_short_body_verbatim() {
    assert_eq!(snippet("  {\"error\":\"x\"}  "), "{\"error\":\"x\"}");
}

#[test]
fn status_error_shows_code_and_body() {
    let err = ProfileError::Status { status: 429, body: "<empty>".to_string() };
    assert_eq!(err.message(), "Mojang returned HTTP 429 (body: <empty>)");
}

#[test]
fn failed_status_is_reported_with_snippet() {
    match check_response(503, "  busy  ") {
        Err(ProfileError::Status { status, body }) => {
            assert_eq!(status, 503);
            assert_eq!(body, "busy");
        }
        _ => panic!("expected a status error"),
    }
    assert!(check_response(200, "{}").is_ok());
}

#[test]
fn textures_property_is_found_among_others() {
    let profile = Profile {
        properties: vec![
            ProfileProperty { name: "other".to_string(), value: "a".to_string(), signature: None },
            ProfileProperty { name: "textures".to_string(), value: "b".to_string(), signature: Some("s".to_string()) },
        ],
    };
    let t = profile.try_get_textures().unwrap();
    assert_eq!(t.value, "b");
    assert_eq!(t.signature.as_deref(), Some("s"));
    assert!(Profile { properties: vec![] }.try_get_textures().is_none());
}
