use pico_limbo::lobby::{
    ChatVisibility, EntityId, LobbyNpc, LobbyNpcValidationError, LobbyPosition,
    LobbyPrivateMessageError, LobbyRecipient, LobbySession, LobbySessionId, LobbyState,
};
use pico_limbo::protocol::ProtocolVersion;

fn pos(x: f64, y: f64, z: f64, yaw: f32, pitch: f32) -> LobbyPosition {
    LobbyPosition::new(x.to_bits(), y.to_bits(), z.to_bits(), yaw.to_bits(), pitch.to_bits())
}

fn session(uuid: u128, username: &str) -> LobbySession {
    LobbySession::new(uuid, username, None, ProtocolVersion::V1_20_5, pos(1.0, 2.0, 3.0, 90.0, 45.0))
}

fn npc(id: &str, destination: &str, x: f64) -> LobbyNpc {
    LobbyNpc::player(id, destination, id, pos(x, 64.0, 0.0, 180.0, 0.0))
}

fn recipient(s: &LobbySession, version: ProtocolVersion) -> LobbyRecipient {
    LobbyRecipient { session_id: s.session_id, uuid: s.uuid, entity_id: s.entity_id, protocol_version: version }
}

#[test]
fn allocates_unique_entity_ids() {
    let mut state = LobbyState::new();
    let first = state.insert(session(1, "first"));
    let second = state.insert(session(2, "second"));

    assert_ne!(first.entity_id, second.entity_id);
    assert_eq!(first.entity_id.get(), 1);
    assert_eq!(second.entity_id.get(), 2);
}

#[test]
fn npc_entity_ids_do_not_collide_with_players() {
    let mut state = LobbyState::with_npcs(vec![npc("survival-npc", "survival", 0.0)]);
    let first_player = state.insert(session(1, "player"));
    let npc_spawn_plan = state.plan_npc_spawn();

    assert_eq!(npc_spawn_plan.npcs.len(), 1);
    assert_ne!(npc_spawn_plan.npcs[0].entity_id, first_player.entity_id);
    assert_eq!(npc_spawn_plan.npcs[0].entity_id.get(), 1);
    assert_eq!(first_player.entity_id.get(), 2);
}

#[test]
fn npc_validation_rejects_duplicate_ids() {
    let err = LobbyState::validate_npcs(&[npc("duplicate", "survival", 0.0), npc("duplicate", "creative", 1.0)])
        .unwrap_err();

    assert_eq!(err, LobbyNpcValidationError::DuplicateId("duplicate".to_string()));
}

#[test]
fn removal_cleans_all_indexes() {
    let mut state = LobbyState::new();
    let uuid = 1u128;

    let inserted = state.insert(session(uuid, "player"));
    assert!(state.remove_by_uuid(uuid).is_some());
    assert!(state.session_by_uuid(uuid).is_none());
    assert!(state.session_by_entity_id(inserted.entity_id).is_none());
    assert!(state.session_by_session_id(inserted.session_id).is_none());
    assert!(state.is_empty());

    let inserted = state.insert(session(uuid, "player"));
    let removed = state.remove_by_session_id(inserted.session_id);
    assert_eq!(removed.unwrap().uuid, inserted.uuid);
    assert!(state.session_by_uuid(inserted.uuid).is_none());
    assert!(state.session_by_entity_id(inserted.entity_id).is_none());
    assert!(state.session_by_session_id(inserted.session_id).is_none());
    assert!(state.is_empty());
}

#[test]
fn removing_missing_session_is_harmless() {
    let mut state = LobbyState::new();

    assert!(state.remove_by_uuid(1).is_none());
    assert!(state.remove_by_session_id(LobbySessionId::new(1)).is_none());
    assert!(state.remove_by_entity_id(EntityId::new(1)).is_none());
}

#[test]
fn duplicate_uuid_replaces_entity_index() {
    let mut state = LobbyState::new();
    let first = state.insert(session(1, "first"));
    let second = state.insert(session(1, "second"));

    assert_ne!(first.entity_id, second.entity_id);
    assert_ne!(first.session_id, second.session_id);
    assert!(state.session_by_entity_id(first.entity_id).is_none());
    assert!(state.session_by_session_id(first.session_id).is_none());
    assert_eq!(state.session_by_entity_id(second.entity_id).unwrap().username, "second");
    assert_eq!(state.len(), 1);
}

#[test]
fn stale_session_id_does_not_remove_replacement() {
    let mut state = LobbyState::new();
    let first = state.insert(session(1, "first"));
    let second = state.insert(session(1, "second"));

    assert!(state.remove_by_session_id(first.session_id).is_none());
    assert_eq!(state.len(), 1);
    assert_eq!(state.session_by_session_id(second.session_id).unwrap().username, "second");
}

#[test]
fn leave_plan_removes_departed_player_before_collecting_recipients() {
    let mut state = LobbyState::new();
    let first = state.insert(session(1, "first"));
    let second = state.insert(session(2, "second"));
    let third = state.insert(session(3, "third"));

    let plan = state.remove_by_session_id_with_leave_plan(second.session_id).unwrap();

    assert_eq!(plan.departed_uuid, second.uuid);
    assert_eq!(plan.departed_username, "second");
    assert_eq!(plan.departed_entity_id, second.entity_id);
    assert_eq!(state.len(), 2);
    assert!(state.session_by_uuid(second.uuid).is_none());
    assert!(!plan.recipients.iter().any(|recipient| recipient.session_id == second.session_id));
    assert_eq!(
        plan.recipients,
        vec![recipient(&first, ProtocolVersion::V1_20_5), recipient(&third, ProtocolVersion::V1_20_5)]
    );
}

#[test]
fn recipient_planning_can_exclude_sender_session() {
    let mut state = LobbyState::new();
    state.insert(session(1, "first"));
    let second = state.insert(session(2, "second"));

    let first_session_id = state.session_by_uuid(1).unwrap().session_id;
    let recipients = state.plan_recipients(Some(first_session_id));

    assert_eq!(recipients, vec![recipient(&second, ProtocolVersion::V1_20_5)]);
}

#[test]
fn chat_plan_visibility_rules() {
    assert_eq!(ChatVisibility::from_client_mode(0), ChatVisibility::Full);
    assert_eq!(ChatVisibility::from_client_mode(1), ChatVisibility::CommandsOnly);
    assert_eq!(ChatVisibility::from_client_mode(2), ChatVisibility::Hidden);
    assert_eq!(ChatVisibility::from_client_mode(99), ChatVisibility::Unknown);

    let mut state = LobbyState::new();
    let sender = state.insert(session(1, "sender"));
    let visible = state.insert(session(2, "visible"));
    let hidden = state.insert(session(3, "hidden"));

    state.update_chat_visibility(visible.session_id, ChatVisibility::Full);
    state.update_chat_visibility(hidden.session_id, ChatVisibility::Hidden);

    let plan = state.plan_chat_broadcast(sender.session_id, "hello".to_string()).expect("chat plan");

    assert_eq!(plan.sender_session_id, sender.session_id);
    assert_eq!(plan.sender_username, "sender");
    assert_eq!(plan.message, "hello");
    assert!(plan.recipients.iter().any(|r| r.session_id == sender.session_id));
    assert!(plan.recipients.iter().any(|r| r.session_id == visible.session_id));
    assert!(!plan.recipients.iter().any(|r| r.session_id == hidden.session_id));
}

#[test]
fn private_message_exact_ignore_case_match_succeeds() {
    let mut state = LobbyState::new();
    let sender = state.insert(session(1, "Sender"));
    state.insert(session(2, "Steve"));

    let plan = state
        .plan_private_message(
            sender.session_id,
            "steve",
            "hello".to_string(),
            "to {recipient}: {message}".to_string(),
            "from {sender}: {message}".to_string(),
        )
        .unwrap();

    assert_eq!(plan.sender_username, "Sender");
    assert_eq!(plan.recipient_username, "Steve");
    assert_eq!(plan.message, "hello");
}

fn private(state: &mut LobbyState, sender: LobbySessionId, target: &str) -> Result<LobbySessionId, LobbyPrivateMessageError> {
    state
        .plan_private_message(sender, target, "hello".to_string(), String::new(), String::new())
        .map(|plan| plan.recipient_session_id)
}

#[test]
fn private_message_unknown_self_hidden_and_ambiguous_targets_fail() {
    let mut state = LobbyState::new();
    let sender = state.insert(session(1, "Sender"));
    let hidden = state.insert(session(2, "Hidden"));
    state.update_chat_visibility(hidden.session_id, ChatVisibility::Hidden);
    state.insert(session(3, "Dupe"));
    state.insert(session(4, "dupe"));

    assert_eq!(private(&mut state, sender.session_id, "Nobody").unwrap_err(), LobbyPrivateMessageError::UnknownTarget);
    assert_eq!(private(&mut state, sender.session_id, "Sender").unwrap_err(), LobbyPrivateMessageError::SelfMessage);
    assert_eq!(private(&mut state, sender.session_id, "Hidden").unwrap_err(), LobbyPrivateMessageError::HiddenTarget);
    assert_eq!(private(&mut state, sender.session_id, "DUPE").unwrap_err(), LobbyPrivateMessageError::AmbiguousTarget);
}

#[test]
fn commands_only_target_receives_private_message() {
    let mut state = LobbyState::new();
    let sender = state.insert(session(1, "Sender"));
    let target = state.insert(session(2, "Target"));
    state.update_chat_visibility(target.session_id, ChatVisibility::CommandsOnly);

    assert_eq!(private(&mut state, sender.session_id, "Target").unwrap(), target.session_id);
}

#[test]
fn successful_private_message_updates_reply_for_both_players() {
    let mut state = LobbyState::new();
    let sender = state.insert(session(1, "Sender"));
    let target = state.insert(session(2, "Target"));

    private(&mut state, sender.session_id, "Target").unwrap();
    let reply = state
        .plan_reply_message(target.session_id, "back".to_string(), String::new(), String::new())
        .unwrap();

    assert_eq!(reply.sender_session_id, target.session_id);
    assert_eq!(reply.recipient_session_id, sender.session_id);
}

#[test]
fn reply_to_offline_peer_fails_without_changing_reply_state() {
    let mut state = LobbyState::new();
    let sender = state.insert(session(1, "Sender"));
    let target = state.insert(session(2, "Target"));
    let other = state.insert(session(3, "Other"));

    private(&mut state, sender.session_id, "Target").unwrap();
    state.remove_by_session_id(sender.session_id);
    assert_eq!(
        state
            .plan_reply_message(target.session_id, "back".to_string(), String::new(), String::new())
            .unwrap_err(),
        LobbyPrivateMessageError::MissingReplyTarget
    );

    private(&mut state, other.session_id, "Target").unwrap();
    let reply = state
        .plan_reply_message(target.session_id, "back".to_string(), String::new(), String::new())
        .unwrap();
    assert_eq!(reply.recipient_session_id, other.session_id);
}

#[test]
fn lifecycle_message_plan_uses_chat_visibility_rules() {
    let mut state = LobbyState::new();
    let joining = state.insert(session(1, "joining"));
    let visible = state.insert(session(2, "visible"));
    let hidden = state.insert(session(3, "hidden"));

    state.update_chat_visibility(joining.session_id, ChatVisibility::Full);
    state.update_chat_visibility(visible.session_id, ChatVisibility::CommandsOnly);
    state.update_chat_visibility(hidden.session_id, ChatVisibility::Hidden);

    let plan = state
        .plan_lifecycle_message(joining.session_id, "{player} joined".to_string())
        .expect("lifecycle plan");

    assert_eq!(plan.player_username, "joining");
    assert_eq!(plan.template, "{player} joined");
    assert!(plan.recipients.iter().any(|r| r.session_id == joining.session_id));
    assert!(plan.recipients.iter().any(|r| r.session_id == visible.session_id));
    assert!(!plan.recipients.iter().any(|r| r.session_id == hidden.session_id));
}

#[test]
fn leave_plan_message_recipients_exclude_departed_player() {
    let mut state = LobbyState::new();
    let departing = state.insert(session(1, "departing"));
    let remaining = state.insert(session(2, "remaining"));

    state.update_chat_visibility(remaining.session_id, ChatVisibility::Full);

    let plan = state.remove_by_session_id_with_leave_plan(departing.session_id).expect("leave plan");

    assert_eq!(plan.departed_username, "departing");
    assert!(!plan.lifecycle_message_recipients.iter().any(|r| r.session_id == departing.session_id));
    assert_eq!(plan.lifecycle_message_recipients[0].session_id, remaining.session_id);
}

#[test]
fn movement_plan_updates_position_and_excludes_moving_player() {
    let mut state = LobbyState::new();
    let moving = state.insert(session(1, "moving"));
    let recipient_session = state.insert(session(2, "recipient"));
    let new_position = pos(5.0, 6.0, 7.0, 180.0, 12.0);

    assert!(state.update_position(moving.entity_id, pos(0.0, 0.0, 0.0, 0.0, 0.0)));

    let plan = state.update_position_with_movement_plan(moving.entity_id, new_position).unwrap();

    assert_eq!(plan.moving_session_id, moving.session_id);
    assert_eq!(plan.moving_entity_id, moving.entity_id);
    assert_eq!(plan.current_position, new_position);
    assert_eq!(plan.recipients, vec![recipient(&recipient_session, ProtocolVersion::V1_20_5)]);
    assert_eq!(state.session_by_entity_id(moving.entity_id).unwrap().position, new_position);
}

#[test]
fn metadata_plan_crouching_state() {
    let mut state = LobbyState::new();
    let moving = state.insert(session(1, "moving"));
    let recipient_session = state.insert(session(2, "recipient"));

    assert!(state.update_crouching_with_metadata_plan(moving.entity_id, false).is_none());

    let plan = state.update_crouching_with_metadata_plan(moving.entity_id, true).unwrap();

    assert_eq!(plan.session_id, moving.session_id);
    assert_eq!(plan.entity_id, moving.entity_id);
    assert!(plan.crouching);
    assert_eq!(plan.recipients, vec![recipient(&recipient_session, ProtocolVersion::V1_20_5)]);
    assert!(state.session_by_entity_id(moving.entity_id).unwrap().crouching);
}

#[test]
fn swing_plan_excludes_sender_and_preserves_sorted_recipient_versions() {
    let mut state = LobbyState::new();
    let swinger = state.insert(session(1, "swinger"));
    let mut old_session = session(2, "old");
    old_session.protocol_version = ProtocolVersion::V1_8;
    let old = state.insert(old_session);
    let modern = state.insert(session(3, "modern"));

    let plan = state.plan_swing_broadcast(swinger.entity_id).unwrap();

    assert_eq!(plan.swinging_session_id, swinger.session_id);
    assert_eq!(plan.swinging_entity_id, swinger.entity_id);
    assert!(!plan.recipients.iter().any(|r| r.session_id == swinger.session_id));
    assert_eq!(
        plan.recipients,
        vec![recipient(&old, ProtocolVersion::V1_8), recipient(&modern, ProtocolVersion::V1_20_5)]
    );
}

#[test]
fn swing_plan_for_unknown_entity_is_empty() {
    assert!(LobbyState::new().plan_swing_broadcast(EntityId::new(99)).is_none());
}

#[test]
fn join_plan_structure_and_exclusions() {
    assert!(LobbyState::new().plan_join_visibility(LobbySessionId::new(99)).is_none());

    let mut state = LobbyState::new();
    let solo = state.insert(session(1, "solo"));
    let plan = state.plan_join_visibility(solo.session_id).unwrap();
    assert!(plan.existing_sessions.is_empty());
    assert!(plan.existing_recipients.is_empty());

    let second = state.insert(session(2, "second"));
    let plan = state.plan_join_visibility(second.session_id).unwrap();
    assert_eq!(plan.new_session.session_id, second.session_id);
    assert_eq!(plan.existing_sessions.len(), 1);
    assert_eq!(plan.existing_sessions[0].session_id, solo.session_id);
    assert_eq!(plan.existing_recipients[0].session_id, solo.session_id);

    let third = state.insert(session(3, "third"));
    let plan = state.plan_join_visibility(second.session_id).unwrap();
    assert_eq!(plan.existing_sessions.len(), 2);
    assert!(!plan.existing_recipients.iter().any(|r| r.session_id == second.session_id));
    let ids: Vec<_> = plan.existing_recipients.iter().map(|r| r.session_id).collect();
    assert!(ids.contains(&solo.session_id));
    assert!(ids.contains(&third.session_id));
}

#[test]
fn reply_peers_follow_the_last_exchange() {
    let mut state = LobbyState::new();
    let a = state.insert(session(1, "Alice"));
    let b = state.insert(session(2, "Bob"));
    assert_eq!(state.reply_peer_of(a.session_id), None);
    private(&mut state, a.session_id, "bob").unwrap();
    assert_eq!(state.reply_peer_of(a.session_id), Some(b.uuid));
    assert_eq!(state.reply_peer_of(b.session_id), Some(a.uuid));
}

#[test]
fn removal_by_entity_id_returns_the_session() {
    let mut state = LobbyState::new();
    let a = state.insert(session(7, "seven"));
    let removed = state.remove_by_entity_id(a.entity_id).unwrap();
    assert_eq!(removed.username, "seven");
    assert!(state.is_empty());
}
