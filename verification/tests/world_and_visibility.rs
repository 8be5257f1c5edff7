use pico_limbo::chunks::{
    block_mapping_version, collect_chunk_packets, spiral_positions, BenchProtocol, ChunkPacket,
    CircularChunkPacketIterator, Direction, SpiralIterator,
};
use pico_limbo::lobby::{EntityId, LobbyLeavePlan, LobbyMovementPlan, LobbyNpc, LobbyPosition, LobbyRecipient, LobbySession, LobbySessionId, LobbyState, LobbySwingPlan};
use pico_limbo::protocol::ProtocolVersion;
use pico_limbo::visibility::{
    join_visibility_batches_for_existing, join_visibility_packets_for_newcomer, leave_visibility_batches,
    movement_visibility_batches, movement_visibility_packets, npc_spawn_packets_for_join, swing_visibility_batches, MoveDelta, VisibilityPacket,
};

fn chunk_iter(version: ProtocolVersion) -> CircularChunkPacketIterator {
    CircularChunkPacketIterator::new((0, 0), 0, version)
}

#[test]
fn v1_17_chunks_are_followed_by_light_updates() {
    let mut iter = chunk_iter(ProtocolVersion::V1_17);
    assert!(matches!(iter.next(), Some(ChunkPacket::ChunkData { .. })));
    assert!(matches!(iter.next(), Some(ChunkPacket::LightUpdate { .. })));
    assert!(iter.next().is_none());
}

#[test]
fn pre_v1_16_chunks_are_sent_without_light_update_packets() {
    for version in [ProtocolVersion::V1_8, ProtocolVersion::V1_12_2] {
        let mut iter = chunk_iter(version);
        assert!(matches!(iter.next(), Some(ChunkPacket::ChunkData { .. })));
        assert!(iter.next().is_none(), "unexpected extra packet for {version:?}");
    }
}

#[test]
fn v1_14_and_v1_15_chunks_are_followed_by_light_updates() {
    for version in [ProtocolVersion::V1_14_4, ProtocolVersion::V1_15_2] {
        let mut iter = chunk_iter(version);
        assert!(matches!(iter.next(), Some(ChunkPacket::ChunkData { .. })));
        assert!(matches!(iter.next(), Some(ChunkPacket::LightUpdate { .. })), "missing light update for {version:?}");
        assert!(iter.next().is_none());
    }
}

#[test]
fn v1_18_chunks_keep_light_in_chunk_packet() {
    let mut iter = chunk_iter(ProtocolVersion::V1_18);
    assert!(matches!(iter.next(), Some(ChunkPacket::ChunkData { .. })));
    assert!(iter.next().is_none());
}

#[test]
fn spiral_walks_the_square_once() {
    let points = spiral_positions(10, -3, 2);
    assert_eq!(points.len(), 25);
    assert_eq!(&points[..3], &[(10, -3), (11, -3), (11, -4)]);
    let mut sorted = points.clone();
    sorted.sort();
    sorted.dedup();
    assert_eq!(sorted.len(), 25);
    assert!(points.iter().all(|(x, y)| (x - 10).abs() <= 2 && (y + 3).abs() <= 2));
    assert!(spiral_positions(0, 0, -1).is_empty());
}

#[test]
fn spiral_iterator_stops_for_good() {
    let mut it = SpiralIterator::new(0, 0, 0);
    assert_eq!(it.next(), Some((0, 0)));
    assert_eq!(it.next(), None);
    assert_eq!(it.next(), None);
}

#[test]
fn directions_turn_counter_clockwise() {
    assert_eq!(Direction::Right.turn(), Direction::Up);
    assert_eq!(Direction::Down.turn(), Direction::Right);
    let (mut x, mut y) = (0, 0);
    Direction::Up.step(&mut x, &mut y);
    assert_eq!((x, y), (0, -1));
}

#[test]
fn chunk_packet_counts_per_bucket() {
    assert_eq!(collect_chunk_packets(BenchProtocol::Legacy, 2), 25);
    assert_eq!(collect_chunk_packets(BenchProtocol::LightUpdate, 2), 50);
    assert_eq!(collect_chunk_packets(BenchProtocol::Latest, 0), 1);
    assert_eq!(BenchProtocol::Modern.label(), "v1_20_5");
    assert_eq!(block_mapping_version(ProtocolVersion::V1_12_2), ProtocolVersion::V1_16);
    assert_eq!(block_mapping_version(ProtocolVersion::V1_20), ProtocolVersion::V1_20);
}

fn vis_recipient(session_id: u64, protocol_version: ProtocolVersion) -> LobbyRecipient {
    LobbyRecipient {
        session_id: LobbySessionId::new(session_id),
        uuid: session_id as u128,
        entity_id: EntityId::new(session_id as i32),
        protocol_version,
    }
}

fn leave_plan(recipients: Vec<LobbyRecipient>) -> LobbyLeavePlan {
    LobbyLeavePlan {
        departed_uuid: 99,
        departed_username: "gone".to_string(),
        departed_entity_id: EntityId::new(99),
        recipients: recipients.clone(),
        lifecycle_message_recipients: recipients,
    }
}

#[test]
fn empty_recipient_list_yields_no_packet_batches() {
    assert!(leave_visibility_batches(&leave_plan(vec![])).is_empty());
}

#[test]
fn old_mid_and_current_recipients_get_compatible_packet_variants() {
    let batches = leave_visibility_batches(&leave_plan(vec![
        vis_recipient(1, ProtocolVersion::V1_7_2),
        vis_recipient(2, ProtocolVersion::V1_18_2),
        vis_recipient(3, ProtocolVersion::V1_21),
    ]));
    assert_eq!(batches.len(), 3);
    assert!(matches!(batches[0].packets[0], VisibilityPacket::DestroyEntities { entity_id: 99 }));
    assert!(matches!(batches[0].packets[1], VisibilityPacket::PlayerInfoRemoveByName { .. }));
    assert!(matches!(batches[1].packets[1], VisibilityPacket::PlayerInfoRemoveEntry { uuid: 99, .. }));
    assert!(matches!(batches[2].packets[0], VisibilityPacket::RemoveEntities { entity_id: 99 }));
    assert!(matches!(batches[2].packets[1], VisibilityPacket::PlayerInfoRemove { uuid: 99 }));
}

#[test]
fn swing_visibility_batches_send_one_animate_per_recipient() {
    let plan = LobbySwingPlan {
        swinging_session_id: LobbySessionId::new(1),
        swinging_entity_id: EntityId::new(5),
        recipients: vec![vis_recipient(2, ProtocolVersion::V1_8), vis_recipient(3, ProtocolVersion::V1_21)],
    };
    let batches = swing_visibility_batches(&plan);
    assert_eq!(batches.len(), 2);
    for b in &batches {
        assert_eq!(b.packets, vec![VisibilityPacket::Animate { entity_id: 5 }]);
    }
}

#[test]
fn movement_packets_use_rotation_only_when_only_look_changes() {
    let p = LobbyPosition::new(0, 0, 0, 7, 9);
    let packets = movement_visibility_packets(ProtocolVersion::V1_21, EntityId::new(4), p, false, true, None);
    assert_eq!(
        packets,
        vec![
            VisibilityPacket::MoveEntityRot { entity_id: 4, yaw_bits: 7, pitch_bits: 9 },
            VisibilityPacket::RotateHead { entity_id: 4, yaw_bits: 7 },
        ]
    );
    assert!(movement_visibility_packets(ProtocolVersion::V1_21, EntityId::new(4), p, false, false, None).is_empty());
}

#[test]
fn movement_packets_use_teleport_for_large_delta() {
    let p = LobbyPosition::default();
    let legacy = movement_visibility_packets(ProtocolVersion::V1_21, EntityId::new(4), p, true, false, None);
    assert_eq!(legacy, vec![VisibilityPacket::TeleportEntity { entity_id: 4, position: p }]);
    let sync = movement_visibility_packets(ProtocolVersion::V1_21_2, EntityId::new(4), p, true, true, None);
    assert_eq!(sync, vec![VisibilityPacket::EntityPositionSync { entity_id: 4, position: p }]);
    let delta = MoveDelta { dx: 1, dy: 0, dz: -1 };
    let small = movement_visibility_packets(ProtocolVersion::V1_8, EntityId::new(4), p, true, false, Some(delta));
    assert_eq!(small, vec![VisibilityPacket::MoveEntityPos { entity_id: 4, delta }]);
}

fn lobby_two(first: ProtocolVersion, second: ProtocolVersion) -> (LobbyState, LobbySession, LobbySession) {
    let mut state = LobbyState::new();
    let a = state.insert(LobbySession::new(1, "first", None, first, LobbyPosition::default()));
    let b = state.insert(LobbySession::new(2, "second", None, second, LobbyPosition::default()));
    (state, a, b)
}

#[test]
fn join_visibility_empty_without_counterparts() {
    let mut state = LobbyState::new();
    let solo = state.insert(LobbySession::new(1, "solo", None, ProtocolVersion::V1_21, LobbyPosition::default()));
    let plan = state.plan_join_visibility(solo.session_id).unwrap();
    assert!(join_visibility_packets_for_newcomer(&plan, ProtocolVersion::V1_21).is_empty());
    assert!(join_visibility_batches_for_existing(&plan).is_empty());
}

#[test]
fn join_newcomer_current_versions_get_four_spawn_entity_packets() {
    let (state, _a, b) = lobby_two(ProtocolVersion::V1_21, ProtocolVersion::V1_21);
    let plan = state.plan_join_visibility(b.session_id).unwrap();
    let packets = join_visibility_packets_for_newcomer(&plan, ProtocolVersion::V1_21);
    assert_eq!(packets.len(), 4);
    assert!(matches!(packets[0], VisibilityPacket::PlayerInfo { listed: true, .. }));
    assert!(matches!(packets[1], VisibilityPacket::SpawnEntity { .. }));
    assert!(matches!(packets[2], VisibilityPacket::EntityMetadata { crouching: false, .. }));
    assert!(matches!(packets[3], VisibilityPacket::RotateHead { .. }));
}

#[test]
fn join_newcomer_legacy_versions_get_four_spawn_player_packets() {
    let (state, _a, b) = lobby_two(ProtocolVersion::V1_8, ProtocolVersion::V1_8);
    let plan = state.plan_join_visibility(b.session_id).unwrap();
    let packets = join_visibility_packets_for_newcomer(&plan, ProtocolVersion::V1_8);
    assert_eq!(packets.len(), 4);
    assert!(matches!(packets[1], VisibilityPacket::SpawnPlayer { .. }));
}

#[test]
fn join_existing_batches_include_legacy_v1_8_through_v1_20() {
    let (state, a, b) = lobby_two(ProtocolVersion::V1_8, ProtocolVersion::V1_21);
    let plan = state.plan_join_visibility(b.session_id).unwrap();
    let batches = join_visibility_batches_for_existing(&plan);
    assert_eq!(batches.len(), 1);
    assert_eq!(batches[0].recipient.session_id, a.session_id);
    assert!(matches!(batches[0].packets[1], VisibilityPacket::SpawnPlayer { .. }));
}

#[test]
fn npc_spawn_never_removes_player_info_entry() {
    let state = LobbyState::with_npcs(vec![LobbyNpc::player("guide", "survival", "Guide", LobbyPosition::default())]);
    let plan = state.plan_npc_spawn();
    for version in [ProtocolVersion::V1_7_2, ProtocolVersion::V1_8, ProtocolVersion::V1_19_3, ProtocolVersion::V1_21] {
        let packets = npc_spawn_packets_for_join(&plan, version);
        assert_eq!(packets.len(), 4);
        assert!(matches!(packets[0], VisibilityPacket::PlayerInfo { listed: false, .. }));
        assert!(!packets.iter().any(|p| matches!(
            p,
            VisibilityPacket::PlayerInfoRemove { .. }
                | VisibilityPacket::PlayerInfoRemoveEntry { .. }
                | VisibilityPacket::PlayerInfoRemoveByName { .. }
        )));
    }
}

fn float_position(x: f64, y: f64, z: f64) -> LobbyPosition {
    LobbyPosition::new(x.to_bits(), y.to_bits(), z.to_bits(), 0f32.to_bits(), 0f32.to_bits())
}

fn movement_plan(recipients: Vec<LobbyRecipient>) -> LobbyMovementPlan {
    LobbyMovementPlan {
        moving_session_id: LobbySessionId::new(9),
        moving_entity_id: EntityId::new(9),
        previous_position: float_position(1.0, 2.0, 3.0),
        current_position: float_position(1.5, 2.0, 3.0),
        recipients,
    }
}

#[test]
fn movement_batches_include_old_mid_and_current_protocol_slices() {
    let versions = vec![ProtocolVersion::V1_18_2, ProtocolVersion::V1_19_4, ProtocolVersion::V1_20_5, ProtocolVersion::V1_21];
    let recipients: Vec<LobbyRecipient> =
        versions.iter().enumerate().map(|(i, v)| vis_recipient(i as u64 + 1, *v)).collect();
    let plan = movement_plan(recipients);
    // Half a block along x, in the protocol's 1/4096-block units.
    let deltas = vec![Some(MoveDelta { dx: 2048, dy: 0, dz: 0 }); 4];
    let batches = movement_visibility_batches(&plan, true, false, &deltas);
    assert_eq!(batches.len(), 4);
    assert_eq!(batches.iter().map(|b| b.recipient.protocol_version).collect::<Vec<_>>(), versions);
    assert!(batches.iter().all(|b| matches!(b.packets.as_slice(), [VisibilityPacket::MoveEntityPos { entity_id: 9, .. }])));
}

#[test]
fn movement_batches_are_empty_without_change() {
    let plan = movement_plan(vec![vis_recipient(1, ProtocolVersion::V1_21)]);
    assert!(movement_visibility_batches(&plan, false, false, &vec![None]).is_empty());
    let look = movement_visibility_batches(&plan, false, true, &vec![None]);
    assert_eq!(look.len(), 1);
    assert!(matches!(look[0].packets.as_slice(), [VisibilityPacket::MoveEntityRot { .. }, VisibilityPacket::RotateHead { .. }]));
}
