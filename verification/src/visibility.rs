use vstd::prelude::*;
use crate::protocol::ProtocolVersion;
use crate::lobby::{
    EntityId, LobbyPosition, LobbyRecipient, LobbySession, LobbyNpc, Property, LobbyLeavePlan,
    LobbyMetadataPlan, LobbyMovementPlan, LobbySwingPlan, LobbyJoinPlan, LobbyNpcSpawnPlan, copy_option_property,
};

verus! {

/// An entity movement delta as the protocol encodes it.
#[derive(Debug, Clone, Copy, PartialEq, Eq, Structural)]
pub struct MoveDelta {
    pub dx: i16,
    pub dy: i16,
    pub dz: i16,
}

/// A packet the lobby sends to keep clients' view of other players current.
#[derive(Debug, Clone, PartialEq, Eq)]
pub enum VisibilityPacket {
    /// Remove entities (1.21 and later).
    RemoveEntities { entity_id: i32 },
    /// Destroy entities (before 1.21).
    DestroyEntities { entity_id: i32 },
    /// Remove a player-list entry by UUID (1.19.3 and later).
    PlayerInfoRemove { uuid: u128 },
    /// Player-info update removing an entry (1.8 to 1.19.2).
    PlayerInfoRemoveEntry { uuid: u128, username: String },
    /// Player-info update removing an entry by name (1.7).
    PlayerInfoRemoveByName { username: String },
    /// Player-info update adding an entry, with a skin when `textures` is set.
    PlayerInfo { username: String, uuid: u128, textures: Option<Property>, listed: bool },
    /// Spawn a player entity (1.20.2 and later).
    SpawnEntity { entity_id: i32, uuid: u128, position: LobbyPosition },
    /// Spawn a named player (1.7.2 to 1.20).
    SpawnPlayer {
        entity_id: i32,
        uuid: u128,
        username: String,
        textures: Option<Property>,
        crouching: bool,
        position: LobbyPosition,
    },
    /// Entity metadata with the player's crouching flag.
    EntityMetadata { entity_id: i32, crouching: bool },
    /// Head rotation.
    RotateHead { entity_id: i32, yaw_bits: u32 },
    /// Main-hand swing animation.
    Animate { entity_id: i32 },
    /// Relative move with look.
    MoveEntityPosRot { entity_id: i32, delta: MoveDelta, yaw_bits: u32, pitch_bits: u32 },
    /// Relative move.
    MoveEntityPos { entity_id: i32, delta: MoveDelta },
    /// Look change.
    MoveEntityRot { entity_id: i32, yaw_bits: u32, pitch_bits: u32 },
    /// Absolute teleport (before 1.21.2).
    TeleportEntity { entity_id: i32, position: LobbyPosition },
    /// Absolute position sync (1.21.2 and later).
    EntityPositionSync { entity_id: i32, position: LobbyPosition },
}

/// Packets for one recipient.
#[derive(Debug, Clone, PartialEq, Eq)]
pub struct LobbyPacketBatch {
    pub recipient: LobbyRecipient,
    pub packets: Vec<VisibilityPacket>,
}

pub open spec fn at_least(v: ProtocolVersion, w: ProtocolVersion) -> bool {
    v.rank() >= w.rank()
}

/// What a client of version `v` must be sent when a player leaves.
pub open spec fn leave_packets(v: ProtocolVersion, uuid: u128, username: String, eid: EntityId) -> Seq<VisibilityPacket> {
    let entity_remove = if at_least(v, ProtocolVersion::V1_21) {
        VisibilityPacket::RemoveEntities { entity_id: eid.0 }
    } else {
        VisibilityPacket::DestroyEntities { entity_id: eid.0 }
    };
    let info_remove = if at_least(v, ProtocolVersion::V1_19_3) {
        VisibilityPacket::PlayerInfoRemove { uuid }
    } else if at_least(v, ProtocolVersion::V1_8) {
        VisibilityPacket::PlayerInfoRemoveEntry { uuid, username }
    } else {
        VisibilityPacket::PlayerInfoRemoveByName { username }
    };
    seq![entity_remove, info_remove]
}

/// Despawns a departed player for a client of the given version.
pub fn leave_visibility_packets(
    recipient_version: ProtocolVersion,
    departed_uuid: u128,
    departed_username: &String,
    departed_entity_id: EntityId,
) -> (p: Vec<VisibilityPacket>)
    ensures
        p@ == leave_packets(recipient_version, departed_uuid, *departed_username, departed_entity_id),
{
    let entity_remove = if recipient_version.is_after_inclusive(ProtocolVersion::V1_21) {
        VisibilityPacket::RemoveEntities { entity_id: departed_entity_id.0 }
    } else {
        VisibilityPacket::DestroyEntities { entity_id: departed_entity_id.0 }
    };
    let info_remove = if recipient_version.is_after_inclusive(ProtocolVersion::V1_19_3) {
        VisibilityPacket::PlayerInfoRemove { uuid: departed_uuid }
    } else if recipient_version.is_after_inclusive(ProtocolVersion::V1_8) {
        VisibilityPacket::PlayerInfoRemoveEntry { uuid: departed_uuid, username: departed_username.clone() }
    } else {
        VisibilityPacket::PlayerInfoRemoveByName { username: departed_username.clone() }
    };
    let mut p: Vec<VisibilityPacket> = Vec::new();
    p.push(entity_remove);
    p.push(info_remove);
    assert(p@ =~= leave_packets(recipient_version, departed_uuid, *departed_username, departed_entity_id));
    p
}

/// One batch per remaining player, despawning the departed player.
pub fn leave_visibility_batches(plan: &LobbyLeavePlan) -> (b: Vec<LobbyPacketBatch>)
    ensures
        b@.len() == plan.recipients@.len(),
        forall|i: int| 0 <= i < b@.len() ==> (#[trigger] b@[i]).recipient == plan.recipients@[i]
            && b@[i].packets@ == leave_packets(plan.recipients@[i].protocol_version, plan.departed_uuid,
                plan.departed_username, plan.departed_entity_id),
{
    let mut out: Vec<LobbyPacketBatch> = Vec::new();
    let mut i: usize = 0;
    while i < plan.recipients.len()
        invariant
            i <= plan.recipients@.len(),
            out@.len() == i,
            forall|j: int| 0 <= j < i ==> (#[trigger] out@[j]).recipient == plan.recipients@[j]
                && out@[j].packets@ == leave_packets(plan.recipients@[j].protocol_version, plan.departed_uuid,
                    plan.departed_username, plan.departed_entity_id),
        decreases plan.recipients.len() - i,
    {
        let r = plan.recipients[i];
        let packets = leave_visibility_packets(r.protocol_version, plan.departed_uuid, &plan.departed_username, plan.departed_entity_id);
        out.push(LobbyPacketBatch { recipient: r, packets });
        i = i + 1;
    }
    out
}

/// Crouching-state update for a player.
pub fn metadata_visibility_packets(plan: &LobbyMetadataPlan) -> (p: Vec<VisibilityPacket>)
    ensures
        p@ == seq![VisibilityPacket::EntityMetadata { entity_id: plan.entity_id.0, crouching: plan.crouching }],
{
    let mut p: Vec<VisibilityPacket> = Vec::new();
    p.push(VisibilityPacket::EntityMetadata { entity_id: plan.entity_id.0, crouching: plan.crouching });
    assert(p@ =~= seq![VisibilityPacket::EntityMetadata { entity_id: plan.entity_id.0, crouching: plan.crouching }]);
    p
}

/// Main-hand swing of a player.
pub fn swing_visibility_packets(swinging_entity_id: EntityId) -> (p: Vec<VisibilityPacket>)
    ensures
        p@ == seq![VisibilityPacket::Animate { entity_id: swinging_entity_id.0 }],
{
    let mut p: Vec<VisibilityPacket> = Vec::new();
    p.push(VisibilityPacket::Animate { entity_id: swinging_entity_id.0 });
    assert(p@ =~= seq![VisibilityPacket::Animate { entity_id: swinging_entity_id.0 }]);
    p
}

/// One batch per recipient with the crouching update.
pub fn metadata_visibility_batches(plan: &LobbyMetadataPlan) -> (b: Vec<LobbyPacketBatch>)
    ensures
        b@.len() == plan.recipients@.len(),
        forall|i: int| 0 <= i < b@.len() ==> (#[trigger] b@[i]).recipient == plan.recipients@[i]
            && b@[i].packets@ == seq![VisibilityPacket::EntityMetadata { entity_id: plan.entity_id.0, crouching: plan.crouching }],
{
    let mut out: Vec<LobbyPacketBatch> = Vec::new();
    let mut i: usize = 0;
    while i < plan.recipients.len()
        invariant
            i <= plan.recipients@.len(),
            out@.len() == i,
            forall|j: int| 0 <= j < i ==> (#[trigger] out@[j]).recipient == plan.recipients@[j]
                && out@[j].packets@ == seq![VisibilityPacket::EntityMetadata { entity_id: plan.entity_id.0, crouching: plan.crouching }],
        decreases plan.recipients.len() - i,
    {
        out.push(LobbyPacketBatch { recipient: plan.recipients[i], packets: metadata_visibility_packets(plan) });
        i = i + 1;
    }
    out
}

/// One batch per recipient with the swing animation.
pub fn swing_visibility_batches(plan: &LobbySwingPlan) -> (b: Vec<LobbyPacketBatch>)
    ensures
        b@.len() == plan.recipients@.len(),
        forall|i: int| 0 <= i < b@.len() ==> (#[trigger] b@[i]).recipient == plan.recipients@[i]
            && b@[i].packets@ == seq![VisibilityPacket::Animate { entity_id: plan.swinging_entity_id.0 }],
{
    let mut out: Vec<LobbyPacketBatch> = Vec::new();
    let mut i: usize = 0;
    while i < plan.recipients.len()
        invariant
            i <= plan.recipients@.len(),
            out@.len() == i,
            forall|j: int| 0 <= j < i ==> (#[trigger] out@[j]).recipient == plan.recipients@[j]
                && out@[j].packets@ == seq![VisibilityPacket::Animate { entity_id: plan.swinging_entity_id.0 }],
        decreases plan.recipients.len() - i,
    {
        out.push(LobbyPacketBatch { recipient: plan.recipients[i], packets: swing_visibility_packets(plan.swinging_entity_id) });
        i = i + 1;
    }
    out
}

/// One batch per recipient of a movement, in order, with the packets that
/// the recipient's version is sent (see [`movement_packets`]); a recipient
/// whose packets would be empty gets no batch, so nothing at all is sent
/// when neither position nor look changed. `deltas[i]` is the relative move
/// that recipient `i`'s version can carry, `None` when it cannot.
pub fn movement_visibility_batches(
    plan: &LobbyMovementPlan,
    position_changed: bool,
    rotation_changed: bool,
    deltas: &Vec<Option<MoveDelta>>,
) -> (b: Vec<LobbyPacketBatch>)
    requires
        deltas@.len() == plan.recipients@.len(),
    ensures
        b@.len() == if !position_changed && !rotation_changed { 0 } else { plan.recipients@.len() },
        forall|i: int| 0 <= i < b@.len() ==> (#[trigger] b@[i]).recipient == plan.recipients@[i]
            && b@[i].packets@ == movement_packets(plan.recipients@[i].protocol_version, plan.moving_entity_id,
                plan.current_position, position_changed, rotation_changed, deltas@[i]),
{
    let mut out: Vec<LobbyPacketBatch> = Vec::new();
    let mut i: usize = 0;
    while i < plan.recipients.len()
        invariant
            i <= plan.recipients@.len(),
            deltas@.len() == plan.recipients@.len(),
            out@.len() == if !position_changed && !rotation_changed { 0 } else { i as int },
            forall|j: int| 0 <= j < out@.len() ==> (#[trigger] out@[j]).recipient == plan.recipients@[j]
                && out@[j].packets@ == movement_packets(plan.recipients@[j].protocol_version, plan.moving_entity_id,
                    plan.current_position, position_changed, rotation_changed, deltas@[j]),
        decreases plan.recipients.len() - i,
    {
        let recipient = plan.recipients[i];
        let packets = movement_visibility_packets(
            recipient.protocol_version,
            plan.moving_entity_id,
            plan.current_position,
            position_changed,
            rotation_changed,
            deltas[i],
        );
        if packets.len() > 0 {
            out.push(LobbyPacketBatch { recipient, packets });
        }
        i = i + 1;
    }
    out
}

/// Teleport from 1.21.2 on uses the position-sync packet.
pub open spec fn teleport_packet(v: ProtocolVersion, eid: EntityId, pos: LobbyPosition) -> VisibilityPacket {
    if at_least(v, ProtocolVersion::V1_21_2) {
        VisibilityPacket::EntityPositionSync { entity_id: eid.0, position: pos }
    } else {
        VisibilityPacket::TeleportEntity { entity_id: eid.0, position: pos }
    }
}

/// What a client of version `v` is sent when a player moves: nothing when
/// neither position nor look changed; an absolute teleport when the position
/// changed by more than a relative move can carry (`delta` is `None`);
/// otherwise a relative move, a look change or both, with a head rotation
/// whenever the look changed.
pub open spec fn movement_packets(
    v: ProtocolVersion,
    eid: EntityId,
    current: LobbyPosition,
    position_changed: bool,
    rotation_changed: bool,
    delta: Option<MoveDelta>,
) -> Seq<VisibilityPacket> {
    if !position_changed && !rotation_changed {
        seq![]
    } else if position_changed && delta.is_none() {
        seq![teleport_packet(v, eid, current)]
    } else if position_changed && rotation_changed {
        seq![
            VisibilityPacket::MoveEntityPosRot { entity_id: eid.0, delta: delta.unwrap(), yaw_bits: current.yaw_bits, pitch_bits: current.pitch_bits },
            VisibilityPacket::RotateHead { entity_id: eid.0, yaw_bits: current.yaw_bits },
        ]
    } else if position_changed {
        seq![VisibilityPacket::MoveEntityPos { entity_id: eid.0, delta: delta.unwrap() }]
    } else {
        seq![
            VisibilityPacket::MoveEntityRot { entity_id: eid.0, yaw_bits: current.yaw_bits, pitch_bits: current.pitch_bits },
            VisibilityPacket::RotateHead { entity_id: eid.0, yaw_bits: current.yaw_bits },
        ]
    }
}

/// The entity a movement packet is about.
pub open spec fn moved_entity(p: VisibilityPacket) -> Option<i32> {
    match p {
        VisibilityPacket::MoveEntityPosRot { entity_id, .. } => Some(entity_id),
        VisibilityPacket::MoveEntityPos { entity_id, .. } => Some(entity_id),
        VisibilityPacket::MoveEntityRot { entity_id, .. } => Some(entity_id),
        VisibilityPacket::RotateHead { entity_id, .. } => Some(entity_id),
        VisibilityPacket::TeleportEntity { entity_id, .. } => Some(entity_id),
        VisibilityPacket::EntityPositionSync { entity_id, .. } => Some(entity_id),
        _ => None,
    }
}

/// Whether `p` moves its entity by the relative move `d`.
pub open spec fn carries_delta(p: VisibilityPacket, d: MoveDelta) -> bool {
    match p {
        VisibilityPacket::MoveEntityPosRot { delta, .. } => delta == d,
        VisibilityPacket::MoveEntityPos { delta, .. } => delta == d,
        _ => false,
    }
}

/// Whether `p` sets its entity's look to `yaw` and `pitch`.
pub open spec fn carries_look(p: VisibilityPacket, yaw: u32, pitch: u32) -> bool {
    match p {
        VisibilityPacket::MoveEntityPosRot { yaw_bits, pitch_bits, .. } => yaw_bits == yaw && pitch_bits == pitch,
        VisibilityPacket::MoveEntityRot { yaw_bits, pitch_bits, .. } => yaw_bits == yaw && pitch_bits == pitch,
        _ => false,
    }
}

/// Whether `p` changes its entity's look at all.
pub open spec fn turns(p: VisibilityPacket) -> bool {
    p is MoveEntityPosRot || p is MoveEntityRot || p is RotateHead
}

/// Whether `p` places its entity at `pos` outright.
pub open spec fn places_at(p: VisibilityPacket, pos: LobbyPosition) -> bool {
    match p {
        VisibilityPacket::TeleportEntity { position, .. } => position == pos,
        VisibilityPacket::EntityPositionSync { position, .. } => position == pos,
        _ => false,
    }
}

/// Law (movement): a client is sent nothing when nothing changed and
/// otherwise only packets about the moving entity. A position change that
/// no relative move can carry is one outright placement at the current
/// position (a position sync from 1.21.2 on); one that fits starts with a
/// packet carrying that move. A look change (unless the move was a
/// placement) is carried, with the current yaw and pitch, by the first
/// packet and followed by a head rotation to the current yaw; without a
/// look change no packet turns the entity.
pub proof fn lemma_movement_packets_carry_changes(
    v: ProtocolVersion,
    eid: EntityId,
    current: LobbyPosition,
    position_changed: bool,
    rotation_changed: bool,
    delta: Option<MoveDelta>,
)
    ensures ({
        let ps = movement_packets(v, eid, current, position_changed, rotation_changed, delta);
        &&& (!position_changed && !rotation_changed <==> ps.len() == 0)
        &&& forall|i: int| 0 <= i < ps.len() ==> moved_entity(#[trigger] ps[i]) == Some(eid.0)
        &&& (position_changed && delta is None) ==> ps.len() == 1 && places_at(ps[0], current)
            && (ps[0] is EntityPositionSync <==> at_least(v, ProtocolVersion::V1_21_2))
        &&& (position_changed && delta is Some) ==> carries_delta(ps[0], delta.unwrap())
        &&& (position_changed && delta is Some && !rotation_changed) ==> ps.len() == 1
        &&& (!position_changed || delta is Some) ==> forall|i: int| 0 <= i < ps.len() ==> !(#[trigger] places_at(ps[i], current))
            && !(ps[i] is TeleportEntity) && !(ps[i] is EntityPositionSync)
        &&& (rotation_changed && !(position_changed && delta is None)) ==> carries_look(ps[0], current.yaw_bits, current.pitch_bits)
            && ps.len() == 2 && ps[1] == VisibilityPacket::RotateHead { entity_id: eid.0, yaw_bits: current.yaw_bits }
        &&& !rotation_changed ==> forall|i: int| 0 <= i < ps.len() ==> !turns(#[trigger] ps[i])
    }),
{
}

/// Packets that show a player's movement to a client (see [`movement_packets`]).
pub fn movement_visibility_packets(
    recipient_version: ProtocolVersion,
    moving_entity_id: EntityId,
    current_position: LobbyPosition,
    position_changed: bool,
    rotation_changed: bool,
    delta: Option<MoveDelta>,
) -> (p: Vec<VisibilityPacket>)
    ensures
        p@ == movement_packets(recipient_version, moving_entity_id, current_position, position_changed, rotation_changed, delta),
{
    let mut p: Vec<VisibilityPacket> = Vec::new();
    let eid = moving_entity_id.0;
    if !position_changed && !rotation_changed {
        assert(p@ =~= Seq::<VisibilityPacket>::empty());
        return p;
    }
    if position_changed && delta.is_none() {
        let t = if recipient_version.is_after_inclusive(ProtocolVersion::V1_21_2) {
            VisibilityPacket::EntityPositionSync { entity_id: eid, position: current_position }
        } else {
            VisibilityPacket::TeleportEntity { entity_id: eid, position: current_position }
        };
        p.push(t);
        assert(p@ =~= seq![teleport_packet(recipient_version, moving_entity_id, current_position)]);
        return p;
    }
    if position_changed {
        let d = delta.unwrap();
        if rotation_changed {
            p.push(VisibilityPacket::MoveEntityPosRot { entity_id: eid, delta: d, yaw_bits: current_position.yaw_bits, pitch_bits: current_position.pitch_bits });
            p.push(VisibilityPacket::RotateHead { entity_id: eid, yaw_bits: current_position.yaw_bits });
        } else {
            p.push(VisibilityPacket::MoveEntityPos { entity_id: eid, delta: d });
        }
    } else {
        p.push(VisibilityPacket::MoveEntityRot { entity_id: eid, yaw_bits: current_position.yaw_bits, pitch_bits: current_position.pitch_bits });
        p.push(VisibilityPacket::RotateHead { entity_id: eid, yaw_bits: current_position.yaw_bits });
    }
    assert(p@ =~= movement_packets(recipient_version, moving_entity_id, current_position, position_changed, rotation_changed, delta));
    p
}

/// What a client needs to show a player entity.
#[derive(Debug, Clone, PartialEq, Eq)]
pub struct LobbySpawnInfo {
    pub uuid: u128,
    pub username: String,
    pub textures: Option<Property>,
    pub entity_id: EntityId,
    pub position: LobbyPosition,
    pub crouching: bool,
    pub listed: bool,
}

/// A lobby player, listed in the player list.
pub open spec fn session_spawn(s: LobbySession) -> LobbySpawnInfo {
    LobbySpawnInfo {
        uuid: s.uuid,
        username: s.username,
        textures: s.textures,
        entity_id: s.entity_id,
        position: s.position,
        crouching: s.crouching,
        listed: true,
    }
}

/// An NPC: standing, and kept out of the player list where the client allows.
pub open spec fn npc_spawn(n: LobbyNpc) -> LobbySpawnInfo {
    LobbySpawnInfo {
        uuid: n.uuid,
        username: n.name,
        textures: n.textures,
        entity_id: n.entity_id,
        position: n.position,
        crouching: false,
        listed: false,
    }
}

pub fn spawn_info_of_session(s: &LobbySession) -> (i: LobbySpawnInfo)
    ensures
        i == session_spawn(*s),
{
    LobbySpawnInfo {
        uuid: s.uuid,
        username: s.username.clone(),
        textures: copy_option_property(&s.textures),
        entity_id: s.entity_id,
        position: s.position,
        crouching: s.crouching,
        listed: true,
    }
}

pub fn spawn_info_of_npc(n: &LobbyNpc) -> (i: LobbySpawnInfo)
    ensures
        i == npc_spawn(*n),
{
    LobbySpawnInfo {
        uuid: n.uuid,
        username: n.name.clone(),
        textures: copy_option_property(&n.textures),
        entity_id: n.entity_id,
        position: n.position,
        crouching: false,
        listed: false,
    }
}

/// The four packets that show a player: player-info entry, spawn (entity
/// spawn from 1.20.2, named-player spawn from 1.7.2 to 1.20), metadata and
/// head rotation; nothing for older clients.
pub open spec fn spawn_packets(p: LobbySpawnInfo, v: ProtocolVersion) -> Seq<VisibilityPacket> {
    let info = VisibilityPacket::PlayerInfo { username: p.username, uuid: p.uuid, textures: p.textures, listed: p.listed };
    let meta = VisibilityPacket::EntityMetadata { entity_id: p.entity_id.0, crouching: p.crouching };
    let head = VisibilityPacket::RotateHead { entity_id: p.entity_id.0, yaw_bits: p.position.yaw_bits };
    if at_least(v, ProtocolVersion::V1_20_2) {
        seq![info, VisibilityPacket::SpawnEntity { entity_id: p.entity_id.0, uuid: p.uuid, position: p.position }, meta, head]
    } else if at_least(v, ProtocolVersion::V1_7_2) && v.rank() <= ProtocolVersion::V1_20.rank() {
        seq![info, VisibilityPacket::SpawnPlayer {
            entity_id: p.entity_id.0,
            uuid: p.uuid,
            username: p.username,
            textures: p.textures,
            crouching: p.crouching,
            position: p.position,
        }, meta, head]
    } else {
        seq![]
    }
}

/// Whether `pk` puts entity `eid` of player `uuid` into the world, at `pos`.
pub open spec fn spawns_entity(pk: VisibilityPacket, eid: i32, uuid: u128, pos: LobbyPosition) -> bool {
    match pk {
        VisibilityPacket::SpawnEntity { entity_id, uuid: u, position } => entity_id == eid && u == uuid && position == pos,
        VisibilityPacket::SpawnPlayer { entity_id, uuid: u, position, .. } => entity_id == eid && u == uuid && position == pos,
        _ => false,
    }
}

/// Whether `pk` takes entity `eid` out of the world.
pub open spec fn removes_entity(pk: VisibilityPacket, eid: i32) -> bool {
    match pk {
        VisibilityPacket::RemoveEntities { entity_id } => entity_id == eid,
        VisibilityPacket::DestroyEntities { entity_id } => entity_id == eid,
        _ => false,
    }
}

/// Whether `pk` takes the player-list entry of `uuid` (named `name`) away.
pub open spec fn removes_info(pk: VisibilityPacket, uuid: u128, name: String) -> bool {
    match pk {
        VisibilityPacket::PlayerInfoRemove { uuid: u } => u == uuid,
        VisibilityPacket::PlayerInfoRemoveEntry { uuid: u, username } => u == uuid && username == name,
        VisibilityPacket::PlayerInfoRemoveByName { username } => username == name,
        _ => false,
    }
}

/// Law (spawn and leave): a client of any version is shown a player by
/// four packets: the player's list entry (name, UUID, skin and listing as
/// given), the entity spawned under its entity id and UUID at its position
/// (as an entity spawn from 1.20.2 on), its crouching state, and its head
/// turned to its yaw. What the client is sent when that player leaves
/// takes away exactly that entity and that list entry: the entity first
/// (as a removal from 1.21 on), then the entry (by UUID from 1.19.3 on, by
/// UUID and name from 1.8, by name before).
pub proof fn lemma_leave_undoes_spawn(p: LobbySpawnInfo, v: ProtocolVersion)
    ensures ({
        let sp = spawn_packets(p, v);
        let lp = leave_packets(v, p.uuid, p.username, p.entity_id);
        &&& sp.len() == 4
        &&& {
            &&& sp[0] == VisibilityPacket::PlayerInfo { username: p.username, uuid: p.uuid, textures: p.textures, listed: p.listed }
            &&& spawns_entity(sp[1], p.entity_id.0, p.uuid, p.position)
            &&& (sp[1] is SpawnEntity <==> at_least(v, ProtocolVersion::V1_20_2))
            &&& (sp[1] matches VisibilityPacket::SpawnPlayer { username, textures, crouching, .. } ==> username == p.username
                && textures == p.textures && crouching == p.crouching)
            &&& sp[2] == VisibilityPacket::EntityMetadata { entity_id: p.entity_id.0, crouching: p.crouching }
            &&& sp[3] == VisibilityPacket::RotateHead { entity_id: p.entity_id.0, yaw_bits: p.position.yaw_bits }
        }
        &&& lp.len() == 2
        &&& removes_entity(lp[0], p.entity_id.0)
        &&& (lp[0] is RemoveEntities <==> at_least(v, ProtocolVersion::V1_21))
        &&& removes_info(lp[1], p.uuid, p.username)
        &&& (lp[1] is PlayerInfoRemove <==> at_least(v, ProtocolVersion::V1_19_3))
        &&& (lp[1] is PlayerInfoRemoveByName <==> !at_least(v, ProtocolVersion::V1_8))
    }),
{
}

/// Whether a client of the recipient's version is sent anything to see `p`.
pub open spec fn shown_spawn(p: LobbySpawnInfo) -> spec_fn(LobbyRecipient) -> bool {
    |r: LobbyRecipient| spawn_packets(p, r.protocol_version).len() > 0
}

/// Packets that show a player to a client of the given version.
pub fn spawn_visibility_packets(p: &LobbySpawnInfo, version: ProtocolVersion) -> (r: Vec<VisibilityPacket>)
    ensures
        r@ == spawn_packets(*p, version),
{
    let mut r: Vec<VisibilityPacket> = Vec::new();
    let current = version.is_after_inclusive(ProtocolVersion::V1_20_2);
    let legacy = version.is_after_inclusive(ProtocolVersion::V1_7_2) && version.is_before_inclusive(ProtocolVersion::V1_20);
    if !current && !legacy {
        assert(r@ =~= spawn_packets(*p, version));
        return r;
    }
    r.push(VisibilityPacket::PlayerInfo { username: p.username.clone(), uuid: p.uuid, textures: copy_option_property(&p.textures), listed: p.listed });
    if current {
        r.push(VisibilityPacket::SpawnEntity { entity_id: p.entity_id.0, uuid: p.uuid, position: p.position });
    } else {
        r.push(VisibilityPacket::SpawnPlayer {
            entity_id: p.entity_id.0,
            uuid: p.uuid,
            username: p.username.clone(),
            textures: copy_option_property(&p.textures),
            crouching: p.crouching,
            position: p.position,
        });
    }
    r.push(VisibilityPacket::EntityMetadata { entity_id: p.entity_id.0, crouching: p.crouching });
    r.push(VisibilityPacket::RotateHead { entity_id: p.entity_id.0, yaw_bits: p.position.yaw_bits });
    assert(r@ =~= spawn_packets(*p, version));
    r
}

/// The packets showing every session of `ss`, in order.
pub open spec fn sessions_spawn_packets(ss: Seq<LobbySession>, v: ProtocolVersion) -> Seq<VisibilityPacket>
    decreases ss.len(),
{
    if ss.len() == 0 {
        seq![]
    } else {
        sessions_spawn_packets(ss.drop_last(), v) + spawn_packets(session_spawn(ss.last()), v)
    }
}

/// The packets showing every NPC of `ns`, in order.
pub open spec fn npcs_spawn_packets(ns: Seq<LobbyNpc>, v: ProtocolVersion) -> Seq<VisibilityPacket>
    decreases ns.len(),
{
    if ns.len() == 0 {
        seq![]
    } else {
        npcs_spawn_packets(ns.drop_last(), v) + spawn_packets(npc_spawn(ns.last()), v)
    }
}

fn append(out: &mut Vec<VisibilityPacket>, more: Vec<VisibilityPacket>)
    ensures
        final(out)@ == old(out)@ + more@,
{
    let mut more = more;
    out.append(&mut more);
}

/// What a newcomer is sent to see the players already present.
pub fn join_visibility_packets_for_newcomer(plan: &LobbyJoinPlan, newcomer_version: ProtocolVersion) -> (r: Vec<VisibilityPacket>)
    ensures
        r@ == sessions_spawn_packets(plan.existing_sessions@, newcomer_version),
{
    let mut out: Vec<VisibilityPacket> = Vec::new();
    let mut i: usize = 0;
    while i < plan.existing_sessions.len()
        invariant
            i <= plan.existing_sessions@.len(),
            out@ == sessions_spawn_packets(plan.existing_sessions@.take(i as int), newcomer_version),
        decreases plan.existing_sessions.len() - i,
    {
        assert(plan.existing_sessions@.take(i + 1).drop_last() =~= plan.existing_sessions@.take(i as int));
        let info = spawn_info_of_session(&plan.existing_sessions[i]);
        append(&mut out, spawn_visibility_packets(&info, newcomer_version));
        i = i + 1;
    }
    assert(plan.existing_sessions@.take(plan.existing_sessions@.len() as int) =~= plan.existing_sessions@);
    out
}

/// What every player already present is sent to see the newcomer: one
/// batch per recipient whose version has spawn packets.
pub fn join_visibility_batches_for_existing(plan: &LobbyJoinPlan) -> (b: Vec<LobbyPacketBatch>)
    ensures
        b@.map_values(|x: LobbyPacketBatch| x.recipient)
            == plan.existing_recipients@.filter(shown_spawn(session_spawn(plan.new_session))),
        forall|i: int| 0 <= i < b@.len() ==> (#[trigger] b@[i]).packets@
            == spawn_packets(session_spawn(plan.new_session), b@[i].recipient.protocol_version),
{
    let info = spawn_info_of_session(&plan.new_session);
    let ghost pred = shown_spawn(info);
    let mut out: Vec<LobbyPacketBatch> = Vec::new();
    let mut i: usize = 0;
    while i < plan.existing_recipients.len()
        invariant
            i <= plan.existing_recipients@.len(),
            info == session_spawn(plan.new_session),
            pred == shown_spawn(info),
            out@.map_values(|x: LobbyPacketBatch| x.recipient)
                == plan.existing_recipients@.take(i as int).filter(pred),
            forall|k: int| 0 <= k < out@.len() ==> (#[trigger] out@[k]).packets@
                == spawn_packets(info, out@[k].recipient.protocol_version),
        decreases plan.existing_recipients.len() - i,
    {
        let r = plan.existing_recipients[i];
        let packets = spawn_visibility_packets(&info, r.protocol_version);
        proof {
            let t = plan.existing_recipients@.take(i + 1);
            assert(t.drop_last() =~= plan.existing_recipients@.take(i as int));
            assert(t.last() == r);
            reveal(Seq::filter);
        }
        if packets.len() > 0 {
            let ghost before = out@;
            out.push(LobbyPacketBatch { recipient: r, packets });
            assert(out@.map_values(|x: LobbyPacketBatch| x.recipient)
                =~= before.map_values(|x: LobbyPacketBatch| x.recipient).push(r));
        }
        i = i + 1;
    }
    assert(plan.existing_recipients@.take(i as int) =~= plan.existing_recipients@);
    out
}

/// What a newcomer is sent to see the lobby's NPCs.
pub fn npc_spawn_packets_for_join(plan: &LobbyNpcSpawnPlan, recipient_version: ProtocolVersion) -> (r: Vec<VisibilityPacket>)
    ensures
        r@ == npcs_spawn_packets(plan.npcs@, recipient_version),
{
    let mut out: Vec<VisibilityPacket> = Vec::new();
    let mut i: usize = 0;
    while i < plan.npcs.len()
        invariant
            i <= plan.npcs@.len(),
            out@ == npcs_spawn_packets(plan.npcs@.take(i as int), recipient_version),
        decreases plan.npcs.len() - i,
    {
        assert(plan.npcs@.take(i + 1).drop_last() =~= plan.npcs@.take(i as int));
        let info = spawn_info_of_npc(&plan.npcs[i]);
        append(&mut out, spawn_visibility_packets(&info, recipient_version));
        i = i + 1;
    }
    assert(plan.npcs@.take(plan.npcs@.len() as int) =~= plan.npcs@);
    out
}

/// Law (NPC entries): NPC spawn packets never remove a player-list entry,
/// so a client keeps the entry it loads the NPC's skin from.
pub proof fn lemma_npc_spawn_keeps_player_info(ns: Seq<LobbyNpc>, v: ProtocolVersion)
    ensures
        forall|k: int| 0 <= k < npcs_spawn_packets(ns, v).len() ==> !(#[trigger] npcs_spawn_packets(ns, v)[k] is PlayerInfoRemove)
            && !(npcs_spawn_packets(ns, v)[k] is PlayerInfoRemoveEntry) && !(npcs_spawn_packets(ns, v)[k] is PlayerInfoRemoveByName),
    decreases ns.len(),
{
    if ns.len() > 0 {
        lemma_npc_spawn_keeps_player_info(ns.drop_last(), v);
        let a = npcs_spawn_packets(ns.drop_last(), v);
        let b = spawn_packets(npc_spawn(ns.last()), v);
        assert forall|k: int| 0 <= k < npcs_spawn_packets(ns, v).len() implies !(#[trigger] npcs_spawn_packets(ns, v)[k] is PlayerInfoRemove)
            && !(npcs_spawn_packets(ns, v)[k] is PlayerInfoRemoveEntry) && !(npcs_spawn_packets(ns, v)[k] is PlayerInfoRemoveByName) by {
            if k < a.len() {
                assert(npcs_spawn_packets(ns, v)[k] == a[k]);
            } else {
                assert(npcs_spawn_packets(ns, v)[k] == b[k - a.len()]);
            }
        }
    }
}

/// The packets despawning every session of `ss`, in order.
pub open spec fn sessions_hide_packets(ss: Seq<LobbySession>, v: ProtocolVersion) -> Seq<VisibilityPacket>
    decreases ss.len(),
{
    if ss.len() == 0 {
        seq![]
    } else {
        sessions_hide_packets(ss.drop_last(), v) + leave_packets(v, ss.last().uuid, ss.last().username, ss.last().entity_id)
    }
}

/// What a player who flips the visibility toggle is sent: every other
/// player spawned when they become visible, despawned when they are hidden.
pub fn visibility_toggle_packets(plan: &LobbyJoinPlan, version: ProtocolVersion, visible: bool) -> (r: Vec<VisibilityPacket>)
    ensures
        r@ == if visible {
            sessions_spawn_packets(plan.existing_sessions@, version)
        } else {
            sessions_hide_packets(plan.existing_sessions@, version)
        },
{
    if visible {
        return join_visibility_packets_for_newcomer(plan, version);
    }
    let mut out: Vec<VisibilityPacket> = Vec::new();
    let mut i: usize = 0;
    while i < plan.existing_sessions.len()
        invariant
            i <= plan.existing_sessions@.len(),
            out@ == sessions_hide_packets(plan.existing_sessions@.take(i as int), version),
        decreases plan.existing_sessions.len() - i,
    {
        assert(plan.existing_sessions@.take(i + 1).drop_last() =~= plan.existing_sessions@.take(i as int));
        let s = &plan.existing_sessions[i];
        append(&mut out, leave_visibility_packets(version, s.uuid, &s.username, s.entity_id));
        i = i + 1;
    }
    assert(plan.existing_sessions@.take(plan.existing_sessions@.len() as int) =~= plan.existing_sessions@);
    out
}

} // verus!
