use vstd::prelude::*;
use crate::protocol::ProtocolVersion;
use vstd::string::StringSliceAdditionalSpecFns;
use crate::text::{eq_ignore_ascii_case, str_eq_ignore_ascii_case, trim, trimmed_chars, chars_of};

verus! {

/// Network entity id of a player or NPC in the lobby world.
#[derive(Debug, Clone, Copy, PartialEq, Eq, Hash, Structural)]
pub struct EntityId(pub i32);

impl EntityId {
    pub fn new(value: i32) -> (id: Self)
        ensures
            id.0 == value,
    {
        EntityId(value)
    }

    pub fn get(self) -> (v: i32)
        ensures
            v == self.0,
    {
        self.0
    }
}

/// Identity of one stay of one player in the lobby.
#[derive(Debug, Clone, Copy, PartialEq, Eq, Hash, PartialOrd, Ord, Structural)]
pub struct LobbySessionId(pub u64);

impl LobbySessionId {
    pub fn new(value: u64) -> (id: Self)
        ensures
            id.0 == value,
    {
        LobbySessionId(value)
    }

    pub fn get(self) -> (v: u64)
        ensures
            v == self.0,
    {
        self.0
    }
}

/// A position and look direction, each coordinate held as the bit pattern of
/// its IEEE-754 value (`f64::to_bits` for x, y, z and `f32::to_bits` for yaw
/// and pitch). The lobby only stores and forwards positions.
#[derive(Debug, Clone, Copy, PartialEq, Eq, Hash, Structural)]
pub struct LobbyPosition {
    pub x_bits: u64,
    pub y_bits: u64,
    pub z_bits: u64,
    pub yaw_bits: u32,
    pub pitch_bits: u32,
}

impl LobbyPosition {
    pub fn new(x_bits: u64, y_bits: u64, z_bits: u64, yaw_bits: u32, pitch_bits: u32) -> (p: Self)
        ensures
            p.x_bits == x_bits,
            p.y_bits == y_bits,
            p.z_bits == z_bits,
            p.yaw_bits == yaw_bits,
            p.pitch_bits == pitch_bits,
    {
        LobbyPosition { x_bits, y_bits, z_bits, yaw_bits, pitch_bits }
    }
}

impl Default for LobbyPosition {
    /// The origin, looking straight ahead (all coordinates `0.0`).
    fn default() -> (p: Self)
        ensures
            p.x_bits == 0 && p.y_bits == 0 && p.z_bits == 0 && p.yaw_bits == 0 && p.pitch_bits
                == 0,
    {
        LobbyPosition { x_bits: 0, y_bits: 0, z_bits: 0, yaw_bits: 0, pitch_bits: 0 }
    }
}

#[derive(Debug, Clone, Copy, PartialEq, Eq, Structural)]
pub enum LobbySessionLifecycle {
    Joined,
}

/// Chat mode a client reported in its settings.
#[derive(Debug, Clone, Copy, PartialEq, Eq, Structural)]
pub enum ChatVisibility {
    Full,
    CommandsOnly,
    Hidden,
    Unknown,
}

impl Default for ChatVisibility {
    fn default() -> (v: Self)
        ensures
            v == ChatVisibility::Unknown,
    {
        ChatVisibility::Unknown
    }
}

/// Whether a client with this chat mode is sent ordinary chat.
pub open spec fn receives_chat(v: ChatVisibility) -> bool {
    v != ChatVisibility::Hidden
}

impl ChatVisibility {
    pub fn from_client_mode(mode: i32) -> (v: Self)
        ensures
            v == (if mode == 0 {
                ChatVisibility::Full
            } else if mode == 1 {
                ChatVisibility::CommandsOnly
            } else if mode == 2 {
                ChatVisibility::Hidden
            } else {
                ChatVisibility::Unknown
            }),
    {
        match mode {
            0 => ChatVisibility::Full,
            1 => ChatVisibility::CommandsOnly,
            2 => ChatVisibility::Hidden,
            _ => ChatVisibility::Unknown,
        }
    }

    pub fn receives_normal_chat(self) -> (b: bool)
        ensures
            b == receives_chat(self),
    {
        !matches!(self, ChatVisibility::Hidden)
    }

    pub fn receives_private_messages(self) -> (b: bool)
        ensures
            b == receives_chat(self),
    {
        !matches!(self, ChatVisibility::Hidden)
    }
}

/// A signed profile property, such as a player's `textures`.
#[derive(Debug, Clone, PartialEq, Eq)]
pub struct Property {
    pub name: String,
    pub value: String,
    pub signature: Option<String>,
}

fn copy_option_string(o: &Option<String>) -> (r: Option<String>)
    ensures
        r == *o,
{
    match o {
        Some(s) => Some(s.clone()),
        None => None,
    }
}

impl Property {
    /// A `textures` property with the given value and optional signature.
    pub fn textures(value: &str, signature: Option<&str>) -> (p: Property)
        ensures
            p.name@ == "textures"@,
            p.value@ == value@,
            match signature {
                Some(s) => p.signature.is_some() && p.signature.unwrap()@ == s@,
                None => p.signature.is_none(),
            },
    {
        Property {
            name: "textures".to_string(),
            value: value.to_string(),
            signature: match signature {
                Some(s) => Some(s.to_string()),
                None => None,
            },
        }
    }

    pub fn duplicate(&self) -> (p: Property)
        ensures
            p == *self,
    {
        Property {
            name: self.name.clone(),
            value: self.value.clone(),
            signature: copy_option_string(&self.signature),
        }
    }
}

pub fn copy_option_property(o: &Option<Property>) -> (r: Option<Property>)
    ensures
        r == *o,
{
    match o {
        Some(p) => Some(p.duplicate()),
        None => None,
    }
}

/// One player currently in the lobby.
#[derive(Debug, Clone)]
pub struct LobbySession {
    pub session_id: LobbySessionId,
    pub uuid: u128,
    pub username: String,
    pub textures: Option<Property>,
    pub protocol_version: ProtocolVersion,
    pub entity_id: EntityId,
    pub position: LobbyPosition,
    pub crouching: bool,
    pub chat_visibility: ChatVisibility,
    pub lifecycle: LobbySessionLifecycle,
}

impl LobbySession {
    /// A session not yet admitted: its session and entity ids are `0` until
    /// [`LobbyState::insert`] assigns them.
    pub fn new(
        uuid: u128,
        username: &str,
        textures: Option<Property>,
        protocol_version: ProtocolVersion,
        position: LobbyPosition,
    ) -> (s: Self)
        ensures
            s.session_id.0 == 0,
            s.uuid == uuid,
            s.username@ == username@,
            s.textures == textures,
            s.protocol_version == protocol_version,
            s.entity_id.0 == 0,
            s.position == position,
            !s.crouching,
            s.chat_visibility == ChatVisibility::Unknown,
            s.lifecycle == LobbySessionLifecycle::Joined,
    {
        LobbySession {
            session_id: LobbySessionId(0),
            uuid,
            username: username.to_string(),
            textures,
            protocol_version,
            entity_id: EntityId(0),
            position,
            crouching: false,
            chat_visibility: ChatVisibility::Unknown,
            lifecycle: LobbySessionLifecycle::Joined,
        }
    }

    pub fn duplicate(&self) -> (s: LobbySession)
        ensures
            s == *self,
    {
        LobbySession {
            session_id: self.session_id,
            uuid: self.uuid,
            username: self.username.clone(),
            textures: copy_option_property(&self.textures),
            protocol_version: self.protocol_version,
            entity_id: self.entity_id,
            position: self.position,
            crouching: self.crouching,
            chat_visibility: self.chat_visibility,
            lifecycle: self.lifecycle,
        }
    }
}

/// Configured identifier of a lobby NPC.
#[derive(Debug, Clone, PartialEq, Eq, Hash, PartialOrd, Ord)]
pub struct LobbyNpcId(pub String);

impl LobbyNpcId {
    pub fn new(value: &str) -> (id: Self)
        ensures
            id.0@ == value@,
    {
        LobbyNpcId(value.to_string())
    }

    pub fn as_str(&self) -> (s: &str)
        ensures
            s@ == self.0@,
    {
        self.0.as_str()
    }

    pub fn duplicate(&self) -> (id: Self)
        ensures
            id == *self,
    {
        LobbyNpcId(self.0.clone())
    }
}

#[derive(Debug, Clone, Copy, PartialEq, Eq, Structural)]
pub enum LobbyNpcKind {
    Player,
}

/// Starting value of the NPC UUID hash.
pub const NPC_UUID_HASH_SEED: u128 = 0xcbf2_9ce4_8422_2325;

/// The 128-bit FNV-1a prime.
pub const FNV_PRIME_128: u128 = 0x0000_0000_0100_0000_0000_0000_0000_013b;

/// FNV-1a style 128-bit hash of a byte string, seeded with
/// [`NPC_UUID_HASH_SEED`].
pub open spec fn npc_uuid_hash(bytes: Seq<u8>) -> u128
    decreases bytes.len(),
{
    if bytes.len() == 0 {
        NPC_UUID_HASH_SEED
    } else {
        (npc_uuid_hash(bytes.drop_last()) ^ (bytes.last() as u128)).wrapping_mul(FNV_PRIME_128)
    }
}

/// A stable UUID for an NPC, derived from its configured id.
pub fn deterministic_npc_uuid(id: &str) -> (u: u128)
    ensures
        u == npc_uuid_hash(id.spec_bytes()),
{
    let bytes = id.as_bytes();
    let mut hash: u128 = NPC_UUID_HASH_SEED;
    let mut i: usize = 0;
    while i < bytes.len()
        invariant
            i <= bytes@.len(),
            bytes@ == id.spec_bytes(),
            hash == npc_uuid_hash(bytes@.take(i as int)),
        decreases bytes.len() - i,
    {
        assert(bytes@.take(i + 1).drop_last() =~= bytes@.take(i as int));
        hash = (hash ^ (bytes[i] as u128)).wrapping_mul(FNV_PRIME_128);
        i = i + 1;
    }
    assert(bytes@.take(bytes.len() as int) =~= bytes@);
    hash
}

/// A player-shaped NPC that sends players to a destination when used.
#[derive(Debug, Clone)]
pub struct LobbyNpc {
    pub id: LobbyNpcId,
    pub destination_id: String,
    pub name: String,
    pub uuid: u128,
    pub entity_id: EntityId,
    pub position: LobbyPosition,
    pub kind: LobbyNpcKind,
    pub textures: Option<Property>,
}

/// What using an NPC leads to.
#[derive(Debug, Clone, PartialEq, Eq)]
pub struct LobbyNpcInteraction {
    pub npc_id: LobbyNpcId,
    pub destination_id: String,
}

impl LobbyNpc {
    /// A player NPC; its entity id is `0` until a [`LobbyState`] assigns one.
    pub fn player(id: &str, destination_id: &str, name: &str, position: LobbyPosition) -> (n: Self)
        ensures
            n.id.0@ == id@,
            n.destination_id@ == destination_id@,
            n.name@ == name@,
            n.uuid == npc_uuid_hash(id.spec_bytes()),
            n.entity_id.0 == 0,
            n.position == position,
            n.kind == LobbyNpcKind::Player,
            n.textures.is_none(),
    {
        LobbyNpc {
            uuid: deterministic_npc_uuid(id),
            id: LobbyNpcId::new(id),
            destination_id: destination_id.to_string(),
            name: name.to_string(),
            entity_id: EntityId(0),
            position,
            kind: LobbyNpcKind::Player,
            textures: None,
        }
    }

    pub fn duplicate(&self) -> (n: LobbyNpc)
        ensures
            n == *self,
    {
        LobbyNpc {
            id: self.id.duplicate(),
            destination_id: self.destination_id.clone(),
            name: self.name.clone(),
            uuid: self.uuid,
            entity_id: self.entity_id,
            position: self.position,
            kind: self.kind,
            textures: copy_option_property(&self.textures),
        }
    }

    /// The interaction this NPC offers: its id and destination.
    pub fn interaction(&self) -> (i: LobbyNpcInteraction)
        ensures
            i.npc_id == self.id,
            i.destination_id == self.destination_id,
    {
        LobbyNpcInteraction { npc_id: self.id.duplicate(), destination_id: self.destination_id.clone() }
    }
}

/// One client that should receive a lobby broadcast.
#[derive(Debug, Clone, Copy, PartialEq, Eq, Structural)]
pub struct LobbyRecipient {
    pub session_id: LobbySessionId,
    pub uuid: u128,
    pub entity_id: EntityId,
    pub protocol_version: ProtocolVersion,
}

/// The recipient record of a session.
pub open spec fn recipient_of(s: LobbySession) -> LobbyRecipient {
    LobbyRecipient {
        session_id: s.session_id,
        uuid: s.uuid,
        entity_id: s.entity_id,
        protocol_version: s.protocol_version,
    }
}

pub fn recipient_for_session(s: &LobbySession) -> (r: LobbyRecipient)
    ensures
        r == recipient_of(*s),
{
    LobbyRecipient {
        session_id: s.session_id,
        uuid: s.uuid,
        entity_id: s.entity_id,
        protocol_version: s.protocol_version,
    }
}

/// The sessions of `ss` that do not satisfy `p`, in order.
pub open spec fn drop_where(ss: Seq<LobbySession>, p: spec_fn(LobbySession) -> bool) -> Seq<
    LobbySession,
>
    decreases ss.len(),
{
    if ss.len() == 0 {
        ss
    } else if p(ss.last()) {
        drop_where(ss.drop_last(), p)
    } else {
        drop_where(ss.drop_last(), p).push(ss.last())
    }
}

/// The recipient records of the sessions of `ss` that satisfy `keep`, in order.
pub open spec fn recipients_where(ss: Seq<LobbySession>, keep: spec_fn(LobbySession) -> bool) -> Seq<
    LobbyRecipient,
>
    decreases ss.len(),
{
    if ss.len() == 0 {
        seq![]
    } else if keep(ss.last()) {
        recipients_where(ss.drop_last(), keep).push(recipient_of(ss.last()))
    } else {
        recipients_where(ss.drop_last(), keep)
    }
}

/// Sessions other than `exclude`.
pub open spec fn not_excluded(exclude: Option<LobbySessionId>) -> spec_fn(LobbySession) -> bool {
    |s: LobbySession| exclude != Some(s.session_id)
}

/// Sessions whose chat mode lets them see ordinary chat.
pub open spec fn sees_chat() -> spec_fn(LobbySession) -> bool {
    |s: LobbySession| receives_chat(s.chat_visibility)
}

/// Sessions whose name equals `target`, ignoring ASCII case.
pub open spec fn named(target: Seq<char>) -> spec_fn(LobbySession) -> bool {
    |s: LobbySession| eq_ignore_ascii_case(s.username@, target)
}

/// The sessions whose name equals `target`, ignoring ASCII case.
pub open spec fn sessions_named(ss: Seq<LobbySession>, target: Seq<char>) -> Seq<LobbySession>
    decreases ss.len(),
{
    if ss.len() == 0 {
        ss
    } else if eq_ignore_ascii_case(ss.last().username@, target) {
        sessions_named(ss.drop_last(), target).push(ss.last())
    } else {
        sessions_named(ss.drop_last(), target)
    }
}

/// The session with the given session id, if any.
pub open spec fn session_with_id(ss: Seq<LobbySession>, sid: LobbySessionId) -> Option<LobbySession> {
    if exists|i: int| 0 <= i < ss.len() && ss[i].session_id == sid {
        Some(ss[choose|i: int| 0 <= i < ss.len() && ss[i].session_id == sid])
    } else {
        None
    }
}

/// The session of the player with the given UUID, if any.
pub open spec fn session_with_uuid(ss: Seq<LobbySession>, uuid: u128) -> Option<LobbySession> {
    if exists|i: int| 0 <= i < ss.len() && ss[i].uuid == uuid {
        Some(ss[choose|i: int| 0 <= i < ss.len() && ss[i].uuid == uuid])
    } else {
        None
    }
}

/// The session whose player has the given entity id, if any.
pub open spec fn session_with_entity(ss: Seq<LobbySession>, eid: EntityId) -> Option<LobbySession> {
    if exists|i: int| 0 <= i < ss.len() && ss[i].entity_id == eid {
        Some(ss[choose|i: int| 0 <= i < ss.len() && ss[i].entity_id == eid])
    } else {
        None
    }
}

proof fn lemma_drop_where_none(ss: Seq<LobbySession>, p: spec_fn(LobbySession) -> bool)
    requires
        forall|j: int| 0 <= j < ss.len() ==> !p(#[trigger] ss[j]),
    ensures
        drop_where(ss, p) == ss,
    decreases ss.len(),
{
    if ss.len() > 0 {
        lemma_drop_where_none(ss.drop_last(), p);
        assert(ss.drop_last().push(ss.last()) =~= ss);
    }
}

proof fn lemma_drop_where_single(ss: Seq<LobbySession>, p: spec_fn(LobbySession) -> bool, i: int)
    requires
        0 <= i < ss.len(),
        p(ss[i]),
        forall|j: int| 0 <= j < ss.len() && j != i ==> !p(#[trigger] ss[j]),
    ensures
        drop_where(ss, p) == ss.remove(i),
    decreases ss.len(),
{
    if i == ss.len() - 1 {
        lemma_drop_where_none(ss.drop_last(), p);
        assert(ss.drop_last() =~= ss.remove(i));
    } else {
        lemma_drop_where_single(ss.drop_last(), p, i);
        assert(ss.drop_last().remove(i).push(ss.last()) =~= ss.remove(i));
    }
}

/// A reply target remembered for a session.
#[derive(Debug, Clone, Copy)]
struct ReplyPeer {
    session_id: LobbySessionId,
    peer_uuid: u128,
}

/// The map view of a list of reply entries; later entries win.
spec fn peers_map(ps: Seq<ReplyPeer>) -> Map<LobbySessionId, u128>
    decreases ps.len(),
{
    if ps.len() == 0 {
        Map::empty()
    } else {
        peers_map(ps.drop_last()).insert(ps.last().session_id, ps.last().peer_uuid)
    }
}

spec fn peers_without(ps: Seq<ReplyPeer>, sid: LobbySessionId) -> Seq<ReplyPeer>
    decreases ps.len(),
{
    if ps.len() == 0 {
        ps
    } else if ps.last().session_id == sid {
        peers_without(ps.drop_last(), sid)
    } else {
        peers_without(ps.drop_last(), sid).push(ps.last())
    }
}

proof fn lemma_peers_without(ps: Seq<ReplyPeer>, sid: LobbySessionId)
    ensures
        peers_map(peers_without(ps, sid)) == peers_map(ps).remove(sid),
    decreases ps.len(),
{
    if ps.len() > 0 {
        lemma_peers_without(ps.drop_last(), sid);
        let rest = peers_without(ps.drop_last(), sid);
        if ps.last().session_id == sid {
            assert(peers_map(ps).remove(sid) =~= peers_map(ps.drop_last()).remove(sid));
        } else {
            assert(peers_without(ps, sid) == rest.push(ps.last()));
            assert(rest.push(ps.last()).drop_last() =~= rest);
            assert(peers_map(rest.push(ps.last())) =~= peers_map(ps).remove(sid));
        }
    } else {
        assert(peers_map(ps).remove(sid) =~= Map::empty());
    }
}

/// Session ids grow strictly, entity ids grow strictly and lie above the
/// NPC ids and below `next_eid`, session ids lie in `1..next_sid`, and no two
/// sessions share a UUID.
pub open spec fn sessions_ok(ss: Seq<LobbySession>, npc_count: int, next_sid: int, next_eid: int) -> bool {
    &&& forall|i: int|
        0 <= i < ss.len() ==> 1 <= (#[trigger] ss[i]).session_id.0 < next_sid && npc_count
            < ss[i].entity_id.0 < next_eid
    &&& forall|i: int, j: int|
        0 <= i < j < ss.len() ==> (#[trigger] ss[i]).session_id.0 < (#[trigger] ss[j]).session_id.0
            && ss[i].entity_id.0 < ss[j].entity_id.0
    &&& forall|i: int, j: int|
        0 <= i < ss.len() && 0 <= j < ss.len() && i != j ==> (#[trigger] ss[i]).uuid != (
        #[trigger] ss[j]).uuid
}

proof fn lemma_sessions_ok_remove(ss: Seq<LobbySession>, npc_count: int, next_sid: int, next_eid: int, k: int)
    requires
        sessions_ok(ss, npc_count, next_sid, next_eid),
        0 <= k < ss.len(),
    ensures
        sessions_ok(ss.remove(k), npc_count, next_sid, next_eid),
{
    let r = ss.remove(k);
    assert forall|i: int| 0 <= i < r.len() implies #[trigger] r[i] == (if i < k { ss[i] } else { ss[i + 1] }) by {}
    assert forall|i: int, j: int| 0 <= i < j < r.len() implies (#[trigger] r[i]).session_id.0 < (#[trigger] r[j]).session_id.0
        && r[i].entity_id.0 < r[j].entity_id.0 by {
        let a = if i < k { i } else { i + 1 };
        let b = if j < k { j } else { j + 1 };
        assert(r[i] == ss[a] && r[j] == ss[b] && a < b);
    }
    assert forall|i: int, j: int| 0 <= i < r.len() && 0 <= j < r.len() && i != j implies (#[trigger] r[i]).uuid != (#[trigger] r[j]).uuid by {
        let a = if i < k { i } else { i + 1 };
        let b = if j < k { j } else { j + 1 };
        assert(r[i] == ss[a] && r[j] == ss[b] && a != b);
    }
}

proof fn lemma_sessions_ok_push(ss: Seq<LobbySession>, npc_count: int, next_sid: int, next_eid: int, s: LobbySession)
    requires
        sessions_ok(ss, npc_count, next_sid, next_eid),
        s.session_id.0 == next_sid,
        s.entity_id.0 == next_eid,
        npc_count < next_eid,
        1 <= next_sid,
        forall|i: int| 0 <= i < ss.len() ==> (#[trigger] ss[i]).uuid != s.uuid,
    ensures
        sessions_ok(ss.push(s), npc_count, next_sid + 1, next_eid + 1),
{
    let r = ss.push(s);
    assert forall|i: int| 0 <= i < r.len() implies 1 <= (#[trigger] r[i]).session_id.0 < next_sid + 1 && npc_count
            < r[i].entity_id.0 < next_eid + 1 by {
        if i < ss.len() {
            assert(r[i] == ss[i]);
        }
    }
    assert forall|i: int, j: int| 0 <= i < j < r.len() implies (#[trigger] r[i]).session_id.0 < (#[trigger] r[j]).session_id.0
        && r[i].entity_id.0 < r[j].entity_id.0 by {
        assert(r[i] == ss[i]);
        if j < ss.len() {
            assert(r[j] == ss[j]);
        }
    }
    assert forall|i: int, j: int| 0 <= i < r.len() && 0 <= j < r.len() && i != j implies (#[trigger] r[i]).uuid != (#[trigger] r[j]).uuid by {
        if i < ss.len() {
            assert(r[i] == ss[i]);
        }
        if j < ss.len() {
            assert(r[j] == ss[j]);
        }
    }
}

proof fn lemma_sessions_ok_update(ss: Seq<LobbySession>, npc_count: int, next_sid: int, next_eid: int, k: int, s: LobbySession)
    requires
        sessions_ok(ss, npc_count, next_sid, next_eid),
        0 <= k < ss.len(),
        s.session_id == ss[k].session_id,
        s.entity_id == ss[k].entity_id,
        s.uuid == ss[k].uuid,
    ensures
        sessions_ok(ss.update(k, s), npc_count, next_sid, next_eid),
{
    let r = ss.update(k, s);
    assert forall|i: int, j: int| 0 <= i < j < r.len() implies (#[trigger] r[i]).session_id.0 < (#[trigger] r[j]).session_id.0
        && r[i].entity_id.0 < r[j].entity_id.0 by {
        assert(ss[i].session_id.0 < ss[j].session_id.0);
    }
    assert forall|i: int, j: int| 0 <= i < r.len() && 0 <= j < r.len() && i != j implies (#[trigger] r[i]).uuid != (#[trigger] r[j]).uuid by {
        assert(ss[i].uuid != ss[j].uuid);
    }
    assert forall|i: int| 0 <= i < r.len() implies 1 <= (#[trigger] r[i]).session_id.0 < next_sid && npc_count
            < r[i].entity_id.0 < next_eid by {
        assert(1 <= ss[i].session_id.0);
    }
}

/// The lobby: its NPCs, the players in it, and the reply targets of private
/// messages.
///
/// Sessions are kept in admission order, which is also ascending session id
/// and ascending entity id order.
pub struct LobbyState {
    next_session_id: u64,
    next_entity_id: i32,
    npcs: Vec<LobbyNpc>,
    sessions: Vec<LobbySession>,
    reply_peers: Vec<ReplyPeer>,
}

impl LobbyState {
    /// The players in the lobby, in admission order.
    pub closed spec fn sessions(&self) -> Seq<LobbySession> {
        self.sessions@
    }

    /// The lobby's NPCs, in configuration order.
    pub closed spec fn npcs(&self) -> Seq<LobbyNpc> {
        self.npcs@
    }

    /// For each session, the UUID of the player its `/reply` goes to.
    pub closed spec fn reply_peers(&self) -> Map<LobbySessionId, u128> {
        peers_map(self.reply_peers@)
    }

    /// The session id the next admitted player gets.
    pub closed spec fn next_session_id(&self) -> u64 {
        self.next_session_id
    }

    /// The entity id the next admitted player gets.
    pub closed spec fn next_entity_id(&self) -> i32 {
        self.next_entity_id
    }

    /// Consistency of the lobby: NPCs hold entity ids `1..=n`; players hold
    /// larger entity ids; session and entity ids grow strictly in admission
    /// order and stay below the counters; no two players share a UUID.
    pub closed spec fn wf(&self) -> bool {
        let ns = self.npcs@;
        &&& 1 <= self.next_session_id
        &&& 1 <= self.next_entity_id
        &&& ns.len() < self.next_entity_id
        &&& forall|i: int| 0 <= i < ns.len() ==> (#[trigger] ns[i]).entity_id.0 == i + 1
        &&& sessions_ok(self.sessions@, ns.len() as int, self.next_session_id as int, self.next_entity_id as int)
    }

    /// Whether another player can be admitted before an id counter runs out.
    pub open spec fn can_admit(&self) -> bool {
        self.next_session_id() < u64::MAX && self.next_entity_id() < i32::MAX
    }

    /// Executable form of [`LobbyState::can_admit`].
    pub fn has_free_ids(&self) -> (b: bool)
        ensures
            b == self.can_admit(),
    {
        self.next_session_id < u64::MAX && self.next_entity_id < i32::MAX
    }

    proof fn lemma_index_sid(&self, i: int)
        requires
            self.wf(),
            0 <= i < self.sessions@.len(),
        ensures
            session_with_id(self.sessions@, self.sessions@[i].session_id) == Some(self.sessions@[i]),
    {
        let ss = self.sessions@;
        let sid = ss[i].session_id;
        let j = choose|j: int| 0 <= j < ss.len() && ss[j].session_id == sid;
        if j < i {
            assert(ss[j].session_id.0 < ss[i].session_id.0);
        } else if i < j {
            assert(ss[i].session_id.0 < ss[j].session_id.0);
        }
    }

    proof fn lemma_index_uuid(&self, i: int)
        requires
            self.wf(),
            0 <= i < self.sessions@.len(),
        ensures
            session_with_uuid(self.sessions@, self.sessions@[i].uuid) == Some(self.sessions@[i]),
    {
        let ss = self.sessions@;
        let j = choose|j: int| 0 <= j < ss.len() && ss[j].uuid == ss[i].uuid;
        if j != i {
            assert(ss[j].uuid != ss[i].uuid);
        }
    }

    proof fn lemma_index_entity(&self, i: int)
        requires
            self.wf(),
            0 <= i < self.sessions@.len(),
        ensures
            session_with_entity(self.sessions@, self.sessions@[i].entity_id) == Some(self.sessions@[i]),
    {
        let ss = self.sessions@;
        let eid = ss[i].entity_id;
        let j = choose|j: int| 0 <= j < ss.len() && ss[j].entity_id == eid;
        if j < i {
            assert(ss[j].entity_id.0 < ss[i].entity_id.0);
        } else if i < j {
            assert(ss[i].entity_id.0 < ss[j].entity_id.0);
        }
    }

    fn index_of_session_id(&self, sid: LobbySessionId) -> (r: Option<usize>)
        requires
            self.wf(),
        ensures
            match r {
                Some(i) => i < self.sessions@.len() && self.sessions@[i as int].session_id == sid
                    && session_with_id(self.sessions@, sid) == Some(self.sessions@[i as int]),
                None => session_with_id(self.sessions@, sid).is_none() && forall|j: int|
                    0 <= j < self.sessions@.len() ==> (#[trigger] self.sessions@[j]).session_id
                        != sid,
            },
    {
        let mut i: usize = 0;
        while i < self.sessions.len()
            invariant
                self.wf(),
                i <= self.sessions@.len(),
                forall|j: int| 0 <= j < i ==> (#[trigger] self.sessions@[j]).session_id != sid,
            decreases self.sessions.len() - i,
        {
            if self.sessions[i].session_id == sid {
                proof {
                    self.lemma_index_sid(i as int);
                }
                return Some(i);
            }
            i = i + 1;
        }
        None
    }

    fn index_of_uuid(&self, uuid: u128) -> (r: Option<usize>)
        requires
            self.wf(),
        ensures
            match r {
                Some(i) => i < self.sessions@.len() && self.sessions@[i as int].uuid == uuid
                    && session_with_uuid(self.sessions@, uuid) == Some(self.sessions@[i as int]),
                None => session_with_uuid(self.sessions@, uuid).is_none() && forall|j: int|
                    0 <= j < self.sessions@.len() ==> (#[trigger] self.sessions@[j]).uuid != uuid,
            },
    {
        let mut i: usize = 0;
        while i < self.sessions.len()
            invariant
                self.wf(),
                i <= self.sessions@.len(),
                forall|j: int| 0 <= j < i ==> (#[trigger] self.sessions@[j]).uuid != uuid,
            decreases self.sessions.len() - i,
        {
            if self.sessions[i].uuid == uuid {
                proof {
                    self.lemma_index_uuid(i as int);
                }
                return Some(i);
            }
            i = i + 1;
        }
        None
    }

    fn index_of_entity(&self, eid: EntityId) -> (r: Option<usize>)
        requires
            self.wf(),
        ensures
            match r {
                Some(i) => i < self.sessions@.len() && self.sessions@[i as int].entity_id == eid
                    && session_with_entity(self.sessions@, eid) == Some(self.sessions@[i as int]),
                None => session_with_entity(self.sessions@, eid).is_none() && forall|j: int|
                    0 <= j < self.sessions@.len() ==> (#[trigger] self.sessions@[j]).entity_id
                        != eid,
            },
    {
        let mut i: usize = 0;
        while i < self.sessions.len()
            invariant
                self.wf(),
                i <= self.sessions@.len(),
                forall|j: int| 0 <= j < i ==> (#[trigger] self.sessions@[j]).entity_id != eid,
            decreases self.sessions.len() - i,
        {
            if self.sessions[i].entity_id == eid {
                proof {
                    self.lemma_index_entity(i as int);
                }
                return Some(i);
            }
            i = i + 1;
        }
        None
    }
}

/// The NPCs every newcomer must be shown.
#[derive(Debug, Clone)]
pub struct LobbyNpcSpawnPlan {
    pub npcs: Vec<LobbyNpc>,
}

/// What the remaining players must be told when one leaves.
#[derive(Debug, Clone, PartialEq, Eq)]
pub struct LobbyLeavePlan {
    pub departed_uuid: u128,
    pub departed_username: String,
    pub departed_entity_id: EntityId,
    pub recipients: Vec<LobbyRecipient>,
    pub lifecycle_message_recipients: Vec<LobbyRecipient>,
}

/// A player moved: who moved, from where to where, and who sees it.
#[derive(Debug, Clone, PartialEq)]
pub struct LobbyMovementPlan {
    pub moving_session_id: LobbySessionId,
    pub moving_entity_id: EntityId,
    pub previous_position: LobbyPosition,
    pub current_position: LobbyPosition,
    pub recipients: Vec<LobbyRecipient>,
}

/// A player's crouching state changed.
#[derive(Debug, Clone, PartialEq, Eq)]
pub struct LobbyMetadataPlan {
    pub session_id: LobbySessionId,
    pub entity_id: EntityId,
    pub crouching: bool,
    pub recipients: Vec<LobbyRecipient>,
}

/// A player swung their arm.
#[derive(Debug, Clone, PartialEq, Eq)]
pub struct LobbySwingPlan {
    pub swinging_session_id: LobbySessionId,
    pub swinging_entity_id: EntityId,
    pub recipients: Vec<LobbyRecipient>,
}

/// A newcomer and the players already present.
#[derive(Debug, Clone)]
pub struct LobbyJoinPlan {
    pub new_session: LobbySession,
    pub existing_sessions: Vec<LobbySession>,
    pub existing_recipients: Vec<LobbyRecipient>,
}

/// A public chat message and who reads it.
#[derive(Debug, Clone, PartialEq, Eq)]
pub struct LobbyChatPlan {
    pub sender_session_id: LobbySessionId,
    pub sender_username: String,
    pub message: String,
    pub format: String,
    pub recipients: Vec<LobbyRecipient>,
}

/// A private message between two players.
#[derive(Debug, Clone, PartialEq, Eq)]
pub struct LobbyPrivateMessagePlan {
    pub sender_session_id: LobbySessionId,
    pub recipient_session_id: LobbySessionId,
    pub sender_username: String,
    pub recipient_username: String,
    pub message: String,
    pub sender_format: String,
    pub recipient_format: String,
    pub sender_recipient: LobbyRecipient,
    pub message_recipient: LobbyRecipient,
}

/// A join or leave announcement and who reads it.
#[derive(Debug, Clone, PartialEq, Eq)]
pub struct LobbyLifecycleMessagePlan {
    pub player_username: String,
    pub template: String,
    pub recipients: Vec<LobbyRecipient>,
}

/// Why a private message or reply cannot be delivered.
#[derive(Debug, Clone, Copy, PartialEq, Eq, Structural)]
pub enum LobbyPrivateMessageError {
    Unavailable,
    UnknownTarget,
    AmbiguousTarget,
    HiddenTarget,
    MissingReplyTarget,
    SelfMessage,
}

impl LobbyPrivateMessageError {
    /// The human-readable description of the error.
    pub fn message(&self) -> (s: &'static str)
        ensures
            s@ == private_message_error_text(*self),
    {
        match self {
            LobbyPrivateMessageError::Unavailable => "private messages are only available in the lobby",
            LobbyPrivateMessageError::UnknownTarget => "target player is not online",
            LobbyPrivateMessageError::AmbiguousTarget => "target player is ambiguous",
            LobbyPrivateMessageError::HiddenTarget => "target player has hidden chat",
            LobbyPrivateMessageError::MissingReplyTarget => "no reply target",
            LobbyPrivateMessageError::SelfMessage => "cannot message self",
        }
    }
}

/// The description of each private-message error.
pub open spec fn private_message_error_text(e: LobbyPrivateMessageError) -> Seq<char> {
    match e {
        LobbyPrivateMessageError::Unavailable => "private messages are only available in the lobby"@,
        LobbyPrivateMessageError::UnknownTarget => "target player is not online"@,
        LobbyPrivateMessageError::AmbiguousTarget => "target player is ambiguous"@,
        LobbyPrivateMessageError::HiddenTarget => "target player has hidden chat"@,
        LobbyPrivateMessageError::MissingReplyTarget => "no reply target"@,
        LobbyPrivateMessageError::SelfMessage => "cannot message self"@,
    }
}

/// Whether `sender` may send a private message to `recipient`.
pub open spec fn pair_check(sender: LobbySession, recipient: LobbySession) -> Result<
    (),
    LobbyPrivateMessageError,
> {
    if sender.session_id == recipient.session_id {
        Err(LobbyPrivateMessageError::SelfMessage)
    } else if !receives_chat(recipient.chat_visibility) {
        Err(LobbyPrivateMessageError::HiddenTarget)
    } else {
        Ok(())
    }
}

/// The unique session named `target` (ignoring ASCII case), or why there is none.
pub open spec fn find_target(ss: Seq<LobbySession>, target: Seq<char>) -> Result<
    LobbySession,
    LobbyPrivateMessageError,
> {
    let m = sessions_named(ss, target);
    if m.len() == 0 {
        Err(LobbyPrivateMessageError::UnknownTarget)
    } else if m.len() == 1 {
        Ok(m[0])
    } else {
        Err(LobbyPrivateMessageError::AmbiguousTarget)
    }
}

/// The partner of a private message from `sender_sid` to a player named
/// `target`, or why the message cannot be sent.
pub open spec fn private_target(
    ss: Seq<LobbySession>,
    sender_sid: LobbySessionId,
    target: Seq<char>,
) -> Result<(LobbySession, LobbySession), LobbyPrivateMessageError> {
    match session_with_id(ss, sender_sid) {
        None => Err(LobbyPrivateMessageError::Unavailable),
        Some(sender) => match find_target(ss, target) {
            Err(e) => Err(e),
            Ok(recipient) => match pair_check(sender, recipient) {
                Err(e) => Err(e),
                Ok(_) => Ok((sender, recipient)),
            },
        },
    }
}

/// The partner of a `/reply` from `sender_sid`, or why it cannot be sent.
pub open spec fn reply_target(
    ss: Seq<LobbySession>,
    peers: Map<LobbySessionId, u128>,
    sender_sid: LobbySessionId,
) -> Result<(LobbySession, LobbySession), LobbyPrivateMessageError> {
    match session_with_id(ss, sender_sid) {
        None => Err(LobbyPrivateMessageError::Unavailable),
        Some(sender) => if !peers.contains_key(sender_sid) {
            Err(LobbyPrivateMessageError::MissingReplyTarget)
        } else {
            match session_with_uuid(ss, peers[sender_sid]) {
                None => Err(LobbyPrivateMessageError::MissingReplyTarget),
                Some(recipient) => match pair_check(sender, recipient) {
                    Err(e) => Err(e),
                    Ok(_) => Ok((sender, recipient)),
                },
            }
        },
    }
}

/// The plan of a private message between two sessions.
pub open spec fn private_plan_of(
    sender: LobbySession,
    recipient: LobbySession,
    message: String,
    sender_format: String,
    recipient_format: String,
) -> LobbyPrivateMessagePlan {
    LobbyPrivateMessagePlan {
        sender_session_id: sender.session_id,
        recipient_session_id: recipient.session_id,
        sender_username: sender.username,
        recipient_username: recipient.username,
        message,
        sender_format,
        recipient_format,
        sender_recipient: recipient_of(sender),
        message_recipient: recipient_of(recipient),
    }
}

/// Why a configured NPC list is rejected.
#[derive(Debug, Clone, PartialEq, Eq)]
pub enum LobbyNpcValidationError {
    EmptyId,
    DuplicateId(String),
    EmptyDestination(String),
    EmptyName(String),
    NameTooLong(String),
}

/// The human-readable text of an NPC validation error.
pub open spec fn npc_validation_error_text(e: LobbyNpcValidationError) -> Seq<char> {
    match e {
        LobbyNpcValidationError::EmptyId => "lobby NPC id cannot be empty"@,
        LobbyNpcValidationError::DuplicateId(id) => "lobby NPC '"@ + id@ + "' is defined more than once"@,
        LobbyNpcValidationError::EmptyDestination(id) => "lobby NPC '"@ + id@ + "' has an empty destination"@,
        LobbyNpcValidationError::EmptyName(id) => "lobby NPC '"@ + id@ + "' has an empty name"@,
        LobbyNpcValidationError::NameTooLong(id) => "lobby NPC '"@ + id@ + "' has a name longer than 16 characters"@,
    }
}

impl LobbyNpcValidationError {
    /// The message describing the error.
    pub fn message(&self) -> (s: String)
        ensures
            s@ == npc_validation_error_text(*self),
    {
        match self {
            LobbyNpcValidationError::EmptyId => "lobby NPC id cannot be empty".to_string(),
            LobbyNpcValidationError::DuplicateId(id) => "lobby NPC '".to_string().concat(id.as_str()).concat(
                "' is defined more than once",
            ),
            LobbyNpcValidationError::EmptyDestination(id) => "lobby NPC '".to_string().concat(id.as_str()).concat(
                "' has an empty destination",
            ),
            LobbyNpcValidationError::EmptyName(id) => "lobby NPC '".to_string().concat(id.as_str()).concat(
                "' has an empty name",
            ),
            LobbyNpcValidationError::NameTooLong(id) => "lobby NPC '".to_string().concat(id.as_str()).concat(
                "' has a name longer than 16 characters",
            ),
        }
    }
}

/// Longest NPC name a client accepts, in characters.
pub const MAX_NPC_NAME_CHARS: usize = 16;

/// The problem with `npc` given the NPCs configured before it, if any.
pub open spec fn npc_issue(before: Seq<LobbyNpc>, npc: LobbyNpc) -> Option<LobbyNpcValidationError> {
    if trim(npc.id.0@).len() == 0 {
        Some(LobbyNpcValidationError::EmptyId)
    } else if exists|j: int| 0 <= j < before.len() && (#[trigger] before[j]).id.0@ == npc.id.0@ {
        Some(LobbyNpcValidationError::DuplicateId(npc.id.0))
    } else if trim(npc.destination_id@).len() == 0 {
        Some(LobbyNpcValidationError::EmptyDestination(npc.id.0))
    } else if trim(npc.name@).len() == 0 {
        Some(LobbyNpcValidationError::EmptyName(npc.id.0))
    } else if npc.name@.len() > MAX_NPC_NAME_CHARS {
        Some(LobbyNpcValidationError::NameTooLong(npc.id.0))
    } else {
        None
    }
}

/// The first problem in a configured NPC list, checked in order.
pub open spec fn npc_validation(ns: Seq<LobbyNpc>) -> Result<(), LobbyNpcValidationError>
    decreases ns.len(),
{
    if ns.len() == 0 {
        Ok(())
    } else {
        match npc_validation(ns.drop_last()) {
            Err(e) => Err(e),
            Ok(_) => match npc_issue(ns.drop_last(), ns.last()) {
                Some(e) => Err(e),
                None => Ok(()),
            },
        }
    }
}

/// `npc` with entity id `id`.
pub open spec fn npc_with_entity(npc: LobbyNpc, id: int) -> LobbyNpc {
    LobbyNpc { entity_id: EntityId(id as i32), ..npc }
}

impl LobbyState {
    /// An empty lobby without NPCs.
    pub fn new() -> (st: LobbyState)
        ensures
            st.wf(),
            st.sessions().len() == 0,
            st.npcs().len() == 0,
            st.reply_peers() == Map::<LobbySessionId, u128>::empty(),
            st.next_session_id() == 1,
            st.next_entity_id() == 1,
    {
        LobbyState::with_npcs(Vec::new())
    }

    /// An empty lobby with the given NPCs, which get entity ids `1..=n` in
    /// order; players are numbered after them.
    pub fn with_npcs(npcs: Vec<LobbyNpc>) -> (st: LobbyState)
        requires
            npcs@.len() < i32::MAX,
        ensures
            st.wf(),
            st.sessions().len() == 0,
            st.npcs().len() == npcs@.len(),
            forall|i: int|
                0 <= i < npcs@.len() ==> #[trigger] st.npcs()[i] == npc_with_entity(npcs@[i], i + 1),
            st.reply_peers() == Map::<LobbySessionId, u128>::empty(),
            st.next_session_id() == 1,
            st.next_entity_id() == npcs@.len() + 1,
    {
        let mut npcs = npcs;
        let n = npcs.len();
        let ghost orig = npcs@;
        let mut i: usize = 0;
        while i < n
            invariant
                n == npcs@.len() == orig.len(),
                n < i32::MAX,
                i <= n,
                forall|j: int| 0 <= j < i ==> #[trigger] npcs@[j] == npc_with_entity(orig[j], j + 1),
                forall|j: int| i <= j < n ==> #[trigger] npcs@[j] == orig[j],
            decreases n - i,
        {
            npcs[i].entity_id = EntityId((i + 1) as i32);
            i = i + 1;
        }
        let st = LobbyState {
            next_session_id: 1,
            next_entity_id: (n + 1) as i32,
            npcs,
            sessions: Vec::new(),
            reply_peers: Vec::new(),
        };
        assert(st.reply_peers() =~= Map::<LobbySessionId, u128>::empty());
        st
    }

    /// Checks a configured NPC list: ids must be non-blank and unique,
    /// destinations and names non-blank, names at most 16 characters.
    pub fn validate_npcs(npcs: &[LobbyNpc]) -> (r: Result<(), LobbyNpcValidationError>)
        ensures
            r == npc_validation(npcs@),
    {
        let mut i: usize = 0;
        while i < npcs.len()
            invariant
                i <= npcs@.len(),
                npc_validation(npcs@.take(i as int)) == Ok::<(), LobbyNpcValidationError>(()),
            decreases npcs.len() - i,
        {
            let ghost before = npcs@.take(i as int);
            assert(npcs@.take(i + 1).drop_last() =~= before);
            let npc = &npcs[i];
            if trimmed_chars(npc.id.as_str()).len() == 0 {
                assert(npcs@.take(i + 1).last() == npcs@[i as int]);
                proof {
                    lemma_validation_stop(npcs@, i as int);
                }
                return Err(LobbyNpcValidationError::EmptyId);
            }
            let mut j: usize = 0;
            while j < i
                invariant
                    i < npcs@.len(),
                    j <= i,
                    before == npcs@.take(i as int),
                    trim(npcs@[i as int].id.0@).len() != 0,
                    *npc == npcs@[i as int],
                    npc_validation(npcs@.take(i as int)) == Ok::<(), LobbyNpcValidationError>(()),
                    forall|k: int| 0 <= k < j ==> (#[trigger] npcs@[k]).id.0@ != npcs@[i as int].id.0@,
                decreases i - j,
            {
                if crate::text::str_equal(npcs[j].id.as_str(), npc.id.as_str()) {
                    assert(before[j as int].id.0@ == npcs@[i as int].id.0@);
                    assert(exists|k: int| 0 <= k < before.len() && (#[trigger] before[k]).id.0@ == npcs@[i as int].id.0@);
                    proof {
                        lemma_validation_stop(npcs@, i as int);
                    }
                    return Err(LobbyNpcValidationError::DuplicateId(npc.id.0.clone()));
                }
                j = j + 1;
            }
            assert(!exists|k: int| 0 <= k < before.len() && (#[trigger] before[k]).id.0@ == npc.id.0@);
            if trimmed_chars(npc.destination_id.as_str()).len() == 0 {
                proof {
                    lemma_validation_stop(npcs@, i as int);
                }
                return Err(LobbyNpcValidationError::EmptyDestination(npc.id.0.clone()));
            }
            if trimmed_chars(npc.name.as_str()).len() == 0 {
                proof {
                    lemma_validation_stop(npcs@, i as int);
                }
                return Err(LobbyNpcValidationError::EmptyName(npc.id.0.clone()));
            }
            if chars_of(npc.name.as_str()).len() > MAX_NPC_NAME_CHARS {
                proof {
                    lemma_validation_stop(npcs@, i as int);
                }
                return Err(LobbyNpcValidationError::NameTooLong(npc.id.0.clone()));
            }
            i = i + 1;
        }
        assert(npcs@.take(npcs@.len() as int) =~= npcs@);
        Ok(())
    }

    /// The NPCs to show a newcomer.
    pub fn plan_npc_spawn(&self) -> (plan: LobbyNpcSpawnPlan)
        ensures
            plan.npcs@ == self.npcs(),
    {
        let mut out: Vec<LobbyNpc> = Vec::new();
        let mut i: usize = 0;
        while i < self.npcs.len()
            invariant
                i <= self.npcs@.len(),
                out@ == self.npcs@.take(i as int),
            decreases self.npcs.len() - i,
        {
            out.push(self.npcs[i].duplicate());
            assert(out@ =~= self.npcs@.take(i + 1));
            i = i + 1;
        }
        assert(self.npcs@.take(self.npcs@.len() as int) =~= self.npcs@);
        LobbyNpcSpawnPlan { npcs: out }
    }

    /// The NPC with the given entity id, if any.
    pub fn npc_for_entity(&self, entity_id: EntityId) -> (r: Option<&LobbyNpc>)
        requires
            self.wf(),
        ensures
            match r {
                Some(n) => 1 <= entity_id.0 <= self.npcs().len() && *n == self.npcs()[entity_id.0
                    - 1],
                None => !(1 <= entity_id.0 <= self.npcs().len()),
            },
            r.is_some() <==> exists|i: int|
                0 <= i < self.npcs().len() && (#[trigger] self.npcs()[i]).entity_id == entity_id,
    {
        let id = entity_id.0;
        if id >= 1 && (id as usize) <= self.npcs.len() {
            Some(&self.npcs[(id - 1) as usize])
        } else {
            assert(forall|i: int|
                0 <= i < self.npcs@.len() ==> (#[trigger] self.npcs@[i]).entity_id != entity_id);
            None
        }
    }

    /// Number of players in the lobby.
    pub fn len(&self) -> (n: usize)
        ensures
            n == self.sessions().len(),
    {
        self.sessions.len()
    }

    /// Whether the lobby has no players.
    pub fn is_empty(&self) -> (b: bool)
        ensures
            b == (self.sessions().len() == 0),
    {
        self.sessions.len() == 0
    }

    /// Every player except `exclude_session_id`, as recipients in ascending
    /// session id order.
    pub fn plan_recipients(&self, exclude_session_id: Option<LobbySessionId>) -> (r: Vec<LobbyRecipient>)
        ensures
            r@ == recipients_where(self.sessions(), not_excluded(exclude_session_id)),
    {
        let ghost keep = not_excluded(exclude_session_id);
        let mut out: Vec<LobbyRecipient> = Vec::new();
        let mut i: usize = 0;
        while i < self.sessions.len()
            invariant
                i <= self.sessions@.len(),
                keep == not_excluded(exclude_session_id),
                out@ == recipients_where(self.sessions@.take(i as int), keep),
            decreases self.sessions.len() - i,
        {
            assert(self.sessions@.take(i + 1).drop_last() =~= self.sessions@.take(i as int));
            let s = &self.sessions[i];
            let skip = match exclude_session_id {
                Some(x) => x == s.session_id,
                None => false,
            };
            if !skip {
                out.push(recipient_for_session(s));
            }
            i = i + 1;
        }
        assert(self.sessions@.take(self.sessions@.len() as int) =~= self.sessions@);
        out
    }

    /// Every player whose chat mode shows ordinary chat, as recipients in
    /// ascending session id order.
    pub fn plan_chat_recipients(&self) -> (r: Vec<LobbyRecipient>)
        ensures
            r@ == recipients_where(self.sessions(), sees_chat()),
    {
        let ghost keep = sees_chat();
        let mut out: Vec<LobbyRecipient> = Vec::new();
        let mut i: usize = 0;
        while i < self.sessions.len()
            invariant
                i <= self.sessions@.len(),
                keep == sees_chat(),
                out@ == recipients_where(self.sessions@.take(i as int), keep),
            decreases self.sessions.len() - i,
        {
            assert(self.sessions@.take(i + 1).drop_last() =~= self.sessions@.take(i as int));
            let s = &self.sessions[i];
            if s.chat_visibility.receives_normal_chat() {
                out.push(recipient_for_session(s));
            }
            i = i + 1;
        }
        assert(self.sessions@.take(self.sessions@.len() as int) =~= self.sessions@);
        out
    }
}

proof fn lemma_validation_extends(ns: Seq<LobbyNpc>, k: int)
    requires
        0 <= k <= ns.len(),
        npc_validation(ns.take(k)) is Err,
    ensures
        npc_validation(ns) == npc_validation(ns.take(k)),
    decreases ns.len(),
{
    if k == ns.len() {
        assert(ns.take(k) =~= ns);
    } else {
        assert(ns.drop_last().take(k) =~= ns.take(k));
        lemma_validation_extends(ns.drop_last(), k);
    }
}

proof fn lemma_validation_stop(ns: Seq<LobbyNpc>, i: int)
    requires
        0 <= i < ns.len(),
        npc_validation(ns.take(i)) == Ok::<(), LobbyNpcValidationError>(()),
        npc_issue(ns.take(i), ns[i]).is_some(),
    ensures
        npc_validation(ns) == Err::<(), LobbyNpcValidationError>(
            npc_issue(ns.take(i), ns[i]).unwrap(),
        ),
{
    assert(ns.take(i + 1).drop_last() =~= ns.take(i));
    assert(ns.take(i + 1).last() == ns[i]);
    lemma_validation_extends(ns, i + 1);
}

/// Sessions of the player with UUID `u`.
pub open spec fn has_uuid(u: u128) -> spec_fn(LobbySession) -> bool {
    |s: LobbySession| s.uuid == u
}

/// The session with session id `sid`.
pub open spec fn has_session_id(sid: LobbySessionId) -> spec_fn(LobbySession) -> bool {
    |s: LobbySession| s.session_id == sid
}

/// The session whose player has entity id `eid`.
pub open spec fn has_entity(eid: EntityId) -> spec_fn(LobbySession) -> bool {
    |s: LobbySession| s.entity_id == eid
}

/// `session` with the ids the lobby assigns on admission.
pub open spec fn admitted(session: LobbySession, sid: u64, eid: i32) -> LobbySession {
    LobbySession { session_id: LobbySessionId(sid), entity_id: EntityId(eid), ..session }
}

impl LobbyState {
    fn remove_reply_peer(&mut self, sid: LobbySessionId)
        ensures
            final(self).reply_peers() == old(self).reply_peers().remove(sid),
            final(self).sessions@ == old(self).sessions@,
            final(self).npcs@ == old(self).npcs@,
            final(self).next_session_id == old(self).next_session_id,
            final(self).next_entity_id == old(self).next_entity_id,
    {
        let mut kept: Vec<ReplyPeer> = Vec::new();
        let mut i: usize = 0;
        while i < self.reply_peers.len()
            invariant
                i <= self.reply_peers@.len(),
                kept@ == peers_without(self.reply_peers@.take(i as int), sid),
            decreases self.reply_peers.len() - i,
        {
            assert(self.reply_peers@.take(i + 1).drop_last() =~= self.reply_peers@.take(i as int));
            let p = self.reply_peers[i];
            if p.session_id != sid {
                kept.push(p);
            }
            i = i + 1;
        }
        assert(self.reply_peers@.take(self.reply_peers@.len() as int) =~= self.reply_peers@);
        proof {
            lemma_peers_without(self.reply_peers@, sid);
        }
        self.reply_peers = kept;
    }

    fn set_reply_peer(&mut self, sid: LobbySessionId, peer: u128)
        ensures
            final(self).reply_peers() == old(self).reply_peers().insert(sid, peer),
            final(self).sessions@ == old(self).sessions@,
            final(self).npcs@ == old(self).npcs@,
            final(self).next_session_id == old(self).next_session_id,
            final(self).next_entity_id == old(self).next_entity_id,
    {
        self.remove_reply_peer(sid);
        let ghost before = self.reply_peers@;
        self.reply_peers.push(ReplyPeer { session_id: sid, peer_uuid: peer });
        assert(self.reply_peers@.drop_last() =~= before);
        assert(self.reply_peers() =~= old(self).reply_peers().insert(sid, peer));
    }

    /// Removes the session at index `k` and its reply target.
    fn remove_at(&mut self, k: usize) -> (removed: LobbySession)
        requires
            old(self).wf(),
            k < old(self).sessions@.len(),
        ensures
            final(self).wf(),
            removed == old(self).sessions@[k as int],
            final(self).sessions@ == old(self).sessions@.remove(k as int),
            final(self).reply_peers() == old(self).reply_peers().remove(removed.session_id),
            final(self).npcs@ == old(self).npcs@,
            final(self).next_session_id == old(self).next_session_id,
            final(self).next_entity_id == old(self).next_entity_id,
    {
        proof {
            lemma_sessions_ok_remove(
                self.sessions@,
                self.npcs@.len() as int,
                self.next_session_id as int,
                self.next_entity_id as int,
                k as int,
            );
        }
        let removed = self.sessions.remove(k);
        self.remove_reply_peer(removed.session_id);
        removed
    }

    /// Admits a player. A session of the same UUID is replaced (its reply
    /// target is forgotten); the newcomer gets the next session id and the
    /// next entity id and is returned.
    pub fn insert(&mut self, session: LobbySession) -> (a: LobbySession)
        requires
            old(self).wf(),
            old(self).can_admit(),
        ensures
            final(self).wf(),
            a == admitted(session, old(self).next_session_id(), old(self).next_entity_id()),
            final(self).sessions() == drop_where(old(self).sessions(), has_uuid(session.uuid)).push(a),
            final(self).npcs() == old(self).npcs(),
            final(self).next_session_id() == old(self).next_session_id() + 1,
            final(self).next_entity_id() == old(self).next_entity_id() + 1,
            final(self).reply_peers() == match session_with_uuid(old(self).sessions(), session.uuid) {
                Some(p) => old(self).reply_peers().remove(p.session_id),
                None => old(self).reply_peers(),
            },
    {
        let ghost ss0 = self.sessions@;
        match self.index_of_uuid(session.uuid) {
            Some(k) => {
                proof {
                    assert forall|j: int| 0 <= j < ss0.len() && j != k implies !has_uuid(session.uuid)(#[trigger] ss0[j]) by {
                        assert(ss0[j].uuid != ss0[k as int].uuid);
                    }
                    lemma_drop_where_single(ss0, has_uuid(session.uuid), k as int);
                }
                self.remove_at(k);
            },
            None => {
                proof {
                    lemma_drop_where_none(ss0, has_uuid(session.uuid));
                }
            },
        }
        let mut session = session;
        session.session_id = LobbySessionId(self.next_session_id);
        session.entity_id = EntityId(self.next_entity_id);
        proof {
            let ss = self.sessions@;
            assert forall|i: int| 0 <= i < ss.len() implies (#[trigger] ss[i]).uuid != session.uuid by {
                assert(ss.contains(ss[i]));
                lemma_drop_where_keeps(ss0, has_uuid(session.uuid), ss[i]);
            }
            lemma_sessions_ok_push(
                ss,
                self.npcs@.len() as int,
                self.next_session_id as int,
                self.next_entity_id as int,
                session,
            );
        }
        self.next_session_id = self.next_session_id + 1;
        self.next_entity_id = self.next_entity_id + 1;
        self.sessions.push(session.duplicate());
        session
    }

    /// Removes the player with the given UUID, with its reply target.
    pub fn remove_by_uuid(&mut self, uuid: u128) -> (r: Option<LobbySession>)
        requires
            old(self).wf(),
        ensures
            final(self).wf(),
            r == session_with_uuid(old(self).sessions(), uuid),
            final(self).sessions() == drop_where(old(self).sessions(), has_uuid(uuid)),
            final(self).reply_peers() == match r {
                Some(s) => old(self).reply_peers().remove(s.session_id),
                None => old(self).reply_peers(),
            },
            final(self).npcs() == old(self).npcs(),
            final(self).next_session_id() == old(self).next_session_id(),
            final(self).next_entity_id() == old(self).next_entity_id(),
    {
        let ghost ss0 = self.sessions@;
        match self.index_of_uuid(uuid) {
            Some(k) => {
                proof {
                    assert forall|j: int| 0 <= j < ss0.len() && j != k implies !has_uuid(uuid)(#[trigger] ss0[j]) by {
                        assert(ss0[j].uuid != ss0[k as int].uuid);
                    }
                    lemma_drop_where_single(ss0, has_uuid(uuid), k as int);
                }
                Some(self.remove_at(k))
            },
            None => {
                proof {
                    lemma_drop_where_none(ss0, has_uuid(uuid));
                }
                None
            },
        }
    }

    /// Removes the session with the given session id, with its reply target.
    pub fn remove_by_session_id(&mut self, session_id: LobbySessionId) -> (r: Option<LobbySession>)
        requires
            old(self).wf(),
        ensures
            final(self).wf(),
            r == session_with_id(old(self).sessions(), session_id),
            final(self).sessions() == drop_where(old(self).sessions(), has_session_id(session_id)),
            final(self).reply_peers() == match r {
                Some(s) => old(self).reply_peers().remove(session_id),
                None => old(self).reply_peers(),
            },
            final(self).npcs() == old(self).npcs(),
            final(self).next_session_id() == old(self).next_session_id(),
            final(self).next_entity_id() == old(self).next_entity_id(),
    {
        let ghost ss0 = self.sessions@;
        match self.index_of_session_id(session_id) {
            Some(k) => {
                proof {
                    assert forall|j: int| 0 <= j < ss0.len() && j != k implies !has_session_id(session_id)(#[trigger] ss0[j]) by {
                        if j < k {
                            assert(ss0[j].session_id.0 < ss0[k as int].session_id.0);
                        } else {
                            assert(ss0[k as int].session_id.0 < ss0[j].session_id.0);
                        }
                    }
                    lemma_drop_where_single(ss0, has_session_id(session_id), k as int);
                }
                Some(self.remove_at(k))
            },
            None => {
                proof {
                    lemma_drop_where_none(ss0, has_session_id(session_id));
                }
                None
            },
        }
    }

    /// Removes the player with the given entity id, with its reply target.
    pub fn remove_by_entity_id(&mut self, entity_id: EntityId) -> (r: Option<LobbySession>)
        requires
            old(self).wf(),
        ensures
            final(self).wf(),
            r == session_with_entity(old(self).sessions(), entity_id),
            final(self).sessions() == drop_where(old(self).sessions(), has_entity(entity_id)),
            final(self).reply_peers() == match r {
                Some(s) => old(self).reply_peers().remove(s.session_id),
                None => old(self).reply_peers(),
            },
            final(self).npcs() == old(self).npcs(),
            final(self).next_session_id() == old(self).next_session_id(),
            final(self).next_entity_id() == old(self).next_entity_id(),
    {
        let ghost ss0 = self.sessions@;
        match self.index_of_entity(entity_id) {
            Some(k) => {
                proof {
                    assert forall|j: int| 0 <= j < ss0.len() && j != k implies !has_entity(entity_id)(#[trigger] ss0[j]) by {
                        if j < k {
                            assert(ss0[j].entity_id.0 < ss0[k as int].entity_id.0);
                        } else {
                            assert(ss0[k as int].entity_id.0 < ss0[j].entity_id.0);
                        }
                    }
                    lemma_drop_where_single(ss0, has_entity(entity_id), k as int);
                }
                Some(self.remove_at(k))
            },
            None => {
                proof {
                    lemma_drop_where_none(ss0, has_entity(entity_id));
                }
                None
            },
        }
    }
}

proof fn lemma_drop_where_keeps(ss: Seq<LobbySession>, p: spec_fn(LobbySession) -> bool, s: LobbySession)
    requires
        drop_where(ss, p).contains(s),
    ensures
        !p(s),
        ss.contains(s),
    decreases ss.len(),
{
    if ss.len() > 0 {
        let rest = drop_where(ss.drop_last(), p);
        if p(ss.last()) {
            lemma_drop_where_keeps(ss.drop_last(), p, s);
        } else {
            if s == ss.last() {
            } else {
                let k = choose|k: int| 0 <= k < drop_where(ss, p).len() && drop_where(ss, p)[k] == s;
                assert(rest.push(ss.last())[k] == s);
                assert(k < rest.len());
                assert(rest[k] == s);
                lemma_drop_where_keeps(ss.drop_last(), p, s);
            }
        }
        if ss.drop_last().contains(s) {
            let k = choose|k: int| 0 <= k < ss.drop_last().len() && ss.drop_last()[k] == s;
            assert(ss[k] == s);
        } else {
            assert(ss[ss.len() - 1] == s);
        }
    }
}

/// `s` moved to `pos` when it is the session of entity `eid`.
pub open spec fn reposition(eid: EntityId, pos: LobbyPosition) -> spec_fn(LobbySession) -> LobbySession {
    |s: LobbySession| if s.entity_id == eid { LobbySession { position: pos, ..s } } else { s }
}

/// `s` with crouching state `c` when it is the session of entity `eid`.
pub open spec fn set_crouching(eid: EntityId, c: bool) -> spec_fn(LobbySession) -> LobbySession {
    |s: LobbySession| if s.entity_id == eid { LobbySession { crouching: c, ..s } } else { s }
}

/// `s` with chat mode `v` when it is the session `sid`.
pub open spec fn set_chat_mode(sid: LobbySessionId, v: ChatVisibility) -> spec_fn(LobbySession) -> LobbySession {
    |s: LobbySession| if s.session_id == sid { LobbySession { chat_visibility: v, ..s } } else { s }
}

proof fn lemma_update_is_map(
    ss: Seq<LobbySession>,
    k: int,
    p: spec_fn(LobbySession) -> bool,
    f: spec_fn(LobbySession) -> LobbySession,
)
    requires
        0 <= k < ss.len(),
        p(ss[k]),
        forall|j: int| 0 <= j < ss.len() && j != k ==> !p(#[trigger] ss[j]),
        forall|x: LobbySession| !p(x) ==> #[trigger] f(x) == x,
    ensures
        ss.update(k, f(ss[k])) == ss.map_values(f),
{
    assert forall|j: int| 0 <= j < ss.len() implies #[trigger] ss.update(k, f(ss[k]))[j] == ss.map_values(f)[j] by {
        if j != k {
            assert(!p(ss[j]));
        }
    }
    assert(ss.update(k, f(ss[k])) =~= ss.map_values(f));
}

proof fn lemma_map_identity(ss: Seq<LobbySession>, p: spec_fn(LobbySession) -> bool, f: spec_fn(LobbySession) -> LobbySession)
    requires
        forall|j: int| 0 <= j < ss.len() ==> !p(#[trigger] ss[j]),
        forall|x: LobbySession| !p(x) ==> #[trigger] f(x) == x,
    ensures
        ss.map_values(f) == ss,
{
    assert forall|j: int| 0 <= j < ss.len() implies #[trigger] ss.map_values(f)[j] == ss[j] by {
        assert(!p(ss[j]));
    }
    assert(ss.map_values(f) =~= ss);
}

impl LobbyState {
    proof fn lemma_entity_unique(&self, k: int)
        requires
            self.wf(),
            0 <= k < self.sessions@.len(),
        ensures
            forall|j: int| 0 <= j < self.sessions@.len() && j != k ==> (#[trigger] self.sessions@[j]).entity_id != self.sessions@[k].entity_id,
    {
        let ss = self.sessions@;
        assert forall|j: int| 0 <= j < ss.len() && j != k implies (#[trigger] ss[j]).entity_id != ss[k].entity_id by {
            if j < k {
                assert(ss[j].entity_id.0 < ss[k].entity_id.0);
            } else {
                assert(ss[k].entity_id.0 < ss[j].entity_id.0);
            }
        }
    }

    proof fn lemma_sid_unique(&self, k: int)
        requires
            self.wf(),
            0 <= k < self.sessions@.len(),
        ensures
            forall|j: int| 0 <= j < self.sessions@.len() && j != k ==> (#[trigger] self.sessions@[j]).session_id != self.sessions@[k].session_id,
    {
        let ss = self.sessions@;
        assert forall|j: int| 0 <= j < ss.len() && j != k implies (#[trigger] ss[j]).session_id != ss[k].session_id by {
            if j < k {
                assert(ss[j].session_id.0 < ss[k].session_id.0);
            } else {
                assert(ss[k].session_id.0 < ss[j].session_id.0);
            }
        }
    }

    /// The session of the player with the given UUID.
    pub fn session_by_uuid(&self, uuid: u128) -> (r: Option<&LobbySession>)
        requires
            self.wf(),
        ensures
            match r {
                Some(s) => session_with_uuid(self.sessions(), uuid) == Some(*s),
                None => session_with_uuid(self.sessions(), uuid).is_none(),
            },
    {
        match self.index_of_uuid(uuid) {
            Some(k) => Some(&self.sessions[k]),
            None => None,
        }
    }

    /// The session of the player with the given entity id.
    pub fn session_by_entity_id(&self, entity_id: EntityId) -> (r: Option<&LobbySession>)
        requires
            self.wf(),
        ensures
            match r {
                Some(s) => session_with_entity(self.sessions(), entity_id) == Some(*s),
                None => session_with_entity(self.sessions(), entity_id).is_none(),
            },
    {
        match self.index_of_entity(entity_id) {
            Some(k) => Some(&self.sessions[k]),
            None => None,
        }
    }

    /// The session with the given session id.
    pub fn session_by_session_id(&self, session_id: LobbySessionId) -> (r: Option<&LobbySession>)
        requires
            self.wf(),
        ensures
            match r {
                Some(s) => session_with_id(self.sessions(), session_id) == Some(*s),
                None => session_with_id(self.sessions(), session_id).is_none(),
            },
    {
        match self.index_of_session_id(session_id) {
            Some(k) => Some(&self.sessions[k]),
            None => None,
        }
    }

    /// Moves the player with entity id `entity_id` and plans telling the
    /// other players about it.
    pub fn update_position_with_movement_plan(&mut self, entity_id: EntityId, position: LobbyPosition) -> (r: Option<LobbyMovementPlan>)
        requires
            old(self).wf(),
        ensures
            final(self).wf(),
            final(self).sessions() == old(self).sessions().map_values(reposition(entity_id, position)),
            final(self).npcs() == old(self).npcs(),
            final(self).reply_peers() == old(self).reply_peers(),
            final(self).next_session_id() == old(self).next_session_id(),
            final(self).next_entity_id() == old(self).next_entity_id(),
            match session_with_entity(old(self).sessions(), entity_id) {
                None => r.is_none(),
                Some(s) => r.is_some() && {
                    let plan = r.unwrap();
                    &&& plan.moving_session_id == s.session_id
                    &&& plan.moving_entity_id == entity_id
                    &&& plan.previous_position == s.position
                    &&& plan.current_position == position
                    &&& plan.recipients@ == recipients_where(final(self).sessions(), not_excluded(Some(s.session_id)))
                },
            },
    {
        let ghost ss0 = self.sessions@;
        match self.index_of_entity(entity_id) {
            None => {
                proof {
                    lemma_map_identity(ss0, has_entity(entity_id), reposition(entity_id, position));
                }
                None
            },
            Some(k) => {
                let moving_session_id = self.sessions[k].session_id;
                let previous_position = self.sessions[k].position;
                proof {
                    self.lemma_entity_unique(k as int);
                    lemma_update_is_map(ss0, k as int, has_entity(entity_id), reposition(entity_id, position));
                    lemma_sessions_ok_update(ss0, self.npcs@.len() as int, self.next_session_id as int,
                        self.next_entity_id as int, k as int, reposition(entity_id, position)(ss0[k as int]));
                }
                self.sessions[k].position = position;
                assert(self.sessions@ =~= ss0.update(k as int, reposition(entity_id, position)(ss0[k as int])));
                let recipients = self.plan_recipients(Some(moving_session_id));
                Some(LobbyMovementPlan {
                    moving_session_id,
                    moving_entity_id: entity_id,
                    previous_position,
                    current_position: position,
                    recipients,
                })
            },
        }
    }

    /// Moves the player with entity id `entity_id`; `true` if there is one.
    pub fn update_position(&mut self, entity_id: EntityId, position: LobbyPosition) -> (b: bool)
        requires
            old(self).wf(),
        ensures
            final(self).wf(),
            b == session_with_entity(old(self).sessions(), entity_id).is_some(),
            final(self).sessions() == old(self).sessions().map_values(reposition(entity_id, position)),
            final(self).npcs() == old(self).npcs(),
            final(self).reply_peers() == old(self).reply_peers(),
            final(self).next_session_id() == old(self).next_session_id(),
            final(self).next_entity_id() == old(self).next_entity_id(),
    {
        self.update_position_with_movement_plan(entity_id, position).is_some()
    }

    /// Records whether the player with entity id `entity_id` crouches and,
    /// when that changes, plans telling the other players.
    pub fn update_crouching_with_metadata_plan(&mut self, entity_id: EntityId, crouching: bool) -> (r: Option<LobbyMetadataPlan>)
        requires
            old(self).wf(),
        ensures
            final(self).wf(),
            final(self).sessions() == old(self).sessions().map_values(set_crouching(entity_id, crouching)),
            final(self).npcs() == old(self).npcs(),
            final(self).reply_peers() == old(self).reply_peers(),
            final(self).next_session_id() == old(self).next_session_id(),
            final(self).next_entity_id() == old(self).next_entity_id(),
            match session_with_entity(old(self).sessions(), entity_id) {
                None => r.is_none(),
                Some(s) => if s.crouching == crouching {
                    r.is_none()
                } else {
                    r.is_some() && {
                        let plan = r.unwrap();
                        &&& plan.session_id == s.session_id
                        &&& plan.entity_id == entity_id
                        &&& plan.crouching == crouching
                        &&& plan.recipients@ == recipients_where(final(self).sessions(), not_excluded(Some(s.session_id)))
                    }
                },
            },
    {
        let ghost ss0 = self.sessions@;
        match self.index_of_entity(entity_id) {
            None => {
                proof {
                    lemma_map_identity(ss0, has_entity(entity_id), set_crouching(entity_id, crouching));
                }
                None
            },
            Some(k) => {
                proof {
                    self.lemma_entity_unique(k as int);
                    lemma_update_is_map(ss0, k as int, has_entity(entity_id), set_crouching(entity_id, crouching));
                    lemma_sessions_ok_update(ss0, self.npcs@.len() as int, self.next_session_id as int,
                        self.next_entity_id as int, k as int, set_crouching(entity_id, crouching)(ss0[k as int]));
                }
                if self.sessions[k].crouching == crouching {
                    assert(ss0.update(k as int, set_crouching(entity_id, crouching)(ss0[k as int])) =~= ss0);
                    return None;
                }
                let session_id = self.sessions[k].session_id;
                self.sessions[k].crouching = crouching;
                assert(self.sessions@ =~= ss0.update(k as int, set_crouching(entity_id, crouching)(ss0[k as int])));
                let recipients = self.plan_recipients(Some(session_id));
                Some(LobbyMetadataPlan { session_id, entity_id, crouching, recipients })
            },
        }
    }

    /// Plans telling the other players that a player swung their arm.
    pub fn plan_swing_broadcast(&self, entity_id: EntityId) -> (r: Option<LobbySwingPlan>)
        requires
            self.wf(),
        ensures
            match session_with_entity(self.sessions(), entity_id) {
                None => r.is_none(),
                Some(s) => r.is_some() && {
                    let plan = r.unwrap();
                    &&& plan.swinging_session_id == s.session_id
                    &&& plan.swinging_entity_id == entity_id
                    &&& plan.recipients@ == recipients_where(self.sessions(), not_excluded(Some(s.session_id)))
                },
            },
    {
        match self.index_of_entity(entity_id) {
            None => None,
            Some(k) => {
                let sid = self.sessions[k].session_id;
                let recipients = self.plan_recipients(Some(sid));
                Some(LobbySwingPlan { swinging_session_id: sid, swinging_entity_id: entity_id, recipients })
            },
        }
    }

    /// Records a session's chat mode; `true` if the session exists.
    pub fn update_chat_visibility(&mut self, session_id: LobbySessionId, chat_visibility: ChatVisibility) -> (b: bool)
        requires
            old(self).wf(),
        ensures
            final(self).wf(),
            b == session_with_id(old(self).sessions(), session_id).is_some(),
            final(self).sessions() == old(self).sessions().map_values(set_chat_mode(session_id, chat_visibility)),
            final(self).npcs() == old(self).npcs(),
            final(self).reply_peers() == old(self).reply_peers(),
            final(self).next_session_id() == old(self).next_session_id(),
            final(self).next_entity_id() == old(self).next_entity_id(),
    {
        let ghost ss0 = self.sessions@;
        match self.index_of_session_id(session_id) {
            None => {
                proof {
                    lemma_map_identity(ss0, has_session_id(session_id), set_chat_mode(session_id, chat_visibility));
                }
                false
            },
            Some(k) => {
                proof {
                    self.lemma_sid_unique(k as int);
                    lemma_update_is_map(ss0, k as int, has_session_id(session_id), set_chat_mode(session_id, chat_visibility));
                    lemma_sessions_ok_update(ss0, self.npcs@.len() as int, self.next_session_id as int,
                        self.next_entity_id as int, k as int, set_chat_mode(session_id, chat_visibility)(ss0[k as int]));
                }
                self.sessions[k].chat_visibility = chat_visibility;
                assert(self.sessions@ =~= ss0.update(k as int, set_chat_mode(session_id, chat_visibility)(ss0[k as int])));
                true
            },
        }
    }
}

fn validate_private_message_pair(sender: &LobbySession, recipient: &LobbySession) -> (r: Result<(), LobbyPrivateMessageError>)
    ensures
        r == pair_check(*sender, *recipient),
{
    if sender.session_id == recipient.session_id {
        return Err(LobbyPrivateMessageError::SelfMessage);
    }
    if !recipient.chat_visibility.receives_private_messages() {
        return Err(LobbyPrivateMessageError::HiddenTarget);
    }
    Ok(())
}

impl LobbyState {
    /// Plans a public chat message from a session to every player whose chat
    /// mode shows chat (the sender included).
    pub fn plan_chat_broadcast(&self, sender_session_id: LobbySessionId, message: String) -> (r: Option<LobbyChatPlan>)
        requires
            self.wf(),
        ensures
            match session_with_id(self.sessions(), sender_session_id) {
                None => r.is_none(),
                Some(s) => r.is_some() && {
                    let plan = r.unwrap();
                    &&& plan.sender_session_id == sender_session_id
                    &&& plan.sender_username == s.username
                    &&& plan.message == message
                    &&& plan.format@ == Seq::<char>::empty()
                    &&& plan.recipients@ == recipients_where(self.sessions(), sees_chat())
                },
            },
    {
        match self.index_of_session_id(sender_session_id) {
            None => None,
            Some(k) => {
                let recipients = self.plan_chat_recipients();
                Some(LobbyChatPlan {
                    sender_session_id,
                    sender_username: self.sessions[k].username.clone(),
                    message,
                    format: String::new(),
                    recipients,
                })
            },
        }
    }

    /// Plans a join or leave announcement about a session.
    pub fn plan_lifecycle_message(&self, session_id: LobbySessionId, template: String) -> (r: Option<LobbyLifecycleMessagePlan>)
        requires
            self.wf(),
        ensures
            match session_with_id(self.sessions(), session_id) {
                None => r.is_none(),
                Some(s) => r.is_some() && {
                    let plan = r.unwrap();
                    &&& plan.player_username == s.username
                    &&& plan.template == template
                    &&& plan.recipients@ == recipients_where(self.sessions(), sees_chat())
                },
            },
    {
        match self.index_of_session_id(session_id) {
            None => None,
            Some(k) => Some(LobbyLifecycleMessagePlan {
                player_username: self.sessions[k].username.clone(),
                template,
                recipients: self.plan_chat_recipients(),
            }),
        }
    }

    /// Removes a session and plans what the remaining players must be told:
    /// everyone left loses the player; those whose chat mode shows chat get
    /// the leave message.
    pub fn remove_by_session_id_with_leave_plan(&mut self, session_id: LobbySessionId) -> (r: Option<LobbyLeavePlan>)
        requires
            old(self).wf(),
        ensures
            final(self).wf(),
            final(self).sessions() == drop_where(old(self).sessions(), has_session_id(session_id)),
            final(self).npcs() == old(self).npcs(),
            final(self).next_session_id() == old(self).next_session_id(),
            final(self).next_entity_id() == old(self).next_entity_id(),
            match session_with_id(old(self).sessions(), session_id) {
                None => r.is_none() && final(self).reply_peers() == old(self).reply_peers(),
                Some(s) => r.is_some() && final(self).reply_peers() == old(self).reply_peers().remove(session_id) && {
                    let plan = r.unwrap();
                    &&& plan.departed_uuid == s.uuid
                    &&& plan.departed_username == s.username
                    &&& plan.departed_entity_id == s.entity_id
                    &&& plan.recipients@ == recipients_where(final(self).sessions(), not_excluded(None))
                    &&& plan.lifecycle_message_recipients@ == recipients_where(final(self).sessions(), sees_chat())
                },
            },
    {
        match self.remove_by_session_id(session_id) {
            None => None,
            Some(removed) => {
                let recipients = self.plan_recipients(None);
                let lifecycle_message_recipients = self.plan_chat_recipients();
                Some(LobbyLeavePlan {
                    departed_uuid: removed.uuid,
                    departed_username: removed.username,
                    departed_entity_id: removed.entity_id,
                    recipients,
                    lifecycle_message_recipients,
                })
            },
        }
    }

    /// Plans what a newcomer and the players already present must be shown
    /// of each other.
    pub fn plan_join_visibility(&self, new_session_id: LobbySessionId) -> (r: Option<LobbyJoinPlan>)
        requires
            self.wf(),
        ensures
            match session_with_id(self.sessions(), new_session_id) {
                None => r.is_none(),
                Some(s) => r.is_some() && {
                    let plan = r.unwrap();
                    &&& plan.new_session == s
                    &&& plan.existing_sessions@ == drop_where(self.sessions(), has_session_id(new_session_id))
                    &&& plan.existing_recipients@ == recipients_where(self.sessions(), not_excluded(Some(new_session_id)))
                },
            },
    {
        match self.index_of_session_id(new_session_id) {
            None => None,
            Some(k) => {
                let new_session = self.sessions[k].duplicate();
                let mut existing: Vec<LobbySession> = Vec::new();
                let mut i: usize = 0;
                while i < self.sessions.len()
                    invariant
                        i <= self.sessions@.len(),
                        existing@ == drop_where(self.sessions@.take(i as int), has_session_id(new_session_id)),
                    decreases self.sessions.len() - i,
                {
                    assert(self.sessions@.take(i + 1).drop_last() =~= self.sessions@.take(i as int));
                    if self.sessions[i].session_id != new_session_id {
                        existing.push(self.sessions[i].duplicate());
                    }
                    i = i + 1;
                }
                assert(self.sessions@.take(self.sessions@.len() as int) =~= self.sessions@);
                let existing_recipients = self.plan_recipients(Some(new_session_id));
                Some(LobbyJoinPlan { new_session, existing_sessions: existing, existing_recipients })
            },
        }
    }

    /// The one player named `target` (ignoring ASCII case), or why there is
    /// no single such player.
    fn find_session_by_username_ignore_case(&self, target: &str) -> (r: Result<LobbySession, LobbyPrivateMessageError>)
        ensures
            r == find_target(self.sessions(), target@),
    {
        let mut matches: Vec<LobbySession> = Vec::new();
        let mut i: usize = 0;
        while i < self.sessions.len()
            invariant
                i <= self.sessions@.len(),
                matches@ == sessions_named(self.sessions@.take(i as int), target@),
            decreases self.sessions.len() - i,
        {
            assert(self.sessions@.take(i + 1).drop_last() =~= self.sessions@.take(i as int));
            if str_eq_ignore_ascii_case(self.sessions[i].username.as_str(), target) {
                matches.push(self.sessions[i].duplicate());
            }
            i = i + 1;
        }
        assert(self.sessions@.take(self.sessions@.len() as int) =~= self.sessions@);
        if matches.len() == 0 {
            Err(LobbyPrivateMessageError::UnknownTarget)
        } else if matches.len() == 1 {
            Ok(matches[0].duplicate())
        } else {
            Err(LobbyPrivateMessageError::AmbiguousTarget)
        }
    }

    fn private_pair(&self, sender_session_id: LobbySessionId, target: &str) -> (r: Result<(LobbySession, LobbySession), LobbyPrivateMessageError>)
        requires
            self.wf(),
        ensures
            r == private_target(self.sessions(), sender_session_id, target@),
    {
        let sender = match self.index_of_session_id(sender_session_id) {
            None => return Err(LobbyPrivateMessageError::Unavailable),
            Some(k) => self.sessions[k].duplicate(),
        };
        let recipient = match self.find_session_by_username_ignore_case(target) {
            Err(e) => return Err(e),
            Ok(r) => r,
        };
        match validate_private_message_pair(&sender, &recipient) {
            Err(e) => Err(e),
            Ok(()) => Ok((sender, recipient)),
        }
    }

    fn reply_pair(&self, sender_session_id: LobbySessionId) -> (r: Result<(LobbySession, LobbySession), LobbyPrivateMessageError>)
        requires
            self.wf(),
        ensures
            r == reply_target(self.sessions(), self.reply_peers(), sender_session_id),
    {
        let sender = match self.index_of_session_id(sender_session_id) {
            None => return Err(LobbyPrivateMessageError::Unavailable),
            Some(k) => self.sessions[k].duplicate(),
        };
        let peer = match self.reply_peer_of(sender_session_id) {
            None => return Err(LobbyPrivateMessageError::MissingReplyTarget),
            Some(u) => u,
        };
        let recipient = match self.index_of_uuid(peer) {
            None => return Err(LobbyPrivateMessageError::MissingReplyTarget),
            Some(k) => self.sessions[k].duplicate(),
        };
        match validate_private_message_pair(&sender, &recipient) {
            Err(e) => Err(e),
            Ok(()) => Ok((sender, recipient)),
        }
    }

    /// The UUID the `/reply` of a session goes to, if any.
    pub fn reply_peer_of(&self, session_id: LobbySessionId) -> (r: Option<u128>)
        ensures
            match r {
                Some(u) => self.reply_peers().contains_key(session_id) && self.reply_peers()[session_id] == u,
                None => !self.reply_peers().contains_key(session_id),
            },
    {
        let mut i = self.reply_peers.len();
        assert(self.reply_peers@.take(i as int) =~= self.reply_peers@);
        while i > 0
            invariant
                i <= self.reply_peers@.len(),
                peers_map(self.reply_peers@).contains_key(session_id) == peers_map(self.reply_peers@.take(i as int)).contains_key(session_id),
                peers_map(self.reply_peers@).contains_key(session_id) ==> peers_map(self.reply_peers@)[session_id] == peers_map(self.reply_peers@.take(i as int))[session_id],
            decreases i,
        {
            let p = self.reply_peers[i - 1];
            assert(self.reply_peers@.take(i as int).drop_last() =~= self.reply_peers@.take(i - 1));
            assert(self.reply_peers@.take(i as int).last() == p);
            if p.session_id == session_id {
                return Some(p.peer_uuid);
            }
            i = i - 1;
        }
        None
    }

    fn remember_pair(&mut self, sender: &LobbySession, recipient: &LobbySession)
        requires
            old(self).wf(),
        ensures
            final(self).wf(),
            final(self).reply_peers() == old(self).reply_peers().insert(sender.session_id, recipient.uuid).insert(recipient.session_id, sender.uuid),
            final(self).sessions() == old(self).sessions(),
            final(self).npcs() == old(self).npcs(),
            final(self).next_session_id() == old(self).next_session_id(),
            final(self).next_entity_id() == old(self).next_entity_id(),
    {
        self.set_reply_peer(sender.session_id, recipient.uuid);
        self.set_reply_peer(recipient.session_id, sender.uuid);
    }

    /// Plans a private message from a session to the one player named
    /// `target` (ignoring ASCII case); on success both players' `/reply`
    /// then goes to the other.
    pub fn plan_private_message(
        &mut self,
        sender_session_id: LobbySessionId,
        target: &str,
        message: String,
        sender_format: String,
        recipient_format: String,
    ) -> (r: Result<LobbyPrivateMessagePlan, LobbyPrivateMessageError>)
        requires
            old(self).wf(),
        ensures
            final(self).wf(),
            final(self).sessions() == old(self).sessions(),
            final(self).npcs() == old(self).npcs(),
            final(self).next_session_id() == old(self).next_session_id(),
            final(self).next_entity_id() == old(self).next_entity_id(),
            match private_target(old(self).sessions(), sender_session_id, target@) {
                Err(e) => r == Err::<LobbyPrivateMessagePlan, LobbyPrivateMessageError>(e)
                    && final(self).reply_peers() == old(self).reply_peers(),
                Ok((snd, rcp)) => r == Ok::<LobbyPrivateMessagePlan, LobbyPrivateMessageError>(
                    private_plan_of(snd, rcp, message, sender_format, recipient_format),
                ) && final(self).reply_peers() == old(self).reply_peers().insert(snd.session_id, rcp.uuid).insert(rcp.session_id, snd.uuid),
            },
    {
        match self.private_pair(sender_session_id, target) {
            Err(e) => Err(e),
            Ok((sender, recipient)) => {
                self.remember_pair(&sender, &recipient);
                Ok(LobbyPrivateMessagePlan {
                    sender_session_id: sender.session_id,
                    recipient_session_id: recipient.session_id,
                    sender_recipient: recipient_for_session(&sender),
                    message_recipient: recipient_for_session(&recipient),
                    sender_username: sender.username,
                    recipient_username: recipient.username,
                    message,
                    sender_format,
                    recipient_format,
                })
            },
        }
    }

    /// Checks that a private message from a session to `target` could be sent.
    pub fn validate_private_message_target(&self, sender_session_id: LobbySessionId, target: &str) -> (r: Result<(), LobbyPrivateMessageError>)
        requires
            self.wf(),
        ensures
            match private_target(self.sessions(), sender_session_id, target@) {
                Err(e) => r == Err::<(), LobbyPrivateMessageError>(e),
                Ok(_) => r == Ok::<(), LobbyPrivateMessageError>(()),
            },
    {
        match self.private_pair(sender_session_id, target) {
            Err(e) => Err(e),
            Ok(_) => Ok(()),
        }
    }

    /// Checks that a `/reply` from a session could be sent.
    pub fn validate_reply_target(&self, sender_session_id: LobbySessionId) -> (r: Result<(), LobbyPrivateMessageError>)
        requires
            self.wf(),
        ensures
            match reply_target(self.sessions(), self.reply_peers(), sender_session_id) {
                Err(e) => r == Err::<(), LobbyPrivateMessageError>(e),
                Ok(_) => r == Ok::<(), LobbyPrivateMessageError>(()),
            },
    {
        match self.reply_pair(sender_session_id) {
            Err(e) => Err(e),
            Ok(_) => Ok(()),
        }
    }

    /// Plans a `/reply` from a session to the player it last exchanged a
    /// private message with; on success both players' `/reply` goes to the
    /// other.
    pub fn plan_reply_message(
        &mut self,
        sender_session_id: LobbySessionId,
        message: String,
        sender_format: String,
        recipient_format: String,
    ) -> (r: Result<LobbyPrivateMessagePlan, LobbyPrivateMessageError>)
        requires
            old(self).wf(),
        ensures
            final(self).wf(),
            final(self).sessions() == old(self).sessions(),
            final(self).npcs() == old(self).npcs(),
            final(self).next_session_id() == old(self).next_session_id(),
            final(self).next_entity_id() == old(self).next_entity_id(),
            match reply_target(old(self).sessions(), old(self).reply_peers(), sender_session_id) {
                Err(e) => r == Err::<LobbyPrivateMessagePlan, LobbyPrivateMessageError>(e)
                    && final(self).reply_peers() == old(self).reply_peers(),
                Ok((snd, rcp)) => r == Ok::<LobbyPrivateMessagePlan, LobbyPrivateMessageError>(
                    private_plan_of(snd, rcp, message, sender_format, recipient_format),
                ) && final(self).reply_peers() == old(self).reply_peers().insert(snd.session_id, rcp.uuid).insert(rcp.session_id, snd.uuid),
            },
    {
        match self.reply_pair(sender_session_id) {
            Err(e) => Err(e),
            Ok((sender, recipient)) => {
                self.remember_pair(&sender, &recipient);
                Ok(LobbyPrivateMessagePlan {
                    sender_session_id: sender.session_id,
                    recipient_session_id: recipient.session_id,
                    sender_recipient: recipient_for_session(&sender),
                    message_recipient: recipient_for_session(&recipient),
                    sender_username: sender.username,
                    recipient_username: recipient.username,
                    message,
                    sender_format,
                    recipient_format,
                })
            },
        }
    }
}

impl LobbyState {
    /// Law (identity): in a consistent lobby NPCs hold entity ids `1..=n`,
    /// players hold entity ids above every NPC id, and no two players share a
    /// session id, an entity id or a UUID; session and entity ids grow in
    /// admission order.
    pub proof fn lemma_ids_distinct(&self)
        requires
            self.wf(),
        ensures
            forall|i: int| 0 <= i < self.npcs().len() ==> (#[trigger] self.npcs()[i]).entity_id.0 == i + 1,
            sessions_ok(self.sessions(), self.npcs().len() as int, self.next_session_id() as int, self.next_entity_id() as int),
            forall|i: int, j: int|
                0 <= i < self.sessions().len() && 0 <= j < self.sessions().len() && i != j ==> (#[trigger] self.sessions()[i]).session_id
                    != (#[trigger] self.sessions()[j]).session_id && self.sessions()[i].entity_id != self.sessions()[j].entity_id
                    && self.sessions()[i].uuid != self.sessions()[j].uuid,
            forall|i: int, k: int|
                0 <= i < self.sessions().len() && 0 <= k < self.npcs().len() ==> (#[trigger] self.sessions()[i]).entity_id
                    != (#[trigger] self.npcs()[k]).entity_id,
    {
        let ss = self.sessions@;
        assert forall|i: int, j: int|
            0 <= i < ss.len() && 0 <= j < ss.len() && i != j implies (#[trigger] ss[i]).session_id != (#[trigger] ss[j]).session_id
                && ss[i].entity_id != ss[j].entity_id && ss[i].uuid != ss[j].uuid by {
            if i < j {
                assert(ss[i].session_id.0 < ss[j].session_id.0);
            } else {
                assert(ss[j].session_id.0 < ss[i].session_id.0);
            }
        }
    }

    /// Law (NPCs first): in a consistent lobby the next admitted player gets
    /// an entity id above that of every NPC, so NPC and player ids never
    /// collide; a lobby made with `n` NPCs hands its first player id `n + 1`.
    pub proof fn lemma_next_player_after_npcs(&self, session: LobbySession)
        requires
            self.wf(),
        ensures ({
            let a = admitted(session, self.next_session_id(), self.next_entity_id());
            &&& self.npcs().len() < a.entity_id.0
            &&& forall|k: int| 0 <= k < self.npcs().len() ==> (#[trigger] self.npcs()[k]).entity_id.0 < a.entity_id.0
        }),
    {
    }
}

/// Law (recipient lists): a recipient list holds exactly the sessions that
/// pass its filter, in admission order, so its session ids strictly grow
/// whenever the sessions' do.
pub proof fn lemma_recipients_where(ss: Seq<LobbySession>, keep: spec_fn(LobbySession) -> bool)
    ensures
        forall|r: LobbyRecipient| recipients_where(ss, keep).contains(r) <==> exists|i: int|
            0 <= i < ss.len() && keep(#[trigger] ss[i]) && r == recipient_of(ss[i]),
        (forall|i: int, j: int| 0 <= i < j < ss.len() ==> (#[trigger] ss[i]).session_id.0 < (#[trigger] ss[j]).session_id.0)
            ==> forall|a: int, b: int| 0 <= a < b < recipients_where(ss, keep).len() ==> (#[trigger] recipients_where(ss, keep)[a]).session_id.0
                < (#[trigger] recipients_where(ss, keep)[b]).session_id.0,
        recipients_where(ss, keep).len() <= ss.len(),
    decreases ss.len(),
{
    if ss.len() > 0 {
        let init = ss.drop_last();
        lemma_recipients_where(init, keep);
        let rest = recipients_where(init, keep);
        assert forall|r: LobbyRecipient| recipients_where(ss, keep).contains(r) <==> exists|i: int|
            0 <= i < ss.len() && keep(#[trigger] ss[i]) && r == recipient_of(ss[i]) by {
            if recipients_where(ss, keep).contains(r) {
                if keep(ss.last()) {
                    let k = choose|k: int| 0 <= k < rest.push(recipient_of(ss.last())).len() && rest.push(recipient_of(ss.last()))[k] == r;
                    if k < rest.len() {
                        assert(rest.contains(r));
                        let i = choose|i: int| 0 <= i < init.len() && keep(#[trigger] init[i]) && r == recipient_of(init[i]);
                        assert(ss[i] == init[i]);
                    } else {
                        assert(ss[ss.len() - 1] == ss.last());
                    }
                } else {
                    let i = choose|i: int| 0 <= i < init.len() && keep(#[trigger] init[i]) && r == recipient_of(init[i]);
                    assert(ss[i] == init[i]);
                }
            }
            if exists|i: int| 0 <= i < ss.len() && keep(#[trigger] ss[i]) && r == recipient_of(ss[i]) {
                let i = choose|i: int| 0 <= i < ss.len() && keep(#[trigger] ss[i]) && r == recipient_of(ss[i]);
                if i == ss.len() - 1 {
                    assert(recipients_where(ss, keep).last() == r);
                } else {
                    assert(init[i] == ss[i]);
                    assert(rest.contains(r));
                    let k = choose|k: int| 0 <= k < rest.len() && rest[k] == r;
                    if keep(ss.last()) {
                        assert(rest.push(recipient_of(ss.last()))[k] == r);
                    }
                }
            }
        }
        if forall|i: int, j: int| 0 <= i < j < ss.len() ==> (#[trigger] ss[i]).session_id.0 < (#[trigger] ss[j]).session_id.0 {
            assert forall|i: int, j: int| 0 <= i < j < init.len() implies (#[trigger] init[i]).session_id.0 < (#[trigger] init[j]).session_id.0 by {
                assert(init[i] == ss[i] && init[j] == ss[j]);
            }
            if keep(ss.last()) {
                let out = rest.push(recipient_of(ss.last()));
                assert forall|a: int, b: int| 0 <= a < b < out.len() implies (#[trigger] out[a]).session_id.0 < (#[trigger] out[b]).session_id.0 by {
                    if b == out.len() - 1 {
                        assert(rest.contains(out[a]));
                        let i = choose|i: int| 0 <= i < init.len() && keep(#[trigger] init[i]) && out[a] == recipient_of(init[i]);
                        assert(init[i] == ss[i]);
                        assert(ss[i].session_id.0 < ss[ss.len() - 1].session_id.0);
                    } else {
                        assert(out[a] == rest[a] && out[b] == rest[b]);
                    }
                }
            }
        }
    }
}

/// Law (exclusion): a recipient list built to exclude a session never names it.
pub proof fn lemma_excluded_not_recipient(ss: Seq<LobbySession>, sid: LobbySessionId)
    ensures
        forall|k: int| 0 <= k < recipients_where(ss, not_excluded(Some(sid))).len()
            ==> (#[trigger] recipients_where(ss, not_excluded(Some(sid)))[k]).session_id != sid,
{
    lemma_recipients_where(ss, not_excluded(Some(sid)));
    let rs = recipients_where(ss, not_excluded(Some(sid)));
    assert forall|k: int| 0 <= k < rs.len() implies (#[trigger] rs[k]).session_id != sid by {
        assert(rs.contains(rs[k]));
    }
}

proof fn lemma_drop_where_contains(ss: Seq<LobbySession>, p: spec_fn(LobbySession) -> bool, x: LobbySession)
    ensures
        drop_where(ss, p).contains(x) <==> (ss.contains(x) && !p(x)),
    decreases ss.len(),
{
    if ss.len() > 0 {
        lemma_drop_where_contains(ss.drop_last(), p, x);
        let rest = drop_where(ss.drop_last(), p);
        if ss.contains(x) && !p(x) {
            let i = choose|i: int| 0 <= i < ss.len() && ss[i] == x;
            if i < ss.len() - 1 {
                assert(ss.drop_last()[i] == x);
                assert(rest.contains(x));
                let k = choose|k: int| 0 <= k < rest.len() && rest[k] == x;
                if !p(ss.last()) {
                    assert(rest.push(ss.last())[k] == x);
                }
            } else {
                assert(drop_where(ss, p).last() == x);
            }
        }
        if drop_where(ss, p).contains(x) {
            lemma_drop_where_keeps(ss, p, x);
        }
    }
}

/// Law (removal): removing by UUID, session id or entity id leaves no
/// session that any of the three lookups finds for the removed player; a
/// lookup that finds nothing removes nothing.
pub proof fn lemma_removal_cleans_indexes(
    ss: Seq<LobbySession>,
    npc_count: int,
    next_sid: int,
    next_eid: int,
    p: spec_fn(LobbySession) -> bool,
    gone: LobbySession,
)
    requires
        sessions_ok(ss, npc_count, next_sid, next_eid),
        ss.contains(gone),
        p(gone),
        p == has_uuid(gone.uuid) || p == has_session_id(gone.session_id) || p == has_entity(gone.entity_id),
    ensures
        session_with_uuid(drop_where(ss, p), gone.uuid).is_none(),
        session_with_id(drop_where(ss, p), gone.session_id).is_none(),
        session_with_entity(drop_where(ss, p), gone.entity_id).is_none(),
        drop_where(ss, p).len() == ss.len() - 1,
        sessions_ok(drop_where(ss, p), npc_count, next_sid, next_eid),
{
    let k = choose|k: int| 0 <= k < ss.len() && ss[k] == gone;
    assert forall|j: int| 0 <= j < ss.len() && j != k implies !p(#[trigger] ss[j]) by {
        if j < k {
            assert(ss[j].session_id.0 < ss[k].session_id.0 && ss[j].entity_id.0 < ss[k].entity_id.0);
        } else {
            assert(ss[k].session_id.0 < ss[j].session_id.0 && ss[k].entity_id.0 < ss[j].entity_id.0);
        }
        assert(ss[j].uuid != ss[k].uuid);
    }
    lemma_drop_where_single(ss, p, k);
    lemma_sessions_ok_remove(ss, npc_count, next_sid, next_eid, k);
    let r = ss.remove(k);
    assert forall|i: int| 0 <= i < r.len() implies (#[trigger] r[i]).uuid != gone.uuid && r[i].session_id != gone.session_id
        && r[i].entity_id != gone.entity_id by {
        let a = if i < k { i } else { i + 1 };
        assert(r[i] == ss[a] && a != k);
        if a < k {
            assert(ss[a].session_id.0 < ss[k].session_id.0 && ss[a].entity_id.0 < ss[k].entity_id.0);
        } else {
            assert(ss[k].session_id.0 < ss[a].session_id.0 && ss[k].entity_id.0 < ss[a].entity_id.0);
        }
    }
}

/// Law (admission): after admitting a session, every lookup finds the
/// admitted session by its UUID, session id and entity id; an earlier
/// session of the same UUID is no longer found by its session or entity id.
pub proof fn lemma_admission(
    ss: Seq<LobbySession>,
    npc_count: int,
    next_sid: u64,
    next_eid: i32,
    session: LobbySession,
)
    requires
        sessions_ok(ss, npc_count, next_sid as int, next_eid as int),
        npc_count < next_eid,
        1 <= next_sid,
    ensures ({
        let a = admitted(session, next_sid, next_eid);
        let after = drop_where(ss, has_uuid(session.uuid)).push(a);
        &&& sessions_ok(after, npc_count, next_sid + 1, next_eid + 1)
        &&& session_with_uuid(after, session.uuid) == Some(a)
        &&& session_with_id(after, a.session_id) == Some(a)
        &&& session_with_entity(after, a.entity_id) == Some(a)
        &&& (forall|p: LobbySession| #[trigger] ss.contains(p) && p.uuid == session.uuid ==>
            session_with_id(after, p.session_id).is_none() && session_with_entity(after, p.entity_id).is_none())
    }),
{
    let a = admitted(session, next_sid, next_eid);
    let kept = drop_where(ss, has_uuid(session.uuid));
    let after = kept.push(a);
    assert forall|i: int| 0 <= i < kept.len() implies (#[trigger] kept[i]).uuid != session.uuid && ss.contains(kept[i]) by {
        assert(kept.contains(kept[i]));
        lemma_drop_where_keeps(ss, has_uuid(session.uuid), kept[i]);
    }
    if exists|k: int| 0 <= k < ss.len() && ss[k].uuid == session.uuid {
        let k = choose|k: int| 0 <= k < ss.len() && ss[k].uuid == session.uuid;
        lemma_removal_cleans_indexes(ss, npc_count, next_sid as int, next_eid as int, has_uuid(session.uuid), ss[k]);
    } else {
        lemma_drop_where_none(ss, has_uuid(session.uuid));
    }
    assert forall|i: int| 0 <= i < kept.len() implies (#[trigger] kept[i]).session_id.0 < next_sid && kept[i].entity_id.0 < next_eid by {
        let j = choose|j: int| 0 <= j < ss.len() && ss[j] == kept[i];
        assert(ss[j].session_id.0 < next_sid);
    }
    lemma_sessions_ok_push(kept, npc_count, next_sid as int, next_eid as int, a);
    let last = after.len() - 1;
    assert(after[last] == a);
    assert forall|j: int| 0 <= j < after.len() && j != last implies (#[trigger] after[j]).uuid != a.uuid && after[j].session_id != a.session_id
        && after[j].entity_id != a.entity_id by {
        assert(after[j] == kept[j]);
    }
    assert forall|p: LobbySession| #[trigger] ss.contains(p) && p.uuid == session.uuid implies
        session_with_id(after, p.session_id).is_none() && session_with_entity(after, p.entity_id).is_none() by {
        lemma_removal_cleans_indexes(ss, npc_count, next_sid as int, next_eid as int, has_uuid(session.uuid), p);
        assert(p.session_id.0 < next_sid && p.entity_id.0 < next_eid) by {
            let k = choose|k: int| 0 <= k < ss.len() && ss[k] == p;
        }
        assert forall|i: int| 0 <= i < after.len() implies (#[trigger] after[i]).session_id != p.session_id && after[i].entity_id != p.entity_id by {
            if i < kept.len() {
                assert(after[i] == kept[i]);
            }
        }
    }
}

/// Law (reply): once a private message from `snd` to `rcp` is planned, a
/// `/reply` from the recipient goes back to the sender, as long as the
/// sender's chat mode accepts private messages.
pub proof fn lemma_reply_goes_back(
    ss: Seq<LobbySession>,
    npc_count: int,
    next_sid: int,
    next_eid: int,
    peers: Map<LobbySessionId, u128>,
    sender_sid: LobbySessionId,
    target: Seq<char>,
)
    requires
        sessions_ok(ss, npc_count, next_sid, next_eid),
        private_target(ss, sender_sid, target) is Ok,
        receives_chat(private_target(ss, sender_sid, target)->Ok_0.0.chat_visibility),
    ensures ({
        let (snd, rcp) = private_target(ss, sender_sid, target)->Ok_0;
        let after = peers.insert(snd.session_id, rcp.uuid).insert(rcp.session_id, snd.uuid);
        &&& after[snd.session_id] == rcp.uuid
        &&& after[rcp.session_id] == snd.uuid
        &&& reply_target(ss, after, rcp.session_id) == Ok::<(LobbySession, LobbySession), LobbyPrivateMessageError>((rcp, snd))
        &&& reply_target(ss, after, snd.session_id) == Ok::<(LobbySession, LobbySession), LobbyPrivateMessageError>((snd, rcp))
    }),
{
    let (snd, rcp) = private_target(ss, sender_sid, target)->Ok_0;
    let i = choose|i: int| 0 <= i < ss.len() && ss[i].session_id == sender_sid;
    lemma_sessions_named_in(ss, target);
    let m = sessions_named(ss, target);
    assert(m.contains(m[0]));
    assert(ss.contains(rcp));
    let j = choose|j: int| 0 <= j < ss.len() && ss[j] == rcp;
    lemma_unique_lookups(ss, npc_count, next_sid, next_eid, i);
    lemma_unique_lookups(ss, npc_count, next_sid, next_eid, j);
}

proof fn lemma_unique_lookups(ss: Seq<LobbySession>, npc_count: int, next_sid: int, next_eid: int, i: int)
    requires
        sessions_ok(ss, npc_count, next_sid, next_eid),
        0 <= i < ss.len(),
    ensures
        session_with_id(ss, ss[i].session_id) == Some(ss[i]),
        session_with_uuid(ss, ss[i].uuid) == Some(ss[i]),
        session_with_entity(ss, ss[i].entity_id) == Some(ss[i]),
{
    let a = choose|j: int| 0 <= j < ss.len() && ss[j].session_id == ss[i].session_id;
    if a < i { assert(ss[a].session_id.0 < ss[i].session_id.0); } else if i < a { assert(ss[i].session_id.0 < ss[a].session_id.0); }
    let b = choose|j: int| 0 <= j < ss.len() && ss[j].uuid == ss[i].uuid;
    if b != i { assert(ss[b].uuid != ss[i].uuid); }
    let c = choose|j: int| 0 <= j < ss.len() && ss[j].entity_id == ss[i].entity_id;
    if c < i { assert(ss[c].entity_id.0 < ss[i].entity_id.0); } else if i < c { assert(ss[i].entity_id.0 < ss[c].entity_id.0); }
}

proof fn lemma_sessions_named_in(ss: Seq<LobbySession>, target: Seq<char>)
    ensures
        forall|x: LobbySession| #[trigger] sessions_named(ss, target).contains(x) ==> ss.contains(x),
    decreases ss.len(),
{
    if ss.len() > 0 {
        let init = ss.drop_last();
        lemma_sessions_named_in(init, target);
        let rest = sessions_named(init, target);
        assert forall|x: LobbySession| #[trigger] sessions_named(ss, target).contains(x) implies ss.contains(x) by {
            let all = sessions_named(ss, target);
            let k = choose|k: int| 0 <= k < all.len() && all[k] == x;
            if eq_ignore_ascii_case(ss.last().username@, target) {
                assert(all == rest.push(ss.last()));
                if k < rest.len() {
                    assert(rest[k] == x);
                    assert(rest.contains(x));
                    assert(init.contains(x));
                    let i = choose|i: int| 0 <= i < init.len() && init[i] == x;
                    assert(ss[i] == x);
                } else {
                    assert(ss[ss.len() - 1] == x);
                }
            } else {
                assert(all == rest);
                assert(rest.contains(x));
                assert(init.contains(x));
                let i = choose|i: int| 0 <= i < init.len() && init[i] == x;
                assert(ss[i] == x);
            }
        }
    }
}

} // verus!
