use vstd::prelude::*;
use crate::protocol::{ProtocolVersion, State};
use crate::lobby::{
    ChatVisibility, LobbyChatPlan, LobbyMetadataPlan, LobbyMovementPlan, LobbyPrivateMessagePlan,
    LobbySessionId, LobbySwingPlan,
};
use crate::selector::OpenSelectorState;

verus! {

/// Progress of the keep-alive exchange of a connection.
#[derive(Debug, Clone, Copy, PartialEq, Eq, Structural)]
pub enum KeepAliveStatus {
    Disabled,
    ShouldEnable,
    Enabled,
}

/// How far along the keep-alive exchange a status is.
pub open spec fn keep_alive_stage(k: KeepAliveStatus) -> int {
    match k {
        KeepAliveStatus::Disabled => 0,
        KeepAliveStatus::ShouldEnable => 1,
        KeepAliveStatus::Enabled => 2,
    }
}

/// Smallest window ID handed out.
pub const FIRST_WINDOW_ID: u8 = 1;

/// Largest window ID handed out; the next one after it is the first again.
pub const LAST_WINDOW_ID: u8 = 200;

/// Bit pattern of the default flying speed, `0.05` as an `f32`.
pub const DEFAULT_FLYING_SPEED_BITS: u32 = 0x3D4C_CCCD;

/// The window ID handed out after `id`.
pub open spec fn next_window_id_after(id: u8) -> u8 {
    if id >= LAST_WINDOW_ID {
        FIRST_WINDOW_ID
    } else {
        (id + 1) as u8
    }
}

/// Whether an action rate-limited to one per `min_interval_ms` may happen at
/// `now_ms`, the last one having happened at `last` (in milliseconds on a
/// monotonic clock).
pub open spec fn rate_allows(last: Option<u64>, now_ms: u64, min_interval_ms: u64) -> bool {
    match last {
        Some(l) => !(now_ms >= l && now_ms - l < min_interval_ms),
        None => true,
    }
}

/// What a connection's state holds, field by field: the model its
/// contracts speak of.
pub struct ClientView {
    pub state: State,
    pub protocol_version: Option<ProtocolVersion>,
    pub kick_message: Option<String>,
    pub message_id: i32,
    pub keep_alive_enabled: KeepAliveStatus,
    pub entity_id: i32,
    pub lobby_session_id: Option<LobbySessionId>,
    pub chat_visibility: ChatVisibility,
    pub pending_lobby_chat_plan: Option<LobbyChatPlan>,
    pub pending_lobby_private_message_plan: Option<LobbyPrivateMessagePlan>,
    pub last_chat_message_at: Option<u64>,
    pub pending_lobby_metadata_plan: Option<LobbyMetadataPlan>,
    pub pending_lobby_movement_plan: Option<LobbyMovementPlan>,
    pub pending_lobby_swing_plan: Option<LobbySwingPlan>,
    pub last_movement_broadcast_at: Option<u64>,
    pub last_swing_broadcast_at: Option<u64>,
    pub position_bits: (u64, u64, u64),
    pub rotation_bits: (u32, u32),
    pub is_flight_allowed: bool,
    pub is_flying: bool,
    pub flying_speed_bits: u32,
    pub selected_hotbar_slot: u8,
    pub next_window_id: u8,
    pub open_selector: Option<OpenSelectorState>,
    pub players_visible: bool,
}

/// The state of a fresh connection.
pub open spec fn fresh_client_view() -> ClientView {
    ClientView {
        state: State::Handshake,
        protocol_version: None,
        kick_message: None,
        message_id: -1i32,
        keep_alive_enabled: KeepAliveStatus::Disabled,
        entity_id: 0,
        lobby_session_id: None,
        chat_visibility: ChatVisibility::Unknown,
        pending_lobby_chat_plan: None,
        pending_lobby_private_message_plan: None,
        last_chat_message_at: None,
        pending_lobby_metadata_plan: None,
        pending_lobby_movement_plan: None,
        pending_lobby_swing_plan: None,
        last_movement_broadcast_at: None,
        last_swing_broadcast_at: None,
        position_bits: (0, 0, 0),
        rotation_bits: (0, 0),
        is_flight_allowed: false,
        is_flying: false,
        flying_speed_bits: DEFAULT_FLYING_SPEED_BITS,
        selected_hotbar_slot: 0,
        next_window_id: FIRST_WINDOW_ID,
        open_selector: None,
        players_visible: true,
    }
}

/// The state a connection keeps between packets. Positions, rotation and
/// flying speed are held as the bit patterns of the floats the client sent;
/// instants are milliseconds on a monotonic clock.
#[derive(Debug)]
pub struct ClientState {
    state: State,
    protocol_version: Option<ProtocolVersion>,
    kick_message: Option<String>,
    message_id: i32,
    keep_alive_enabled: KeepAliveStatus,
    entity_id: i32,
    lobby_session_id: Option<LobbySessionId>,
    chat_visibility: ChatVisibility,
    pending_lobby_chat_plan: Option<LobbyChatPlan>,
    pending_lobby_private_message_plan: Option<LobbyPrivateMessagePlan>,
    last_chat_message_at: Option<u64>,
    pending_lobby_metadata_plan: Option<LobbyMetadataPlan>,
    pending_lobby_movement_plan: Option<LobbyMovementPlan>,
    pending_lobby_swing_plan: Option<LobbySwingPlan>,
    last_movement_broadcast_at: Option<u64>,
    last_swing_broadcast_at: Option<u64>,
    position_bits: (u64, u64, u64),
    rotation_bits: (u32, u32),
    is_flight_allowed: bool,
    is_flying: bool,
    flying_speed_bits: u32,
    selected_hotbar_slot: u8,
    next_window_id: u8,
    open_selector: Option<OpenSelectorState>,
    players_visible: bool,
}

impl View for ClientState {
    type V = ClientView;

    closed spec fn view(&self) -> ClientView {
        ClientView {
            state: self.state,
            protocol_version: self.protocol_version,
            kick_message: self.kick_message,
            message_id: self.message_id,
            keep_alive_enabled: self.keep_alive_enabled,
            entity_id: self.entity_id,
            lobby_session_id: self.lobby_session_id,
            chat_visibility: self.chat_visibility,
            pending_lobby_chat_plan: self.pending_lobby_chat_plan,
            pending_lobby_private_message_plan: self.pending_lobby_private_message_plan,
            last_chat_message_at: self.last_chat_message_at,
            pending_lobby_metadata_plan: self.pending_lobby_metadata_plan,
            pending_lobby_movement_plan: self.pending_lobby_movement_plan,
            pending_lobby_swing_plan: self.pending_lobby_swing_plan,
            last_movement_broadcast_at: self.last_movement_broadcast_at,
            last_swing_broadcast_at: self.last_swing_broadcast_at,
            position_bits: self.position_bits,
            rotation_bits: self.rotation_bits,
            is_flight_allowed: self.is_flight_allowed,
            is_flying: self.is_flying,
            flying_speed_bits: self.flying_speed_bits,
            selected_hotbar_slot: self.selected_hotbar_slot,
            next_window_id: self.next_window_id,
            open_selector: self.open_selector,
            players_visible: self.players_visible,
        }
    }
}

impl ClientState {
    /// The window ID counter stays within the IDs handed out.
    pub closed spec fn wf(&self) -> bool {
        FIRST_WINDOW_ID <= self.next_window_id <= LAST_WINDOW_ID
    }

    pub open spec fn state_spec(&self) -> State {
        self@.state
    }

    pub open spec fn protocol_version_spec(&self) -> Option<ProtocolVersion> {
        self@.protocol_version
    }

    pub open spec fn kick_message_spec(&self) -> Option<String> {
        self@.kick_message
    }

    pub open spec fn keep_alive_spec(&self) -> KeepAliveStatus {
        self@.keep_alive_enabled
    }

    pub open spec fn next_window_id_spec(&self) -> u8 {
        self@.next_window_id
    }

    pub open spec fn entity_id_spec(&self) -> i32 {
        self@.entity_id
    }

    pub open spec fn chat_visibility_spec(&self) -> ChatVisibility {
        self@.chat_visibility
    }

    pub open spec fn position_spec(&self) -> ((u64, u64, u64), (u32, u32)) {
        (self@.position_bits, self@.rotation_bits)
    }

    pub open spec fn lobby_session_id_spec(&self) -> Option<LobbySessionId> {
        self@.lobby_session_id
    }

    pub open spec fn flight_spec(&self) -> (bool, bool, u32) {
        (self@.is_flight_allowed, self@.is_flying, self@.flying_speed_bits)
    }

    pub open spec fn players_visible_spec(&self) -> bool {
        self@.players_visible
    }

    pub open spec fn selected_hotbar_slot_spec(&self) -> u8 {
        self@.selected_hotbar_slot
    }

    pub open spec fn last_chat_spec(&self) -> Option<u64> {
        self@.last_chat_message_at
    }

    pub open spec fn last_movement_spec(&self) -> Option<u64> {
        self@.last_movement_broadcast_at
    }

    pub open spec fn last_swing_spec(&self) -> Option<u64> {
        self@.last_swing_broadcast_at
    }

    pub open spec fn pending_chat_spec(&self) -> Option<LobbyChatPlan> {
        self@.pending_lobby_chat_plan
    }

    pub open spec fn pending_private_message_spec(&self) -> Option<LobbyPrivateMessagePlan> {
        self@.pending_lobby_private_message_plan
    }

    pub open spec fn pending_metadata_spec(&self) -> Option<LobbyMetadataPlan> {
        self@.pending_lobby_metadata_plan
    }

    pub open spec fn pending_movement_spec(&self) -> Option<LobbyMovementPlan> {
        self@.pending_lobby_movement_plan
    }

    pub open spec fn pending_swing_spec(&self) -> Option<LobbySwingPlan> {
        self@.pending_lobby_swing_plan
    }

    pub open spec fn open_selector_spec(&self) -> Option<OpenSelectorState> {
        self@.open_selector
    }

    /// The same connection with the given flight permission and flying state.
    pub closed spec fn with_flight(&self, allowed: bool, flying: bool) -> Self {
        ClientState { is_flight_allowed: allowed, is_flying: flying, ..*self }
    }

    /// Setting the flight state twice keeps the second setting; the result
    /// reports it and keeps every other part of the state.
    pub proof fn lemma_with_flight(&self, a: bool, b: bool, c: bool, d: bool)
        ensures
            self.with_flight(a, b).with_flight(c, d) == self.with_flight(c, d),
            self.with_flight(a, b).flight_spec() == (a, b, self.flight_spec().2),
            self.with_flight(a, b).wf() == self.wf(),
            self.with_flight(a, b)@ == (ClientView { is_flight_allowed: a, is_flying: b, ..self@ }),
    {
    }

    /// The same connection with `open` as its open selector menu.
    pub closed spec fn with_open_selector(&self, open: Option<OpenSelectorState>) -> Self {
        ClientState { open_selector: open, ..*self }
    }

    /// Replacing the open menu touches nothing else.
    pub proof fn lemma_with_open_selector(&self, a: Option<OpenSelectorState>, b: Option<OpenSelectorState>)
        ensures
            self.with_open_selector(a).open_selector_spec() == a,
            self.with_open_selector(a).with_open_selector(b) == self.with_open_selector(b),
            self.with_open_selector(self.open_selector_spec()) == *self,
            self.with_open_selector(a).wf() == self.wf(),
            self.with_open_selector(a).protocol_version_spec() == self.protocol_version_spec(),
            self.with_open_selector(a).next_window_id_spec() == self.next_window_id_spec(),
            self.with_open_selector(a).selected_hotbar_slot_spec() == self.selected_hotbar_slot_spec(),
            self.with_open_selector(a).same_session(self),
            self.with_open_selector(a)@ == (ClientView { open_selector: a, ..self@ }),
    {
    }

    /// Everything but the keep-alive status, the kick message, the window
    /// counter, the visibility flag, the instants and the open selector is
    /// the same in `self` and `other`.
    pub closed spec fn same_session(&self, other: &Self) -> bool {
        &&& self.state == other.state
        &&& self.protocol_version == other.protocol_version
        &&& self.entity_id == other.entity_id
        &&& self.lobby_session_id == other.lobby_session_id
        &&& self.chat_visibility == other.chat_visibility
        &&& self.selected_hotbar_slot == other.selected_hotbar_slot
    }

    /// Sharing the session's identity is an equivalence, and it fixes the
    /// protocol version, the lobby session and the selected slot.
    pub proof fn lemma_same_session(&self, b: &Self, c: &Self)
        ensures
            self.same_session(self),
            self.same_session(b) ==> b.same_session(self),
            self.same_session(b) && b.same_session(c) ==> self.same_session(c),
            self.same_session(b) ==> self.protocol_version_spec() == b.protocol_version_spec()
                && self.lobby_session_id_spec() == b.lobby_session_id_spec()
                && self.selected_hotbar_slot_spec() == b.selected_hotbar_slot_spec()
                && self.state_spec() == b.state_spec()
                && self.entity_id_spec() == b.entity_id_spec(),
    {
    }

    /// A fresh connection: in the handshake, with no version yet, keep-alive
    /// disabled, window IDs starting at the first, other players visible.
    pub fn new() -> (c: Self)
        ensures
            c.wf(),
            c@ == fresh_client_view(),
            c.state_spec() == State::Handshake,
            c.protocol_version_spec().is_none(),
            c.kick_message_spec().is_none(),
            c.keep_alive_spec() == KeepAliveStatus::Disabled,
            c.next_window_id_spec() == FIRST_WINDOW_ID,
            c.players_visible_spec(),
            c.selected_hotbar_slot_spec() == 0,
            c.last_chat_spec().is_none(),
            c.last_movement_spec().is_none(),
            c.last_swing_spec().is_none(),
            c.open_selector_spec().is_none(),
    {
        ClientState {
            state: State::Handshake,
            protocol_version: None,
            kick_message: None,
            message_id: -1,
            keep_alive_enabled: KeepAliveStatus::Disabled,
            entity_id: 0,
            lobby_session_id: None,
            chat_visibility: ChatVisibility::Unknown,
            pending_lobby_chat_plan: None,
            pending_lobby_private_message_plan: None,
            last_chat_message_at: None,
            pending_lobby_metadata_plan: None,
            pending_lobby_movement_plan: None,
            pending_lobby_swing_plan: None,
            last_movement_broadcast_at: None,
            last_swing_broadcast_at: None,
            position_bits: (0, 0, 0),
            rotation_bits: (0, 0),
            is_flight_allowed: false,
            is_flying: false,
            flying_speed_bits: DEFAULT_FLYING_SPEED_BITS,
            selected_hotbar_slot: 0,
            next_window_id: FIRST_WINDOW_ID,
            open_selector: None,
            players_visible: true,
        }
    }

    /// Marks the connection to be closed with `kick_message`.
    pub fn kick(&mut self, kick_message: &str)
        requires
            old(self).wf(),
        ensures
            final(self).wf(),
            final(self)@ == (ClientView { kick_message: final(self)@.kick_message, ..old(self)@ }),
            final(self).kick_message_spec() matches Some(m) && m@ == kick_message@,
            final(self).same_session(&*old(self)),
    {
        self.kick_message = Some(kick_message.to_string());
    }

    /// The message the connection is to be closed with, if any.
    pub fn should_kick(&self) -> (m: Option<String>)
        ensures
            m == self.kick_message_spec(),
    {
        match &self.kick_message {
            Some(s) => Some(s.clone()),
            None => None,
        }
    }

    pub fn state(&self) -> (s: State)
        ensures
            s == self.state_spec(),
    {
        self.state
    }

    pub fn set_state(&mut self, new_state: State)
        requires
            old(self).wf(),
        ensures
            final(self).wf(),
            final(self)@ == (ClientView { state: new_state, ..old(self)@ }),
            final(self).state_spec() == new_state,
            final(self).protocol_version_spec() == old(self).protocol_version_spec(),
            final(self).flight_spec() == old(self).flight_spec(),
            final(self).keep_alive_spec() == old(self).keep_alive_spec(),
            final(self).entity_id_spec() == old(self).entity_id_spec(),
            final(self).lobby_session_id_spec() == old(self).lobby_session_id_spec(),
    {
        self.state = new_state;
    }

    /// The negotiated protocol version, `None` before the handshake.
    pub fn protocol_version(&self) -> (v: Option<ProtocolVersion>)
        ensures
            v == self.protocol_version_spec(),
    {
        self.protocol_version
    }

    pub fn set_protocol_version(&mut self, version: ProtocolVersion)
        requires
            old(self).wf(),
        ensures
            final(self).wf(),
            final(self)@ == (ClientView { protocol_version: Some(version), ..old(self)@ }),
            final(self).protocol_version_spec() == Some(version),
            final(self).state_spec() == old(self).state_spec(),
    {
        self.protocol_version = Some(version);
    }

    pub fn entity_id(&self) -> (id: i32)
        ensures
            id == self.entity_id_spec(),
    {
        self.entity_id
    }

    pub fn set_entity_id(&mut self, entity_id: i32)
        requires
            old(self).wf(),
        ensures
            final(self).wf(),
            final(self)@ == (ClientView { entity_id: entity_id, ..old(self)@ }),
            final(self).entity_id_spec() == entity_id,
            final(self).protocol_version_spec() == old(self).protocol_version_spec(),
            final(self).state_spec() == old(self).state_spec(),
            final(self).lobby_session_id_spec() == old(self).lobby_session_id_spec(),
    {
        self.entity_id = entity_id;
    }

    pub fn lobby_session_id(&self) -> (id: Option<LobbySessionId>)
        ensures
            id == self.lobby_session_id_spec(),
    {
        self.lobby_session_id
    }

    pub fn set_lobby_session_id(&mut self, session_id: LobbySessionId)
        requires
            old(self).wf(),
        ensures
            final(self).wf(),
            final(self)@ == (ClientView { lobby_session_id: Some(session_id), ..old(self)@ }),
            final(self).lobby_session_id_spec() == Some(session_id),
            final(self).entity_id_spec() == old(self).entity_id_spec(),
            final(self).protocol_version_spec() == old(self).protocol_version_spec(),
            final(self).state_spec() == old(self).state_spec(),
    {
        self.lobby_session_id = Some(session_id);
    }

    pub fn clear_lobby_session_id(&mut self)
        requires
            old(self).wf(),
        ensures
            final(self).wf(),
            final(self)@ == (ClientView { lobby_session_id: None, ..old(self)@ }),
            final(self).lobby_session_id_spec().is_none(),
    {
        self.lobby_session_id = None;
    }

    pub fn chat_visibility(&self) -> (v: ChatVisibility)
        ensures
            v == self.chat_visibility_spec(),
    {
        self.chat_visibility
    }

    pub fn set_chat_visibility(&mut self, chat_visibility: ChatVisibility)
        requires
            old(self).wf(),
        ensures
            final(self).wf(),
            final(self)@ == (ClientView { chat_visibility: chat_visibility, ..old(self)@ }),
            final(self).chat_visibility_spec() == chat_visibility,
    {
        self.chat_visibility = chat_visibility;
    }

    pub fn set_pending_chat_plan(&mut self, plan: LobbyChatPlan)
        requires
            old(self).wf(),
        ensures
            final(self).wf(),
            final(self)@ == (ClientView { pending_lobby_chat_plan: Some(plan), ..old(self)@ }),
            final(self).pending_chat_spec() == Some(plan),
            final(self).last_chat_spec() == old(self).last_chat_spec(),
            final(self).same_session(&*old(self)),
    {
        self.pending_lobby_chat_plan = Some(plan);
    }

    /// Hands out the pending chat plan, leaving none.
    pub fn take_pending_chat_plan(&mut self) -> (p: Option<LobbyChatPlan>)
        requires
            old(self).wf(),
        ensures
            final(self).wf(),
            final(self)@ == (ClientView { pending_lobby_chat_plan: None, ..old(self)@ }),
            p == old(self).pending_chat_spec(),
            final(self).pending_chat_spec().is_none(),
    {
        self.pending_lobby_chat_plan.take()
    }

    pub fn set_pending_private_message_plan(&mut self, plan: LobbyPrivateMessagePlan)
        requires
            old(self).wf(),
        ensures
            final(self).wf(),
            final(self)@ == (ClientView { pending_lobby_private_message_plan: Some(plan), ..old(self)@ }),
            final(self).pending_private_message_spec() == Some(plan),
    {
        self.pending_lobby_private_message_plan = Some(plan);
    }

    pub fn take_pending_private_message_plan(&mut self) -> (p: Option<LobbyPrivateMessagePlan>)
        requires
            old(self).wf(),
        ensures
            final(self).wf(),
            final(self)@ == (ClientView { pending_lobby_private_message_plan: None, ..old(self)@ }),
            p == old(self).pending_private_message_spec(),
            final(self).pending_private_message_spec().is_none(),
    {
        self.pending_lobby_private_message_plan.take()
    }

    pub fn set_pending_metadata_plan(&mut self, plan: LobbyMetadataPlan)
        requires
            old(self).wf(),
        ensures
            final(self).wf(),
            final(self)@ == (ClientView { pending_lobby_metadata_plan: Some(plan), ..old(self)@ }),
            final(self).pending_metadata_spec() == Some(plan),
    {
        self.pending_lobby_metadata_plan = Some(plan);
    }

    pub fn take_pending_metadata_plan(&mut self) -> (p: Option<LobbyMetadataPlan>)
        requires
            old(self).wf(),
        ensures
            final(self).wf(),
            final(self)@ == (ClientView { pending_lobby_metadata_plan: None, ..old(self)@ }),
            p == old(self).pending_metadata_spec(),
            final(self).pending_metadata_spec().is_none(),
    {
        self.pending_lobby_metadata_plan.take()
    }

    pub fn set_pending_movement_plan(&mut self, plan: LobbyMovementPlan)
        requires
            old(self).wf(),
        ensures
            final(self).wf(),
            final(self)@ == (ClientView { pending_lobby_movement_plan: Some(plan), ..old(self)@ }),
            final(self).pending_movement_spec() == Some(plan),
    {
        self.pending_lobby_movement_plan = Some(plan);
    }

    pub fn take_pending_movement_plan(&mut self) -> (p: Option<LobbyMovementPlan>)
        requires
            old(self).wf(),
        ensures
            final(self).wf(),
            final(self)@ == (ClientView { pending_lobby_movement_plan: None, ..old(self)@ }),
            p == old(self).pending_movement_spec(),
            final(self).pending_movement_spec().is_none(),
    {
        self.pending_lobby_movement_plan.take()
    }

    pub fn set_pending_swing_plan(&mut self, plan: LobbySwingPlan)
        requires
            old(self).wf(),
        ensures
            final(self).wf(),
            final(self)@ == (ClientView { pending_lobby_swing_plan: Some(plan), ..old(self)@ }),
            final(self).pending_swing_spec() == Some(plan),
    {
        self.pending_lobby_swing_plan = Some(plan);
    }

    pub fn take_pending_swing_plan(&mut self) -> (p: Option<LobbySwingPlan>)
        requires
            old(self).wf(),
        ensures
            final(self).wf(),
            final(self)@ == (ClientView { pending_lobby_swing_plan: None, ..old(self)@ }),
            p == old(self).pending_swing_spec(),
            final(self).pending_swing_spec().is_none(),
    {
        self.pending_lobby_swing_plan.take()
    }

    /// Rate limit on chat messages: at `now_ms`, a message is allowed unless
    /// the previous allowed one came less than `min_interval_ms` before;
    /// an allowed message is recorded.
    pub fn check_chat_rate_limit(&mut self, min_interval_ms: u64, now_ms: u64) -> (allowed: bool)
        requires
            old(self).wf(),
        ensures
            final(self).wf(),
            final(self)@ == (ClientView { last_chat_message_at: if allowed { Some(now_ms) } else { old(self)@.last_chat_message_at }, ..old(self)@ }),
            allowed == rate_allows(old(self).last_chat_spec(), now_ms, min_interval_ms),
            final(self).last_chat_spec() == if allowed { Some(now_ms) } else { old(self).last_chat_spec() },
            final(self).same_session(&*old(self)),
            final(self).pending_chat_spec() == old(self).pending_chat_spec(),
    {
        if let Some(last) = self.last_chat_message_at {
            if now_ms >= last && now_ms - last < min_interval_ms {
                return false;
            }
        }
        self.last_chat_message_at = Some(now_ms);
        true
    }

    /// Records a chat message at `now_ms` without checking the limit.
    pub fn consume_chat_rate_limit(&mut self, now_ms: u64)
        requires
            old(self).wf(),
        ensures
            final(self).wf(),
            final(self)@ == (ClientView { last_chat_message_at: Some(now_ms), ..old(self)@ }),
            final(self).last_chat_spec() == Some(now_ms),
    {
        self.last_chat_message_at = Some(now_ms);
    }

    /// Rate limit on movement broadcasts, as for chat.
    pub fn check_movement_broadcast_rate_limit(&mut self, min_interval_ms: u64, now_ms: u64) -> (allowed: bool)
        requires
            old(self).wf(),
        ensures
            final(self).wf(),
            final(self)@ == (ClientView { last_movement_broadcast_at: if allowed { Some(now_ms) } else { old(self)@.last_movement_broadcast_at }, ..old(self)@ }),
            allowed == rate_allows(old(self).last_movement_spec(), now_ms, min_interval_ms),
            final(self).last_movement_spec() == if allowed { Some(now_ms) } else { old(self).last_movement_spec() },
    {
        if let Some(last) = self.last_movement_broadcast_at {
            if now_ms >= last && now_ms - last < min_interval_ms {
                return false;
            }
        }
        self.last_movement_broadcast_at = Some(now_ms);
        true
    }

    /// Rate limit on swing broadcasts, as for chat.
    pub fn check_swing_broadcast_rate_limit(&mut self, min_interval_ms: u64, now_ms: u64) -> (allowed: bool)
        requires
            old(self).wf(),
        ensures
            final(self).wf(),
            final(self)@ == (ClientView { last_swing_broadcast_at: if allowed { Some(now_ms) } else { old(self)@.last_swing_broadcast_at }, ..old(self)@ }),
            allowed == rate_allows(old(self).last_swing_spec(), now_ms, min_interval_ms),
            final(self).last_swing_spec() == if allowed { Some(now_ms) } else { old(self).last_swing_spec() },
    {
        if let Some(last) = self.last_swing_broadcast_at {
            if now_ms >= last && now_ms - last < min_interval_ms {
                return false;
            }
        }
        self.last_swing_broadcast_at = Some(now_ms);
        true
    }

    /// Whether keep-alive should now be turned on.
    pub fn should_enable_keep_alive(&self) -> (b: bool)
        ensures
            b == (self.keep_alive_spec() == KeepAliveStatus::ShouldEnable),
    {
        self.keep_alive_enabled == KeepAliveStatus::ShouldEnable
    }

    /// Asks for keep-alive, unless it was asked for or turned on already.
    pub fn set_keep_alive_should_enable(&mut self)
        requires
            old(self).wf(),
        ensures
            final(self).wf(),
            final(self)@ == (ClientView { keep_alive_enabled: final(self)@.keep_alive_enabled, ..old(self)@ }),
            final(self).keep_alive_spec() == if old(self).keep_alive_spec() == KeepAliveStatus::Disabled {
                KeepAliveStatus::ShouldEnable
            } else {
                old(self).keep_alive_spec()
            },
            final(self).same_session(&*old(self)),
            final(self).flight_spec() == old(self).flight_spec(),
    {
        if self.keep_alive_enabled == KeepAliveStatus::Disabled {
            self.keep_alive_enabled = KeepAliveStatus::ShouldEnable;
        }
    }

    /// Turns keep-alive on, if it was asked for.
    pub fn set_keep_alive_enabled(&mut self)
        requires
            old(self).wf(),
        ensures
            final(self).wf(),
            final(self)@ == (ClientView { keep_alive_enabled: final(self)@.keep_alive_enabled, ..old(self)@ }),
            final(self).keep_alive_spec() == if old(self).keep_alive_spec() == KeepAliveStatus::ShouldEnable {
                KeepAliveStatus::Enabled
            } else {
                old(self).keep_alive_spec()
            },
            final(self).same_session(&*old(self)),
    {
        if self.keep_alive_enabled == KeepAliveStatus::ShouldEnable {
            self.keep_alive_enabled = KeepAliveStatus::Enabled;
        }
    }

    pub fn is_flight_allowed(&self) -> (b: bool)
        ensures
            b == self.flight_spec().0,
    {
        self.is_flight_allowed
    }

    pub fn set_is_flight_allowed(&mut self, allow_flight: bool)
        requires
            old(self).wf(),
        ensures
            final(self).wf(),
            final(self)@ == (ClientView { is_flight_allowed: allow_flight, ..old(self)@ }),
            final(self).flight_spec() == (allow_flight, old(self).flight_spec().1, old(self).flight_spec().2),
            *final(self) == old(self).with_flight(allow_flight, old(self).flight_spec().1),
            final(self).keep_alive_spec() == old(self).keep_alive_spec(),
            final(self).same_session(&*old(self)),
    {
        self.is_flight_allowed = allow_flight;
    }

    pub fn is_flying(&self) -> (b: bool)
        ensures
            b == self.flight_spec().1,
    {
        self.is_flying
    }

    pub fn set_is_flying(&mut self, is_flying: bool)
        requires
            old(self).wf(),
        ensures
            final(self).wf(),
            final(self)@ == (ClientView { is_flying: is_flying, ..old(self)@ }),
            final(self).flight_spec() == (old(self).flight_spec().0, is_flying, old(self).flight_spec().2),
            *final(self) == old(self).with_flight(old(self).flight_spec().0, is_flying),
            final(self).keep_alive_spec() == old(self).keep_alive_spec(),
            final(self).same_session(&*old(self)),
    {
        self.is_flying = is_flying;
    }

    /// Bit pattern of the flying speed.
    pub fn flying_speed_bits(&self) -> (b: u32)
        ensures
            b == self.flight_spec().2,
    {
        self.flying_speed_bits
    }

    pub fn set_flying_speed_bits(&mut self, bits: u32)
        requires
            old(self).wf(),
        ensures
            final(self).wf(),
            final(self)@ == (ClientView { flying_speed_bits: bits, ..old(self)@ }),
            final(self).flight_spec() == (old(self).flight_spec().0, old(self).flight_spec().1, bits),
            final(self).same_session(&*old(self)),
    {
        self.flying_speed_bits = bits;
    }

    /// Bit patterns of the position's coordinates.
    pub fn position_bits(&self) -> (p: (u64, u64, u64))
        ensures
            p == self.position_spec().0,
    {
        self.position_bits
    }

    pub fn set_position_bits(&mut self, bits: (u64, u64, u64))
        requires
            old(self).wf(),
        ensures
            final(self).wf(),
            final(self)@ == (ClientView { position_bits: bits, ..old(self)@ }),
            final(self).position_spec() == (bits, old(self).position_spec().1),
    {
        self.position_bits = bits;
    }

    /// Bit patterns of yaw and pitch.
    pub fn rotation_bits(&self) -> (r: (u32, u32))
        ensures
            r == self.position_spec().1,
    {
        self.rotation_bits
    }

    pub fn set_rotation_bits(&mut self, bits: (u32, u32))
        requires
            old(self).wf(),
        ensures
            final(self).wf(),
            final(self)@ == (ClientView { rotation_bits: bits, ..old(self)@ }),
            final(self).position_spec() == (old(self).position_spec().0, bits),
    {
        self.rotation_bits = bits;
    }

    pub fn selected_hotbar_slot(&self) -> (s: u8)
        ensures
            s == self.selected_hotbar_slot_spec(),
    {
        self.selected_hotbar_slot
    }

    pub fn set_selected_hotbar_slot(&mut self, slot: u8)
        requires
            old(self).wf(),
        ensures
            final(self).wf(),
            final(self)@ == (ClientView { selected_hotbar_slot: slot, ..old(self)@ }),
            final(self).selected_hotbar_slot_spec() == slot,
            final(self).open_selector_spec() == old(self).open_selector_spec(),
    {
        self.selected_hotbar_slot = slot;
    }

    /// Hands out the next window ID, wrapping from the last back to the
    /// first, so that 0 (the player's inventory) is never handed out.
    pub fn allocate_window_id(&mut self) -> (id: u8)
        requires
            old(self).wf(),
        ensures
            final(self).wf(),
            final(self)@ == (ClientView { next_window_id: next_window_id_after(id), ..old(self)@ }),
            id == old(self).next_window_id_spec(),
            FIRST_WINDOW_ID <= id <= LAST_WINDOW_ID,
            final(self).next_window_id_spec() == next_window_id_after(id),
            final(self).same_session(&*old(self)),
            final(self).open_selector_spec() == old(self).open_selector_spec(),
    {
        let id = self.next_window_id;
        self.next_window_id = if self.next_window_id >= LAST_WINDOW_ID {
            FIRST_WINDOW_ID
        } else {
            self.next_window_id + 1
        };
        id
    }

    /// The open selector menu, if any.
    pub fn open_selector(&self) -> (s: Option<&OpenSelectorState>)
        ensures
            match s {
                Some(r) => self.open_selector_spec() == Some(*r),
                None => self.open_selector_spec().is_none(),
            },
    {
        match &self.open_selector {
            Some(s) => Some(s),
            None => None,
        }
    }

    pub fn set_open_selector(&mut self, state: OpenSelectorState)
        requires
            old(self).wf(),
        ensures
            final(self).wf(),
            final(self)@ == (ClientView { open_selector: Some(state), ..old(self)@ }),
            final(self).open_selector_spec() == Some(state),
            *final(self) == old(self).with_open_selector(Some(state)),
            final(self).same_session(&*old(self)),
            final(self).next_window_id_spec() == old(self).next_window_id_spec(),
    {
        self.open_selector = Some(state);
    }

    /// Hands out the open selector menu, leaving none open.
    pub fn take_open_selector(&mut self) -> (s: Option<OpenSelectorState>)
        requires
            old(self).wf(),
        ensures
            final(self).wf(),
            final(self)@ == (ClientView { open_selector: None, ..old(self)@ }),
            s == old(self).open_selector_spec(),
            final(self).open_selector_spec().is_none(),
            *final(self) == old(self).with_open_selector(None),
            final(self).same_session(&*old(self)),
            final(self).next_window_id_spec() == old(self).next_window_id_spec(),
    {
        self.open_selector.take()
    }

    pub fn players_visible(&self) -> (b: bool)
        ensures
            b == self.players_visible_spec(),
    {
        self.players_visible
    }

    /// Flips whether other players are shown, and returns the new setting.
    pub fn toggle_players_visible(&mut self) -> (b: bool)
        requires
            old(self).wf(),
        ensures
            final(self).wf(),
            final(self)@ == (ClientView { players_visible: b, ..old(self)@ }),
            b == !old(self).players_visible_spec(),
            final(self).players_visible_spec() == b,
            final(self).same_session(&*old(self)),
    {
        self.players_visible = !self.players_visible;
        self.players_visible
    }
}

impl Default for ClientState {
    fn default() -> (c: Self)
        ensures
            c.wf(),
            c@ == fresh_client_view(),
            c.state_spec() == State::Handshake,
            c.protocol_version_spec().is_none(),
            c.keep_alive_spec() == KeepAliveStatus::Disabled,
            c.next_window_id_spec() == FIRST_WINDOW_ID,
            c.players_visible_spec(),
    {
        ClientState::new()
    }
}

/// Law (window IDs): every window ID handed out lies between the first and
/// the last, so it is never the inventory's 0, and after the last comes the
/// first again.
pub proof fn lemma_window_ids_cycle(id: u8)
    requires
        FIRST_WINDOW_ID <= id <= LAST_WINDOW_ID,
    ensures
        FIRST_WINDOW_ID <= next_window_id_after(id) <= LAST_WINDOW_ID,
        next_window_id_after(id) != 0,
        id == LAST_WINDOW_ID ==> next_window_id_after(id) == FIRST_WINDOW_ID,
        id < LAST_WINDOW_ID ==> next_window_id_after(id) == id + 1,
{
}

/// Law (keep-alive): the keep-alive status never moves backwards; each of
/// its two transitions advances it by at most one stage.
pub proof fn lemma_keep_alive_monotone(k: KeepAliveStatus)
    ensures
        keep_alive_stage(k) <= keep_alive_stage(
            if k == KeepAliveStatus::Disabled { KeepAliveStatus::ShouldEnable } else { k },
        ) <= keep_alive_stage(k) + 1,
        keep_alive_stage(k) <= keep_alive_stage(
            if k == KeepAliveStatus::ShouldEnable { KeepAliveStatus::Enabled } else { k },
        ) <= keep_alive_stage(k) + 1,
{
}

/// Law (rate limit): after an allowed action at `t1`, another at `t2` (no
/// earlier on the clock) is allowed exactly when at least the interval has
/// passed.
pub proof fn lemma_rate_limit_spacing(t1: u64, t2: u64, min_interval_ms: u64)
    requires
        t1 <= t2,
    ensures
        rate_allows(Some(t1), t2, min_interval_ms) <==> t2 - t1 >= min_interval_ms,
{
}

} // verus!
