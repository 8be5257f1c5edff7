use vstd::prelude::*;
use crate::protocol::ProtocolVersion;
use crate::client::{ClientState, ClientView, rate_allows};
use crate::chat::{MAX_CHAT_MESSAGE_CHARS, chat_message_too_long};
use crate::commands::{Command, CommandMeaning, ParseCommandError, parse_command};
use crate::lobby::{LobbyChatPlan, LobbyNpcInteraction, LobbyState, recipients_where, sees_chat, session_with_id};
use crate::navigation::{LobbyDestination, NavigationError, resolve_destination};
use crate::server_commands::ServerCommands;

verus! {

/// Minimum time between two chat messages of a player, in milliseconds.
pub const CHAT_RATE_LIMIT_INTERVAL_MS: u64 = 750;

/// What a player is told when a chat message is too long.
pub const CHAT_TOO_LONG_FEEDBACK: &'static str = "Chat message is too long.";

/// What a player is told when chatting too fast.
pub const CHAT_RATE_LIMITED_FEEDBACK: &'static str = "You are sending messages too quickly.";

/// What the server does in answer to a command.
#[derive(Debug)]
pub enum CommandAction {
    /// Put the player back at the spawn point.
    TeleportToSpawn,
    /// Send the player's abilities; the flying speed is the bit pattern of an `f32`.
    Abilities { allow_flying: bool, flying: bool, flying_speed_bits: u32 },
    /// Set and send a new flying speed: `speed` is the argument as typed, a
    /// float literal, which the caller reads as an `f32` and clamps to `[0, 1]`.
    SetFlyingSpeed { allow_flying: bool, flying: bool, speed: String },
    /// Transfer the client to another server (1.20.5 and later).
    Transfer { host: String, port: i32 },
    /// Ask the proxy to move the player to `server`.
    Connect { server: String },
    /// A chat line shown to the player only.
    Feedback { message: String },
}

/// What running the command line `input` does, given the parse result.
pub open spec fn command_answer(
    before: ClientState,
    after: ClientState,
    a: Seq<CommandAction>,
    parsed: Result<CommandMeaning, ParseCommandError>,
    destinations: Seq<LobbyDestination>,
) -> bool {
    let (allowed, flying, speed) = before.flight_spec();
    match parsed {
        Err(_) => a.len() == 0 && after == before,
        Ok(CommandMeaning::Spawn) => a == seq![CommandAction::TeleportToSpawn] && after == before,
        Ok(CommandMeaning::Fly) => {
            &&& a == seq![CommandAction::Abilities { allow_flying: !allowed, flying: !allowed && flying, flying_speed_bits: speed }]
            &&& after == before.with_flight(!allowed, !allowed)
        },
        Ok(CommandMeaning::FlySpeed(s)) => {
            &&& a.len() == 1
            &&& a[0] matches CommandAction::SetFlyingSpeed { allow_flying, flying: f, speed: t }
                && allow_flying == allowed && f == flying && t@ == s
            &&& after == before
        },
        Ok(CommandMeaning::Transfer(host, port)) => {
            &&& after == before
            &&& if before.protocol_version_spec().unwrap().rank() >= ProtocolVersion::V1_20_5.rank() {
                a.len() == 1 && (a[0] matches CommandAction::Transfer { host: h, port: p } && h@ == host && p == port)
            } else {
                a.len() == 0
            }
        },
        Ok(CommandMeaning::Server(id)) => {
            &&& after == before
            &&& a.len() == 1
            &&& if exists|i: int| 0 <= i < destinations.len() && (#[trigger] destinations[i]).id.0@ == id {
                a[0] matches CommandAction::Connect { server } && exists|i: int| 0 <= i < destinations.len()
                    && (#[trigger] destinations[i]).id.0@ == id && server@ == destinations[i].server@
                    && forall|j: int| 0 <= j < i ==> (#[trigger] destinations[j]).id.0@ != id
            } else {
                a[0] matches CommandAction::Feedback { message } && message@ == "Unknown server: "@ + id
            }
        },
    }
}

/// Runs a command line a player typed: spawn, toggling flight, fly speed,
/// transfer (for clients from 1.20.5 on) and moving to a lobby destination.
/// A line that is no known command does nothing.
pub fn run_command(
    client: &mut ClientState,
    server_commands: &ServerCommands,
    destinations: &Vec<LobbyDestination>,
    input: &str,
) -> (a: Vec<CommandAction>)
    requires
        old(client).wf(),
        old(client).protocol_version_spec().is_some(),
    ensures
        final(client).wf(),
        command_answer(*old(client), *final(client), a@, parse_command(*server_commands, input@), destinations@),
{
    let ghost before = *client;
    let mut actions: Vec<CommandAction> = Vec::new();
    let parsed = Command::parse(server_commands, input);
    match parsed {
        Err(_) => {},
        Ok(Command::Spawn) => {
            actions.push(CommandAction::TeleportToSpawn);
        },
        Ok(Command::Fly) => {
            let allow_flying = !client.is_flight_allowed();
            let flying = allow_flying && client.is_flying();
            actions.push(CommandAction::Abilities { allow_flying, flying, flying_speed_bits: client.flying_speed_bits() });
            client.set_is_flight_allowed(allow_flying);
            client.set_is_flying(allow_flying);
            proof {
                before.lemma_with_flight(allow_flying, before.flight_spec().1, allow_flying, allow_flying);
            }
        },
        Ok(Command::FlySpeed(speed)) => {
            actions.push(CommandAction::SetFlyingSpeed {
                allow_flying: client.is_flight_allowed(),
                flying: client.is_flying(),
                speed,
            });
        },
        Ok(Command::Transfer(host, port)) => {
            let version = client.protocol_version().unwrap();
            if version.is_after_inclusive(ProtocolVersion::V1_20_5) {
                actions.push(CommandAction::Transfer { host, port });
            }
        },
        Ok(Command::Server(destination_id)) => {
            match resolve_destination(destinations, destination_id.as_str()) {
                Ok(i) => {
                    actions.push(CommandAction::Connect { server: destinations[i].server.clone() });
                    assert(destinations@[i as int].id.0@ == destination_id@);
                },
                Err(NavigationError::UnknownDestination(_)) => {
                    let message = "Unknown server: ".to_string().concat(destination_id.as_str());
                    actions.push(CommandAction::Feedback { message });
                },
            }
        },
    }
    proof {
        if actions@.len() == 1 {
            assert(actions@ =~= seq![actions@[0]]);
        }
    }
    actions
}

/// Handles an ordinary chat line at `now_ms`: a line that is too long, or
/// that comes too soon after the previous one, is refused with a feedback
/// line; otherwise, for a player in the lobby, a broadcast is planned.
pub fn handle_chat_message(client: &mut ClientState, lobby: &LobbyState, message: &str, now_ms: u64) -> (feedback: Option<String>)
    requires
        old(client).wf(),
        lobby.wf(),
    ensures
        final(client).wf(),
        final(client).same_session(&*old(client)),
        message@.len() > MAX_CHAT_MESSAGE_CHARS ==> (feedback matches Some(f) && f@ == CHAT_TOO_LONG_FEEDBACK@)
            && *final(client) == *old(client),
        message@.len() <= MAX_CHAT_MESSAGE_CHARS && !rate_allows(old(client).last_chat_spec(), now_ms, CHAT_RATE_LIMIT_INTERVAL_MS)
            ==> (feedback matches Some(f) && f@ == CHAT_RATE_LIMITED_FEEDBACK@) && final(client)@ == old(client)@,
        message@.len() <= MAX_CHAT_MESSAGE_CHARS && rate_allows(old(client).last_chat_spec(), now_ms, CHAT_RATE_LIMIT_INTERVAL_MS)
            ==> feedback.is_none() && final(client)@ == (ClientView {
                last_chat_message_at: Some(now_ms),
                pending_lobby_chat_plan: final(client)@.pending_lobby_chat_plan,
                ..old(client)@
            }) && match old(client).lobby_session_id_spec() {
                Some(sid) => match session_with_id(lobby.sessions(), sid) {
                    Some(s) => final(client).pending_chat_spec() matches Some(plan) && plan.sender_session_id == sid
                        && plan.sender_username == s.username && plan.message@ == message@
                        && plan.recipients@ == recipients_where(lobby.sessions(), sees_chat()),
                    None => final(client).pending_chat_spec() == old(client).pending_chat_spec(),
                },
                None => final(client).pending_chat_spec() == old(client).pending_chat_spec(),
            },
{
    let ghost before = *client;
    proof {
        before.lemma_same_session(&before, &before);
    }
    if chat_message_too_long(message) {
        return Some(CHAT_TOO_LONG_FEEDBACK.to_string());
    }
    if !client.check_chat_rate_limit(CHAT_RATE_LIMIT_INTERVAL_MS, now_ms) {
        return Some(CHAT_RATE_LIMITED_FEEDBACK.to_string());
    }
    let ghost checked = *client;
    proof {
        checked.lemma_same_session(&before, &before);
    }
    if let Some(sid) = client.lobby_session_id() {
        let plan: Option<LobbyChatPlan> = lobby.plan_chat_broadcast(sid, message.to_string());
        if let Some(plan) = plan {
            client.set_pending_chat_plan(plan);
            proof {
                let after = *client;
                after.lemma_same_session(&checked, &before);
            }
        }
    }
    None
}

/// What using an NPC does: move the player to the NPC's destination, or
/// tell them the destination is unknown.
pub fn answer_npc_interaction(destinations: &Vec<LobbyDestination>, interaction: &LobbyNpcInteraction) -> (a: CommandAction)
    ensures
        (exists|i: int| 0 <= i < destinations@.len() && (#[trigger] destinations@[i]).id.0@ == interaction.destination_id@)
            ==> (a matches CommandAction::Connect { server } && exists|i: int| 0 <= i < destinations@.len()
                && (#[trigger] destinations@[i]).id.0@ == interaction.destination_id@ && server@ == destinations@[i].server@
                && forall|j: int| 0 <= j < i ==> (#[trigger] destinations@[j]).id.0@ != interaction.destination_id@),
        !(exists|i: int| 0 <= i < destinations@.len() && (#[trigger] destinations@[i]).id.0@ == interaction.destination_id@)
            ==> (a matches CommandAction::Feedback { message } && message@ == "Unknown server: "@ + interaction.destination_id@),
{
    match resolve_destination(destinations, interaction.destination_id.as_str()) {
        Ok(i) => {
            assert(destinations@[i as int].id.0@ == interaction.destination_id@);
            CommandAction::Connect { server: destinations[i].server.clone() }
        },
        Err(NavigationError::UnknownDestination(_)) => CommandAction::Feedback {
            message: "Unknown server: ".to_string().concat(interaction.destination_id.as_str()),
        },
    }
}

/// Uses the visibility toggle item: when a toggle is configured in the
/// slot the player holds, flips whether other players are shown and returns
/// the new setting; otherwise nothing changes and the use falls through.
pub fn use_visibility_toggle(client: &mut ClientState, toggle_slot: Option<u8>) -> (r: Option<bool>)
    requires
        old(client).wf(),
    ensures
        final(client).wf(),
        (toggle_slot matches Some(s) && s == old(client).selected_hotbar_slot_spec()) ==> r == Some(!old(client).players_visible_spec())
            && final(client)@ == (ClientView { players_visible: !old(client)@.players_visible, ..old(client)@ }),
        !(toggle_slot matches Some(s) && s == old(client).selected_hotbar_slot_spec()) ==> r.is_none() && *final(client) == *old(client),
{
    match toggle_slot {
        Some(s) => {
            if client.selected_hotbar_slot() != s {
                return None;
            }
            Some(client.toggle_players_visible())
        },
        None => None,
    }
}

/// The feedback line for a visibility toggle, if one is configured for the
/// new setting.
pub fn toggle_feedback(visible: bool, message_on: &Option<String>, message_off: &Option<String>) -> (r: Option<String>)
    ensures
        r == if visible { *message_on } else { *message_off },
{
    let m = if visible { message_on } else { message_off };
    match m {
        Some(t) => Some(t.clone()),
        None => None,
    }
}

/// Whether dropping the held item must be undone by resyncing the
/// inventory: the player dropped from the selector's or the visibility
/// toggle's slot.
pub fn drop_requires_resync(is_drop_selected: bool, selected_slot: u8, selector_slot: Option<u8>, toggle_slot: Option<u8>) -> (b: bool)
    ensures
        b == (is_drop_selected && (selector_slot == Some(selected_slot) || toggle_slot == Some(selected_slot))),
{
    is_drop_selected && (selector_slot == Some(selected_slot) || toggle_slot == Some(selected_slot))
}

} // verus!
