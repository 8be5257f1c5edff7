use vstd::prelude::*;
use crate::protocol::ProtocolVersion;
use crate::lobby::{EntityId, LobbyPrivateMessagePlan, LobbyRecipient, LobbySessionId};
use crate::chat::private_message_packets_for_plan;
use crate::text::{escape_markup, escape_minimessage_text};

verus! {

/// The user text the escaping workload runs on.
pub const ESCAPE_WORKLOAD_TEXT: &'static str = "<red>Alice & Bob</red> > lobby";

/// The recipient record of workload session `id`: session id, UUID and
/// entity id all equal to `id`.
fn workload_recipient(id: u64, version: ProtocolVersion) -> (r: LobbyRecipient)
    requires
        id <= 1000,
    ensures
        r.session_id.0 == id,
        r.uuid == id as u128,
        r.entity_id.0 == id as i32,
        r.protocol_version == version,
{
    LobbyRecipient {
        session_id: LobbySessionId::new(id),
        uuid: id as u128,
        entity_id: EntityId::new(id as i32),
        protocol_version: version,
    }
}

/// The private message the messaging workload plans.
fn workload_private_message_plan() -> (p: LobbyPrivateMessagePlan)
    ensures
        p.sender_session_id.0 == 1,
        p.recipient_session_id.0 == 2,
        p.sender_username@ == "Sender"@,
        p.recipient_username@ == "Recipient"@,
        p.message@ == "hello <gold>there</gold>"@,
        p.sender_format@ == "<gray>[me -> {recipient}]</gray> <white>{message}</white>"@,
        p.recipient_format@ == "<gray>[{sender} -> me]</gray> <white>{message}</white>"@,
        p.sender_recipient.session_id.0 == 1 && p.sender_recipient.uuid == 1
            && p.sender_recipient.entity_id.0 == 1 && p.sender_recipient.protocol_version == ProtocolVersion::V1_18_2,
        p.message_recipient.session_id.0 == 2 && p.message_recipient.uuid == 2
            && p.message_recipient.entity_id.0 == 2 && p.message_recipient.protocol_version == ProtocolVersion::V1_20_5,
{
    LobbyPrivateMessagePlan {
        sender_session_id: LobbySessionId::new(1),
        recipient_session_id: LobbySessionId::new(2),
        sender_username: "Sender".to_string(),
        recipient_username: "Recipient".to_string(),
        message: "hello <gold>there</gold>".to_string(),
        sender_format: "<gray>[me -> {recipient}]</gray> <white>{message}</white>".to_string(),
        recipient_format: "<gray>[{sender} -> me]</gray> <white>{message}</white>".to_string(),
        sender_recipient: workload_recipient(1, ProtocolVersion::V1_18_2),
        message_recipient: workload_recipient(2, ProtocolVersion::V1_20_5),
    }
}

/// Workload: the deliveries of one private message (always two, one per side).
pub fn private_message_packets() -> (n: usize)
    ensures
        n == 2,
{
    private_message_packets_for_plan(&workload_private_message_plan()).len()
}

/// Workload: the UTF-8 length of the escaped workload text.
pub fn escape_minimessage() -> (n: usize)
    ensures
        n == vstd::utf8::encode_utf8(escape_markup(ESCAPE_WORKLOAD_TEXT@)).len() as usize,
{
    let escaped = escape_minimessage_text(ESCAPE_WORKLOAD_TEXT);
    escaped.as_str().len()
}

} // verus!
