use vstd::prelude::*;
use crate::protocol::ProtocolVersion;
use crate::lobby::{LobbyRecipient, LobbyChatPlan, LobbyLifecycleMessagePlan, LobbyPrivateMessagePlan};
use crate::text::{
    escape_markup, escape_minimessage_text, lacks, lemma_escape_lacks_brace, lemma_replace_absent, lemma_replace_after,
    lemma_replace_head, lemma_replace_near_miss, replace_all, replace_str, chars_of,
};

verus! {

/// Longest chat message accepted, in characters.
pub const MAX_CHAT_MESSAGE_CHARS: usize = 256;

/// Whether a chat message is longer than [`MAX_CHAT_MESSAGE_CHARS`].
pub fn chat_message_too_long(message: &str) -> (b: bool)
    ensures
        b == (message@.len() > MAX_CHAT_MESSAGE_CHARS),
{
    chars_of(message).len() > MAX_CHAT_MESSAGE_CHARS
}

/// The packet that carries a chat line to a client of a given version.
#[derive(Debug, Clone, Copy, PartialEq, Eq, Structural)]
pub enum ChatPacketKind {
    /// System chat message (1.19 and later).
    SystemChat,
    /// Legacy chat message with the system position (before 1.19).
    LegacyChat,
}

/// System chat from 1.19 on, legacy chat before.
pub open spec fn chat_kind_for(version: ProtocolVersion) -> ChatPacketKind {
    if version.rank() >= ProtocolVersion::V1_19.rank() {
        ChatPacketKind::SystemChat
    } else {
        ChatPacketKind::LegacyChat
    }
}

pub fn chat_packet_kind(version: ProtocolVersion) -> (k: ChatPacketKind)
    ensures
        k == chat_kind_for(version),
{
    if version.is_after_inclusive(ProtocolVersion::V1_19) {
        ChatPacketKind::SystemChat
    } else {
        ChatPacketKind::LegacyChat
    }
}

/// One chat line to deliver: to whom, and in which packet.
#[derive(Debug, Clone, Copy, PartialEq, Eq, Structural)]
pub struct ChatDelivery {
    pub recipient: LobbyRecipient,
    pub kind: ChatPacketKind,
}

/// The delivery of a chat line to one recipient.
pub open spec fn delivery_to(r: LobbyRecipient) -> ChatDelivery {
    ChatDelivery { recipient: r, kind: chat_kind_for(r.protocol_version) }
}

/// One delivery per recipient, in order, each in the packet its version reads.
pub fn chat_deliveries(recipients: &Vec<LobbyRecipient>) -> (d: Vec<ChatDelivery>)
    ensures
        d@ == recipients@.map_values(|r: LobbyRecipient| delivery_to(r)),
{
    let mut out: Vec<ChatDelivery> = Vec::new();
    let mut i: usize = 0;
    while i < recipients.len()
        invariant
            i <= recipients.len(),
            out@ == recipients@.take(i as int).map_values(|r: LobbyRecipient| delivery_to(r)),
        decreases recipients.len() - i,
    {
        let r = recipients[i];
        out.push(ChatDelivery { recipient: r, kind: chat_packet_kind(r.protocol_version) });
        assert(recipients@.take(i + 1).map_values(|r: LobbyRecipient| delivery_to(r)) =~= out@);
        i = i + 1;
    }
    assert(recipients@.take(recipients.len() as int) =~= recipients@);
    out
}

/// The MiniMessage text of a lobby chat line: the format with `{sender}`,
/// then `{message}`, replaced by the escaped sender name and message.
pub open spec fn chat_text(sender: Seq<char>, message: Seq<char>, format: Seq<char>) -> Seq<char> {
    replace_all(replace_all(format, "{sender}"@, escape_markup(sender)), "{message}"@, escape_markup(message))
}

/// Fills a lobby chat format (see [`chat_text`]).
pub fn format_lobby_chat(sender: &str, message: &str, format: &str) -> (t: String)
    ensures
        t@ == chat_text(sender@, message@, format@),
{
    proof {
        reveal_strlit("{sender}");
        reveal_strlit("{message}");
    }
    let s = escape_minimessage_text(sender);
    let m = escape_minimessage_text(message);
    let step = replace_str(format, "{sender}", s.as_str());
    replace_str(step.as_str(), "{message}", m.as_str())
}

/// The text shown when a chat format is not valid MiniMessage.
pub fn plain_chat_text(sender: &str, message: &str) -> (t: String)
    ensures
        t@ == sender@ + ": "@ + message@,
{
    sender.to_string().concat(": ").concat(message)
}

/// The MiniMessage text of a join or leave message: the template with
/// `{player}` replaced by the escaped player name.
pub open spec fn lifecycle_text(player: Seq<char>, template: Seq<char>) -> Seq<char> {
    replace_all(template, "{player}"@, escape_markup(player))
}

/// Fills a join or leave template (see [`lifecycle_text`]).
pub fn format_lobby_lifecycle_message(player: &str, template: &str) -> (t: String)
    ensures
        t@ == lifecycle_text(player@, template@),
{
    proof {
        reveal_strlit("{player}");
    }
    let p = escape_minimessage_text(player);
    replace_str(template, "{player}", p.as_str())
}

/// The MiniMessage text of one side of a private message: the format with
/// `{sender}`, `{recipient}`, `{target}` and `{message}` replaced, in that
/// order, by the escaped sender name, recipient name (twice) and message.
pub open spec fn private_text(format: Seq<char>, sender: Seq<char>, recipient: Seq<char>, message: Seq<char>) -> Seq<char> {
    replace_all(
        replace_all(
            replace_all(replace_all(format, "{sender}"@, escape_markup(sender)), "{recipient}"@, escape_markup(recipient)),
            "{target}"@,
            escape_markup(recipient),
        ),
        "{message}"@,
        escape_markup(message),
    )
}

/// A placeholder: `{`, then a name holding no further `{`.
spec fn is_placeholder(q: Seq<char>) -> bool {
    q.len() >= 2 && q[0] == '{' && lacks(q.skip(1), '{')
}

/// One replacement pass over `p1 + ph + p2`: the placeholder is replaced
/// when it is the pattern, and nothing else is touched.
proof fn lemma_fill_pass(p1: Seq<char>, ph: Seq<char>, p2: Seq<char>, pat: Seq<char>, rep: Seq<char>)
    requires
        lacks(p1, '{'),
        lacks(p2, '{'),
        is_placeholder(ph),
        is_placeholder(pat),
        ph == pat || ph[1] != pat[1],
    ensures
        replace_all(p1 + ph + p2, pat, rep) == if ph == pat { p1 + rep + p2 } else { p1 + ph + p2 },
{
    assert(p1 + ph + p2 =~= p1 + (ph + p2));
    lemma_replace_after(p1, ph + p2, pat, rep);
    if ph == pat {
        lemma_replace_head(pat, p2, rep);
        lemma_replace_absent(p2, pat, rep);
        assert(p1 + (rep + p2) =~= p1 + rep + p2);
    } else {
        lemma_replace_near_miss(ph, p2, pat, rep);
    }
}

proof fn lemma_lacks_concat(a: Seq<char>, b: Seq<char>, c: Seq<char>)
    requires
        lacks(a, '{'),
        lacks(b, '{'),
        lacks(c, '{'),
    ensures
        lacks(a + b + c, '{'),
{
    let t = a + b + c;
    assert forall|i: int| 0 <= i < t.len() implies #[trigger] t[i] != '{' by {
        if i < a.len() {
            assert(t[i] == a[i]);
        } else if i < a.len() + b.len() {
            assert(t[i] == b[i - a.len()]);
        } else {
            assert(t[i] == c[i - a.len() - b.len()]);
        }
    }
}

/// One pass over text that holds either the placeholder or, once it has
/// been replaced, no `{` at all.
proof fn lemma_fill_step(
    p1: Seq<char>,
    ph: Seq<char>,
    p2: Seq<char>,
    t: Seq<char>,
    pat: Seq<char>,
    rep: Seq<char>,
)
    requires
        lacks(p1, '{'),
        lacks(p2, '{'),
        lacks(rep, '{'),
        is_placeholder(ph),
        is_placeholder(pat),
        ph == pat || ph[1] != pat[1],
        t == p1 + ph + p2 || lacks(t, '{'),
    ensures
        t == p1 + ph + p2 && ph == pat ==> replace_all(t, pat, rep) == p1 + rep + p2 && lacks(replace_all(t, pat, rep), '{'),
        t == p1 + ph + p2 && ph != pat ==> replace_all(t, pat, rep) == t,
        t != p1 + ph + p2 ==> replace_all(t, pat, rep) == t,
{
    if t == p1 + ph + p2 {
        lemma_fill_pass(p1, ph, p2, pat, rep);
        if ph == pat {
            lemma_lacks_concat(p1, rep, p2);
        }
    } else {
        lemma_replace_absent(t, pat, rep);
    }
}

/// Law (private-message placeholders): in a private-message format, with
/// text around it that holds no `{`, `{sender}` becomes the escaped sender
/// name, `{recipient}` and `{target}` both become the escaped recipient
/// name, and `{message}` becomes the escaped message; a format with no
/// placeholder is left as it is. (Names and message are taken to hold no
/// `{`: a name that itself spells a later placeholder would be filled in
/// again.)
pub proof fn lemma_private_placeholders(
    p1: Seq<char>,
    p2: Seq<char>,
    sender: Seq<char>,
    recipient: Seq<char>,
    message: Seq<char>,
)
    requires
        lacks(p1, '{'),
        lacks(p2, '{'),
        lacks(sender, '{'),
        lacks(recipient, '{'),
        lacks(message, '{'),
    ensures
        private_text(p1 + "{sender}"@ + p2, sender, recipient, message) == p1 + escape_markup(sender) + p2,
        private_text(p1 + "{recipient}"@ + p2, sender, recipient, message) == p1 + escape_markup(recipient) + p2,
        private_text(p1 + "{target}"@ + p2, sender, recipient, message) == p1 + escape_markup(recipient) + p2,
        private_text(p1 + "{message}"@ + p2, sender, recipient, message) == p1 + escape_markup(message) + p2,
        private_text(p1, sender, recipient, message) == p1,
{
    reveal_strlit("{sender}");
    reveal_strlit("{recipient}");
    reveal_strlit("{target}");
    reveal_strlit("{message}");
    let ps = "{sender}"@;
    let pr = "{recipient}"@;
    let pt = "{target}"@;
    let pm = "{message}"@;
    assert(is_placeholder(ps)) by {
        assert forall|i: int| 0 <= i < ps.skip(1).len() implies #[trigger] ps.skip(1)[i] != '{' by {
            assert(ps.skip(1)[i] == ps[i + 1]);
        }
    }
    assert(is_placeholder(pr)) by {
        assert forall|i: int| 0 <= i < pr.skip(1).len() implies #[trigger] pr.skip(1)[i] != '{' by {
            assert(pr.skip(1)[i] == pr[i + 1]);
        }
    }
    assert(is_placeholder(pt)) by {
        assert forall|i: int| 0 <= i < pt.skip(1).len() implies #[trigger] pt.skip(1)[i] != '{' by {
            assert(pt.skip(1)[i] == pt[i + 1]);
        }
    }
    assert(is_placeholder(pm)) by {
        assert forall|i: int| 0 <= i < pm.skip(1).len() implies #[trigger] pm.skip(1)[i] != '{' by {
            assert(pm.skip(1)[i] == pm[i + 1]);
        }
    }
    assert(ps != pr && ps != pt && ps != pm && pr != pt && pr != pm && pt != pm) by {
        assert(ps[1] != pr[1] && ps[1] != pt[1] && ps[1] != pm[1] && pr[1] != pt[1] && pr[1] != pm[1] && pt[1] != pm[1]);
    }
    let es = escape_markup(sender);
    let er = escape_markup(recipient);
    let em = escape_markup(message);
    lemma_escape_lacks_brace(sender);
    lemma_escape_lacks_brace(recipient);
    lemma_escape_lacks_brace(message);
    lemma_fill_four(p1, ps, p2, ps, pr, pt, pm, es, er, em);
    lemma_fill_four(p1, pr, p2, ps, pr, pt, pm, es, er, em);
    lemma_fill_four(p1, pt, p2, ps, pr, pt, pm, es, er, em);
    lemma_fill_four(p1, pm, p2, ps, pr, pt, pm, es, er, em);
    lemma_replace_absent(p1, ps, es);
    lemma_replace_absent(p1, pr, er);
    lemma_replace_absent(p1, pt, er);
    lemma_replace_absent(p1, pm, em);
}

/// Law (chat placeholders): in a chat format, with text around it that
/// holds no `{`, `{sender}` becomes the escaped sender name and
/// `{message}` the escaped message; a format with no placeholder is left as
/// it is. (Name and message are taken to hold no `{`.)
pub proof fn lemma_chat_placeholders(p1: Seq<char>, p2: Seq<char>, sender: Seq<char>, message: Seq<char>)
    requires
        lacks(p1, '{'),
        lacks(p2, '{'),
        lacks(sender, '{'),
        lacks(message, '{'),
    ensures
        chat_text(sender, message, p1 + "{sender}"@ + p2) == p1 + escape_markup(sender) + p2,
        chat_text(sender, message, p1 + "{message}"@ + p2) == p1 + escape_markup(message) + p2,
        chat_text(sender, message, p1) == p1,
{
    reveal_strlit("{sender}");
    reveal_strlit("{message}");
    let ps = "{sender}"@;
    let pm = "{message}"@;
    assert(is_placeholder(ps)) by {
        assert forall|i: int| 0 <= i < ps.skip(1).len() implies #[trigger] ps.skip(1)[i] != '{' by {
            assert(ps.skip(1)[i] == ps[i + 1]);
        }
    }
    assert(is_placeholder(pm)) by {
        assert forall|i: int| 0 <= i < pm.skip(1).len() implies #[trigger] pm.skip(1)[i] != '{' by {
            assert(pm.skip(1)[i] == pm[i + 1]);
        }
    }
    assert(ps[1] != pm[1]);
    let es = escape_markup(sender);
    let em = escape_markup(message);
    lemma_escape_lacks_brace(sender);
    lemma_escape_lacks_brace(message);
    let a0 = p1 + ps + p2;
    lemma_fill_step(p1, ps, p2, a0, ps, es);
    lemma_fill_step(p1, ps, p2, replace_all(a0, ps, es), pm, em);
    let b0 = p1 + pm + p2;
    lemma_fill_step(p1, pm, p2, b0, ps, es);
    lemma_fill_step(p1, pm, p2, replace_all(b0, ps, es), pm, em);
    lemma_replace_absent(p1, ps, es);
    lemma_replace_absent(p1, pm, em);
}

/// Law (join and leave placeholders): in a join or leave template, with
/// text around it that holds no `{`, `{player}` becomes the escaped player
/// name; a template with no placeholder is left as it is.
pub proof fn lemma_lifecycle_placeholder(p1: Seq<char>, p2: Seq<char>, player: Seq<char>)
    requires
        lacks(p1, '{'),
        lacks(p2, '{'),
    ensures
        lifecycle_text(player, p1 + "{player}"@ + p2) == p1 + escape_markup(player) + p2,
        lifecycle_text(player, p1) == p1,
{
    reveal_strlit("{player}");
    let pp = "{player}"@;
    assert(is_placeholder(pp)) by {
        assert forall|i: int| 0 <= i < pp.skip(1).len() implies #[trigger] pp.skip(1)[i] != '{' by {
            assert(pp.skip(1)[i] == pp[i + 1]);
        }
    }
    lemma_fill_pass(p1, pp, p2, pp, escape_markup(player));
    lemma_replace_absent(p1, pp, escape_markup(player));
}

/// The four passes of [`private_text`] over `p1 + ph + p2`, where `ph` is
/// one of the four placeholders.
proof fn lemma_fill_four(
    p1: Seq<char>,
    ph: Seq<char>,
    p2: Seq<char>,
    ps: Seq<char>,
    pr: Seq<char>,
    pt: Seq<char>,
    pm: Seq<char>,
    es: Seq<char>,
    er: Seq<char>,
    em: Seq<char>,
)
    requires
        lacks(p1, '{'),
        lacks(p2, '{'),
        lacks(es, '{'),
        lacks(er, '{'),
        lacks(em, '{'),
        is_placeholder(ps),
        is_placeholder(pr),
        is_placeholder(pt),
        is_placeholder(pm),
        ph == ps || ph == pr || ph == pt || ph == pm,
        ps[1] != pr[1] && ps[1] != pt[1] && ps[1] != pm[1] && pr[1] != pt[1] && pr[1] != pm[1] && pt[1] != pm[1],
    ensures
        replace_all(replace_all(replace_all(replace_all(p1 + ph + p2, ps, es), pr, er), pt, er), pm, em) == p1 + (if ph == ps {
            es
        } else if ph == pr || ph == pt {
            er
        } else {
            em
        }) + p2,
{
    let t0 = p1 + ph + p2;
    lemma_fill_step(p1, ph, p2, t0, ps, es);
    let t1 = replace_all(t0, ps, es);
    lemma_fill_step(p1, ph, p2, t1, pr, er);
    let t2 = replace_all(t1, pr, er);
    lemma_fill_step(p1, ph, p2, t2, pt, er);
    let t3 = replace_all(t2, pt, er);
    lemma_fill_step(p1, ph, p2, t3, pm, em);
}

fn fill_private_format(format: &str, sender: &str, recipient: &str, message: &str) -> (t: String)
    ensures
        t@ == private_text(format@, sender@, recipient@, message@),
{
    proof {
        reveal_strlit("{sender}");
        reveal_strlit("{recipient}");
        reveal_strlit("{target}");
        reveal_strlit("{message}");
    }
    let s = escape_minimessage_text(sender);
    let r = escape_minimessage_text(recipient);
    let m = escape_minimessage_text(message);
    let a = replace_str(format, "{sender}", s.as_str());
    let b = replace_str(a.as_str(), "{recipient}", r.as_str());
    let c = replace_str(b.as_str(), "{target}", r.as_str());
    replace_str(c.as_str(), "{message}", m.as_str())
}

/// The text the sender of a private message sees.
pub fn format_private_message_for_sender(plan: &LobbyPrivateMessagePlan) -> (t: String)
    ensures
        t@ == private_text(plan.sender_format@, plan.sender_username@, plan.recipient_username@, plan.message@),
{
    fill_private_format(plan.sender_format.as_str(), plan.sender_username.as_str(), plan.recipient_username.as_str(), plan.message.as_str())
}

/// The text the recipient of a private message sees.
pub fn format_private_message_for_recipient(plan: &LobbyPrivateMessagePlan) -> (t: String)
    ensures
        t@ == private_text(plan.recipient_format@, plan.sender_username@, plan.recipient_username@, plan.message@),
{
    fill_private_format(plan.recipient_format.as_str(), plan.sender_username.as_str(), plan.recipient_username.as_str(), plan.message.as_str())
}

/// The plain text the sender sees when the sender format is not valid MiniMessage.
pub fn plain_private_text_for_sender(plan: &LobbyPrivateMessagePlan) -> (t: String)
    ensures
        t@ == "To "@ + plan.recipient_username@ + ": "@ + plan.message@,
{
    "To ".to_string().concat(plan.recipient_username.as_str()).concat(": ").concat(plan.message.as_str())
}

/// The plain text the recipient sees when the recipient format is not valid MiniMessage.
pub fn plain_private_text_for_recipient(plan: &LobbyPrivateMessagePlan) -> (t: String)
    ensures
        t@ == "From "@ + plan.sender_username@ + ": "@ + plan.message@,
{
    "From ".to_string().concat(plan.sender_username.as_str()).concat(": ").concat(plan.message.as_str())
}

/// The chat line of a lobby chat plan and its deliveries.
pub fn chat_packets_for_plan(plan: &LobbyChatPlan) -> (r: (String, Vec<ChatDelivery>))
    ensures
        r.0@ == chat_text(plan.sender_username@, plan.message@, plan.format@),
        r.1@ == plan.recipients@.map_values(|x: LobbyRecipient| delivery_to(x)),
{
    (format_lobby_chat(plan.sender_username.as_str(), plan.message.as_str(), plan.format.as_str()), chat_deliveries(&plan.recipients))
}

/// The announcement of a lifecycle plan and its deliveries.
pub fn lifecycle_message_packets_for_plan(plan: &LobbyLifecycleMessagePlan) -> (r: (String, Vec<ChatDelivery>))
    ensures
        r.0@ == lifecycle_text(plan.player_username@, plan.template@),
        r.1@ == plan.recipients@.map_values(|x: LobbyRecipient| delivery_to(x)),
{
    (format_lobby_lifecycle_message(plan.player_username.as_str(), plan.template.as_str()), chat_deliveries(&plan.recipients))
}

/// The two sides of a private message: first the sender's copy, then the
/// recipient's, each in the packet the receiving client's version reads.
pub fn private_message_packets_for_plan(plan: &LobbyPrivateMessagePlan) -> (r: Vec<(ChatDelivery, String)>)
    ensures
        r@.len() == 2,
        r@[0].0 == delivery_to(plan.sender_recipient),
        r@[0].1@ == private_text(plan.sender_format@, plan.sender_username@, plan.recipient_username@, plan.message@),
        r@[1].0 == delivery_to(plan.message_recipient),
        r@[1].1@ == private_text(plan.recipient_format@, plan.sender_username@, plan.recipient_username@, plan.message@),
{
    let mut out: Vec<(ChatDelivery, String)> = Vec::new();
    out.push((
        ChatDelivery { recipient: plan.sender_recipient, kind: chat_packet_kind(plan.sender_recipient.protocol_version) },
        format_private_message_for_sender(plan),
    ));
    out.push((
        ChatDelivery { recipient: plan.message_recipient, kind: chat_packet_kind(plan.message_recipient.protocol_version) },
        format_private_message_for_recipient(plan),
    ));
    out
}

} // verus!
