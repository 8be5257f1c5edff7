use vstd::prelude::*;
use crate::protocol::{ProtocolVersion, State};
use crate::lobby::{LobbyRecipient, LobbySessionId};
use crate::text::str_equal;

verus! {

/// The packet a kicked client is sent, by connection phase.
#[derive(Debug, Clone, Copy, PartialEq, Eq, Structural)]
pub enum DisconnectKind {
    Login,
    Configuration,
    Play,
}

/// The disconnect packet for a connection in `state`; none can be sent
/// during the handshake or a status exchange.
pub fn disconnect_kind(state: State) -> (k: Option<DisconnectKind>)
    ensures
        k == match state {
            State::Login => Some(DisconnectKind::Login),
            State::Configuration => Some(DisconnectKind::Configuration),
            State::Play => Some(DisconnectKind::Play),
            _ => None::<DisconnectKind>,
        },
{
    match state {
        State::Login => Some(DisconnectKind::Login),
        State::Configuration => Some(DisconnectKind::Configuration),
        State::Play => Some(DisconnectKind::Play),
        _ => None,
    }
}

/// Whether the packet just handled is the connection's first in the play
/// phase; from then on the connection counts as having played.
pub fn first_play_packet(was_in_play_state: &mut bool, state: State) -> (first: bool)
    ensures
        first == (!*old(was_in_play_state) && state == State::Play),
        *final(was_in_play_state) == (*old(was_in_play_state) || first),
{
    let first = !*was_in_play_state && state == State::Play;
    if first {
        *was_in_play_state = true;
    }
    first
}

/// What the server records when a player first reaches the play phase.
#[derive(Debug, Clone, Copy, PartialEq, Eq, Structural)]
pub enum JoinBookkeeping {
    /// In the lobby: route broadcasts to the session, then show it around.
    RegisterLobbySession(LobbySessionId),
    /// Without the lobby: count one more player online.
    CountPlayer,
    /// In the lobby but without a session: nothing to do.
    Nothing,
}

/// The bookkeeping for a player's first play packet.
pub fn join_bookkeeping(lobby_enabled: bool, session: Option<LobbySessionId>) -> (b: JoinBookkeeping)
    ensures
        b == if !lobby_enabled {
            JoinBookkeeping::CountPlayer
        } else {
            match session {
                Some(sid) => JoinBookkeeping::RegisterLobbySession(sid),
                None => JoinBookkeeping::Nothing,
            }
        },
{
    if !lobby_enabled {
        JoinBookkeeping::CountPlayer
    } else {
        match session {
            Some(sid) => JoinBookkeeping::RegisterLobbySession(sid),
            None => JoinBookkeeping::Nothing,
        }
    }
}

/// What the server records when a connection closes.
#[derive(Debug, Clone, Copy, PartialEq, Eq, Structural)]
pub enum LeaveBookkeeping {
    /// Take the session out of the lobby and tell the others.
    LeaveLobby(Option<LobbySessionId>),
    /// Count one player fewer online.
    UncountPlayer,
    /// The connection never reached the play phase.
    Nothing,
}

/// The bookkeeping when a connection closes.
pub fn leave_bookkeeping(was_in_play_state: bool, lobby_enabled: bool, session: Option<LobbySessionId>) -> (b: LeaveBookkeeping)
    ensures
        b == if !was_in_play_state {
            LeaveBookkeeping::Nothing
        } else if lobby_enabled {
            LeaveBookkeeping::LeaveLobby(session)
        } else {
            LeaveBookkeeping::UncountPlayer
        },
{
    if !was_in_play_state {
        LeaveBookkeeping::Nothing
    } else if lobby_enabled {
        LeaveBookkeeping::LeaveLobby(session)
    } else {
        LeaveBookkeeping::UncountPlayer
    }
}

/// The sessions, in order, among `rs` that are connected and run `v`.
pub open spec fn bucket_members(rs: Seq<LobbyRecipient>, connected: Seq<LobbySessionId>, v: ProtocolVersion) -> Seq<LobbySessionId>
    decreases rs.len(),
{
    if rs.len() == 0 {
        seq![]
    } else {
        let r = rs.last();
        let rest = bucket_members(rs.drop_last(), connected, v);
        if connected.contains(r.session_id) && r.protocol_version == v {
            rest.push(r.session_id)
        } else {
            rest
        }
    }
}

/// Recipients of one protocol version, so that each packet is encoded once
/// per version.
#[derive(Debug, Clone, PartialEq, Eq)]
pub struct VersionBucket {
    pub version: ProtocolVersion,
    pub sessions: Vec<LobbySessionId>,
}

fn contains_session(ids: &Vec<LobbySessionId>, id: LobbySessionId) -> (b: bool)
    ensures
        b == ids@.contains(id),
{
    let mut i: usize = 0;
    while i < ids.len()
        invariant
            i <= ids@.len(),
            forall|j: int| 0 <= j < i ==> ids@[j] != id,
        decreases ids.len() - i,
    {
        if ids[i] == id {
            assert(ids@[i as int] == id);
            return true;
        }
        i = i + 1;
    }
    false
}

/// Groups the connected recipients by protocol version: one bucket per
/// version that some connected recipient runs, each holding those
/// recipients' sessions in the order they were given. Which bucket comes first
/// is left open.
pub fn version_buckets(recipients: &Vec<LobbyRecipient>, connected: &Vec<LobbySessionId>) -> (b: Vec<VersionBucket>)
    ensures
        forall|i: int, j: int| 0 <= i < j < b@.len() ==> (#[trigger] b@[i]).version != (#[trigger] b@[j]).version,
        forall|i: int| 0 <= i < b@.len() ==> (#[trigger] b@[i]).sessions@ == bucket_members(recipients@, connected@, b@[i].version),
        forall|i: int| 0 <= i < b@.len() ==> (#[trigger] b@[i]).sessions@.len() > 0,
        forall|k: int| 0 <= k < recipients@.len() && connected@.contains((#[trigger] recipients@[k]).session_id)
            ==> exists|i: int| 0 <= i < b@.len() && (#[trigger] b@[i]).version == recipients@[k].protocol_version,
{
    let mut out: Vec<VersionBucket> = Vec::new();
    let mut k: usize = 0;
    while k < recipients.len()
        invariant
            k <= recipients@.len(),
            forall|i: int, j: int| 0 <= i < j < out@.len() ==> (#[trigger] out@[i]).version != (#[trigger] out@[j]).version,
            forall|i: int| 0 <= i < out@.len() ==> (#[trigger] out@[i]).sessions@ == bucket_members(recipients@.take(k as int), connected@, out@[i].version),
            forall|i: int| 0 <= i < out@.len() ==> (#[trigger] out@[i]).sessions@.len() > 0,
            forall|v: ProtocolVersion| (forall|i: int| 0 <= i < out@.len() ==> (#[trigger] out@[i]).version != v)
                ==> #[trigger] bucket_members(recipients@.take(k as int), connected@, v).len() == 0,
            forall|m: int| 0 <= m < k && connected@.contains((#[trigger] recipients@[m]).session_id)
                ==> exists|i: int| 0 <= i < out@.len() && (#[trigger] out@[i]).version == recipients@[m].protocol_version,
        decreases recipients.len() - k,
    {
        let r = recipients[k];
        let ghost before = out@;
        let ghost pre = recipients@.take(k as int);
        let ghost post = recipients@.take(k + 1);
        proof {
            assert(post.drop_last() =~= pre);
            assert(post.last() == r);
            assert forall|v: ProtocolVersion| #[trigger] bucket_members(post, connected@, v)
                == if connected@.contains(r.session_id) && r.protocol_version == v {
                    bucket_members(pre, connected@, v).push(r.session_id)
                } else {
                    bucket_members(pre, connected@, v)
                } by {
            }
        }
        if contains_session(connected, r.session_id) {
            let mut found: usize = out.len();
            let mut i: usize = 0;
            while i < out.len()
                invariant
                    i <= out@.len(),
                    out@ == before,
                    found <= out@.len(),
                    found < out@.len() ==> out@[found as int].version == r.protocol_version,
                    found == out@.len() ==> forall|j: int| 0 <= j < i ==> (#[trigger] out@[j]).version != r.protocol_version,
                decreases out.len() - i,
            {
                if found == out.len() && out[i].version == r.protocol_version {
                    found = i;
                }
                i = i + 1;
            }
            if found < out.len() {
                let mut bucket = out.remove(found);
                bucket.sessions.push(r.session_id);
                out.insert(found, bucket);
                assert forall|j: int| 0 <= j < out@.len() implies (#[trigger] out@[j]).sessions@
                    == bucket_members(post, connected@, out@[j].version) by {
                    if j == found as int {
                    } else {
                        assert(out@[j] == before[j]);
                    }
                }
                assert forall|v: ProtocolVersion| (forall|i: int| 0 <= i < out@.len() ==> (#[trigger] out@[i]).version != v)
                    implies #[trigger] bucket_members(post, connected@, v).len() == 0 by {
                    assert(out@[found as int].version != v);
                    assert forall|i: int| 0 <= i < before.len() implies (#[trigger] before[i]).version != v by {
                        assert(out@[i] == before[i] || i == found as int);
                        if i == found as int {
                        } else {
                            assert(before[i].version == out@[i].version);
                        }
                    }
                }
                assert forall|m: int| 0 <= m < k + 1 && connected@.contains((#[trigger] recipients@[m]).session_id)
                    implies exists|i: int| 0 <= i < out@.len() && (#[trigger] out@[i]).version == recipients@[m].protocol_version by {
                    if m < k {
                        let i = choose|i: int| 0 <= i < before.len() && (#[trigger] before[i]).version == recipients@[m].protocol_version;
                        assert(out@[i].version == before[i].version);
                    } else {
                        assert(out@[found as int].version == recipients@[m].protocol_version);
                    }
                }
            } else {
                let mut sessions: Vec<LobbySessionId> = Vec::new();
                sessions.push(r.session_id);
                proof {
                    assert(bucket_members(pre, connected@, r.protocol_version).len() == 0);
                    assert(bucket_members(pre, connected@, r.protocol_version) =~= Seq::<LobbySessionId>::empty());
                    assert(sessions@ =~= bucket_members(post, connected@, r.protocol_version));
                }
                out.push(VersionBucket { version: r.protocol_version, sessions });
                assert forall|v: ProtocolVersion| (forall|i: int| 0 <= i < out@.len() ==> (#[trigger] out@[i]).version != v)
                    implies #[trigger] bucket_members(post, connected@, v).len() == 0 by {
                    assert(out@[before.len() as int].version != v);
                    assert forall|i: int| 0 <= i < before.len() implies (#[trigger] before[i]).version != v by {
                        assert(out@[i] == before[i]);
                    }
                }
                assert forall|j: int| 0 <= j < out@.len() implies (#[trigger] out@[j]).sessions@
                    == bucket_members(post, connected@, out@[j].version) by {
                    if j < before.len() {
                        assert(out@[j] == before[j]);
                        assert(before[j].version != r.protocol_version);
                    }
                }
                assert forall|m: int| 0 <= m < k + 1 && connected@.contains((#[trigger] recipients@[m]).session_id)
                    implies exists|i: int| 0 <= i < out@.len() && (#[trigger] out@[i]).version == recipients@[m].protocol_version by {
                    if m < k {
                        let i = choose|i: int| 0 <= i < before.len() && (#[trigger] before[i]).version == recipients@[m].protocol_version;
                        assert(out@[i] == before[i]);
                    } else {
                        assert(out@[before.len() as int].version == recipients@[m].protocol_version);
                    }
                }
            }
        } else {
            assert forall|v: ProtocolVersion| (forall|i: int| 0 <= i < out@.len() ==> (#[trigger] out@[i]).version != v)
                implies #[trigger] bucket_members(post, connected@, v).len() == 0 by {
                assert forall|i: int| 0 <= i < before.len() implies (#[trigger] before[i]).version != v by {
                    assert(out@[i] == before[i]);
                }
            }
            assert forall|m: int| 0 <= m < k + 1 && connected@.contains((#[trigger] recipients@[m]).session_id)
                implies exists|i: int| 0 <= i < out@.len() && (#[trigger] out@[i]).version == recipients@[m].protocol_version by {
                if m == k {
                    assert(recipients@[m] == r);
                }
            }
        }
        k = k + 1;
    }
    assert(recipients@.take(recipients@.len() as int) =~= recipients@);
    out
}

/// What happens after a handled packet when the connection may have been
/// kicked: a kicked connection drops its pending broadcast plans unsent and
/// is sent the disconnect packet of its phase (if its phase has one); a
/// connection that was not kicked broadcasts its plans.
pub fn kick_outcome(state: State, kicked: bool) -> (r: (bool, Option<DisconnectKind>))
    ensures
        r.0 == kicked,
        r.1 == if kicked {
            match state {
                State::Login => Some(DisconnectKind::Login),
                State::Configuration => Some(DisconnectKind::Configuration),
                State::Play => Some(DisconnectKind::Play),
                _ => None::<DisconnectKind>,
            }
        } else {
            None::<DisconnectKind>
        },
{
    if kicked {
        (true, disconnect_kind(state))
    } else {
        (false, None)
    }
}

/// Shortest time between two scoreboard refreshes, in milliseconds.
pub const MIN_SCOREBOARD_INTERVAL_MS: u64 = 50;

/// The scoreboard refresh interval: the configured one, but no shorter
/// than the minimum.
pub fn scoreboard_interval_ms(ms: u64) -> (r: u64)
    ensures
        r == if ms >= MIN_SCOREBOARD_INTERVAL_MS { ms } else { MIN_SCOREBOARD_INTERVAL_MS },
{
    if ms >= MIN_SCOREBOARD_INTERVAL_MS {
        ms
    } else {
        MIN_SCOREBOARD_INTERVAL_MS
    }
}

/// The scoreboard last sent to session `sid`, if any.
pub open spec fn last_render(last: Seq<(u64, String)>, sid: u64) -> Option<Seq<char>>
    decreases last.len(),
{
    if last.len() == 0 {
        None
    } else if last[0].0 == sid {
        Some(last[0].1@)
    } else {
        last_render(last.drop_first(), sid)
    }
}

/// Whether a session's freshly rendered scoreboard differs from the one it
/// was last sent.
pub open spec fn render_changed(last: Seq<(u64, String)>) -> spec_fn((u64, String)) -> bool {
    |r: (u64, String)| last_render(last, r.0) != Some(r.1@)
}

fn find_last_render(last: &Vec<(u64, String)>, sid: u64) -> (r: Option<&String>)
    ensures
        match last_render(last@, sid) {
            Some(t) => r matches Some(x) && x@ == t,
            None => r.is_none(),
        },
{
    let mut i: usize = 0;
    assert(last@.skip(0) =~= last@);
    while i < last.len()
        invariant
            i <= last@.len(),
            last_render(last@, sid) == last_render(last@.skip(i as int), sid),
        decreases last.len() - i,
    {
        assert(last@.skip(i as int).drop_first() =~= last@.skip(i + 1));
        assert(last@.skip(i as int)[0] == last@[i as int]);
        if last[i].0 == sid {
            return Some(&last[i].1);
        }
        i = i + 1;
    }
    assert(last@.skip(i as int).len() == 0);
    None
}

/// The first render remembered for a session is the one found.
proof fn lemma_last_render_first(last: Seq<(u64, String)>, k: int)
    requires
        0 <= k < last.len(),
        forall|j: int| 0 <= j < k ==> (#[trigger] last[j]).0 != last[k].0,
    ensures
        last_render(last, last[k].0) == Some(last[k].1@),
    decreases k,
{
    if k > 0 {
        let rest = last.drop_first();
        assert(rest[k - 1] == last[k]);
        assert forall|j: int| 0 <= j < k - 1 implies (#[trigger] rest[j]).0 != rest[k - 1].0 by {
            assert(rest[j] == last[j + 1]);
        }
        lemma_last_render_first(rest, k - 1);
    }
}

/// Law (scoreboard): a session whose fresh render was never sent (a new
/// session) is sent it; one whose render equals the one it was last sent
/// is not; so a tick that follows a tick with the same renders, one per
/// session, sends nothing.
pub proof fn lemma_scoreboard_repeat(last: Seq<(u64, String)>, rendered: Seq<(u64, String)>, x: (u64, String))
    requires
        forall|i: int, j: int| 0 <= i < j < rendered.len() ==> (#[trigger] rendered[i]).0 != (#[trigger] rendered[j]).0,
    ensures
        last_render(last, x.0) is None ==> render_changed(last)(x),
        last_render(last, x.0) == Some(x.1@) ==> !render_changed(last)(x),
        rendered.filter(render_changed(rendered)).len() == 0,
{
    let pred = render_changed(rendered);
    let f = rendered.filter(pred);
    if f.len() > 0 {
        let y = f[0];
        rendered.lemma_filter_pred(pred, 0);
        assert(f.contains(y));
        rendered.lemma_filter_contains_rev(pred, y);
        let k = choose|k: int| 0 <= k < rendered.len() && rendered[k] == y;
        assert forall|j: int| 0 <= j < k implies (#[trigger] rendered[j]).0 != rendered[k].0 by {}
        lemma_last_render_first(rendered, k);
    }
}

/// One tick of the scoreboard broadcast: the sessions whose rendered
/// scoreboard differs from what they were last sent (in the order
/// rendered), and the renders to remember for the next tick, which are the
/// fresh ones, so sessions that left are forgotten.
pub fn scoreboard_step(last: &Vec<(u64, String)>, rendered: &Vec<(u64, String)>) -> (r: (Vec<u64>, Vec<(u64, String)>))
    ensures
        r.0@ == rendered@.filter(render_changed(last@)).map_values(|x: (u64, String)| x.0),
        r.1@ == rendered@,
{
    let ghost pred = render_changed(last@);
    let mut changed: Vec<u64> = Vec::new();
    let mut next: Vec<(u64, String)> = Vec::new();
    let mut i: usize = 0;
    while i < rendered.len()
        invariant
            i <= rendered@.len(),
            pred == render_changed(last@),
            changed@ == rendered@.take(i as int).filter(pred).map_values(|x: (u64, String)| x.0),
            next@ == rendered@.take(i as int),
        decreases rendered.len() - i,
    {
        let sid = rendered[i].0;
        let text = rendered[i].1.clone();
        let is_changed = match find_last_render(last, sid) {
            Some(prev) => !str_equal(prev.as_str(), text.as_str()),
            None => true,
        };
        proof {
            let t = rendered@.take(i + 1);
            assert(t.drop_last() =~= rendered@.take(i as int));
            assert(t.last() == rendered@[i as int]);
            reveal(Seq::filter);
            assert(is_changed == pred(rendered@[i as int]));
        }
        let ghost before = changed@;
        if is_changed {
            changed.push(sid);
            assert(changed@ =~= rendered@.take(i + 1).filter(pred).map_values(|x: (u64, String)| x.0));
        } else {
            assert(changed@ =~= rendered@.take(i + 1).filter(pred).map_values(|x: (u64, String)| x.0));
        }
        next.push((sid, text));
        assert(next@ =~= rendered@.take(i + 1));
        i = i + 1;
    }
    assert(rendered@.take(rendered@.len() as int) =~= rendered@);
    (changed, next)
}

} // verus!
