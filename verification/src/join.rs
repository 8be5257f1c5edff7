use vstd::prelude::*;
use crate::protocol::{ProtocolVersion, State};
use crate::client::{ClientState, ClientView, KeepAliveStatus};
use crate::config::GameModeConfig;
use crate::server_commands::{ServerCommand, ServerCommands, command_for};
use crate::lobby::{LobbySession, LobbyState, admitted, drop_where, has_uuid};

verus! {

/// `v` lies between `lo` and `hi`, both included.
pub open spec fn within(v: ProtocolVersion, lo: ProtocolVersion, hi: ProtocolVersion) -> bool {
    lo.rank() <= v.rank() && v.rank() <= hi.rank()
}

/// `v` is `w` or later.
pub open spec fn from_on(v: ProtocolVersion, w: ProtocolVersion) -> bool {
    w.rank() <= v.rank()
}

/// How the login packet describes the world to a client.
#[derive(Debug, Clone, Copy, PartialEq, Eq, Structural)]
pub enum LoginShape {
    /// A dimension number (1.7.2 to 1.15.2).
    PreV1_16Dimension,
    /// The registry codec (1.16, 1.16.1, and 1.19 to 1.20).
    RegistryCodec,
    /// Registry codec and dimension codec (1.16.2 to 1.18.2).
    DimensionCodec,
    /// Dimension by name (1.20.2 and 1.20.3).
    PostV1_20_2,
    /// Index into the dimension registry (1.20.5 and later).
    DimensionIndex,
}

pub open spec fn login_shape_for(v: ProtocolVersion) -> LoginShape {
    if within(v, ProtocolVersion::V1_7_2, ProtocolVersion::V1_15_2) {
        LoginShape::PreV1_16Dimension
    } else if within(v, ProtocolVersion::V1_16, ProtocolVersion::V1_16_1) || within(v, ProtocolVersion::V1_19, ProtocolVersion::V1_20) {
        LoginShape::RegistryCodec
    } else if within(v, ProtocolVersion::V1_16_2, ProtocolVersion::V1_18_2) {
        LoginShape::DimensionCodec
    } else if within(v, ProtocolVersion::V1_20_2, ProtocolVersion::V1_20_3) {
        LoginShape::PostV1_20_2
    } else {
        LoginShape::DimensionIndex
    }
}

/// How the login packet describes the world to a client of `version`.
pub fn login_shape(version: ProtocolVersion) -> (s: LoginShape)
    ensures
        s == login_shape_for(version),
        s == LoginShape::DimensionIndex ==> from_on(version, ProtocolVersion::V1_20_5),
{
    if version.between_inclusive(ProtocolVersion::V1_7_2, ProtocolVersion::V1_15_2) {
        LoginShape::PreV1_16Dimension
    } else if version.between_inclusive(ProtocolVersion::V1_16, ProtocolVersion::V1_16_1)
        || version.between_inclusive(ProtocolVersion::V1_19, ProtocolVersion::V1_20) {
        LoginShape::RegistryCodec
    } else if version.between_inclusive(ProtocolVersion::V1_16_2, ProtocolVersion::V1_18_2) {
        LoginShape::DimensionCodec
    } else if version.between_inclusive(ProtocolVersion::V1_20_2, ProtocolVersion::V1_20_3) {
        LoginShape::PostV1_20_2
    } else {
        LoginShape::DimensionIndex
    }
}

/// The game mode a client is put in: clients up to 1.7.6 know no
/// spectator mode and get creative instead.
pub open spec fn game_mode_for(v: ProtocolVersion, configured: GameModeConfig) -> GameModeConfig {
    if v.rank() <= ProtocolVersion::V1_7_6.rank() && configured == GameModeConfig::Spectator {
        GameModeConfig::Creative
    } else {
        configured
    }
}

/// The game mode a client of `version` is put in.
pub fn effective_game_mode(version: ProtocolVersion, configured: GameModeConfig) -> (g: GameModeConfig)
    ensures
        g == game_mode_for(version, configured),
{
    if version.is_before_inclusive(ProtocolVersion::V1_7_6) && configured == GameModeConfig::Spectator {
        GameModeConfig::Creative
    } else {
        configured
    }
}

/// Which parts of a title are shown.
#[derive(Debug, Clone, Copy, PartialEq, Eq, Structural)]
pub enum TitleParts {
    Title,
    Subtitle,
    Both,
}

/// How the action bar text reaches a client.
#[derive(Debug, Clone, Copy, PartialEq, Eq, Structural)]
pub enum ActionBarKind {
    /// Its own packet (1.17 and later).
    ActionBarText,
    /// The legacy title packet (1.11 to 1.16.5).
    LegacyTitle,
    /// A game-info chat message (before 1.11).
    GameInfoChat,
}

pub open spec fn action_bar_kind_for(v: ProtocolVersion) -> ActionBarKind {
    if from_on(v, ProtocolVersion::V1_17) {
        ActionBarKind::ActionBarText
    } else if from_on(v, ProtocolVersion::V1_11) {
        ActionBarKind::LegacyTitle
    } else {
        ActionBarKind::GameInfoChat
    }
}

/// How the action bar text reaches a client of `version`.
pub fn action_bar_kind(version: ProtocolVersion) -> (k: ActionBarKind)
    ensures
        k == action_bar_kind_for(version),
{
    if version.is_after_inclusive(ProtocolVersion::V1_17) {
        ActionBarKind::ActionBarText
    } else if version.is_after_inclusive(ProtocolVersion::V1_11) {
        ActionBarKind::LegacyTitle
    } else {
        ActionBarKind::GameInfoChat
    }
}

/// A command advertised to clients for completion.
#[derive(Debug, Clone, PartialEq, Eq)]
pub enum AdvertisedCommand {
    /// A command without arguments.
    NoArguments { alias: String },
    /// The fly-speed command, with a float argument from 0 to 1.
    FlySpeed { alias: String },
    /// The transfer command: a one-word host, then an optional port from 0
    /// to 65535.
    Transfer { alias: String },
}

/// The commands advertised to a client of version `v`: the enabled spawn,
/// fly and fly-speed commands, then transfer from 1.20.5 on.
pub open spec fn advertised(v: ProtocolVersion, cmds: ServerCommands) -> Seq<AdvertisedCommand> {
    let spawn = match command_for(cmds.spawn_alias()) {
        ServerCommand::Enabled { alias } => seq![AdvertisedCommand::NoArguments { alias }],
        ServerCommand::Disabled => seq![],
    };
    let fly = match command_for(cmds.fly_alias()) {
        ServerCommand::Enabled { alias } => seq![AdvertisedCommand::NoArguments { alias }],
        ServerCommand::Disabled => seq![],
    };
    let fly_speed = match command_for(cmds.fly_speed_alias()) {
        ServerCommand::Enabled { alias } => seq![AdvertisedCommand::FlySpeed { alias }],
        ServerCommand::Disabled => seq![],
    };
    let transfer = match command_for(cmds.transfer_alias()) {
        ServerCommand::Enabled { alias } => if from_on(v, ProtocolVersion::V1_20_5) {
            seq![AdvertisedCommand::Transfer { alias }]
        } else {
            seq![]
        },
        ServerCommand::Disabled => seq![],
    };
    spawn + fly + fly_speed + transfer
}

/// The commands advertised to a client of `version`.
pub fn advertised_commands(version: ProtocolVersion, server_commands: &ServerCommands) -> (c: Vec<AdvertisedCommand>)
    ensures
        c@ == advertised(version, *server_commands),
{
    let mut c: Vec<AdvertisedCommand> = Vec::new();
    if let ServerCommand::Enabled { alias } = server_commands.spawn() {
        c.push(AdvertisedCommand::NoArguments { alias });
    }
    let ghost c1 = c@;
    if let ServerCommand::Enabled { alias } = server_commands.fly() {
        c.push(AdvertisedCommand::NoArguments { alias });
    }
    let ghost c2 = c@;
    if let ServerCommand::Enabled { alias } = server_commands.fly_speed() {
        c.push(AdvertisedCommand::FlySpeed { alias });
    }
    let ghost c3 = c@;
    if version.is_after_inclusive(ProtocolVersion::V1_20_5) {
        if let ServerCommand::Enabled { alias } = server_commands.transfer() {
            c.push(AdvertisedCommand::Transfer { alias });
        }
    }
    assert(c@ =~= advertised(version, *server_commands));
    c
}

/// The server-wide settings that shape what a joining player is sent.
#[derive(Debug, Clone, Copy, PartialEq, Eq, Structural)]
pub struct JoinSettings {
    pub game_mode: GameModeConfig,
    pub hardcore: bool,
    pub allow_flight: bool,
    pub view_distance: i32,
    pub reduced_debug_info: bool,
    pub has_welcome_message: bool,
    pub has_action_bar: bool,
    pub has_tab_list: bool,
    pub title: Option<TitleParts>,
    pub has_boss_bar: bool,
    /// The player has a UUID other than the nil one, so their skin can be shown.
    pub player_has_uuid: bool,
    /// The world time in ticks, and whether it stands still.
    pub time_ticks: i64,
    pub time_locked: bool,
}

/// One step of bringing a player into the world, in the order sent.
#[derive(Debug, Clone, Copy, PartialEq, Eq, Structural)]
pub enum JoinStep {
    Login {
        entity_id: i32,
        shape: LoginShape,
        game_mode: GameModeConfig,
        hardcore: bool,
        view_distance: i32,
        reduced_debug_info: bool,
    },
    /// Turns off secure-profile enforcement (1.19 and 1.19.1).
    ServerData,
    Abilities { allow_flying: bool, creative: bool, flying: bool, flying_speed_bits: u32 },
    SetDefaultSpawnPosition,
    SynchronizePlayerPosition,
    /// The advertised commands (1.13 and later).
    Commands,
    /// The server brand (1.13 to 1.20).
    Brand,
    WelcomeMessage,
    UpdateTime { ticks: i64, advance: bool },
    ActionBar { kind: ActionBarKind },
    /// The player's own player-list entry with their skin.
    PlayerInfoWithSkin,
    SkinLayers,
    TabList,
    TitleAnimation { legacy: bool },
    TitleText { legacy: bool },
    SubtitleText { legacy: bool },
    BossBar,
    /// Tells the client chunks are coming (1.20.3 and later).
    StartWaitingForChunks,
    SetCenterChunk,
    /// The chunks around the spawn point, in spiral order.
    Chunks,
}

/// `step`, when `cond` holds.
pub open spec fn when(cond: bool, step: JoinStep) -> Seq<JoinStep> {
    if cond { seq![step] } else { seq![] }
}

/// The title packets for a client of `v`.
pub open spec fn title_steps(v: ProtocolVersion, title: Option<TitleParts>) -> Seq<JoinStep> {
    let legacy = !from_on(v, ProtocolVersion::V1_17);
    match title {
        None => seq![],
        Some(TitleParts::Title) => seq![JoinStep::TitleAnimation { legacy }, JoinStep::TitleText { legacy }],
        Some(TitleParts::Subtitle) => seq![JoinStep::TitleAnimation { legacy }, JoinStep::SubtitleText { legacy }],
        Some(TitleParts::Both) => seq![
            JoinStep::TitleAnimation { legacy },
            JoinStep::TitleText { legacy },
            JoinStep::SubtitleText { legacy },
        ],
    }
}

/// Login, abilities and position.
pub open spec fn entry_steps(v: ProtocolVersion, s: JoinSettings, flying_speed_bits: u32, entity_id: i32) -> Seq<JoinStep> {
    let mode = game_mode_for(v, s.game_mode);
    let flying = mode == GameModeConfig::Spectator;
    seq![JoinStep::Login {
        entity_id,
        shape: login_shape_for(v),
        game_mode: mode,
        hardcore: s.hardcore,
        view_distance: s.view_distance,
        reduced_debug_info: s.reduced_debug_info,
    }]
        + when(within(v, ProtocolVersion::V1_19, ProtocolVersion::V1_19_1), JoinStep::ServerData)
        + seq![JoinStep::Abilities {
            allow_flying: s.allow_flight || flying,
            creative: mode == GameModeConfig::Creative,
            flying,
            flying_speed_bits,
        }]
        + when(from_on(v, ProtocolVersion::V1_19), JoinStep::SetDefaultSpawnPosition)
        + seq![JoinStep::SynchronizePlayerPosition]
}

/// Commands, brand, welcome message and time.
pub open spec fn server_steps(v: ProtocolVersion, s: JoinSettings) -> Seq<JoinStep> {
    when(from_on(v, ProtocolVersion::V1_13), JoinStep::Commands)
        + when(within(v, ProtocolVersion::V1_13, ProtocolVersion::V1_20), JoinStep::Brand)
        + when(s.has_welcome_message, JoinStep::WelcomeMessage)
        + seq![JoinStep::UpdateTime { ticks: s.time_ticks, advance: !s.time_locked }]
}

/// Action bar, skin, tab list and title, for clients from 1.8 on.
pub open spec fn display_steps(v: ProtocolVersion, s: JoinSettings) -> Seq<JoinStep> {
    if from_on(v, ProtocolVersion::V1_8) {
        when(s.has_action_bar, JoinStep::ActionBar { kind: action_bar_kind_for(v) })
            + when(s.player_has_uuid, JoinStep::PlayerInfoWithSkin)
            + seq![JoinStep::SkinLayers]
            + when(s.has_tab_list, JoinStep::TabList)
            + title_steps(v, s.title)
    } else {
        seq![]
    }
}

/// Boss bar and the world's chunks.
pub open spec fn world_steps(v: ProtocolVersion, s: JoinSettings) -> Seq<JoinStep> {
    let chunks = from_on(v, ProtocolVersion::V1_16);
    when(from_on(v, ProtocolVersion::V1_9) && s.has_boss_bar, JoinStep::BossBar)
        + when(chunks && from_on(v, ProtocolVersion::V1_20_3), JoinStep::StartWaitingForChunks)
        + when(chunks && from_on(v, ProtocolVersion::V1_19), JoinStep::SetCenterChunk)
        + when(chunks, JoinStep::Chunks)
}

/// What a client of `v` is sent on entering the world, in order.
pub open spec fn join_steps(v: ProtocolVersion, s: JoinSettings, flying_speed_bits: u32, entity_id: i32) -> Seq<JoinStep> {
    entry_steps(v, s, flying_speed_bits, entity_id) + server_steps(v, s) + display_steps(v, s) + world_steps(v, s)
}

/// The place of a step in the join sequence: login, server data,
/// abilities, default spawn position and position (0 to 4); commands,
/// brand, welcome message and time (5 to 8); action bar, player info, skin
/// layers, tab list, title animation, title line and subtitle line (9 to
/// 15); boss bar, chunk wait, centre chunk and chunks (16 to 19).
pub open spec fn join_rank(st: JoinStep) -> int {
    match st {
        JoinStep::Login { .. } => 0,
        JoinStep::ServerData => 1,
        JoinStep::Abilities { .. } => 2,
        JoinStep::SetDefaultSpawnPosition => 3,
        JoinStep::SynchronizePlayerPosition => 4,
        JoinStep::Commands => 5,
        JoinStep::Brand => 6,
        JoinStep::WelcomeMessage => 7,
        JoinStep::UpdateTime { .. } => 8,
        JoinStep::ActionBar { .. } => 9,
        JoinStep::PlayerInfoWithSkin => 10,
        JoinStep::SkinLayers => 11,
        JoinStep::TabList => 12,
        JoinStep::TitleAnimation { .. } => 13,
        JoinStep::TitleText { .. } => 14,
        JoinStep::SubtitleText { .. } => 15,
        JoinStep::BossBar => 16,
        JoinStep::StartWaitingForChunks => 17,
        JoinStep::SetCenterChunk => 18,
        JoinStep::Chunks => 19,
    }
}

/// Whether some step of `q` has join rank `k`.
pub open spec fn has_join_rank(q: Seq<JoinStep>, k: int) -> bool {
    exists|i: int| 0 <= i < q.len() && join_rank(#[trigger] q[i]) == k
}

/// The place of a step in the display part of the join sequence: action
/// bar, player info, skin layers, tab list, then the title's animation,
/// title line and subtitle line; 7 for any other step.
pub open spec fn display_rank(st: JoinStep) -> int {
    if 9 <= join_rank(st) <= 15 { join_rank(st) - 9 } else { 7 }
}

/// Whether some step of `q` has display rank `k`.
pub open spec fn has_rank(q: Seq<JoinStep>, k: int) -> bool {
    exists|i: int| 0 <= i < q.len() && display_rank(#[trigger] q[i]) == k
}

spec fn rank_increasing(q: Seq<JoinStep>) -> bool {
    forall|i: int, j: int| 0 <= i < j < q.len() ==> join_rank(#[trigger] q[i]) < join_rank(#[trigger] q[j])
}

spec fn ranks_within(q: Seq<JoinStep>, lo: int, hi: int) -> bool {
    forall|i: int| 0 <= i < q.len() ==> lo <= #[trigger] join_rank(q[i]) < hi
}

proof fn lemma_rank_concat(a: Seq<JoinStep>, b: Seq<JoinStep>, lo: int, mid: int, hi: int)
    requires
        rank_increasing(a),
        rank_increasing(b),
        ranks_within(a, lo, mid),
        ranks_within(b, mid, hi),
        lo <= mid <= hi,
    ensures
        rank_increasing(a + b),
        ranks_within(a + b, lo, hi),
        forall|k: int| #[trigger] has_join_rank(a + b, k) == (has_join_rank(a, k) || has_join_rank(b, k)),
{
    let q = a + b;
    assert forall|i: int, j: int| 0 <= i < j < q.len() implies join_rank(#[trigger] q[i]) < join_rank(#[trigger] q[j]) by {
        if j < a.len() {
            assert(q[i] == a[i] && q[j] == a[j]);
        } else if i < a.len() {
            assert(q[i] == a[i] && q[j] == b[j - a.len()]);
            assert(join_rank(a[i]) < mid);
            assert(mid <= join_rank(b[j - a.len()]));
        } else {
            assert(q[i] == b[i - a.len()] && q[j] == b[j - a.len()]);
        }
    }
    assert forall|i: int| 0 <= i < q.len() implies lo <= #[trigger] join_rank(q[i]) < hi by {
        if i < a.len() {
            assert(q[i] == a[i]);
            assert(lo <= join_rank(a[i]) < mid);
        } else {
            assert(q[i] == b[i - a.len()]);
            assert(mid <= join_rank(b[i - a.len()]) < hi);
        }
    }
    assert forall|k: int| #[trigger] has_join_rank(q, k) == (has_join_rank(a, k) || has_join_rank(b, k)) by {
        if has_join_rank(q, k) {
            let i = choose|i: int| 0 <= i < q.len() && join_rank(#[trigger] q[i]) == k;
            if i < a.len() {
                assert(q[i] == a[i]);
            } else {
                assert(q[i] == b[i - a.len()]);
            }
        }
        if has_join_rank(a, k) {
            let i = choose|i: int| 0 <= i < a.len() && join_rank(#[trigger] a[i]) == k;
            assert(q[i] == a[i]);
        }
        if has_join_rank(b, k) {
            let i = choose|i: int| 0 <= i < b.len() && join_rank(#[trigger] b[i]) == k;
            assert(q[i + a.len()] == b[i]);
        }
    }
}

proof fn lemma_rank_when(c: bool, st: JoinStep)
    ensures
        rank_increasing(when(c, st)),
        ranks_within(when(c, st), join_rank(st), join_rank(st) + 1),
        forall|k: int| #[trigger] has_join_rank(when(c, st), k) == (c && k == join_rank(st)),
{
    if c {
        assert(when(c, st)[0] == st);
    }
}

proof fn lemma_rank_title(v: ProtocolVersion, t: Option<TitleParts>)
    ensures
        rank_increasing(title_steps(v, t)),
        ranks_within(title_steps(v, t), 13, 16),
        has_join_rank(title_steps(v, t), 13) == t is Some,
        has_join_rank(title_steps(v, t), 14) == shows_title(t),
        has_join_rank(title_steps(v, t), 15) == shows_subtitle(t),
{
    let ts = title_steps(v, t);
    match t {
        None => {},
        Some(TitleParts::Title) => {
            assert(join_rank(ts[0]) == 13 && join_rank(ts[1]) == 14);
        },
        Some(TitleParts::Subtitle) => {
            assert(join_rank(ts[0]) == 13 && join_rank(ts[1]) == 15);
        },
        Some(TitleParts::Both) => {
            assert(join_rank(ts[0]) == 13 && join_rank(ts[1]) == 14 && join_rank(ts[2]) == 15);
        },
    }
}

/// A run whose ranks lie in `[lo, hi)` has none outside it.
proof fn lemma_rank_outside(q: Seq<JoinStep>, lo: int, hi: int)
    requires
        ranks_within(q, lo, hi),
    ensures
        forall|k: int| (k < lo || hi <= k) ==> !#[trigger] has_join_rank(q, k),
{
    assert forall|k: int| (k < lo || hi <= k) implies !#[trigger] has_join_rank(q, k) by {
        if has_join_rank(q, k) {
            let i = choose|i: int| 0 <= i < q.len() && join_rank(#[trigger] q[i]) == k;
        }
    }
}

/// The display part of the join sequence, with its ranks and contents.
proof fn lemma_display_ranks(v: ProtocolVersion, s: JoinSettings)
    ensures
        rank_increasing(display_steps(v, s)),
        ranks_within(display_steps(v, s), 9, 16),
        has_join_rank(display_steps(v, s), 9) == (from_on(v, ProtocolVersion::V1_8) && s.has_action_bar),
        has_join_rank(display_steps(v, s), 10) == (from_on(v, ProtocolVersion::V1_8) && s.player_has_uuid),
        has_join_rank(display_steps(v, s), 11) == from_on(v, ProtocolVersion::V1_8),
        has_join_rank(display_steps(v, s), 12) == (from_on(v, ProtocolVersion::V1_8) && s.has_tab_list),
        has_join_rank(display_steps(v, s), 13) == (from_on(v, ProtocolVersion::V1_8) && s.title is Some),
        has_join_rank(display_steps(v, s), 14) == (from_on(v, ProtocolVersion::V1_8) && shows_title(s.title)),
        has_join_rank(display_steps(v, s), 15) == (from_on(v, ProtocolVersion::V1_8) && shows_subtitle(s.title)),
{
    let ds = display_steps(v, s);
    if from_on(v, ProtocolVersion::V1_8) {
        let d1 = when(s.has_action_bar, JoinStep::ActionBar { kind: action_bar_kind_for(v) });
        let d2 = when(s.player_has_uuid, JoinStep::PlayerInfoWithSkin);
        let d3 = when(true, JoinStep::SkinLayers);
        let d4 = when(s.has_tab_list, JoinStep::TabList);
        let ts = title_steps(v, s.title);
        lemma_rank_when(s.has_action_bar, JoinStep::ActionBar { kind: action_bar_kind_for(v) });
        lemma_rank_when(s.player_has_uuid, JoinStep::PlayerInfoWithSkin);
        lemma_rank_when(true, JoinStep::SkinLayers);
        lemma_rank_when(s.has_tab_list, JoinStep::TabList);
        lemma_rank_title(v, s.title);
        lemma_rank_concat(d1, d2, 9, 10, 11);
        lemma_rank_concat(d1 + d2, d3, 9, 11, 12);
        lemma_rank_concat(d1 + d2 + d3, d4, 9, 12, 13);
        lemma_rank_concat(d1 + d2 + d3 + d4, ts, 9, 13, 16);
        assert(ds =~= d1 + d2 + d3 + d4 + ts);
        assert forall|k: int| #[trigger] has_join_rank(ds, k) == (has_join_rank(d1, k) || has_join_rank(d2, k) || has_join_rank(
            d3,
            k,
        ) || has_join_rank(d4, k) || has_join_rank(ts, k)) by {
            assert(has_join_rank(d1 + d2, k) == (has_join_rank(d1, k) || has_join_rank(d2, k)));
            assert(has_join_rank(d1 + d2 + d3, k) == (has_join_rank(d1 + d2, k) || has_join_rank(d3, k)));
            assert(has_join_rank(d1 + d2 + d3 + d4, k) == (has_join_rank(d1 + d2 + d3, k) || has_join_rank(d4, k)));
            assert(has_join_rank(d1 + d2 + d3 + d4 + ts, k) == (has_join_rank(d1 + d2 + d3 + d4, k) || has_join_rank(ts, k)));
        }
        lemma_rank_outside(ts, 13, 16);
    } else {
        assert forall|k: int| !#[trigger] has_join_rank(ds, k) by {
            assert(ds.len() == 0);
        }
    }
}

/// Law (display order): a client from 1.8 on is sent, in this order and
/// each at most once, the action bar when one is configured (in the form
/// its version reads), its own player info with skin when it has a UUID,
/// its skin layers, the tab list when one is configured, and the title
/// steps (see [`lemma_join_title`]); an older client is sent none of them.
pub proof fn lemma_display_steps(v: ProtocolVersion, s: JoinSettings)
    ensures ({
        let ds = display_steps(v, s);
        let on = from_on(v, ProtocolVersion::V1_8);
        &&& !on ==> ds.len() == 0
        &&& forall|i: int, j: int| 0 <= i < j < ds.len() ==> display_rank(#[trigger] ds[i]) < display_rank(#[trigger] ds[j])
        &&& forall|i: int| 0 <= i < ds.len() ==> #[trigger] display_rank(ds[i]) < 7
        &&& has_rank(ds, 0) == (on && s.has_action_bar)
        &&& has_rank(ds, 1) == (on && s.player_has_uuid)
        &&& has_rank(ds, 2) == on
        &&& has_rank(ds, 3) == (on && s.has_tab_list)
        &&& has_rank(ds, 4) == (on && s.title is Some)
        &&& has_rank(ds, 5) == (on && shows_title(s.title))
        &&& has_rank(ds, 6) == (on && shows_subtitle(s.title))
        &&& forall|i: int| 0 <= i < ds.len() ==> (#[trigger] ds[i] matches JoinStep::ActionBar { kind } ==> kind == if from_on(
            v,
            ProtocolVersion::V1_17,
        ) {
            ActionBarKind::ActionBarText
        } else if from_on(v, ProtocolVersion::V1_11) {
            ActionBarKind::LegacyTitle
        } else {
            ActionBarKind::GameInfoChat
        })
    }),
{
    let ds = display_steps(v, s);
    lemma_display_ranks(v, s);
    assert forall|i: int| 0 <= i < ds.len() implies #[trigger] display_rank(ds[i]) == join_rank(ds[i]) - 9 by {}
    assert forall|k: int| 0 <= k < 7 implies #[trigger] has_rank(ds, k) == has_join_rank(ds, k + 9) by {
        if has_rank(ds, k) {
            let i = choose|i: int| 0 <= i < ds.len() && display_rank(#[trigger] ds[i]) == k;
            assert(join_rank(ds[i]) == k + 9);
        }
        if has_join_rank(ds, k + 9) {
            let i = choose|i: int| 0 <= i < ds.len() && join_rank(#[trigger] ds[i]) == k + 9;
            assert(display_rank(ds[i]) == k);
        }
    }
    assert(has_rank(ds, 0) == has_join_rank(ds, 9));
    assert(has_rank(ds, 1) == has_join_rank(ds, 10));
    assert(has_rank(ds, 2) == has_join_rank(ds, 11));
    assert(has_rank(ds, 3) == has_join_rank(ds, 12));
    assert(has_rank(ds, 4) == has_join_rank(ds, 13));
    assert(has_rank(ds, 5) == has_join_rank(ds, 14));
    assert(has_rank(ds, 6) == has_join_rank(ds, 15));
    if from_on(v, ProtocolVersion::V1_8) {
        let d1 = when(s.has_action_bar, JoinStep::ActionBar { kind: action_bar_kind_for(v) });
        assert forall|i: int| 0 <= i < ds.len() implies (#[trigger] ds[i] matches JoinStep::ActionBar { kind } ==> kind
            == action_bar_kind_for(v)) by {
            if ds[i] is ActionBar {
                assert(i == 0) by {
                    if i > 0 {
                        assert(join_rank(ds[0]) < join_rank(ds[i]));
                    }
                }
                assert(s.has_action_bar) by {
                    assert(has_join_rank(ds, 9));
                }
                assert(ds[0] == d1[0]);
            }
        }
    }
}

proof fn lemma_entry_ranks(v: ProtocolVersion, s: JoinSettings, flying_speed_bits: u32, entity_id: i32)
    ensures
        rank_increasing(entry_steps(v, s, flying_speed_bits, entity_id)),
        ranks_within(entry_steps(v, s, flying_speed_bits, entity_id), 0, 5),
        has_join_rank(entry_steps(v, s, flying_speed_bits, entity_id), 0),
        has_join_rank(entry_steps(v, s, flying_speed_bits, entity_id), 1) == within(v, ProtocolVersion::V1_19, ProtocolVersion::V1_19_1),
        has_join_rank(entry_steps(v, s, flying_speed_bits, entity_id), 2),
        has_join_rank(entry_steps(v, s, flying_speed_bits, entity_id), 3) == from_on(v, ProtocolVersion::V1_19),
        has_join_rank(entry_steps(v, s, flying_speed_bits, entity_id), 4),
{
    let mode = game_mode_for(v, s.game_mode);
    let flying = mode == GameModeConfig::Spectator;
    let login = JoinStep::Login {
        entity_id,
        shape: login_shape_for(v),
        game_mode: mode,
        hardcore: s.hardcore,
        view_distance: s.view_distance,
        reduced_debug_info: s.reduced_debug_info,
    };
    let abilities = JoinStep::Abilities {
        allow_flying: s.allow_flight || flying,
        creative: mode == GameModeConfig::Creative,
        flying,
        flying_speed_bits,
    };
    let c1 = within(v, ProtocolVersion::V1_19, ProtocolVersion::V1_19_1);
    let c3 = from_on(v, ProtocolVersion::V1_19);
    let w1 = when(true, login);
    let w2 = when(c1, JoinStep::ServerData);
    let w3 = when(true, abilities);
    let w4 = when(c3, JoinStep::SetDefaultSpawnPosition);
    let w5 = when(true, JoinStep::SynchronizePlayerPosition);
    lemma_rank_when(true, login);
    lemma_rank_when(c1, JoinStep::ServerData);
    lemma_rank_when(true, abilities);
    lemma_rank_when(c3, JoinStep::SetDefaultSpawnPosition);
    lemma_rank_when(true, JoinStep::SynchronizePlayerPosition);
    lemma_rank_concat(w1, w2, 0, 1, 2);
    lemma_rank_concat(w1 + w2, w3, 0, 2, 3);
    lemma_rank_concat(w1 + w2 + w3, w4, 0, 3, 4);
    lemma_rank_concat(w1 + w2 + w3 + w4, w5, 0, 4, 5);
    assert(entry_steps(v, s, flying_speed_bits, entity_id) =~= w1 + w2 + w3 + w4 + w5);
    let e = entry_steps(v, s, flying_speed_bits, entity_id);
    assert forall|k: int| #[trigger] has_join_rank(e, k) == (has_join_rank(w1, k) || has_join_rank(w2, k) || has_join_rank(
        w3,
        k,
    ) || has_join_rank(w4, k) || has_join_rank(w5, k)) by {
        assert(has_join_rank(w1 + w2, k) == (has_join_rank(w1, k) || has_join_rank(w2, k)));
        assert(has_join_rank(w1 + w2 + w3, k) == (has_join_rank(w1 + w2, k) || has_join_rank(w3, k)));
        assert(has_join_rank(w1 + w2 + w3 + w4, k) == (has_join_rank(w1 + w2 + w3, k) || has_join_rank(w4, k)));
    }
    assert(has_join_rank(e, 0) && has_join_rank(e, 2) && has_join_rank(e, 4));
}

proof fn lemma_server_ranks(v: ProtocolVersion, s: JoinSettings)
    ensures
        rank_increasing(server_steps(v, s)),
        ranks_within(server_steps(v, s), 5, 9),
        has_join_rank(server_steps(v, s), 5) == from_on(v, ProtocolVersion::V1_13),
        has_join_rank(server_steps(v, s), 6) == within(v, ProtocolVersion::V1_13, ProtocolVersion::V1_20),
        has_join_rank(server_steps(v, s), 7) == s.has_welcome_message,
        has_join_rank(server_steps(v, s), 8),
{
    let c1 = from_on(v, ProtocolVersion::V1_13);
    let c2 = within(v, ProtocolVersion::V1_13, ProtocolVersion::V1_20);
    let time = JoinStep::UpdateTime { ticks: s.time_ticks, advance: !s.time_locked };
    let u1 = when(c1, JoinStep::Commands);
    let u2 = when(c2, JoinStep::Brand);
    let u3 = when(s.has_welcome_message, JoinStep::WelcomeMessage);
    let u4 = when(true, time);
    lemma_rank_when(c1, JoinStep::Commands);
    lemma_rank_when(c2, JoinStep::Brand);
    lemma_rank_when(s.has_welcome_message, JoinStep::WelcomeMessage);
    lemma_rank_when(true, time);
    lemma_rank_concat(u1, u2, 5, 6, 7);
    lemma_rank_concat(u1 + u2, u3, 5, 7, 8);
    lemma_rank_concat(u1 + u2 + u3, u4, 5, 8, 9);
    assert(server_steps(v, s) =~= u1 + u2 + u3 + u4);
    let q = server_steps(v, s);
    assert forall|k: int| #[trigger] has_join_rank(q, k) == (has_join_rank(u1, k) || has_join_rank(u2, k) || has_join_rank(
        u3,
        k,
    ) || has_join_rank(u4, k)) by {
        assert(has_join_rank(u1 + u2, k) == (has_join_rank(u1, k) || has_join_rank(u2, k)));
        assert(has_join_rank(u1 + u2 + u3, k) == (has_join_rank(u1 + u2, k) || has_join_rank(u3, k)));
    }
    assert(has_join_rank(q, 8));
}

proof fn lemma_world_ranks(v: ProtocolVersion, s: JoinSettings)
    ensures
        rank_increasing(world_steps(v, s)),
        ranks_within(world_steps(v, s), 16, 20),
        has_join_rank(world_steps(v, s), 16) == (from_on(v, ProtocolVersion::V1_9) && s.has_boss_bar),
        has_join_rank(world_steps(v, s), 17) == from_on(v, ProtocolVersion::V1_20_3),
        has_join_rank(world_steps(v, s), 18) == from_on(v, ProtocolVersion::V1_19),
        has_join_rank(world_steps(v, s), 19) == from_on(v, ProtocolVersion::V1_16),
{
    let chunks = from_on(v, ProtocolVersion::V1_16);
    let c1 = from_on(v, ProtocolVersion::V1_9) && s.has_boss_bar;
    let c2 = chunks && from_on(v, ProtocolVersion::V1_20_3);
    let c3 = chunks && from_on(v, ProtocolVersion::V1_19);
    let x1 = when(c1, JoinStep::BossBar);
    let x2 = when(c2, JoinStep::StartWaitingForChunks);
    let x3 = when(c3, JoinStep::SetCenterChunk);
    let x4 = when(chunks, JoinStep::Chunks);
    lemma_rank_when(c1, JoinStep::BossBar);
    lemma_rank_when(c2, JoinStep::StartWaitingForChunks);
    lemma_rank_when(c3, JoinStep::SetCenterChunk);
    lemma_rank_when(chunks, JoinStep::Chunks);
    lemma_rank_concat(x1, x2, 16, 17, 18);
    lemma_rank_concat(x1 + x2, x3, 16, 18, 19);
    lemma_rank_concat(x1 + x2 + x3, x4, 16, 19, 20);
    assert(world_steps(v, s) =~= x1 + x2 + x3 + x4);
    let q = world_steps(v, s);
    assert forall|k: int| #[trigger] has_join_rank(q, k) == (has_join_rank(x1, k) || has_join_rank(x2, k) || has_join_rank(
        x3,
        k,
    ) || has_join_rank(x4, k)) by {
        assert(has_join_rank(x1 + x2, k) == (has_join_rank(x1, k) || has_join_rank(x2, k)));
        assert(has_join_rank(x1 + x2 + x3, k) == (has_join_rank(x1 + x2, k) || has_join_rank(x3, k)));
    }
}

/// Law (join order): what a client is sent on entering the world comes in
/// the order of [`join_rank`], each kind of step at most once: the login
/// (first, carrying the entity id, the game mode the version can show and
/// the configured world settings), server data on 1.19 and 1.19.1, the
/// abilities (flight allowed when configured or in spectator mode, flying
/// exactly in spectator mode, creative exactly in creative mode), the
/// default spawn position from 1.19, the position; the command tree from
/// 1.13, the brand from 1.13 to 1.20, the welcome message when configured,
/// the time (advancing unless locked); the display steps (see
/// [`lemma_display_steps`]); the boss bar from 1.9 when configured, the
/// chunk wait from 1.20.3, the centre chunk from 1.19 and the chunks from
/// 1.16, the chunks last.
pub proof fn lemma_join_order(v: ProtocolVersion, s: JoinSettings, flying_speed_bits: u32, entity_id: i32)
    ensures ({
        let js = join_steps(v, s, flying_speed_bits, entity_id);
        let mode = game_mode_for(v, s.game_mode);
        &&& forall|i: int, j: int| 0 <= i < j < js.len() ==> join_rank(#[trigger] js[i]) < join_rank(#[trigger] js[j])
        &&& js.len() > 0 && js[0] is Login
        &&& js[0] matches JoinStep::Login { entity_id: e, game_mode, hardcore, view_distance, reduced_debug_info, .. }
            && e == entity_id && game_mode == mode && hardcore == s.hardcore && view_distance == s.view_distance
            && reduced_debug_info == s.reduced_debug_info
        &&& (mode == GameModeConfig::Spectator <==> s.game_mode == GameModeConfig::Spectator && from_on(v, ProtocolVersion::V1_8))
        &&& has_join_rank(js, 1) == within(v, ProtocolVersion::V1_19, ProtocolVersion::V1_19_1)
        &&& has_join_rank(js, 2)
        &&& forall|i: int| 0 <= i < js.len() ==> (#[trigger] js[i] matches JoinStep::Abilities { allow_flying, creative, flying, flying_speed_bits: b }
            ==> allow_flying == (s.allow_flight || mode == GameModeConfig::Spectator) && flying == (mode == GameModeConfig::Spectator)
            && creative == (mode == GameModeConfig::Creative) && b == flying_speed_bits)
        &&& has_join_rank(js, 3) == from_on(v, ProtocolVersion::V1_19)
        &&& has_join_rank(js, 4)
        &&& has_join_rank(js, 5) == from_on(v, ProtocolVersion::V1_13)
        &&& has_join_rank(js, 6) == within(v, ProtocolVersion::V1_13, ProtocolVersion::V1_20)
        &&& has_join_rank(js, 7) == s.has_welcome_message
        &&& has_join_rank(js, 8)
        &&& forall|i: int| 0 <= i < js.len() ==> (#[trigger] js[i] matches JoinStep::UpdateTime { ticks, advance }
            ==> ticks == s.time_ticks && advance == !s.time_locked)
        &&& has_join_rank(js, 16) == (from_on(v, ProtocolVersion::V1_9) && s.has_boss_bar)
        &&& has_join_rank(js, 17) == from_on(v, ProtocolVersion::V1_20_3)
        &&& has_join_rank(js, 18) == from_on(v, ProtocolVersion::V1_19)
        &&& has_join_rank(js, 19) == from_on(v, ProtocolVersion::V1_16)
        &&& from_on(v, ProtocolVersion::V1_16) ==> js.last() == JoinStep::Chunks
    }),
{
    let e = entry_steps(v, s, flying_speed_bits, entity_id);
    let sv = server_steps(v, s);
    let js = join_steps(v, s, flying_speed_bits, entity_id);
    lemma_join_parts(v, s, flying_speed_bits, entity_id);
    lemma_rank_outside(e, 0, 5);
    lemma_rank_outside(sv, 5, 9);
    lemma_rank_outside(display_steps(v, s), 9, 16);
    lemma_rank_outside(world_steps(v, s), 16, 20);
    assert(has_join_rank(js, 1) == has_join_rank(e, 1));
    assert(has_join_rank(js, 2) == has_join_rank(e, 2));
    assert(has_join_rank(js, 3) == has_join_rank(e, 3));
    assert(has_join_rank(js, 4) == has_join_rank(e, 4));
    assert(has_join_rank(js, 5) == has_join_rank(sv, 5));
    assert(has_join_rank(js, 6) == has_join_rank(sv, 6));
    assert(has_join_rank(js, 7) == has_join_rank(sv, 7));
    assert(has_join_rank(js, 8) == has_join_rank(sv, 8));
    assert(has_join_rank(js, 16) == has_join_rank(world_steps(v, s), 16));
    assert(has_join_rank(js, 17) == has_join_rank(world_steps(v, s), 17));
    assert(has_join_rank(js, 18) == has_join_rank(world_steps(v, s), 18));
    assert(has_join_rank(js, 19) == has_join_rank(world_steps(v, s), 19));
    lemma_join_fields(v, s, flying_speed_bits, entity_id);
}

/// Where each part of the join sequence lies in it.
proof fn lemma_join_parts(v: ProtocolVersion, s: JoinSettings, flying_speed_bits: u32, entity_id: i32)
    ensures ({
        let e = entry_steps(v, s, flying_speed_bits, entity_id);
        let sv = server_steps(v, s);
        let d = display_steps(v, s);
        let w = world_steps(v, s);
        let js = join_steps(v, s, flying_speed_bits, entity_id);
        &&& js == e + sv + d + w
        &&& rank_increasing(e) && ranks_within(e, 0, 5)
        &&& rank_increasing(sv) && ranks_within(sv, 5, 9)
        &&& rank_increasing(d) && ranks_within(d, 9, 16)
        &&& rank_increasing(w) && ranks_within(w, 16, 20)
        &&& rank_increasing(js)
        &&& forall|k: int| #[trigger] has_join_rank(js, k) == (has_join_rank(e, k) || has_join_rank(sv, k) || has_join_rank(d, k)
            || has_join_rank(w, k))
        &&& has_join_rank(e, 1) == within(v, ProtocolVersion::V1_19, ProtocolVersion::V1_19_1)
        &&& has_join_rank(e, 2)
        &&& has_join_rank(e, 3) == from_on(v, ProtocolVersion::V1_19)
        &&& has_join_rank(e, 4)
        &&& has_join_rank(sv, 5) == from_on(v, ProtocolVersion::V1_13)
        &&& has_join_rank(sv, 6) == within(v, ProtocolVersion::V1_13, ProtocolVersion::V1_20)
        &&& has_join_rank(sv, 7) == s.has_welcome_message
        &&& has_join_rank(sv, 8)
        &&& has_join_rank(w, 16) == (from_on(v, ProtocolVersion::V1_9) && s.has_boss_bar)
        &&& has_join_rank(w, 17) == from_on(v, ProtocolVersion::V1_20_3)
        &&& has_join_rank(w, 18) == from_on(v, ProtocolVersion::V1_19)
        &&& has_join_rank(w, 19) == from_on(v, ProtocolVersion::V1_16)
    }),
{
    let e = entry_steps(v, s, flying_speed_bits, entity_id);
    let sv = server_steps(v, s);
    let d = display_steps(v, s);
    let w = world_steps(v, s);
    lemma_entry_ranks(v, s, flying_speed_bits, entity_id);
    lemma_server_ranks(v, s);
    lemma_display_ranks(v, s);
    lemma_world_ranks(v, s);
    lemma_rank_concat(e, sv, 0, 5, 9);
    lemma_rank_concat(e + sv, d, 0, 9, 16);
    lemma_rank_concat(e + sv + d, w, 0, 16, 20);
    let js = e + sv + d + w;
    assert forall|k: int| #[trigger] has_join_rank(js, k) == (has_join_rank(e, k) || has_join_rank(sv, k) || has_join_rank(d, k)
        || has_join_rank(w, k)) by {
        assert(has_join_rank(e + sv, k) == (has_join_rank(e, k) || has_join_rank(sv, k)));
        assert(has_join_rank(e + sv + d, k) == (has_join_rank(e + sv, k) || has_join_rank(d, k)));
    }
}

/// A step of the join sequence whose rank lies below 5 comes from the
/// entry part, and one ranked 5 to 8 from the server part.
proof fn lemma_join_locate(v: ProtocolVersion, s: JoinSettings, flying_speed_bits: u32, entity_id: i32, i: int)
    requires
        0 <= i < join_steps(v, s, flying_speed_bits, entity_id).len(),
    ensures ({
        let e = entry_steps(v, s, flying_speed_bits, entity_id);
        let sv = server_steps(v, s);
        let js = join_steps(v, s, flying_speed_bits, entity_id);
        &&& join_rank(js[i]) < 5 ==> i < e.len() && js[i] == e[i]
        &&& 5 <= join_rank(js[i]) < 9 ==> e.len() <= i < e.len() + sv.len() && js[i] == sv[i - e.len()]
    }),
{
    let e = entry_steps(v, s, flying_speed_bits, entity_id);
    let sv = server_steps(v, s);
    let d = display_steps(v, s);
    let w = world_steps(v, s);
    let js = join_steps(v, s, flying_speed_bits, entity_id);
    lemma_join_parts(v, s, flying_speed_bits, entity_id);
    let q = e + sv + d + w;
    if i < e.len() {
        assert(q[i] == e[i]);
    } else if i < e.len() + sv.len() {
        assert(q[i] == sv[i - e.len()]);
        assert(5 <= join_rank(sv[i - e.len()]) < 9);
    } else if i < e.len() + sv.len() + d.len() {
        assert(q[i] == d[i - e.len() - sv.len()]);
        assert(9 <= join_rank(d[i - e.len() - sv.len()]));
    } else {
        assert(q[i] == w[i - e.len() - sv.len() - d.len()]);
        assert(16 <= join_rank(w[i - e.len() - sv.len() - d.len()]));
    }
}

/// The login, abilities and time steps carry the configured values, and
/// the chunks come last.
proof fn lemma_join_fields(v: ProtocolVersion, s: JoinSettings, flying_speed_bits: u32, entity_id: i32)
    ensures ({
        let js = join_steps(v, s, flying_speed_bits, entity_id);
        let mode = game_mode_for(v, s.game_mode);
        &&& js.len() > 0 && js[0] is Login
        &&& js[0] matches JoinStep::Login { entity_id: e, game_mode, hardcore, view_distance, reduced_debug_info, .. }
            && e == entity_id && game_mode == mode && hardcore == s.hardcore && view_distance == s.view_distance
            && reduced_debug_info == s.reduced_debug_info
        &&& (mode == GameModeConfig::Spectator <==> s.game_mode == GameModeConfig::Spectator && from_on(v, ProtocolVersion::V1_8))
        &&& forall|i: int| 0 <= i < js.len() ==> (#[trigger] js[i] matches JoinStep::Abilities { allow_flying, creative, flying, flying_speed_bits: b }
            ==> allow_flying == (s.allow_flight || mode == GameModeConfig::Spectator) && flying == (mode == GameModeConfig::Spectator)
            && creative == (mode == GameModeConfig::Creative) && b == flying_speed_bits)
        &&& forall|i: int| 0 <= i < js.len() ==> (#[trigger] js[i] matches JoinStep::UpdateTime { ticks, advance }
            ==> ticks == s.time_ticks && advance == !s.time_locked)
        &&& from_on(v, ProtocolVersion::V1_16) ==> js.last() == JoinStep::Chunks
    }),
{
    let e = entry_steps(v, s, flying_speed_bits, entity_id);
    let sv = server_steps(v, s);
    let js = join_steps(v, s, flying_speed_bits, entity_id);
    let mode = game_mode_for(v, s.game_mode);
    lemma_entry_fields(v, s, flying_speed_bits, entity_id);
    lemma_server_fields(v, s);
    lemma_join_locate(v, s, flying_speed_bits, entity_id, 0);
    assert forall|i: int| 0 <= i < js.len() implies (#[trigger] js[i] matches JoinStep::Abilities { allow_flying, creative, flying, flying_speed_bits: b }
        ==> allow_flying == (s.allow_flight || mode == GameModeConfig::Spectator) && flying == (mode == GameModeConfig::Spectator)
        && creative == (mode == GameModeConfig::Creative) && b == flying_speed_bits) by {
        lemma_join_locate(v, s, flying_speed_bits, entity_id, i);
    }
    assert forall|i: int| 0 <= i < js.len() implies (#[trigger] js[i] matches JoinStep::UpdateTime { ticks, advance }
        ==> ticks == s.time_ticks && advance == !s.time_locked) by {
        lemma_join_locate(v, s, flying_speed_bits, entity_id, i);
    }
    lemma_join_chunks_last(v, s, flying_speed_bits, entity_id);
}

proof fn lemma_entry_fields(v: ProtocolVersion, s: JoinSettings, flying_speed_bits: u32, entity_id: i32)
    ensures ({
        let e = entry_steps(v, s, flying_speed_bits, entity_id);
        let mode = game_mode_for(v, s.game_mode);
        &&& e.len() > 0
        &&& e[0] == JoinStep::Login {
            entity_id,
            shape: login_shape_for(v),
            game_mode: mode,
            hardcore: s.hardcore,
            view_distance: s.view_distance,
            reduced_debug_info: s.reduced_debug_info,
        }
        &&& forall|i: int| 0 <= i < e.len() ==> (#[trigger] e[i] is Abilities ==> e[i] == JoinStep::Abilities {
            allow_flying: s.allow_flight || mode == GameModeConfig::Spectator,
            creative: mode == GameModeConfig::Creative,
            flying: mode == GameModeConfig::Spectator,
            flying_speed_bits,
        })
        &&& forall|i: int| 0 <= i < e.len() ==> !(#[trigger] e[i] is UpdateTime)
    }),
{
}

proof fn lemma_server_fields(v: ProtocolVersion, s: JoinSettings)
    ensures
        forall|i: int| 0 <= i < server_steps(v, s).len() ==> (#[trigger] server_steps(v, s)[i] is UpdateTime ==> server_steps(v, s)[i]
            == JoinStep::UpdateTime { ticks: s.time_ticks, advance: !s.time_locked }),
        forall|i: int| 0 <= i < server_steps(v, s).len() ==> !(#[trigger] server_steps(v, s)[i] is Abilities),
{
}

proof fn lemma_join_chunks_last(v: ProtocolVersion, s: JoinSettings, flying_speed_bits: u32, entity_id: i32)
    ensures
        from_on(v, ProtocolVersion::V1_16) ==> join_steps(v, s, flying_speed_bits, entity_id).last() == JoinStep::Chunks,
{
    lemma_join_parts(v, s, flying_speed_bits, entity_id);
    let w = world_steps(v, s);
    if from_on(v, ProtocolVersion::V1_16) {
        assert(w.len() > 0 && w.last() == JoinStep::Chunks);
    }
}

/// Whether a step belongs to the title.
pub open spec fn is_title_step(st: JoinStep) -> bool {
    st is TitleAnimation || st is TitleText || st is SubtitleText
}

/// The legacy flag a title step carries.
pub open spec fn title_legacy(st: JoinStep) -> bool {
    match st {
        JoinStep::TitleAnimation { legacy } => legacy,
        JoinStep::TitleText { legacy } => legacy,
        JoinStep::SubtitleText { legacy } => legacy,
        _ => false,
    }
}

/// Whether the configured parts include the title line.
pub open spec fn shows_title(t: Option<TitleParts>) -> bool {
    t == Some(TitleParts::Title) || t == Some(TitleParts::Both)
}

/// Whether the configured parts include the subtitle line.
pub open spec fn shows_subtitle(t: Option<TitleParts>) -> bool {
    t == Some(TitleParts::Subtitle) || t == Some(TitleParts::Both)
}

proof fn lemma_title_steps_shape(v: ProtocolVersion, t: Option<TitleParts>)
    ensures ({
        let ts = title_steps(v, t);
        &&& forall|i: int| 0 <= i < ts.len() ==> is_title_step(#[trigger] ts[i]) && title_legacy(ts[i]) == !from_on(v, ProtocolVersion::V1_17)
        &&& (exists|i: int| 0 <= i < ts.len() && #[trigger] ts[i] is TitleText) <==> shows_title(t)
        &&& (exists|i: int| 0 <= i < ts.len() && #[trigger] ts[i] is SubtitleText) <==> shows_subtitle(t)
        &&& (ts.len() > 0 <==> t is Some)
        &&& ts.len() > 0 ==> ts[0] is TitleAnimation
        &&& forall|i: int| 1 <= i < ts.len() ==> !(#[trigger] ts[i] is TitleAnimation)
        &&& forall|i: int, j: int| 0 <= i < j < ts.len() ==> !(#[trigger] ts[i] is TitleText && #[trigger] ts[j] is TitleText)
            && !(ts[i] is SubtitleText && ts[j] is SubtitleText)
    }),
{
    let ts = title_steps(v, t);
    match t {
        None => {},
        Some(TitleParts::Title) => {
            assert(ts[1] is TitleText);
        },
        Some(TitleParts::Subtitle) => {
            assert(ts[1] is SubtitleText);
        },
        Some(TitleParts::Both) => {
            assert(ts[1] is TitleText);
            assert(ts[2] is SubtitleText);
        },
    }
}

/// Law (title): a client from 1.8 on with a title configured is sent one
/// title animation, then the title line exactly when the title is
/// configured and the subtitle line exactly when the subtitle is, each once
/// and in the legacy form before 1.17; nothing else it is sent on joining
/// belongs to the title, and an older client gets no title at all.
pub proof fn lemma_join_title(v: ProtocolVersion, s: JoinSettings, flying_speed_bits: u32, entity_id: i32)
    ensures ({
        let js = join_steps(v, s, flying_speed_bits, entity_id);
        let on = from_on(v, ProtocolVersion::V1_8);
        &&& (exists|i: int| 0 <= i < js.len() && #[trigger] js[i] is TitleText) <==> on && shows_title(s.title)
        &&& (exists|i: int| 0 <= i < js.len() && #[trigger] js[i] is SubtitleText) <==> on && shows_subtitle(s.title)
        &&& (exists|i: int| 0 <= i < js.len() && #[trigger] js[i] is TitleAnimation) <==> on && s.title is Some
        &&& forall|i: int, j: int| 0 <= i < js.len() && 0 <= j < js.len() && (#[trigger] js[i] is TitleAnimation)
            && is_title_step(#[trigger] js[j]) && i != j ==> i < j && !(js[j] is TitleAnimation)
        &&& forall|i: int, j: int| 0 <= i < j < js.len() ==> !(#[trigger] js[i] is TitleText && #[trigger] js[j] is TitleText)
            && !(js[i] is SubtitleText && js[j] is SubtitleText)
        &&& forall|i: int| 0 <= i < js.len() && is_title_step(#[trigger] js[i]) ==> title_legacy(js[i]) == !from_on(v, ProtocolVersion::V1_17)
    }),
{
    lemma_title_steps_shape(v, s.title);
    let on = from_on(v, ProtocolVersion::V1_8);
    let pre = join_prefix(v, s, flying_speed_bits, entity_id);
    let ts = if on { title_steps(v, s.title) } else { seq![] };
    let post = world_steps(v, s);
    let js = join_steps(v, s, flying_speed_bits, entity_id);
    lemma_join_split(v, s, flying_speed_bits, entity_id);
    lemma_title_frame(pre, ts, post);
    let a: int = pre.len() as int;
    if exists|i: int| 0 <= i < ts.len() && #[trigger] ts[i] is TitleText {
        let i = choose|i: int| 0 <= i < ts.len() && #[trigger] ts[i] is TitleText;
        assert(js[i + a] is TitleText);
    }
    if exists|i: int| 0 <= i < ts.len() && #[trigger] ts[i] is SubtitleText {
        let i = choose|i: int| 0 <= i < ts.len() && #[trigger] ts[i] is SubtitleText;
        assert(js[i + a] is SubtitleText);
    }
    if ts.len() > 0 {
        assert(js[a] is TitleAnimation);
    }
    if exists|i: int| 0 <= i < js.len() && #[trigger] js[i] is TitleText {
        let i = choose|i: int| 0 <= i < js.len() && #[trigger] js[i] is TitleText;
        assert(is_title_step(js[i]));
        assert(ts[i - a] is TitleText);
    }
    if exists|i: int| 0 <= i < js.len() && #[trigger] js[i] is SubtitleText {
        let i = choose|i: int| 0 <= i < js.len() && #[trigger] js[i] is SubtitleText;
        assert(is_title_step(js[i]));
        assert(ts[i - a] is SubtitleText);
    }
    if exists|i: int| 0 <= i < js.len() && #[trigger] js[i] is TitleAnimation {
        let i = choose|i: int| 0 <= i < js.len() && #[trigger] js[i] is TitleAnimation;
        assert(is_title_step(js[i]));
        assert(ts[i - a] is TitleAnimation);
    }
    assert forall|i: int, j: int| 0 <= i < js.len() && 0 <= j < js.len() && (#[trigger] js[i] is TitleAnimation)
        && is_title_step(#[trigger] js[j]) && i != j implies i < j && !(js[j] is TitleAnimation) by {
        assert(is_title_step(js[i]));
        assert(ts[i - a] is TitleAnimation);
        assert(is_title_step(ts[j - a]));
    }
    assert forall|i: int, j: int| 0 <= i < j < js.len() implies !(#[trigger] js[i] is TitleText && #[trigger] js[j] is TitleText)
        && !(js[i] is SubtitleText && js[j] is SubtitleText) by {
        if is_title_step(js[i]) && is_title_step(js[j]) {
            assert(js[i] == ts[i - a] && js[j] == ts[j - a]);
        }
    }
}

/// What a client is sent on joining before the title.
spec fn join_prefix(v: ProtocolVersion, s: JoinSettings, flying_speed_bits: u32, entity_id: i32) -> Seq<JoinStep> {
    entry_steps(v, s, flying_speed_bits, entity_id) + server_steps(v, s) + display_prefix(v, s)
}

spec fn no_title(q: Seq<JoinStep>) -> bool {
    forall|i: int| 0 <= i < q.len() ==> !is_title_step(#[trigger] q[i])
}

proof fn lemma_no_title_concat(a: Seq<JoinStep>, b: Seq<JoinStep>)
    requires
        no_title(a),
        no_title(b),
    ensures
        no_title(a + b),
{
    assert forall|i: int| 0 <= i < (a + b).len() implies !is_title_step(#[trigger] (a + b)[i]) by {
        if i < a.len() {
            assert((a + b)[i] == a[i]);
        } else {
            assert((a + b)[i] == b[i - a.len()]);
        }
    }
}

proof fn lemma_no_title_when(c: bool, st: JoinStep)
    requires
        !is_title_step(st),
    ensures
        no_title(when(c, st)),
{
}

proof fn lemma_entry_no_title(v: ProtocolVersion, s: JoinSettings, flying_speed_bits: u32, entity_id: i32)
    ensures
        no_title(entry_steps(v, s, flying_speed_bits, entity_id)),
{
    let e = entry_steps(v, s, flying_speed_bits, entity_id);
    assert forall|i: int| 0 <= i < e.len() implies !is_title_step(#[trigger] e[i]) by {
        let mode = game_mode_for(v, s.game_mode);
        let flying = mode == GameModeConfig::Spectator;
        let w1 = seq![JoinStep::Login {
            entity_id,
            shape: login_shape_for(v),
            game_mode: mode,
            hardcore: s.hardcore,
            view_distance: s.view_distance,
            reduced_debug_info: s.reduced_debug_info,
        }];
        let w2 = when(within(v, ProtocolVersion::V1_19, ProtocolVersion::V1_19_1), JoinStep::ServerData);
        let w3 = seq![JoinStep::Abilities {
            allow_flying: s.allow_flight || flying,
            creative: mode == GameModeConfig::Creative,
            flying,
            flying_speed_bits,
        }];
        let w4 = when(from_on(v, ProtocolVersion::V1_19), JoinStep::SetDefaultSpawnPosition);
        let w5 = seq![JoinStep::SynchronizePlayerPosition];
        lemma_no_title_when(within(v, ProtocolVersion::V1_19, ProtocolVersion::V1_19_1), JoinStep::ServerData);
        lemma_no_title_when(from_on(v, ProtocolVersion::V1_19), JoinStep::SetDefaultSpawnPosition);
        assert(no_title(w1));
        assert(no_title(w3));
        assert(no_title(w5));
        lemma_no_title_concat(w1, w2);
        lemma_no_title_concat(w1 + w2, w3);
        lemma_no_title_concat(w1 + w2 + w3, w4);
        lemma_no_title_concat(w1 + w2 + w3 + w4, w5);
        assert(e == w1 + w2 + w3 + w4 + w5);
    }
}

proof fn lemma_server_no_title(v: ProtocolVersion, s: JoinSettings)
    ensures
        no_title(server_steps(v, s)),
{
    let u1 = when(from_on(v, ProtocolVersion::V1_13), JoinStep::Commands);
    let u2 = when(within(v, ProtocolVersion::V1_13, ProtocolVersion::V1_20), JoinStep::Brand);
    let u3 = when(s.has_welcome_message, JoinStep::WelcomeMessage);
    let u4 = seq![JoinStep::UpdateTime { ticks: s.time_ticks, advance: !s.time_locked }];
    lemma_no_title_when(from_on(v, ProtocolVersion::V1_13), JoinStep::Commands);
    lemma_no_title_when(within(v, ProtocolVersion::V1_13, ProtocolVersion::V1_20), JoinStep::Brand);
    lemma_no_title_when(s.has_welcome_message, JoinStep::WelcomeMessage);
    assert(no_title(u4));
    lemma_no_title_concat(u1, u2);
    lemma_no_title_concat(u1 + u2, u3);
    lemma_no_title_concat(u1 + u2 + u3, u4);
}

spec fn display_prefix(v: ProtocolVersion, s: JoinSettings) -> Seq<JoinStep> {
    if from_on(v, ProtocolVersion::V1_8) {
        when(s.has_action_bar, JoinStep::ActionBar { kind: action_bar_kind_for(v) })
            + when(s.player_has_uuid, JoinStep::PlayerInfoWithSkin)
            + seq![JoinStep::SkinLayers]
            + when(s.has_tab_list, JoinStep::TabList)
    } else {
        seq![]
    }
}

proof fn lemma_display_prefix_no_title(v: ProtocolVersion, s: JoinSettings)
    ensures
        no_title(display_prefix(v, s)),
        display_steps(v, s) == display_prefix(v, s) + if from_on(v, ProtocolVersion::V1_8) {
            title_steps(v, s.title)
        } else {
            seq![]
        },
{
    if from_on(v, ProtocolVersion::V1_8) {
        let d1 = when(s.has_action_bar, JoinStep::ActionBar { kind: action_bar_kind_for(v) });
        let d2 = when(s.player_has_uuid, JoinStep::PlayerInfoWithSkin);
        let d3 = seq![JoinStep::SkinLayers];
        let d4 = when(s.has_tab_list, JoinStep::TabList);
        lemma_no_title_when(s.has_action_bar, JoinStep::ActionBar { kind: action_bar_kind_for(v) });
        lemma_no_title_when(s.player_has_uuid, JoinStep::PlayerInfoWithSkin);
        assert(no_title(d3));
        lemma_no_title_when(s.has_tab_list, JoinStep::TabList);
        lemma_no_title_concat(d1, d2);
        lemma_no_title_concat(d1 + d2, d3);
        lemma_no_title_concat(d1 + d2 + d3, d4);
    } else {
        assert(display_steps(v, s) =~= display_prefix(v, s) + seq![]);
    }
}

proof fn lemma_world_no_title(v: ProtocolVersion, s: JoinSettings)
    ensures
        no_title(world_steps(v, s)),
{
    let chunks = from_on(v, ProtocolVersion::V1_16);
    let x1 = when(from_on(v, ProtocolVersion::V1_9) && s.has_boss_bar, JoinStep::BossBar);
    let x2 = when(chunks && from_on(v, ProtocolVersion::V1_20_3), JoinStep::StartWaitingForChunks);
    let x3 = when(chunks && from_on(v, ProtocolVersion::V1_19), JoinStep::SetCenterChunk);
    let x4 = when(chunks, JoinStep::Chunks);
    lemma_no_title_when(from_on(v, ProtocolVersion::V1_9) && s.has_boss_bar, JoinStep::BossBar);
    lemma_no_title_when(chunks && from_on(v, ProtocolVersion::V1_20_3), JoinStep::StartWaitingForChunks);
    lemma_no_title_when(chunks && from_on(v, ProtocolVersion::V1_19), JoinStep::SetCenterChunk);
    lemma_no_title_when(chunks, JoinStep::Chunks);
    lemma_no_title_concat(x1, x2);
    lemma_no_title_concat(x1 + x2, x3);
    lemma_no_title_concat(x1 + x2 + x3, x4);
}

proof fn lemma_join_split(v: ProtocolVersion, s: JoinSettings, flying_speed_bits: u32, entity_id: i32)
    ensures
        join_steps(v, s, flying_speed_bits, entity_id) == join_prefix(v, s, flying_speed_bits, entity_id) + (if from_on(
            v,
            ProtocolVersion::V1_8,
        ) {
            title_steps(v, s.title)
        } else {
            seq![]
        }) + world_steps(v, s),
        no_title(join_prefix(v, s, flying_speed_bits, entity_id)),
        no_title(world_steps(v, s)),
{
    let on = from_on(v, ProtocolVersion::V1_8);
    let ts = if on { title_steps(v, s.title) } else { seq![] };
    let e = entry_steps(v, s, flying_speed_bits, entity_id);
    let sv = server_steps(v, s);
    let dp = display_prefix(v, s);
    lemma_entry_no_title(v, s, flying_speed_bits, entity_id);
    lemma_server_no_title(v, s);
    lemma_display_prefix_no_title(v, s);
    lemma_world_no_title(v, s);
    lemma_no_title_concat(e, sv);
    lemma_no_title_concat(e + sv, dp);
    assert(join_prefix(v, s, flying_speed_bits, entity_id) == e + sv + dp);
    assert(join_steps(v, s, flying_speed_bits, entity_id) =~= (e + sv + dp) + ts + world_steps(v, s));
}

/// Title steps between two runs of other steps keep their places.
proof fn lemma_title_frame(pre: Seq<JoinStep>, ts: Seq<JoinStep>, post: Seq<JoinStep>)
    requires
        forall|i: int| 0 <= i < pre.len() ==> !is_title_step(#[trigger] pre[i]),
        forall|i: int| 0 <= i < post.len() ==> !is_title_step(#[trigger] post[i]),
    ensures ({
        let js = pre + ts + post;
        &&& forall|i: int| 0 <= i < js.len() && is_title_step(#[trigger] js[i])
            ==> pre.len() <= i < pre.len() + ts.len() && js[i] == ts[i - pre.len()]
        &&& forall|k: int| 0 <= k < ts.len() ==> #[trigger] js[k + pre.len()] == ts[k]
    }),
{
    let js = pre + ts + post;
    let a: int = pre.len() as int;
    let b: int = a + ts.len();
    assert forall|i: int| 0 <= i < js.len() && is_title_step(#[trigger] js[i]) implies a <= i < b && js[i] == ts[i - a] by {
        if i < a {
            assert(js[i] == pre[i]);
        } else if i >= b {
            assert(js[i] == post[i - b]);
        }
    }
}

fn push_when(steps: &mut Vec<JoinStep>, cond: bool, step: JoinStep)
    ensures
        final(steps)@ == old(steps)@ + when(cond, step),
{
    if cond {
        steps.push(step);
    }
    assert(steps@ =~= old(steps)@ + when(cond, step));
}

fn entry_step_list(version: ProtocolVersion, settings: &JoinSettings, flying_speed_bits: u32, entity_id: i32) -> (r: Vec<JoinStep>)
    ensures
        r@ == entry_steps(version, *settings, flying_speed_bits, entity_id),
{
    let mode = effective_game_mode(version, settings.game_mode);
    let flying = mode == GameModeConfig::Spectator;
    let mut steps: Vec<JoinStep> = Vec::new();
    steps.push(JoinStep::Login {
        entity_id,
        shape: login_shape(version),
        game_mode: mode,
        hardcore: settings.hardcore,
        view_distance: settings.view_distance,
        reduced_debug_info: settings.reduced_debug_info,
    });
    push_when(&mut steps, version.between_inclusive(ProtocolVersion::V1_19, ProtocolVersion::V1_19_1), JoinStep::ServerData);
    steps.push(JoinStep::Abilities {
        allow_flying: settings.allow_flight || flying,
        creative: mode == GameModeConfig::Creative,
        flying,
        flying_speed_bits,
    });
    push_when(&mut steps, version.is_after_inclusive(ProtocolVersion::V1_19), JoinStep::SetDefaultSpawnPosition);
    steps.push(JoinStep::SynchronizePlayerPosition);
    assert(steps@ =~= entry_steps(version, *settings, flying_speed_bits, entity_id));
    steps
}

fn server_step_list(version: ProtocolVersion, settings: &JoinSettings) -> (r: Vec<JoinStep>)
    ensures
        r@ == server_steps(version, *settings),
{
    let mut steps: Vec<JoinStep> = Vec::new();
    push_when(&mut steps, version.is_after_inclusive(ProtocolVersion::V1_13), JoinStep::Commands);
    push_when(&mut steps, version.between_inclusive(ProtocolVersion::V1_13, ProtocolVersion::V1_20), JoinStep::Brand);
    push_when(&mut steps, settings.has_welcome_message, JoinStep::WelcomeMessage);
    steps.push(JoinStep::UpdateTime { ticks: settings.time_ticks, advance: !settings.time_locked });
    assert(steps@ =~= server_steps(version, *settings));
    steps
}

fn display_step_list(version: ProtocolVersion, settings: &JoinSettings) -> (r: Vec<JoinStep>)
    ensures
        r@ == display_steps(version, *settings),
{
    let mut steps: Vec<JoinStep> = Vec::new();
    if !version.is_after_inclusive(ProtocolVersion::V1_8) {
        assert(steps@ =~= display_steps(version, *settings));
        return steps;
    }
    push_when(&mut steps, settings.has_action_bar, JoinStep::ActionBar { kind: action_bar_kind(version) });
    push_when(&mut steps, settings.player_has_uuid, JoinStep::PlayerInfoWithSkin);
    steps.push(JoinStep::SkinLayers);
    push_when(&mut steps, settings.has_tab_list, JoinStep::TabList);
    let ghost before_title = steps@;
    let legacy = !version.is_after_inclusive(ProtocolVersion::V1_17);
    match settings.title {
        None => {},
        Some(TitleParts::Title) => {
            steps.push(JoinStep::TitleAnimation { legacy });
            steps.push(JoinStep::TitleText { legacy });
        },
        Some(TitleParts::Subtitle) => {
            steps.push(JoinStep::TitleAnimation { legacy });
            steps.push(JoinStep::SubtitleText { legacy });
        },
        Some(TitleParts::Both) => {
            steps.push(JoinStep::TitleAnimation { legacy });
            steps.push(JoinStep::TitleText { legacy });
            steps.push(JoinStep::SubtitleText { legacy });
        },
    }
    assert(steps@ =~= before_title + title_steps(version, settings.title));
    assert(steps@ =~= display_steps(version, *settings));
    steps
}

fn world_step_list(version: ProtocolVersion, settings: &JoinSettings) -> (r: Vec<JoinStep>)
    ensures
        r@ == world_steps(version, *settings),
{
    let chunks = version.is_after_inclusive(ProtocolVersion::V1_16);
    let mut steps: Vec<JoinStep> = Vec::new();
    push_when(&mut steps, version.is_after_inclusive(ProtocolVersion::V1_9) && settings.has_boss_bar, JoinStep::BossBar);
    push_when(&mut steps, chunks && version.is_after_inclusive(ProtocolVersion::V1_20_3), JoinStep::StartWaitingForChunks);
    push_when(&mut steps, chunks && version.is_after_inclusive(ProtocolVersion::V1_19), JoinStep::SetCenterChunk);
    push_when(&mut steps, chunks, JoinStep::Chunks);
    assert(steps@ =~= world_steps(version, *settings));
    steps
}

/// Brings a player into the world: decides what they are sent, in order,
/// sets their flight state to what the abilities packet says, and moves the
/// connection to the play state with keep-alive asked for.
pub fn plan_play_join(client: &mut ClientState, settings: &JoinSettings) -> (steps: Vec<JoinStep>)
    requires
        old(client).wf(),
        old(client).protocol_version_spec().is_some(),
    ensures
        final(client).wf(),
        steps@ == join_steps(old(client).protocol_version_spec().unwrap(), *settings, old(client).flight_spec().2,
            old(client).entity_id_spec()),
        final(client).entity_id_spec() == old(client).entity_id_spec(),
        final(client).lobby_session_id_spec() == old(client).lobby_session_id_spec(),
        final(client).state_spec() == State::Play,
        final(client)@ == (ClientView {
            state: State::Play,
            is_flight_allowed: final(client)@.is_flight_allowed,
            is_flying: final(client)@.is_flying,
            keep_alive_enabled: final(client)@.keep_alive_enabled,
            ..old(client)@
        }),
        final(client).protocol_version_spec() == old(client).protocol_version_spec(),
        final(client).flight_spec() == (
            settings.allow_flight || game_mode_for(old(client).protocol_version_spec().unwrap(), settings.game_mode) == GameModeConfig::Spectator,
            game_mode_for(old(client).protocol_version_spec().unwrap(), settings.game_mode) == GameModeConfig::Spectator,
            old(client).flight_spec().2,
        ),
        final(client).keep_alive_spec() == if old(client).keep_alive_spec() == KeepAliveStatus::Disabled {
            KeepAliveStatus::ShouldEnable
        } else {
            old(client).keep_alive_spec()
        },
{
    let ghost before = *client;
    let version = client.protocol_version().unwrap();
    let mode = effective_game_mode(version, settings.game_mode);
    let flying = mode == GameModeConfig::Spectator;
    let mut steps = entry_step_list(version, settings, client.flying_speed_bits(), client.entity_id());
    let mut server = server_step_list(version, settings);
    steps.append(&mut server);
    let mut display = display_step_list(version, settings);
    steps.append(&mut display);
    let mut world = world_step_list(version, settings);
    steps.append(&mut world);
    client.set_is_flight_allowed(settings.allow_flight || flying);
    let ghost c1 = *client;
    client.set_is_flying(flying);
    let ghost c2 = *client;
    client.set_state(State::Play);
    let ghost c3 = *client;
    client.set_keep_alive_should_enable();
    proof {
        c1.lemma_same_session(&before, &before);
        c2.lemma_same_session(&c1, &c1);
        let c4 = *client;
        c4.lemma_same_session(&c3, &c3);
    }
    steps
}

/// What a client is sent during the configuration phase (1.20.2 and later).
#[derive(Debug, Clone, Copy, PartialEq, Eq, Structural)]
pub enum ConfigStep {
    /// The server brand.
    Brand,
    /// The data packs the server knows (1.21 and later), answered by the client.
    KnownPacks,
    /// One registry-data packet per registry (1.20.5 and later).
    RegistryDataPerRegistry,
    /// All registries as one NBT codec (1.20.2 and 1.20.3).
    RegistryCodec,
    /// The registry tags (1.21.6 and later).
    UpdateTags,
    FinishConfiguration,
}

/// The registries, tags and end of configuration for a client of `v`.
pub open spec fn registry_steps(v: ProtocolVersion) -> Seq<ConfigStep> {
    (if from_on(v, ProtocolVersion::V1_20_5) {
        seq![ConfigStep::RegistryDataPerRegistry]
    } else {
        seq![ConfigStep::RegistryCodec]
    }) + (if from_on(v, ProtocolVersion::V1_21_6) { seq![ConfigStep::UpdateTags] } else { seq![] })
        + seq![ConfigStep::FinishConfiguration]
}

/// Law (configuration end): the registries come first, one packet per
/// registry from 1.20.5 on and a single codec before; a client from
/// 1.21.6 on is sent the tags after them and before the end of
/// configuration, an older one no tags at all; the end of configuration is
/// sent once, last; nothing else is sent.
pub proof fn lemma_registry_steps_order(v: ProtocolVersion)
    ensures ({
        let rs = registry_steps(v);
        &&& rs.len() == if from_on(v, ProtocolVersion::V1_21_6) { 3int } else { 2int }
        &&& rs[0] == if from_on(v, ProtocolVersion::V1_20_5) {
            ConfigStep::RegistryDataPerRegistry
        } else {
            ConfigStep::RegistryCodec
        }
        &&& rs.last() == ConfigStep::FinishConfiguration
        &&& forall|i: int| 0 <= i < rs.len() - 1 ==> #[trigger] rs[i] != ConfigStep::FinishConfiguration
        &&& from_on(v, ProtocolVersion::V1_21_6) ==> exists|i: int| 0 < i < rs.len() - 1 && #[trigger] rs[i] == ConfigStep::UpdateTags
        &&& !from_on(v, ProtocolVersion::V1_21_6) ==> !rs.contains(ConfigStep::UpdateTags)
    }),
{
    let rs = registry_steps(v);
    if from_on(v, ProtocolVersion::V1_21_6) {
        assert(rs[1] == ConfigStep::UpdateTags);
    } else {
        assert(rs.len() == 2);
        if rs.contains(ConfigStep::UpdateTags) {
            let i = choose|i: int| 0 <= i < rs.len() && rs[i] == ConfigStep::UpdateTags;
            assert(i == 0 || i == 1);
        }
    }
}

/// Sends the registries, the tags where the client reads them, and the end
/// of configuration; only clients from 1.20.2 on have a configuration phase.
pub fn configuration_registry_steps(version: ProtocolVersion) -> (r: Vec<ConfigStep>)
    requires
        from_on(version, ProtocolVersion::V1_20_2),
    ensures
        r@ == registry_steps(version),
{
    let mut r: Vec<ConfigStep> = Vec::new();
    if version.is_after_inclusive(ProtocolVersion::V1_20_5) {
        r.push(ConfigStep::RegistryDataPerRegistry);
    } else {
        r.push(ConfigStep::RegistryCodec);
    }
    if version.is_after_inclusive(ProtocolVersion::V1_21_6) {
        r.push(ConfigStep::UpdateTags);
    }
    r.push(ConfigStep::FinishConfiguration);
    assert(r@ =~= registry_steps(version));
    r
}

/// What a client that has not got the configuration phase is told.
pub const CONFIGURATION_UNSUPPORTED: &'static str = "Configuration state not supported for this version";

/// Answers a client's login acknowledgement: a client from 1.20.2 on enters
/// the configuration phase and is sent the brand, then either the known
/// packs (from 1.21 on, whose answer brings the registries) or the
/// registries directly; an older client is refused.
pub fn handle_login_acknowledged(client: &mut ClientState) -> (r: Result<Vec<ConfigStep>, String>)
    requires
        old(client).wf(),
        old(client).protocol_version_spec().is_some(),
    ensures
        final(client).wf(),
        final(client)@ == (ClientView { state: final(client)@.state, ..old(client)@ }),
        ({
            let v = old(client).protocol_version_spec().unwrap();
            if from_on(v, ProtocolVersion::V1_20_2) {
                &&& final(client).state_spec() == State::Configuration
                &&& r matches Ok(steps) && steps@ == if from_on(v, ProtocolVersion::V1_21) {
                    seq![ConfigStep::Brand, ConfigStep::KnownPacks]
                } else {
                    seq![ConfigStep::Brand] + registry_steps(v)
                }
            } else {
                &&& final(client).state_spec() == old(client).state_spec()
                &&& r matches Err(m) && m@ == CONFIGURATION_UNSUPPORTED@
            }
        }),
{
    let version = client.protocol_version().unwrap();
    if !version.is_after_inclusive(ProtocolVersion::V1_20_2) {
        return Err(CONFIGURATION_UNSUPPORTED.to_string());
    }
    client.set_state(State::Configuration);
    let mut steps: Vec<ConfigStep> = Vec::new();
    steps.push(ConfigStep::Brand);
    if version.is_after_inclusive(ProtocolVersion::V1_21) {
        steps.push(ConfigStep::KnownPacks);
        assert(steps@ =~= seq![ConfigStep::Brand, ConfigStep::KnownPacks]);
        return Ok(steps);
    }
    let mut rest = configuration_registry_steps(version);
    let ghost first = steps@;
    steps.append(&mut rest);
    assert(first =~= seq![ConfigStep::Brand]);
    Ok(steps)
}

/// Admits a player's connection to the lobby before its login packet: the
/// session gets the lobby's next session and entity ids, and the
/// connection takes both, so the login packet carries the lobby entity id.
pub fn register_lobby_session(client: &mut ClientState, lobby: &mut LobbyState, session: LobbySession) -> (a: LobbySession)
    requires
        old(client).wf(),
        old(lobby).wf(),
        old(lobby).can_admit(),
    ensures
        final(client).wf(),
        final(lobby).wf(),
        a == admitted(session, old(lobby).next_session_id(), old(lobby).next_entity_id()),
        final(lobby).sessions() == drop_where(old(lobby).sessions(), has_uuid(session.uuid)).push(a),
        final(lobby).npcs() == old(lobby).npcs(),
        final(lobby).next_session_id() == old(lobby).next_session_id() + 1,
        final(lobby).next_entity_id() == old(lobby).next_entity_id() + 1,
        final(client)@ == (ClientView { entity_id: a.entity_id.0, lobby_session_id: Some(a.session_id), ..old(client)@ }),
{
    let a = lobby.insert(session);
    client.set_entity_id(a.entity_id.0);
    client.set_lobby_session_id(a.session_id);
    a
}

} // verus!
