use vstd::prelude::*;
use crate::text::str_equal;

verus! {

/// Minimum time between two chat messages of a player, by default.
pub const DEFAULT_CHAT_COOLDOWN_MS: u64 = 750;

/// What a player is told when chatting faster than allowed, by default.
pub const DEFAULT_CHAT_ANTISPAM_MESSAGE: &'static str = "<red>You are sending messages too quickly.</red>";

/// Chat flood protection.
#[derive(Debug, Clone)]
pub struct AntispamConfig {
    pub enabled: bool,
    pub chat_cooldown_ms: u64,
    pub message: String,
}

impl Default for AntispamConfig {
    fn default() -> (c: Self)
        ensures
            c.enabled,
            c.chat_cooldown_ms == DEFAULT_CHAT_COOLDOWN_MS,
            c.message@ == DEFAULT_CHAT_ANTISPAM_MESSAGE@,
    {
        AntispamConfig {
            enabled: true,
            chat_cooldown_ms: DEFAULT_CHAT_COOLDOWN_MS,
            message: DEFAULT_CHAT_ANTISPAM_MESSAGE.to_string(),
        }
    }
}

impl AntispamConfig {
    /// The default settings with protection turned off.
    pub fn disabled() -> (c: Self)
        ensures
            !c.enabled,
            c.chat_cooldown_ms == DEFAULT_CHAT_COOLDOWN_MS,
            c.message@ == DEFAULT_CHAT_ANTISPAM_MESSAGE@,
    {
        let mut c = AntispamConfig::default();
        c.enabled = false;
        c
    }
}

/// When the sidebar scoreboard is shown.
#[derive(Debug, Clone, Copy, PartialEq, Eq, Structural)]
pub enum ScoreboardEnabledMode {
    /// Only when the lobby is enabled.
    Lobby,
    Always,
    Never,
}

/// What a configuration value that is neither a boolean nor `"lobby"` is told.
pub const SCOREBOARD_MODE_EXPECTED: &'static str = "expected \"lobby\", true, or false";

impl ScoreboardEnabledMode {
    /// Whether the scoreboard is sent, given whether the lobby is enabled.
    pub fn should_send(&self, lobby_enabled: bool) -> (b: bool)
        ensures
            b == match *self {
                ScoreboardEnabledMode::Lobby => lobby_enabled,
                ScoreboardEnabledMode::Always => true,
                ScoreboardEnabledMode::Never => false,
            },
    {
        match self {
            ScoreboardEnabledMode::Lobby => lobby_enabled,
            ScoreboardEnabledMode::Always => true,
            ScoreboardEnabledMode::Never => false,
        }
    }

    /// The mode a boolean configuration value selects.
    pub fn from_config_bool(value: bool) -> (m: Self)
        ensures
            m == if value { ScoreboardEnabledMode::Always } else { ScoreboardEnabledMode::Never },
    {
        if value {
            ScoreboardEnabledMode::Always
        } else {
            ScoreboardEnabledMode::Never
        }
    }

    /// The mode a string configuration value selects: only `"lobby"` is one.
    pub fn from_config_str(value: &str) -> (r: Result<Self, String>)
        ensures
            value@ == "lobby"@ ==> r == Ok::<ScoreboardEnabledMode, String>(ScoreboardEnabledMode::Lobby),
            value@ != "lobby"@ ==> (r matches Err(e) && e@ == SCOREBOARD_MODE_EXPECTED@),
    {
        if str_equal(value, "lobby") {
            Ok(ScoreboardEnabledMode::Lobby)
        } else {
            Err(SCOREBOARD_MODE_EXPECTED.to_string())
        }
    }

    /// The configuration value the mode is written back as: `"lobby"`, or a boolean.
    pub fn to_config_value(&self) -> (r: Result<&'static str, bool>)
        ensures
            r == match *self {
                ScoreboardEnabledMode::Lobby => Ok::<&'static str, bool>("lobby"),
                ScoreboardEnabledMode::Always => Err::<&'static str, bool>(true),
                ScoreboardEnabledMode::Never => Err::<&'static str, bool>(false),
            },
    {
        match self {
            ScoreboardEnabledMode::Lobby => Ok("lobby"),
            ScoreboardEnabledMode::Always => Err(true),
            ScoreboardEnabledMode::Never => Err(false),
        }
    }
}

pub const DEFAULT_SCOREBOARD_TITLE: &'static str = "<bold>PicoLobby</bold>";
pub const DEFAULT_SCOREBOARD_UPDATE_INTERVAL_MS: u64 = 1000;
pub const DEFAULT_SCOREBOARD_PLAYER_LINE: &'static str = "<gray>Player: <white>{player}";
pub const DEFAULT_SCOREBOARD_ONLINE_LINE: &'static str = "<gray>Online: <green>{online}<dark_gray>/<green>{max_players}";
pub const DEFAULT_SCOREBOARD_SERVER_LINE: &'static str = "<gray>Server: <aqua>{server}";

/// The sidebar scoreboard.
#[derive(Debug, Clone)]
pub struct ScoreboardConfig {
    pub enabled: ScoreboardEnabledMode,
    pub title: String,
    pub update_interval_ms: u64,
    pub lines: Vec<String>,
}

impl Default for ScoreboardConfig {
    fn default() -> (c: Self)
        ensures
            c.enabled == ScoreboardEnabledMode::Lobby,
            c.title@ == DEFAULT_SCOREBOARD_TITLE@,
            c.update_interval_ms == DEFAULT_SCOREBOARD_UPDATE_INTERVAL_MS,
            c.lines@.len() == 3,
            c.lines@[0]@ == DEFAULT_SCOREBOARD_PLAYER_LINE@,
            c.lines@[1]@ == DEFAULT_SCOREBOARD_ONLINE_LINE@,
            c.lines@[2]@ == DEFAULT_SCOREBOARD_SERVER_LINE@,
    {
        let mut lines: Vec<String> = Vec::new();
        lines.push(DEFAULT_SCOREBOARD_PLAYER_LINE.to_string());
        lines.push(DEFAULT_SCOREBOARD_ONLINE_LINE.to_string());
        lines.push(DEFAULT_SCOREBOARD_SERVER_LINE.to_string());
        ScoreboardConfig {
            enabled: ScoreboardEnabledMode::Lobby,
            title: DEFAULT_SCOREBOARD_TITLE.to_string(),
            update_interval_ms: DEFAULT_SCOREBOARD_UPDATE_INTERVAL_MS,
            lines,
        }
    }
}

/// Game mode players are put in.
#[derive(Debug, Clone, Copy, PartialEq, Eq, Structural)]
pub enum GameModeConfig {
    Survival,
    Creative,
    Adventure,
    Spectator,
}

impl Default for GameModeConfig {
    fn default() -> (g: Self)
        ensures
            g == GameModeConfig::Spectator,
    {
        GameModeConfig::Spectator
    }
}

/// Dimension players spawn in.
#[derive(Debug, Clone, Copy, PartialEq, Eq, Structural)]
pub enum SpawnDimensionConfig {
    Overworld,
    Nether,
    End,
}

impl Default for SpawnDimensionConfig {
    fn default() -> (d: Self)
        ensures
            d == SpawnDimensionConfig::End,
    {
        SpawnDimensionConfig::End
    }
}

/// Time of day of the world: a named time or a tick count.
#[derive(Debug, Clone, Copy, PartialEq, Eq, Structural)]
pub enum TimeConfig {
    Day,
    Noon,
    Night,
    Midnight,
    Ticks(i64),
}

impl Default for TimeConfig {
    fn default() -> (t: Self)
        ensures
            t == TimeConfig::Day,
    {
        TimeConfig::Day
    }
}

/// Names the result of `str::to_lowercase` on a string.
pub uninterp spec fn lowercase(s: Seq<char>) -> Seq<char>;

/// Calls `str::to_lowercase`: the string with every character replaced by
/// its Unicode lowercase mapping. What that mapping is, character by
/// character, is left unstated; the result is named by `lowercase`.
#[verifier::external_body]
fn to_lowercase(s: &str) -> (r: String)
    ensures
        r@ == lowercase(s@),
{
    s.to_lowercase()
}

/// The named time a lowercase name stands for.
pub open spec fn named_time(lower: Seq<char>) -> Option<TimeConfig> {
    if lower == "day"@ {
        Some(TimeConfig::Day)
    } else if lower == "noon"@ {
        Some(TimeConfig::Noon)
    } else if lower == "night"@ {
        Some(TimeConfig::Night)
    } else if lower == "midnight"@ {
        Some(TimeConfig::Midnight)
    } else {
        None
    }
}

/// The named time `lower` (the lowercased form of `input`) stands for, or
/// the error naming `input`.
pub fn time_from_lowercase_name(lower: &str, input: &str) -> (r: Result<TimeConfig, String>)
    ensures
        match named_time(lower@) {
            Some(t) => r == Ok::<TimeConfig, String>(t),
            None => r matches Err(e) && e@ == "Invalid time config: "@ + input@,
        },
{
    if str_equal(lower, "day") {
        Ok(TimeConfig::Day)
    } else if str_equal(lower, "noon") {
        Ok(TimeConfig::Noon)
    } else if str_equal(lower, "night") {
        Ok(TimeConfig::Night)
    } else if str_equal(lower, "midnight") {
        Ok(TimeConfig::Midnight)
    } else {
        Err("Invalid time config: ".to_string().concat(input))
    }
}

impl TimeConfig {
    /// Parses a named time, ignoring case.
    pub fn parse(s: &str) -> (r: Result<TimeConfig, String>)
        ensures
            match named_time(lowercase(s@)) {
                Some(t) => r == Ok::<TimeConfig, String>(t),
                None => r matches Err(e) && e@ == "Invalid time config: "@ + s@,
            },
    {
        let lower = to_lowercase(s);
        time_from_lowercase_name(lower.as_str(), s)
    }

    /// The world time in ticks.
    pub fn ticks(&self) -> (t: i64)
        ensures
            t == match *self {
                TimeConfig::Day => 1000i64,
                TimeConfig::Noon => 6000i64,
                TimeConfig::Night => 13000i64,
                TimeConfig::Midnight => 18000i64,
                TimeConfig::Ticks(n) => n,
            },
    {
        match self {
            TimeConfig::Day => 1000,
            TimeConfig::Noon => 6000,
            TimeConfig::Night => 13000,
            TimeConfig::Midnight => 18000,
            TimeConfig::Ticks(n) => *n,
        }
    }
}

pub const DEFAULT_CHAT_FORMAT: &'static str = "<white>&lt;{sender}&gt; {message}</white>";
pub const DEFAULT_JOIN_MESSAGE: &'static str = "<yellow>{player} joined the game</yellow>";
pub const DEFAULT_LEAVE_MESSAGE: &'static str = "<yellow>{player} left the game</yellow>";
pub const DEFAULT_PRIVATE_MESSAGE_SENDER_FORMAT: &'static str = "<gray>[me -> {recipient}]</gray> <white>{message}</white>";
pub const DEFAULT_PRIVATE_MESSAGE_RECIPIENT_FORMAT: &'static str = "<gray>[{sender} -> me]</gray> <white>{message}</white>";
pub const DEFAULT_PRIVATE_MESSAGE_UNKNOWN_TARGET: &'static str = "<red>Player '{target}' is not online in the lobby.</red>";
pub const DEFAULT_PRIVATE_MESSAGE_AMBIGUOUS_TARGET: &'static str = "<red>More than one online player matches '{target}'.</red>";
pub const DEFAULT_PRIVATE_MESSAGE_HIDDEN_TARGET: &'static str = "<red>{target} cannot receive private messages with hidden chat.</red>";
pub const DEFAULT_PRIVATE_MESSAGE_MISSING_REPLY_TARGET: &'static str = "<red>You have nobody to reply to.</red>";
pub const DEFAULT_PRIVATE_MESSAGE_SELF_MESSAGE: &'static str = "<red>You cannot send a private message to yourself.</red>";
pub const DEFAULT_PRIVATE_MESSAGE_EMPTY_MESSAGE: &'static str = "<red>Private message cannot be empty.</red>";
pub const DEFAULT_PRIVATE_MESSAGE_TOO_LONG: &'static str = "<red>Private message is too long.</red>";
pub const DEFAULT_PRIVATE_MESSAGE_RATE_LIMIT: &'static str = "<red>You are sending messages too quickly.</red>";
pub const DEFAULT_PRIVATE_MESSAGE_UNAVAILABLE: &'static str = "<red>Private messages are only available in the lobby.</red>";

/// A downstream server reachable through the proxy; `server` is the
/// proxy's name for it.
#[derive(Debug, Clone)]
pub struct LobbyServerEntry {
    pub id: String,
    pub display_name: String,
    pub server: String,
}

pub const DEFAULT_SELECTOR_SLOT: u8 = 4;
pub const DEFAULT_SELECTOR_ITEM: &'static str = "minecraft:compass";
pub const DEFAULT_SELECTOR_DISPLAY_NAME: &'static str = "<bold><gold>Server Selector";
pub const DEFAULT_SELECTOR_LORE: &'static str = "<gray>Right-click to choose a server.";

/// The hotbar item that opens the server selector.
#[derive(Debug, Clone)]
pub struct SelectorItemConfig {
    /// Hotbar slot, 0 to 8.
    pub slot: u8,
    /// Item identifier, such as `minecraft:compass`.
    pub item: String,
    /// MiniMessage display name.
    pub display_name: Option<String>,
    /// MiniMessage lore lines.
    pub lore: Vec<String>,
}

impl Default for SelectorItemConfig {
    fn default() -> (c: Self)
        ensures
            c.slot == DEFAULT_SELECTOR_SLOT,
            c.item@ == DEFAULT_SELECTOR_ITEM@,
            c.display_name matches Some(d) && d@ == DEFAULT_SELECTOR_DISPLAY_NAME@,
            c.lore@.len() == 1,
            c.lore@[0]@ == DEFAULT_SELECTOR_LORE@,
    {
        let mut lore: Vec<String> = Vec::new();
        lore.push(DEFAULT_SELECTOR_LORE.to_string());
        SelectorItemConfig {
            slot: DEFAULT_SELECTOR_SLOT,
            item: DEFAULT_SELECTOR_ITEM.to_string(),
            display_name: Some(DEFAULT_SELECTOR_DISPLAY_NAME.to_string()),
            lore,
        }
    }
}

/// What the lobby starts with: the configured NPCs and selector item when
/// the lobby is enabled, neither when it is not.
pub fn lobby_features<T>(lobby_enabled: bool, npcs: Vec<T>, selector: Option<SelectorItemConfig>) -> (r: (
    Vec<T>,
    Option<SelectorItemConfig>,
))
    ensures
        r.0@ == if lobby_enabled { npcs@ } else { Seq::<T>::empty() },
        r.1 == if lobby_enabled { selector } else { None::<SelectorItemConfig> },
{
    if lobby_enabled {
        (npcs, selector)
    } else {
        (Vec::new(), None)
    }
}

/// Templates of private messages and of the answers to refused ones.
#[derive(Debug, Clone)]
pub struct PrivateMessagesConfig {
    pub sender_format: String,
    pub recipient_format: String,
    pub unknown_target: String,
    pub ambiguous_target: String,
    pub hidden_target: String,
    pub missing_reply_target: String,
    pub self_message: String,
    pub empty_message: String,
    pub too_long: String,
    pub rate_limit: String,
    pub unavailable: String,
}

impl Default for PrivateMessagesConfig {
    fn default() -> (c: Self)
        ensures
            c.sender_format@ == DEFAULT_PRIVATE_MESSAGE_SENDER_FORMAT@,
            c.recipient_format@ == DEFAULT_PRIVATE_MESSAGE_RECIPIENT_FORMAT@,
            c.unknown_target@ == DEFAULT_PRIVATE_MESSAGE_UNKNOWN_TARGET@,
            c.ambiguous_target@ == DEFAULT_PRIVATE_MESSAGE_AMBIGUOUS_TARGET@,
            c.hidden_target@ == DEFAULT_PRIVATE_MESSAGE_HIDDEN_TARGET@,
            c.missing_reply_target@ == DEFAULT_PRIVATE_MESSAGE_MISSING_REPLY_TARGET@,
            c.self_message@ == DEFAULT_PRIVATE_MESSAGE_SELF_MESSAGE@,
            c.empty_message@ == DEFAULT_PRIVATE_MESSAGE_EMPTY_MESSAGE@,
            c.too_long@ == DEFAULT_PRIVATE_MESSAGE_TOO_LONG@,
            c.rate_limit@ == DEFAULT_PRIVATE_MESSAGE_RATE_LIMIT@,
            c.unavailable@ == DEFAULT_PRIVATE_MESSAGE_UNAVAILABLE@,
    {
        PrivateMessagesConfig {
            sender_format: DEFAULT_PRIVATE_MESSAGE_SENDER_FORMAT.to_string(),
            recipient_format: DEFAULT_PRIVATE_MESSAGE_RECIPIENT_FORMAT.to_string(),
            unknown_target: DEFAULT_PRIVATE_MESSAGE_UNKNOWN_TARGET.to_string(),
            ambiguous_target: DEFAULT_PRIVATE_MESSAGE_AMBIGUOUS_TARGET.to_string(),
            hidden_target: DEFAULT_PRIVATE_MESSAGE_HIDDEN_TARGET.to_string(),
            missing_reply_target: DEFAULT_PRIVATE_MESSAGE_MISSING_REPLY_TARGET.to_string(),
            self_message: DEFAULT_PRIVATE_MESSAGE_SELF_MESSAGE.to_string(),
            empty_message: DEFAULT_PRIVATE_MESSAGE_EMPTY_MESSAGE.to_string(),
            too_long: DEFAULT_PRIVATE_MESSAGE_TOO_LONG.to_string(),
            rate_limit: DEFAULT_PRIVATE_MESSAGE_RATE_LIMIT.to_string(),
            unavailable: DEFAULT_PRIVATE_MESSAGE_UNAVAILABLE.to_string(),
        }
    }
}

} // verus!
