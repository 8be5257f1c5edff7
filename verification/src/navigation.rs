use vstd::prelude::*;
use crate::text::str_equal;

verus! {

/// Identifier of a destination server offered by the lobby.
#[derive(Debug, Clone, PartialEq, Eq, Hash)]
pub struct LobbyDestinationId(pub String);

impl LobbyDestinationId {
    pub fn new(id: &str) -> (d: Self)
        ensures
            d.0@ == id@,
    {
        LobbyDestinationId(id.to_string())
    }

    pub fn as_str(&self) -> (s: &str)
        ensures
            s@ == self.0@,
    {
        self.0.as_str()
    }
}

/// Item shown for a selector entry that configures none.
pub const DEFAULT_SELECTOR_ENTRY_ITEM: &'static str = "minecraft:paper";

/// Hover text of a selector entry that configures none.
pub const DEFAULT_SELECTOR_ENTRY_LORE: &'static str = "<gray>Click to connect.";

/// A server reachable through the proxy, as offered in the lobby.
#[derive(Debug, Clone)]
pub struct LobbyDestination {
    pub id: LobbyDestinationId,
    /// Name shown in selector menus and on NPC labels.
    pub display_name: String,
    /// The proxy's name for the server.
    pub server: String,
    /// Item shown for this entry in the selector menu.
    pub item: String,
    /// MiniMessage hover lines of the entry.
    pub lore: Vec<String>,
    /// Explicit menu slot, or `None` for automatic placement.
    pub slot: Option<usize>,
    /// Whether the entry's item shows the enchantment glint.
    pub enchanted: bool,
}

impl LobbyDestination {
    /// A destination with the default item and hover text, automatic
    /// placement and no glint.
    pub fn new(id: &str, display_name: &str, server: &str) -> (d: Self)
        ensures
            d.id.0@ == id@,
            d.display_name@ == display_name@,
            d.server@ == server@,
            d.item@ == DEFAULT_SELECTOR_ENTRY_ITEM@,
            d.lore@.len() == 1,
            d.lore@[0]@ == DEFAULT_SELECTOR_ENTRY_LORE@,
            d.slot.is_none(),
            !d.enchanted,
    {
        LobbyDestination {
            id: LobbyDestinationId::new(id),
            display_name: display_name.to_string(),
            server: server.to_string(),
            item: DEFAULT_SELECTOR_ENTRY_ITEM.to_string(),
            lore: vec![DEFAULT_SELECTOR_ENTRY_LORE.to_string()],
            slot: None,
            enchanted: false,
        }
    }

    /// The same destination with another menu item.
    pub fn with_item(self, item: &str) -> (d: Self)
        ensures
            d.item@ == item@,
            d.id == self.id && d.display_name == self.display_name && d.server == self.server,
            d.lore == self.lore && d.slot == self.slot && d.enchanted == self.enchanted,
    {
        let mut d = self;
        d.item = item.to_string();
        d
    }

    /// The same destination with other hover lines.
    pub fn with_lore(self, lore: Vec<String>) -> (d: Self)
        ensures
            d.lore == lore,
            d.id == self.id && d.display_name == self.display_name && d.server == self.server,
            d.item == self.item && d.slot == self.slot && d.enchanted == self.enchanted,
    {
        let mut d = self;
        d.lore = lore;
        d
    }

    /// The same destination with an explicit menu slot, or automatic placement.
    pub fn with_slot(self, slot: Option<u8>) -> (d: Self)
        ensures
            match slot {
                Some(s) => d.slot == Some(s as usize),
                None => d.slot.is_none(),
            },
            d.id == self.id && d.display_name == self.display_name && d.server == self.server,
            d.item == self.item && d.lore == self.lore && d.enchanted == self.enchanted,
    {
        let mut d = self;
        d.slot = match slot {
            Some(s) => Some(s as usize),
            None => None,
        };
        d
    }

    /// The same destination with or without the enchantment glint.
    pub fn with_enchanted(self, enchanted: bool) -> (d: Self)
        ensures
            d.enchanted == enchanted,
            d.id == self.id && d.display_name == self.display_name && d.server == self.server,
            d.item == self.item && d.lore == self.lore && d.slot == self.slot,
    {
        let mut d = self;
        d.enchanted = enchanted;
        d
    }
}

/// A destination lookup that failed.
#[derive(Debug)]
pub enum NavigationError {
    UnknownDestination(String),
}

impl NavigationError {
    /// The message describing the error.
    pub fn message(&self) -> (s: String)
        ensures
            match self {
                NavigationError::UnknownDestination(id) => s@ == "unknown destination '"@ + id@ + "'"@,
            },
    {
        match self {
            NavigationError::UnknownDestination(id) => "unknown destination '".to_string().concat(
                id.as_str(),
            ).concat("'"),
        }
    }
}

/// Looks up the destination with ID `id`: the index of the first one that
/// has it, or `UnknownDestination` naming `id`.
pub fn resolve_destination(destinations: &Vec<LobbyDestination>, id: &str) -> (r: Result<usize, NavigationError>)
    ensures
        match r {
            Ok(i) => i < destinations@.len() && destinations@[i as int].id.0@ == id@
                && forall|j: int| 0 <= j < i ==> (#[trigger] destinations@[j]).id.0@ != id@,
            Err(NavigationError::UnknownDestination(s)) => s@ == id@
                && forall|j: int| 0 <= j < destinations@.len() ==> (#[trigger] destinations@[j]).id.0@ != id@,
        },
{
    let mut i: usize = 0;
    while i < destinations.len()
        invariant
            i <= destinations@.len(),
            forall|j: int| 0 <= j < i ==> (#[trigger] destinations@[j]).id.0@ != id@,
        decreases destinations.len() - i,
    {
        if str_equal(destinations[i].id.0.as_str(), id) {
            return Ok(i);
        }
        i = i + 1;
    }
    Err(NavigationError::UnknownDestination(id.to_string()))
}

} // verus!
