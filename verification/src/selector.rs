use vstd::prelude::*;
use crate::protocol::ProtocolVersion;
use crate::navigation::{LobbyDestination, DEFAULT_SELECTOR_ENTRY_LORE};
use crate::text::str_equal;

verus! {

/// Number of slots of the selector menu (a single chest row of three lines).
pub const MENU_SIZE: usize = 27;

/// Pre-1.13 numeric item ID of paper.
pub const LEGACY_PAPER_ID: i32 = 339;

/// Slot number a client sends for a click outside the window.
pub const OUTSIDE_WINDOW_SLOT: i16 = -999;

/// Menu title used when the selector item has no display name.
pub const DEFAULT_SELECTOR_TITLE: &'static str = "Server Selector";

/// Pre-1.13 numeric item IDs of the items commonly used as selectors.
pub open spec fn legacy_item_id(id: Seq<char>) -> Option<i32> {
    if id == "minecraft:compass"@ {
        Some(345i32)
    } else if id == "minecraft:clock"@ {
        Some(347i32)
    } else if id == "minecraft:nether_star"@ {
        Some(399i32)
    } else if id == "minecraft:paper"@ {
        Some(339i32)
    } else if id == "minecraft:book"@ {
        Some(340i32)
    } else if id == "minecraft:written_book"@ {
        Some(387i32)
    } else if id == "minecraft:map"@ || id == "minecraft:filled_map"@ {
        Some(395i32)
    } else if id == "minecraft:ender_pearl"@ {
        Some(368i32)
    } else if id == "minecraft:diamond"@ {
        Some(264i32)
    } else if id == "minecraft:emerald"@ {
        Some(388i32)
    } else if id == "minecraft:gold_ingot"@ {
        Some(266i32)
    } else if id == "minecraft:iron_ingot"@ {
        Some(265i32)
    } else {
        None
    }
}

/// Law (legacy ids): different items never share a pre-1.13 item ID; the
/// only identifiers that do are the two names of the map. Every ID given
/// is an item ID of those versions (from 256 up), never a block ID.
pub proof fn lemma_legacy_ids_distinct(a: Seq<char>, b: Seq<char>)
    ensures
        legacy_item_id(a) matches Some(x) ==> 256 <= x <= 452,
        legacy_item_id(a) is Some && legacy_item_id(a) == legacy_item_id(b) && a != b ==> (a == "minecraft:map"@
            && b == "minecraft:filled_map"@) || (a == "minecraft:filled_map"@ && b == "minecraft:map"@),
{
}

/// The numeric item ID a pre-1.13 client knows `identifier` by, if any.
pub fn legacy_item_id_for(identifier: &str) -> (r: Option<i32>)
    ensures
        r == legacy_item_id(identifier@),
{
    if str_equal(identifier, "minecraft:compass") {
        Some(345)
    } else if str_equal(identifier, "minecraft:clock") {
        Some(347)
    } else if str_equal(identifier, "minecraft:nether_star") {
        Some(399)
    } else if str_equal(identifier, "minecraft:paper") {
        Some(339)
    } else if str_equal(identifier, "minecraft:book") {
        Some(340)
    } else if str_equal(identifier, "minecraft:written_book") {
        Some(387)
    } else if str_equal(identifier, "minecraft:map") || str_equal(identifier, "minecraft:filled_map") {
        Some(395)
    } else if str_equal(identifier, "minecraft:ender_pearl") {
        Some(368)
    } else if str_equal(identifier, "minecraft:diamond") {
        Some(264)
    } else if str_equal(identifier, "minecraft:emerald") {
        Some(388)
    } else if str_equal(identifier, "minecraft:gold_ingot") {
        Some(266)
    } else if str_equal(identifier, "minecraft:iron_ingot") {
        Some(265)
    } else {
        None
    }
}

/// Whether a client of version `v` predates the 1.13 item flattening.
pub open spec fn pre_flattening(v: ProtocolVersion) -> bool {
    v.rank() <= ProtocolVersion::V1_12_2.rank()
}

/// The item ID a client of `version` knows an item by: the legacy numeric ID
/// before 1.13, else what the version's item registry gives.
pub open spec fn item_id_for(version: ProtocolVersion, legacy: Option<i32>, registry_item_id: Option<i32>) -> Option<i32> {
    if pre_flattening(version) {
        legacy
    } else {
        registry_item_id
    }
}

/// The ID of paper, which fills the menu's destination slots.
pub open spec fn paper_id(version: ProtocolVersion, registry_paper_id: Option<i32>) -> i32 {
    if pre_flattening(version) {
        LEGACY_PAPER_ID
    } else {
        match registry_paper_id {
            Some(id) => id,
            None => LEGACY_PAPER_ID,
        }
    }
}

/// An item stack shown in a container slot, with MiniMessage name and lore.
#[derive(Debug, Clone)]
pub struct MenuSlot {
    /// Item ID, `-1` for an empty slot.
    pub item_id: i32,
    pub count: u8,
    pub display_name: Option<String>,
    pub lore: Vec<String>,
    /// Whether the item shows the enchantment glint.
    pub enchanted: bool,
}

impl MenuSlot {
    /// An empty slot.
    pub fn empty() -> (s: Self)
        ensures
            s.item_id == -1,
            s.count == 0,
            s.display_name.is_none(),
            s.lore@.len() == 0,
            !s.enchanted,
    {
        MenuSlot { item_id: -1, count: 0, display_name: None, lore: Vec::new(), enchanted: false }
    }

    /// Item ID of the slot, `-1` when empty.
    pub fn item_id(&self) -> (id: i32)
        ensures
            id == self.item_id,
    {
        self.item_id
    }
}

/// A copy of a list of lines.
pub fn copy_lines(lines: &Vec<String>) -> (r: Vec<String>)
    ensures
        r@ == lines@,
{
    let mut r: Vec<String> = Vec::new();
    let mut i: usize = 0;
    while i < lines.len()
        invariant
            i <= lines@.len(),
            r@ == lines@.take(i as int),
        decreases lines.len() - i,
    {
        r.push(lines[i].clone());
        assert(r@ =~= lines@.take(i + 1));
        i = i + 1;
    }
    assert(lines@.take(lines@.len() as int) =~= lines@);
    r
}

/// A copy of an optional line.
pub fn copy_line(line: &Option<String>) -> (r: Option<String>)
    ensures
        r == *line,
{
    match line {
        Some(s) => Some(s.clone()),
        None => None,
    }
}

/// A slot update for the player's hotbar.
#[derive(Debug, Clone)]
pub struct HotbarSlotUpdate {
    pub hotbar_slot: u8,
    pub slot: MenuSlot,
}

/// The configured hotbar item that opens the server selector.
#[derive(Debug, Clone)]
pub struct LobbySelector {
    pub hotbar_slot: u8,
    item_identifier: String,
    display_name: Option<String>,
    lore: Vec<String>,
    legacy_item_id: Option<i32>,
}

impl LobbySelector {
    pub closed spec fn hotbar_slot_spec(&self) -> u8 {
        self.hotbar_slot
    }

    pub closed spec fn item_identifier_spec(&self) -> Seq<char> {
        self.item_identifier@
    }

    pub closed spec fn display_name_spec(&self) -> Option<String> {
        self.display_name
    }

    pub closed spec fn lore_spec(&self) -> Seq<String> {
        self.lore@
    }

    pub closed spec fn legacy_id_spec(&self) -> Option<i32> {
        self.legacy_item_id
    }

    /// A selector showing `item_identifier` (a full identifier such as
    /// `minecraft:compass`) in `hotbar_slot`, with MiniMessage name and lore.
    pub fn new(hotbar_slot: u8, item_identifier: String, display_name: Option<String>, lore: Vec<String>) -> (s: Self)
        ensures
            s.hotbar_slot_spec() == hotbar_slot,
            s.item_identifier_spec() == item_identifier@,
            s.display_name_spec() == display_name,
            s.lore_spec() == lore@,
            s.legacy_id_spec() == legacy_item_id(item_identifier@),
    {
        let legacy_item_id = legacy_item_id_for(item_identifier.as_str());
        LobbySelector { hotbar_slot, item_identifier, display_name, lore, legacy_item_id }
    }

    /// The hotbar slot the item sits in.
    pub fn hotbar_slot(&self) -> (s: u8)
        ensures
            s == self.hotbar_slot_spec(),
    {
        self.hotbar_slot
    }

    /// The item's identifier.
    pub fn item_identifier(&self) -> (s: &str)
        ensures
            s@ == self.item_identifier_spec(),
    {
        self.item_identifier.as_str()
    }

    /// The item's MiniMessage display name, if it has one.
    pub fn display_name(&self) -> (d: Option<String>)
        ensures
            d == self.display_name_spec(),
    {
        copy_line(&self.display_name)
    }

    /// The menu's title: the item's display name, or the default title.
    pub fn menu_title(&self) -> (t: String)
        ensures
            t@ == match self.display_name_spec() {
                Some(d) => d@,
                None => DEFAULT_SELECTOR_TITLE@,
            },
    {
        match &self.display_name {
            Some(d) => d.clone(),
            None => DEFAULT_SELECTOR_TITLE.to_string(),
        }
    }

    /// The item ID for a client of `version`, given what that version's item
    /// registry holds for the identifier; `None` when the item is unknown there.
    pub fn resolve_item_id(&self, version: ProtocolVersion, registry_item_id: Option<i32>) -> (r: Option<i32>)
        ensures
            r == item_id_for(version, self.legacy_id_spec(), registry_item_id),
    {
        if version.is_before_inclusive(ProtocolVersion::V1_12_2) {
            return self.legacy_item_id;
        }
        registry_item_id
    }

    /// The hotbar slot update that shows the selector item, or `None` when
    /// the item is unknown to a client of `version`.
    pub fn build_hotbar_slot(&self, version: ProtocolVersion, registry_item_id: Option<i32>) -> (r: Option<HotbarSlotUpdate>)
        ensures
            match item_id_for(version, self.legacy_id_spec(), registry_item_id) {
                Some(id) => r matches Some(u) && u.hotbar_slot == self.hotbar_slot_spec() && u.slot.item_id == id
                    && u.slot.count == 1 && u.slot.display_name == self.display_name_spec()
                    && u.slot.lore@ == self.lore_spec() && !u.slot.enchanted,
                None => r.is_none(),
            },
    {
        match self.resolve_item_id(version, registry_item_id) {
            Some(item_id) => Some(HotbarSlotUpdate {
                hotbar_slot: self.hotbar_slot,
                slot: MenuSlot {
                    item_id,
                    count: 1,
                    display_name: copy_line(&self.display_name),
                    lore: copy_lines(&self.lore),
                    enchanted: false,
                },
            }),
            None => None,
        }
    }
}

/// The ID of paper for a client of `version`, given what the version's item
/// registry holds for `minecraft:paper`.
pub fn resolve_paper_id(version: ProtocolVersion, registry_paper_id: Option<i32>) -> (id: i32)
    ensures
        id == paper_id(version, registry_paper_id),
{
    if version.is_before_inclusive(ProtocolVersion::V1_12_2) {
        LEGACY_PAPER_ID
    } else {
        match registry_paper_id {
            Some(id) => id,
            None => LEGACY_PAPER_ID,
        }
    }
}

/// A click in a container window, as the client reports it.
#[derive(Debug, Clone, Copy, PartialEq, Eq, Structural)]
pub struct ClickContainer {
    pub window_id: u8,
    pub state_id: i32,
    pub slot: i16,
    pub action_number: i16,
    pub button: u8,
    pub mode: u8,
}

/// A player's selector menu while it is open.
#[derive(Debug)]
pub struct OpenSelectorState {
    pub window_id: u8,
    /// Counter of contents sent (resyncs included); compared with clicks
    /// from 1.17.1 on.
    pub state_id: i32,
    /// One entry per menu slot: the destination ID the slot holds, if any.
    pub slot_map: Vec<Option<String>>,
    /// The menu's item stacks, one per slot.
    pub slots: Vec<MenuSlot>,
}

/// How a click in the open selector is handled.
#[derive(Debug, Clone, Copy, PartialEq, Eq, Structural)]
pub enum SelectorClick {
    /// A plain click on a slot that holds a destination.
    Select { slot_index: usize },
    /// An invalid or unsupported interaction: the client is resynced.
    RequiresResync,
    /// A click outside the window: nothing changes.
    Ignored,
}

/// How `click` on a menu with `state_id` and `slot_map` is handled by a
/// client of `version`.
pub open spec fn click_outcome(state_id: i32, slot_map: Seq<Option<String>>, click: ClickContainer, version: ProtocolVersion) -> SelectorClick {
    if click.slot == OUTSIDE_WINDOW_SLOT {
        SelectorClick::Ignored
    } else if click.mode != 0 {
        SelectorClick::RequiresResync
    } else if click.slot < 0 || click.slot >= MENU_SIZE {
        SelectorClick::RequiresResync
    } else if version.rank() >= ProtocolVersion::V1_17_1.rank() && click.state_id != state_id {
        SelectorClick::RequiresResync
    } else if slot_map[click.slot as int].is_some() {
        SelectorClick::Select { slot_index: click.slot as usize }
    } else {
        SelectorClick::RequiresResync
    }
}

/// Law (menu clicks): only a click outside the window is ignored; a click
/// selects a slot only when it is a plain click on that very slot of the
/// menu, the slot holds a destination and (from 1.17.1 on) the click
/// names the menu's current state; every such click selects it, and any
/// other click inside the window asks for a resync.
pub proof fn lemma_click_selects(state_id: i32, slot_map: Seq<Option<String>>, click: ClickContainer, version: ProtocolVersion)
    requires
        slot_map.len() == MENU_SIZE,
    ensures ({
        let c = click_outcome(state_id, slot_map, click, version);
        let hit = click.mode == 0 && 0 <= click.slot < MENU_SIZE && slot_map[click.slot as int] is Some
            && (version.rank() >= ProtocolVersion::V1_17_1.rank() ==> click.state_id == state_id);
        &&& (c is Ignored <==> click.slot == OUTSIDE_WINDOW_SLOT)
        &&& (c is Select <==> hit)
        &&& (c matches SelectorClick::Select { slot_index } ==> slot_index as int == click.slot as int)
        &&& (c is RequiresResync <==> click.slot != OUTSIDE_WINDOW_SLOT && !hit)
    }),
{
}

impl OpenSelectorState {
    /// Every slot has an entry in both the slot map and the slot list.
    pub open spec fn wf(&self) -> bool {
        self.slot_map@.len() == MENU_SIZE && self.slots@.len() == MENU_SIZE
    }

    /// Classifies a click into the open menu.
    pub fn classify(&self, click: &ClickContainer, version: ProtocolVersion) -> (c: SelectorClick)
        requires
            self.wf(),
        ensures
            c == click_outcome(self.state_id, self.slot_map@, *click, version),
    {
        if click.slot == OUTSIDE_WINDOW_SLOT {
            return SelectorClick::Ignored;
        }
        if click.mode != 0 {
            return SelectorClick::RequiresResync;
        }
        if click.slot < 0 || click.slot >= 27 {
            return SelectorClick::RequiresResync;
        }
        if version.is_after_inclusive(ProtocolVersion::V1_17_1) && click.state_id != self.state_id {
            return SelectorClick::RequiresResync;
        }
        let slot_index = click.slot as usize;
        if self.slot_map[slot_index].is_some() {
            SelectorClick::Select { slot_index }
        } else {
            SelectorClick::RequiresResync
        }
    }
}

/// The first free menu slot at or after `k`.
pub open spec fn first_free_from(m: Seq<Option<usize>>, k: int) -> Option<int>
    decreases m.len() - k,
{
    if k < 0 || k >= m.len() {
        None
    } else if m[k] is None {
        Some(k)
    } else {
        first_free_from(m, k + 1)
    }
}

/// Where a destination goes, given the slots already taken: its explicit
/// slot when that is in the menu and still free, else the first free slot.
pub open spec fn target_slot(m: Seq<Option<usize>>, d: LobbyDestination) -> Option<int> {
    match d.slot {
        Some(s) => if s < MENU_SIZE && m[s as int] is None { Some(s as int) } else { first_free_from(m, 0) },
        None => first_free_from(m, 0),
    }
}

/// Which destination each menu slot shows, by index: destinations are
/// placed in order, each at its explicit slot when free, else in the first
/// free slot; those that find no slot are left out.
pub open spec fn menu_owners(ds: Seq<LobbyDestination>) -> Seq<Option<usize>>
    decreases ds.len(),
{
    if ds.len() == 0 {
        Seq::new(MENU_SIZE as nat, |k: int| None::<usize>)
    } else {
        let m = menu_owners(ds.drop_last());
        match target_slot(m, ds.last()) {
            Some(t) => m.update(t, Some((ds.len() - 1) as usize)),
            None => m,
        }
    }
}

/// The item a destination's entry shows to a client of `version`: its own
/// item where the client knows it, else paper.
pub open spec fn entry_item_id(version: ProtocolVersion, d: LobbyDestination, registry_item_id: Option<i32>, paper: i32) -> i32 {
    match item_id_for(version, legacy_item_id(d.item@), registry_item_id) {
        Some(id) => id,
        None => paper,
    }
}

/// What the registry holds for destination `i`'s item, if it was looked up.
pub open spec fn registry_entry(ids: Seq<Option<i32>>, i: int) -> Option<i32> {
    if 0 <= i < ids.len() { ids[i] } else { None }
}

/// The menu slot that shows destination `d` with item `item_id`: its name,
/// its hover lines and its glint.
pub open spec fn destination_slot(s: MenuSlot, d: LobbyDestination, item_id: i32) -> bool {
    &&& s.item_id == item_id
    &&& s.count == 1
    &&& s.display_name == Some(d.display_name)
    &&& s.lore@ == d.lore@
    &&& s.enchanted == d.enchanted
}

/// Slot `k` of a menu for `ds` shows what the placement gives it.
pub open spec fn menu_slot_ok(
    slot_map: Seq<Option<String>>,
    slots: Seq<MenuSlot>,
    ds: Seq<LobbyDestination>,
    version: ProtocolVersion,
    registry_item_ids: Seq<Option<i32>>,
    registry_paper_id: Option<i32>,
    k: int,
) -> bool {
    match menu_owners(ds)[k] {
        Some(i) => slot_map[k] == Some(ds[i as int].id.0) && destination_slot(
            slots[k],
            ds[i as int],
            entry_item_id(version, ds[i as int], registry_entry(registry_item_ids, i as int), paper_id(version, registry_paper_id)),
        ),
        None => slot_map[k].is_none() && slots[k].item_id == -1,
    }
}

proof fn lemma_owners_shape(ds: Seq<LobbyDestination>)
    ensures
        menu_owners(ds).len() == MENU_SIZE,
        forall|k: int| 0 <= k < MENU_SIZE ==> (#[trigger] menu_owners(ds)[k] matches Some(i) ==> i < ds.len()),
    decreases ds.len(),
{
    if ds.len() > 0 {
        let p = ds.drop_last();
        lemma_owners_shape(p);
        lemma_first_free_in_range(menu_owners(p), 0);
        let m = menu_owners(p);
        match target_slot(m, ds.last()) {
            Some(t) => {
                assert(0 <= t < m.len());
                assert forall|k: int| 0 <= k < MENU_SIZE implies (#[trigger] menu_owners(ds)[k] matches Some(i) ==> i < ds.len()) by {
                    if k != t {
                        assert(menu_owners(ds)[k] == m[k]);
                    }
                }
            },
            None => {},
        }
    } else {
        assert(menu_owners(ds).len() == MENU_SIZE);
    }
}

proof fn lemma_first_free_in_range(m: Seq<Option<usize>>, k: int)
    ensures
        first_free_from(m, k) matches Some(t) ==> 0 <= t < m.len() && m[t] is None,
    decreases m.len() - k,
{
    if 0 <= k < m.len() && m[k] is Some {
        lemma_first_free_in_range(m, k + 1);
    }
}

fn find_first_free(owners: &Vec<Option<usize>>) -> (r: Option<usize>)
    ensures
        match first_free_from(owners@, 0) {
            Some(t) => r == Some(t as usize),
            None => r.is_none(),
        },
{
    let mut k: usize = 0;
    while k < owners.len()
        invariant
            k <= owners@.len(),
            first_free_from(owners@, 0) == first_free_from(owners@, k as int),
        decreases owners.len() - k,
    {
        if owners[k].is_none() {
            return Some(k);
        }
        k = k + 1;
    }
    None
}

/// Law (menu placement): when no destination asks for a slot, destination
/// `i` fills slot `i`, for as many as the menu holds.
pub proof fn lemma_auto_placement(ds: Seq<LobbyDestination>)
    requires
        forall|i: int| 0 <= i < ds.len() ==> (#[trigger] ds[i]).slot is None,
    ensures
        forall|k: int| 0 <= k < MENU_SIZE ==> #[trigger] menu_owners(ds)[k] == if k < ds.len() {
            Some(k as usize)
        } else {
            None::<usize>
        },
    decreases ds.len(),
{
    if ds.len() > 0 {
        let p = ds.drop_last();
        assert forall|i: int| 0 <= i < p.len() implies (#[trigger] p[i]).slot is None by {
            assert(p[i] == ds[i]);
        }
        lemma_auto_placement(p);
        let m = menu_owners(p);
        lemma_owners_shape(p);
        let n = p.len() as int;
        lemma_first_free_filled(m, 0, n);
        assert(ds.last().slot is None);
        if n < MENU_SIZE {
            assert(menu_owners(ds) =~= m.update(n, Some(n as usize)));
        } else {
            assert(menu_owners(ds) == m);
        }
    }
}

proof fn lemma_first_free_filled(m: Seq<Option<usize>>, k: int, n: int)
    requires
        m.len() == MENU_SIZE,
        0 <= k,
        forall|j: int| 0 <= j < MENU_SIZE ==> #[trigger] m[j] == if j < n { Some(j as usize) } else { None::<usize> },
    ensures
        k <= n ==> first_free_from(m, k) == if n < MENU_SIZE { Some(n) } else { None::<int> },
    decreases MENU_SIZE - k,
{
    if k < n && k < MENU_SIZE {
        assert(m[k] == Some(k as usize));
        lemma_first_free_filled(m, k + 1, n);
    }
}

/// The menu a player sees on opening the selector: destinations are placed
/// in order, each at its explicit 0-based slot when that is in the menu and
/// still free, else in the first free slot; each entry shows the
/// destination's item (paper where the client does not know it), name,
/// hover lines and glint; slots left over stay empty.
pub fn build_selector_menu(
    window_id: u8,
    destinations: &Vec<LobbyDestination>,
    version: ProtocolVersion,
    registry_item_ids: &Vec<Option<i32>>,
    registry_paper_id: Option<i32>,
) -> (s: OpenSelectorState)
    ensures
        s.wf(),
        s.window_id == window_id,
        s.state_id == 1,
        forall|k: int| 0 <= k < MENU_SIZE ==> #[trigger] menu_slot_ok(s.slot_map@, s.slots@, destinations@, version,
            registry_item_ids@, registry_paper_id, k),
{
    let paper = resolve_paper_id(version, registry_paper_id);
    let mut owners: Vec<Option<usize>> = Vec::new();
    let mut k: usize = 0;
    while k < MENU_SIZE
        invariant
            k <= MENU_SIZE,
            owners@ == Seq::new(k as nat, |j: int| None::<usize>),
        decreases MENU_SIZE - k,
    {
        owners.push(None);
        assert(owners@ =~= Seq::new((k + 1) as nat, |j: int| None::<usize>));
        k = k + 1;
    }
    let mut i: usize = 0;
    while i < destinations.len()
        invariant
            i <= destinations@.len(),
            owners@ == menu_owners(destinations@.take(i as int)),
            owners@.len() == MENU_SIZE,
        decreases destinations.len() - i,
    {
        let ghost before = owners@;
        proof {
            let t = destinations@.take(i + 1);
            assert(t.drop_last() =~= destinations@.take(i as int));
            assert(t.last() == destinations@[i as int]);
            lemma_first_free_in_range(before, 0);
        }
        let d = &destinations[i];
        let mut target: Option<usize> = None;
        if let Some(sl) = d.slot {
            if sl < MENU_SIZE && owners[sl].is_none() {
                target = Some(sl);
            }
        }
        if target.is_none() {
            target = find_first_free(&owners);
        }
        if let Some(t) = target {
            owners.set(t, Some(i));
        }
        assert(owners@ =~= menu_owners(destinations@.take(i + 1)));
        i = i + 1;
    }
    assert(destinations@.take(destinations@.len() as int) =~= destinations@);
    proof {
        lemma_owners_shape(destinations@);
    }
    let mut slots: Vec<MenuSlot> = Vec::new();
    let mut slot_map: Vec<Option<String>> = Vec::new();
    let mut k: usize = 0;
    while k < MENU_SIZE
        invariant
            k <= MENU_SIZE,
            slots@.len() == k,
            slot_map@.len() == k,
            owners@ == menu_owners(destinations@),
            owners@.len() == MENU_SIZE,
            paper == paper_id(version, registry_paper_id),
            forall|j: int| 0 <= j < MENU_SIZE ==> (#[trigger] menu_owners(destinations@)[j] matches Some(x) ==> x < destinations@.len()),
            forall|j: int| 0 <= j < k ==> #[trigger] menu_slot_ok(slot_map@, slots@, destinations@, version,
                registry_item_ids@, registry_paper_id, j),
        decreases MENU_SIZE - k,
    {
        let ghost old_slots = slots@;
        let ghost old_map = slot_map@;
        match owners[k] {
            Some(di) => {
                assert(menu_owners(destinations@)[k as int] == Some(di));
                let d = &destinations[di];
                let registry: Option<i32> = if di < registry_item_ids.len() { registry_item_ids[di] } else { None };
                let item_id = match resolve_entry_item(version, d.item.as_str(), registry) {
                    Some(id) => id,
                    None => paper,
                };
                slots.push(MenuSlot {
                    item_id,
                    count: 1,
                    display_name: Some(d.display_name.clone()),
                    lore: copy_lines(&d.lore),
                    enchanted: d.enchanted,
                });
                slot_map.push(Some(d.id.0.clone()));
            },
            None => {
                slots.push(MenuSlot::empty());
                slot_map.push(None);
            },
        }
        assert forall|j: int| 0 <= j < k + 1 implies #[trigger] menu_slot_ok(slot_map@, slots@, destinations@, version,
            registry_item_ids@, registry_paper_id, j) by {
            if j < k {
                assert(menu_slot_ok(old_map, old_slots, destinations@, version, registry_item_ids@, registry_paper_id, j));
                assert(slots@[j] == old_slots[j]);
                assert(slot_map@[j] == old_map[j]);
            }
        }
        k = k + 1;
    }
    OpenSelectorState { window_id, state_id: 1, slot_map, slots }
}

/// The item ID of an entry's item for a client of `version`, given what the
/// version's item registry holds for it.
fn resolve_entry_item(version: ProtocolVersion, item: &str, registry_item_id: Option<i32>) -> (r: Option<i32>)
    ensures
        r == item_id_for(version, legacy_item_id(item@), registry_item_id),
{
    if version.is_before_inclusive(ProtocolVersion::V1_12_2) {
        legacy_item_id_for(item)
    } else {
        registry_item_id
    }
}

/// The transaction answer a pre-1.13 client expects for a refused click.
#[derive(Debug, Clone, Copy, PartialEq, Eq, Structural)]
pub struct ConfirmTransaction {
    pub window_id: u8,
    pub action_number: i16,
    pub accepted: bool,
}

/// Clients up to 1.12.2 are told that the click was refused.
pub fn legacy_reject_click(version: ProtocolVersion, click: &ClickContainer) -> (r: Option<ConfirmTransaction>)
    ensures
        pre_flattening(version) ==> r == Some(ConfirmTransaction {
            window_id: click.window_id,
            action_number: click.action_number,
            accepted: false,
        }),
        !pre_flattening(version) ==> r.is_none(),
{
    if version.is_before_inclusive(ProtocolVersion::V1_12_2) {
        Some(ConfirmTransaction { window_id: click.window_id, action_number: click.action_number, accepted: false })
    } else {
        None
    }
}

} // verus!
