use vstd::prelude::*;
use crate::protocol::ProtocolVersion;
use crate::navigation::{LobbyDestination, NavigationError, resolve_destination};
use crate::client::{ClientState, ClientView};
use crate::selector::{
    ClickContainer, ConfirmTransaction, LobbySelector, MenuSlot, OpenSelectorState, SelectorClick,
    build_selector_menu, click_outcome, copy_line, copy_lines, legacy_reject_click, menu_slot_ok,
    pre_flattening, MENU_SIZE,
};

verus! {

/// What the server does in answer to a selector interaction, in order.
#[derive(Debug)]
pub enum SelectorAction {
    /// Tell a pre-1.13 client its click was refused.
    Confirm(ConfirmTransaction),
    /// Ask the proxy to move the player to `server`.
    Connect { server: String },
    /// Close the container window.
    CloseContainer { window_id: u8 },
    /// Open the selector window with a MiniMessage title.
    OpenScreen { window_id: u8, title: String },
    /// Send the window's full contents.
    SetContainerContent { window_id: u8, state_id: i32, slots: Vec<MenuSlot> },
    /// A chat line shown to the player only.
    Feedback { message: String },
}

/// Two slots show the same item.
pub open spec fn same_slot(a: MenuSlot, b: MenuSlot) -> bool {
    &&& a.item_id == b.item_id
    &&& a.count == b.count
    &&& a.display_name == b.display_name
    &&& a.lore@ == b.lore@
    &&& a.enchanted == b.enchanted
}

/// Two slot lists show the same items.
pub open spec fn same_slots(a: Seq<MenuSlot>, b: Seq<MenuSlot>) -> bool {
    a.len() == b.len() && forall|i: int| 0 <= i < a.len() ==> same_slot(#[trigger] a[i], b[i])
}

/// A copy of a slot.
pub fn copy_slot(s: &MenuSlot) -> (r: MenuSlot)
    ensures
        same_slot(r, *s),
{
    MenuSlot {
        item_id: s.item_id,
        count: s.count,
        display_name: copy_line(&s.display_name),
        lore: copy_lines(&s.lore),
        enchanted: s.enchanted,
    }
}

/// A copy of a slot list.
pub fn copy_slots(slots: &Vec<MenuSlot>) -> (r: Vec<MenuSlot>)
    ensures
        same_slots(r@, slots@),
{
    let mut r: Vec<MenuSlot> = Vec::new();
    let mut i: usize = 0;
    while i < slots.len()
        invariant
            i <= slots@.len(),
            r@.len() == i,
            forall|j: int| 0 <= j < i ==> same_slot(#[trigger] r@[j], slots@[j]),
        decreases slots.len() - i,
    {
        r.push(copy_slot(&slots[i]));
        i = i + 1;
    }
    r
}

/// Number of refusal answers that precede the others for a client of `v`.
pub open spec fn confirm_count(v: ProtocolVersion) -> int {
    if pre_flattening(v) { 1 } else { 0 }
}

/// `a` starts with the refusal a pre-1.13 client expects for `click`, and
/// with nothing for a later client.
pub open spec fn starts_with_refusal(a: Seq<SelectorAction>, v: ProtocolVersion, click: ClickContainer) -> bool {
    pre_flattening(v) ==> a.len() >= 1 && a[0] == SelectorAction::Confirm(ConfirmTransaction {
        window_id: click.window_id,
        action_number: click.action_number,
        accepted: false,
    })
}

/// The menu `s` after a resync: its state counter moved on by one.
pub open spec fn resynced_menu(s: OpenSelectorState) -> OpenSelectorState {
    OpenSelectorState { state_id: (s.state_id + 1) as i32, ..s }
}

/// `a` holds, from index `k` on, the full contents of menu `s`.
pub open spec fn content_at(a: Seq<SelectorAction>, k: int, s: OpenSelectorState) -> bool {
    0 <= k < a.len() && (a[k] matches SelectorAction::SetContainerContent { window_id, state_id, slots }
        && window_id == s.window_id && state_id == s.state_id && same_slots(slots@, s.slots@))
}

/// The answer to a click that needs a resync of menu `s`: the refusal, if
/// any, then the contents of the resynced menu.
pub open spec fn resync_answer(a: Seq<SelectorAction>, v: ProtocolVersion, click: ClickContainer, s: OpenSelectorState) -> bool {
    &&& starts_with_refusal(a, v, click)
    &&& content_at(a, confirm_count(v), resynced_menu(s))
}

/// The destination a player chose is `ds[i]`: the first with that ID.
pub open spec fn chosen(ds: Seq<LobbyDestination>, id: Seq<char>, i: int) -> bool {
    0 <= i < ds.len() && ds[i].id.0@ == id && forall|j: int| 0 <= j < i ==> (#[trigger] ds[j]).id.0@ != id
}

/// The server's answer to a menu click, and what becomes of the open menu.
pub open spec fn click_answer(
    before: ClientState,
    after: ClientState,
    a: Seq<SelectorAction>,
    click: ClickContainer,
    destinations: Seq<LobbyDestination>,
) -> bool {
    let v = before.protocol_version_spec().unwrap();
    match before.open_selector_spec() {
        None => a.len() == 0 && after == before,
        Some(s) => if s.window_id != click.window_id {
            a.len() == 0 && after == before
        } else {
            match click_outcome(s.state_id, s.slot_map@, click, v) {
                SelectorClick::Ignored => a.len() == 0 && after == before,
                SelectorClick::RequiresResync => {
                    &&& after == before.with_open_selector(Some(resynced_menu(s)))
                    &&& a.len() == confirm_count(v) + 1
                    &&& resync_answer(a, v, click, s)
                },
                SelectorClick::Select { slot_index } => {
                    let id = s.slot_map@[slot_index as int].unwrap()@;
                    if exists|i: int| chosen(destinations, id, i) {
                        let i = choose|i: int| chosen(destinations, id, i);
                        &&& after == before.with_open_selector(None)
                        &&& a.len() == confirm_count(v) + 2
                        &&& starts_with_refusal(a, v, click)
                        &&& a[confirm_count(v)] matches SelectorAction::Connect { server }
                            && server@ == destinations[i].server@
                        &&& a[confirm_count(v) + 1] == SelectorAction::CloseContainer { window_id: s.window_id }
                    } else {
                        &&& after == before.with_open_selector(Some(resynced_menu(s)))
                        &&& a.len() == confirm_count(v) + 2
                        &&& resync_answer(a, v, click, s)
                        &&& a[confirm_count(v) + 1] matches SelectorAction::Feedback { message }
                            && message@ == "Unknown server: "@ + id
                    }
                },
            }
        },
    }
}

/// Resyncs the open menu after a refused click: the state counter moves on
/// and the client is sent the refusal, if its version expects one, and the
/// full contents again.
fn resync(client: &mut ClientState, click: &ClickContainer, version: ProtocolVersion, actions: &mut Vec<SelectorAction>)
    requires
        old(client).wf(),
        old(client).open_selector_spec() matches Some(s) && s.state_id < i32::MAX,
        old(actions)@.len() == 0,
    ensures
        final(client).wf(),
        *final(client) == old(client).with_open_selector(Some(resynced_menu(old(client).open_selector_spec().unwrap()))),
        final(actions)@.len() == confirm_count(version) + 1,
        resync_answer(final(actions)@, version, *click, old(client).open_selector_spec().unwrap()),
{
    let ghost before = *client;
    let mut s = client.take_open_selector().unwrap();
    s.state_id = s.state_id + 1;
    assert(s == resynced_menu(before.open_selector_spec().unwrap()));
    if let Some(confirm) = legacy_reject_click(version, click) {
        actions.push(SelectorAction::Confirm(confirm));
    }
    let slots = copy_slots(&s.slots);
    actions.push(SelectorAction::SetContainerContent { window_id: s.window_id, state_id: s.state_id, slots });
    client.set_open_selector(s);
    proof {
        before.lemma_with_open_selector(None, Some(resynced_menu(before.open_selector_spec().unwrap())));
    }
}

/// Handles a click in a container window while the selector may be open:
/// a click on a destination sends the player there and closes the menu; an
/// unknown destination or an unsupported click resyncs the menu; a click
/// outside the window, or into another window, changes nothing.
pub fn handle_selector_click(client: &mut ClientState, click: &ClickContainer, destinations: &Vec<LobbyDestination>) -> (a: Vec<SelectorAction>)
    requires
        old(client).wf(),
        old(client).protocol_version_spec().is_some(),
        old(client).open_selector_spec() matches Some(s) ==> s.wf() && s.state_id < i32::MAX,
    ensures
        final(client).wf(),
        click_answer(*old(client), *final(client), a@, *click, destinations@),
{
    let mut actions: Vec<SelectorAction> = Vec::new();
    let version = client.protocol_version().unwrap();
    let outcome = match client.open_selector() {
        None => return actions,
        Some(s) => {
            if s.window_id != click.window_id {
                return actions;
            }
            s.classify(click, version)
        },
    };
    match outcome {
        SelectorClick::Ignored => actions,
        SelectorClick::RequiresResync => {
            resync(client, click, version, &mut actions);
            actions
        },
        SelectorClick::Select { slot_index } => {
            let ghost s = client.open_selector_spec().unwrap();
            let id: String = match client.open_selector() {
                Some(s) => s.slot_map[slot_index].clone().unwrap(),
                None => return actions,
            };
            assert(id@ == s.slot_map@[slot_index as int].unwrap()@);
            match resolve_destination(destinations, id.as_str()) {
                Ok(i) => {
                    assert(chosen(destinations@, id@, i as int));
                    proof {
                        let c = choose|i: int| chosen(destinations@, id@, i);
                        assert(chosen(destinations@, id@, c));
                        assert(c == i as int) by {
                            if c < i as int {
                                assert(destinations@[c].id.0@ != id@);
                            } else if c > i as int {
                                assert(destinations@[i as int].id.0@ != id@);
                            }
                        }
                    }
                    let taken = client.take_open_selector().unwrap();
                    if let Some(confirm) = legacy_reject_click(version, click) {
                        actions.push(SelectorAction::Confirm(confirm));
                    }
                    actions.push(SelectorAction::Connect { server: destinations[i].server.clone() });
                    actions.push(SelectorAction::CloseContainer { window_id: taken.window_id });
                    actions
                },
                Err(NavigationError::UnknownDestination(_)) => {
                    assert(!exists|i: int| chosen(destinations@, id@, i));
                    resync(client, click, version, &mut actions);
                    let message = "Unknown server: ".to_string().concat(id.as_str());
                    actions.push(SelectorAction::Feedback { message });
                    actions
                },
            }
        },
    }
}

/// What opening the selector from the hotbar does.
pub open spec fn open_answer(
    before: ClientState,
    after: ClientState,
    a: Seq<SelectorAction>,
    selector: Option<LobbySelector>,
    destinations: Seq<LobbyDestination>,
    registry_item_ids: Seq<Option<i32>>,
    registry_paper_id: Option<i32>,
) -> bool {
    let v = before.protocol_version_spec().unwrap();
    if selector is None || before.selected_hotbar_slot_spec() != selector.unwrap().hotbar_slot_spec()
        || destinations.len() == 0 {
        a.len() == 0 && after == before
    } else {
        let closes = if before.open_selector_spec() is Some { 1int } else { 0int };
        let window_id = before.next_window_id_spec();
        &&& after.next_window_id_spec() == crate::client::next_window_id_after(window_id)
        &&& after@ == (ClientView { next_window_id: after@.next_window_id, open_selector: after@.open_selector, ..before@ })
        &&& after.open_selector_spec() matches Some(m) && m.wf() && m.window_id == window_id && m.state_id == 1
            && forall|k: int| 0 <= k < MENU_SIZE ==> #[trigger] menu_slot_ok(m.slot_map@, m.slots@, destinations, v,
                registry_item_ids, registry_paper_id, k)
        &&& a.len() == closes + 2
        &&& (before.open_selector_spec() matches Some(old_menu)
            ==> a[0] == SelectorAction::CloseContainer { window_id: old_menu.window_id })
        &&& a[closes] matches SelectorAction::OpenScreen { window_id: w, title }
            && w == window_id && title@ == match selector.unwrap().display_name_spec() {
                Some(d) => d@,
                None => crate::selector::DEFAULT_SELECTOR_TITLE@,
            }
        &&& a[closes + 1] matches SelectorAction::SetContainerContent { window_id: w, state_id, slots }
            && w == window_id && state_id == 1
            && (after.open_selector_spec() matches Some(m) && same_slots(slots@, m.slots@))
    }
}

/// Opens the server selector when the player uses the item in the
/// selector's hotbar slot and there is somewhere to go: a menu already open
/// is closed first, and the new one gets a fresh window ID.
pub fn open_selector_for_selected_slot(
    client: &mut ClientState,
    selector: Option<&LobbySelector>,
    destinations: &Vec<LobbyDestination>,
    registry_item_ids: &Vec<Option<i32>>,
    registry_paper_id: Option<i32>,
) -> (a: Vec<SelectorAction>)
    requires
        old(client).wf(),
        old(client).protocol_version_spec().is_some(),
    ensures
        final(client).wf(),
        open_answer(*old(client), *final(client), a@, match selector {
            Some(s) => Some(*s),
            None => None,
        }, destinations@, registry_item_ids@, registry_paper_id),
{
    let mut actions: Vec<SelectorAction> = Vec::new();
    let selector = match selector {
        Some(s) => s,
        None => return actions,
    };
    if client.selected_hotbar_slot() != selector.hotbar_slot() {
        return actions;
    }
    if destinations.len() == 0 {
        return actions;
    }
    let version = client.protocol_version().unwrap();
    if let Some(old_menu) = client.take_open_selector() {
        actions.push(SelectorAction::CloseContainer { window_id: old_menu.window_id });
    }
    let window_id = client.allocate_window_id();
    let state = build_selector_menu(window_id, destinations, version, registry_item_ids, registry_paper_id);
    let title = selector.menu_title();
    actions.push(SelectorAction::OpenScreen { window_id, title });
    let slots = copy_slots(&state.slots);
    actions.push(SelectorAction::SetContainerContent { window_id, state_id: state.state_id, slots });
    client.set_open_selector(state);
    actions
}

} // verus!
