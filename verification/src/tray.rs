//! The system-tray model: what the tray shows and how it reacts.
//!
//! The tray renders a [`Snapshot`] of the daemon: connection state, this
//! machine, and the configured tailnets with the active one marked. Its menu
//! is described here as a list of [`MenuEntry`] values, which the program
//! turns into StatusNotifierItem menu items; clicks come back as commands
//! that the program carries out against the daemon, using the decisions
//! below.

use vstd::prelude::*;
use vstd::string::*;
use crate::localapi::{LiveState, Profile, Status, profile_label};
use crate::text::{is_empty_str, push_str, str_eq};

verus! {

/// The slice of daemon state that the tray renders.
#[derive(Debug)]
pub struct Snapshot {
    pub online: bool,
    pub exit_node_active: bool,
    pub machine: String,
    pub address: String,
    pub tailnets: Vec<Profile>,
    pub current_id: String,
}

/// The profiles of `ps` that are not the empty placeholder, in order.
pub open spec fn real_profiles(ps: Seq<Profile>) -> Seq<Profile>
    decreases ps.len(),
{
    if ps.len() == 0 {
        Seq::empty()
    } else {
        let r = real_profiles(ps.drop_last());
        if ps.last().id@.len() == 0 {
            r
        } else {
            r.push(ps.last())
        }
    }
}

/// The profiles of `ps` that are not the empty placeholder, in order.
pub fn keep_real_profiles(ps: Vec<Profile>) -> (r: Vec<Profile>)
    ensures
        r@ == real_profiles(ps@),
{
    let mut out: Vec<Profile> = Vec::new();
    let mut i: usize = 0;
    while i < ps.len()
        invariant
            i <= ps@.len(),
            out@ == real_profiles(ps@.subrange(0, i as int)),
        decreases ps@.len() - i,
    {
        let ghost pre = ps@.subrange(0, i as int);
        assert(ps@.subrange(0, i + 1).drop_last() =~= pre);
        if !ps[i].is_empty() {
            out.push(ps[i].clone());
        }
        i = i + 1;
    }
    assert(ps@.subrange(0, ps@.len() as int) =~= ps@);
    out
}

/// The hostname of the status's own node, or empty.
pub open spec fn status_machine(status: Option<&Status>) -> Seq<char> {
    match status {
        Some(st) => match st.self_node {
            Some(n) => n.hostname@,
            None => Seq::empty(),
        },
        None => Seq::empty(),
    }
}

/// The first Tailscale address of the status, or empty.
pub open spec fn status_address(status: Option<&Status>) -> Seq<char> {
    match status {
        Some(st) => if st.tailscale_ips@.len() > 0 {
            st.tailscale_ips@[0]@
        } else {
            Seq::empty()
        },
        None => Seq::empty(),
    }
}

/// The ID of the current profile, or empty.
pub open spec fn current_id_of(current: Option<Profile>) -> Seq<char> {
    match current {
        Some(p) => p.id@,
        None => Seq::empty(),
    }
}

/// The index of the first tailnet of `ts` whose ID is `id`.
pub open spec fn index_of_id_from(ts: Seq<Profile>, id: Seq<char>, i: int) -> Option<int>
    decreases ts.len() - i,
{
    if i < 0 || i >= ts.len() {
        None
    } else if ts[i].id@ == id {
        Some(i)
    } else {
        index_of_id_from(ts, id, i + 1)
    }
}

/// The index of the first tailnet of `ts` whose ID is `id`.
pub open spec fn index_of_id(ts: Seq<Profile>, id: Seq<char>) -> Option<int> {
    index_of_id_from(ts, id, 0)
}

proof fn lemma_index_of_id_skip(ts: Seq<Profile>, id: Seq<char>, i: int)
    requires
        0 <= i <= ts.len(),
        forall|j: int| 0 <= j < i ==> #[trigger] ts[j].id@ != id,
    ensures
        index_of_id(ts, id) == index_of_id_from(ts, id, i),
    decreases i,
{
    if i > 0 {
        lemma_index_of_id_skip(ts, id, i - 1);
    }
}

/// What the first occurrence of an ID in a list of tailnets says.
pub proof fn lemma_index_of_id(ts: Seq<Profile>, id: Seq<char>, i: int)
    requires
        0 <= i,
    ensures
        index_of_id_from(ts, id, i) matches Some(k) ==> i <= k < ts.len() && ts[k].id@ == id,
        index_of_id_from(ts, id, i) is None ==> forall|j: int|
            i <= j < ts.len() ==> #[trigger] ts[j].id@ != id,
    decreases ts.len() - i,
{
    if i < ts.len() && ts[i].id@ != id {
        lemma_index_of_id(ts, id, i + 1);
    }
}

/// The position of the tailnet whose ID is `id` in `ts`, if any.
pub fn find_tailnet_by_id(ts: &Vec<Profile>, id: &str) -> (r: Option<usize>)
    ensures
        r matches Some(k) ==> index_of_id(ts@, id@) == Some(k as int),
        r is None ==> index_of_id(ts@, id@) is None,
{
    let mut i: usize = 0;
    while i < ts.len()
        invariant
            i <= ts@.len(),
            forall|j: int| 0 <= j < i ==> #[trigger] ts@[j].id@ != id@,
        decreases ts@.len() - i,
    {
        if str_eq(ts[i].id.as_str(), id) {
            proof {
                lemma_index_of_id_skip(ts@, id@, i as int);
            }
            return Some(i);
        }
        i = i + 1;
    }
    proof {
        lemma_index_of_id_skip(ts@, id@, i as int);
    }
    None
}

impl Snapshot {
    /// The snapshot made from the daemon's answers to the status, profile
    /// list and current-profile requests, each `None` when that request
    /// failed. A failed call degrades to an empty or offline field, so the
    /// tray keeps running while the daemon is down. The exit-node state
    /// arrives with the first live delta.
    pub fn fetch(status: Option<&Status>, profiles: Option<Vec<Profile>>, current: Option<Profile>) -> (s:
        Snapshot)
        ensures
            s.online == (status matches Some(st) && st.backend_state@ == "Running"@),
            !s.exit_node_active,
            s.machine@ == status_machine(status),
            s.address@ == status_address(status),
            s.tailnets@ == real_profiles(
                match profiles {
                    Some(ps) => ps@,
                    None => Seq::empty(),
                },
            ),
            s.current_id@ == current_id_of(current),
    {
        let online = match status {
            Some(st) => st.online(),
            None => false,
        };
        let machine = match status {
            Some(st) => match &st.self_node {
                Some(n) => n.hostname.clone(),
                None => String::new(),
            },
            None => String::new(),
        };
        let address = match status {
            Some(st) => if st.tailscale_ips.len() > 0 {
                st.tailscale_ips[0].clone()
            } else {
                String::new()
            },
            None => String::new(),
        };
        let tailnets = match profiles {
            Some(ps) => keep_real_profiles(ps),
            None => {
                let empty: Vec<Profile> = Vec::new();
                assert(empty@ =~= Seq::<Profile>::empty());
                keep_real_profiles(empty)
            },
        };
        let current_id = match current {
            Some(p) => p.id,
            None => String::new(),
        };
        Snapshot { online, exit_node_active: false, machine, address, tailnets, current_id }
    }

    /// Applies a live delta from the IPN bus: connection and exit-node state
    /// always, machine and address only when the delta knows them.
    pub fn apply_live(&mut self, live: LiveState)
        ensures
            live_applied(*old(self), *final(self), live),
    {
        self.online = live.online;
        self.exit_node_active = live.exit_node_active;
        if !is_empty_str(live.machine.as_str()) {
            self.machine = live.machine;
        }
        if !is_empty_str(live.address.as_str()) {
            self.address = live.address;
        }
    }
}

/// What applying the live delta `live` makes of the snapshot `before`:
/// connection and exit-node state always, machine and address only when the
/// delta knows them, the tailnets as they were.
pub open spec fn live_applied(before: Snapshot, after: Snapshot, live: LiveState) -> bool {
    &&& after.online == live.online
    &&& after.exit_node_active == live.exit_node_active
    &&& after.machine@ == (if live.machine@.len() != 0 {
        live.machine@
    } else {
        before.machine@
    })
    &&& after.address@ == (if live.address@.len() != 0 {
        live.address@
    } else {
        before.address@
    })
    &&& after.tailnets == before.tailnets
    &&& after.current_id == before.current_id
}

/// The tray's state: the snapshot, and whether an upgrade of the program was
/// found on disk.
#[derive(Debug)]
pub struct TrayState {
    pub snap: Snapshot,
    pub upgrade_available: bool,
}

/// Which icon the tray shows.
#[derive(Debug, Clone, Copy, PartialEq, Eq)]
pub enum TrayIcon {
    Disconnected,
    ExitNode,
    Connected,
}

/// One entry of the tray menu.
#[derive(Debug)]
pub enum MenuEntry {
    /// A greyed, non-interactive line.
    Label(String),
    Separator,
    /// "Restart to update", shown once an upgrade is on disk.
    RestartToUpdate,
    /// One configured tailnet; the active one is marked and does nothing
    /// when clicked.
    Tailnet { label: String, id: String, active: bool },
    /// Connect or disconnect.
    Connection { label: String },
    OpenWindow,
    /// The "About" submenu.
    About,
    Quit,
}

/// A menu entry as values.
pub enum MenuView {
    Label(Seq<char>),
    Separator,
    RestartToUpdate,
    Tailnet(Seq<char>, Seq<char>, bool),
    Connection(Seq<char>),
    OpenWindow,
    About,
    Quit,
}

/// The value of a menu entry.
pub open spec fn entry_view(e: MenuEntry) -> MenuView {
    match e {
        MenuEntry::Label(s) => MenuView::Label(s@),
        MenuEntry::Separator => MenuView::Separator,
        MenuEntry::RestartToUpdate => MenuView::RestartToUpdate,
        MenuEntry::Tailnet { label, id, active } => MenuView::Tailnet(label@, id@, active),
        MenuEntry::Connection { label } => MenuView::Connection(label@),
        MenuEntry::OpenWindow => MenuView::OpenWindow,
        MenuEntry::About => MenuView::About,
        MenuEntry::Quit => MenuView::Quit,
    }
}

/// The values of a list of menu entries.
pub open spec fn entries_view(es: Seq<MenuEntry>) -> Seq<MenuView> {
    es.map_values(|e: MenuEntry| entry_view(e))
}

/// The label of the tailnet marked active, if the current ID names one.
pub open spec fn current_label_spec(s: Snapshot) -> Option<Seq<char>> {
    match index_of_id(s.tailnets@, s.current_id@) {
        Some(i) => Some(profile_label(s.tailnets@[i])),
        None => None,
    }
}

/// "machine — tailnet", or whichever of the two is known.
pub open spec fn machine_line_spec(s: Snapshot) -> Seq<char> {
    match current_label_spec(s) {
        Some(t) => if s.machine@.len() != 0 {
            s.machine@ + " — "@ + t
        } else {
            t
        },
        None => s.machine@,
    }
}

/// The top line of the menu: machine and connection state.
pub open spec fn header_line_spec(s: Snapshot) -> Seq<char> {
    if s.online {
        if s.machine@.len() == 0 {
            "Connected"@
        } else {
            s.machine@ + " — Connected"@
        }
    } else {
        "Disconnected"@
    }
}

/// The tooltip text: machine line and address when online.
pub open spec fn tool_tip_spec(s: Snapshot) -> Seq<char> {
    if s.online {
        if s.address@.len() != 0 {
            machine_line_spec(s) + "\n"@ + s.address@
        } else {
            machine_line_spec(s)
        }
    } else {
        "Disconnected"@
    }
}

/// The label of a tailnet's menu entry: a check mark on the active one, a
/// blank in the same column otherwise.
pub open spec fn tailnet_entry_label(label: Seq<char>, active: bool) -> Seq<char> {
    (if active {
        "✓"@
    } else {
        " "@
    }) + "  "@ + label
}

/// The switcher entries for `ts`, given the current ID.
pub open spec fn tailnet_entries(ts: Seq<Profile>, current: Seq<char>) -> Seq<MenuView> {
    Seq::new(
        ts.len(),
        |i: int|
            MenuView::Tailnet(
                tailnet_entry_label(profile_label(ts[i]), ts[i].id@ == current),
                ts[i].id@,
                ts[i].id@ == current,
            ),
    )
}

/// The whole tray menu.
pub open spec fn menu_spec(t: TrayState) -> Seq<MenuView> {
    let head = seq![MenuView::Label(header_line_spec(t.snap)), MenuView::Separator];
    let upgrade = if t.upgrade_available {
        seq![MenuView::RestartToUpdate, MenuView::Separator]
    } else {
        Seq::empty()
    };
    let switcher = if t.snap.tailnets@.len() > 0 {
        seq![MenuView::Label("Switch tailnet"@)] + tailnet_entries(
            t.snap.tailnets@,
            t.snap.current_id@,
        ) + seq![MenuView::Separator]
    } else {
        Seq::empty()
    };
    let conn = MenuView::Connection(
        if t.snap.online {
            "Disconnect"@
        } else {
            "Connect"@
        },
    );
    head + upgrade + switcher + seq![
        conn,
        MenuView::OpenWindow,
        MenuView::Separator,
        MenuView::About,
        MenuView::Quit,
    ]
}

impl TrayState {
    /// The label of the active tailnet, if it is among the configured ones.
    pub fn current_label(&self) -> (r: Option<String>)
        ensures
            r is Some <==> current_label_spec(self.snap) is Some,
            r matches Some(t) ==> current_label_spec(self.snap) == Some(t@),
    {
        match find_tailnet_by_id(&self.snap.tailnets, self.snap.current_id.as_str()) {
            Some(i) => {
                proof {
                    lemma_index_of_id(self.snap.tailnets@, self.snap.current_id@, 0);
                }
                Some(self.snap.tailnets[i].label())
            },
            None => None,
        }
    }

    /// "machine — tailnet", or whichever of the two is known.
    pub fn machine_line(&self) -> (r: String)
        ensures
            r@ == machine_line_spec(self.snap),
    {
        match self.current_label() {
            Some(t) => if !is_empty_str(self.snap.machine.as_str()) {
                let mut s = self.snap.machine.clone();
                push_str(&mut s, " — ");
                push_str(&mut s, t.as_str());
                s
            } else {
                t
            },
            None => self.snap.machine.clone(),
        }
    }

    /// The top line of the menu: machine and connection state. The tailnet
    /// is shown, marked, in the switcher below.
    pub fn header_line(&self) -> (r: String)
        ensures
            r@ == header_line_spec(self.snap),
    {
        if self.snap.online {
            if is_empty_str(self.snap.machine.as_str()) {
                String::from_str("Connected")
            } else {
                let mut s = self.snap.machine.clone();
                push_str(&mut s, " — Connected");
                s
            }
        } else {
            String::from_str("Disconnected")
        }
    }

    /// The tooltip description: machine line and address when online,
    /// "Disconnected" otherwise.
    pub fn tool_tip(&self) -> (r: String)
        ensures
            r@ == tool_tip_spec(self.snap),
    {
        if self.snap.online {
            let mut d = self.machine_line();
            if !is_empty_str(self.snap.address.as_str()) {
                push_str(&mut d, "\n");
                push_str(&mut d, self.snap.address.as_str());
            }
            d
        } else {
            String::from_str("Disconnected")
        }
    }

    /// The icon: disconnected, routing through an exit node, or connected.
    pub fn icon(&self) -> (r: TrayIcon)
        ensures
            r == (if !self.snap.online {
                TrayIcon::Disconnected
            } else if self.snap.exit_node_active {
                TrayIcon::ExitNode
            } else {
                TrayIcon::Connected
            }),
    {
        if !self.snap.online {
            TrayIcon::Disconnected
        } else if self.snap.exit_node_active {
            TrayIcon::ExitNode
        } else {
            TrayIcon::Connected
        }
    }

    /// The tray menu, top to bottom.
    pub fn menu(&self) -> (r: Vec<MenuEntry>)
        ensures
            entries_view(r@) == menu_spec(*self),
    {
        let ghost t = *self;
        let mut items: Vec<MenuEntry> = Vec::new();
        items.push(MenuEntry::Label(self.header_line()));
        items.push(MenuEntry::Separator);
        let ghost head = seq![MenuView::Label(header_line_spec(t.snap)), MenuView::Separator];
        assert(entries_view(items@) =~= head);
        if self.upgrade_available {
            items.push(MenuEntry::RestartToUpdate);
            items.push(MenuEntry::Separator);
        }
        let ghost upgrade = if t.upgrade_available {
            seq![MenuView::RestartToUpdate, MenuView::Separator]
        } else {
            Seq::empty()
        };
        assert(entries_view(items@) =~= head + upgrade);
        let ghost before = entries_view(items@);
        if self.snap.tailnets.len() > 0 {
            items.push(MenuEntry::Label(String::from_str("Switch tailnet")));
            let ghost start = entries_view(items@);
            assert(start =~= before.push(MenuView::Label("Switch tailnet"@)));
            let ts = &self.snap.tailnets;
            let cur = self.snap.current_id.as_str();
            let mut i: usize = 0;
            while i < ts.len()
                invariant
                    i <= ts@.len(),
                    ts@ == t.snap.tailnets@,
                    cur@ == t.snap.current_id@,
                    entries_view(items@) == start + tailnet_entries(ts@, cur@).subrange(0, i as int),
                decreases ts@.len() - i,
            {
                let active = str_eq(ts[i].id.as_str(), cur);
                let mut label = if active {
                    String::from_str("✓")
                } else {
                    String::from_str(" ")
                };
                push_str(&mut label, "  ");
                let name = ts[i].label();
                push_str(&mut label, name.as_str());
                let ghost before_push = items@;
                items.push(MenuEntry::Tailnet { label, id: ts[i].id.clone(), active });
                assert(entries_view(items@) =~= entries_view(before_push).push(
                    tailnet_entries(ts@, cur@)[i as int],
                ));
                assert(tailnet_entries(ts@, cur@).subrange(0, i + 1) =~= tailnet_entries(
                    ts@,
                    cur@,
                ).subrange(0, i as int).push(tailnet_entries(ts@, cur@)[i as int]));
                i = i + 1;
            }
            assert(tailnet_entries(ts@, cur@).subrange(0, ts@.len() as int) =~= tailnet_entries(
                ts@,
                cur@,
            ));
            let ghost before_sep = items@;
            items.push(MenuEntry::Separator);
            assert(entries_view(items@) =~= entries_view(before_sep).push(MenuView::Separator));
            assert(entries_view(items@) =~= before + (seq![MenuView::Label("Switch tailnet"@)]
                + tailnet_entries(ts@, cur@) + seq![MenuView::Separator]));
        }
        let ghost switcher = if t.snap.tailnets@.len() > 0 {
            seq![MenuView::Label("Switch tailnet"@)] + tailnet_entries(
                t.snap.tailnets@,
                t.snap.current_id@,
            ) + seq![MenuView::Separator]
        } else {
            Seq::empty()
        };
        assert(entries_view(items@) =~= head + upgrade + switcher);
        let label = if self.snap.online {
            String::from_str("Disconnect")
        } else {
            String::from_str("Connect")
        };
        items.push(MenuEntry::Connection { label });
        items.push(MenuEntry::OpenWindow);
        items.push(MenuEntry::Separator);
        items.push(MenuEntry::About);
        items.push(MenuEntry::Quit);
        assert(entries_view(items@) =~= menu_spec(t));
        items
    }

    /// Marks `id` as the current tailnet right away when it is picked in the
    /// menu; the refresh after the switch confirms it.
    pub fn select_tailnet(&mut self, id: String)
        ensures
            final(self).snap.current_id == id,
            final(self).snap.online == old(self).snap.online,
            final(self).snap.exit_node_active == old(self).snap.exit_node_active,
            final(self).snap.machine == old(self).snap.machine,
            final(self).snap.address == old(self).snap.address,
            final(self).snap.tailnets == old(self).snap.tailnets,
            final(self).upgrade_available == old(self).upgrade_available,
    {
        self.snap.current_id = id;
    }

    /// Takes in a re-polled profile list (`None` when the request failed,
    /// read as no tailnets) and current profile (`None` when that request
    /// failed, which keeps the current ID).
    pub fn refresh_profiles(&mut self, profiles: Option<Vec<Profile>>, current: Option<Profile>)
        ensures
            final(self).snap.tailnets@ == real_profiles(
                match profiles {
                    Some(ps) => ps@,
                    None => Seq::empty(),
                },
            ),
            final(self).snap.current_id@ == (match current {
                Some(p) => p.id@,
                None => old(self).snap.current_id@,
            }),
            final(self).snap.online == old(self).snap.online,
            final(self).snap.exit_node_active == old(self).snap.exit_node_active,
            final(self).snap.machine == old(self).snap.machine,
            final(self).snap.address == old(self).snap.address,
            final(self).upgrade_available == old(self).upgrade_available,
    {
        let tailnets = match profiles {
            Some(ps) => keep_real_profiles(ps),
            None => {
                let empty: Vec<Profile> = Vec::new();
                assert(empty@ =~= Seq::<Profile>::empty());
                keep_real_profiles(empty)
            },
        };
        self.snap.tailnets = tailnets;
        if let Some(p) = current {
            self.snap.current_id = p.id;
        }
    }

    /// Records that an upgraded program is on disk.
    pub fn mark_upgrade_available(&mut self)
        ensures
            final(self).upgrade_available,
            final(self).snap == old(self).snap,
    {
        self.upgrade_available = true;
    }
}

/// The notification after a tailnet switch: the new tailnet's label when the
/// switch succeeded and the daemon names a real current profile.
pub open spec fn switch_notice_spec(switched: bool, current: Option<Profile>) -> Seq<char> {
    if switched {
        match current {
            Some(p) => if p.id@.len() != 0 {
                "Switched to "@ + profile_label(p)
            } else {
                "Switched tailnet"@
            },
            None => "Switched tailnet"@,
        }
    } else {
        "Couldn’t switch tailnet"@
    }
}

/// The notification text after a tailnet switch.
pub fn switch_notice(switched: bool, current: Option<&Profile>) -> (r: String)
    ensures
        r@ == switch_notice_spec(
            switched,
            match current {
                Some(p) => Some(*p),
                None => None,
            },
        ),
{
    if switched {
        match current {
            Some(p) => if !p.is_empty() {
                let mut s = String::from_str("Switched to ");
                let l = p.label();
                push_str(&mut s, l.as_str());
                s
            } else {
                String::from_str("Switched tailnet")
            },
            None => String::from_str("Switched tailnet"),
        }
    } else {
        String::from_str("Couldn’t switch tailnet")
    }
}

/// The text of the notice that announces the connection state `online`.
pub open spec fn notice_text(online: bool) -> Seq<char> {
    if online {
        "Connected"@
    } else {
        "Disconnected"@
    }
}

/// Announcing `online` after `last` was announced: the state announced
/// afterwards, and the notice, when the state changed.
pub open spec fn notice_step(last: bool, online: bool) -> (bool, Option<Seq<char>>) {
    if online != last {
        (online, Some(notice_text(online)))
    } else {
        (last, None)
    }
}

/// The notices that a run of live deltas with connection states `os` brings,
/// in order, one step after another, starting after `last` was announced.
pub open spec fn notices_for(last: bool, os: Seq<bool>) -> Seq<Seq<char>>
    decreases os.len(),
{
    if os.len() == 0 {
        Seq::empty()
    } else {
        let step = notice_step(last, os[0]);
        let rest = notices_for(step.0, os.drop_first());
        match step.1 {
            Some(t) => seq![t] + rest,
            None => rest,
        }
    }
}

/// The state announced after the run `os`, one step after another.
pub open spec fn announced_after(last: bool, os: Seq<bool>) -> bool
    decreases os.len(),
{
    if os.len() == 0 {
        last
    } else {
        announced_after(notice_step(last, os[0]).0, os.drop_first())
    }
}

/// How often the connection state changes along `os`, starting from `last`.
pub open spec fn change_count(last: bool, os: Seq<bool>) -> nat
    decreases os.len(),
{
    if os.len() == 0 {
        0
    } else {
        (if os[0] != last {
            1nat
        } else {
            0nat
        }) + change_count(os[0], os.drop_first())
    }
}

/// Over any run of live deltas, the tray gives exactly one notice per change
/// of the connection state; the notices alternate, the first announcing the
/// opposite of the state announced before the run; and afterwards the state
/// of the last delta is the one announced.
pub proof fn law_notices_follow_changes(last: bool, os: Seq<bool>)
    ensures
        notices_for(last, os).len() == change_count(last, os),
        forall|k: int|
            0 <= k < notices_for(last, os).len() ==> #[trigger] notices_for(last, os)[k] == notice_text(
                if k % 2 == 0 {
                    !last
                } else {
                    last
                },
            ),
        announced_after(last, os) == (if os.len() == 0 {
            last
        } else {
            os.last()
        }),
    decreases os.len(),
{
    if os.len() > 0 {
        let rest = os.drop_first();
        law_notices_follow_changes(os[0], rest);
        if rest.len() > 0 {
            assert(rest.last() == os.last());
        }
        if os[0] != last {
            let ns = notices_for(last, os);
            let tail = notices_for(os[0], rest);
            assert(ns == seq![notice_text(os[0])] + tail);
            assert forall|k: int| 0 <= k < ns.len() implies #[trigger] ns[k] == notice_text(
                if k % 2 == 0 {
                    !last
                } else {
                    last
                },
            ) by {
                if k > 0 {
                    assert(ns[k] == tail[k - 1]);
                }
            }
        }
    }
}

/// Tracks the connection state the tray last announced, so that it
/// notifies on real transitions only, wherever they were made.
#[derive(Debug, Clone, Copy)]
pub struct ConnectionNotices {
    pub last_online: bool,
}

impl ConnectionNotices {
    /// The notification for a live delta whose connection state is `online`:
    /// "Connected" or "Disconnected" when it differs from the last announced
    /// one, which it then becomes; nothing otherwise.
    pub fn on_live(&mut self, online: bool) -> (r: Option<String>)
        ensures
            final(self).last_online == notice_step(old(self).last_online, online).0,
            (match r {
                Some(t) => Some(t@),
                None => None,
            }) == notice_step(old(self).last_online, online).1,
    {
        if online != self.last_online {
            self.last_online = online;
            Some(
                if online {
                    String::from_str("Connected")
                } else {
                    String::from_str("Disconnected")
                },
            )
        } else {
            None
        }
    }
}


/// A desktop notification: its summary and its body.
#[derive(Debug, Clone, PartialEq, Eq)]
pub struct Notification {
    pub summary: String,
    pub body: String,
}

/// A notification, as summary and body text.
pub open spec fn notification_view(n: Option<Notification>) -> Option<(Seq<char>, Seq<char>)> {
    match n {
        Some(n) => Some((n.summary@, n.body@)),
        None => None,
    }
}

/// The notification a live delta with connection state `online` brings after
/// `last` was announced: summary `alavai` and the notice as body, when the
/// state changed.
pub open spec fn delta_notification(last: bool, online: bool) -> Option<(Seq<char>, Seq<char>)> {
    match notice_step(last, online).1 {
        Some(b) => Some(("alavai"@, b)),
        None => None,
    }
}

/// The worker's handling of a live delta from the bus: the notification for
/// a change of the connection state, and the delta applied to the tray's
/// snapshot.
pub fn on_live_delta(notices: &mut ConnectionNotices, snap: &mut Snapshot, live: LiveState) -> (r:
    Option<Notification>)
    ensures
        final(notices).last_online == notice_step(old(notices).last_online, live.online).0,
        notification_view(r) == delta_notification(old(notices).last_online, live.online),
        live_applied(*old(snap), *final(snap), live),
{
    let note = notices.on_live(live.online);
    snap.apply_live(live);
    match note {
        Some(body) => Some(Notification { summary: String::from_str("alavai"), body }),
        None => None,
    }
}

/// The connection states of a run of live deltas.
pub open spec fn onlines(lives: Seq<LiveState>) -> Seq<bool> {
    lives.map_values(|l: LiveState| l.online)
}

/// The notifications a run of live deltas brings, in order, one
/// `on_live_delta` after another, starting after `last` was announced.
pub open spec fn run_notifications(last: bool, lives: Seq<LiveState>) -> Seq<(Seq<char>, Seq<char>)>
    decreases lives.len(),
{
    if lives.len() == 0 {
        Seq::empty()
    } else {
        let first = match delta_notification(last, lives[0].online) {
            Some(n) => seq![n],
            None => Seq::empty(),
        };
        first + run_notifications(notice_step(last, lives[0].online).0, lives.drop_first())
    }
}

proof fn lemma_run_notifications(last: bool, lives: Seq<LiveState>)
    ensures
        run_notifications(last, lives) == notices_for(last, onlines(lives)).map_values(
            |b: Seq<char>| ("alavai"@, b),
        ),
    decreases lives.len(),
{
    if lives.len() > 0 {
        let rest = lives.drop_first();
        assert(onlines(lives).drop_first() =~= onlines(rest));
        assert(onlines(lives)[0] == lives[0].online);
        lemma_run_notifications(notice_step(last, lives[0].online).0, rest);
        let f = |b: Seq<char>| ("alavai"@, b);
        let tail = notices_for(notice_step(last, lives[0].online).0, onlines(rest));
        if lives[0].online != last {
            assert((seq![notice_text(lives[0].online)] + tail).map_values(f) =~= seq![
                ("alavai"@, notice_text(lives[0].online)),
            ] + tail.map_values(f));
        } else {
            assert(Seq::<(Seq<char>, Seq<char>)>::empty() + tail.map_values(f) =~= tail.map_values(f));
        }
    } else {
        assert(notices_for(last, onlines(lives)).map_values(|b: Seq<char>| ("alavai"@, b))
            =~= Seq::<(Seq<char>, Seq<char>)>::empty());
    }
}

/// Over a run of live deltas, each handled by `on_live_delta` starting from
/// the connection state the tray shows, where `snaps` are the tray's
/// snapshots before and after each delta: the notifications are exactly one
/// per change of the connection state, in order, each with summary `alavai`
/// and the new state as body ("Connected" or "Disconnected"), alternating
/// from the opposite of the state at the start; and afterwards the state last
/// announced is the one the tray shows.
pub proof fn law_worker_notifies_changes(snaps: Seq<Snapshot>, lives: Seq<LiveState>)
    requires
        snaps.len() == lives.len() + 1,
        forall|i: int|
            0 <= i < lives.len() ==> live_applied(#[trigger] snaps[i], snaps[i + 1], lives[i]),
    ensures
        run_notifications(snaps[0].online, lives) == notices_for(snaps[0].online, onlines(lives)).map_values(
            |b: Seq<char>| ("alavai"@, b),
        ),
        run_notifications(snaps[0].online, lives).len() == change_count(snaps[0].online, onlines(lives)),
        forall|k: int|
            0 <= k < run_notifications(snaps[0].online, lives).len() ==> #[trigger] run_notifications(
                snaps[0].online,
                lives,
            )[k] == ("alavai"@, notice_text(
                if k % 2 == 0 {
                    !snaps[0].online
                } else {
                    snaps[0].online
                },
            )),
        announced_after(snaps[0].online, onlines(lives)) == snaps.last().online,
{
    let last = snaps[0].online;
    lemma_run_notifications(last, lives);
    law_notices_follow_changes(last, onlines(lives));
    if lives.len() > 0 {
        let n = lives.len() - 1;
        assert(live_applied(snaps[n], snaps[n + 1], lives[n]));
        assert(onlines(lives).last() == lives[n].online);
    }
}

} // verus!
