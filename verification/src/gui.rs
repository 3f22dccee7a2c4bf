//! The main window's model: its snapshot of the daemon, its state, and how
//! each message moves the state and which effects it asks for.
//!
//! The window is a pure function of [`GuiState`]. [`update`] takes a
//! [`Message`] (a click, a typed character, a delta from the IPN bus, a
//! finished daemon call) to the next state and a list of [`Effect`]s: daemon
//! calls to run, a URL to open, a delayed message to schedule. The program
//! runs the effects and feeds their results back as messages.

use vstd::prelude::*;
use vstd::string::*;
use crate::localapi::{
    LiveState, NetcheckReport, Peer, Prefs, Profile, Status, advertises_exit_spec, clone_strings,
    lemma_push_deep, opt_view, profile_label, subnet_routes_spec,
};
use crate::http::{decimal, dec_digits, parse_unsigned, parse_unsigned_range};
use crate::text::{
    after_last, after_last_char, chars_of, contains_text, first_chars, has_infix,
    has_prefix, index_of, lowercase, replace_char, replaced, starts_with, take_chars,
    to_lowercase, is_empty_str, lemma_index_of_in_range, position_of, push_str,
    str_eq, string_of_range, trim, trim_end_char, trim_end_matches_char, trimmed,
};
use crate::tray::{
    current_id_of, find_tailnet_by_id, index_of_id, keep_real_profiles, lemma_index_of_id,
    real_profiles, status_machine,
};
use crate::order::{
    in_key_order, is_permutation, sort_by_number, sort_by_text_keys, sorted_by_number,
    stably_sorted,
};

verus! {

/// The tailnet admin console.
pub const ADMIN_URL: &'static str = "https://login.tailscale.com/admin";

/// How many of the nearest relay regions the netcheck card lists.
pub const SHOWN_REGIONS: usize = 5;

// ---------------------------------------------------------------------------
// Data model
// ---------------------------------------------------------------------------

/// A peer as the window shows it.
#[derive(Debug, Clone)]
pub struct PeerView {
    pub id: String,
    pub name: String,
    pub fqdn: String,
    pub os: String,
    pub online: bool,
    pub addrs: Vec<String>,
    pub exit_node: bool,
    pub exit_node_option: bool,
    pub relay: String,
    pub last_seen: String,
    pub routes: Vec<String>,
}

/// The index of the first address at or after `i` that holds no `:`.
pub open spec fn first_v4_from(addrs: Seq<Seq<char>>, i: int) -> Option<int>
    decreases addrs.len() - i,
{
    if i < 0 || i >= addrs.len() {
        None
    } else if index_of(addrs[i], ':') is None {
        Some(i)
    } else {
        first_v4_from(addrs, i + 1)
    }
}

/// A peer's primary address: its first IPv4 address, else its first address,
/// else empty.
pub open spec fn primary_addr_spec(addrs: Seq<Seq<char>>) -> Seq<char> {
    match first_v4_from(addrs, 0) {
        Some(i) => addrs[i],
        None => if addrs.len() > 0 {
            addrs[0]
        } else {
            Seq::empty()
        },
    }
}

proof fn lemma_first_v4_skip(addrs: Seq<Seq<char>>, i: int)
    requires
        0 <= i <= addrs.len(),
        forall|j: int| 0 <= j < i ==> index_of(#[trigger] addrs[j], ':') is Some,
    ensures
        first_v4_from(addrs, 0) == first_v4_from(addrs, i),
    decreases i,
{
    if i > 0 {
        lemma_first_v4_skip(addrs, i - 1);
    }
}

proof fn lemma_first_v4_range(addrs: Seq<Seq<char>>, i: int)
    requires
        0 <= i,
    ensures
        first_v4_from(addrs, i) matches Some(k) ==> i <= k < addrs.len(),
    decreases addrs.len() - i,
{
    if i < addrs.len() && index_of(addrs[i], ':') is Some {
        lemma_first_v4_range(addrs, i + 1);
    }
}

impl PeerView {
    /// The address to show and copy: the first IPv4 one, else the first one.
    pub fn primary_addr(&self) -> (r: &str)
        ensures
            r@ == primary_addr_spec(self.addrs.deep_view()),
    {
        let ghost a = self.addrs.deep_view();
        let mut i: usize = 0;
        while i < self.addrs.len()
            invariant
                i <= self.addrs@.len(),
                a == self.addrs.deep_view(),
                forall|j: int| 0 <= j < i ==> index_of(#[trigger] a[j], ':') is Some,
            decreases self.addrs@.len() - i,
        {
            if !crate::text::contains_char(self.addrs[i].as_str(), ':') {
                proof {
                    lemma_first_v4_skip(a, i as int);
                }
                return self.addrs[i].as_str();
            }
            i = i + 1;
        }
        proof {
            lemma_first_v4_skip(a, i as int);
        }
        if self.addrs.len() > 0 {
            self.addrs[0].as_str()
        } else {
            proof {
                reveal_strlit("");
            }
            ""
        }
    }
}

/// Everything the window shows, rebuilt from the daemon's answers.
#[derive(Debug, Clone)]
pub struct GuiSnapshot {
    pub online: bool,
    pub machine: String,
    pub fqdn: String,
    pub os: String,
    /// This machine's preferred DERP relay region.
    pub self_relay: String,
    pub addrs: Vec<String>,
    pub tailnets: Vec<Profile>,
    pub current_id: String,
    pub accept_routes: bool,
    pub advertise_exit_node: bool,
    pub allow_lan: bool,
    pub advertised_routes: Vec<String>,
    pub peers: Vec<PeerView>,
    /// A pending interactive-login URL from the bus.
    pub login_url: Option<String>,
    /// False when the daemon could not be reached.
    pub reachable: bool,
    /// False when this Linux user is not the Tailscale operator.
    pub operator_ok: bool,
    /// The daemon is reachable but no tailnet is logged in.
    pub needs_login: bool,
}

/// The name a peer is listed under: its host name, else its DNS name
/// without the trailing dot.
pub open spec fn peer_name(p: Peer) -> Seq<char> {
    if p.hostname@.len() != 0 {
        p.hostname@
    } else {
        trim_end_char(p.dns_name@, '.')
    }
}

/// Whether `v` shows peer `p`.
pub open spec fn shows_peer(v: PeerView, p: Peer) -> bool {
    &&& v.id@ == p.id@
    &&& v.name@ == peer_name(p)
    &&& v.fqdn@ == trim_end_char(p.dns_name@, '.')
    &&& v.os@ == p.os@
    &&& v.online == p.online
    &&& v.addrs.deep_view() == p.tailscale_ips.deep_view()
    &&& v.exit_node == p.exit_node
    &&& v.exit_node_option == p.exit_node_option
    &&& v.relay@ == p.relay@
    &&& v.last_seen@ == p.last_seen@
    &&& v.routes.deep_view() == p.primary_routes.deep_view()
}

/// The sort key of each peer: its listed name, lowercased.
pub open spec fn name_keys(peers: Seq<Peer>) -> Seq<Seq<char>> {
    Seq::new(peers.len(), |i: int| lowercase(peer_name(peers[i])))
}

/// Whether `shown` lists each of `peers` once, sorted by lowercased name,
/// peers with equal keys in the daemon's order.
pub open spec fn peers_shown(peers: Seq<Peer>, shown: Seq<PeerView>) -> bool {
    exists|order: Seq<int>|
        {
            &&& #[trigger] is_permutation(order, peers.len())
            &&& in_key_order(name_keys(peers), order)
            &&& shown.len() == peers.len()
            &&& forall|i: int| 0 <= i < shown.len() ==> shows_peer(shown[i], peers[order[i]])
        }
}

impl PeerView {
    /// How the window shows peer `p`.
    pub fn of(p: &Peer) -> (v: PeerView)
        ensures
            shows_peer(v, *p),
    {
        let fqdn = trim_end_matches_char(p.dns_name.as_str(), '.');
        let name = if !is_empty_str(p.hostname.as_str()) {
            p.hostname.clone()
        } else {
            trim_end_matches_char(p.dns_name.as_str(), '.')
        };
        PeerView {
            id: p.id.clone(),
            name,
            fqdn,
            os: p.os.clone(),
            online: p.online,
            addrs: clone_strings(&p.tailscale_ips),
            exit_node: p.exit_node,
            exit_node_option: p.exit_node_option,
            relay: p.relay.clone(),
            last_seen: p.last_seen.clone(),
            routes: clone_strings(&p.primary_routes),
        }
    }
}

/// The peers as the window lists them: sorted by lowercased name.
pub fn shown_peers(peers: &Vec<Peer>) -> (r: Vec<PeerView>)
    ensures
        peers_shown(peers@, r@),
{
    let mut views: Vec<PeerView> = Vec::new();
    let mut keys: Vec<Vec<char>> = Vec::new();
    let mut i: usize = 0;
    while i < peers.len()
        invariant
            i <= peers@.len(),
            views@.len() == i,
            keys@.len() == i,
            forall|j: int| 0 <= j < i ==> shows_peer(#[trigger] views@[j], peers@[j]),
            forall|j: int| 0 <= j < i ==> #[trigger] keys@[j]@ == lowercase(peer_name(peers@[j])),
        decreases peers@.len() - i,
    {
        let v = PeerView::of(&peers[i]);
        let k = chars_of(to_lowercase(v.name.as_str()).as_str());
        views.push(v);
        keys.push(k);
        i = i + 1;
    }
    let ghost vs = views@;
    let ghost kd = keys.deep_view();
    assert forall|j: int| 0 <= j < kd.len() implies kd[j] == name_keys(peers@)[j] by {
        assert(kd[j] =~= keys@[j]@);
    }
    assert(kd =~= name_keys(peers@));
    let r = sort_by_text_keys(views, keys);
    proof {
        let order = choose|order: Seq<int>|
            {
                &&& #[trigger] is_permutation(order, vs.len())
                &&& in_key_order(kd, order)
                &&& r@.len() == vs.len()
                &&& forall|i: int| 0 <= i < r@.len() ==> r@[i] == vs[order[i]]
            };
        assert forall|i: int| 0 <= i < r@.len() implies shows_peer(r@[i], peers@[order[i]]) by {
            assert(0 <= order[i] < vs.len());
            assert(shows_peer(vs[order[i]], peers@[order[i]]));
        }
        assert(is_permutation(order, peers@.len()));
    }
    r
}

/// What applying a bus delta does to the window's snapshot: everything the
/// bus carries is taken over, machine identity only when the delta knows it,
/// and peers and profiles stay as they were.
pub open spec fn applied_live(old: GuiSnapshot, live: LiveState, new: GuiSnapshot) -> bool {
    &&& new.online == live.online
    &&& new.needs_login == live.needs_login
    &&& new.reachable
    &&& new.accept_routes == live.accept_routes
    &&& new.advertise_exit_node == live.advertise_exit_node
    &&& new.allow_lan == live.allow_lan
    &&& new.advertised_routes.deep_view() == live.advertised_routes.deep_view()
    &&& new.machine@ == (if live.machine@.len() != 0 {
        live.machine@
    } else {
        old.machine@
    })
    &&& new.fqdn@ == (if live.fqdn@.len() != 0 {
        live.fqdn@
    } else {
        old.fqdn@
    })
    &&& new.os@ == (if live.os@.len() != 0 {
        live.os@
    } else {
        old.os@
    })
    &&& new.addrs.deep_view() == (if live.addresses@.len() != 0 {
        live.addresses.deep_view()
    } else {
        old.addrs.deep_view()
    })
    &&& new.self_relay == old.self_relay
    &&& new.tailnets == old.tailnets
    &&& new.current_id == old.current_id
    &&& new.peers == old.peers
    &&& new.login_url == old.login_url
    &&& new.operator_ok == old.operator_ok
}

/// Whether this Linux user may drive the daemon: the daemon's operator is
/// this user, or either is unknown (then the window does not nag).
pub open spec fn operator_ok_spec(user: Option<&str>, prefs: Option<&Prefs>) -> bool {
    match (user, prefs) {
        (Some(u), Some(p)) => p.operator_user@ == u@,
        _ => true,
    }
}

/// A field of the status's own node, or empty.
pub open spec fn self_field(status: Option<&Status>, f: spec_fn(crate::localapi::Node) -> Seq<char>) -> Seq<char> {
    match status {
        Some(st) => match st.self_node {
            Some(n) => f(n),
            None => Seq::empty(),
        },
        None => Seq::empty(),
    }
}

impl GuiSnapshot {
    /// The snapshot made from the daemon's answers to the status, prefs,
    /// profile-list and current-profile requests (each `None` when it
    /// failed) and the name of this Linux user (`None` when unknown). A
    /// failed call degrades to an empty or off field; no status means the
    /// daemon is unreachable.
    pub fn fetch(
        status: Option<&Status>,
        prefs: Option<&Prefs>,
        user: Option<&str>,
        profiles: Option<Vec<Profile>>,
        current: Option<Profile>,
    ) -> (s: GuiSnapshot)
        ensures
            s.online == (status matches Some(st) && st.backend_state@ == "Running"@),
            s.reachable == status is Some,
            s.operator_ok == operator_ok_spec(user, prefs),
            s.machine@ == status_machine(status),
            s.fqdn@ == self_field(status, |n: crate::localapi::Node| trim_end_char(n.dns_name@, '.')),
            s.os@ == self_field(status, |n: crate::localapi::Node| n.os@),
            s.self_relay@ == self_field(status, |n: crate::localapi::Node| n.relay@),
            s.addrs.deep_view() == match status {
                Some(st) => st.tailscale_ips.deep_view(),
                None => Seq::empty(),
            },
            match status {
                Some(st) => peers_shown(st.peers@, s.peers@),
                None => s.peers@.len() == 0,
            },
            s.tailnets@ == real_profiles(
                match profiles {
                    Some(ps) => ps@,
                    None => Seq::empty(),
                },
            ),
            s.current_id@ == current_id_of(current),
            s.accept_routes == (prefs matches Some(p) && p.route_all),
            s.advertise_exit_node == (prefs matches Some(p) && advertises_exit_spec(p.routes_view())),
            s.allow_lan == (prefs matches Some(p) && p.exit_node_allow_lan),
            s.advertised_routes.deep_view() == match prefs {
                Some(p) => subnet_routes_spec(p.routes_view()),
                None => Seq::empty(),
            },
            s.login_url is None,
            s.needs_login == (status matches Some(st) && st.backend_state@ == "NeedsLogin"@),
    {
        let online = match status {
            Some(st) => st.online(),
            None => false,
        };
        let operator_ok = match (user, prefs) {
            (Some(u), Some(p)) => str_eq(p.operator_user.as_str(), u),
            _ => true,
        };
        let (machine, fqdn, os, self_relay) = match status {
            Some(st) => match &st.self_node {
                Some(n) => (
                    n.hostname.clone(),
                    trim_end_matches_char(n.dns_name.as_str(), '.'),
                    n.os.clone(),
                    n.relay.clone(),
                ),
                None => (String::new(), String::new(), String::new(), String::new()),
            },
            None => (String::new(), String::new(), String::new(), String::new()),
        };
        let addrs = match status {
            Some(st) => clone_strings(&st.tailscale_ips),
            None => Vec::new(),
        };
        let peers = match status {
            Some(st) => shown_peers(&st.peers),
            None => Vec::new(),
        };
        let tailnets = match profiles {
            Some(ps) => keep_real_profiles(ps),
            None => {
                let empty: Vec<Profile> = Vec::new();
                assert(empty@ =~= Seq::<Profile>::empty());
                keep_real_profiles(empty)
            },
        };
        let current_id = match current {
            Some(p) => p.id,
            None => String::new(),
        };
        let (accept_routes, advertise_exit_node, allow_lan, advertised_routes) = match prefs {
            Some(p) => (p.route_all, p.advertises_exit_node(), p.exit_node_allow_lan, p.subnet_routes()),
            None => (false, false, false, Vec::new()),
        };
        let needs_login = match status {
            Some(st) => str_eq(st.backend_state.as_str(), "NeedsLogin"),
            None => false,
        };
        GuiSnapshot {
            online,
            machine,
            fqdn,
            os,
            self_relay,
            addrs,
            tailnets,
            current_id,
            accept_routes,
            advertise_exit_node,
            allow_lan,
            advertised_routes,
            peers,
            login_url: None,
            reachable: status.is_some(),
            operator_ok,
            needs_login,
        }
    }

    /// Applies a bus delta in place, without touching peers or profiles.
    pub fn apply_live(&mut self, live: &LiveState)
        ensures
            applied_live(*old(self), *live, *final(self)),
    {
        self.online = live.online;
        self.needs_login = live.needs_login;
        self.reachable = true;
        self.accept_routes = live.accept_routes;
        self.advertise_exit_node = live.advertise_exit_node;
        self.allow_lan = live.allow_lan;
        self.advertised_routes = clone_strings(&live.advertised_routes);
        if !is_empty_str(live.machine.as_str()) {
            self.machine = live.machine.clone();
        }
        if !is_empty_str(live.fqdn.as_str()) {
            self.fqdn = live.fqdn.clone();
        }
        if !is_empty_str(live.os.as_str()) {
            self.os = live.os.clone();
        }
        if live.addresses.len() != 0 {
            self.addrs = clone_strings(&live.addresses);
        }
    }
}

/// A button under a peer's details.
#[derive(Debug, Clone, Copy, PartialEq, Eq, Structural)]
pub enum PeerAction {
    /// Stop routing through this peer, the active exit node.
    DisableExitNode,
    /// Route through this peer, which offers to be an exit node.
    UseAsExitNode,
    /// Copy the peer's address.
    CopyIp,
}

/// The buttons under a peer's details, in order: the exit-node one that
/// applies, then copying the address when the peer has one.
pub open spec fn peer_actions_spec(p: PeerView) -> Seq<PeerAction> {
    (if p.exit_node {
        seq![PeerAction::DisableExitNode]
    } else if p.exit_node_option {
        seq![PeerAction::UseAsExitNode]
    } else {
        Seq::empty()
    }) + (if primary_addr_spec(p.addrs.deep_view()).len() > 0 {
        seq![PeerAction::CopyIp]
    } else {
        Seq::empty()
    })
}

impl PeerView {
    /// The buttons under the peer's details.
    pub fn actions(&self) -> (r: Vec<PeerAction>)
        ensures
            r@ == peer_actions_spec(*self),
    {
        let mut r: Vec<PeerAction> = Vec::new();
        if self.exit_node {
            r.push(PeerAction::DisableExitNode);
        } else if self.exit_node_option {
            r.push(PeerAction::UseAsExitNode);
        }
        if !is_empty_str(self.primary_addr()) {
            r.push(PeerAction::CopyIp);
        }
        assert(r@ =~= peer_actions_spec(*self));
        r
    }
}

// ---------------------------------------------------------------------------
// Window state, messages and effects
// ---------------------------------------------------------------------------

/// What the detail pane shows.
#[derive(Debug, Clone, PartialEq, Eq)]
pub enum Selection {
    ThisMachine,
    Peer(String),
    ExitNode,
}

/// The window's state.
#[derive(Debug)]
pub struct GuiState {
    pub dark: bool,
    pub snap: GuiSnapshot,
    pub selection: Selection,
    pub filter: String,
    pub busy: bool,
    pub switching: bool,
    /// Label of the tailnet being switched to.
    pub switching_to: Option<String>,
    /// Profile ID being switched to; the transition ends when the daemon's
    /// current profile becomes this one (or login is needed, or it times out).
    pub switching_target: Option<String>,
    pub toast: Option<String>,
    /// Whether the tailnet-switcher popover is open.
    pub switcher_open: bool,
    /// Whether the switcher is in "manage" (remove) mode.
    pub manage: bool,
    /// Profile ID pending a remove confirmation.
    pub confirm_remove: Option<String>,
    /// The last login URL already opened.
    pub last_login_url: Option<String>,
    pub netcheck: Option<NetcheckReport>,
    pub netcheck_running: bool,
    pub netcheck_error: Option<String>,
    /// Whether the operator banner was dismissed this session.
    pub operator_dismissed: bool,
    /// Draft CIDR in the advertised-routes field.
    pub route_input: String,
    /// In the narrow layout, whether a detail view is pushed over the list.
    pub drilled: bool,
}

/// A message to the window.
#[derive(Debug, Clone)]
pub enum Message {
    /// A full refresh.
    Snapshot(GuiSnapshot),
    /// A delta from the IPN bus, applied without a refetch.
    Live(LiveState),
    Select(Selection),
    Filter(String),
    SwitchTailnet(String),
    ToggleConnection,
    SetAcceptRoutes(bool),
    SetAdvertiseExit(bool),
    SetAllowLan(bool),
    UseExitNode(String),
    UseExitNodeAuto,
    ClearExitNode,
    Copy(String),
    ToggleTheme,
    OpenAdmin,
    Toast(String),
    ClearToast,
    ToggleSwitcher,
    CloseSwitcher,
    ToggleManage,
    RequestRemove(String),
    ConfirmRemove(String),
    CancelRemove,
    AddTailnet,
    StartLogin,
    RunNetcheck,
    /// A connectivity check finished with this report.
    NetcheckDone(NetcheckReport),
    /// A connectivity check could not be run; the text says why.
    NetcheckFailed(String),
    DismissOperator,
    Retry,
    RouteInput(String),
    AddRoute,
    RemoveRoute(String),
    Back,
    /// Ends a stuck switching transition.
    ClearSwitching,
    /// A fire-and-forget call completed.
    Noop,
}

/// A call against the daemon.
#[derive(Debug)]
pub enum Action {
    SwitchProfile(String),
    SetWantRunning(bool),
    SetAcceptRoutes(bool),
    SetAdvertiseExitNode(bool),
    SetExitNodeAllowLan(bool),
    SetExitNode(String),
    ClearExitNode,
    /// Use the daemon's suggested exit node, if it suggests one.
    UseSuggestedExitNode,
    DeleteProfile(String),
    StartLogin,
    /// Create a new profile and, if that worked, start login.
    NewProfileThenLogin,
    SetAdvertiseRoutes(Vec<String>),
    /// No call: only the refetch.
    Refresh,
}

/// Something `update` asks the program to do.
#[derive(Debug)]
pub enum Effect {
    /// Run the call, then refetch a full snapshot.
    Act(Action),
    /// Run the call and rely on the bus for the resulting state.
    Fire(Action),
    OpenUrl(String),
    /// Clear the toast after a short delay.
    DelayedClear,
    /// End the switching transition after a while if it never settles.
    SwitchingTimeout,
    CopyToClipboard(String),
    /// Deliver `Message::Toast` with this text.
    ShowToast(String),
    /// Run a connectivity check and deliver `Message::NetcheckDone`, or
    /// `Message::NetcheckFailed` when it cannot be run.
    RunNetcheck,
}

/// The login URL that a refresh or delta brings and that was not opened yet.
pub open spec fn new_login(url: Option<String>, last: Option<String>) -> Option<Seq<char>> {
    match url {
        Some(u) => if opt_view(last) != Some(u@) {
            Some(u@)
        } else {
            None
        },
        None => None,
    }
}

/// Whether the peers of `snap` include one with ID `id`.
pub open spec fn has_peer(snap: GuiSnapshot, id: Seq<char>) -> bool {
    exists|i: int| 0 <= i < snap.peers@.len() && #[trigger] snap.peers@[i].id@ == id
}

/// The label of the first tailnet with ID `id`, if any.
pub open spec fn label_of_id(ts: Seq<Profile>, id: Seq<char>) -> Option<Seq<char>> {
    match index_of_id(ts, id) {
        Some(i) => Some(profile_label(ts[i])),
        None => None,
    }
}

/// Whether `s` has the Unicode text `t`.
pub open spec fn opt_is(o: Option<String>, t: Seq<char>) -> bool {
    o matches Some(s) && s@ == t
}

/// Whether `r` is the calling effect `e(Action::SetAdvertiseRoutes(routes))`
/// with routes holding `want`.
pub open spec fn acts_set_routes(fx: Seq<Effect>, want: Seq<Seq<char>>) -> bool {
    fx.len() == 1 && (fx[0] matches Effect::Act(Action::SetAdvertiseRoutes(rs)) && rs.deep_view() == want)
}

/// What is left of the routes after removing every copy of `cidr`.
pub open spec fn routes_without(routes: Seq<Seq<char>>, cidr: Seq<char>) -> Seq<Seq<char>>
    decreases routes.len(),
{
    if routes.len() == 0 {
        Seq::empty()
    } else {
        let r = routes_without(routes.drop_last(), cidr);
        if routes.last() == cidr {
            r
        } else {
            r.push(routes.last())
        }
    }
}

/// How a login URL that comes with a refresh or a delta is handled: one not
/// opened yet is opened, remembered and announced; otherwise nothing changes.
pub open spec fn login_post(s: GuiState, url: Option<String>, t: GuiState, fx: Seq<Effect>) -> bool {
    match new_login(url, s.last_login_url) {
        Some(u) => {
            &&& opt_view(t.last_login_url) == Some(u)
            &&& opt_is(t.toast, "Opened your browser to finish signing in"@)
            &&& fx.len() == 2
            &&& fx[0] matches Effect::OpenUrl(v) && v@ == u
            &&& fx[1] is DelayedClear
        },
        None => t.last_login_url == s.last_login_url && t.toast == s.toast && fx.len() == 0,
    }
}

/// A full refresh: the snapshot is taken over, a selected peer that is gone
/// falls back to this machine, and a tailnet switch ends once the daemon is
/// online on the target profile or needs a login.
pub open spec fn snapshot_post(s: GuiState, snap: GuiSnapshot, t: GuiState, fx: Seq<Effect>) -> bool {
    let keep = match s.selection {
        Selection::Peer(id) => has_peer(snap, id@),
        _ => true,
    };
    let arrived = snap.online && opt_view(s.switching_target) == Some(snap.current_id@);
    let settle = arrived || snap.needs_login;
    &&& t == GuiState {
        snap: t.snap,
        busy: false,
        selection: t.selection,
        switching: t.switching,
        switching_to: t.switching_to,
        switching_target: t.switching_target,
        last_login_url: t.last_login_url,
        toast: t.toast,
        ..s
    }
    &&& t.snap == snap
    &&& t.selection == (if keep {
        s.selection
    } else {
        Selection::ThisMachine
    })
    &&& settle ==> !t.switching && t.switching_to is None && t.switching_target is None
    &&& !settle ==> t.switching == s.switching && t.switching_to == s.switching_to
        && t.switching_target == s.switching_target
    &&& login_post(s, snap.login_url, t, fx)
}

/// A bus delta: applied to the snapshot in place; a tailnet switch ends when
/// the daemon needs a login.
pub open spec fn live_post(s: GuiState, live: LiveState, t: GuiState, fx: Seq<Effect>) -> bool {
    &&& t == GuiState {
        snap: t.snap,
        busy: false,
        switching: t.switching,
        switching_to: t.switching_to,
        switching_target: t.switching_target,
        last_login_url: t.last_login_url,
        toast: t.toast,
        ..s
    }
    &&& applied_live(s.snap, live, t.snap)
    &&& live.needs_login ==> !t.switching && t.switching_to is None && t.switching_target is None
    &&& !live.needs_login ==> t.switching == s.switching && t.switching_to == s.switching_to
        && t.switching_target == s.switching_target
    &&& login_post(s, live.browse_to_url, t, fx)
}

/// A daemon call that the window waits for: busy until the refetch.
pub open spec fn calls(s: GuiState, a: Action, t: GuiState, fx: Seq<Effect>) -> bool {
    t == GuiState { busy: true, ..s } && fx =~= seq![Effect::Act(a)]
}

/// Switching to tailnet `id`: nothing to do when it is current; otherwise the
/// window shows it as current at once, remembers the switch, fires the call
/// and arms the timeout.
pub open spec fn switch_post(s: GuiState, id: String, t: GuiState, fx: Seq<Effect>) -> bool {
    if id@ == s.snap.current_id@ {
        t == GuiState { switcher_open: false, manage: false, ..s } && fx.len() == 0
    } else {
        &&& t == GuiState {
            switcher_open: false,
            manage: false,
            switching_to: t.switching_to,
            switching_target: t.switching_target,
            snap: GuiSnapshot { current_id: t.snap.current_id, ..s.snap },
            busy: true,
            switching: true,
            ..s
        }
        &&& opt_view(t.switching_to) == label_of_id(s.snap.tailnets@, id@)
        &&& opt_view(t.switching_target) == Some(id@)
        &&& t.snap.current_id@ == id@
        &&& fx =~= seq![Effect::Fire(Action::SwitchProfile(id)), Effect::SwitchingTimeout]
    }
}

/// Adding the drafted route: a draft that is no CIDR prefix is refused with
/// a toast; a valid one is added once to the advertised routes.
pub open spec fn add_route_post(s: GuiState, t: GuiState, fx: Seq<Effect>) -> bool {
    let cidr = trim(s.route_input@);
    if !valid_cidr(cidr) {
        &&& t == GuiState { toast: t.toast, ..s }
        &&& opt_is(t.toast, "Invalid CIDR: "@ + cidr)
        &&& fx =~= seq![Effect::DelayedClear]
    } else {
        let adv = s.snap.advertised_routes.deep_view();
        &&& t == GuiState { route_input: t.route_input, busy: true, ..s }
        &&& t.route_input@.len() == 0
        &&& acts_set_routes(
            fx,
            if adv.contains(cidr) {
                adv
            } else {
                adv.push(cidr)
            },
        )
    }
}

/// What `update` does with each message: the next state and the effects.
pub open spec fn update_post(s: GuiState, msg: Message, t: GuiState, fx: Seq<Effect>) -> bool {
    match msg {
        Message::Snapshot(snap) => snapshot_post(s, snap, t, fx),
        Message::Live(live) => live_post(s, live, t, fx),
        Message::Select(sel) => t == GuiState { selection: sel, drilled: true, ..s } && fx.len() == 0,
        Message::Back => t == GuiState { drilled: false, ..s } && fx.len() == 0,
        Message::ClearSwitching => t == GuiState {
            switching: false,
            switching_to: None,
            switching_target: None,
            busy: false,
            ..s
        } && fx.len() == 0,
        Message::Noop => t == s && fx.len() == 0,
        Message::Filter(f) => t == GuiState { filter: f, ..s } && fx.len() == 0,
        Message::SwitchTailnet(id) => switch_post(s, id, t, fx),
        Message::ToggleConnection => calls(s, Action::SetWantRunning(!s.snap.online), t, fx),
        Message::SetAcceptRoutes(v) => calls(s, Action::SetAcceptRoutes(v), t, fx),
        Message::SetAdvertiseExit(v) => calls(s, Action::SetAdvertiseExitNode(v), t, fx),
        Message::SetAllowLan(v) => calls(s, Action::SetExitNodeAllowLan(v), t, fx),
        Message::UseExitNode(id) => calls(s, Action::SetExitNode(id), t, fx),
        Message::UseExitNodeAuto => calls(s, Action::UseSuggestedExitNode, t, fx),
        Message::ClearExitNode => calls(s, Action::ClearExitNode, t, fx),
        Message::Copy(value) => {
            &&& t == s
            &&& fx.len() == 2
            &&& fx[0] matches Effect::CopyToClipboard(v) && v@ == value@
            &&& fx[1] matches Effect::ShowToast(m) && m@ == "Copied "@ + value@
        },
        Message::ToggleTheme => t == GuiState { dark: !s.dark, ..s } && fx.len() == 0,
        Message::OpenAdmin => t == s && fx.len() == 1 && (fx[0] matches Effect::OpenUrl(u) && u@
            == ADMIN_URL@),
        Message::Toast(m) => t == GuiState { toast: Some(m), ..s } && fx =~= seq![Effect::DelayedClear],
        Message::ClearToast => t == GuiState { toast: None, ..s } && fx.len() == 0,
        Message::ToggleSwitcher => t == GuiState {
            switcher_open: !s.switcher_open,
            manage: false,
            confirm_remove: None,
            ..s
        } && fx.len() == 0,
        Message::CloseSwitcher => t == GuiState {
            switcher_open: false,
            manage: false,
            confirm_remove: None,
            ..s
        } && fx.len() == 0,
        Message::ToggleManage => t == GuiState { manage: !s.manage, confirm_remove: None, ..s }
            && fx.len() == 0,
        Message::RequestRemove(id) => t == GuiState { confirm_remove: Some(id), ..s } && fx.len()
            == 0,
        Message::CancelRemove => t == GuiState { confirm_remove: None, ..s } && fx.len() == 0,
        Message::ConfirmRemove(id) => t == GuiState { confirm_remove: None, busy: true, ..s } && fx
            == seq![Effect::Act(Action::DeleteProfile(id))],
        Message::StartLogin => {
            &&& t == GuiState { busy: true, toast: t.toast, ..s }
            &&& opt_is(t.toast, "Opening your browser to sign in…"@)
            &&& fx =~= seq![Effect::Act(Action::StartLogin), Effect::DelayedClear]
        },
        Message::AddTailnet => {
            &&& t == GuiState {
                switcher_open: false,
                manage: false,
                busy: true,
                toast: t.toast,
                ..s
            }
            &&& opt_is(t.toast, "Creating tailnet — opening your browser to sign in…"@)
            &&& fx =~= seq![Effect::Act(Action::NewProfileThenLogin), Effect::DelayedClear]
        },
        Message::RunNetcheck => t == GuiState {
            netcheck_running: true,
            netcheck_error: None,
            ..s
        } && fx =~= seq![Effect::RunNetcheck],
        Message::NetcheckDone(report) => fx.len() == 0 && t == GuiState {
            netcheck_running: false,
            netcheck: Some(report),
            netcheck_error: None,
            ..s
        },
        Message::NetcheckFailed(m) => fx.len() == 0 && t == GuiState {
            netcheck_running: false,
            netcheck_error: Some(m),
            ..s
        },
        Message::DismissOperator => t == GuiState { operator_dismissed: true, ..s } && fx.len()
            == 0,
        Message::Retry => t == s && fx =~= seq![Effect::Act(Action::Refresh)],
        Message::RouteInput(r) => t == GuiState { route_input: r, ..s } && fx.len() == 0,
        Message::AddRoute => add_route_post(s, t, fx),
        Message::RemoveRoute(cidr) => {
            &&& t == GuiState { busy: true, ..s }
            &&& acts_set_routes(fx, routes_without(s.snap.advertised_routes.deep_view(), cidr@))
        },
    }
}

/// The login URL that a refresh or a bus delta carries.
pub open spec fn carried_url(m: Message) -> Option<Seq<char>> {
    match m {
        Message::Snapshot(snap) => opt_view(snap.login_url),
        Message::Live(live) => opt_view(live.browse_to_url),
        _ => None,
    }
}

/// A login URL opens the browser once: when a refresh or delta brings the
/// same URL again, nothing is opened (no effect at all is asked for).
pub proof fn law_login_opened_once(
    s: GuiState,
    m1: Message,
    t: GuiState,
    fx: Seq<Effect>,
    m2: Message,
    t2: GuiState,
    fx2: Seq<Effect>,
)
    requires
        m1 is Snapshot || m1 is Live,
        m2 is Snapshot || m2 is Live,
        update_post(s, m1, t, fx),
        update_post(t, m2, t2, fx2),
        carried_url(m1) is Some,
        carried_url(m2) == carried_url(m1),
    ensures
        fx2.len() == 0,
{
    let u = carried_url(m1)->0;
    assert(opt_view(t.last_login_url) == Some(u));
}

/// Switching tailnets is optimistic and settles: the window shows the
/// target as current at once, and the first refresh that finds the daemon
/// online on it ends the switch.
pub proof fn law_switch_settles(
    s: GuiState,
    id: String,
    t: GuiState,
    fx: Seq<Effect>,
    snap: GuiSnapshot,
    t2: GuiState,
    fx2: Seq<Effect>,
)
    requires
        id@ != s.snap.current_id@,
        update_post(s, Message::SwitchTailnet(id), t, fx),
        update_post(t, Message::Snapshot(snap), t2, fx2),
        snap.online,
        snap.current_id@ == id@,
    ensures
        t.switching,
        t.snap.current_id@ == id@,
        !t2.switching,
        t2.switching_target is None,
        t2.snap.current_id@ == id@,
{
}

// ---------------------------------------------------------------------------
// CIDR validation
// ---------------------------------------------------------------------------

/// What `str::parse::<IpAddr>` makes of `s`: `None` when it is no address,
/// else whether it is IPv6. A function of `s` alone.
pub uninterp spec fn ip_address_kind(s: Seq<char>) -> Option<bool>;

/// `str::parse::<core::net::IpAddr>`: whether `s` is an IPv4 or IPv6 address
/// in the standard library's textual syntax. Its result is named
/// `ip_address_kind`; which strings the grammar accepts is left unsaid.
#[verifier::external_body]
fn parse_ip(s: &str) -> (r: Option<bool>)
    ensures
        r == ip_address_kind(s@),
{
    match s.parse::<core::net::IpAddr>() {
        Ok(core::net::IpAddr::V4(_)) => Some(false),
        Ok(core::net::IpAddr::V6(_)) => Some(true),
        Err(_) => None,
    }
}

/// Whether `s` is an address, `/`, and a prefix length that fits it.
pub open spec fn valid_cidr(s: Seq<char>) -> bool {
    match index_of(s, '/') {
        None => false,
        Some(i) => match ip_address_kind(s.subrange(0, i)) {
            None => false,
            Some(v6) => match parse_unsigned(s.subrange(i + 1, s.len() as int), 10, 255) {
                None => false,
                Some(bits) => bits <= (if v6 {
                    128nat
                } else {
                    32nat
                }),
            },
        },
    }
}

/// Light validation of a CIDR prefix such as `192.168.1.0/24`.
pub fn is_valid_cidr(s: &str) -> (r: bool)
    ensures
        r == valid_cidr(s@),
{
    let v = chars_of(s);
    let slash = match position_of(&v, '/') {
        None => {
            return false;
        },
        Some(i) => i,
    };
    proof {
        lemma_index_of_in_range(v@, '/');
    }
    let addr = string_of_range(&v, 0, slash);
    let v6 = match parse_ip(addr.as_str()) {
        None => {
            return false;
        },
        Some(b) => b,
    };
    match parse_unsigned_range(&v, slash + 1, v.len(), 10, 255) {
        None => false,
        Some(bits) => bits <= (if v6 {
            128
        } else {
            32
        }),
    }
}

// ---------------------------------------------------------------------------
// update
// ---------------------------------------------------------------------------

fn label_for(ts: &Vec<Profile>, id: &str) -> (r: Option<String>)
    ensures
        opt_view(r) == label_of_id(ts@, id@),
{
    match find_tailnet_by_id(ts, id) {
        Some(i) => {
            proof {
                lemma_index_of_id(ts@, id@, 0);
            }
            Some(ts[i].label())
        },
        None => None,
    }
}

fn peers_contain(peers: &Vec<PeerView>, id: &str) -> (r: bool)
    ensures
        r == (exists|i: int| 0 <= i < peers@.len() && #[trigger] peers@[i].id@ == id@),
{
    let mut i: usize = 0;
    while i < peers.len()
        invariant
            i <= peers@.len(),
            forall|j: int| 0 <= j < i ==> #[trigger] peers@[j].id@ != id@,
        decreases peers@.len() - i,
    {
        if str_eq(peers[i].id.as_str(), id) {
            return true;
        }
        i = i + 1;
    }
    false
}

fn is_new_login(url: &Option<String>, last: &Option<String>) -> (r: Option<String>)
    ensures
        opt_view(r) == new_login(*url, *last),
{
    match url {
        Some(u) => {
            let same = match last {
                Some(l) => str_eq(l.as_str(), u.as_str()),
                None => false,
            };
            if same {
                None
            } else {
                Some(u.clone())
            }
        },
        None => None,
    }
}

fn without_route(routes: &Vec<String>, cidr: &str) -> (r: Vec<String>)
    ensures
        r.deep_view() == routes_without(routes.deep_view(), cidr@),
{
    let mut out: Vec<String> = Vec::new();
    let mut i: usize = 0;
    while i < routes.len()
        invariant
            i <= routes@.len(),
            out.deep_view() == routes_without(routes.deep_view().subrange(0, i as int), cidr@),
        decreases routes@.len() - i,
    {
        let ghost pre = routes.deep_view().subrange(0, i as int);
        assert(routes.deep_view().subrange(0, i + 1).drop_last() =~= pre);
        if !str_eq(routes[i].as_str(), cidr) {
            let ghost before = out;
            let e = routes[i].clone();
            out.push(e);
            proof {
                lemma_push_deep(before, out, e);
            }
        }
        i = i + 1;
    }
    assert(routes.deep_view().subrange(0, routes@.len() as int) =~= routes.deep_view());
    out
}

fn strings_contain(routes: &Vec<String>, x: &str) -> (r: bool)
    ensures
        r == routes.deep_view().contains(x@),
{
    let mut i: usize = 0;
    while i < routes.len()
        invariant
            i <= routes@.len(),
            forall|j: int| 0 <= j < i ==> #[trigger] routes.deep_view()[j] != x@,
        decreases routes@.len() - i,
    {
        if str_eq(routes[i].as_str(), x) {
            assert(routes.deep_view()[i as int] == x@);
            return true;
        }
        i = i + 1;
    }
    false
}

impl GuiState {
    /// The window's first state around the snapshot fetched at start-up.
    pub fn boot(snap: GuiSnapshot) -> (s: GuiState)
        ensures
            s.dark,
            s.snap == snap,
            s.selection == Selection::ThisMachine,
            s.filter@.len() == 0,
            !s.busy,
            !s.switching,
            s.switching_to is None,
            s.switching_target is None,
            s.toast is None,
            !s.switcher_open,
            !s.manage,
            s.confirm_remove is None,
            s.last_login_url is None,
            s.netcheck is None,
            !s.netcheck_running,
            s.netcheck_error is None,
            !s.operator_dismissed,
            s.route_input@.len() == 0,
            !s.drilled,
    {
        GuiState {
            dark: true,
            snap,
            selection: Selection::ThisMachine,
            filter: String::new(),
            busy: false,
            switching: false,
            switching_to: None,
            switching_target: None,
            toast: None,
            switcher_open: false,
            manage: false,
            confirm_remove: None,
            last_login_url: None,
            netcheck: None,
            netcheck_running: false,
            netcheck_error: None,
            operator_dismissed: false,
            route_input: String::new(),
            drilled: false,
        }
    }
}

/// Opens a login URL that was not opened yet, and says so.
fn note_login(state: &mut GuiState, login: Option<String>) -> (fx: Vec<Effect>)
    ensures
        match login {
            Some(u) => {
                &&& opt_view(final(state).last_login_url) == Some(u@)
                &&& opt_is(final(state).toast, "Opened your browser to finish signing in"@)
                &&& fx@.len() == 2
                &&& fx@[0] matches Effect::OpenUrl(v) && v@ == u@
                &&& fx@[1] is DelayedClear
            },
            None => {
                &&& final(state).last_login_url == old(state).last_login_url
                &&& final(state).toast == old(state).toast
                &&& fx@.len() == 0
            },
        },
        *final(state) == (GuiState {
            last_login_url: final(state).last_login_url,
            toast: final(state).toast,
            ..*old(state)
        }),
{
    let mut fx: Vec<Effect> = Vec::new();
    if let Some(url) = login {
        state.last_login_url = Some(url.clone());
        state.toast = Some(String::from_str("Opened your browser to finish signing in"));
        fx.push(Effect::OpenUrl(url));
        fx.push(Effect::DelayedClear);
    }
    fx
}

/// Takes over a full refresh.
fn take_snapshot(state: &mut GuiState, snap: GuiSnapshot) -> (fx: Vec<Effect>)
    ensures
        snapshot_post(*old(state), snap, *final(state), fx@),
{
    let keep = match &state.selection {
        Selection::Peer(id) => peers_contain(&snap.peers, id.as_str()),
        _ => true,
    };
    if !keep {
        state.selection = Selection::ThisMachine;
    }
    let login = is_new_login(&snap.login_url, &state.last_login_url);
    state.snap = snap;
    state.busy = false;
    let arrived = state.snap.online && match &state.switching_target {
        Some(t) => str_eq(t.as_str(), state.snap.current_id.as_str()),
        None => false,
    };
    if arrived || state.snap.needs_login {
        state.switching = false;
        state.switching_to = None;
        state.switching_target = None;
    }
    note_login(state, login)
}

/// Applies a bus delta.
fn take_live(state: &mut GuiState, live: LiveState) -> (fx: Vec<Effect>)
    ensures
        live_post(*old(state), live, *final(state), fx@),
{
    let login = is_new_login(&live.browse_to_url, &state.last_login_url);
    state.snap.apply_live(&live);
    state.busy = false;
    if state.snap.needs_login {
        state.switching = false;
        state.switching_to = None;
        state.switching_target = None;
    }
    note_login(state, login)
}

/// Asks for a daemon call and waits for its refetch.
fn call(state: &mut GuiState, a: Action) -> (fx: Vec<Effect>)
    ensures
        calls(*old(state), a, *final(state), fx@),
{
    state.busy = true;
    let mut fx: Vec<Effect> = Vec::new();
    fx.push(Effect::Act(a));
    fx
}

/// Switches to tailnet `id` unless it is the current one.
fn switch_tailnet(state: &mut GuiState, id: String) -> (fx: Vec<Effect>)
    ensures
        switch_post(*old(state), id, *final(state), fx@),
{
    state.switcher_open = false;
    state.manage = false;
    if str_eq(id.as_str(), state.snap.current_id.as_str()) {
        return Vec::new();
    }
    state.switching_to = label_for(&state.snap.tailnets, id.as_str());
    state.switching_target = Some(id.clone());
    state.snap.current_id = id.clone();
    state.busy = true;
    state.switching = true;
    let mut fx: Vec<Effect> = Vec::new();
    fx.push(Effect::Fire(Action::SwitchProfile(id)));
    fx.push(Effect::SwitchingTimeout);
    fx
}

/// Adds the drafted route to the advertised ones, if it is a CIDR prefix.
fn add_route(state: &mut GuiState) -> (fx: Vec<Effect>)
    ensures
        add_route_post(*old(state), *final(state), fx@),
{
    let cidr = trimmed(state.route_input.as_str());
    if !is_valid_cidr(cidr.as_str()) {
        let mut t = String::from_str("Invalid CIDR: ");
        push_str(&mut t, cidr.as_str());
        state.toast = Some(t);
        let mut fx: Vec<Effect> = Vec::new();
        fx.push(Effect::DelayedClear);
        return fx;
    }
    let mut routes = clone_strings(&state.snap.advertised_routes);
    if !strings_contain(&routes, cidr.as_str()) {
        let ghost before = routes;
        routes.push(cidr.clone());
        proof {
            lemma_push_deep(before, routes, cidr);
        }
    }
    state.route_input = String::new();
    state.busy = true;
    let mut fx: Vec<Effect> = Vec::new();
    fx.push(Effect::Act(Action::SetAdvertiseRoutes(routes)));
    fx
}

/// Moves the window's state by one message and returns the effects to run.
#[verifier::spinoff_prover]
#[verifier::rlimit(40)]
pub fn update(state: &mut GuiState, message: Message) -> (fx: Vec<Effect>)
    ensures
        update_post(*old(state), message, *final(state), fx@),
{
    let fx = match message {
        Message::Noop => Vec::new(),
        Message::Snapshot(snap) => take_snapshot(state, snap),
        Message::Live(live) => take_live(state, live),
        Message::Select(sel) => {
            state.selection = sel;
            state.drilled = true;
            Vec::new()
        },
        Message::Back => {
            state.drilled = false;
            Vec::new()
        },
        Message::ClearSwitching => {
            state.switching = false;
            state.switching_to = None;
            state.switching_target = None;
            state.busy = false;
            Vec::new()
        },
        Message::Filter(f) => {
            state.filter = f;
            Vec::new()
        },
        Message::SwitchTailnet(id) => switch_tailnet(state, id),
        Message::ToggleConnection => {
            let online = state.snap.online;
            call(state, Action::SetWantRunning(!online))
        },
        Message::SetAcceptRoutes(v) => call(state, Action::SetAcceptRoutes(v)),
        Message::SetAdvertiseExit(v) => call(state, Action::SetAdvertiseExitNode(v)),
        Message::SetAllowLan(v) => call(state, Action::SetExitNodeAllowLan(v)),
        Message::UseExitNode(id) => call(state, Action::SetExitNode(id)),
        Message::UseExitNodeAuto => call(state, Action::UseSuggestedExitNode),
        Message::ClearExitNode => call(state, Action::ClearExitNode),
        Message::Copy(value) => {
            let mut toast = String::from_str("Copied ");
            push_str(&mut toast, value.as_str());
            let mut fx: Vec<Effect> = Vec::new();
            fx.push(Effect::CopyToClipboard(value));
            fx.push(Effect::ShowToast(toast));
            fx
        },
        Message::ToggleTheme => {
            state.dark = !state.dark;
            Vec::new()
        },
        Message::OpenAdmin => {
            let mut fx: Vec<Effect> = Vec::new();
            fx.push(Effect::OpenUrl(String::from_str(ADMIN_URL)));
            fx
        },
        Message::Toast(t) => {
            state.toast = Some(t);
            let mut fx: Vec<Effect> = Vec::new();
            fx.push(Effect::DelayedClear);
            fx
        },
        Message::ClearToast => {
            state.toast = None;
            Vec::new()
        },
        Message::ToggleSwitcher => {
            state.switcher_open = !state.switcher_open;
            state.manage = false;
            state.confirm_remove = None;
            Vec::new()
        },
        Message::CloseSwitcher => {
            state.switcher_open = false;
            state.manage = false;
            state.confirm_remove = None;
            Vec::new()
        },
        Message::ToggleManage => {
            state.manage = !state.manage;
            state.confirm_remove = None;
            Vec::new()
        },
        Message::RequestRemove(id) => {
            state.confirm_remove = Some(id);
            Vec::new()
        },
        Message::CancelRemove => {
            state.confirm_remove = None;
            Vec::new()
        },
        Message::ConfirmRemove(id) => {
            state.confirm_remove = None;
            state.busy = true;
            let mut fx: Vec<Effect> = Vec::new();
            fx.push(Effect::Act(Action::DeleteProfile(id)));
            fx
        },
        Message::StartLogin => {
            state.busy = true;
            state.toast = Some(String::from_str("Opening your browser to sign in…"));
            let mut fx: Vec<Effect> = Vec::new();
            fx.push(Effect::Act(Action::StartLogin));
            fx.push(Effect::DelayedClear);
            fx
        },
        Message::AddTailnet => {
            state.switcher_open = false;
            state.manage = false;
            state.busy = true;
            state.toast = Some(
                String::from_str("Creating tailnet — opening your browser to sign in…"),
            );
            let mut fx: Vec<Effect> = Vec::new();
            fx.push(Effect::Act(Action::NewProfileThenLogin));
            fx.push(Effect::DelayedClear);
            fx
        },
        Message::RunNetcheck => {
            state.netcheck_running = true;
            state.netcheck_error = None;
            let mut fx: Vec<Effect> = Vec::new();
            fx.push(Effect::RunNetcheck);
            fx
        },
        Message::NetcheckDone(report) => {
            state.netcheck_running = false;
            state.netcheck = Some(report);
            state.netcheck_error = None;
            Vec::new()
        },
        Message::NetcheckFailed(msg) => {
            state.netcheck_running = false;
            state.netcheck_error = Some(msg);
            Vec::new()
        },
        Message::DismissOperator => {
            state.operator_dismissed = true;
            Vec::new()
        },
        Message::Retry => {
            let mut fx: Vec<Effect> = Vec::new();
            fx.push(Effect::Act(Action::Refresh));
            fx
        },
        Message::RouteInput(r) => {
            state.route_input = r;
            Vec::new()
        },
        Message::AddRoute => add_route(state),
        Message::RemoveRoute(cidr) => {
            let routes = without_route(&state.snap.advertised_routes, cidr.as_str());
            state.busy = true;
            let mut fx: Vec<Effect> = Vec::new();
            fx.push(Effect::Act(Action::SetAdvertiseRoutes(routes)));
            fx
        },
    };
    fx
}

// ---------------------------------------------------------------------------
// What the window shows
// ---------------------------------------------------------------------------

/// Whether a peer named `name` passes the sidebar filter: an empty filter
/// passes every peer, else the lowercased name must contain the lowercased
/// filter.
pub open spec fn passes_filter(name: Seq<char>, filter: Seq<char>) -> bool {
    lowercase(filter).len() == 0 || has_infix(lowercase(name), lowercase(filter))
}

/// Whether a peer named `name` passes the sidebar filter `filter`.
pub fn matches_filter(name: &str, filter: &str) -> (r: bool)
    ensures
        r == passes_filter(name@, filter@),
{
    let q = to_lowercase(filter);
    if is_empty_str(q.as_str()) {
        return true;
    }
    let n = to_lowercase(name);
    contains_text(n.as_str(), q.as_str())
}

/// The positions, in order, of the peers for which `keep` holds.
pub open spec fn positions(peers: Seq<PeerView>, keep: spec_fn(PeerView) -> bool) -> Seq<usize>
    decreases peers.len(),
{
    if peers.len() == 0 {
        Seq::empty()
    } else {
        let r = positions(peers.drop_last(), keep);
        if keep(peers.last()) {
            r.push((peers.len() - 1) as usize)
        } else {
            r
        }
    }
}

/// The positions of the peers that the sidebar lists under `filter`.
pub fn visible_peers(peers: &Vec<PeerView>, filter: &str) -> (r: Vec<usize>)
    ensures
        r@ == positions(peers@, |v: PeerView| passes_filter(v.name@, filter@)),
{
    let ghost keep = |v: PeerView| passes_filter(v.name@, filter@);
    let mut out: Vec<usize> = Vec::new();
    let mut i: usize = 0;
    while i < peers.len()
        invariant
            i <= peers@.len(),
            keep == (|v: PeerView| passes_filter(v.name@, filter@)),
            out@ == positions(peers@.subrange(0, i as int), keep),
        decreases peers@.len() - i,
    {
        let ghost next = peers@.subrange(0, i + 1);
        assert(next.drop_last() =~= peers@.subrange(0, i as int));
        if matches_filter(peers[i].name.as_str(), filter) {
            out.push(i);
        }
        i = i + 1;
    }
    assert(peers@.subrange(0, peers@.len() as int) =~= peers@);
    out
}

/// The sort keys of the exit-node candidates: their names, lowercased.
pub open spec fn option_keys(peers: Seq<PeerView>, opts: Seq<usize>) -> Seq<Seq<char>> {
    Seq::new(opts.len(), |k: int| lowercase(peers[opts[k] as int].name@))
}

/// The positions of the peers offered as exit nodes, sorted by lowercased
/// name (equal names in list order).
pub fn exit_candidates(peers: &Vec<PeerView>) -> (r: Vec<usize>)
    ensures
        ({
            let opts = positions(peers@, |v: PeerView| v.exit_node_option);
            stably_sorted(opts, option_keys(peers@, opts), r@)
        }),
{
    let ghost keep = |v: PeerView| v.exit_node_option;
    let mut opts: Vec<usize> = Vec::new();
    let mut keys: Vec<Vec<char>> = Vec::new();
    let mut i: usize = 0;
    while i < peers.len()
        invariant
            i <= peers@.len(),
            keep == (|v: PeerView| v.exit_node_option),
            opts@ == positions(peers@.subrange(0, i as int), keep),
            keys@.len() == opts@.len(),
            forall|k: int| 0 <= k < opts@.len() ==> (#[trigger] opts@[k]) < i,
            forall|k: int|
                0 <= k < keys@.len() ==> #[trigger] keys@[k]@ == lowercase(
                    peers@[opts@[k] as int].name@,
                ),
        decreases peers@.len() - i,
    {
        let ghost next = peers@.subrange(0, i + 1);
        assert(next.drop_last() =~= peers@.subrange(0, i as int));
        if peers[i].exit_node_option {
            opts.push(i);
            keys.push(chars_of(to_lowercase(peers[i].name.as_str()).as_str()));
        }
        i = i + 1;
    }
    assert(peers@.subrange(0, peers@.len() as int) =~= peers@);
    let ghost o = opts@;
    assert forall|k: int| 0 <= k < keys@.len() implies keys.deep_view()[k] == option_keys(peers@, o)[k] by {
        assert(keys.deep_view()[k] =~= keys@[k]@);
    }
    assert(keys.deep_view() =~= option_keys(peers@, o));
    sort_by_text_keys(opts, keys)
}

/// The last dot-separated part of an address, after an ellipsis: what the
/// sidebar shows beside a peer.
pub fn addr_tail(addr: &str) -> (r: String)
    ensures
        r@ == "…"@ + after_last(addr@, '.'),
{
    let mut out = String::from_str("…");
    let tail = after_last_char(addr, '.');
    push_str(&mut out, tail.as_str());
    out
}

/// The label of an address row: IPv6 for an address with a colon, else IPv4.
pub fn addr_family(addr: &str) -> (r: &'static str)
    ensures
        r@ == (if index_of(addr@, ':') is Some {
            "IPv6"@
        } else {
            "IPv4"@
        }),
{
    if crate::text::contains_char(addr, ':') {
        "IPv6"
    } else {
        "IPv4"
    }
}

/// How a peer is reached: offline, direct, or through a DERP relay.
pub open spec fn connection_text(p: PeerView) -> Seq<char> {
    if !p.online {
        "Offline"@
    } else if p.relay@.len() == 0 {
        "Direct"@
    } else {
        "Relay · DERP "@ + p.relay@
    }
}

/// When a peer was last seen: now when online; unknown when the daemon
/// never saw it; else the timestamp cut to `YYYY-MM-DD HH:MM`.
pub open spec fn last_seen_text(p: PeerView) -> Seq<char> {
    if p.online {
        "Active now"@
    } else if p.last_seen@.len() == 0 || has_prefix(p.last_seen@, "0001-01-01"@) {
        "Unknown"@
    } else {
        take_chars(replace_char(p.last_seen@, 'T', ' '), 16)
    }
}

/// The line under a peer's name: its DNS name, and its OS when known.
pub open spec fn peer_subtitle_text(p: PeerView) -> Seq<char> {
    if p.os@.len() == 0 {
        p.fqdn@
    } else {
        p.fqdn@ + "  ·  "@ + p.os@
    }
}

/// The line under an exit-node candidate: its relay, else whether it is
/// online.
pub open spec fn exit_option_text(p: PeerView) -> Seq<char> {
    if p.relay@.len() != 0 {
        "DERP "@ + p.relay@
    } else if p.online {
        "online"@
    } else {
        "offline"@
    }
}

impl PeerView {
    /// How the peer is reached.
    pub fn connection_label(&self) -> (r: String)
        ensures
            r@ == connection_text(*self),
    {
        if !self.online {
            String::from_str("Offline")
        } else if is_empty_str(self.relay.as_str()) {
            String::from_str("Direct")
        } else {
            let mut t = String::from_str("Relay · DERP ");
            push_str(&mut t, self.relay.as_str());
            t
        }
    }

    /// When the peer was last seen.
    pub fn last_seen_label(&self) -> (r: String)
        ensures
            r@ == last_seen_text(*self),
    {
        if self.online {
            String::from_str("Active now")
        } else if is_empty_str(self.last_seen.as_str()) || starts_with(
            self.last_seen.as_str(),
            "0001-01-01",
        ) {
            String::from_str("Unknown")
        } else {
            let t = replaced(self.last_seen.as_str(), 'T', ' ');
            first_chars(t.as_str(), 16)
        }
    }

    /// The line under the peer's name.
    pub fn subtitle(&self) -> (r: String)
        ensures
            r@ == peer_subtitle_text(*self),
    {
        let mut t = self.fqdn.clone();
        if !is_empty_str(self.os.as_str()) {
            push_str(&mut t, "  ·  ");
            push_str(&mut t, self.os.as_str());
        }
        t
    }

    /// The line under the peer in the exit-node picker.
    pub fn exit_option_label(&self) -> (r: String)
        ensures
            r@ == exit_option_text(*self),
    {
        if !is_empty_str(self.relay.as_str()) {
            let mut t = String::from_str("DERP ");
            push_str(&mut t, self.relay.as_str());
            t
        } else if self.online {
            String::from_str("online")
        } else {
            String::from_str("offline")
        }
    }
}

/// The header's status pill.
pub fn status_label(switching: bool, online: bool) -> (r: &'static str)
    ensures
        r@ == (if switching {
            "Switching"@
        } else if online {
            "Connected"@
        } else {
            "Disconnected"@
        }),
{
    if switching {
        "Switching"
    } else if online {
        "Connected"
    } else {
        "Disconnected"
    }
}

/// The header's tailnet chip: the current tailnet's position (for its
/// colour), label and login name.
pub struct TailnetChip {
    pub index: usize,
    pub name: String,
    pub email: String,
}

impl GuiSnapshot {
    /// The header's tailnet chip: the first tailnet whose ID is the current
    /// one, else position 0 and "No tailnet".
    pub fn tailnet_chip(&self) -> (c: TailnetChip)
        ensures
            match index_of_id(self.tailnets@, self.current_id@) {
                Some(k) => {
                    &&& c.index == k
                    &&& c.name@ == profile_label(self.tailnets@[k])
                    &&& c.email@ == self.tailnets@[k].user.login_name@
                },
                None => c.index == 0 && c.name@ == "No tailnet"@ && c.email@.len() == 0,
            },
    {
        match find_tailnet_by_id(&self.tailnets, self.current_id.as_str()) {
            Some(k) => {
                proof {
                    lemma_index_of_id(self.tailnets@, self.current_id@, 0);
                }
                TailnetChip {
                    index: k,
                    name: self.tailnets[k].label(),
                    email: self.tailnets[k].user.login_name.clone(),
                }
            },
            None => TailnetChip { index: 0, name: String::from_str("No tailnet"), email: String::new() },
        }
    }

    /// Whether some peer is the active exit node.
    pub fn exit_active(&self) -> (r: bool)
        ensures
            r == exists|i: int| 0 <= i < self.peers@.len() && #[trigger] self.peers@[i].exit_node,
    {
        let mut i: usize = 0;
        while i < self.peers.len()
            invariant
                i <= self.peers@.len(),
                forall|j: int| 0 <= j < i ==> !#[trigger] self.peers@[j].exit_node,
            decreases self.peers@.len() - i,
        {
            if self.peers[i].exit_node {
                return true;
            }
            i = i + 1;
        }
        false
    }
}

impl GuiState {
    /// Whether the window shows the full-window welcome: logged out, and not
    /// in the middle of a switch.
    pub fn shows_welcome(&self) -> (r: bool)
        ensures
            r == (!self.switching && self.snap.reachable && self.snap.needs_login),
    {
        !self.switching && self.snap.reachable && self.snap.needs_login
    }

    /// Whether the netcheck button starts a check: not while one runs.
    pub fn can_run_netcheck(&self) -> (r: bool)
        ensures
            r == !self.netcheck_running,
    {
        !self.netcheck_running
    }

    /// Whether the window shows the operator banner.
    pub fn shows_operator_banner(&self) -> (r: bool)
        ensures
            r == (!self.snap.operator_ok && !self.operator_dismissed),
    {
        !self.snap.operator_ok && !self.operator_dismissed
    }
}

// ---------------------------------------------------------------------------
// Netcheck report
// ---------------------------------------------------------------------------

/// A tri-state answer as text: yes, no, or `unknown`.
pub fn tri_state(b: Option<bool>, unknown: &'static str) -> (r: &'static str)
    ensures
        r@ == match b {
            Some(true) => "yes"@,
            Some(false) => "no"@,
            None => unknown@,
        },
{
    match b {
        Some(true) => "yes",
        Some(false) => "no",
        None => unknown,
    }
}

/// The NAT-traversal line of the netcheck card.
pub open spec fn nat_summary_text(r: NetcheckReport) -> Seq<char> {
    let t = |b: Option<bool>|
        match b {
            Some(true) => "yes"@,
            Some(false) => "no"@,
            None => "—"@,
        };
    "UPnP "@ + t(r.upnp) + " · PMP "@ + t(r.pmp) + " · PCP "@ + t(r.pcp)
}

/// One line of the netcheck card: what was checked, whether it is fine,
/// and the detail shown beside it.
pub struct CheckRow {
    pub label: String,
    pub ok: bool,
    pub detail: String,
}

/// The values of a check line.
pub open spec fn row_view(r: CheckRow) -> (Seq<char>, bool, Seq<char>) {
    (r.label@, r.ok, r.detail@)
}

/// The lines of the netcheck card, top to bottom.
pub open spec fn check_rows_spec(r: NetcheckReport) -> Seq<(Seq<char>, bool, Seq<char>)> {
    seq![
        ("UDP"@, r.udp, if r.udp {
            "working"@
        } else {
            "blocked"@
        }),
        ("IPv4"@, r.ipv4, r.global_v4@),
        ("IPv6"@, r.ipv6, if r.ipv6 {
            r.global_v6@
        } else {
            "not available"@
        }),
        ("NAT traversal"@, r.upnp == Some(true) || r.pmp == Some(true) || r.pcp == Some(true),
            nat_summary_text(r)),
        ("Captive portal"@, r.captive_portal != Some(true), if r.captive_portal == Some(true) {
            "detected"@
        } else {
            "none"@
        }),
    ]
}

/// The captive-portal row of a netcheck: it is not ok, and reads
/// "detected", exactly when the report says a captive portal was found;
/// otherwise it is ok and reads "none", the same whether the report says
/// there is none or does not know.
pub proof fn law_captive_portal_row(r: NetcheckReport)
    ensures
        check_rows_spec(r).len() == 5,
        check_rows_spec(r)[4].0 == "Captive portal"@,
        check_rows_spec(r)[4].1 <==> r.captive_portal != Some(true),
        r.captive_portal == Some(true) ==> check_rows_spec(r)[4].2 == "detected"@,
        r.captive_portal != Some(true) ==> check_rows_spec(r)[4].2 == "none"@,
        check_rows_spec(NetcheckReport { captive_portal: Some(false), ..r })[4] == check_rows_spec(
            NetcheckReport { captive_portal: None, ..r },
        )[4],
{
}

impl NetcheckReport {
    /// Whether some port-mapping protocol works.
    pub fn nat_traversal(&self) -> (r: bool)
        ensures
            r == (self.upnp == Some(true) || self.pmp == Some(true) || self.pcp == Some(true)),
    {
        self.upnp == Some(true) || self.pmp == Some(true) || self.pcp == Some(true)
    }

    /// The NAT-traversal line: `UPnP yes · PMP no · PCP —`.
    pub fn nat_summary(&self) -> (r: String)
        ensures
            r@ == nat_summary_text(*self),
    {
        let mut t = String::from_str("UPnP ");
        push_str(&mut t, tri_state(self.upnp, "—"));
        push_str(&mut t, " · PMP ");
        push_str(&mut t, tri_state(self.pmp, "—"));
        push_str(&mut t, " · PCP ");
        push_str(&mut t, tri_state(self.pcp, "—"));
        t
    }

    /// The lines of the netcheck card.
    pub fn check_rows(&self) -> (rows: Vec<CheckRow>)
        ensures
            rows@.map_values(|c: CheckRow| row_view(c)) == check_rows_spec(*self),
    {
        let mut rows: Vec<CheckRow> = Vec::new();
        rows.push(
            CheckRow {
                label: String::from_str("UDP"),
                ok: self.udp,
                detail: String::from_str(
                    if self.udp {
                        "working"
                    } else {
                        "blocked"
                    },
                ),
            },
        );
        rows.push(
            CheckRow {
                label: String::from_str("IPv4"),
                ok: self.ipv4,
                detail: self.global_v4.clone(),
            },
        );
        rows.push(
            CheckRow {
                label: String::from_str("IPv6"),
                ok: self.ipv6,
                detail: if self.ipv6 {
                    self.global_v6.clone()
                } else {
                    String::from_str("not available")
                },
            },
        );
        rows.push(
            CheckRow {
                label: String::from_str("NAT traversal"),
                ok: self.nat_traversal(),
                detail: self.nat_summary(),
            },
        );
        let captive = self.captive_portal == Some(true);
        rows.push(
            CheckRow {
                label: String::from_str("Captive portal"),
                ok: !captive,
                detail: String::from_str(
                    if captive {
                        "detected"
                    } else {
                        "none"
                    },
                ),
            },
        );
        assert(rows@.map_values(|c: CheckRow| row_view(c)) =~= check_rows_spec(*self));
        rows
    }

    /// The regions by ascending latency: the nearest relay first. The
    /// report holds each region once, as the daemon's map of regions does.
    pub fn nearest_regions(&self) -> (r: Vec<(String, i64)>)
        requires
            self.regions_distinct(),
        ensures
            sorted_by_number(
                self.region_latency@,
                self.region_latency@.map_values(|x: (String, i64)| x.1),
                r@,
            ),
    {
        let mut items: Vec<(String, i64)> = Vec::new();
        let mut keys: Vec<i64> = Vec::new();
        let mut i: usize = 0;
        while i < self.region_latency.len()
            invariant
                i <= self.region_latency@.len(),
                items@ == self.region_latency@.subrange(0, i as int),
                keys@ == self.region_latency@.subrange(0, i as int).map_values(
                    |x: (String, i64)| x.1,
                ),
            decreases self.region_latency@.len() - i,
        {
            let region = self.region_latency[i].0.clone();
            let ns = self.region_latency[i].1;
            items.push((region, ns));
            keys.push(ns);
            assert(items@ =~= self.region_latency@.subrange(0, i + 1));
            assert(keys@ =~= self.region_latency@.subrange(0, i + 1).map_values(
                |x: (String, i64)| x.1,
            ));
            i = i + 1;
        }
        assert(self.region_latency@.subrange(0, i as int) =~= self.region_latency@);
        sort_by_number(items, keys)
    }

    /// The regions the window lists under the check: the nearest
    /// [`SHOWN_REGIONS`] of them, nearest first.
    pub fn shown_regions(&self) -> (r: Vec<(String, i64)>)
        requires
            self.regions_distinct(),
        ensures
            exists|all: Seq<(String, i64)>|
                {
                    &&& sorted_by_number(
                        self.region_latency@,
                        self.region_latency@.map_values(|x: (String, i64)| x.1),
                        all,
                    )
                    &&& r@ == all.subrange(
                        0,
                        if all.len() < SHOWN_REGIONS {
                            all.len() as int
                        } else {
                            SHOWN_REGIONS as int
                        },
                    )
                },
    {
        let mut all = self.nearest_regions();
        let ghost full = all@;
        all.truncate(SHOWN_REGIONS);
        proof {
            if full.len() < SHOWN_REGIONS {
                assert(full.subrange(0, full.len() as int) =~= full);
            }
        }
        all
    }
}

/// One tailnet row of the switcher popover.
#[derive(Debug, Clone)]
pub struct SwitcherRow {
    /// The tailnet's profile ID, which a click switches to or removes.
    pub id: String,
    /// The tailnet's name as shown.
    pub label: String,
    /// The account signed in to it.
    pub login: String,
    /// Whether it is the current tailnet (marked with a check).
    pub active: bool,
    /// Whether its remove confirmation is open (only while managing).
    pub confirming: bool,
}

impl GuiState {
    /// The switcher's rows: one per tailnet, in order.
    pub fn switcher_rows(&self) -> (r: Vec<SwitcherRow>)
        ensures
            r@.len() == self.snap.tailnets@.len(),
            forall|i: int|
                0 <= i < r@.len() ==> {
                    let t = self.snap.tailnets@[i];
                    &&& (#[trigger] r@[i]).id@ == t.id@
                    &&& r@[i].label@ == profile_label(t)
                    &&& r@[i].login@ == t.user.login_name@
                    &&& r@[i].active == (t.id@ == self.snap.current_id@)
                    &&& r@[i].confirming == (self.manage && opt_view(self.confirm_remove) == Some(
                        t.id@,
                    ))
                },
    {
        let mut r: Vec<SwitcherRow> = Vec::new();
        let mut i: usize = 0;
        while i < self.snap.tailnets.len()
            invariant
                i <= self.snap.tailnets@.len(),
                r@.len() == i,
                forall|j: int|
                    0 <= j < i ==> {
                        let t = self.snap.tailnets@[j];
                        &&& (#[trigger] r@[j]).id@ == t.id@
                        &&& r@[j].label@ == profile_label(t)
                        &&& r@[j].login@ == t.user.login_name@
                        &&& r@[j].active == (t.id@ == self.snap.current_id@)
                        &&& r@[j].confirming == (self.manage && opt_view(self.confirm_remove)
                            == Some(t.id@))
                    },
            decreases self.snap.tailnets@.len() - i,
        {
            let t = &self.snap.tailnets[i];
            let active = str_eq(t.id.as_str(), self.snap.current_id.as_str());
            let confirming = self.manage && match &self.confirm_remove {
                Some(c) => str_eq(c.as_str(), t.id.as_str()),
                None => false,
            };
            r.push(
                SwitcherRow {
                    id: t.id.clone(),
                    label: t.label(),
                    login: t.user.login_name.clone(),
                    active,
                    confirming,
                },
            );
            i = i + 1;
        }
        r
    }

    /// The label of the connection button: what pressing it does.
    pub fn connection_button_label(&self) -> (r: &'static str)
        ensures
            r@ == (if self.snap.online {
                "Disconnect"@
            } else {
                "Connect"@
            }),
    {
        if self.snap.online {
            "Disconnect"
        } else {
            "Connect"
        }
    }

    /// Whether the connection button can be pressed: not while a change is
    /// under way.
    pub fn can_toggle_connection(&self) -> (r: bool)
        ensures
            r == !self.busy,
    {
        !self.busy
    }

    /// The caption over the peer list: `PEERS · ` and how many peers the
    /// tailnet has.
    pub fn peers_caption(&self) -> (r: String)
        ensures
            r@ == "PEERS · "@ + dec_digits(self.snap.peers@.len()),
    {
        let mut t = String::from_str("PEERS · ");
        let n = decimal(self.snap.peers.len() as u64);
        push_str(&mut t, n.as_str());
        t
    }

    /// Whether this machine's details show a MagicDNS row: when it has a
    /// DNS name.
    pub fn shows_magic_dns(&self) -> (r: bool)
        ensures
            r == (self.snap.fqdn@.len() != 0),
    {
        !is_empty_str(self.snap.fqdn.as_str())
    }

    /// Whether the advertised-routes list says that none are advertised.
    pub fn shows_no_routes(&self) -> (r: bool)
        ensures
            r == (self.snap.advertised_routes@.len() == 0),
    {
        self.snap.advertised_routes.len() == 0
    }
}

} // verus!
