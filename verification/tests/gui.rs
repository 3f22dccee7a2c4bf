use alavai::gui::{
    Action, Effect, GuiSnapshot, GuiState, Message, PeerAction, PeerView, Selection, addr_family, addr_tail,
    exit_candidates, is_valid_cidr, matches_filter, shown_peers, status_label, tri_state, update,
    visible_peers, ADMIN_URL,
};
use alavai::localapi::{
    LiveState, NetcheckReport, NetworkProfile, Node, Peer, Prefs, Profile, Status, UserProfile,
};

fn s(x: &str) -> String {
    x.to_string()
}

fn strings(xs: &[&str]) -> Vec<String> {
    xs.iter().map(|x| x.to_string()).collect()
}

fn peer(id: &str, hostname: &str, dns: &str, exit_option: bool) -> Peer {
    Peer {
        id: s(id),
        hostname: s(hostname),
        dns_name: s(dns),
        os: s("linux"),
        tailscale_ips: strings(&["fd7a:115c:a1e0::5", "100.100.0.5"]),
        online: true,
        exit_node: false,
        exit_node_option: exit_option,
        active: false,
        rx_bytes: 0,
        tx_bytes: 0,
        relay: String::new(),
        last_seen: String::new(),
        last_handshake: String::new(),
        primary_routes: Vec::new(),
    }
}

fn profile(id: &str, domain: &str) -> Profile {
    Profile {
        id: s(id),
        name: String::new(),
        network: NetworkProfile { domain: s(domain), display_name: String::new() },
        user: UserProfile { login_name: format!("me@{domain}") },
    }
}

fn view(name: &str, exit_option: bool) -> PeerView {
    PeerView {
        id: format!("id-{name}"),
        name: s(name),
        fqdn: format!("{name}.ts.net"),
        os: s("linux"),
        online: true,
        addrs: strings(&["100.100.0.7"]),
        exit_node: false,
        exit_node_option: exit_option,
        relay: String::new(),
        last_seen: String::new(),
        routes: Vec::new(),
    }
}

fn snapshot() -> GuiSnapshot {
    GuiSnapshot {
        online: true,
        machine: s("laptop"),
        fqdn: s("laptop.ts.net"),
        os: s("linux"),
        self_relay: s("syd"),
        addrs: strings(&["100.100.0.1"]),
        tailnets: vec![profile("a", "home.ts.net"), profile("b", "work.ts.net")],
        current_id: s("a"),
        accept_routes: false,
        advertise_exit_node: false,
        allow_lan: false,
        advertised_routes: strings(&["10.0.0.0/8"]),
        peers: vec![view("alpha", true), view("beta", false)],
        login_url: None,
        reachable: true,
        operator_ok: true,
        needs_login: false,
    }
}

fn live() -> LiveState {
    LiveState::default()
}

#[test]
fn primary_addr_prefers_ipv4() {
    let mut v = view("x", false);
    v.addrs = strings(&["fd7a::1", "100.1.2.3"]);
    assert_eq!(v.primary_addr(), "100.1.2.3");
    v.addrs = strings(&["fd7a::1"]);
    assert_eq!(v.primary_addr(), "fd7a::1");
    v.addrs = Vec::new();
    assert_eq!(v.primary_addr(), "");
}

#[test]
fn peers_are_listed_by_lowercased_name() {
    let peers = vec![
        peer("1", "zeta", "zeta.ts.net.", false),
        peer("2", "", "Alpha.ts.net.", false),
        peer("3", "beta", "beta.ts.net.", true),
        peer("4", "Beta", "b2.ts.net.", false),
    ];
    let shown = shown_peers(&peers);
    let names: Vec<&str> = shown.iter().map(|p| p.name.as_str()).collect();
    assert_eq!(names, vec!["Alpha.ts.net", "beta", "Beta", "zeta"]);
    assert_eq!(shown[0].fqdn, "Alpha.ts.net");
    assert_eq!(shown[1].id, "3");
    assert!(shown[1].exit_node_option);
}

#[test]
fn fetch_builds_the_snapshot() {
    let st = Status {
        backend_state: s("Running"),
        version: s("1.98.4"),
        tailscale_ips: strings(&["100.100.0.1"]),
        self_node: Some(Node {
            hostname: s("laptop"),
            dns_name: s("laptop.ts.net."),
            os: s("linux"),
            relay: s("syd"),
        }),
        peers: vec![peer("2", "b", "b.ts.net.", false), peer("1", "a", "a.ts.net.", true)],
    };
    let p = Prefs {
        control_url: String::new(),
        route_all: true,
        exit_node_id: String::new(),
        exit_node_ip: String::new(),
        exit_node_allow_lan: true,
        advertise_routes: strings(&["10.0.0.0/8", "::/0", "0.0.0.0/0"]),
        want_running: true,
        operator_user: s("alex"),
        profile_name: String::new(),
    };
    let profiles = vec![profile("a", "home.ts.net"), profile("", "")];
    let snap = GuiSnapshot::fetch(Some(&st), Some(&p), Some("bob"), Some(profiles), Some(profile("a", "home.ts.net")));
    assert!(snap.online && snap.reachable && !snap.needs_login);
    assert!(!snap.operator_ok);
    assert_eq!(snap.machine, "laptop");
    assert_eq!(snap.fqdn, "laptop.ts.net");
    assert_eq!(snap.self_relay, "syd");
    assert_eq!(snap.peers[0].name, "a");
    assert_eq!(snap.tailnets.len(), 1);
    assert_eq!(snap.current_id, "a");
    assert!(snap.accept_routes && snap.advertise_exit_node && snap.allow_lan);
    assert_eq!(snap.advertised_routes, vec!["10.0.0.0/8"]);
    assert!(snap.login_url.is_none());

    let down = GuiSnapshot::fetch(None, None, Some("alex"), None, None);
    assert!(!down.reachable && !down.online && down.operator_ok);
    assert!(down.peers.is_empty() && down.tailnets.is_empty());
    let same_user = GuiSnapshot::fetch(None, Some(&p), Some("alex"), None, None);
    assert!(same_user.operator_ok);
}

#[test]
fn fetch_sees_needs_login() {
    let st = Status {
        backend_state: s("NeedsLogin"),
        version: String::new(),
        tailscale_ips: Vec::new(),
        self_node: None,
        peers: Vec::new(),
    };
    let snap = GuiSnapshot::fetch(Some(&st), None, None, None, None);
    assert!(snap.needs_login && !snap.online && snap.reachable);
    assert_eq!(snap.machine, "");
}

#[test]
fn live_delta_applies_in_place() {
    let mut snap = snapshot();
    let mut l = live();
    l.online = false;
    l.accept_routes = true;
    l.advertised_routes = strings(&["192.168.0.0/24"]);
    l.os = s("freebsd");
    snap.apply_live(&l);
    assert!(!snap.online && snap.accept_routes);
    assert_eq!(snap.machine, "laptop");
    assert_eq!(snap.os, "freebsd");
    assert_eq!(snap.advertised_routes, vec!["192.168.0.0/24"]);
    assert_eq!(snap.peers.len(), 2);
}

#[test]
fn cidr_validation() {
    assert!(is_valid_cidr("192.168.1.0/24"));
    assert!(is_valid_cidr("fd00::/8"));
    assert!(is_valid_cidr("10.0.0.0/32"));
    assert!(!is_valid_cidr("10.0.0.0/33"));
    assert!(is_valid_cidr("fd00::/128"));
    assert!(!is_valid_cidr("fd00::/129"));
    assert!(!is_valid_cidr("10.0.0.0"));
    assert!(!is_valid_cidr("not/8"));
    assert!(!is_valid_cidr("10.0.0.0/x"));
    assert!(!is_valid_cidr("10.0.0.0/"));
}

#[test]
fn switching_tailnets_is_optimistic() {
    let mut st = GuiState::boot(snapshot());
    let fx = update(&mut st, Message::SwitchTailnet(s("b")));
    assert!(st.switching && st.busy);
    assert_eq!(st.snap.current_id, "b");
    assert_eq!(st.switching_to.as_deref(), Some("work.ts.net"));
    assert_eq!(st.switching_target.as_deref(), Some("b"));
    assert!(matches!(fx.as_slice(), [Effect::Fire(Action::SwitchProfile(id)), Effect::SwitchingTimeout] if id == "b"));

    let mut snap = snapshot();
    snap.current_id = s("b");
    let fx = update(&mut st, Message::Snapshot(snap));
    assert!(fx.is_empty());
    assert!(!st.switching && st.switching_target.is_none() && !st.busy);
}

#[test]
fn switching_to_the_current_tailnet_does_nothing() {
    let mut st = GuiState::boot(snapshot());
    st.switcher_open = true;
    let fx = update(&mut st, Message::SwitchTailnet(s("a")));
    assert!(fx.is_empty());
    assert!(!st.switching && !st.switcher_open && !st.busy);
}

#[test]
fn needs_login_ends_a_switch() {
    let mut st = GuiState::boot(snapshot());
    update(&mut st, Message::SwitchTailnet(s("b")));
    let mut l = live();
    l.needs_login = true;
    update(&mut st, Message::Live(l));
    assert!(!st.switching && st.switching_to.is_none());
}

#[test]
fn a_refresh_on_another_profile_keeps_switching() {
    let mut st = GuiState::boot(snapshot());
    update(&mut st, Message::SwitchTailnet(s("b")));
    update(&mut st, Message::Snapshot(snapshot()));
    assert!(st.switching);
    update(&mut st, Message::ClearSwitching);
    assert!(!st.switching && st.switching_target.is_none());
}

#[test]
fn login_url_opens_once() {
    let mut st = GuiState::boot(snapshot());
    let mut l = live();
    l.browse_to_url = Some(s("https://login.example/a"));
    let fx = update(&mut st, Message::Live(l.clone()));
    assert!(matches!(fx.as_slice(), [Effect::OpenUrl(u), Effect::DelayedClear] if u == "https://login.example/a"));
    assert_eq!(st.toast.as_deref(), Some("Opened your browser to finish signing in"));
    let fx = update(&mut st, Message::Live(l));
    assert!(fx.is_empty());
    let mut snap = snapshot();
    snap.login_url = Some(s("https://login.example/a"));
    assert!(update(&mut st, Message::Snapshot(snap)).is_empty());
}

#[test]
fn selection_falls_back_when_peer_vanishes() {
    let mut st = GuiState::boot(snapshot());
    update(&mut st, Message::Select(Selection::Peer(s("id-beta"))));
    assert!(st.drilled);
    update(&mut st, Message::Snapshot(snapshot()));
    assert_eq!(st.selection, Selection::Peer(s("id-beta")));
    let mut snap = snapshot();
    snap.peers.pop();
    update(&mut st, Message::Snapshot(snap));
    assert_eq!(st.selection, Selection::ThisMachine);
    update(&mut st, Message::Back);
    assert!(!st.drilled);
}

#[test]
fn calls_wait_for_a_refresh() {
    let mut st = GuiState::boot(snapshot());
    let fx = update(&mut st, Message::ToggleConnection);
    assert!(st.busy);
    assert!(matches!(fx.as_slice(), [Effect::Act(Action::SetWantRunning(false))]));
    let fx = update(&mut st, Message::UseExitNode(s("n1")));
    assert!(matches!(fx.as_slice(), [Effect::Act(Action::SetExitNode(id))] if id == "n1"));
    let fx = update(&mut st, Message::ClearExitNode);
    assert!(matches!(fx.as_slice(), [Effect::Act(Action::ClearExitNode)]));
    let fx = update(&mut st, Message::UseExitNodeAuto);
    assert!(matches!(fx.as_slice(), [Effect::Act(Action::UseSuggestedExitNode)]));
    let fx = update(&mut st, Message::SetAllowLan(true));
    assert!(matches!(fx.as_slice(), [Effect::Act(Action::SetExitNodeAllowLan(true))]));
    let fx = update(&mut st, Message::Retry);
    assert!(matches!(fx.as_slice(), [Effect::Act(Action::Refresh)]));
}

#[test]
fn adding_routes() {
    let mut st = GuiState::boot(snapshot());
    update(&mut st, Message::RouteInput(s("  192.168.1.0/24 ")));
    let fx = update(&mut st, Message::AddRoute);
    assert!(matches!(fx.as_slice(), [Effect::Act(Action::SetAdvertiseRoutes(r))] if r == &vec![s("10.0.0.0/8"), s("192.168.1.0/24")]));
    assert_eq!(st.route_input, "");
    update(&mut st, Message::RouteInput(s("10.0.0.0/8")));
    let fx = update(&mut st, Message::AddRoute);
    assert!(matches!(fx.as_slice(), [Effect::Act(Action::SetAdvertiseRoutes(r))] if r == &vec![s("10.0.0.0/8")]));
    update(&mut st, Message::RouteInput(s("bogus")));
    let fx = update(&mut st, Message::AddRoute);
    assert!(matches!(fx.as_slice(), [Effect::DelayedClear]));
    assert_eq!(st.toast.as_deref(), Some("Invalid CIDR: bogus"));
    assert_eq!(st.route_input, "bogus");
}

#[test]
fn removing_routes() {
    let mut snap = snapshot();
    snap.advertised_routes = strings(&["10.0.0.0/8", "10.1.0.0/16", "10.0.0.0/8"]);
    let mut st = GuiState::boot(snap);
    let fx = update(&mut st, Message::RemoveRoute(s("10.0.0.0/8")));
    assert!(matches!(fx.as_slice(), [Effect::Act(Action::SetAdvertiseRoutes(r))] if r == &vec![s("10.1.0.0/16")]));
}

#[test]
fn small_messages() {
    let mut st = GuiState::boot(snapshot());
    let fx = update(&mut st, Message::Copy(s("100.1.2.3")));
    assert!(matches!(fx.as_slice(), [Effect::CopyToClipboard(v), Effect::ShowToast(t)] if v == "100.1.2.3" && t == "Copied 100.1.2.3"));
    let fx = update(&mut st, Message::OpenAdmin);
    assert!(matches!(fx.as_slice(), [Effect::OpenUrl(u)] if u == ADMIN_URL));
    update(&mut st, Message::ToggleTheme);
    assert!(!st.dark);
    update(&mut st, Message::ToggleSwitcher);
    assert!(st.switcher_open);
    update(&mut st, Message::ToggleManage);
    update(&mut st, Message::RequestRemove(s("b")));
    assert_eq!(st.confirm_remove.as_deref(), Some("b"));
    let fx = update(&mut st, Message::ConfirmRemove(s("b")));
    assert!(st.confirm_remove.is_none());
    assert!(matches!(fx.as_slice(), [Effect::Act(Action::DeleteProfile(id))] if id == "b"));
    let fx = update(&mut st, Message::AddTailnet);
    assert!(!st.switcher_open);
    assert!(matches!(fx.as_slice(), [Effect::Act(Action::NewProfileThenLogin), Effect::DelayedClear]));
    let fx = update(&mut st, Message::StartLogin);
    assert_eq!(st.toast.as_deref(), Some("Opening your browser to sign in…"));
    assert_eq!(fx.len(), 2);
    update(&mut st, Message::ClearToast);
    assert!(st.toast.is_none());
    update(&mut st, Message::DismissOperator);
    assert!(st.operator_dismissed);
    update(&mut st, Message::Filter(s("al")));
    assert_eq!(st.filter, "al");
    let fx = update(&mut st, Message::Noop);
    assert!(fx.is_empty());
}

#[test]
fn netcheck_messages() {
    let mut st = GuiState::boot(snapshot());
    let fx = update(&mut st, Message::RunNetcheck);
    assert!(st.netcheck_running);
    assert!(matches!(fx.as_slice(), [Effect::RunNetcheck]));
    update(&mut st, Message::NetcheckFailed(s("tailscale CLI not found")));
    assert!(!st.netcheck_running);
    assert_eq!(st.netcheck_error.as_deref(), Some("tailscale CLI not found"));
    update(&mut st, Message::RunNetcheck);
    let report = NetcheckReport {
        udp: false,
        ipv4: true,
        ipv6: true,
        mapping_varies: None,
        upnp: None,
        pmp: None,
        pcp: None,
        captive_portal: Some(true),
        preferred_derp: 1,
        global_v4: s("203.0.113.9:1"),
        global_v6: s("[2001:db8::1]:1"),
        region_latency: Vec::new(),
    };
    update(&mut st, Message::NetcheckDone(report));
    assert!(!st.netcheck_running && st.netcheck_error.is_none());
    assert_eq!(st.netcheck.as_ref().map(|r| r.preferred_derp), Some(1));
    assert!(!st.netcheck.as_ref().unwrap().nat_traversal());
}

#[test]
fn sidebar_filter() {
    assert!(matches_filter("FileServer", "file"));
    assert!(matches_filter("anything", ""));
    assert!(!matches_filter("phone", "file"));
    let peers = vec![view("alpha", false), view("Alphabet", false), view("beta", false)];
    assert_eq!(visible_peers(&peers, "ALPHA"), vec![0, 1]);
    assert_eq!(visible_peers(&peers, ""), vec![0, 1, 2]);
}

#[test]
fn exit_candidates_sorted() {
    let peers = vec![view("zulu", true), view("echo", false), view("Alpha", true), view("bravo", true)];
    assert_eq!(exit_candidates(&peers), vec![2, 3, 0]);
}

#[test]
fn peer_labels() {
    let mut v = view("nas", true);
    assert_eq!(v.connection_label(), "Direct");
    v.relay = s("syd");
    assert_eq!(v.connection_label(), "Relay · DERP syd");
    assert_eq!(v.exit_option_label(), "DERP syd");
    assert_eq!(v.last_seen_label(), "Active now");
    v.online = false;
    assert_eq!(v.connection_label(), "Offline");
    v.last_seen = s("2024-05-01T10:20:30Z");
    assert_eq!(v.last_seen_label(), "2024-05-01 10:20");
    v.last_seen = s("0001-01-01T00:00:00Z");
    assert_eq!(v.last_seen_label(), "Unknown");
    v.relay = String::new();
    assert_eq!(v.exit_option_label(), "offline");
    assert_eq!(v.subtitle(), "nas.ts.net  ·  linux");
    v.os = String::new();
    assert_eq!(v.subtitle(), "nas.ts.net");
    assert_eq!(addr_tail("100.100.0.42"), "…42");
    assert_eq!(addr_tail("fd7a::1"), "…fd7a::1");
    assert_eq!(addr_family("fd7a::1"), "IPv6");
    assert_eq!(addr_family("100.1.1.1"), "IPv4");
}

#[test]
fn header_and_chip() {
    assert_eq!(status_label(true, false), "Switching");
    assert_eq!(status_label(false, true), "Connected");
    assert_eq!(status_label(false, false), "Disconnected");
    let mut snap = snapshot();
    snap.current_id = s("b");
    let chip = snap.tailnet_chip();
    assert_eq!((chip.index, chip.name.as_str(), chip.email.as_str()), (1, "work.ts.net", "me@work.ts.net"));
    snap.current_id = s("zzz");
    let chip = snap.tailnet_chip();
    assert_eq!((chip.index, chip.name.as_str(), chip.email.as_str()), (0, "No tailnet", ""));
    assert!(!snap.exit_active());
    snap.peers[1].exit_node = true;
    assert!(snap.exit_active());
}

#[test]
fn welcome_and_banner() {
    let mut snap = snapshot();
    snap.needs_login = true;
    snap.operator_ok = false;
    let mut st = GuiState::boot(snap);
    assert!(st.shows_welcome());
    assert!(st.shows_operator_banner());
    st.switching = true;
    assert!(!st.shows_welcome());
    st.operator_dismissed = true;
    assert!(!st.shows_operator_banner());
}

#[test]
fn netcheck_card_text() {
    let r = NetcheckReport {
        udp: true,
        ipv4: true,
        ipv6: false,
        mapping_varies: None,
        upnp: Some(true),
        pmp: Some(false),
        pcp: None,
        captive_portal: None,
        preferred_derp: 5,
        global_v4: s("203.0.113.7:41641"),
        global_v6: String::new(),
        region_latency: vec![(s("1"), 90), (s("5"), 27), (s("9"), 40)],
    };
    assert!(r.nat_traversal());
    assert_eq!(r.nat_summary(), "UPnP yes · PMP no · PCP —");
    let near = r.nearest_regions();
    let order: Vec<&str> = near.iter().map(|(k, _)| k.as_str()).collect();
    assert_eq!(order, vec!["5", "9", "1"]);
    assert_eq!(tri_state(None, "?"), "?");
    let rows: Vec<(String, bool, String)> = r.check_rows().into_iter().map(|c| (c.label, c.ok, c.detail)).collect();
    assert_eq!(
        rows,
        vec![
            (s("UDP"), true, s("working")),
            (s("IPv4"), true, s("203.0.113.7:41641")),
            (s("IPv6"), false, s("not available")),
            (s("NAT traversal"), true, s("UPnP yes · PMP no · PCP —")),
            (s("Captive portal"), true, s("none")),
        ]
    );
}

#[test]
fn peer_detail_buttons() {
    let mut v = view("nas", true);
    assert_eq!(v.actions(), vec![PeerAction::UseAsExitNode, PeerAction::CopyIp]);
    v.exit_node = true;
    assert_eq!(v.actions(), vec![PeerAction::DisableExitNode, PeerAction::CopyIp]);
    let mut plain = view("tv", false);
    plain.addrs = Vec::new();
    assert_eq!(plain.actions(), Vec::<PeerAction>::new());
}

#[test]
fn netcheck_lists_the_five_nearest_regions() {
    let lat: Vec<(String, i64)> =
        [("1", 90), ("2", 12), ("3", 55), ("4", 31), ("5", 70), ("6", 8), ("7", 44)]
            .iter()
            .map(|(k, v)| (s(k), *v))
            .collect();
    let r = NetcheckReport {
        udp: true,
        ipv4: true,
        ipv6: false,
        mapping_varies: None,
        upnp: None,
        pmp: None,
        pcp: None,
        captive_portal: None,
        preferred_derp: 6,
        global_v4: String::new(),
        global_v6: String::new(),
        region_latency: lat,
    };
    let sr = r.shown_regions();
    let shown: Vec<&str> = sr.iter().map(|(k, _)| k.as_str()).collect();
    assert_eq!(shown, vec!["6", "2", "4", "7", "3"]);
    let mut st = GuiState::boot(snapshot());
    assert!(st.can_run_netcheck());
    st.netcheck_running = true;
    assert!(!st.can_run_netcheck());
}

#[test]
fn switcher_rows_mark_current_and_confirming() {
    let mut st = GuiState::boot(snapshot());
    let rows = st.switcher_rows();
    assert_eq!(rows.len(), 2);
    assert_eq!((rows[0].id.as_str(), rows[0].label.as_str(), rows[0].login.as_str()), ("a", "home.ts.net", "me@home.ts.net"));
    assert!(rows[0].active && !rows[1].active);
    assert!(!rows[0].confirming && !rows[1].confirming);
    st.confirm_remove = Some(s("b"));
    assert!(!st.switcher_rows()[1].confirming);
    st.manage = true;
    let rows = st.switcher_rows();
    assert!(!rows[0].confirming && rows[1].confirming);
}

#[test]
fn small_display_decisions() {
    let mut st = GuiState::boot(snapshot());
    assert_eq!(st.connection_button_label(), "Disconnect");
    assert_eq!(st.peers_caption(), "PEERS · 2");
    assert!(st.shows_magic_dns());
    assert!(!st.shows_no_routes());
    assert!(st.can_toggle_connection());
    st.busy = true;
    assert!(!st.can_toggle_connection());
    st.snap.online = false;
    st.snap.fqdn = String::new();
    st.snap.advertised_routes.clear();
    st.snap.peers.clear();
    assert_eq!(st.connection_button_label(), "Connect");
    assert_eq!(st.peers_caption(), "PEERS · 0");
    assert!(!st.shows_magic_dns());
    assert!(st.shows_no_routes());
}

#[test]
fn duplicate_regions_are_detected() {
    let mut r = NetcheckReport {
        udp: true,
        ipv4: true,
        ipv6: false,
        mapping_varies: None,
        upnp: None,
        pmp: None,
        pcp: None,
        captive_portal: None,
        preferred_derp: 1,
        global_v4: String::new(),
        global_v6: String::new(),
        region_latency: vec![(s("1"), 5), (s("2"), 7)],
    };
    assert!(r.has_distinct_regions());
    r.region_latency.push((s("1"), 9));
    assert!(!r.has_distinct_regions());
}
