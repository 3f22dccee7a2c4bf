use alavai::cli::{
    ExitNodeError, Toggle, choose_exit_peer, clears_exit_node, find_tailnet, fmt_global,
    is_zero_time, netcheck_report, peer_line, peer_tags, peers_order, prefs_report, short_time,
    signed_decimal, status_report, tailnets_report, watch_line, on_off, yes_no,
};
use alavai::localapi::{
    LiveState, NetcheckReport, NetworkProfile, Node, Peer, Prefs, Profile, Status, UserProfile,
};

fn s(x: &str) -> String {
    x.to_string()
}

fn profile(id: &str, name: &str, domain: &str, display: &str) -> Profile {
    Profile {
        id: s(id),
        name: s(name),
        network: NetworkProfile { domain: s(domain), display_name: s(display) },
        user: UserProfile { login_name: s("alice@example.com") },
    }
}

fn peer(id: &str, hostname: &str, exit_option: bool) -> Peer {
    Peer {
        id: s(id),
        hostname: s(hostname),
        dns_name: format!("{hostname}.example.ts.net."),
        os: s("linux"),
        tailscale_ips: vec![s("100.100.0.3"), s("fd7a::3")],
        online: true,
        exit_node: false,
        exit_node_option: exit_option,
        active: false,
        rx_bytes: 0,
        tx_bytes: 0,
        relay: String::new(),
        last_seen: String::new(),
        last_handshake: String::new(),
        primary_routes: Vec::new(),
    }
}

#[test]
fn toggle_enabled() {
    assert!(Toggle::On.enabled());
    assert!(!Toggle::Off.enabled());
    assert_eq!(on_off(true), "on");
    assert_eq!(yes_no(false), "no");
}

#[test]
fn tailnet_matching() {
    let ps = vec![
        profile("", "", "", ""),
        profile("a1", "home", "home.ts.net", "Home"),
        profile("b2", "work", "karo.co.nz", "Karo"),
    ];
    assert_eq!(find_tailnet(&ps, "a1"), Some(1));
    assert_eq!(find_tailnet(&ps, "work"), Some(2));
    assert_eq!(find_tailnet(&ps, "karo.co.nz"), Some(2));
    assert_eq!(find_tailnet(&ps, "Home"), Some(1));
    assert_eq!(find_tailnet(&ps, ""), None);
    assert_eq!(find_tailnet(&ps, "nope"), None);
}

#[test]
fn exit_node_arguments() {
    assert!(clears_exit_node("none"));
    assert!(clears_exit_node("off"));
    assert!(clears_exit_node(""));
    assert!(!clears_exit_node("None"));
    let peers = vec![peer("n1", "phone", false), peer("n2", "nas", true)];
    assert_eq!(choose_exit_peer(&peers, "nas").unwrap(), 1);
    assert_eq!(choose_exit_peer(&peers, "n2").unwrap(), 1);
    assert_eq!(choose_exit_peer(&peers, "nas.example.ts.net").unwrap(), 1);
    match choose_exit_peer(&peers, "100.100.0.3") {
        Err(ExitNodeError::NotOffered(h)) => assert_eq!(h, "phone"),
        other => panic!("expected the phone to be refused, got {other:?}"),
    }
    assert!(matches!(choose_exit_peer(&peers, "tv"), Err(ExitNodeError::NoPeer)));
}

#[test]
fn times_and_globals() {
    assert!(is_zero_time(""));
    assert!(is_zero_time("0001-01-01T00:00:00Z"));
    assert!(!is_zero_time("2024-05-01T10:20:30Z"));
    assert_eq!(short_time("2024-05-01T10:20:30.123Z"), "2024-05-01 10:20");
    assert_eq!(short_time("2024-05-01T10:20"), "2024-05-01 10:20");
    assert_eq!(short_time("short"), "short");
    assert_eq!(fmt_global(""), "");
    assert_eq!(fmt_global("203.0.113.7:41641"), " (203.0.113.7:41641)");
    assert_eq!(signed_decimal(-12), "-12");
    assert_eq!(signed_decimal(i64::MIN), "-9223372036854775808");
    assert_eq!(signed_decimal(5), "5");
}

#[test]
fn status_lines() {
    let st = Status {
        backend_state: s("Running"),
        version: String::new(),
        tailscale_ips: vec![s("100.100.0.1"), s("fd7a::1")],
        self_node: Some(Node { hostname: s("laptop"), dns_name: s("laptop.ts.net."), os: s("linux"), relay: String::new() }),
        peers: Vec::new(),
    };
    let p = profile("a1", "home", "home.ts.net", "");
    assert_eq!(
        status_report(&st, Some(&p)),
        vec![
            "Backend:  Running",
            "Machine:  laptop (laptop.ts.net)",
            "Address:  100.100.0.1, fd7a::1",
            "Tailnet:  home.ts.net",
        ]
    );
    let bare = Status { backend_state: s("Stopped"), version: String::new(), tailscale_ips: Vec::new(), self_node: None, peers: Vec::new() };
    assert_eq!(status_report(&bare, Some(&profile("", "", "", ""))), vec!["Backend:  Stopped"]);
}

#[test]
fn tailnet_lines() {
    let ps = vec![profile("a1", "home", "home.ts.net", ""), profile("", "", "", ""), profile("b2", "work", "", "")];
    assert_eq!(
        tailnets_report(&ps, "a1"),
        vec![
            "● a1         home.ts.net              alice@example.com",
            "  b2         work                     alice@example.com",
        ]
    );
    assert_eq!(tailnets_report(&Vec::new(), ""), vec!["No tailnets configured."]);
}

#[test]
fn prefs_lines() {
    let p = Prefs {
        control_url: s("https://controlplane.tailscale.com"),
        route_all: true,
        exit_node_id: String::new(),
        exit_node_ip: s("100.100.0.9"),
        exit_node_allow_lan: false,
        advertise_routes: vec![s("10.0.0.0/8"), s("0.0.0.0/0"), s("::/0"), s("10.1.0.0/16")],
        want_running: true,
        operator_user: s("alex"),
        profile_name: s("home"),
    };
    assert_eq!(
        prefs_report(&p),
        vec![
            "Tailnet:             home",
            "Control server:      https://controlplane.tailscale.com",
            "Operator:            alex",
            "Connected (want):    on",
            "Accept routes:       on",
            "Allow LAN access:    off",
            "Advertise exit node: on",
            "Using exit node:     100.100.0.9",
            "Advertised routes:   10.0.0.0/8, 10.1.0.0/16",
        ]
    );
}

#[test]
fn peer_lines() {
    let mut p = peer("n1", "fileserver", true);
    p.primary_routes = vec![s("192.168.1.0/24"), s("10.9.0.0/16")];
    p.last_handshake = s("2024-05-01T10:20:30Z");
    p.active = true;
    let tags = peer_tags(&p, "1.2M", "300B");
    assert_eq!(tags, vec!["exit-option", "routes:192.168.1.0/24,10.9.0.0/16", "direct", "hs:2024-05-01 10:20", "↓1.2M ↑300B"]);
    assert_eq!(
        peer_line(&p, &tags),
        "● fileserver                   100.100.0.3      linux    exit-option  routes:192.168.1.0/24,10.9.0.0/16  direct  hs:2024-05-01 10:20  ↓1.2M ↑300B"
    );
    let mut q = peer("n2", "phone", false);
    q.online = false;
    q.exit_node = true;
    q.last_seen = s("2024-04-30T08:00:00Z");
    q.tailscale_ips.clear();
    let tags = peer_tags(&q, "", "");
    assert_eq!(tags, vec!["active-exit", "seen:2024-04-30 08:00"]);
    assert_eq!(peer_line(&q, &tags), "○ phone                        -                linux    active-exit  seen:2024-04-30 08:00");
    let mut r = peer("n3", "relayed", false);
    r.relay = s("syd");
    assert_eq!(peer_tags(&r, "", ""), vec!["relay:syd"]);
}

#[test]
fn peers_sorted_by_hostname() {
    let peers = vec![peer("1", "zeta", false), peer("2", "Alpha", false), peer("3", "beta", false), peer("4", "alpha", false)];
    assert_eq!(peers_order(&peers), vec![1, 3, 2, 0]);
}

#[test]
fn netcheck_lines() {
    let r = NetcheckReport {
        udp: true,
        ipv4: true,
        ipv6: false,
        mapping_varies: Some(false),
        upnp: Some(false),
        pmp: None,
        pcp: Some(true),
        captive_portal: None,
        preferred_derp: 5,
        global_v4: s("203.0.113.7:41641"),
        global_v6: String::new(),
        region_latency: Vec::new(),
    };
    assert_eq!(
        netcheck_report(&r),
        vec![
            "UDP:            yes",
            "IPv4:           yes (203.0.113.7:41641)",
            "IPv6:           no",
            "UPnP:           no",
            "NAT-PMP:        ?",
            "PCP:            yes",
            "NAT mapping varies: no",
            "Captive portal: ?",
            "Preferred DERP: region 5",
        ]
    );
}

#[test]
fn watch_lines() {
    let mut l = LiveState::default();
    l.online = true;
    l.exit_node_active = true;
    l.netmap_changed = true;
    l.machine = s("laptop");
    l.fqdn = s("laptop.ts.net");
    l.os = s("linux");
    l.address = s("100.100.0.1");
    l.accept_routes = true;
    assert_eq!(
        watch_line(&l),
        "[online exit-node] [netmap] laptop (laptop.ts.net, linux) 100.100.0.1 | accept-routes=true advertise-exit=false allow-lan=false routes="
    );
    let mut m = LiveState::default();
    m.needs_login = true;
    assert!(watch_line(&m).starts_with("[needs-login] "));
}
