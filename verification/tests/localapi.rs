use alavai::http::ApiRequest;
use alavai::localapi::{
    Client, LiveState, NetcheckReport, NetworkProfile, Node, Notify, NotifyHostinfo,
    NotifyNetMap, NotifyPrefs, NotifySelfNode, Peer, Prefs, Profile, Status, UserProfile,
    merge_notify, opt_bool_text, pick_address, untested_version_warning, FALLBACK_SOCKET_PATH,
    SOCKET_PATH, STATE_NEEDS_LOGIN, STATE_RUNNING,
};

fn s(x: &str) -> String {
    x.to_string()
}

fn strings(xs: &[&str]) -> Vec<String> {
    xs.iter().map(|x| x.to_string()).collect()
}

fn peer(hostname: &str, online: bool, exit_option: bool, routes: &[&str]) -> Peer {
    Peer {
        id: format!("n-{hostname}"),
        hostname: s(hostname),
        dns_name: format!("{hostname}.example-tnet.ts.net."),
        os: s("linux"),
        tailscale_ips: strings(&["100.100.0.2", "fd7a:115c:a1e0::2"]),
        online,
        exit_node: false,
        exit_node_option: exit_option,
        active: false,
        rx_bytes: 0,
        tx_bytes: 0,
        relay: String::new(),
        last_seen: String::new(),
        last_handshake: String::new(),
        primary_routes: strings(routes),
    }
}

fn profile(id: &str, name: &str, domain: &str, login: &str) -> Profile {
    Profile {
        id: s(id),
        name: s(name),
        network: NetworkProfile { domain: s(domain), display_name: String::new() },
        user: UserProfile { login_name: s(login) },
    }
}

fn prefs(routes: &[&str]) -> Prefs {
    Prefs {
        control_url: s("https://controlplane.tailscale.com"),
        route_all: true,
        exit_node_id: s("nExit"),
        exit_node_ip: String::new(),
        exit_node_allow_lan: false,
        advertise_routes: strings(routes),
        want_running: true,
        operator_user: s("alex"),
        profile_name: s("example-tnet.ts.net"),
    }
}

fn empty_notify() -> Notify {
    Notify { state: None, prefs: None, netmap: None, browse_to_url: None }
}

fn body_text(r: &ApiRequest) -> String {
    String::from_utf8(r.body.clone()).unwrap()
}

#[test]
fn version_warning_only_on_major_mismatch() {
    assert_eq!(untested_version_warning("1.98.4"), None);
    assert_eq!(untested_version_warning("1.2.0"), None);
    assert_eq!(untested_version_warning(""), None);
    assert!(untested_version_warning("2.0.0").is_some());
}

#[test]
fn version_warning_names_both_versions() {
    assert_eq!(
        untested_version_warning("2.0.1").unwrap(),
        "alavai: tailscaled 2.0.1 is a different major version than the tested 1.98.x; some features may misbehave"
    );
    assert_eq!(untested_version_warning("1"), None);
    assert!(untested_version_warning("10.1").is_some());
}

#[test]
fn parses_status_fixture() {
    let s = Status {
        backend_state: s("Running"),
        version: s("1.98.4"),
        tailscale_ips: strings(&["100.100.0.1", "fd7a:115c:a1e0::1"]),
        self_node: Some(Node {
            hostname: s("laptop"),
            dns_name: s("laptop.example-tnet.ts.net."),
            os: s("linux"),
            relay: s("syd"),
        }),
        peers: vec![
            peer("fileserver", true, true, &["192.168.1.0/24"]),
            peer("phone", false, false, &[]),
        ],
    };
    assert!(s.online());
    assert_eq!(s.version, "1.98.4");
    assert_eq!(s.self_node.as_ref().unwrap().hostname, "laptop");
    assert_eq!(s.tailscale_ips.len(), 2);
    assert_eq!(s.peers.len(), 2);
    let fileserver = s.peers.iter().find(|p| p.hostname == "fileserver").expect("fileserver peer present");
    assert!(fileserver.online);
    assert!(fileserver.exit_node_option);
    assert_eq!(fileserver.primary_routes, vec!["192.168.1.0/24"]);
    let phone = s.peers.iter().find(|p| p.hostname == "phone").unwrap();
    assert!(!phone.online);
    assert!(phone.primary_routes.is_empty());
}

#[test]
fn status_online_only_when_running() {
    let mut st = Status {
        backend_state: s("NeedsLogin"),
        version: String::new(),
        tailscale_ips: Vec::new(),
        self_node: None,
        peers: Vec::new(),
    };
    assert!(!st.online());
    st.backend_state = s("Stopped");
    assert!(!st.online());
    st.backend_state = s("Running");
    assert!(st.online());
}

#[test]
fn parses_prefs_fixture() {
    let p = prefs(&["192.168.50.0/24", "0.0.0.0/0", "::/0"]);
    assert!(p.route_all);
    assert!(p.want_running);
    assert!(p.exit_node_active());
    assert!(p.advertises_exit_node());
    assert_eq!(p.operator_user, "alex");
    assert_eq!(p.subnet_routes(), vec!["192.168.50.0/24"]);
}

#[test]
fn exit_node_active_by_id_or_ip() {
    let mut p = prefs(&[]);
    p.exit_node_id = String::new();
    assert!(!p.exit_node_active());
    p.exit_node_ip = s("100.100.0.9");
    assert!(p.exit_node_active());
    assert!(!p.advertises_exit_node());
    assert!(p.subnet_routes().is_empty());
}

#[test]
fn parses_profiles_fixture() {
    let profiles = vec![
        profile("a1b2", "alice@example.com", "example-tnet.ts.net", "alice@example.com"),
        profile("c3d4", "work", "", "alice@work.example.com"),
        profile("", "", "", ""),
    ];
    assert_eq!(profiles.len(), 3);
    assert_eq!(profiles[0].label(), "example-tnet.ts.net");
    assert_eq!(profiles[0].user.login_name, "alice@example.com");
    assert!(profiles[2].is_empty());
}

#[test]
fn profile_label_falls_back_to_name_then_id() {
    assert_eq!(profile("c3d4", "work", "", "x").label(), "work");
    assert_eq!(profile("c3d4", "", "", "x").label(), "c3d4");
    assert!(!profile("c3d4", "", "", "x").is_empty());
}

#[test]
fn parses_netcheck_fixture() {
    let r = NetcheckReport {
        udp: true,
        ipv4: true,
        ipv6: false,
        mapping_varies: opt_bool_text("false"),
        upnp: opt_bool_text("false"),
        pmp: opt_bool_text("true"),
        pcp: opt_bool_text(""),
        captive_portal: opt_bool_text("false"),
        preferred_derp: 5,
        global_v4: s("203.0.113.7:41641"),
        global_v6: String::new(),
        region_latency: vec![(s("5"), 27412187), (s("1"), 91234567)],
    };
    assert!(r.udp);
    assert!(r.ipv4);
    assert!(!r.ipv6);
    assert_eq!(r.mapping_varies, Some(false));
    assert_eq!(r.upnp, Some(false));
    assert_eq!(r.pcp, None);
    assert_eq!(r.preferred_derp, 5);
    assert_eq!(r.global_v4, "203.0.113.7:41641");
    assert_eq!(r.region_latency.iter().find(|(k, _)| k == "5").map(|(_, v)| *v), Some(27412187));
}

#[test]
fn opt_bool_reads_the_tri_state() {
    assert_eq!(opt_bool_text("true"), Some(true));
    assert_eq!(opt_bool_text("false"), Some(false));
    assert_eq!(opt_bool_text(""), None);
    assert_eq!(opt_bool_text("TRUE"), None);
}

#[test]
fn merges_state_notify() {
    let n = Notify { state: Some(STATE_RUNNING), ..empty_notify() };
    assert_eq!(n.state, Some(STATE_RUNNING));
    let mut live = LiveState::default();
    assert!(merge_notify(&mut live, n));
    assert!(live.online);
    assert!(!live.needs_login);
}

#[test]
fn merges_prefs_notify() {
    let n = Notify {
        prefs: Some(NotifyPrefs {
            exit_node_id: s("nExit"),
            exit_node_ip: String::new(),
            route_all: true,
            exit_node_allow_lan: true,
            advertise_routes: strings(&["192.168.50.0/24", "0.0.0.0/0", "::/0"]),
        }),
        ..empty_notify()
    };
    let mut live = LiveState::default();
    assert!(merge_notify(&mut live, n));
    assert!(live.exit_node_active);
    assert!(live.accept_routes);
    assert!(live.advertise_exit_node);
    assert!(live.allow_lan);
    assert_eq!(live.advertised_routes, vec!["192.168.50.0/24"]);
}

fn netmap_notify() -> Notify {
    Notify {
        netmap: Some(NotifyNetMap {
            self_node: Some(NotifySelfNode {
                name: s("laptop.example-tnet.ts.net."),
                addresses: strings(&["fd7a:115c:a1e0::1/128", "100.100.0.1/32"]),
                hostinfo: NotifyHostinfo { hostname: s("laptop"), os: s("linux") },
            }),
        }),
        ..empty_notify()
    }
}

#[test]
fn merges_netmap_notify() {
    let n = netmap_notify();
    let mut live = LiveState::default();
    assert!(merge_notify(&mut live, n));
    assert_eq!(live.machine, "laptop");
    assert_eq!(live.fqdn, "laptop.example-tnet.ts.net");
    assert_eq!(live.os, "linux");
    assert_eq!(live.address, "100.100.0.1");
    assert!(live.netmap_changed);
    assert_eq!(live.addresses, vec!["fd7a:115c:a1e0::1", "100.100.0.1"]);
}

#[test]
fn merging_twice_tells_again_only_for_a_netmap() {
    let mut live = LiveState::default();
    assert!(merge_notify(&mut live, Notify { state: Some(STATE_NEEDS_LOGIN), ..empty_notify() }));
    assert!(live.needs_login && !live.online);
    assert!(!merge_notify(&mut live, Notify { state: Some(STATE_NEEDS_LOGIN), ..empty_notify() }));
    assert!(merge_notify(&mut live, netmap_notify()));
    let before = live.clone();
    assert!(merge_notify(&mut live, netmap_notify()));
    assert_eq!(live.machine, before.machine);
    assert_eq!(live.address, before.address);
}

#[test]
fn an_empty_delta_changes_nothing() {
    let mut live = LiveState::default();
    merge_notify(&mut live, netmap_notify());
    assert!(live.netmap_changed);
    assert!(!merge_notify(&mut live, empty_notify()));
    assert!(!live.netmap_changed);
    assert_eq!(live.machine, "laptop");
}

#[test]
fn login_url_is_kept_until_it_changes() {
    let mut live = LiveState::default();
    let url = Notify { browse_to_url: Some(s("https://login.tailscale.com/a/x")), ..empty_notify() };
    assert!(merge_notify(&mut live, url));
    assert_eq!(live.browse_to_url.as_deref(), Some("https://login.tailscale.com/a/x"));
    let again = Notify { browse_to_url: Some(s("https://login.tailscale.com/a/x")), ..empty_notify() };
    assert!(!merge_notify(&mut live, again));
    let empty = Notify { browse_to_url: Some(String::new()), ..empty_notify() };
    assert!(!merge_notify(&mut live, empty));
}

#[test]
fn pick_address_prefers_ipv4_and_strips_prefix() {
    assert_eq!(pick_address(&strings(&["fd7a::1/128", "100.64.0.1/32"])), "100.64.0.1");
    assert_eq!(pick_address(&strings(&["fd7a::1/128"])), "fd7a::1");
    assert_eq!(pick_address(&strings(&[])), "");
}

#[test]
fn client_picks_the_socket_that_exists() {
    assert_eq!(Client::from_presence(true, true).socket_path(), SOCKET_PATH);
    assert_eq!(Client::from_presence(false, true).socket_path(), FALLBACK_SOCKET_PATH);
    assert_eq!(Client::from_presence(false, false).socket_path(), SOCKET_PATH);
    assert_eq!(Client::new(s("/tmp/x.sock")).socket_path(), "/tmp/x.sock");
}

#[test]
fn requests_name_their_endpoints() {
    let c = Client::from_presence(true, false);
    let r = c.status();
    assert_eq!((r.method.as_str(), r.path.as_str()), ("GET", "/localapi/v0/status"));
    assert!(r.body.is_empty());
    assert_eq!(c.profiles().path, "/localapi/v0/profiles/");
    assert_eq!(c.current_profile().path, "/localapi/v0/profiles/current");
    assert_eq!(c.prefs().path, "/localapi/v0/prefs");
    assert_eq!(c.suggest_exit_node().path, "/localapi/v0/suggest-exit-node");
    let sw = c.switch_profile("a1b2");
    assert_eq!((sw.method.as_str(), sw.path.as_str()), ("POST", "/localapi/v0/profiles/a1b2"));
    let np = c.new_profile();
    assert_eq!((np.method.as_str(), np.path.as_str()), ("POST", "/localapi/v0/profiles/"));
    let st = c.start();
    assert_eq!((st.method.as_str(), st.path.as_str()), ("POST", "/localapi/v0/start"));
    assert_eq!(st.body, b"{}".to_vec());
    let sl = c.start_login();
    assert_eq!((sl.method.as_str(), sl.path.as_str()), ("POST", "/localapi/v0/login-interactive"));
    let d = c.delete_profile("a1b2");
    assert_eq!((d.method.as_str(), d.path.as_str()), ("DELETE", "/localapi/v0/profiles/a1b2"));
    assert_eq!(c.get("/localapi/v0/whois").path, "/localapi/v0/whois");
}

#[test]
fn masked_prefs_bodies() {
    let c = Client::from_presence(true, false);
    let rs = c.set_want_running(false);
    assert_eq!(rs.len(), 2);
    assert_eq!((rs[0].method.as_str(), rs[0].path.as_str()), ("PATCH", "/localapi/v0/prefs"));
    assert_eq!(body_text(&rs[0]), r#"{"WantRunning":false,"WantRunningSet":true}"#);
    assert_eq!((rs[1].method.as_str(), rs[1].path.as_str()), ("POST", "/localapi/v0/start"));
    let toggle = c.set_want_running(true);
    assert_eq!(toggle.len(), 2);
    assert_eq!((toggle[0].method.as_str(), toggle[0].path.as_str()), ("PATCH", "/localapi/v0/prefs"));
    assert_eq!(body_text(&toggle[0]), r#"{"WantRunning":true,"WantRunningSet":true}"#);
    assert_eq!((toggle[1].method.as_str(), toggle[1].path.as_str()), ("POST", "/localapi/v0/start"));
    assert_eq!(body_text(&c.set_accept_routes(true)), r#"{"RouteAll":true,"RouteAllSet":true}"#);
    assert_eq!(
        body_text(&c.set_exit_node_allow_lan(true)),
        r#"{"ExitNodeAllowLANAccess":true,"ExitNodeAllowLANAccessSet":true}"#
    );
    assert_eq!(body_text(&c.set_exit_node("nExit")), r#"{"ExitNodeID":"nExit","ExitNodeIDSet":true}"#);
    assert_eq!(
        body_text(&c.set_exit_node("")),
        r#"{"ExitNodeID":"","ExitNodeIDSet":true,"ExitNodeIP":"","ExitNodeIPSet":true}"#
    );
    assert_eq!(body_text(&c.set_exit_node("a\"b")), r#"{"ExitNodeID":"a\"b","ExitNodeIDSet":true}"#);
}

#[test]
fn exit_toggle_keeps_subnet_routes() {
    let c = Client::from_presence(true, false);
    let p = prefs(&["192.168.50.0/24", "0.0.0.0/0", "::/0"]);
    assert_eq!(
        body_text(&c.set_advertise_exit_node(&p, false)),
        r#"{"AdvertiseRoutes":["192.168.50.0/24"],"AdvertiseRoutesSet":true}"#
    );
    let q = prefs(&["10.0.0.0/8"]);
    assert_eq!(
        body_text(&c.set_advertise_exit_node(&q, true)),
        r#"{"AdvertiseRoutes":["10.0.0.0/8","0.0.0.0/0","::/0"],"AdvertiseRoutesSet":true}"#
    );
}

#[test]
fn setting_subnets_keeps_exit_advertisement() {
    let c = Client::from_presence(true, false);
    let p = prefs(&["192.168.50.0/24", "0.0.0.0/0", "::/0"]);
    assert_eq!(
        body_text(&c.set_advertise_routes(&p, &strings(&["10.1.0.0/16"]))),
        r#"{"AdvertiseRoutes":["10.1.0.0/16","0.0.0.0/0","::/0"],"AdvertiseRoutesSet":true}"#
    );
    let q = prefs(&["192.168.50.0/24"]);
    assert_eq!(
        body_text(&c.set_advertise_routes(&q, &strings(&[]))),
        r#"{"AdvertiseRoutes":[],"AdvertiseRoutesSet":true}"#
    );
}

#[test]
fn request_bytes_carry_host_and_length() {
    let c = Client::from_presence(true, false);
    let r = c.set_accept_routes(true);
    let bytes = r.to_bytes();
    let text = String::from_utf8(bytes).unwrap();
    assert_eq!(
        text,
        "PATCH /localapi/v0/prefs HTTP/1.1\r\nHost: local-tailscaled.sock\r\nConnection: close\r\nContent-Type: application/json\r\nContent-Length: 36\r\n\r\n{\"RouteAll\":true,\"RouteAllSet\":true}"
    );
    let g = String::from_utf8(c.status().to_bytes()).unwrap();
    assert!(g.starts_with("GET /localapi/v0/status HTTP/1.1\r\n"));
    assert!(g.ends_with("Content-Length: 0\r\n\r\n"));
}

#[test]
fn exit_node_ids_are_escaped_as_json() {
    let c = Client::from_presence(true, false);
    assert_eq!(
        body_text(&c.set_exit_node("a\\b\n\u{1}\u{1f}é\t")),
        "{\"ExitNodeID\":\"a\\\\b\\n\\u0001\\u001fé\\t\",\"ExitNodeIDSet\":true}"
    );
}
