use alavai::localapi::{LiveState, NetworkProfile, Node, Profile, Status, UserProfile};
use alavai::tray::{
    ConnectionNotices, MenuEntry, Notification, Snapshot, TrayIcon, TrayState, on_live_delta, switch_notice,
};

fn s(x: &str) -> String {
    x.to_string()
}

fn profile(id: &str, domain: &str) -> Profile {
    Profile {
        id: s(id),
        name: s("name"),
        network: NetworkProfile { domain: s(domain), display_name: String::new() },
        user: UserProfile { login_name: s("me@example.com") },
    }
}

fn tray(online: bool) -> TrayState {
    TrayState {
        snap: Snapshot {
            online,
            exit_node_active: false,
            machine: s("laptop"),
            address: s("100.100.0.1"),
            tailnets: vec![profile("a", "home.ts.net"), profile("b", "work.ts.net")],
            current_id: s("a"),
        },
        upgrade_available: false,
    }
}

#[test]
fn snapshot_from_daemon_answers() {
    let st = Status {
        backend_state: s("Running"),
        version: String::new(),
        tailscale_ips: vec![s("100.100.0.1"), s("fd7a::1")],
        self_node: Some(Node { hostname: s("laptop"), dns_name: s("laptop.ts.net."), os: s("linux"), relay: String::new() }),
        peers: Vec::new(),
    };
    let snap = Snapshot::fetch(Some(&st), Some(vec![profile("a", "home.ts.net"), profile("", "")]), Some(profile("a", "home.ts.net")));
    assert!(snap.online && !snap.exit_node_active);
    assert_eq!(snap.machine, "laptop");
    assert_eq!(snap.address, "100.100.0.1");
    assert_eq!(snap.tailnets.len(), 1);
    assert_eq!(snap.current_id, "a");
    let down = Snapshot::fetch(None, None, None);
    assert!(!down.online && down.tailnets.is_empty() && down.current_id.is_empty());
}

#[test]
fn live_delta_updates_the_tray() {
    let mut t = tray(true);
    let mut l = LiveState::default();
    l.exit_node_active = true;
    l.online = true;
    t.snap.apply_live(l);
    assert!(t.snap.exit_node_active);
    assert_eq!(t.snap.machine, "laptop");
    assert_eq!(t.icon(), TrayIcon::ExitNode);
}

#[test]
fn icon_follows_state() {
    assert_eq!(tray(false).icon(), TrayIcon::Disconnected);
    assert_eq!(tray(true).icon(), TrayIcon::Connected);
}

#[test]
fn menu_lists_each_tailnet_with_the_active_one_marked() {
    let t = tray(true);
    let m = t.menu();
    assert!(matches!(&m[0], MenuEntry::Label(l) if l == "laptop — Connected"));
    assert!(matches!(&m[1], MenuEntry::Separator));
    assert!(matches!(&m[2], MenuEntry::Label(l) if l == "Switch tailnet"));
    assert!(matches!(&m[3], MenuEntry::Tailnet { label, id, active: true } if label == "✓  home.ts.net" && id == "a"));
    assert!(matches!(&m[4], MenuEntry::Tailnet { label, id, active: false } if label == "   work.ts.net" && id == "b"));
    assert!(matches!(&m[5], MenuEntry::Separator));
    assert!(matches!(&m[6], MenuEntry::Connection { label } if label == "Disconnect"));
    assert!(matches!(&m[7], MenuEntry::OpenWindow));
    assert!(matches!(&m[8], MenuEntry::Separator));
    assert!(matches!(&m[9], MenuEntry::About));
    assert!(matches!(&m[10], MenuEntry::Quit));
    assert_eq!(m.len(), 11);
}

#[test]
fn menu_offers_restart_after_upgrade() {
    let mut t = tray(false);
    t.snap.tailnets.clear();
    t.mark_upgrade_available();
    let m = t.menu();
    assert!(matches!(&m[0], MenuEntry::Label(l) if l == "Disconnected"));
    assert!(matches!(&m[2], MenuEntry::RestartToUpdate));
    assert!(matches!(&m[4], MenuEntry::Connection { label } if label == "Connect"));
    assert_eq!(m.len(), 9);
}

#[test]
fn selecting_a_tailnet_marks_it() {
    let mut t = tray(true);
    t.select_tailnet(s("b"));
    assert_eq!(t.current_label().as_deref(), Some("work.ts.net"));
    assert_eq!(t.machine_line(), "laptop — work.ts.net");
    let m = t.menu();
    assert!(matches!(&m[4], MenuEntry::Tailnet { active: true, .. }));
}

#[test]
fn tooltip_and_lines() {
    let t = tray(true);
    assert_eq!(t.tool_tip(), "laptop — home.ts.net\n100.100.0.1");
    assert_eq!(tray(false).tool_tip(), "Disconnected");
    let mut u = tray(true);
    u.snap.machine = String::new();
    assert_eq!(u.header_line(), "Connected");
    assert_eq!(u.machine_line(), "home.ts.net");
    u.snap.current_id = s("zzz");
    assert_eq!(u.current_label(), None);
    assert_eq!(u.machine_line(), "");
}

#[test]
fn refreshing_profiles() {
    let mut t = tray(true);
    t.refresh_profiles(Some(vec![profile("c", "lab.ts.net")]), None);
    assert_eq!(t.snap.tailnets.len(), 1);
    assert_eq!(t.snap.current_id, "a");
    t.refresh_profiles(None, Some(profile("c", "lab.ts.net")));
    assert!(t.snap.tailnets.is_empty());
    assert_eq!(t.snap.current_id, "c");
}

#[test]
fn switch_notices() {
    assert_eq!(switch_notice(true, Some(&profile("a", "home.ts.net"))), "Switched to home.ts.net");
    assert_eq!(switch_notice(true, Some(&profile("", ""))), "Switched tailnet");
    assert_eq!(switch_notice(true, None), "Switched tailnet");
    assert_eq!(switch_notice(false, None), "Couldn’t switch tailnet");
}

#[test]
fn connection_notices_only_on_transitions() {
    let mut n = ConnectionNotices { last_online: false };
    assert_eq!(n.on_live(false), None);
    assert_eq!(n.on_live(true).as_deref(), Some("Connected"));
    assert_eq!(n.on_live(true), None);
    assert_eq!(n.on_live(false).as_deref(), Some("Disconnected"));
}

#[test]
fn notices_alternate_over_a_run() {
    let mut n = ConnectionNotices { last_online: true };
    let run = [true, false, false, true, true, true, false, true];
    let got: Vec<String> = run.iter().filter_map(|&o| n.on_live(o)).collect();
    assert_eq!(got, vec!["Disconnected", "Connected", "Disconnected", "Connected"]);
    assert!(n.last_online);
}

#[test]
fn worker_run_notifies_each_change_and_applies_every_delta() {
    let mut t = tray(false);
    let mut notices = ConnectionNotices { last_online: t.snap.online };
    let mut shown = Vec::new();
    for (online, machine) in [(false, "a"), (true, ""), (true, "b"), (false, ""), (true, "c")] {
        let live = LiveState { online, machine: s(machine), ..LiveState::default() };
        if let Some(n) = on_live_delta(&mut notices, &mut t.snap, live) {
            shown.push(n);
        }
        assert_eq!(t.snap.online, online);
    }
    let note = |b: &str| Notification { summary: s("alavai"), body: s(b) };
    assert_eq!(shown, vec![note("Connected"), note("Disconnected"), note("Connected")]);
    assert_eq!(t.snap.machine, "c");
    assert!(notices.last_online);
}
