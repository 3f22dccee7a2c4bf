//! The rules of the command line: which tailnet or peer an argument names,
//! and the text of each report it prints.

use vstd::prelude::*;
use crate::http::{decimal, dec_digits};
use crate::localapi::{
    LiveState, NetcheckReport, Peer, Prefs, Profile, Status, advertises_exit_spec, profile_label,
    subnet_routes_spec,
};
use crate::order::{sort_by_text_keys, stably_sorted};
use crate::text::{
    chars_of, first_chars, has_prefix, is_empty_str, join, join_strings, lowercase, pad_right,
    padded, push_str, replace_char, replaced, starts_with, str_eq, take_chars, to_lowercase,
    trim_end_char, trim_end_matches_char,
};

verus! {

// ---------------------------------------------------------------------------
// Arguments
// ---------------------------------------------------------------------------

/// An on/off argument of the preference commands.
#[derive(Clone, Copy, Debug, PartialEq, Eq, Structural)]
pub enum Toggle {
    On,
    Off,
}

impl Toggle {
    /// Whether the argument turns the setting on.
    pub fn enabled(self) -> (r: bool)
        ensures
            r == (self == Toggle::On),
    {
        match self {
            Toggle::On => true,
            Toggle::Off => false,
        }
    }
}

/// `on` or `off`.
pub fn on_off(b: bool) -> (r: &'static str)
    ensures
        r@ == (if b {
            "on"@
        } else {
            "off"@
        }),
{
    if b {
        "on"
    } else {
        "off"
    }
}

/// `yes` or `no`.
pub fn yes_no(b: bool) -> (r: &'static str)
    ensures
        r@ == (if b {
            "yes"@
        } else {
            "no"@
        }),
{
    if b {
        "yes"
    } else {
        "no"
    }
}

/// The position of the first item of `s` from `i` on for which `f` holds.
pub open spec fn first_from<T>(s: Seq<T>, f: spec_fn(T) -> bool, i: int) -> Option<int>
    decreases s.len() - i,
{
    if i < 0 || i >= s.len() {
        None
    } else if f(s[i]) {
        Some(i)
    } else {
        first_from(s, f, i + 1)
    }
}

proof fn lemma_first_from_skip<T>(s: Seq<T>, f: spec_fn(T) -> bool, i: int)
    requires
        0 <= i <= s.len(),
        forall|j: int| 0 <= j < i ==> !f(#[trigger] s[j]),
    ensures
        first_from(s, f, 0) == first_from(s, f, i),
    decreases i,
{
    if i > 0 {
        lemma_first_from_skip(s, f, i - 1);
    }
}

/// Whether argument `q` names profile `p`: a real profile whose ID, name,
/// tailnet domain or tailnet display name is `q`.
pub open spec fn names_tailnet(p: Profile, q: Seq<char>) -> bool {
    p.id@.len() != 0 && (p.id@ == q || p.name@ == q || p.network.domain@ == q
        || p.network.display_name@ == q)
}

/// The first profile that argument `query` names.
pub fn find_tailnet(profiles: &Vec<Profile>, query: &str) -> (r: Option<usize>)
    ensures
        r matches Some(k) ==> first_from(profiles@, |p: Profile| names_tailnet(p, query@), 0)
            == Some(k as int),
        r is None ==> first_from(profiles@, |p: Profile| names_tailnet(p, query@), 0) is None,
{
    let ghost f = |p: Profile| names_tailnet(p, query@);
    let mut i: usize = 0;
    while i < profiles.len()
        invariant
            i <= profiles@.len(),
            f == (|p: Profile| names_tailnet(p, query@)),
            forall|j: int| 0 <= j < i ==> !f(#[trigger] profiles@[j]),
        decreases profiles@.len() - i,
    {
        let p = &profiles[i];
        if !p.is_empty() && (str_eq(p.id.as_str(), query) || str_eq(p.name.as_str(), query)
            || str_eq(p.network.domain.as_str(), query) || str_eq(
            p.network.display_name.as_str(),
            query,
        )) {
            proof {
                lemma_first_from_skip(profiles@, f, i as int);
            }
            return Some(i);
        }
        i = i + 1;
    }
    proof {
        lemma_first_from_skip(profiles@, f, i as int);
    }
    None
}

/// Whether the exit-node argument clears the exit node.
pub fn clears_exit_node(arg: &str) -> (r: bool)
    ensures
        r == (arg@ == "none"@ || arg@ == "off"@ || arg@.len() == 0),
{
    str_eq(arg, "none") || str_eq(arg, "off") || is_empty_str(arg)
}

/// Whether argument `q` names peer `p`: its ID, host name, DNS name without
/// the trailing dot, or one of its Tailscale addresses is `q`.
pub open spec fn names_peer(p: Peer, q: Seq<char>) -> bool {
    p.id@ == q || p.hostname@ == q || trim_end_char(p.dns_name@, '.') == q
        || p.tailscale_ips.deep_view().contains(q)
}

fn has_address(p: &Peer, q: &str) -> (r: bool)
    ensures
        r == p.tailscale_ips.deep_view().contains(q@),
{
    let mut i: usize = 0;
    while i < p.tailscale_ips.len()
        invariant
            i <= p.tailscale_ips@.len(),
            forall|j: int| 0 <= j < i ==> #[trigger] p.tailscale_ips.deep_view()[j] != q@,
        decreases p.tailscale_ips@.len() - i,
    {
        if str_eq(p.tailscale_ips[i].as_str(), q) {
            assert(p.tailscale_ips.deep_view()[i as int] == q@);
            return true;
        }
        i = i + 1;
    }
    false
}

/// Why a peer named on the command line cannot become the exit node.
#[derive(Debug)]
pub enum ExitNodeError {
    /// No peer is named by the argument.
    NoPeer,
    /// The named peer, with this host name, does not offer itself as an
    /// exit node.
    NotOffered(String),
}

/// The peer to use as exit node: the first that `arg` names, if it offers
/// itself as one.
pub fn choose_exit_peer(peers: &Vec<Peer>, arg: &str) -> (r: Result<usize, ExitNodeError>)
    ensures
        match first_from(peers@, |p: Peer| names_peer(p, arg@), 0) {
            None => r matches Err(ExitNodeError::NoPeer),
            Some(k) => if peers@[k].exit_node_option {
                r == Ok::<usize, ExitNodeError>(k as usize)
            } else {
                r matches Err(ExitNodeError::NotOffered(h)) && h@ == peers@[k].hostname@
            },
        },
{
    let ghost f = |p: Peer| names_peer(p, arg@);
    let mut i: usize = 0;
    while i < peers.len()
        invariant
            i <= peers@.len(),
            f == (|p: Peer| names_peer(p, arg@)),
            forall|j: int| 0 <= j < i ==> !f(#[trigger] peers@[j]),
        decreases peers@.len() - i,
    {
        let p = &peers[i];
        let fqdn = trim_end_matches_char(p.dns_name.as_str(), '.');
        if str_eq(p.id.as_str(), arg) || str_eq(p.hostname.as_str(), arg) || str_eq(
            fqdn.as_str(),
            arg,
        ) || has_address(p, arg) {
            proof {
                lemma_first_from_skip(peers@, f, i as int);
            }
            if !p.exit_node_option {
                return Err(ExitNodeError::NotOffered(p.hostname.clone()));
            }
            return Ok(i);
        }
        i = i + 1;
    }
    proof {
        lemma_first_from_skip(peers@, f, i as int);
    }
    Err(ExitNodeError::NoPeer)
}

// ---------------------------------------------------------------------------
// Times and small fields
// ---------------------------------------------------------------------------

/// Whether a timestamp means "never": empty, or Go's zero time in year 1.
pub fn is_zero_time(t: &str) -> (r: bool)
    ensures
        r == (t@.len() == 0 || has_prefix(t@, "0001-01-01"@)),
{
    is_empty_str(t) || starts_with(t, "0001-01-01")
}

/// An RFC 3339 timestamp cut to `YYYY-MM-DD HH:MM`.
pub fn short_time(t: &str) -> (r: String)
    ensures
        r@ == take_chars(replace_char(t@, 'T', ' '), 16),
{
    let u = replaced(t, 'T', ' ');
    first_chars(u.as_str(), 16)
}

/// A global address in parentheses after a space, or nothing.
pub fn fmt_global(addr: &str) -> (r: String)
    ensures
        r@ == (if addr@.len() == 0 {
            Seq::empty()
        } else {
            " ("@ + addr@ + ")"@
        }),
{
    if is_empty_str(addr) {
        String::new()
    } else {
        let mut t = String::from_str(" (");
        push_str(&mut t, addr);
        push_str(&mut t, ")");
        t
    }
}

/// `n` in decimal, with a minus sign when negative.
pub open spec fn signed_digits(n: i64) -> Seq<char> {
    if n < 0 {
        "-"@ + dec_digits((-n) as nat)
    } else {
        dec_digits(n as nat)
    }
}

/// `n` in decimal, with a minus sign when negative.
pub fn signed_decimal(n: i64) -> (r: String)
    ensures
        r@ == signed_digits(n),
{
    if n < 0 {
        let m: u64 = (0i128 - (n as i128)) as u64;
        let mut t = String::from_str("-");
        let d = decimal(m);
        push_str(&mut t, d.as_str());
        t
    } else {
        decimal(n as u64)
    }
}

/// `true` or `false`.
pub fn bool_word(b: bool) -> (r: &'static str)
    ensures
        r@ == (if b {
            "true"@
        } else {
            "false"@
        }),
{
    if b {
        "true"
    } else {
        "false"
    }
}

// ---------------------------------------------------------------------------
// Reports
// ---------------------------------------------------------------------------

/// The lines of `alavai status`.
pub open spec fn status_text(s: Status, current: Option<&Profile>) -> Seq<Seq<char>> {
    let backend = seq!["Backend:  "@ + s.backend_state@];
    let machine = match s.self_node {
        Some(n) => seq![
            "Machine:  "@ + n.hostname@ + " ("@ + trim_end_char(n.dns_name@, '.') + ")"@,
        ],
        None => Seq::empty(),
    };
    let address = if s.tailscale_ips@.len() != 0 {
        seq!["Address:  "@ + join(s.tailscale_ips.deep_view(), ", "@)]
    } else {
        Seq::empty()
    };
    let tailnet = match current {
        Some(p) => if p.id@.len() != 0 {
            seq!["Tailnet:  "@ + profile_label(*p)]
        } else {
            Seq::empty()
        },
        None => Seq::empty(),
    };
    backend + machine + address + tailnet
}

fn push_line(lines: &mut Vec<String>, line: String)
    ensures
        final(lines).deep_view() == old(lines).deep_view().push(line@),
{
    lines.push(line);
    assert(final(lines).deep_view() =~= old(lines).deep_view().push(line@));
}

/// The lines of `alavai status`, from the status and the current profile
/// (`None` when that request failed).
pub fn status_report(s: &Status, current: Option<&Profile>) -> (r: Vec<String>)
    ensures
        r.deep_view() == status_text(*s, current),
{
    let mut lines: Vec<String> = Vec::new();
    let mut l = String::from_str("Backend:  ");
    push_str(&mut l, s.backend_state.as_str());
    push_line(&mut lines, l);
    let ghost after_backend = lines.deep_view();
    if let Some(n) = &s.self_node {
        let mut l = String::from_str("Machine:  ");
        push_str(&mut l, n.hostname.as_str());
        push_str(&mut l, " (");
        let d = trim_end_matches_char(n.dns_name.as_str(), '.');
        push_str(&mut l, d.as_str());
        push_str(&mut l, ")");
        push_line(&mut lines, l);
    }
    let ghost after_machine = lines.deep_view();
    if s.tailscale_ips.len() != 0 {
        let mut l = String::from_str("Address:  ");
        let j = join_strings(&s.tailscale_ips, ", ");
        push_str(&mut l, j.as_str());
        push_line(&mut lines, l);
    }
    let ghost after_address = lines.deep_view();
    if let Some(p) = current {
        if !p.is_empty() {
            let mut l = String::from_str("Tailnet:  ");
            let lb = p.label();
            push_str(&mut l, lb.as_str());
            push_line(&mut lines, l);
        }
    }
    proof {
        let t = status_text(*s, current);
        assert(lines.deep_view() =~= t);
    }
    lines
}

/// One line of `alavai tailnets`: a dot for the current tailnet, the ID, the
/// label and the login name, in columns.
pub open spec fn tailnet_line_text(p: Profile, current_id: Seq<char>) -> Seq<char> {
    (if p.id@ == current_id {
        "●"@
    } else {
        " "@
    }) + " "@ + pad_right(p.id@, 10) + " "@ + pad_right(profile_label(p), 24) + " "@
        + p.user.login_name@
}

/// The lines of the tailnets after `lines`, skipping the empty placeholder.
pub open spec fn tailnet_lines_text(ps: Seq<Profile>, current_id: Seq<char>) -> Seq<Seq<char>>
    decreases ps.len(),
{
    if ps.len() == 0 {
        Seq::empty()
    } else {
        let r = tailnet_lines_text(ps.drop_last(), current_id);
        if ps.last().id@.len() == 0 {
            r
        } else {
            r.push(tailnet_line_text(ps.last(), current_id))
        }
    }
}

/// The lines of `alavai tailnets`.
pub open spec fn tailnets_text(ps: Seq<Profile>, current_id: Seq<char>) -> Seq<Seq<char>> {
    (if ps.len() == 0 {
        seq!["No tailnets configured."@]
    } else {
        Seq::empty()
    }) + tailnet_lines_text(ps, current_id)
}

/// The lines of `alavai tailnets`, from the profiles and the ID of the
/// current one (empty when unknown).
pub fn tailnets_report(profiles: &Vec<Profile>, current_id: &str) -> (r: Vec<String>)
    ensures
        r.deep_view() == tailnets_text(profiles@, current_id@),
{
    let mut lines: Vec<String> = Vec::new();
    if profiles.len() == 0 {
        push_line(&mut lines, String::from_str("No tailnets configured."));
    }
    let ghost head = lines.deep_view();
    let mut i: usize = 0;
    while i < profiles.len()
        invariant
            i <= profiles@.len(),
            head == (if profiles@.len() == 0 {
                seq!["No tailnets configured."@]
            } else {
                Seq::<Seq<char>>::empty()
            }),
            lines.deep_view() == head + tailnet_lines_text(
                profiles@.subrange(0, i as int),
                current_id@,
            ),
        decreases profiles@.len() - i,
    {
        let ghost next = profiles@.subrange(0, i + 1);
        assert(next.drop_last() =~= profiles@.subrange(0, i as int));
        let p = &profiles[i];
        if !p.is_empty() {
            let mut l = String::new();
            if str_eq(p.id.as_str(), current_id) {
                push_str(&mut l, "●");
            } else {
                push_str(&mut l, " ");
            }
            push_str(&mut l, " ");
            let id = padded(p.id.as_str(), 10);
            push_str(&mut l, id.as_str());
            push_str(&mut l, " ");
            let lb = p.label();
            let lbp = padded(lb.as_str(), 24);
            push_str(&mut l, lbp.as_str());
            push_str(&mut l, " ");
            push_str(&mut l, p.user.login_name.as_str());
            assert(l@ =~= tailnet_line_text(*p, current_id@));
            push_line(&mut lines, l);
            assert(lines.deep_view() =~= head + tailnet_lines_text(next, current_id@));
        } else {
            assert(lines.deep_view() =~= head + tailnet_lines_text(next, current_id@));
        }
        i = i + 1;
    }
    assert(profiles@.subrange(0, profiles@.len() as int) =~= profiles@);
    lines
}

/// The exit node in use, as `alavai prefs` shows it: its ID, else its
/// address, or `none`.
pub open spec fn exit_in_use_text(p: Prefs) -> Seq<char> {
    if p.exit_node_id@.len() != 0 {
        p.exit_node_id@
    } else if p.exit_node_ip@.len() != 0 {
        p.exit_node_ip@
    } else {
        "none"@
    }
}

/// `on` or `off`.
pub open spec fn on_off_text(b: bool) -> Seq<char> {
    if b {
        "on"@
    } else {
        "off"@
    }
}

/// The lines of `alavai prefs`.
pub open spec fn prefs_text(p: Prefs) -> Seq<Seq<char>> {
    let subnets = subnet_routes_spec(p.routes_view());
    seq![
        "Tailnet:             "@ + p.profile_name@,
        "Control server:      "@ + p.control_url@,
        "Operator:            "@ + p.operator_user@,
        "Connected (want):    "@ + on_off_text(p.want_running),
        "Accept routes:       "@ + on_off_text(p.route_all),
        "Allow LAN access:    "@ + on_off_text(p.exit_node_allow_lan),
        "Advertise exit node: "@ + on_off_text(advertises_exit_spec(p.routes_view())),
        "Using exit node:     "@ + exit_in_use_text(p),
        "Advertised routes:   "@ + (if subnets.len() == 0 {
            "none"@
        } else {
            join(subnets, ", "@)
        }),
    ]
}

fn labelled(label: &str, value: &str) -> (r: String)
    ensures
        r@ == label@ + value@,
{
    let mut t = String::from_str(label);
    push_str(&mut t, value);
    t
}

/// The lines of `alavai prefs`.
pub fn prefs_report(p: &Prefs) -> (r: Vec<String>)
    ensures
        r.deep_view() == prefs_text(*p),
{
    let mut lines: Vec<String> = Vec::new();
    push_line(&mut lines, labelled("Tailnet:             ", p.profile_name.as_str()));
    push_line(&mut lines, labelled("Control server:      ", p.control_url.as_str()));
    push_line(&mut lines, labelled("Operator:            ", p.operator_user.as_str()));
    push_line(&mut lines, labelled("Connected (want):    ", on_off(p.want_running)));
    push_line(&mut lines, labelled("Accept routes:       ", on_off(p.route_all)));
    push_line(&mut lines, labelled("Allow LAN access:    ", on_off(p.exit_node_allow_lan)));
    push_line(&mut lines, labelled("Advertise exit node: ", on_off(p.advertises_exit_node())));
    let exit = if !is_empty_str(p.exit_node_id.as_str()) {
        p.exit_node_id.clone()
    } else if !is_empty_str(p.exit_node_ip.as_str()) {
        p.exit_node_ip.clone()
    } else {
        String::from_str("none")
    };
    push_line(&mut lines, labelled("Using exit node:     ", exit.as_str()));
    let subnets = p.subnet_routes();
    let routes = if subnets.len() == 0 {
        String::from_str("none")
    } else {
        join_strings(&subnets, ", ")
    };
    push_line(&mut lines, labelled("Advertised routes:   ", routes.as_str()));
    proof {
        assert(lines.deep_view() =~= prefs_text(*p));
    }
    lines
}

/// The exit-node role tag of a peer, if it has one.
pub open spec fn peer_role_tags(p: Peer) -> Seq<Seq<char>> {
    if p.exit_node {
        seq!["active-exit"@]
    } else if p.exit_node_option {
        seq!["exit-option"@]
    } else {
        Seq::empty()
    }
}

/// The routes tag of a peer that serves subnet routes.
pub open spec fn peer_route_tags(p: Peer) -> Seq<Seq<char>> {
    if p.primary_routes@.len() != 0 {
        seq!["routes:"@ + join(p.primary_routes.deep_view(), ","@)]
    } else {
        Seq::empty()
    }
}

/// How a peer is reached and when: for an online peer, direct or through
/// which relay, and the last handshake; for an offline one, when it was last
/// seen. Zero times are left out.
pub open spec fn peer_reach_tags(p: Peer) -> Seq<Seq<char>> {
    let zero_hs = p.last_handshake@.len() == 0 || has_prefix(p.last_handshake@, "0001-01-01"@);
    let zero_seen = p.last_seen@.len() == 0 || has_prefix(p.last_seen@, "0001-01-01"@);
    if p.online {
        seq![
            if p.relay@.len() == 0 {
                "direct"@
            } else {
                "relay:"@ + p.relay@
            },
        ] + if !zero_hs {
            seq!["hs:"@ + take_chars(replace_char(p.last_handshake@, 'T', ' '), 16)]
        } else {
            Seq::empty()
        }
    } else if !zero_seen {
        seq!["seen:"@ + take_chars(replace_char(p.last_seen@, 'T', ' '), 16)]
    } else {
        Seq::empty()
    }
}

/// The traffic tag of an active peer, from its counts `rx` and `tx`.
pub open spec fn peer_traffic_tags(p: Peer, rx: Seq<char>, tx: Seq<char>) -> Seq<Seq<char>> {
    if p.active {
        seq!["↓"@ + rx + " ↑"@ + tx]
    } else {
        Seq::empty()
    }
}

/// The tags of a peer in `alavai peers`: its exit-node role, its routes, how
/// it is reached and when, and (when active) the traffic counts, which the
/// caller formats as `rx` and `tx`.
pub open spec fn peer_tags_text(p: Peer, rx: Seq<char>, tx: Seq<char>) -> Seq<Seq<char>> {
    peer_role_tags(p) + peer_route_tags(p) + peer_reach_tags(p) + peer_traffic_tags(p, rx, tx)
}

/// The tags of a peer in `alavai peers`; `rx` and `tx` are its traffic
/// counts as the caller formats them.
#[verifier::spinoff_prover]
pub fn peer_tags(p: &Peer, rx: &str, tx: &str) -> (r: Vec<String>)
    ensures
        r.deep_view() == peer_tags_text(*p, rx@, tx@),
{
    let mut tags: Vec<String> = Vec::new();
    if p.exit_node {
        push_line(&mut tags, String::from_str("active-exit"));
    } else if p.exit_node_option {
        push_line(&mut tags, String::from_str("exit-option"));
    }
    let ghost role = tags.deep_view();
    assert(role =~= peer_role_tags(*p));
    if p.primary_routes.len() != 0 {
        let j = join_strings(&p.primary_routes, ",");
        push_line(&mut tags, labelled("routes:", j.as_str()));
    }
    let ghost routed = tags.deep_view();
    assert(routed =~= role + peer_route_tags(*p));
    if p.online {
        if is_empty_str(p.relay.as_str()) {
            push_line(&mut tags, String::from_str("direct"));
        } else {
            push_line(&mut tags, labelled("relay:", p.relay.as_str()));
        }
        if !is_zero_time(p.last_handshake.as_str()) {
            let t = short_time(p.last_handshake.as_str());
            push_line(&mut tags, labelled("hs:", t.as_str()));
        }
    } else if !is_zero_time(p.last_seen.as_str()) {
        let t = short_time(p.last_seen.as_str());
        push_line(&mut tags, labelled("seen:", t.as_str()));
    }
    let ghost reached = tags.deep_view();
    assert(reached =~= routed + peer_reach_tags(*p));
    if p.active {
        let mut t = String::from_str("↓");
        push_str(&mut t, rx);
        push_str(&mut t, " ↑");
        push_str(&mut t, tx);
        push_line(&mut tags, t);
    }
    assert(tags.deep_view() =~= reached + peer_traffic_tags(*p, rx@, tx@));
    tags
}

/// The exit-node line of `alavai prefs` names the exit node in use: its ID
/// whenever one is set, else its IP, and "none" when neither is.
pub proof fn law_exit_in_use_line(p: Prefs)
    ensures
        prefs_text(p).len() == 9,
        p.exit_node_id@.len() != 0 ==> prefs_text(p)[7] == "Using exit node:     "@ + p.exit_node_id@,
        p.exit_node_id@.len() == 0 && p.exit_node_ip@.len() != 0 ==> prefs_text(p)[7]
            == "Using exit node:     "@ + p.exit_node_ip@,
        p.exit_node_id@.len() == 0 && p.exit_node_ip@.len() == 0 ==> prefs_text(p)[7]
            == "Using exit node:     "@ + "none"@,
{
}

/// The exit-node role among a peer's tags: the active exit node is tagged
/// `active-exit`, first, whether or not it also offers itself; `exit-option`
/// is given exactly to the peers that offer themselves and are not the
/// active exit node; no other tag reads as either.
pub proof fn law_exit_role_tags(p: Peer, rx: Seq<char>, tx: Seq<char>)
    ensures
        p.exit_node ==> peer_tags_text(p, rx, tx).len() > 0 && peer_tags_text(p, rx, tx)[0]
            == "active-exit"@,
        (exists|k: int|
            0 <= k < peer_tags_text(p, rx, tx).len() && #[trigger] peer_tags_text(p, rx, tx)[k]
                == "active-exit"@) <==> p.exit_node,
        (exists|k: int|
            0 <= k < peer_tags_text(p, rx, tx).len() && #[trigger] peer_tags_text(p, rx, tx)[k]
                == "exit-option"@) <==> (p.exit_node_option && !p.exit_node),
{
    reveal_strlit("active-exit");
    reveal_strlit("exit-option");
    reveal_strlit("routes:");
    reveal_strlit("direct");
    reveal_strlit("relay:");
    reveal_strlit("hs:");
    reveal_strlit("seen:");
    reveal_strlit("↓");
    let role = peer_role_tags(p);
    let others = peer_route_tags(p) + peer_reach_tags(p) + peer_traffic_tags(p, rx, tx);
    let tags = peer_tags_text(p, rx, tx);
    assert(tags =~= role + others);
    let routes = peer_route_tags(p);
    let reach = peer_reach_tags(p);
    let traffic = peer_traffic_tags(p, rx, tx);
    assert forall|j: int| 0 <= j < others.len() implies (#[trigger] others[j]).len() > 0 && others[j][0]
        != 'a' && others[j][0] != 'e' by {
        if j < routes.len() {
            assert(others[j] == routes[j]);
            assert(routes[j][0] == 'r');
        } else if j < routes.len() + reach.len() {
            let i = j - routes.len();
            assert(others[j] == reach[i]);
            if p.online {
                if i == 0 {
                    if p.relay@.len() == 0 {
                        assert(reach[i] == "direct"@);
                    } else {
                        assert(reach[i] == "relay:"@ + p.relay@);
                        assert(reach[i][0] == 'r');
                    }
                } else {
                    assert(reach[i][0] == 'h');
                }
            } else {
                assert(reach[i][0] == 's');
            }
        } else {
            let i = j - routes.len() - reach.len();
            assert(others[j] == traffic[i]);
            assert(traffic[i][0] == '↓');
        }
    }
    assert forall|k: int| role.len() <= k < tags.len() implies #[trigger] tags[k] != "active-exit"@
        && tags[k] != "exit-option"@ by {
        assert(tags[k] == others[k - role.len()]);
        assert("active-exit"@[0] == 'a');
        assert("exit-option"@[0] == 'e');
    }
    assert("active-exit"@[0] == 'a');
    assert("exit-option"@[0] == 'e');
    assert("exit-option"@ != "active-exit"@);
    if p.exit_node {
        assert(tags[0] == "active-exit"@);
    } else if p.exit_node_option {
        assert(tags[0] == "exit-option"@);
    }
}

/// One line of `alavai peers`: a filled dot when online, then host name,
/// first address and OS in columns, then the tags.
pub open spec fn peer_line_text(p: Peer, tags: Seq<Seq<char>>) -> Seq<char> {
    (if p.online {
        "●"@
    } else {
        "○"@
    }) + " "@ + pad_right(p.hostname@, 28) + " "@ + pad_right(
        if p.tailscale_ips@.len() != 0 {
            p.tailscale_ips@[0]@
        } else {
            "-"@
        },
        16,
    ) + " "@ + pad_right(p.os@, 8) + " "@ + join(tags, "  "@)
}

/// One line of `alavai peers`.
pub fn peer_line(p: &Peer, tags: &Vec<String>) -> (r: String)
    ensures
        r@ == peer_line_text(*p, tags.deep_view()),
{
    let mut l = String::new();
    if p.online {
        push_str(&mut l, "●");
    } else {
        push_str(&mut l, "○");
    }
    push_str(&mut l, " ");
    let h = padded(p.hostname.as_str(), 28);
    push_str(&mut l, h.as_str());
    push_str(&mut l, " ");
    let ip = if p.tailscale_ips.len() != 0 {
        padded(p.tailscale_ips[0].as_str(), 16)
    } else {
        padded("-", 16)
    };
    push_str(&mut l, ip.as_str());
    push_str(&mut l, " ");
    let os = padded(p.os.as_str(), 8);
    push_str(&mut l, os.as_str());
    push_str(&mut l, " ");
    let t = join_strings(tags, "  ");
    push_str(&mut l, t.as_str());
    l
}

/// The sort keys of `alavai peers`: host names, lowercased.
pub open spec fn hostname_keys(peers: Seq<Peer>) -> Seq<Seq<char>> {
    Seq::new(peers.len(), |i: int| lowercase(peers[i].hostname@))
}

/// The order in which `alavai peers` lists the peers: by lowercased host
/// name, equal names in the daemon's order.
pub fn peers_order(peers: &Vec<Peer>) -> (r: Vec<usize>)
    ensures
        stably_sorted(Seq::new(peers@.len(), |i: int| i as usize), hostname_keys(peers@), r@),
{
    let mut idx: Vec<usize> = Vec::new();
    let mut keys: Vec<Vec<char>> = Vec::new();
    let mut i: usize = 0;
    while i < peers.len()
        invariant
            i <= peers@.len(),
            idx@ == Seq::new(i as nat, |j: int| j as usize),
            keys@.len() == i,
            forall|j: int| 0 <= j < i ==> #[trigger] keys@[j]@ == lowercase(peers@[j].hostname@),
        decreases peers@.len() - i,
    {
        idx.push(i);
        keys.push(chars_of(to_lowercase(peers[i].hostname.as_str()).as_str()));
        assert(idx@ =~= Seq::new((i + 1) as nat, |j: int| j as usize));
        i = i + 1;
    }
    assert forall|j: int| 0 <= j < keys@.len() implies keys.deep_view()[j] == hostname_keys(
        peers@,
    )[j] by {
        assert(keys.deep_view()[j] =~= keys@[j]@);
    }
    assert(keys.deep_view() =~= hostname_keys(peers@));
    sort_by_text_keys(idx, keys)
}

/// `yes`, `no`, or `?` for unknown.
pub open spec fn tri_text(b: Option<bool>) -> Seq<char> {
    match b {
        Some(true) => "yes"@,
        Some(false) => "no"@,
        None => "?"@,
    }
}

/// `yes` or `no`.
pub open spec fn yes_no_text(b: bool) -> Seq<char> {
    if b {
        "yes"@
    } else {
        "no"@
    }
}

/// A global address in parentheses after a space, or nothing.
pub open spec fn global_text(addr: Seq<char>) -> Seq<char> {
    if addr.len() == 0 {
        Seq::empty()
    } else {
        " ("@ + addr + ")"@
    }
}

/// The lines of `alavai netcheck` before the per-region latencies.
pub open spec fn netcheck_text(r: NetcheckReport) -> Seq<Seq<char>> {
    seq![
        "UDP:            "@ + yes_no_text(r.udp),
        "IPv4:           "@ + yes_no_text(r.ipv4) + global_text(r.global_v4@),
        "IPv6:           "@ + yes_no_text(r.ipv6) + global_text(r.global_v6@),
        "UPnP:           "@ + tri_text(r.upnp),
        "NAT-PMP:        "@ + tri_text(r.pmp),
        "PCP:            "@ + tri_text(r.pcp),
        "NAT mapping varies: "@ + tri_text(r.mapping_varies),
        "Captive portal: "@ + tri_text(r.captive_portal),
        "Preferred DERP: region "@ + signed_digits(r.preferred_derp),
    ]
}

/// The lines of `alavai netcheck` before the per-region latencies, which
/// the caller prints from [`NetcheckReport::nearest_regions`].
#[verifier::spinoff_prover]
#[verifier::rlimit(30)]
pub fn netcheck_report(r: &NetcheckReport) -> (lines: Vec<String>)
    ensures
        lines.deep_view() == netcheck_text(*r),
{
    let mut lines: Vec<String> = Vec::new();
    push_line(&mut lines, labelled("UDP:            ", yes_no(r.udp)));
    let mut l = labelled("IPv4:           ", yes_no(r.ipv4));
    let g = fmt_global(r.global_v4.as_str());
    push_str(&mut l, g.as_str());
    push_line(&mut lines, l);
    let mut l = labelled("IPv6:           ", yes_no(r.ipv6));
    let g = fmt_global(r.global_v6.as_str());
    push_str(&mut l, g.as_str());
    push_line(&mut lines, l);
    push_line(&mut lines, labelled("UPnP:           ", crate::gui::tri_state(r.upnp, "?")));
    push_line(&mut lines, labelled("NAT-PMP:        ", crate::gui::tri_state(r.pmp, "?")));
    push_line(&mut lines, labelled("PCP:            ", crate::gui::tri_state(r.pcp, "?")));
    push_line(
        &mut lines,
        labelled("NAT mapping varies: ", crate::gui::tri_state(r.mapping_varies, "?")),
    );
    push_line(
        &mut lines,
        labelled("Captive portal: ", crate::gui::tri_state(r.captive_portal, "?")),
    );
    let d = signed_decimal(r.preferred_derp);
    push_line(&mut lines, labelled("Preferred DERP: region ", d.as_str()));
    proof {
        assert(lines.deep_view() =~= netcheck_text(*r));
    }
    lines
}

/// The line `alavai watch` prints for a live state, up to the advertised
/// routes, which the caller appends in debug form.
pub open spec fn watch_text(s: LiveState) -> Seq<char> {
    let conn = if s.online {
        "online"@
    } else if s.needs_login {
        "needs-login"@
    } else {
        "offline"@
    };
    let exit = if s.exit_node_active {
        " exit-node"@
    } else {
        Seq::empty()
    };
    let nm = if s.netmap_changed {
        " [netmap]"@
    } else {
        Seq::empty()
    };
    let b = |x: bool|
        if x {
            "true"@
        } else {
            "false"@
        };
    "["@ + conn + exit + "]"@ + nm + " "@ + s.machine@ + " ("@ + s.fqdn@ + ", "@ + s.os@ + ") "@
        + s.address@ + " | accept-routes="@ + b(s.accept_routes) + " advertise-exit="@ + b(
        s.advertise_exit_node,
    ) + " allow-lan="@ + b(s.allow_lan) + " routes="@
}

/// The line `alavai watch` prints for a live state, up to the routes.
pub fn watch_line(s: &LiveState) -> (r: String)
    ensures
        r@ == watch_text(*s),
{
    let mut l = String::from_str("[");
    if s.online {
        push_str(&mut l, "online");
    } else if s.needs_login {
        push_str(&mut l, "needs-login");
    } else {
        push_str(&mut l, "offline");
    }
    if s.exit_node_active {
        push_str(&mut l, " exit-node");
    }
    push_str(&mut l, "]");
    if s.netmap_changed {
        push_str(&mut l, " [netmap]");
    }
    push_str(&mut l, " ");
    push_str(&mut l, s.machine.as_str());
    push_str(&mut l, " (");
    push_str(&mut l, s.fqdn.as_str());
    push_str(&mut l, ", ");
    push_str(&mut l, s.os.as_str());
    push_str(&mut l, ") ");
    push_str(&mut l, s.address.as_str());
    push_str(&mut l, " | accept-routes=");
    push_str(&mut l, bool_word(s.accept_routes));
    push_str(&mut l, " advertise-exit=");
    push_str(&mut l, bool_word(s.advertise_exit_node));
    push_str(&mut l, " allow-lan=");
    push_str(&mut l, bool_word(s.allow_lan));
    push_str(&mut l, " routes=");
    proof {
        assert(l@ =~= watch_text(*s));
    }
    l
}

} // verus!
