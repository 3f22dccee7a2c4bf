//! The Tailscale LocalAPI: endpoints, the daemon's data, and the live state
//! folded from the IPN bus.
//!
//! `tailscaled` exposes an HTTP API over a unix domain socket. A [`Client`]
//! knows the socket and builds each request as an [`ApiRequest`]; the bytes
//! travel over the socket in the caller, and [`parse_http_response`] reads
//! the answer back. The data types mirror the fields of the daemon's JSON that
//! this client consumes. The `watch-ipn-bus` stream delivers [`Notify`]
//! deltas, which [`merge_notify`] folds into a [`LiveState`].
//!
//! [`parse_http_response`]: crate::http::parse_http_response

use vstd::prelude::*;
use vstd::string::*;
use vstd::utf8::*;
use crate::http::ApiRequest;
use crate::json::{
    advertise_routes_body, advertise_routes_text, exit_node_body, exit_node_text, masked_bool,
    masked_bool_text,
};
use crate::text::{
    before_char, before_char_of, contains_char, index_of, lemma_index_of_in_range, is_empty_str, push_str, str_eq,
    trim_end_char, trim_end_matches_char,
};

verus! {

/// The daemon's usual socket.
pub const SOCKET_PATH: &'static str = "/run/tailscale/tailscaled.sock";

/// The socket's older location, used when only it exists.
pub const FALLBACK_SOCKET_PATH: &'static str = "/var/run/tailscale/tailscaled.sock";

/// The Tailscale version this client was last checked against.
pub const TESTED_TAILSCALE_VERSION: &'static str = "1.98";

/// The major component of [`TESTED_TAILSCALE_VERSION`].
pub const TESTED_MAJOR: &'static str = "1";

/// `ipn.State` of a fully connected backend (`ipn.Running`).
pub const STATE_RUNNING: i64 = 6;

/// `ipn.State` of a backend with no tailnet logged in (`ipn.NeedsLogin`).
pub const STATE_NEEDS_LOGIN: i64 = 2;

/// A handle to the local `tailscaled` daemon: the socket it listens on.
#[derive(Debug)]
pub struct Client {
    socket_path: String,
}

impl Clone for Client {
    fn clone(&self) -> (r: Self)
        ensures
            r == *self,
    {
        Client { socket_path: self.socket_path.clone() }
    }
}

/// A `GET` of `path` with an empty body.
pub open spec fn is_get(r: ApiRequest, path: Seq<char>) -> bool {
    r.method@ == "GET"@ && r.path@ == path && r.body@.len() == 0
}

/// A `method` request of `path` with an empty body.
pub open spec fn is_bare(r: ApiRequest, method: Seq<char>, path: Seq<char>) -> bool {
    r.method@ == method && r.path@ == path && r.body@.len() == 0
}

/// A `POST` of the start endpoint with the empty options object `{}`.
pub open spec fn is_start(r: ApiRequest) -> bool {
    r.method@ == "POST"@ && r.path@ == "/localapi/v0/start"@ && r.body@ == seq![0x7bu8, 0x7du8]
}

/// A `PATCH` of the prefs carrying the masked edit `text`.
pub open spec fn is_prefs_edit(r: ApiRequest, text: Seq<char>) -> bool {
    r.method@ == "PATCH"@ && r.path@ == "/localapi/v0/prefs"@ && r.body@ == encode_utf8(text)
}

impl Client {
    /// A client for the daemon listening on `socket_path`.
    pub fn new(socket_path: String) -> (c: Client)
        ensures
            c.path_view() == socket_path@,
    {
        Client { socket_path }
    }

    /// The client the program uses by default: the first of the two known
    /// socket locations that exists, or the usual one when neither does.
    pub fn from_presence(usual_exists: bool, fallback_exists: bool) -> (c: Client)
        ensures
            c.path_view() == (if !usual_exists && fallback_exists {
                FALLBACK_SOCKET_PATH@
            } else {
                SOCKET_PATH@
            }),
    {
        if !usual_exists && fallback_exists {
            Client { socket_path: String::from_str(FALLBACK_SOCKET_PATH) }
        } else {
            Client { socket_path: String::from_str(SOCKET_PATH) }
        }
    }

    /// The socket path, as characters.
    pub closed spec fn path_view(&self) -> Seq<char> {
        self.socket_path@
    }

    /// The socket this client talks to.
    pub fn socket_path(&self) -> (p: &str)
        ensures
            p@ == self.path_view(),
    {
        self.socket_path.as_str()
    }

    /// A `GET` of `path`.
    pub fn get(&self, path: &str) -> (r: ApiRequest)
        ensures
            is_get(r, path@),
    {
        ApiRequest::new("GET", String::from_str(path))
    }

    /// The current network status (the `status` endpoint).
    pub fn status(&self) -> (r: ApiRequest)
        ensures
            is_get(r, "/localapi/v0/status"@),
    {
        self.get("/localapi/v0/status")
    }

    /// The configured tailnets (login profiles).
    pub fn profiles(&self) -> (r: ApiRequest)
        ensures
            is_get(r, "/localapi/v0/profiles/"@),
    {
        self.get("/localapi/v0/profiles/")
    }

    /// The currently active tailnet.
    pub fn current_profile(&self) -> (r: ApiRequest)
        ensures
            is_get(r, "/localapi/v0/profiles/current"@),
    {
        self.get("/localapi/v0/profiles/current")
    }

    /// The node preferences.
    pub fn prefs(&self) -> (r: ApiRequest)
        ensures
            is_get(r, "/localapi/v0/prefs"@),
    {
        self.get("/localapi/v0/prefs")
    }

    /// The daemon's suggested exit node.
    pub fn suggest_exit_node(&self) -> (r: ApiRequest)
        ensures
            is_get(r, "/localapi/v0/suggest-exit-node"@),
    {
        self.get("/localapi/v0/suggest-exit-node")
    }

    /// Switches to the tailnet with the LocalAPI profile ID `id`: the heart
    /// of one-click tailnet switching.
    pub fn switch_profile(&self, id: &str) -> (r: ApiRequest)
        ensures
            is_bare(r, "POST"@, "/localapi/v0/profiles/"@ + id@),
    {
        let mut path = String::from_str("/localapi/v0/profiles/");
        push_str(&mut path, id);
        ApiRequest::new("POST", path)
    }

    /// Adds a new, empty login profile and switches to it.
    pub fn new_profile(&self) -> (r: ApiRequest)
        ensures
            is_bare(r, "POST"@, "/localapi/v0/profiles/"@),
    {
        ApiRequest::new("POST", String::from_str("/localapi/v0/profiles/"))
    }

    /// Starts the backend with the options it already has. The daemon reads
    /// the body as its start options, so the body is the empty object `{}`.
    pub fn start(&self) -> (r: ApiRequest)
        ensures
            is_start(r),
    {
        let mut body: Vec<u8> = Vec::new();
        body.push(0x7bu8);
        body.push(0x7du8);
        assert(body@ =~= seq![0x7bu8, 0x7du8]);
        ApiRequest { method: String::from_str("POST"), path: String::from_str("/localapi/v0/start"), body }
    }

    /// Starts interactive login; the daemon then offers a URL on the bus.
    pub fn start_login(&self) -> (r: ApiRequest)
        ensures
            is_bare(r, "POST"@, "/localapi/v0/login-interactive"@),
    {
        ApiRequest::new("POST", String::from_str("/localapi/v0/login-interactive"))
    }

    /// Deletes (forgets) the profile with ID `id`.
    pub fn delete_profile(&self, id: &str) -> (r: ApiRequest)
        ensures
            is_bare(r, "DELETE"@, "/localapi/v0/profiles/"@ + id@),
    {
        let mut path = String::from_str("/localapi/v0/profiles/");
        push_str(&mut path, id);
        ApiRequest::new("DELETE", path)
    }

    /// A masked prefs edit with the given JSON body.
    fn edit_prefs(&self, body: Vec<u8>) -> (r: ApiRequest)
        ensures
            r.method@ == "PATCH"@,
            r.path@ == "/localapi/v0/prefs"@,
            r.body@ == body@,
    {
        ApiRequest {
            method: String::from_str("PATCH"),
            path: String::from_str("/localapi/v0/prefs"),
            body,
        }
    }

    /// Uses the peer with stable node ID `id` as exit node; an empty `id`
    /// clears the exit node.
    pub fn set_exit_node(&self, id: &str) -> (r: ApiRequest)
        ensures
            is_prefs_edit(r, exit_node_text(id@)),
    {
        self.edit_prefs(exit_node_body(id))
    }

    /// Whether to keep LAN access while using an exit node.
    pub fn set_exit_node_allow_lan(&self, allow: bool) -> (r: ApiRequest)
        ensures
            is_prefs_edit(r, masked_bool_text("ExitNodeAllowLANAccess"@, allow)),
    {
        self.edit_prefs(masked_bool("ExitNodeAllowLANAccess", allow))
    }

    /// Connects (`true`) or disconnects (`false`): the masked edit that sets
    /// `WantRunning` to `run`, then a start of the backend, sent in this
    /// order; the first that fails ends the change.
    pub fn set_want_running(&self, run: bool) -> (rs: Vec<ApiRequest>)
        ensures
            rs@.len() == 2,
            is_prefs_edit(rs@[0], masked_bool_text("WantRunning"@, run)),
            is_start(rs@[1]),
    {
        let mut rs: Vec<ApiRequest> = Vec::new();
        rs.push(self.edit_prefs(masked_bool("WantRunning", run)));
        rs.push(self.start());
        rs
    }

    /// Whether to accept subnet routes advertised by other nodes.
    pub fn set_accept_routes(&self, accept: bool) -> (r: ApiRequest)
        ensures
            is_prefs_edit(r, masked_bool_text("RouteAll"@, accept)),
    {
        self.edit_prefs(masked_bool("RouteAll", accept))
    }

    /// Advertises (or stops advertising) this machine as an exit node, given
    /// the current `prefs`, keeping its advertised subnet routes.
    pub fn set_advertise_exit_node(&self, prefs: &Prefs, enable: bool) -> (r: ApiRequest)
        ensures
            is_prefs_edit(r, advertise_routes_text(exit_node_routes(prefs.routes_view(), enable))),
    {
        let mut routes = prefs.subnet_routes();
        if enable {
            routes.push(String::from_str("0.0.0.0/0"));
            routes.push(String::from_str("::/0"));
        }
        proof {
            let s = subnet_routes_spec(prefs.routes_view());
            if enable {
                assert(routes.deep_view() =~= s.push("0.0.0.0/0"@).push("::/0"@));
            } else {
                assert(routes.deep_view() =~= s);
            }
        }
        self.edit_prefs(advertise_routes_body(&routes))
    }

    /// Sets the advertised subnet routes to `subnets`, given the current
    /// `prefs`, keeping exit-node advertisement as it is.
    pub fn set_advertise_routes(&self, prefs: &Prefs, subnets: &Vec<String>) -> (r: ApiRequest)
        ensures
            is_prefs_edit(
                r,
                advertise_routes_text(
                    subnet_routes_with_exit(subnets.deep_view(), advertises_exit_spec(prefs.routes_view())),
                ),
            ),
    {
        let mut routes = clone_strings(subnets);
        if prefs.advertises_exit_node() {
            routes.push(String::from_str("0.0.0.0/0"));
            routes.push(String::from_str("::/0"));
        }
        proof {
            if advertises_exit_spec(prefs.routes_view()) {
                assert(routes.deep_view() =~= subnets.deep_view().push("0.0.0.0/0"@).push("::/0"@));
            } else {
                assert(routes.deep_view() =~= subnets.deep_view());
            }
        }
        self.edit_prefs(advertise_routes_body(&routes))
    }
}

/// The advertised routes that `set_advertise_exit_node` sends: the subnet
/// routes of `routes`, plus the two default routes when `enable`.
pub open spec fn exit_node_routes(routes: Seq<Seq<char>>, enable: bool) -> Seq<Seq<char>> {
    subnet_routes_with_exit(subnet_routes_spec(routes), enable)
}

/// `subnets`, plus the two default routes when `exit`.
pub open spec fn subnet_routes_with_exit(subnets: Seq<Seq<char>>, exit: bool) -> Seq<Seq<char>> {
    if exit {
        subnets.push("0.0.0.0/0"@).push("::/0"@)
    } else {
        subnets
    }
}

/// A copy of a list of strings.
pub fn clone_strings(v: &Vec<String>) -> (r: Vec<String>)
    ensures
        r.deep_view() == v.deep_view(),
{
    let mut r: Vec<String> = Vec::new();
    let mut i: usize = 0;
    while i < v.len()
        invariant
            i <= v@.len(),
            r.deep_view() == v.deep_view().subrange(0, i as int),
        decreases v@.len() - i,
    {
        let ghost old_r = r;
        let e = v[i].clone();
        r.push(e);
        proof {
            lemma_push_deep(old_r, r, e);
            assert(v.deep_view().subrange(0, i + 1) =~= v.deep_view().subrange(0, i as int).push(
                v@[i as int]@,
            ));
        }
        i = i + 1;
    }
    assert(v.deep_view().subrange(0, v@.len() as int) =~= v.deep_view());
    r
}

/// Pushing a string onto a list pushes its characters onto the list's view.
pub proof fn lemma_push_deep(before: Vec<String>, after: Vec<String>, e: String)
    requires
        after@ == before@.push(e),
    ensures
        after.deep_view() == before.deep_view().push(e@),
{
    assert forall|j: int| 0 <= j < after@.len() implies #[trigger] after.deep_view()[j]
        == before.deep_view().push(e@)[j] by {
        if j < before@.len() {
            assert(after@[j] == before@[j]);
        }
    }
    assert(after.deep_view() =~= before.deep_view().push(e@));
}

/// Whether two lists of strings hold the same strings in the same order.
pub fn strings_eq(a: &Vec<String>, b: &Vec<String>) -> (r: bool)
    ensures
        r == (a.deep_view() == b.deep_view()),
{
    if a.len() != b.len() {
        assert(a.deep_view().len() != b.deep_view().len());
        return false;
    }
    let mut i: usize = 0;
    while i < a.len()
        invariant
            i <= a@.len(),
            a@.len() == b@.len(),
            forall|j: int| 0 <= j < i ==> #[trigger] a@[j]@ == b@[j]@,
        decreases a@.len() - i,
    {
        if a[i] != b[i] {
            assert(a.deep_view()[i as int] != b.deep_view()[i as int]);
            return false;
        }
        i = i + 1;
    }
    assert(a.deep_view() =~= b.deep_view());
    true
}

// ---------------------------------------------------------------------------
// Profiles
// ---------------------------------------------------------------------------

/// The network side of a login profile.
#[derive(Debug)]
pub struct NetworkProfile {
    pub domain: String,
    pub display_name: String,
}

/// The user side of a login profile.
#[derive(Debug)]
pub struct UserProfile {
    pub login_name: String,
}

/// A tailnet (login profile) as the LocalAPI reports it.
#[derive(Debug)]
pub struct Profile {
    pub id: String,
    pub name: String,
    pub network: NetworkProfile,
    pub user: UserProfile,
}

impl Clone for NetworkProfile {
    fn clone(&self) -> (r: Self)
        ensures
            r == *self,
    {
        NetworkProfile { domain: self.domain.clone(), display_name: self.display_name.clone() }
    }
}

impl Clone for UserProfile {
    fn clone(&self) -> (r: Self)
        ensures
            r == *self,
    {
        UserProfile { login_name: self.login_name.clone() }
    }
}

impl Clone for Profile {
    fn clone(&self) -> (r: Self)
        ensures
            r == *self,
    {
        Profile {
            id: self.id.clone(),
            name: self.name.clone(),
            network: self.network.clone(),
            user: self.user.clone(),
        }
    }
}

impl Default for NetworkProfile {
    fn default() -> (r: Self)
        ensures
            r.domain@.len() == 0,
            r.display_name@.len() == 0,
    {
        NetworkProfile { domain: String::new(), display_name: String::new() }
    }
}

impl Default for UserProfile {
    fn default() -> (r: Self)
        ensures
            r.login_name@.len() == 0,
    {
        UserProfile { login_name: String::new() }
    }
}

/// The label of a profile: its tailnet's domain, else its name, else its ID.
pub open spec fn profile_label(p: Profile) -> Seq<char> {
    if p.network.domain@.len() != 0 {
        p.network.domain@
    } else if p.name@.len() != 0 {
        p.name@
    } else {
        p.id@
    }
}

impl Profile {
    /// True for the empty placeholder profile (no tailnet logged in).
    pub fn is_empty(&self) -> (r: bool)
        ensures
            r == (self.id@.len() == 0),
    {
        is_empty_str(self.id.as_str())
    }

    /// A human-friendly label for the tailnet.
    pub fn label(&self) -> (r: String)
        ensures
            r@ == profile_label(*self),
    {
        if !is_empty_str(self.network.domain.as_str()) {
            self.network.domain.clone()
        } else if !is_empty_str(self.name.as_str()) {
            self.name.clone()
        } else {
            self.id.clone()
        }
    }
}

// ---------------------------------------------------------------------------
// Status
// ---------------------------------------------------------------------------

/// This node, from the `status` response.
#[derive(Debug)]
pub struct Node {
    pub hostname: String,
    pub dns_name: String,
    pub os: String,
    /// The DERP relay region this node prefers.
    pub relay: String,
}

/// A peer (another machine on the tailnet) from the `status` response.
#[derive(Debug)]
pub struct Peer {
    /// Stable node ID, used as the exit-node identifier.
    pub id: String,
    pub hostname: String,
    pub dns_name: String,
    pub os: String,
    pub tailscale_ips: Vec<String>,
    pub online: bool,
    /// This peer is the node's currently active exit node.
    pub exit_node: bool,
    /// This peer is available as an exit node.
    pub exit_node_option: bool,
    /// There is an active (recent) connection to this peer.
    pub active: bool,
    pub rx_bytes: i64,
    pub tx_bytes: i64,
    /// DERP relay region in use (empty for a direct connection).
    pub relay: String,
    pub last_seen: String,
    pub last_handshake: String,
    /// Subnet routes this peer advertises and serves.
    pub primary_routes: Vec<String>,
}

/// The fields of the `status` response that this client consumes.
#[derive(Debug)]
pub struct Status {
    pub backend_state: String,
    /// The running `tailscaled` version, empty if the daemon omits it.
    pub version: String,
    pub tailscale_ips: Vec<String>,
    pub self_node: Option<Node>,
    /// The peers of the daemon's peer map, in the order it was walked.
    pub peers: Vec<Peer>,
}

impl Status {
    /// Whether the backend is running (connected).
    pub fn online(&self) -> (r: bool)
        ensures
            r == (self.backend_state@ == "Running"@),
    {
        str_eq(self.backend_state.as_str(), "Running")
    }
}

/// The hint printed when the daemon's major version is not the tested one.
pub open spec fn version_warning_text(daemon_version: Seq<char>) -> Seq<char> {
    "alavai: tailscaled "@ + daemon_version + " is a different major version than the tested "@
        + TESTED_TAILSCALE_VERSION@ + ".x; some features may misbehave"@
}

/// What `untested_version_warning` returns for `daemon_version`.
pub open spec fn version_warning(daemon_version: Seq<char>) -> Option<Seq<char>> {
    let major = before_char(daemon_version, '.');
    if major.len() == 0 || major == TESTED_MAJOR@ {
        None
    } else {
        Some(version_warning_text(daemon_version))
    }
}

/// A one-line warning when the daemon's major version differs from the tested
/// one, else `None`. Minor and patch differences never warn.
pub fn untested_version_warning(daemon_version: &str) -> (r: Option<String>)
    ensures
        r is Some <==> version_warning(daemon_version@) is Some,
        r matches Some(s) ==> Some(s@) == version_warning(daemon_version@),
{
    let major = before_char_of(daemon_version, '.');
    if is_empty_str(major.as_str()) || str_eq(major.as_str(), TESTED_MAJOR) {
        return None;
    }
    let mut msg = String::from_str("alavai: tailscaled ");
    push_str(&mut msg, daemon_version);
    push_str(&mut msg, " is a different major version than the tested ");
    push_str(&mut msg, TESTED_TAILSCALE_VERSION);
    push_str(&mut msg, ".x; some features may misbehave");
    Some(msg)
}

// ---------------------------------------------------------------------------
// Prefs
// ---------------------------------------------------------------------------

/// The node preferences behind exit nodes and routes.
#[derive(Debug)]
pub struct Prefs {
    pub control_url: String,
    pub route_all: bool,
    pub exit_node_id: String,
    pub exit_node_ip: String,
    pub exit_node_allow_lan: bool,
    pub advertise_routes: Vec<String>,
    pub want_running: bool,
    pub operator_user: String,
    pub profile_name: String,
}

/// Whether `route` is one of the two default routes an exit node advertises.
pub open spec fn is_default_route_spec(route: Seq<char>) -> bool {
    route == "0.0.0.0/0"@ || route == "::/0"@
}

/// Whether any of `routes` is a default route.
pub open spec fn advertises_exit_spec(routes: Seq<Seq<char>>) -> bool {
    exists|i: int| 0 <= i < routes.len() && is_default_route_spec(#[trigger] routes[i])
}

/// `routes` without the default routes, in order.
pub open spec fn subnet_routes_spec(routes: Seq<Seq<char>>) -> Seq<Seq<char>>
    decreases routes.len(),
{
    if routes.len() == 0 {
        Seq::empty()
    } else {
        let r = subnet_routes_spec(routes.drop_last());
        if is_default_route_spec(routes.last()) {
            r
        } else {
            r.push(routes.last())
        }
    }
}

/// Whether `route` is one of the default routes (`0.0.0.0/0`, `::/0`).
pub fn is_default_route(route: &str) -> (r: bool)
    ensures
        r == is_default_route_spec(route@),
{
    str_eq(route, "0.0.0.0/0") || str_eq(route, "::/0")
}

/// Whether some route of `routes` is a default route.
pub fn any_default_route(routes: &Vec<String>) -> (r: bool)
    ensures
        r == advertises_exit_spec(routes.deep_view()),
{
    let mut i: usize = 0;
    while i < routes.len()
        invariant
            i <= routes@.len(),
            forall|j: int| 0 <= j < i ==> !is_default_route_spec(#[trigger] routes.deep_view()[j]),
        decreases routes@.len() - i,
    {
        if is_default_route(routes[i].as_str()) {
            assert(is_default_route_spec(routes.deep_view()[i as int]));
            return true;
        }
        i = i + 1;
    }
    false
}

/// The routes of `routes` that are not default routes, in order.
pub fn without_default_routes(routes: &Vec<String>) -> (r: Vec<String>)
    ensures
        r.deep_view() == subnet_routes_spec(routes.deep_view()),
{
    let mut out: Vec<String> = Vec::new();
    let mut i: usize = 0;
    while i < routes.len()
        invariant
            i <= routes@.len(),
            out.deep_view() == subnet_routes_spec(routes.deep_view().subrange(0, i as int)),
        decreases routes@.len() - i,
    {
        let ghost pre = routes.deep_view().subrange(0, i as int);
        let ghost next = routes.deep_view().subrange(0, i + 1);
        assert(next.drop_last() =~= pre);
        if !is_default_route(routes[i].as_str()) {
            out.push(routes[i].clone());
            assert(out.deep_view() =~= subnet_routes_spec(pre).push(routes[i as int]@));
        }
        i = i + 1;
    }
    assert(routes.deep_view().subrange(0, routes@.len() as int) =~= routes.deep_view());
    out
}

impl Prefs {
    /// The advertised routes, as strings.
    pub open spec fn routes_view(&self) -> Seq<Seq<char>> {
        self.advertise_routes.deep_view()
    }

    /// True if this node currently uses an exit node.
    pub fn exit_node_active(&self) -> (r: bool)
        ensures
            r == (self.exit_node_id@.len() != 0 || self.exit_node_ip@.len() != 0),
    {
        !is_empty_str(self.exit_node_id.as_str()) || !is_empty_str(self.exit_node_ip.as_str())
    }

    /// True if this node advertises itself as an exit node.
    pub fn advertises_exit_node(&self) -> (r: bool)
        ensures
            r == advertises_exit_spec(self.routes_view()),
    {
        any_default_route(&self.advertise_routes)
    }

    /// The advertised subnet routes, without the exit-node default routes.
    pub fn subnet_routes(&self) -> (r: Vec<String>)
        ensures
            r.deep_view() == subnet_routes_spec(self.routes_view()),
    {
        without_default_routes(&self.advertise_routes)
    }
}

// ---------------------------------------------------------------------------
// netcheck
// ---------------------------------------------------------------------------

/// A connectivity diagnostics report (`tailscale netcheck --format=json`).
#[derive(Debug, Clone)]
pub struct NetcheckReport {
    pub udp: bool,
    pub ipv4: bool,
    pub ipv6: bool,
    pub mapping_varies: Option<bool>,
    pub upnp: Option<bool>,
    pub pmp: Option<bool>,
    pub pcp: Option<bool>,
    pub captive_portal: Option<bool>,
    pub preferred_derp: i64,
    pub global_v4: String,
    pub global_v6: String,
    /// DERP region ID and round-trip latency in nanoseconds, one pair per
    /// region of the report.
    pub region_latency: Vec<(String, i64)>,
}

impl NetcheckReport {
    /// Each region occurs once in `region_latency`, as keys of a map do.
    pub open spec fn regions_distinct(&self) -> bool {
        forall|i: int, j: int|
            0 <= i < j < self.region_latency@.len() ==> #[trigger] self.region_latency@[i].0@
                != #[trigger] self.region_latency@[j].0@
    }

    /// Whether each region occurs once in `region_latency`.
    pub fn has_distinct_regions(&self) -> (r: bool)
        ensures
            r == self.regions_distinct(),
    {
        let n = self.region_latency.len();
        let mut j: usize = 0;
        while j < n
            invariant
                n == self.region_latency@.len(),
                j <= n,
                forall|a: int, b: int|
                    0 <= a < b < j ==> #[trigger] self.region_latency@[a].0@
                        != #[trigger] self.region_latency@[b].0@,
            decreases n - j,
        {
            let mut i: usize = 0;
            while i < j
                invariant
                    n == self.region_latency@.len(),
                    i <= j < n,
                    forall|a: int| 0 <= a < i ==> #[trigger] self.region_latency@[a].0@
                        != self.region_latency@[j as int].0@,
                decreases j - i,
            {
                if str_eq(self.region_latency[i].0.as_str(), self.region_latency[j].0.as_str()) {
                    assert(self.region_latency@[i as int].0@ == self.region_latency@[j as int].0@);
                    return false;
                }
                i = i + 1;
            }
            j = j + 1;
        }
        true
    }
}

/// What Tailscale's tri-state `opt.Bool`, written as a string, means.
pub open spec fn opt_bool_spec(s: Seq<char>) -> Option<bool> {
    if s == "true"@ {
        Some(true)
    } else if s == "false"@ {
        Some(false)
    } else {
        None
    }
}

/// Reads the string form of an `opt.Bool`: `"true"`, `"false"`, or anything
/// else (usually `""`) for unknown.
pub fn opt_bool_text(s: &str) -> (r: Option<bool>)
    ensures
        r == opt_bool_spec(s@),
{
    if str_eq(s, "true") {
        Some(true)
    } else if str_eq(s, "false") {
        Some(false)
    } else {
        None
    }
}

// ---------------------------------------------------------------------------
// The IPN bus
// ---------------------------------------------------------------------------

/// The prefs carried by a notification.
#[derive(Debug)]
pub struct NotifyPrefs {
    pub exit_node_id: String,
    pub exit_node_ip: String,
    pub route_all: bool,
    pub exit_node_allow_lan: bool,
    pub advertise_routes: Vec<String>,
}

/// Host information of this node in a network map.
#[derive(Debug)]
pub struct NotifyHostinfo {
    pub hostname: String,
    pub os: String,
}

/// This node in a network map.
#[derive(Debug)]
pub struct NotifySelfNode {
    pub name: String,
    pub addresses: Vec<String>,
    pub hostinfo: NotifyHostinfo,
}

/// A network map carried by a notification.
#[derive(Debug)]
pub struct NotifyNetMap {
    pub self_node: Option<NotifySelfNode>,
}

/// One `ipn.Notify` delta from the `watch-ipn-bus` stream.
#[derive(Debug)]
pub struct Notify {
    pub state: Option<i64>,
    pub prefs: Option<NotifyPrefs>,
    pub netmap: Option<NotifyNetMap>,
    pub browse_to_url: Option<String>,
}

/// The live, continuously updated slice of daemon state derived from the IPN
/// bus. Fields persist across the delta notifications the bus emits.
#[derive(Debug)]
pub struct LiveState {
    pub online: bool,
    /// The daemon is reachable but no tailnet is logged in.
    pub needs_login: bool,
    pub exit_node_active: bool,
    pub machine: String,
    pub fqdn: String,
    pub os: String,
    /// The preferred Tailscale address, for the tray.
    pub address: String,
    pub addresses: Vec<String>,
    pub accept_routes: bool,
    pub advertise_exit_node: bool,
    pub allow_lan: bool,
    pub advertised_routes: Vec<String>,
    /// Set when the daemon wants the user to open a browser to authenticate.
    pub browse_to_url: Option<String>,
    /// Transient: the last delta carried a network map, so peers may have
    /// changed and a consumer should refresh its peer list.
    pub netmap_changed: bool,
}

/// The value of a live state: its fields, with strings as characters.
pub struct LiveView {
    pub online: bool,
    pub needs_login: bool,
    pub exit_node_active: bool,
    pub machine: Seq<char>,
    pub fqdn: Seq<char>,
    pub os: Seq<char>,
    pub address: Seq<char>,
    pub addresses: Seq<Seq<char>>,
    pub accept_routes: bool,
    pub advertise_exit_node: bool,
    pub allow_lan: bool,
    pub advertised_routes: Seq<Seq<char>>,
    pub browse_to_url: Option<Seq<char>>,
    pub netmap_changed: bool,
}

/// The characters of an optional string.
pub open spec fn opt_view(o: Option<String>) -> Option<Seq<char>> {
    match o {
        Some(s) => Some(s@),
        None => None,
    }
}

impl View for LiveState {
    type V = LiveView;

    open spec fn view(&self) -> LiveView {
        LiveView {
            online: self.online,
            needs_login: self.needs_login,
            exit_node_active: self.exit_node_active,
            machine: self.machine@,
            fqdn: self.fqdn@,
            os: self.os@,
            address: self.address@,
            addresses: self.addresses.deep_view(),
            accept_routes: self.accept_routes,
            advertise_exit_node: self.advertise_exit_node,
            allow_lan: self.allow_lan,
            advertised_routes: self.advertised_routes.deep_view(),
            browse_to_url: opt_view(self.browse_to_url),
            netmap_changed: self.netmap_changed,
        }
    }
}

/// The live state before any notification: offline, nothing known.
pub open spec fn empty_live() -> LiveView {
    LiveView {
        online: false,
        needs_login: false,
        exit_node_active: false,
        machine: Seq::empty(),
        fqdn: Seq::empty(),
        os: Seq::empty(),
        address: Seq::empty(),
        addresses: Seq::empty(),
        accept_routes: false,
        advertise_exit_node: false,
        allow_lan: false,
        advertised_routes: Seq::empty(),
        browse_to_url: None,
        netmap_changed: false,
    }
}

impl Default for LiveState {
    fn default() -> (r: Self)
        ensures
            r@ == empty_live(),
    {
        let r = LiveState {
            online: false,
            needs_login: false,
            exit_node_active: false,
            machine: String::new(),
            fqdn: String::new(),
            os: String::new(),
            address: String::new(),
            addresses: Vec::new(),
            accept_routes: false,
            advertise_exit_node: false,
            allow_lan: false,
            advertised_routes: Vec::new(),
            browse_to_url: None,
            netmap_changed: false,
        };
        assert(r.addresses.deep_view() =~= Seq::<Seq<char>>::empty());
        assert(r.advertised_routes.deep_view() =~= Seq::<Seq<char>>::empty());
        r
    }
}

impl Clone for LiveState {
    fn clone(&self) -> (r: Self)
        ensures
            r@ == self@,
    {
        LiveState {
            online: self.online,
            needs_login: self.needs_login,
            exit_node_active: self.exit_node_active,
            machine: self.machine.clone(),
            fqdn: self.fqdn.clone(),
            os: self.os.clone(),
            address: self.address.clone(),
            addresses: clone_strings(&self.addresses),
            accept_routes: self.accept_routes,
            advertise_exit_node: self.advertise_exit_node,
            allow_lan: self.allow_lan,
            advertised_routes: clone_strings(&self.advertised_routes),
            browse_to_url: match &self.browse_to_url {
                Some(u) => Some(u.clone()),
                None => None,
            },
            netmap_changed: self.netmap_changed,
        }
    }
}

/// Folding the connection state of a notification.
pub open spec fn merge_state(l: LiveView, state: Option<i64>) -> (LiveView, bool) {
    match state {
        None => (l, false),
        Some(st) => {
            let online = st == STATE_RUNNING;
            let needs_login = st == STATE_NEEDS_LOGIN;
            if online != l.online || needs_login != l.needs_login {
                (LiveView { online, needs_login, ..l }, true)
            } else {
                (l, false)
            }
        },
    }
}

/// Folding the prefs of a notification.
pub open spec fn merge_prefs(l: LiveView, prefs: Option<NotifyPrefs>) -> (LiveView, bool) {
    match prefs {
        None => (l, false),
        Some(p) => {
            let exit = p.exit_node_id@.len() != 0 || p.exit_node_ip@.len() != 0;
            let advertise_exit = advertises_exit_spec(p.advertise_routes.deep_view());
            let subnets = subnet_routes_spec(p.advertise_routes.deep_view());
            if exit != l.exit_node_active || p.route_all != l.accept_routes || advertise_exit
                != l.advertise_exit_node || p.exit_node_allow_lan != l.allow_lan || subnets
                != l.advertised_routes {
                (
                    LiveView {
                        exit_node_active: exit,
                        accept_routes: p.route_all,
                        advertise_exit_node: advertise_exit,
                        allow_lan: p.exit_node_allow_lan,
                        advertised_routes: subnets,
                        ..l
                    },
                    true,
                )
            } else {
                (l, false)
            }
        },
    }
}

/// An address without its CIDR suffix (`100.64.0.1/32` becomes `100.64.0.1`).
pub open spec fn strip_prefix_len(a: Seq<char>) -> Seq<char> {
    before_char(a, '/')
}

/// The index of the first address at or after `i` that is not IPv6 (holds no
/// `:`).
pub open spec fn first_ipv4_from(addrs: Seq<Seq<char>>, i: int) -> Option<int>
    decreases addrs.len() - i,
{
    if i < 0 || i >= addrs.len() {
        None
    } else if index_of(addrs[i], ':') is None {
        Some(i)
    } else {
        first_ipv4_from(addrs, i + 1)
    }
}

/// The display address of a CIDR list: the first IPv4 one, else the first
/// one, without its prefix length; empty for an empty list.
pub open spec fn pick_address_spec(addrs: Seq<Seq<char>>) -> Seq<char> {
    match first_ipv4_from(addrs, 0) {
        Some(i) => strip_prefix_len(addrs[i]),
        None => if addrs.len() > 0 {
            strip_prefix_len(addrs[0])
        } else {
            Seq::empty()
        },
    }
}

/// The addresses without their prefix lengths.
pub open spec fn stripped_addresses(addrs: Seq<Seq<char>>) -> Seq<Seq<char>> {
    addrs.map_values(|a: Seq<char>| strip_prefix_len(a))
}

/// Folding the network map of a notification.
pub open spec fn merge_netmap(l: LiveView, netmap: Option<NotifyNetMap>) -> (LiveView, bool) {
    match netmap {
        Some(NotifyNetMap { self_node: Some(sn) }) => {
            let fqdn = trim_end_char(sn.name@, '.');
            let machine = if sn.hostinfo.hostname@.len() != 0 {
                sn.hostinfo.hostname@
            } else {
                fqdn
            };
            let addresses = stripped_addresses(sn.addresses.deep_view());
            if machine != l.machine || fqdn != l.fqdn || sn.hostinfo.os@ != l.os || addresses
                != l.addresses {
                (
                    LiveView {
                        machine,
                        fqdn,
                        os: sn.hostinfo.os@,
                        address: pick_address_spec(sn.addresses.deep_view()),
                        addresses,
                        ..l
                    },
                    true,
                )
            } else {
                (l, false)
            }
        },
        _ => (l, false),
    }
}

/// Folding the login URL of a notification.
pub open spec fn merge_url(l: LiveView, url: Option<String>) -> (LiveView, bool) {
    match url {
        Some(u) => if u@.len() != 0 && l.browse_to_url != Some(u@) {
            (LiveView { browse_to_url: Some(u@), ..l }, true)
        } else {
            (l, false)
        },
        None => (l, false),
    }
}

/// The live state after folding in `n`, and whether the consumer should be
/// told: something user-visible changed, or the delta carried a network map.
pub open spec fn merge_spec(l: LiveView, n: Notify) -> (LiveView, bool) {
    let had_netmap = n.netmap is Some;
    let l0 = LiveView { netmap_changed: had_netmap, ..l };
    let (l1, c1) = merge_state(l0, n.state);
    let (l2, c2) = merge_prefs(l1, n.prefs);
    let (l3, c3) = merge_netmap(l2, n.netmap);
    let (l4, c4) = merge_url(l3, n.browse_to_url);
    (l4, c1 || c2 || c3 || c4 || had_netmap)
}

fn fold_state(live: &mut LiveState, state: Option<i64>) -> (changed: bool)
    ensures
        (final(live)@, changed) == merge_state(old(live)@, state),
{
    if let Some(st) = state {
        let online = st == STATE_RUNNING;
        let needs_login = st == STATE_NEEDS_LOGIN;
        if online != live.online || needs_login != live.needs_login {
            live.online = online;
            live.needs_login = needs_login;
            return true;
        }
    }
    false
}

fn fold_prefs(live: &mut LiveState, prefs: Option<NotifyPrefs>) -> (changed: bool)
    ensures
        (final(live)@, changed) == merge_prefs(old(live)@, prefs),
{
    if let Some(p) = prefs {
        let exit = !is_empty_str(p.exit_node_id.as_str()) || !is_empty_str(p.exit_node_ip.as_str());
        let advertise_exit = any_default_route(&p.advertise_routes);
        let subnets = without_default_routes(&p.advertise_routes);
        if exit != live.exit_node_active || p.route_all != live.accept_routes || advertise_exit
            != live.advertise_exit_node || p.exit_node_allow_lan != live.allow_lan || !strings_eq(
            &subnets,
            &live.advertised_routes,
        ) {
            live.exit_node_active = exit;
            live.accept_routes = p.route_all;
            live.advertise_exit_node = advertise_exit;
            live.allow_lan = p.exit_node_allow_lan;
            live.advertised_routes = subnets;
            return true;
        }
    }
    false
}

/// The addresses of `addrs` without their prefix lengths.
pub fn strip_addresses(addrs: &Vec<String>) -> (r: Vec<String>)
    ensures
        r.deep_view() == stripped_addresses(addrs.deep_view()),
{
    let mut out: Vec<String> = Vec::new();
    let mut i: usize = 0;
    while i < addrs.len()
        invariant
            i <= addrs@.len(),
            out.deep_view() == stripped_addresses(addrs.deep_view().subrange(0, i as int)),
        decreases addrs@.len() - i,
    {
        let ghost old_out = out;
        let e = before_char_of(addrs[i].as_str(), '/');
        out.push(e);
        proof {
            lemma_push_deep(old_out, out, e);
            assert(stripped_addresses(addrs.deep_view().subrange(0, i + 1)) =~= stripped_addresses(
                addrs.deep_view().subrange(0, i as int),
            ).push(strip_prefix_len(addrs@[i as int]@)));
        }
        i = i + 1;
    }
    assert(addrs.deep_view().subrange(0, addrs@.len() as int) =~= addrs.deep_view());
    out
}

proof fn lemma_first_ipv4_skip(addrs: Seq<Seq<char>>, i: int)
    requires
        0 <= i <= addrs.len(),
        forall|j: int| 0 <= j < i ==> index_of(#[trigger] addrs[j], ':') is Some,
    ensures
        first_ipv4_from(addrs, 0) == first_ipv4_from(addrs, i),
    decreases i,
{
    if i > 0 {
        lemma_first_ipv4_skip(addrs, i - 1);
    }
}

/// Picks a display address from a node's CIDR list, preferring IPv4.
pub fn pick_address(addrs: &Vec<String>) -> (r: String)
    ensures
        r@ == pick_address_spec(addrs.deep_view()),
{
    let ghost a = addrs.deep_view();
    let mut i: usize = 0;
    while i < addrs.len()
        invariant
            i <= addrs@.len(),
            a == addrs.deep_view(),
            forall|j: int| 0 <= j < i ==> index_of(#[trigger] a[j], ':') is Some,
        decreases addrs@.len() - i,
    {
        if !contains_char(addrs[i].as_str(), ':') {
            proof {
                lemma_first_ipv4_skip(a, i as int);
            }
            return before_char_of(addrs[i].as_str(), '/');
        }
        i = i + 1;
    }
    proof {
        lemma_first_ipv4_skip(a, i as int);
    }
    if addrs.len() > 0 {
        before_char_of(addrs[0].as_str(), '/')
    } else {
        String::new()
    }
}

fn fold_netmap(live: &mut LiveState, netmap: Option<NotifyNetMap>) -> (changed: bool)
    ensures
        (final(live)@, changed) == merge_netmap(old(live)@, netmap),
{
    let sn = match netmap {
        Some(NotifyNetMap { self_node: Some(sn) }) => sn,
        _ => {
            return false;
        },
    };
    let fqdn = trim_end_matches_char(sn.name.as_str(), '.');
    let machine = if !is_empty_str(sn.hostinfo.hostname.as_str()) {
        sn.hostinfo.hostname.clone()
    } else {
        fqdn.clone()
    };
    let addresses = strip_addresses(&sn.addresses);
    if !str_eq(machine.as_str(), live.machine.as_str()) || !str_eq(fqdn.as_str(), live.fqdn.as_str())
        || !str_eq(sn.hostinfo.os.as_str(), live.os.as_str()) || !strings_eq(
        &addresses,
        &live.addresses,
    ) {
        live.machine = machine;
        live.fqdn = fqdn;
        live.os = sn.hostinfo.os;
        live.address = pick_address(&sn.addresses);
        live.addresses = addresses;
        return true;
    }
    false
}

fn fold_url(live: &mut LiveState, url: Option<String>) -> (changed: bool)
    ensures
        (final(live)@, changed) == merge_url(old(live)@, url),
{
    if let Some(u) = url {
        if !is_empty_str(u.as_str()) {
            let same = match &live.browse_to_url {
                Some(cur) => str_eq(cur.as_str(), u.as_str()),
                None => false,
            };
            if !same {
                live.browse_to_url = Some(u);
                return true;
            }
        }
    }
    false
}

/// Folds one notification into the running live state, returning whether the
/// consumer should be told: something user-visible changed, or the delta
/// carried a network map (peers may have changed).
pub fn merge_notify(live: &mut LiveState, n: Notify) -> (changed: bool)
    ensures
        (final(live)@, changed) == merge_spec(old(live)@, n),
{
    let had_netmap = n.netmap.is_some();
    live.netmap_changed = had_netmap;
    let Notify { state, prefs, netmap, browse_to_url } = n;
    let c1 = fold_state(live, state);
    let c2 = fold_prefs(live, prefs);
    let c3 = fold_netmap(live, netmap);
    let c4 = fold_url(live, browse_to_url);
    c1 || c2 || c3 || c4 || had_netmap
}


// ---------------------------------------------------------------------------
// Laws
// ---------------------------------------------------------------------------

/// Whether `s` holds the character `c`.
pub open spec fn holds_char(s: Seq<char>, c: char) -> bool {
    exists|i: int| 0 <= i < s.len() && s[i] == c
}

/// Whether `r` is `s` cut before its first `c`: a prefix of `s` without `c`,
/// followed in `s` by `c` or by nothing.
pub open spec fn cut_before(s: Seq<char>, c: char, r: Seq<char>) -> bool {
    &&& r.len() <= s.len()
    &&& r == s.subrange(0, r.len() as int)
    &&& !holds_char(r, c)
    &&& r.len() < s.len() ==> s[r.len() as int] == c
}

/// Whether `r` is the address a node with the CIDR addresses `addrs` shows:
/// the first address holding no `:` (IPv4), or the first address when every
/// one holds a `:`, either cut before its `/`; nothing for no addresses.
pub open spec fn shows_address(addrs: Seq<Seq<char>>, r: Seq<char>) -> bool {
    if addrs.len() == 0 {
        r.len() == 0
    } else {
        exists|k: int|
            0 <= k < addrs.len() && #[trigger] cut_before(addrs[k], '/', r) && (if forall|j: int|
                0 <= j < addrs.len() ==> holds_char(#[trigger] addrs[j], ':') {
                k == 0
            } else {
                !holds_char(addrs[k], ':') && forall|j: int| 0 <= j < k ==> holds_char(#[trigger] addrs[j], ':')
            })
    }
}

proof fn lemma_holds_char_index_of(s: Seq<char>, c: char)
    ensures
        holds_char(s, c) <==> index_of(s, c) is Some,
{
    lemma_index_of_in_range(s, c);
}

proof fn lemma_cut_before(s: Seq<char>, c: char)
    ensures
        cut_before(s, c, before_char(s, c)),
{
    lemma_index_of_in_range(s, c);
    let r = before_char(s, c);
    match index_of(s, c) {
        Some(i) => {
            assert(r == s.subrange(0, i));
            assert(r.len() == i);
            assert(!holds_char(r, c)) by {
                assert forall|j: int| 0 <= j < r.len() implies r[j] != c by {
                    assert(r[j] == s[j]);
                }
            }
        },
        None => {
            assert(r == s);
            assert(s.subrange(0, s.len() as int) =~= s);
        },
    }
}

proof fn lemma_first_ipv4_from(addrs: Seq<Seq<char>>, i: int)
    requires
        0 <= i,
    ensures
        first_ipv4_from(addrs, i) matches Some(k) ==> i <= k < addrs.len() && index_of(addrs[k], ':')
            is None && forall|j: int| i <= j < k ==> index_of(#[trigger] addrs[j], ':') is Some,
        first_ipv4_from(addrs, i) is None ==> forall|j: int|
            i <= j < addrs.len() ==> index_of(#[trigger] addrs[j], ':') is Some,
    decreases addrs.len() - i,
{
    if i < addrs.len() && index_of(addrs[i], ':') is Some {
        lemma_first_ipv4_from(addrs, i + 1);
    }
}

/// The display address picked from a node's addresses is the one
/// `shows_address` describes.
proof fn lemma_pick_address_shows(addrs: Seq<Seq<char>>)
    ensures
        shows_address(addrs, pick_address_spec(addrs)),
{
    lemma_first_ipv4_from(addrs, 0);
    assert forall|j: int| 0 <= j < addrs.len() implies holds_char(#[trigger] addrs[j], ':') <==> index_of(
        addrs[j],
        ':',
    ) is Some by {
        lemma_holds_char_index_of(addrs[j], ':');
    }
    let r = pick_address_spec(addrs);
    match first_ipv4_from(addrs, 0) {
        Some(k) => {
            lemma_cut_before(addrs[k], '/');
            assert(cut_before(addrs[k], '/', r));
            assert(!holds_char(addrs[k], ':'));
        },
        None => {
            if addrs.len() > 0 {
                lemma_cut_before(addrs[0], '/');
                assert(cut_before(addrs[0], '/', r));
            }
        },
    }
}

/// The address a notification's self node shows: when folding the
/// notification changes what is shown of this machine, the live address
/// becomes the node's first IPv4 address without its `/len` suffix, or its
/// first address when none is IPv4, or nothing when it has no addresses;
/// otherwise the address stays as it was.
pub proof fn law_self_node_address(l: LiveView, n: Notify, sn: NotifySelfNode)
    requires
        n.netmap == Some(NotifyNetMap { self_node: Some(sn) }),
    ensures
        ({
            let after = merge_spec(l, n).0;
            &&& (after.machine != l.machine || after.fqdn != l.fqdn || after.os != l.os
                || after.addresses != l.addresses) ==> shows_address(
                sn.addresses.deep_view(),
                after.address,
            )
            &&& (after.machine == l.machine && after.fqdn == l.fqdn && after.os == l.os
                && after.addresses == l.addresses) ==> after.address == l.address
        }),
{
    lemma_pick_address_shows(sn.addresses.deep_view());
}

/// Folding the same notification twice changes nothing the second time: the
/// live state stays as the first fold left it, and the consumer is told again
/// only when the notification carries a network map.
pub proof fn law_merge_idempotent(l: LiveView, n: Notify)
    ensures
        merge_spec(merge_spec(l, n).0, n).0 == merge_spec(l, n).0,
        merge_spec(merge_spec(l, n).0, n).1 == (n.netmap is Some),
{
}

proof fn lemma_subnets_of_subnets(s: Seq<Seq<char>>)
    requires
        forall|i: int| 0 <= i < s.len() ==> !is_default_route_spec(#[trigger] s[i]),
    ensures
        subnet_routes_spec(s) == s,
    decreases s.len(),
{
    if s.len() > 0 {
        lemma_subnets_of_subnets(s.drop_last());
        assert(s.drop_last().push(s.last()) =~= s);
    }
}

proof fn lemma_subnets_have_no_default(s: Seq<Seq<char>>)
    ensures
        forall|i: int|
            0 <= i < subnet_routes_spec(s).len() ==> !is_default_route_spec(
                #[trigger] subnet_routes_spec(s)[i],
            ),
    decreases s.len(),
{
    if s.len() > 0 {
        lemma_subnets_have_no_default(s.drop_last());
        let r = subnet_routes_spec(s.drop_last());
        if !is_default_route_spec(s.last()) {
            assert(subnet_routes_spec(s) == r.push(s.last()));
            assert forall|i: int| 0 <= i < r.push(s.last()).len() implies !is_default_route_spec(
                #[trigger] r.push(s.last())[i],
            ) by {
                if i < r.len() {
                    assert(r.push(s.last())[i] == r[i]);
                }
            }
        }
    }
}

proof fn lemma_routes_with_exit(subnets: Seq<Seq<char>>, exit: bool)
    requires
        forall|i: int| 0 <= i < subnets.len() ==> !is_default_route_spec(#[trigger] subnets[i]),
    ensures
        subnet_routes_spec(subnet_routes_with_exit(subnets, exit)) == subnets,
        advertises_exit_spec(subnet_routes_with_exit(subnets, exit)) == exit,
{
    lemma_subnets_of_subnets(subnets);
    if exit {
        let a = subnets.push("0.0.0.0/0"@);
        let b = a.push("::/0"@);
        assert(b.drop_last() == a);
        assert(a.drop_last() == subnets);
        assert(b.last() == "::/0"@);
        assert(a.last() == "0.0.0.0/0"@);
        assert(subnet_routes_spec(a) == subnet_routes_spec(subnets));
        assert(subnet_routes_spec(b) == subnet_routes_spec(a));
        assert(is_default_route_spec(b[b.len() - 1]));
    } else {
        assert forall|i: int| 0 <= i < subnets.len() implies !is_default_route_spec(
            #[trigger] subnets[i],
        ) by {}
    }
}

/// Advertising (or no longer advertising) this machine as an exit node keeps
/// its advertised subnet routes, and afterwards it advertises an exit node
/// exactly when asked to.
pub proof fn law_exit_toggle_keeps_subnets(routes: Seq<Seq<char>>, enable: bool)
    ensures
        subnet_routes_spec(exit_node_routes(routes, enable)) == subnet_routes_spec(routes),
        advertises_exit_spec(exit_node_routes(routes, enable)) == enable,
{
    lemma_subnets_have_no_default(routes);
    lemma_routes_with_exit(subnet_routes_spec(routes), enable);
}

/// Setting the advertised subnet routes keeps exit-node advertisement as it
/// was, and the subnet routes become the ones given (when none of them is a
/// default route).
pub proof fn law_set_subnets_keeps_exit(routes: Seq<Seq<char>>, subnets: Seq<Seq<char>>)
    requires
        forall|i: int| 0 <= i < subnets.len() ==> !is_default_route_spec(#[trigger] subnets[i]),
    ensures
        advertises_exit_spec(subnet_routes_with_exit(subnets, advertises_exit_spec(routes)))
            == advertises_exit_spec(routes),
        subnet_routes_spec(subnet_routes_with_exit(subnets, advertises_exit_spec(routes)))
            == subnets,
{
    lemma_routes_with_exit(subnets, advertises_exit_spec(routes));
}

/// A live state with the transient network-map flag cleared: what the
/// consumer shows.
pub open spec fn shown(l: LiveView) -> LiveView {
    LiveView { netmap_changed: false, ..l }
}

/// A delta that lacks a part leaves the fields that part carries as they
/// were: the live state persists across deltas.
pub proof fn law_absent_parts_persist(l: LiveView, n: Notify)
    ensures
        ({
            let r = merge_spec(l, n).0;
            &&& n.state is None ==> r.online == l.online && r.needs_login == l.needs_login
            &&& n.prefs is None ==> {
                &&& r.exit_node_active == l.exit_node_active
                &&& r.accept_routes == l.accept_routes
                &&& r.advertise_exit_node == l.advertise_exit_node
                &&& r.allow_lan == l.allow_lan
                &&& r.advertised_routes == l.advertised_routes
            }
            &&& n.netmap is None ==> {
                &&& r.machine == l.machine
                &&& r.fqdn == l.fqdn
                &&& r.os == l.os
                &&& r.address == l.address
                &&& r.addresses == l.addresses
            }
            &&& n.browse_to_url is None ==> r.browse_to_url == l.browse_to_url
            &&& r.netmap_changed == n.netmap is Some
        }),
{
}

/// The consumer is told of a delta exactly when it changed what is shown,
/// or carried a network map (peers may have changed).
pub proof fn law_told_on_change(l: LiveView, n: Notify)
    ensures
        merge_spec(l, n).1 == (n.netmap is Some || shown(merge_spec(l, n).0) != shown(l)),
{
    let had_netmap = n.netmap is Some;
    let l0 = LiveView { netmap_changed: had_netmap, ..l };
    let (l1, c1) = merge_state(l0, n.state);
    let (l2, c2) = merge_prefs(l1, n.prefs);
    let (l3, c3) = merge_netmap(l2, n.netmap);
    let (l4, c4) = merge_url(l3, n.browse_to_url);
    assert(shown(l0) == shown(l));
    if c1 {
        assert(l4.online != l.online || l4.needs_login != l.needs_login);
    }
    if c2 {
        assert(l4.exit_node_active != l.exit_node_active || l4.accept_routes != l.accept_routes
            || l4.advertise_exit_node != l.advertise_exit_node || l4.allow_lan != l.allow_lan
            || l4.advertised_routes != l.advertised_routes);
    }
    if c3 {
        assert(l4.machine != l.machine || l4.fqdn != l.fqdn || l4.os != l.os || l4.addresses
            != l.addresses);
    }
    if c4 {
        assert(l4.browse_to_url != l.browse_to_url);
    }
    if !c1 && !c2 && !c3 && !c4 {
        assert(shown(l4) == shown(l));
    }
}

/// Daemon versions that share a major version are treated alike: minor and
/// patch releases never change whether a warning is printed.
pub proof fn law_same_major_alike(a: Seq<char>, b: Seq<char>)
    requires
        before_char(a, '.') == before_char(b, '.'),
    ensures
        (version_warning(a) is None) == (version_warning(b) is None),
{
}
} // verus!
