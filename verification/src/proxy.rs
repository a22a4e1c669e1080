//! Proxies: port forwards and SOCKS5 listeners of the daemon.

use crate::error::Error;
use crate::json::{Fields, Json, JsonValue};
use crate::number::{decimal, lemma_decimal_digits, number_in, number_read_back, parse_u16};
use crate::sorted::{in_order, viewed, SortedMap};
use crate::text::{cat2, chars_of, text_between, texts};
use vstd::prelude::*;
use vstd::string::*;

verus! {

/// Where a proxy listens and where it forwards to.
#[derive(Debug)]
pub enum ProxyMode {
    LocalForward { local_addr: String, remote_host: String, remote_port: u16 },
    Socks5 { local_addr: String },
}

/// What a [`ProxyMode`] says.
pub enum ModeView {
    LocalForward { local_addr: Seq<char>, remote_host: Seq<char>, remote_port: u16 },
    Socks5 { local_addr: Seq<char> },
}

impl View for ProxyMode {
    type V = ModeView;

    open spec fn view(&self) -> ModeView {
        match self {
            ProxyMode::LocalForward { local_addr, remote_host, remote_port } =>
                ModeView::LocalForward {
                local_addr: local_addr@,
                remote_host: remote_host@,
                remote_port: *remote_port,
            },
            ProxyMode::Socks5 { local_addr } => ModeView::Socks5 { local_addr: local_addr@ },
        }
    }
}

impl ModeView {
    /// The address that the proxy listens on.
    pub open spec fn local_addr(self) -> Seq<char> {
        match self {
            ModeView::LocalForward { local_addr, .. } => local_addr,
            ModeView::Socks5 { local_addr } => local_addr,
        }
    }

    /// The mode in JSON.
    pub open spec fn json(self) -> JsonValue {
        match self {
            ModeView::LocalForward { local_addr, remote_host, remote_port } => JsonValue::Object(
                seq![
                    (
                        "LocalForward"@,
                        JsonValue::Object(
                            seq![
                                ("local_addr"@, JsonValue::Text(local_addr)),
                                ("remote_host"@, JsonValue::Text(remote_host)),
                                ("remote_port"@, JsonValue::Number(remote_port as int)),
                            ],
                        ),
                    ),
                ],
            ),
            ModeView::Socks5 { local_addr } => JsonValue::Object(
                seq![
                    (
                        "Socks5"@,
                        JsonValue::Object(seq![("local_addr"@, JsonValue::Text(local_addr))]),
                    ),
                ],
            ),
        }
    }
}

impl ProxyMode {
    /// The address that the proxy listens on.
    pub fn local_addr(&self) -> (r: String)
        ensures
            r@ == self@.local_addr(),
    {
        match self {
            ProxyMode::LocalForward { local_addr, .. } => local_addr.clone(),
            ProxyMode::Socks5 { local_addr } => local_addr.clone(),
        }
    }

    /// The mode in JSON.
    pub fn json(&self) -> (r: Json)
        ensures
            r@ == self@.json(),
    {
        let mut inner = Fields::new();
        let mut outer = Fields::new();
        match self {
            ProxyMode::LocalForward { local_addr, remote_host, remote_port } => {
                inner.put_text("local_addr", local_addr.as_str());
                inner.put_text("remote_host", remote_host.as_str());
                inner.put_u64("remote_port", *remote_port as u64);
                assert(inner@ =~= self@.json()->Object_0[0].1->Object_0);
                outer.put("LocalForward", inner.object());
            },
            ProxyMode::Socks5 { local_addr } => {
                inner.put_text("local_addr", local_addr.as_str());
                assert(inner@ =~= self@.json()->Object_0[0].1->Object_0);
                outer.put("Socks5", inner.object());
            },
        }
        let r = outer.object();
        assert(self@.json()->Object_0 =~= r@->Object_0);
        r
    }
}

/// How a proxy is doing.
#[derive(Debug)]
pub enum ProxyStatus {
    Running,
    Stopped,
    Error(String),
}

/// What the daemon knows of a proxy.
#[derive(Debug)]
pub struct ProxyState {
    pub id: String,
    pub connection_id: String,
    pub mode: ProxyMode,
    pub local_addr: String,
    /// How the proxy is doing, unless that cannot be looked at right now.
    pub status: Option<ProxyStatus>,
    /// Whether the listener is to stop.
    pub shutdown: bool,
}

/// What a [`ProxyStatus`] says.
pub enum ProxyStatusView {
    Running,
    Stopped,
    Error(Seq<char>),
}

impl View for ProxyStatus {
    type V = ProxyStatusView;

    open spec fn view(&self) -> ProxyStatusView {
        match self {
            ProxyStatus::Running => ProxyStatusView::Running,
            ProxyStatus::Stopped => ProxyStatusView::Stopped,
            ProxyStatus::Error(message) => ProxyStatusView::Error(message@),
        }
    }
}

/// What a [`ProxyState`] says.
pub struct ProxyView {
    pub id: Seq<char>,
    pub connection_id: Seq<char>,
    pub mode: ModeView,
    pub local_addr: Seq<char>,
    pub status: Option<ProxyStatusView>,
    pub shutdown: bool,
}

impl View for ProxyState {
    type V = ProxyView;

    open spec fn view(&self) -> ProxyView {
        ProxyView {
            id: self.id@,
            connection_id: self.connection_id@,
            mode: self.mode@,
            local_addr: self.local_addr@,
            status: match self.status {
                Some(status) => Some(status@),
                None => None,
            },
            shutdown: self.shutdown,
        }
    }
}

// ---------------------------------------------------------------------------
// Listing and asking
// ---------------------------------------------------------------------------

/// The word for a proxy's status in a listing. A proxy that cannot be looked at
/// is taken to be running.
pub open spec fn listed_status(status: Option<ProxyStatusView>) -> Seq<char> {
    match status {
        Some(ProxyStatusView::Running) => "running"@,
        Some(ProxyStatusView::Stopped) => "stopped"@,
        Some(ProxyStatusView::Error(message)) => "error: "@ + message,
        None => "running"@,
    }
}

/// The word for a proxy's status when it is asked for.
pub open spec fn pinged_status(status: Option<ProxyStatusView>) -> Seq<char> {
    match status {
        Some(ProxyStatusView::Running) => "running"@,
        Some(ProxyStatusView::Stopped) => "stopped"@,
        Some(ProxyStatusView::Error(message)) => message,
        None => "unknown"@,
    }
}

/// A proxy in a listing.
pub open spec fn listed_proxy(p: ProxyView) -> JsonValue {
    JsonValue::Object(
        seq![
            ("id"@, JsonValue::Text(p.id)),
            ("connection_id"@, JsonValue::Text(p.connection_id)),
            ("mode"@, p.mode.json()),
            ("local_addr"@, JsonValue::Text(p.local_addr)),
            ("status"@, JsonValue::Text(listed_status(p.status))),
        ],
    )
}

/// The listing of all proxies, in the order of their ids.
pub open spec fn listed_proxies(proxies: Map<Seq<char>, ProxyView>) -> JsonValue {
    JsonValue::Object(
        seq![
            ("ok"@, JsonValue::Bool(true)),
            (
                "proxies"@,
                JsonValue::List(
                    in_order(proxies.dom()).map_values(|id: Seq<char>| listed_proxy(proxies[id])),
                ),
            ),
        ],
    )
}

fn listed(p: &ProxyState) -> (r: Json)
    ensures
        r@ == listed_proxy(p@),
{
    let status = match &p.status {
        Some(ProxyStatus::Running) => "running".to_owned(),
        Some(ProxyStatus::Stopped) => "stopped".to_owned(),
        Some(ProxyStatus::Error(message)) => cat2("error: ", message.as_str()),
        None => "running".to_owned(),
    };
    let mut f = Fields::new();
    f.put_text("id", p.id.as_str());
    f.put_text("connection_id", p.connection_id.as_str());
    f.put("mode", p.mode.json());
    f.put_text("local_addr", p.local_addr.as_str());
    f.put_text("status", status.as_str());
    let r = f.object();
    assert(listed_proxy(p@)->Object_0 =~= r@->Object_0);
    r
}

/// The listing of all proxies, in the order of their ids.
pub fn proxy_list(proxies: &SortedMap<ProxyState>) -> (r: Json)
    ensures
        r@ == listed_proxies(viewed(proxies@)),
{
    let keys = proxies.keys();
    let ghost order = texts(keys@);
    let mut items: Vec<Json> = Vec::new();
    let mut i: usize = 0;
    while i < keys.len()
        invariant
            i <= keys@.len(),
            order == texts(keys@),
            order.to_set() == proxies@.dom(),
            items@.len() == i,
            forall|j: int|
                0 <= j < i ==> (#[trigger] items@[j])@ == listed_proxy(
                    viewed(proxies@)[order[j]],
                ),
        decreases keys@.len() - i,
    {
        assert(order[i as int] == keys@[i as int]@);
        assert(order.to_set().contains(order[i as int]));
        match proxies.get(keys[i].as_str()) {
            Some(p) => items.push(listed(p)),
            None => {
                assert(false);
            },
        }
        i += 1;
    }
    let list = Json::list(items);
    let mut f = Fields::new();
    f.put_bool("ok", true);
    proof {
        let m = viewed(proxies@);
        assert(m.dom() =~= proxies@.dom());
        assert(list@->List_0 =~= order.map_values(|id: Seq<char>| listed_proxy(m[id])));
    }
    f.put("proxies", list);
    let r = f.object();
    assert(r@->Object_0 =~= listed_proxies(viewed(proxies@))->Object_0);
    r
}

/// The answer to a ping.
pub open spec fn ping_answer(proxy_id: Seq<char>, status: Option<ProxyStatusView>) -> JsonValue {
    JsonValue::Object(
        seq![
            ("ok"@, JsonValue::Bool(true)),
            ("proxy_id"@, JsonValue::Text(proxy_id)),
            ("status"@, JsonValue::Text(pinged_status(status))),
        ],
    )
}

/// How the proxy `proxy_id` is doing.
pub fn proxy_ping(proxy_id: &str, proxies: &SortedMap<ProxyState>) -> (r: Result<Json, Error>)
    ensures
        match r {
            Ok(answer) => proxies@.contains_key(proxy_id@) && answer@ == ping_answer(
                proxy_id@,
                proxies@[proxy_id@]@.status,
            ),
            Err(e) => !proxies@.contains_key(proxy_id@) && (e matches Error::ProxyNotFound(id)
                && id@ == proxy_id@),
        },
{
    match proxies.get(proxy_id) {
        None => Err(Error::ProxyNotFound(proxy_id.to_owned())),
        Some(p) => {
            let status = match &p.status {
                Some(ProxyStatus::Running) => "running".to_owned(),
                Some(ProxyStatus::Stopped) => "stopped".to_owned(),
                Some(ProxyStatus::Error(message)) => message.clone(),
                None => "unknown".to_owned(),
            };
            let mut f = Fields::new();
            f.put_bool("ok", true);
            f.put_text("proxy_id", proxy_id);
            f.put_text("status", status.as_str());
            let r = f.object();
            assert(r@->Object_0 =~= ping_answer(proxy_id@, p@.status)->Object_0);
            Ok(r)
        },
    }
}

// ---------------------------------------------------------------------------
// Addresses and modes
// ---------------------------------------------------------------------------

/// Whether the last colon of `s` stands at `i`.
pub open spec fn last_colon(s: Seq<char>, i: int) -> bool {
    0 <= i < s.len() && s[i] == ':' && forall|j: int| i < j < s.len() ==> s[j] != ':'
}

/// What `s` is read as: the host before its last colon and the port behind it,
/// or the message that it is none.
pub open spec fn host_port_of(s: Seq<char>) -> Result<(Seq<char>, u16), Seq<char>> {
    if exists|i: int| #[trigger] last_colon(s, i) {
        let i = choose|i: int| #[trigger] last_colon(s, i);
        match number_in(s.skip(i + 1), u16::MAX as nat) {
            Some(n) => Ok((s.take(i), n as u16)),
            None => Err("invalid port: "@ + s.skip(i + 1)),
        }
    } else {
        Err("invalid host:port format: "@ + s)
    }
}

/// Reads an address of the form host:port.
pub fn parse_host_port(s: &str) -> (r: Result<(String, u16), Error>)
    ensures
        match r {
            Ok((host, port)) => host_port_of(s@) == Ok::<(Seq<char>, u16), Seq<char>>(
                (host@, port),
            ),
            Err(e) => host_port_of(s@) == Err::<(Seq<char>, u16), Seq<char>>(e.text()),
        },
{
    let v = chars_of(s);
    let mut i: usize = v.len();
    while i > 0
        invariant
            i <= v@.len(),
            v@ == s@,
            forall|j: int| i <= j < v@.len() ==> v@[j] != ':',
        decreases i,
    {
        if v[i - 1] == ':' {
            let ghost k = i - 1;
            let port_text = text_between(&v, i, v.len());
            let host = text_between(&v, 0, i - 1);
            proof {
                assert(last_colon(s@, k));
                let c = choose|i: int| #[trigger] last_colon(s@, i);
                assert(c == k) by {
                    if c < k {
                        assert(s@[k] != ':');
                    } else if k < c {
                        assert(s@[c] != ':');
                    }
                }
                assert(port_text@ =~= s@.skip(k + 1));
                assert(host@ =~= s@.take(k));
            }
            return match parse_u16(port_text.as_str()) {
                Some(port) => Ok((host, port)),
                None => Err(Error::InvalidPort(port_text)),
            };
        }
        i -= 1;
    }
    assert(forall|i: int| !#[trigger] last_colon(s@, i));
    Err(Error::InvalidHostPort(s.to_owned()))
}

/// The text of an optional string.
pub open spec fn given(s: Option<&str>) -> Option<Seq<char>> {
    match s {
        Some(s) => Some(s@),
        None => None,
    }
}

/// The mode that the flags of a command ask for: `--local` together with
/// `--remote`, or `--socks5` alone; or the message that they do not.
pub open spec fn mode_asked(
    local: Option<Seq<char>>,
    remote: Option<Seq<char>>,
    socks5: Option<Seq<char>>,
) -> Result<ModeView, Seq<char>> {
    match (local, remote, socks5) {
        (Some(local_addr), Some(remote), None) => match host_port_of(remote) {
            Ok((remote_host, remote_port)) => Ok(
                ModeView::LocalForward { local_addr, remote_host, remote_port },
            ),
            Err(message) => Err(message),
        },
        (None, None, Some(local_addr)) => Ok(ModeView::Socks5 { local_addr }),
        _ => Err(Error::ProxyModeUnclear.text()),
    }
}

/// The mode that the flags of a command ask for.
pub fn proxy_mode_from_command(
    local: Option<&str>,
    remote: Option<&str>,
    socks5: Option<&str>,
) -> (r: Result<ProxyMode, Error>)
    ensures
        match r {
            Ok(mode) => mode_asked(given(local), given(remote), given(socks5)) == Ok::<
                ModeView,
                Seq<char>,
            >(mode@),
            Err(e) => mode_asked(given(local), given(remote), given(socks5)) == Err::<
                ModeView,
                Seq<char>,
            >(e.text()),
        },
{
    match (local, remote, socks5) {
        (Some(local_addr), Some(remote), None) => match parse_host_port(remote) {
            Ok((remote_host, remote_port)) => Ok(
                ProxyMode::LocalForward { local_addr: local_addr.to_owned(), remote_host, remote_port },
            ),
            Err(e) => Err(e),
        },
        (None, None, Some(socks5)) => Ok(ProxyMode::Socks5 { local_addr: socks5.to_owned() }),
        _ => Err(Error::ProxyModeUnclear),
    }
}

// ---------------------------------------------------------------------------
// The listener
// ---------------------------------------------------------------------------

/// Whether a listener goes on, given whether it was told to stop; and with what
/// status it stops.
pub open spec fn told_to_stop(shutdown: bool) -> Result<(), ProxyStatus> {
    if shutdown {
        Err(ProxyStatus::Stopped)
    } else {
        Ok(())
    }
}

/// What becomes of a listener when a client connects, or cannot.
pub open spec fn after_accepting(accepted: Result<(), String>) -> Result<(), ProxyStatus> {
    match accepted {
        Ok(_) => Ok(()),
        Err(message) => Err(ProxyStatus::Error(message)),
    }
}

/// Whether a listener goes on, given whether it was told to stop; and with what
/// status it stops.
pub fn listener_goes_on(shutdown: bool) -> (r: Result<(), ProxyStatus>)
    ensures
        r == told_to_stop(shutdown),
{
    if shutdown {
        Err(ProxyStatus::Stopped)
    } else {
        Ok(())
    }
}

/// What becomes of a listener when a client connects, or cannot: with a failure
/// it stops.
pub fn listener_accepted(accepted: Result<(), String>) -> (r: Result<(), ProxyStatus>)
    ensures
        r == after_accepting(accepted),
{
    match accepted {
        Ok(_) => Ok(()),
        Err(message) => Err(ProxyStatus::Error(message)),
    }
}

/// Where a connection to a proxy with this mode goes, where that is known without
/// asking the client.
pub open spec fn destination_of(mode: ModeView) -> Option<(Seq<char>, u16)> {
    match mode {
        ModeView::LocalForward { remote_host, remote_port, .. } => Some((remote_host, remote_port)),
        ModeView::Socks5 { .. } => None,
    }
}

/// Where a connection to the proxy goes, where that is known without asking the
/// client.
pub fn fixed_destination(mode: &ProxyMode) -> (r: Option<(String, u16)>)
    ensures
        match r {
            Some((host, port)) => destination_of(mode@) == Some((host@, port)),
            None => destination_of(mode@) is None,
        },
{
    match mode {
        ProxyMode::LocalForward { remote_host, remote_port, .. } => Some(
            (remote_host.clone(), *remote_port),
        ),
        ProxyMode::Socks5 { .. } => None,
    }
}

// ---------------------------------------------------------------------------
// Laws
// ---------------------------------------------------------------------------

/// An address is read back from what it is written as, whatever the host: an
/// IPv6 address with its colons, too.
pub proof fn address_is_read_back(host: Seq<char>, port: u16)
    ensures
        host_port_of(host + ":"@ + decimal(port as nat)) == Ok::<(Seq<char>, u16), Seq<char>>(
            (host, port),
        ),
{
    reveal_strlit(":");
    let s = host + ":"@ + decimal(port as nat);
    let n = host.len() as int;
    lemma_decimal_digits(port as nat);
    assert(s.skip(n + 1) =~= decimal(port as nat));
    assert forall|j: int| n < j < s.len() implies s[j] != ':' by {
        assert(s[j] == decimal(port as nat)[j - n - 1]);
    }
    assert(last_colon(s, n));
    let i = choose|i: int| #[trigger] last_colon(s, i);
    assert(i == n);
    number_read_back(port as nat, u16::MAX as nat);
    assert(s.take(n) =~= host);
}

/// What flags ask for: `--local` and `--remote` together for a port forward from
/// the one to the other, `--socks5` alone for SOCKS5, and nothing else.
pub proof fn flags_ask_for_one_thing(
    local: Seq<char>,
    host: Seq<char>,
    port: u16,
    other: Option<Seq<char>>,
)
    ensures
        mode_asked(Some(local), Some(host + seq![':'] + decimal(port as nat)), None) == Ok::<
            ModeView,
            Seq<char>,
        >(ModeView::LocalForward { local_addr: local, remote_host: host, remote_port: port }),
        mode_asked(None, None, Some(local)) == Ok::<ModeView, Seq<char>>(
            ModeView::Socks5 { local_addr: local },
        ),
        mode_asked(None, None, None) is Err,
        mode_asked(Some(local), None, other) is Err,
        mode_asked(None, Some(local), other) is Err,
        other is Some ==> mode_asked(Some(local), Some(local), other) is Err,
{
    reveal_strlit(":");
    assert(":"@ =~= seq![':']);
    address_is_read_back(host, port);
}

/// An address without a colon, or with something else than a port behind its
/// last one, is none.
pub proof fn other_addresses_are_refused(s: Seq<char>, host: Seq<char>, rest: Seq<char>)
    requires
        !s.contains(':'),
        !rest.contains(':'),
    ensures
        host_port_of(s) is Err,
        number_in(rest, 65_535) is None ==> host_port_of(host + seq![':'] + rest) is Err,
{
    assert forall|i: int| !#[trigger] last_colon(s, i) by {
        if last_colon(s, i) {
            assert(s.contains(s[i]));
        }
    }
    let t = host + seq![':'] + rest;
    let n = host.len() as int;
    assert forall|j: int| n < j < t.len() implies t[j] != ':' by {
        assert(t[j] == rest[j - n - 1]);
        assert(rest.contains(rest[j - n - 1]));
    }
    assert(last_colon(t, n));
    let i = choose|i: int| #[trigger] last_colon(t, i);
    assert(i == n);
    assert(t.skip(n + 1) =~= rest);
}

/// Every proxy is listed, once and in the order of their ids, with what it does
/// and how it is doing.
pub proof fn every_proxy_is_listed(proxies: Map<Seq<char>, ProxyView>, id: Seq<char>)
    requires
        proxies.dom().finite(),
        proxies.contains_key(id),
    ensures
        ({
            let p = proxies[id];
            let list = listed_proxies(proxies)->Object_0[1].1;
            let fields = listed_proxy(p)->Object_0;
            &&& listed_proxies(proxies)->Object_0[1].0 == "proxies"@
            &&& list is List
            &&& list->List_0.len() == proxies.dom().len()
            &&& list->List_0.contains(listed_proxy(p))
            &&& fields.contains(("id"@, JsonValue::Text(p.id)))
            &&& fields.contains(("connection_id"@, JsonValue::Text(p.connection_id)))
            &&& fields.contains(("local_addr"@, JsonValue::Text(p.local_addr)))
            &&& fields.contains(("mode"@, p.mode.json()))
            &&& p.status == Some(ProxyStatusView::Running) ==> fields.contains(
                ("status"@, JsonValue::Text("running"@)),
            )
            &&& p.status == Some(ProxyStatusView::Stopped) ==> fields.contains(
                ("status"@, JsonValue::Text("stopped"@)),
            )
            &&& p.status is Some && p.status->0 is Error ==> fields.contains(
                ("status"@, JsonValue::Text("error: "@ + p.status->0->Error_0)),
            )
        }),
{
    let order = in_order(proxies.dom());
    crate::sorted::lemma_in_order(proxies.dom());
    order.unique_seq_to_set();
    let list = listed_proxies(proxies)->Object_0[1].1->List_0;
    assert(order.to_set().contains(id));
    let i = order.index_of(id);
    assert(list[i] == listed_proxy(proxies[id]));
    let f = listed_proxy(proxies[id])->Object_0;
    crate::json::lemma_items(f);
    assert(f[0].0 == "id"@ && f[1].0 == "connection_id"@ && f[2].0 == "mode"@);
    assert(f[3].0 == "local_addr"@ && f[4].0 == "status"@);
}

/// A ping of a proxy says how it is doing.
pub proof fn pings_say_how_a_proxy_is_doing(id: Seq<char>, message: Seq<char>)
    ensures
        ping_answer(id, Some(ProxyStatusView::Running))->Object_0.contains(
            ("status"@, JsonValue::Text("running"@)),
        ),
        ping_answer(id, Some(ProxyStatusView::Stopped))->Object_0.contains(
            ("status"@, JsonValue::Text("stopped"@)),
        ),
        ping_answer(id, Some(ProxyStatusView::Error(message)))->Object_0.contains(
            ("status"@, JsonValue::Text(message)),
        ),
        ping_answer(id, Some(ProxyStatusView::Running))->Object_0.contains(
            ("proxy_id"@, JsonValue::Text(id)),
        ),
{
    let a = ping_answer(id, Some(ProxyStatusView::Running))->Object_0;
    let b = ping_answer(id, Some(ProxyStatusView::Stopped))->Object_0;
    let c = ping_answer(id, Some(ProxyStatusView::Error(message)))->Object_0;
    crate::json::lemma_items(a);
    crate::json::lemma_items(b);
    crate::json::lemma_items(c);
    assert(a[1].0 == "proxy_id"@ && a[2].0 == "status"@ && b[2].0 == "status"@ && c[2].0
        == "status"@);
}

/// A mode is shown with its addresses, and listens on the local one.
pub proof fn modes_show_their_addresses(local: Seq<char>, host: Seq<char>, port: u16)
    ensures
        ({
            let mode = ModeView::LocalForward {
                local_addr: local,
                remote_host: host,
                remote_port: port,
            };
            let inner = mode.json()->Object_0[0].1->Object_0;
            &&& mode.local_addr() == local
            &&& mode.json()->Object_0[0].0 == "LocalForward"@
            &&& inner.contains(("local_addr"@, JsonValue::Text(local)))
            &&& inner.contains(("remote_host"@, JsonValue::Text(host)))
            &&& inner.contains(("remote_port"@, JsonValue::Number(port as int)))
        }),
        ({
            let mode = ModeView::Socks5 { local_addr: local };
            let inner = mode.json()->Object_0[0].1->Object_0;
            &&& mode.local_addr() == local
            &&& mode.json()->Object_0[0].0 == "Socks5"@
            &&& inner.contains(("local_addr"@, JsonValue::Text(local)))
        }),
{
    let a = ModeView::LocalForward { local_addr: local, remote_host: host, remote_port: port };
    let b = ModeView::Socks5 { local_addr: local };
    let f = a.json()->Object_0[0].1->Object_0;
    let g = b.json()->Object_0[0].1->Object_0;
    crate::json::lemma_items(f);
    crate::json::lemma_items(g);
    assert(f[0].0 == "local_addr"@ && f[1].0 == "remote_host"@ && f[2].0 == "remote_port"@);
    assert(g[0].0 == "local_addr"@);
}

/// A port forward goes to the remote address that was asked for; where SOCKS5
/// goes, its clients say.
pub proof fn forwards_go_where_they_were_asked_to(
    local: Seq<char>,
    host: Seq<char>,
    port: u16,
)
    ensures
        ({
            let asked = mode_asked(Some(local), Some(host + seq![':'] + decimal(port as nat)), None);
            &&& asked is Ok
            &&& destination_of(asked->Ok_0) == Some((host, port))
            &&& asked->Ok_0.local_addr() == local
        }),
        destination_of(ModeView::Socks5 { local_addr: local }) is None,
{
    flags_ask_for_one_thing(local, host, port, None);
}

/// A listener stops when it is told to and when it cannot go on, and says which;
/// else it goes on.
pub proof fn listeners_stop_for_a_reason(message: String)
    ensures
        told_to_stop(true) == Err::<(), ProxyStatus>(ProxyStatus::Stopped),
        told_to_stop(false) is Ok,
        after_accepting(Err(message)) == Err::<(), ProxyStatus>(ProxyStatus::Error(message)),
        after_accepting(Ok(())) is Ok,
        listed_status(None) == "running"@,
        pinged_status(None) == "unknown"@,
{
}

} // verus!
