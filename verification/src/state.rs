//! What the daemon holds: sessions, connections and proxies.

use crate::error::Error;
use crate::number::{decimal, decimal_text, lemma_decimal_digits, lemma_decimal_injective};
use crate::proxy::{ProxyState, ProxyStatus, ProxyView};
use crate::session::{CellView, SessionCell, SessionHandle, SessionView};
use crate::sorted::{lemma_viewed_insert, lemma_viewed_remove, viewed, SortedMap};
use crate::text::{cat2, chars_of, is_digit};
use vstd::prelude::*;
use vstd::string::*;

verus! {

broadcast use {lemma_viewed_insert, lemma_viewed_remove};

/// A connection that sessions and proxies share.
#[derive(Debug, Clone, Copy)]
pub struct SharedConnection {
    /// By which the connection itself is found again.
    pub handle: u64,
    /// How many sessions and proxies use the connection.
    pub refcount: u32,
}

/// What the daemon holds.
#[derive(Debug)]
pub struct ServerState {
    pub sessions: SortedMap<SessionHandle>,
    /// What is left of sessions that were closed while something still waits
    /// on them.
    pub departed: SortedMap<SessionCell>,
    pub connections: SortedMap<SharedConnection>,
    pub proxies: SortedMap<ProxyState>,
    pub next_id: u64,
    pub next_connection_id: u64,
    pub started_at: u64,
}

/// What a [`ServerState`] says.
pub struct ServerView {
    pub sessions: Map<Seq<char>, SessionView>,
    pub departed: Map<Seq<char>, CellView>,
    pub connections: Map<Seq<char>, SharedConnection>,
    pub proxies: Map<Seq<char>, ProxyView>,
    pub next_id: u64,
    pub next_connection_id: u64,
    pub started_at: u64,
}

impl View for ServerState {
    type V = ServerView;

    open spec fn view(&self) -> ServerView {
        ServerView {
            sessions: viewed(self.sessions@),
            departed: viewed(self.departed@),
            connections: self.connections@,
            proxies: viewed(self.proxies@),
            next_id: self.next_id,
            next_connection_id: self.next_connection_id,
            started_at: self.started_at,
        }
    }
}

// ---------------------------------------------------------------------------
// Ids
// ---------------------------------------------------------------------------

/// The id with the letter `letter` and the number `n`.
pub open spec fn numbered(letter: Seq<char>, n: int) -> Seq<char> {
    letter + decimal(n as nat)
}

/// Whether `id` has the letter `letter` and a number below `bound`.
pub open spec fn issued(id: Seq<char>, letter: Seq<char>, bound: int) -> bool {
    exists|n: int| 0 <= n < bound && id == #[trigger] numbered(letter, n)
}

/// Ids with the same letter and different numbers are different.
pub proof fn lemma_numbered_injective(letter: Seq<char>, a: int, b: int)
    requires
        0 <= a,
        0 <= b,
        numbered(letter, a) == numbered(letter, b),
    ensures
        a == b,
{
    let x = numbered(letter, a);
    assert(x.skip(letter.len() as int) =~= decimal(a as nat));
    assert(numbered(letter, b).skip(letter.len() as int) =~= decimal(b as nat));
    lemma_decimal_injective(a as nat, b as nat);
}

/// The id with the last number has been issued.
pub proof fn lemma_issued(letter: Seq<char>, last: int)
    requires
        0 <= last,
    ensures
        issued(numbered(letter, last), letter, last + 1),
{
}

/// The id with the next number has not been issued.
pub proof fn lemma_next_is_fresh(letter: Seq<char>, next: int)
    requires
        0 <= next,
    ensures
        !issued(numbered(letter, next), letter, next),
{
    if issued(numbered(letter, next), letter, next) {
        let n = choose|n: int|
            0 <= n < next && numbered(letter, next) == #[trigger] numbered(letter, n);
        lemma_numbered_injective(letter, next, n);
    }
}

/// An id that has been issued stays issued.
pub proof fn lemma_issued_grows(id: Seq<char>, letter: Seq<char>, bound: int, larger: int)
    requires
        issued(id, letter, bound),
        bound <= larger,
    ensures
        issued(id, letter, larger),
{
    let n = choose|n: int| 0 <= n < bound && id == #[trigger] numbered(letter, n);
    assert(0 <= n < larger && id == numbered(letter, n));
}

/// Whether `name` looks like the id of a proxy without a name: the letter p and
/// digits.
pub open spec fn looks_numbered(name: Seq<char>) -> bool {
    &&& name.len() > 1
    &&& name[0] == 'p'
    &&& forall|i: int| 1 <= i < name.len() ==> is_digit(#[trigger] name[i])
}

/// Whether a proxy may go by `id`: a number that has been issued, or a name that
/// no number will ever look like.
pub open spec fn suits_proxy(id: Seq<char>, bound: int) -> bool {
    issued(id, "p"@, bound) || !looks_numbered(id)
}

/// A numbered id looks like one.
proof fn lemma_numbered_looks_so(n: int)
    ensures
        looks_numbered(numbered("p"@, n)),
{
    reveal_strlit("p");
    let id = numbered("p"@, n);
    lemma_decimal_digits(n as nat);
    assert forall|i: int| 1 <= i < id.len() implies is_digit(#[trigger] id[i]) by {
        assert(id[i] == decimal(n as nat)[i - 1]);
    }
}

/// Whether `name` looks like the id of a proxy without a name.
pub fn is_numbered(name: &str) -> (r: bool)
    ensures
        r == looks_numbered(name@),
{
    let v = chars_of(name);
    if v.len() <= 1 || v[0] != 'p' {
        return false;
    }
    let mut i: usize = 1;
    while i < v.len()
        invariant
            1 <= i <= v@.len(),
            v@ == name@,
            forall|j: int| 1 <= j < i ==> is_digit(#[trigger] name@[j]),
        decreases v@.len() - i,
    {
        if !('0' <= v[i] && v[i] <= '9') {
            assert(!is_digit(name@[i as int]));
            return false;
        }
        i += 1;
    }
    true
}

// ---------------------------------------------------------------------------
// Who uses which connection
// ---------------------------------------------------------------------------

/// Those among `links`, which gives the connection of each user, that use the
/// connection `id`.
pub open spec fn users_of(links: Map<Seq<char>, Seq<char>>, id: Seq<char>) -> Set<Seq<char>> {
    links.dom().filter(|user: Seq<char>| links[user] == id)
}

/// How many use the connection `id`.
pub open spec fn users_in(links: Map<Seq<char>, Seq<char>>, id: Seq<char>) -> nat {
    users_of(links, id).len()
}

/// The connection of each session.
pub open spec fn session_links(sessions: Map<Seq<char>, SessionView>) -> Map<Seq<char>, Seq<char>> {
    sessions.map_values(|s: SessionView| s.connection_id)
}

/// The connection of each proxy.
pub open spec fn proxy_links(proxies: Map<Seq<char>, ProxyView>) -> Map<Seq<char>, Seq<char>> {
    proxies.map_values(|p: ProxyView| p.connection_id)
}

proof fn lemma_link_added(
    links: Map<Seq<char>, Seq<char>>,
    user: Seq<char>,
    to: Seq<char>,
    id: Seq<char>,
)
    requires
        links.dom().finite(),
        !links.contains_key(user),
    ensures
        users_in(links.insert(user, to), id) == users_in(links, id) + if to == id {
            1nat
        } else {
            0
        },
{
    let more = links.insert(user, to);
    let a = users_of(links, id);
    let b = users_of(more, id);
    if to == id {
        assert(b =~= a.insert(user));
    } else {
        assert(b =~= a);
    }
}

proof fn lemma_link_removed(links: Map<Seq<char>, Seq<char>>, user: Seq<char>, id: Seq<char>)
    requires
        links.dom().finite(),
        links.contains_key(user),
    ensures
        users_in(links, id) == users_in(links.remove(user), id) + if links[user] == id {
            1nat
        } else {
            0
        },
{
    let fewer = links.remove(user);
    assert(fewer.insert(user, links[user]) =~= links);
    lemma_link_added(fewer, user, links[user], id);
}

proof fn lemma_user_counts(links: Map<Seq<char>, Seq<char>>, user: Seq<char>)
    requires
        links.dom().finite(),
        links.contains_key(user),
    ensures
        users_in(links, links[user]) >= 1,
{
    lemma_link_removed(links, user, links[user]);
}

/// A connection with one user less; without users it goes.
pub open spec fn released(
    connections: Map<Seq<char>, SharedConnection>,
    id: Seq<char>,
) -> Map<Seq<char>, SharedConnection> {
    if !connections.contains_key(id) {
        connections
    } else if connections[id].refcount <= 1 {
        connections.remove(id)
    } else {
        connections.insert(
            id,
            SharedConnection { refcount: (connections[id].refcount - 1) as u32, ..connections[id] },
        )
    }
}

impl ServerView {
    /// How many sessions and proxies use the connection `id`.
    pub open spec fn users(self, id: Seq<char>) -> nat {
        users_in(session_links(self.sessions), id) + users_in(proxy_links(self.proxies), id)
    }

    /// What holds of the daemon at all times: every id has been issued, or is
    /// the name of a proxy; every session and every proxy stands under its own id
    /// and has its connection; every connection counts its users, and has some.
    pub open spec fn consistent(self) -> bool {
        &&& self.sessions.dom().finite()
        &&& self.proxies.dom().finite()
        &&& forall|id: Seq<char>| #[trigger]
            self.sessions.contains_key(id) ==> {
                &&& issued(id, "s"@, self.next_id as int)
                &&& self.sessions[id].id == id
                &&& self.connections.contains_key(self.sessions[id].connection_id)
                &&& self.sessions[id].cell.output.wf()
            }
        &&& forall|id: Seq<char>| #[trigger]
            self.proxies.contains_key(id) ==> {
                &&& suits_proxy(id, self.next_id as int)
                &&& self.proxies[id].id == id
                &&& self.connections.contains_key(self.proxies[id].connection_id)
            }
        &&& forall|id: Seq<char>| #[trigger]
            self.connections.contains_key(id) ==> {
                &&& issued(id, "c"@, self.next_connection_id as int)
                &&& self.connections[id].refcount == self.users(id)
                &&& self.connections[id].refcount >= 1
            }
        &&& forall|id: Seq<char>| #[trigger]
            self.departed.contains_key(id) ==> {
                &&& issued(id, "s"@, self.next_id as int)
                &&& !self.sessions.contains_key(id)
                &&& self.departed[id].output.wf()
            }
    }

    /// The state of a daemon that has just been started.
    pub open spec fn started(now: u64) -> ServerView {
        ServerView {
            sessions: Map::empty(),
            departed: Map::empty(),
            connections: Map::empty(),
            proxies: Map::empty(),
            next_id: 1,
            next_connection_id: 1,
            started_at: now,
        }
    }

    /// The state with a new connection, and a session on it.
    pub open spec fn with_connected(self, handle: u64, s: SessionView) -> ServerView {
        ServerView {
            connections: self.connections.insert(
                s.connection_id,
                SharedConnection { handle, refcount: 1 },
            ),
            sessions: self.sessions.insert(s.id, s),
            ..self
        }
    }

    /// The state with one more session on a connection that there is.
    pub open spec fn with_spawned(self, s: SessionView) -> ServerView {
        let c = self.connections[s.connection_id];
        ServerView {
            connections: self.connections.insert(
                s.connection_id,
                SharedConnection { refcount: (c.refcount + 1) as u32, ..c },
            ),
            sessions: self.sessions.insert(s.id, s),
            ..self
        }
    }

    /// The state with a new connection, and a proxy on it.
    pub open spec fn with_proxy(self, handle: u64, p: ProxyView) -> ServerView {
        ServerView {
            connections: self.connections.insert(
                p.connection_id,
                SharedConnection { handle, refcount: 1 },
            ),
            proxies: self.proxies.insert(p.id, p),
            ..self
        }
    }

    /// Whether a connection `id` can be added: its id has been issued and is not
    /// in use.
    pub open spec fn expects_connection(self, id: Seq<char>) -> bool {
        issued(id, "c"@, self.next_connection_id as int) && !self.connections.contains_key(id)
    }

    /// Whether a session `id` can be added: its id has been issued and is not in
    /// use.
    pub open spec fn expects_session(self, id: Seq<char>) -> bool {
        &&& issued(id, "s"@, self.next_id as int)
        &&& !self.sessions.contains_key(id)
        &&& !self.departed.contains_key(id)
    }

    /// Whether a proxy `id` can be added: its id has been issued or is a name,
    /// and is not in use.
    pub open spec fn expects_proxy(self, id: Seq<char>) -> bool {
        suits_proxy(id, self.next_id as int) && !self.proxies.contains_key(id)
    }

    /// The state with the session `id` replaced.
    pub open spec fn with_session(self, id: Seq<char>, s: SessionView) -> ServerView {
        ServerView { sessions: self.sessions.insert(id, s), ..self }
    }

    /// The state without the session `id`.
    pub open spec fn without_session(self, id: Seq<char>) -> ServerView {
        ServerView {
            sessions: self.sessions.remove(id),
            departed: self.departed.insert(id, self.sessions[id].cell),
            connections: released(self.connections, self.sessions[id].connection_id),
            ..self
        }
    }

    /// The state without the proxy `id`.
    pub open spec fn without_proxy(self, id: Seq<char>) -> ServerView {
        ServerView {
            proxies: self.proxies.remove(id),
            connections: released(self.connections, self.proxies[id].connection_id),
            ..self
        }
    }

    /// The shared part of the session `id`, open or closed.
    pub open spec fn cell(self, id: Seq<char>) -> Option<CellView> {
        if self.sessions.contains_key(id) {
            Some(self.sessions[id].cell)
        } else if self.departed.contains_key(id) {
            Some(self.departed[id])
        } else {
            None
        }
    }

    /// The state with the shared part of the session `id` replaced, where
    /// there is one.
    pub open spec fn with_cell(self, id: Seq<char>, cell: CellView) -> ServerView {
        if self.sessions.contains_key(id) {
            self.with_session(id, SessionView { cell, ..self.sessions[id] })
        } else if self.departed.contains_key(id) {
            ServerView { departed: self.departed.insert(id, cell), ..self }
        } else {
            self
        }
    }
}

// ---------------------------------------------------------------------------
// Laws: what every operation keeps
// ---------------------------------------------------------------------------

/// Replacing a session by one with the same id on the same connection keeps the
/// daemon consistent.
pub proof fn changed_session_keeps_consistency(v: ServerView, id: Seq<char>, s: SessionView)
    requires
        v.consistent(),
        v.sessions.contains_key(id),
        s.id == id,
        s.connection_id == v.sessions[id].connection_id,
        s.cell.output.wf(),
    ensures
        v.with_session(id, s).consistent(),
{
    let w = v.with_session(id, s);
    assert(session_links(w.sessions) =~= session_links(v.sessions));
    assert(w.sessions.dom() =~= v.sessions.dom());
    assert forall|c: Seq<char>| #[trigger] w.connections.contains_key(c) implies {
        &&& issued(c, "c"@, w.next_connection_id as int)
        &&& w.connections[c].refcount == w.users(c)
        &&& w.connections[c].refcount >= 1
    } by {
        assert(v.connections.contains_key(c));
    }
}

/// Changing what a session shares keeps the daemon consistent.
pub proof fn changed_cell_keeps_consistency(v: ServerView, id: Seq<char>, cell: CellView)
    requires
        v.consistent(),
        cell.output.wf(),
    ensures
        v.with_cell(id, cell).consistent(),
{
    if v.sessions.contains_key(id) {
        changed_session_keeps_consistency(v, id, SessionView { cell, ..v.sessions[id] });
    } else if v.departed.contains_key(id) {
        let w = v.with_cell(id, cell);
        assert(w.sessions == v.sessions && w.proxies == v.proxies);
        assert forall|c: Seq<char>| #[trigger] w.connections.contains_key(c) implies {
            &&& issued(c, "c"@, w.next_connection_id as int)
            &&& w.connections[c].refcount == w.users(c)
            &&& w.connections[c].refcount >= 1
        } by {
            assert(v.connections.contains_key(c));
        }
        assert forall|k: Seq<char>| #[trigger] w.departed.contains_key(k) implies {
            &&& issued(k, "s"@, w.next_id as int)
            &&& !w.sessions.contains_key(k)
            &&& w.departed[k].output.wf()
        } by {
            assert(v.departed.contains_key(k));
        }
    }
}

/// Closing a session keeps the daemon consistent: the session is gone, its
/// connection has one user less, and goes with its last user.
pub proof fn closed_session_keeps_consistency(v: ServerView, id: Seq<char>)
    requires
        v.consistent(),
        v.sessions.contains_key(id),
    ensures
        v.without_session(id).consistent(),
        !v.without_session(id).sessions.contains_key(id),
        v.without_session(id).connections.contains_key(v.sessions[id].connection_id) <==> v.users(
            v.sessions[id].connection_id,
        ) > 1,
{
    let w = v.without_session(id);
    let gone = v.sessions[id].connection_id;
    let links = session_links(v.sessions);
    assert(session_links(w.sessions) =~= links.remove(id));
    assert(links.dom() =~= v.sessions.dom());
    lemma_user_counts(links, id);
    assert(v.connections.contains_key(gone));
    assert forall|c: Seq<char>| w.users(c) + (if c == gone {
        1nat
    } else {
        0
    }) == #[trigger] v.users(c) by {
        lemma_link_removed(links, id, c);
    }
    lemma_release(v, w, gone);
    assert forall|k: Seq<char>| #[trigger] w.sessions.contains_key(k) implies {
        &&& issued(k, "s"@, w.next_id as int)
        &&& w.sessions[k].id == k
        &&& w.connections.contains_key(w.sessions[k].connection_id)
        &&& w.sessions[k].cell.output.wf()
    } by {
        assert(v.sessions.contains_key(k));
        assert(v.connections.contains_key(v.sessions[k].connection_id));
        let others = session_links(w.sessions);
        assert(others.dom() =~= w.sessions.dom());
        assert(others.contains_key(k));
        lemma_user_counts(others, k);
    }
    assert forall|k: Seq<char>| #[trigger] w.proxies.contains_key(k) implies {
        &&& suits_proxy(k, w.next_id as int)
        &&& w.proxies[k].id == k
        &&& w.connections.contains_key(w.proxies[k].connection_id)
    } by {
        assert(v.proxies.contains_key(k));
        assert(v.connections.contains_key(v.proxies[k].connection_id));
        let others = proxy_links(w.proxies);
        assert(others.dom() =~= w.proxies.dom());
        assert(others.contains_key(k));
        lemma_user_counts(others, k);
    }
    assert forall|k: Seq<char>| #[trigger] w.departed.contains_key(k) implies {
        &&& issued(k, "s"@, w.next_id as int)
        &&& !w.sessions.contains_key(k)
        &&& w.departed[k].output.wf()
    } by {
        if k != id {
            assert(v.departed.contains_key(k));
        }
    }
}

/// Where one user of `gone` has left, the connections still count their users.
proof fn lemma_release(v: ServerView, w: ServerView, gone: Seq<char>)
    requires
        forall|id: Seq<char>| #[trigger]
            v.connections.contains_key(id) ==> {
                &&& issued(id, "c"@, v.next_connection_id as int)
                &&& v.connections[id].refcount == v.users(id)
                &&& v.connections[id].refcount >= 1
            },
        v.connections.contains_key(gone),
        w.connections == released(v.connections, gone),
        w.next_connection_id == v.next_connection_id,
        forall|c: Seq<char>|
            w.users(c) + (if c == gone {
                1nat
            } else {
                0
            }) == #[trigger] v.users(c),
    ensures
        forall|id: Seq<char>| #[trigger]
            w.connections.contains_key(id) ==> {
                &&& issued(id, "c"@, w.next_connection_id as int)
                &&& w.connections[id].refcount == w.users(id)
                &&& w.connections[id].refcount >= 1
            },
        forall|id: Seq<char>|
            v.connections.contains_key(id) && w.users(id) >= 1
                ==> #[trigger] w.connections.contains_key(id),
        w.connections.contains_key(gone) <==> v.users(gone) > 1,
{
    assert forall|id: Seq<char>| #[trigger] w.connections.contains_key(id) implies {
        &&& issued(id, "c"@, w.next_connection_id as int)
        &&& w.connections[id].refcount == w.users(id)
        &&& w.connections[id].refcount >= 1
    } by {
        assert(v.connections.contains_key(id));
        assert(w.users(id) + (if id == gone {
            1nat
        } else {
            0
        }) == v.users(id));
    }
    assert(v.users(gone) == w.users(gone) + 1);
}

/// Closing a proxy keeps the daemon consistent: the proxy is gone, its
/// connection has one user less, and goes with its last user.
pub proof fn closed_proxy_keeps_consistency(v: ServerView, id: Seq<char>)
    requires
        v.consistent(),
        v.proxies.contains_key(id),
    ensures
        v.without_proxy(id).consistent(),
        !v.without_proxy(id).proxies.contains_key(id),
        v.without_proxy(id).connections.contains_key(v.proxies[id].connection_id) <==> v.users(
            v.proxies[id].connection_id,
        ) > 1,
{
    let w = v.without_proxy(id);
    let gone = v.proxies[id].connection_id;
    let links = proxy_links(v.proxies);
    assert(proxy_links(w.proxies) =~= links.remove(id));
    assert(links.dom() =~= v.proxies.dom());
    lemma_user_counts(links, id);
    assert(v.connections.contains_key(gone));
    assert forall|c: Seq<char>| w.users(c) + (if c == gone {
        1nat
    } else {
        0
    }) == #[trigger] v.users(c) by {
        lemma_link_removed(links, id, c);
    }
    lemma_release(v, w, gone);
    assert forall|k: Seq<char>| #[trigger] w.sessions.contains_key(k) implies {
        &&& issued(k, "s"@, w.next_id as int)
        &&& w.sessions[k].id == k
        &&& w.connections.contains_key(w.sessions[k].connection_id)
        &&& w.sessions[k].cell.output.wf()
    } by {
        assert(v.sessions.contains_key(k));
        assert(v.connections.contains_key(v.sessions[k].connection_id));
        let others = session_links(w.sessions);
        assert(others.dom() =~= w.sessions.dom());
        assert(others.contains_key(k));
        lemma_user_counts(others, k);
    }
    assert forall|k: Seq<char>| #[trigger] w.proxies.contains_key(k) implies {
        &&& suits_proxy(k, w.next_id as int)
        &&& w.proxies[k].id == k
        &&& w.connections.contains_key(w.proxies[k].connection_id)
    } by {
        assert(v.proxies.contains_key(k));
        assert(v.connections.contains_key(v.proxies[k].connection_id));
        let others = proxy_links(w.proxies);
        assert(others.dom() =~= w.proxies.dom());
        assert(others.contains_key(k));
        lemma_user_counts(others, k);
    }
    assert forall|k: Seq<char>| #[trigger] w.departed.contains_key(k) implies {
        &&& issued(k, "s"@, w.next_id as int)
        &&& !w.sessions.contains_key(k)
        &&& w.departed[k].output.wf()
    } by {
        assert(v.departed.contains_key(k));
    }
}

/// A daemon starts consistent.
pub proof fn started_is_consistent(now: u64)
    ensures
        ServerView::started(now).consistent(),
{
}

/// Issuing ids keeps the daemon consistent.
pub proof fn issuing_keeps_consistency(v: ServerView, next_id: u64, next_connection_id: u64)
    requires
        v.consistent(),
        v.next_id <= next_id,
        v.next_connection_id <= next_connection_id,
    ensures
        (ServerView { next_id, next_connection_id, ..v }).consistent(),
{
    let w = ServerView { next_id, next_connection_id, ..v };
    assert forall|k: Seq<char>| #[trigger] w.sessions.contains_key(k) implies issued(
        k,
        "s"@,
        w.next_id as int,
    ) by {
        assert(v.sessions.contains_key(k));
        lemma_issued_grows(k, "s"@, v.next_id as int, next_id as int);
    }
    assert forall|k: Seq<char>| #[trigger] w.departed.contains_key(k) implies issued(
        k,
        "s"@,
        w.next_id as int,
    ) by {
        assert(v.departed.contains_key(k));
        lemma_issued_grows(k, "s"@, v.next_id as int, next_id as int);
    }
    assert forall|k: Seq<char>| #[trigger] w.proxies.contains_key(k) implies suits_proxy(
        k,
        w.next_id as int,
    ) by {
        assert(v.proxies.contains_key(k));
        if issued(k, "p"@, v.next_id as int) {
            lemma_issued_grows(k, "p"@, v.next_id as int, next_id as int);
        }
    }
    assert forall|k: Seq<char>| #[trigger] w.connections.contains_key(k) implies issued(
        k,
        "c"@,
        w.next_connection_id as int,
    ) && w.connections[k].refcount == w.users(k) && w.connections[k].refcount >= 1 by {
        assert(v.connections.contains_key(k));
        lemma_issued_grows(k, "c"@, v.next_connection_id as int, next_connection_id as int);
    }
}

/// The ids that are issued next are in use nowhere.
pub proof fn next_ids_are_fresh(v: ServerView)
    requires
        v.consistent(),
    ensures
        !v.sessions.contains_key(numbered("s"@, v.next_id as int)),
        !v.departed.contains_key(numbered("s"@, v.next_id as int)),
        !v.proxies.contains_key(numbered("p"@, v.next_id as int)),
        !v.connections.contains_key(numbered("c"@, v.next_connection_id as int)),
{
    lemma_next_is_fresh("s"@, v.next_id as int);
    lemma_next_is_fresh("p"@, v.next_id as int);
    lemma_numbered_looks_so(v.next_id as int);
    lemma_next_is_fresh("c"@, v.next_connection_id as int);
}

/// A connection that is not there has no users.
proof fn lemma_no_users(v: ServerView, id: Seq<char>)
    requires
        v.consistent(),
        !v.connections.contains_key(id),
    ensures
        v.users(id) == 0,
{
    let a = users_of(session_links(v.sessions), id);
    let b = users_of(proxy_links(v.proxies), id);
    assert(a =~= Set::empty()) by {
        assert forall|k: Seq<char>| !#[trigger] a.contains(k) by {
            if a.contains(k) {
                assert(v.sessions.contains_key(k));
                assert(v.connections.contains_key(v.sessions[k].connection_id));
            }
        }
    }
    assert(b =~= Set::empty()) by {
        assert forall|k: Seq<char>| !#[trigger] b.contains(k) by {
            if b.contains(k) {
                assert(v.proxies.contains_key(k));
                assert(v.connections.contains_key(v.proxies[k].connection_id));
            }
        }
    }
}

/// What is left to show when a user of the connection `id` was added.
proof fn lemma_added(v: ServerView, w: ServerView, id: Seq<char>)
    requires
        v.consistent(),
        issued(id, "c"@, v.next_connection_id as int),
        w.next_connection_id == v.next_connection_id,
        w.connections.contains_key(id),
        w.connections[id].refcount == v.users(id) + 1,
        w.connections.remove(id) == v.connections.remove(id),
        forall|c: Seq<char>|
            #[trigger] w.users(c) == v.users(c) + (if c == id {
                1nat
            } else {
                0
            }),
    ensures
        forall|c: Seq<char>| #[trigger]
            w.connections.contains_key(c) ==> {
                &&& issued(c, "c"@, w.next_connection_id as int)
                &&& w.connections[c].refcount == w.users(c)
                &&& w.connections[c].refcount >= 1
            },
        forall|c: Seq<char>|
            v.connections.contains_key(c) ==> #[trigger] w.connections.contains_key(c),
{
    assert forall|c: Seq<char>| #[trigger] w.connections.contains_key(c) implies {
        &&& issued(c, "c"@, w.next_connection_id as int)
        &&& w.connections[c].refcount == w.users(c)
        &&& w.connections[c].refcount >= 1
    } by {
        if c != id {
            assert(w.connections.remove(id).contains_key(c));
            assert(v.connections.contains_key(c));
            assert(w.connections[c] == w.connections.remove(id)[c]);
            assert(v.connections[c] == v.connections.remove(id)[c]);
        }
    }
    assert forall|c: Seq<char>| v.connections.contains_key(
        c,
    ) implies #[trigger] w.connections.contains_key(c) by {
        if c != id {
            assert(v.connections.remove(id).contains_key(c));
        }
    }
}

proof fn lemma_session_added(v: ServerView, w: ServerView, s: SessionView)
    requires
        v.consistent(),
        v.expects_session(s.id),
        s.cell.output.wf(),
        issued(s.connection_id, "c"@, v.next_connection_id as int),
        w == (ServerView {
            sessions: v.sessions.insert(s.id, s),
            connections: w.connections,
            ..v
        }),
        w.connections.contains_key(s.connection_id),
        w.connections[s.connection_id].refcount == v.users(s.connection_id) + 1,
        w.connections.remove(s.connection_id) == v.connections.remove(s.connection_id),
    ensures
        w.consistent(),
{
    let links = session_links(v.sessions);
    assert(session_links(w.sessions) =~= links.insert(s.id, s.connection_id));
    assert(links.dom() =~= v.sessions.dom());
    assert forall|c: Seq<char>| #[trigger] w.users(c) == v.users(c) + (if c == s.connection_id {
        1nat
    } else {
        0
    }) by {
        lemma_link_added(links, s.id, s.connection_id, c);
    }
    lemma_added(v, w, s.connection_id);
    assert forall|k: Seq<char>| #[trigger] w.sessions.contains_key(k) implies {
        &&& issued(k, "s"@, w.next_id as int)
        &&& w.sessions[k].id == k
        &&& w.connections.contains_key(w.sessions[k].connection_id)
        &&& w.sessions[k].cell.output.wf()
    } by {
        if k != s.id {
            assert(v.sessions.contains_key(k));
        }
    }
}

/// Adding a session on a connection of its own keeps the daemon consistent.
pub proof fn connected_session_keeps_consistency(v: ServerView, handle: u64, s: SessionView)
    requires
        v.consistent(),
        v.expects_connection(s.connection_id),
        v.expects_session(s.id),
        s.cell.output.wf(),
    ensures
        v.with_connected(handle, s).consistent(),
        v.with_connected(handle, s).users(s.connection_id) == 1,
{
    let w = v.with_connected(handle, s);
    lemma_no_users(v, s.connection_id);
    assert(w.connections.remove(s.connection_id) =~= v.connections.remove(s.connection_id));
    lemma_session_added(v, w, s);
    assert(w.connections.contains_key(s.connection_id));
}

/// Adding a session on the connection of another keeps the daemon consistent,
/// and the connection then has one user more.
pub proof fn spawned_session_keeps_consistency(v: ServerView, s: SessionView)
    requires
        v.consistent(),
        v.connections.contains_key(s.connection_id),
        v.connections[s.connection_id].refcount < u32::MAX,
        v.expects_session(s.id),
        s.cell.output.wf(),
    ensures
        v.with_spawned(s).consistent(),
        v.with_spawned(s).users(s.connection_id) == v.users(s.connection_id) + 1,
{
    let w = v.with_spawned(s);
    assert(w.connections.remove(s.connection_id) =~= v.connections.remove(s.connection_id));
    lemma_session_added(v, w, s);
    assert(w.connections.contains_key(s.connection_id));
}

/// Adding a proxy on a connection of its own keeps the daemon consistent.
pub proof fn new_proxy_keeps_consistency(v: ServerView, handle: u64, p: ProxyView)
    requires
        v.consistent(),
        v.expects_connection(p.connection_id),
        v.expects_proxy(p.id),
    ensures
        v.with_proxy(handle, p).consistent(),
        v.with_proxy(handle, p).users(p.connection_id) == 1,
{
    let w = v.with_proxy(handle, p);
    let links = proxy_links(v.proxies);
    lemma_no_users(v, p.connection_id);
    assert(w.connections.remove(p.connection_id) =~= v.connections.remove(p.connection_id));
    assert(proxy_links(w.proxies) =~= links.insert(p.id, p.connection_id));
    assert(links.dom() =~= v.proxies.dom());
    assert forall|c: Seq<char>| #[trigger] w.users(c) == v.users(c) + (if c == p.connection_id {
        1nat
    } else {
        0
    }) by {
        lemma_link_added(links, p.id, p.connection_id, c);
    }
    lemma_added(v, w, p.connection_id);
    assert forall|k: Seq<char>| #[trigger] w.proxies.contains_key(k) implies {
        &&& suits_proxy(k, w.next_id as int)
        &&& w.proxies[k].id == k
        &&& w.connections.contains_key(w.proxies[k].connection_id)
    } by {
        if k != p.id {
            assert(v.proxies.contains_key(k));
        }
    }
    assert(w.connections.contains_key(p.connection_id));
}

// ---------------------------------------------------------------------------
// Laws: what one operation undoes, and what it leaves alone
// ---------------------------------------------------------------------------

/// Closing a session that was opened on a connection of its own undoes the
/// opening: all is as it was, but for what the session leaves behind.
pub proof fn closing_undoes_connecting(v: ServerView, handle: u64, s: SessionView)
    requires
        v.expects_connection(s.connection_id),
        v.expects_session(s.id),
    ensures
        v.with_connected(handle, s).without_session(s.id) == (ServerView {
            departed: v.departed.insert(s.id, s.cell),
            ..v
        }),
{
    let w = v.with_connected(handle, s).without_session(s.id);
    assert(w.sessions =~= v.sessions);
    assert(w.connections =~= v.connections);
}

/// Closing a session that was opened on the connection of another undoes the
/// opening: all is as it was, but for what the session leaves behind.
pub proof fn closing_undoes_spawning(v: ServerView, s: SessionView)
    requires
        v.consistent(),
        v.connections.contains_key(s.connection_id),
        v.connections[s.connection_id].refcount < u32::MAX,
        v.expects_session(s.id),
    ensures
        v.with_spawned(s).without_session(s.id) == (ServerView {
            departed: v.departed.insert(s.id, s.cell),
            ..v
        }),
{
    let w = v.with_spawned(s).without_session(s.id);
    assert(w.sessions =~= v.sessions);
    assert(w.connections =~= v.connections);
}

/// Closing a proxy undoes its creation.
pub proof fn closing_undoes_proxying(v: ServerView, handle: u64, p: ProxyView)
    requires
        v.expects_connection(p.connection_id),
        v.expects_proxy(p.id),
    ensures
        v.with_proxy(handle, p).without_proxy(p.id) == v,
{
    let w = v.with_proxy(handle, p).without_proxy(p.id);
    assert(w.proxies =~= v.proxies);
    assert(w.connections =~= v.connections);
}

/// Closing a session spares the others: they stay as they are, and keep their
/// connection, though it be the same.
pub proof fn closing_spares_the_others(v: ServerView, id: Seq<char>, other: Seq<char>)
    requires
        v.consistent(),
        v.sessions.contains_key(id),
        v.sessions.contains_key(other),
        id != other,
    ensures
        ({
            let w = v.without_session(id);
            let c = v.sessions[other].connection_id;
            &&& w.sessions.contains_key(other)
            &&& w.sessions[other] == v.sessions[other]
            &&& w.connections.contains_key(c)
            &&& w.connections[c].handle == v.connections[c].handle
            &&& w.proxies == v.proxies
        }),
{
    closed_session_keeps_consistency(v, id);
    assert(v.without_session(id).sessions.contains_key(other));
}

// ---------------------------------------------------------------------------
// Operations
// ---------------------------------------------------------------------------

impl ServerState {
    /// A daemon that has just been started.
    pub fn new(now: u64) -> (r: Self)
        ensures
            r@ == ServerView::started(now),
            r@.consistent(),
    {
        let r = ServerState {
            sessions: SortedMap::new(),
            departed: SortedMap::new(),
            connections: SortedMap::new(),
            proxies: SortedMap::new(),
            next_id: 1,
            next_connection_id: 1,
            started_at: now,
        };
        proof {
            assert(r@.sessions =~= ServerView::started(now).sessions);
            assert(r@.departed =~= ServerView::started(now).departed);
            assert(r@.proxies =~= ServerView::started(now).proxies);
            started_is_consistent(now);
        }
        r
    }

    /// Issues the id of a session.
    pub fn issue_session_id(&mut self) -> (id: String)
        requires
            old(self).next_id < u64::MAX,
        ensures
            id@ == numbered("s"@, old(self).next_id as int),
            final(self)@ == (ServerView {
                next_id: (old(self).next_id + 1) as u64,
                ..old(self)@
            }),
            old(self)@.consistent() ==> final(self)@.consistent() && final(self)@.expects_session(id@),
    {
        let id = cat2("s", decimal_text(self.next_id as u128).as_str());
        self.next_id = self.next_id + 1;
        proof {
            let v = old(self)@;
            assert(0 <= v.next_id < self.next_id && id@ == numbered("s"@, v.next_id as int));
            if v.consistent() {
                next_ids_are_fresh(v);
                issuing_keeps_consistency(v, self.next_id, self.next_connection_id);
            }
        }
        id
    }

    /// Issues the id of a proxy.
    pub fn issue_proxy_id(&mut self) -> (id: String)
        requires
            old(self).next_id < u64::MAX,
        ensures
            id@ == numbered("p"@, old(self).next_id as int),
            final(self)@ == (ServerView {
                next_id: (old(self).next_id + 1) as u64,
                ..old(self)@
            }),
            old(self)@.consistent() ==> final(self)@.consistent() && final(self)@.expects_proxy(
                id@,
            ),
    {
        let id = cat2("p", decimal_text(self.next_id as u128).as_str());
        self.next_id = self.next_id + 1;
        proof {
            let v = old(self)@;
            assert(0 <= v.next_id < self.next_id && id@ == numbered("p"@, v.next_id as int));
            if v.consistent() {
                next_ids_are_fresh(v);
                issuing_keeps_consistency(v, self.next_id, self.next_connection_id);
            }
        }
        id
    }

    /// Issues the id of a connection.
    pub fn issue_connection_id(&mut self) -> (id: String)
        requires
            old(self).next_connection_id < u64::MAX,
        ensures
            id@ == numbered("c"@, old(self).next_connection_id as int),
            final(self)@ == (ServerView {
                next_connection_id: (old(self).next_connection_id + 1) as u64,
                ..old(self)@
            }),
            old(self)@.consistent() ==> final(self)@.consistent()
                && final(self)@.expects_connection(id@),
    {
        let id = cat2("c", decimal_text(self.next_connection_id as u128).as_str());
        self.next_connection_id = self.next_connection_id + 1;
        proof {
            let v = old(self)@;
            assert(0 <= v.next_connection_id < self.next_connection_id && id@ == numbered(
                "c"@,
                v.next_connection_id as int,
            ));
            if v.consistent() {
                next_ids_are_fresh(v);
                issuing_keeps_consistency(v, self.next_id, self.next_connection_id);
            }
        }
        id
    }

    /// Adds a session on a connection of its own.
    pub fn add_connected(&mut self, handle: u64, session: SessionHandle)
        ensures
            final(self)@ == old(self)@.with_connected(handle, session@),
            old(self)@.consistent() && old(self)@.expects_connection(session@.connection_id)
                && old(self)@.expects_session(session@.id) && session@.cell.output.wf()
                ==> final(self)@.consistent(),
    {
        let ghost s = session@;
        self.connections.insert(
            session.connection_id.clone(),
            SharedConnection { handle, refcount: 1 },
        );
        self.sessions.insert(session.id.clone(), session);
        proof {
            let v = old(self)@;
            if v.consistent() && v.expects_connection(s.connection_id) && v.expects_session(s.id)
                && s.cell.output.wf() {
                connected_session_keeps_consistency(v, handle, s);
            }
        }
    }

    /// Adds a session on a connection that there is. Without the connection,
    /// nothing is added.
    pub fn add_spawned(&mut self, session: SessionHandle) -> (r: Result<(), Error>)
        requires
            old(self)@.connections.contains_key(session@.connection_id)
                ==> old(self)@.connections[session@.connection_id].refcount < u32::MAX,
        ensures
            match r {
                Ok(_) => old(self)@.connections.contains_key(session@.connection_id) && final(self)@
                    == old(self)@.with_spawned(session@),
                Err(e) => !old(self)@.connections.contains_key(session@.connection_id)
                    && final(self)@ == old(self)@ && (e matches Error::ConnectionNotFound(id) && id@
                    == session@.connection_id),
            },
            old(self)@.consistent() && old(self)@.expects_session(session@.id)
                && session@.cell.output.wf() ==> final(self)@.consistent(),
    {
        let ghost s = session@;
        let c = match self.connections.get(session.connection_id.as_str()) {
            Some(c) => *c,
            None => return Err(Error::ConnectionNotFound(session.connection_id)),
        };
        self.connections.insert(
            session.connection_id.clone(),
            SharedConnection { handle: c.handle, refcount: c.refcount + 1 },
        );
        self.sessions.insert(session.id.clone(), session);
        proof {
            let v = old(self)@;
            if v.consistent() && v.expects_session(s.id) && s.cell.output.wf() {
                spawned_session_keeps_consistency(v, s);
            }
        }
        Ok(())
    }

    /// Adds a proxy on a connection of its own.
    pub fn add_proxy(&mut self, handle: u64, proxy: ProxyState)
        ensures
            final(self)@ == old(self)@.with_proxy(handle, proxy@),
            old(self)@.consistent() && old(self)@.expects_connection(proxy@.connection_id)
                && old(self)@.expects_proxy(proxy@.id) ==> final(self)@.consistent(),
    {
        let ghost p = proxy@;
        self.connections.insert(
            proxy.connection_id.clone(),
            SharedConnection { handle, refcount: 1 },
        );
        self.proxies.insert(proxy.id.clone(), proxy);
        proof {
            let v = old(self)@;
            if v.consistent() && v.expects_connection(p.connection_id) && v.expects_proxy(p.id) {
                new_proxy_keeps_consistency(v, handle, p);
            }
        }
    }

    /// Takes one user off a connection. Without users the connection goes.
    fn release(&mut self, connection_id: &str)
        ensures
            final(self)@ == (ServerView {
                connections: released(old(self)@.connections, connection_id@),
                ..old(self)@
            }),
    {
        let c = match self.connections.get(connection_id) {
            Some(c) => *c,
            None => return ,
        };
        if c.refcount <= 1 {
            self.connections.remove(connection_id);
        } else {
            self.connections.insert(
                connection_id.to_owned(),
                SharedConnection { handle: c.handle, refcount: c.refcount - 1 },
            );
        }
    }

    /// Takes a session out of the daemon and gives up its use of the
    /// connection. What it shared stays for those who still wait on it.
    pub fn remove_session(&mut self, session_id: &str) -> (r: Result<(), Error>)
        ensures
            match r {
                Ok(_) => old(self)@.sessions.contains_key(session_id@)
                    && final(self)@ == old(self)@.without_session(session_id@),
                Err(e) => !old(self)@.sessions.contains_key(session_id@)
                    && final(self)@ == old(self)@ && (e matches Error::SessionNotFound(id)
                    && id@ == session_id@),
            },
            old(self)@.consistent() ==> final(self)@.consistent(),
    {
        let ghost v = old(self)@;
        match self.sessions.remove(session_id) {
            None => {
                assert(self@.sessions =~= v.sessions);
                Err(Error::SessionNotFound(session_id.to_owned()))
            },
            Some(session) => {
                let connection_id = session.connection_id;
                self.departed.insert(session_id.to_owned(), session.cell);
                self.release(connection_id.as_str());
                proof {
                    if v.consistent() {
                        closed_session_keeps_consistency(v, session_id@);
                    }
                }
                Ok(())
            },
        }
    }

    /// Takes a proxy out of the daemon and gives up its use of the connection.
    pub fn remove_proxy(&mut self, proxy_id: &str) -> (r: Option<ProxyState>)
        ensures
            match r {
                Some(p) => old(self)@.proxies.contains_key(proxy_id@)
                    && p@ == old(self)@.proxies[proxy_id@]
                    && final(self)@ == old(self)@.without_proxy(proxy_id@),
                None => !old(self)@.proxies.contains_key(proxy_id@) && final(self)@ == old(self)@,
            },
            old(self)@.consistent() ==> final(self)@.consistent(),
    {
        let ghost v = old(self)@;
        match self.proxies.remove(proxy_id) {
            None => {
                assert(self@.proxies =~= v.proxies);
                None
            },
            Some(proxy) => {
                self.release(proxy.connection_id.as_str());
                proof {
                    if v.consistent() {
                        closed_proxy_keeps_consistency(v, proxy_id@);
                    }
                }
                Some(proxy)
            },
        }
    }

    /// Forgets what a closed session left behind.
    pub fn forget(&mut self, session_id: &str)
        ensures
            final(self)@ == (ServerView {
                departed: old(self)@.departed.remove(session_id@),
                ..old(self)@
            }),
            old(self)@.consistent() ==> final(self)@.consistent(),
    {
        self.departed.remove(session_id);
        proof {
            let v = old(self)@;
            let w = self@;
            if v.consistent() {
                assert(w.sessions == v.sessions && w.proxies == v.proxies);
                assert forall|c: Seq<char>| #[trigger] w.connections.contains_key(c) implies {
                    &&& issued(c, "c"@, w.next_connection_id as int)
                    &&& w.connections[c].refcount == w.users(c)
                    &&& w.connections[c].refcount >= 1
                } by {
                    assert(v.connections.contains_key(c));
                }
                assert forall|k: Seq<char>| #[trigger] w.departed.contains_key(k) implies {
                    &&& issued(k, "s"@, w.next_id as int)
                    &&& !w.sessions.contains_key(k)
                    &&& w.departed[k].output.wf()
                } by {
                    assert(v.departed.contains_key(k));
                }
            }
        }
    }

    /// Notes how a proxy is doing. One that has been closed is past caring.
    pub fn set_proxy_status(&mut self, proxy_id: &str, status: ProxyStatus)
        ensures
            ({
                let v = old(self)@;
                final(self)@ == if v.proxies.contains_key(proxy_id@) {
                    ServerView {
                        proxies: v.proxies.insert(
                            proxy_id@,
                            ProxyView { status: Some(status@), ..v.proxies[proxy_id@] },
                        ),
                        ..v
                    }
                } else {
                    v
                }
            }),
            old(self)@.consistent() ==> final(self)@.consistent(),
    {
        let ghost v = old(self)@;
        match self.proxies.remove(proxy_id) {
            None => {
                assert(self@.proxies =~= v.proxies);
            },
            Some(mut proxy) => {
                proxy.status = Some(status);
                let ghost p = proxy@;
                self.proxies.insert(proxy_id.to_owned(), proxy);
                proof {
                    let w = self@;
                    assert(w.proxies =~= v.proxies.insert(proxy_id@, p));
                    if v.consistent() {
                        assert(proxy_links(w.proxies) =~= proxy_links(v.proxies));
                        assert(w.proxies.dom() =~= v.proxies.dom());
                        assert forall|c: Seq<char>| #[trigger] w.connections.contains_key(c) implies {
                            &&& issued(c, "c"@, w.next_connection_id as int)
                            &&& w.connections[c].refcount == w.users(c)
                            &&& w.connections[c].refcount >= 1
                        } by {
                            assert(v.connections.contains_key(c));
                        }
                    }
                }
            },
        }
    }
}

/// What opening a session does: the session is there as it was opened, on its
/// connection, and all else is as it was.
pub proof fn opened_sessions_are_there(v: ServerView, handle: u64, s: SessionView, other: Seq<char>)
    ensures
        ({
            let w = v.with_connected(handle, s);
            &&& w.sessions.contains_key(s.id) && w.sessions[s.id] == s
            &&& w.connections.contains_key(s.connection_id)
            &&& w.connections[s.connection_id].handle == handle
            &&& w.connections[s.connection_id].refcount == 1
            &&& other != s.id ==> w.sessions.contains_key(other) == v.sessions.contains_key(other)
            &&& other != s.id && v.sessions.contains_key(other) ==> w.sessions[other]
                == v.sessions[other]
            &&& w.proxies == v.proxies && w.departed == v.departed
        }),
        ({
            let w = v.with_spawned(s);
            &&& w.sessions.contains_key(s.id) && w.sessions[s.id] == s
            &&& w.connections.contains_key(s.connection_id)
            &&& w.connections[s.connection_id].handle == v.connections[s.connection_id].handle
            &&& v.connections[s.connection_id].refcount < u32::MAX
                ==> w.connections[s.connection_id].refcount
                == v.connections[s.connection_id].refcount + 1
            &&& other != s.id && v.sessions.contains_key(other) ==> w.sessions[other]
                == v.sessions[other]
            &&& w.proxies == v.proxies && w.departed == v.departed
        }),
{
}

/// What closing a session does: it is there no more, what it had put out is kept
/// aside, and its connection goes with its last user and not before.
pub proof fn closed_sessions_leave_their_connection(v: ServerView, id: Seq<char>, other: Seq<char>)
    requires
        v.sessions.contains_key(id),
        v.connections.contains_key(v.sessions[id].connection_id),
    ensures
        ({
            let w = v.without_session(id);
            let c = v.sessions[id].connection_id;
            &&& !w.sessions.contains_key(id)
            &&& w.departed.contains_key(id) && w.departed[id] == v.sessions[id].cell
            &&& v.connections[c].refcount <= 1 ==> !w.connections.contains_key(c)
            &&& v.connections[c].refcount > 1 ==> w.connections.contains_key(c)
                && w.connections[c].refcount == v.connections[c].refcount - 1
                && w.connections[c].handle == v.connections[c].handle
            &&& other != c ==> w.connections.contains_key(other) == v.connections.contains_key(other)
            &&& other != c && v.connections.contains_key(other) ==> w.connections[other]
                == v.connections[other]
            &&& other != id && v.sessions.contains_key(other) ==> w.sessions[other]
                == v.sessions[other]
            &&& w.proxies == v.proxies
        }),
{
}

/// The same of proxies: one that is created is there as it was created, on a
/// connection of its own; one that is closed is there no more.
pub proof fn proxies_come_and_go(v: ServerView, handle: u64, p: ProxyView, id: Seq<char>)
    ensures
        ({
            let w = v.with_proxy(handle, p);
            &&& w.proxies.contains_key(p.id) && w.proxies[p.id] == p
            &&& w.connections.contains_key(p.connection_id)
            &&& w.connections[p.connection_id].handle == handle
            &&& w.connections[p.connection_id].refcount == 1
            &&& w.sessions == v.sessions
            &&& id != p.id && v.proxies.contains_key(id) ==> w.proxies[id] == v.proxies[id]
        }),
        ({
            let w = v.without_proxy(id);
            &&& !w.proxies.contains_key(id)
            &&& p.id != id ==> w.proxies.contains_key(p.id) == v.proxies.contains_key(p.id)
            &&& w.sessions == v.sessions
        }),
{
}

/// Ids are a letter and a number, which goes up by one with each id.
pub proof fn ids_are_numbered(n: nat)
    ensures
        numbered("s"@, n as int) == seq!['s'] + decimal(n),
        numbered("p"@, n as int) == seq!['p'] + decimal(n),
        numbered("c"@, n as int) == seq!['c'] + decimal(n),
{
    reveal_strlit("s");
    reveal_strlit("p");
    reveal_strlit("c");
    assert("s"@ =~= seq!['s']);
    assert("p"@ =~= seq!['p']);
    assert("c"@ =~= seq!['c']);
}

/// The shared part of a session is its own while it is open, and what it left
/// behind when it is closed.
pub proof fn cells_belong_to_their_session(v: ServerView, id: Seq<char>)
    ensures
        v.sessions.contains_key(id) ==> v.cell(id) == Some(v.sessions[id].cell),
        !v.sessions.contains_key(id) && v.departed.contains_key(id) ==> v.cell(id) == Some(
            v.departed[id],
        ),
        !v.sessions.contains_key(id) && !v.departed.contains_key(id) ==> v.cell(id) is None,
{
}

/// What changes in one session changes nothing in any other, and nothing else.
pub proof fn changes_stay_in_their_session(
    v: ServerView,
    id: Seq<char>,
    cell: CellView,
    other: Seq<char>,
)
    requires
        v.sessions.contains_key(id),
    ensures
        ({
            let w = v.with_cell(id, cell);
            &&& w.sessions.contains_key(id)
            &&& w.sessions[id] == (SessionView { cell, ..v.sessions[id] })
            &&& other != id ==> w.sessions.contains_key(other) == v.sessions.contains_key(other)
            &&& other != id && v.sessions.contains_key(other) ==> w.sessions[other]
                == v.sessions[other]
            &&& w.departed == v.departed && w.connections == v.connections && w.proxies == v.proxies
            &&& w.next_id == v.next_id && w.next_connection_id == v.next_connection_id
        }),
{
}

} // verus!
