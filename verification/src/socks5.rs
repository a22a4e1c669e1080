//! The server side of a SOCKS5 handshake (RFC 1928), without authentication.

use crate::error::Error;
use crate::number::{decimal, decimal_text, hexadecimal, hexadecimal_text};
use crate::text::{cat2, cat3, cat4, from_utf8_lossy, join, joined, lossy_text, texts};
use vstd::prelude::*;
use vstd::slice::*;
use vstd::string::*;

verus! {

// ---------------------------------------------------------------------------
// Addresses in words
// ---------------------------------------------------------------------------

/// An IPv4 address in dotted decimal notation.
pub open spec fn ipv4_text(a: Seq<u8>) -> Seq<char> {
    decimal(a[0] as nat) + "."@ + decimal(a[1] as nat) + "."@ + (decimal(a[2] as nat) + "."@
        + decimal(a[3] as nat))
}

/// An IPv4 address in dotted decimal notation.
pub fn ipv4_to_text(a: &[u8]) -> (r: String)
    requires
        a@.len() == 4,
    ensures
        r@ == ipv4_text(a@),
{
    let left = cat4(
        decimal_text(a[0] as u128).as_str(),
        ".",
        decimal_text(a[1] as u128).as_str(),
        ".",
    );
    let right = cat3(
        decimal_text(a[2] as u128).as_str(),
        ".",
        decimal_text(a[3] as u128).as_str(),
    );
    cat2(left.as_str(), right.as_str())
}

/// The number that two bytes, the high one first, stand for.
pub open spec fn big_endian(high: u8, low: u8) -> u16 {
    (high * 256 + low) as u16
}

/// The eight groups of an IPv6 address.
pub open spec fn groups(a: Seq<u8>) -> Seq<u16> {
    Seq::new(8, |i: int| big_endian(a[2 * i], a[2 * i + 1]))
}

/// How many zero groups stand in a row from group `i` on.
pub open spec fn zero_run(g: Seq<u16>, i: int) -> nat
    decreases g.len() - i,
{
    if 0 <= i < g.len() && g[i] == 0 {
        1 + zero_run(g, i + 1)
    } else {
        0
    }
}

/// The start of the longest row of zero groups from group `i` on, the first of
/// them where several are longest.
pub open spec fn longest_run(g: Seq<u16>, i: int) -> int
    decreases g.len() - i,
{
    if i >= g.len() {
        i
    } else {
        let rest = longest_run(g, i + 1);
        if zero_run(g, i) >= zero_run(g, rest) {
            i
        } else {
            rest
        }
    }
}

/// The groups in hexadecimal.
pub open spec fn group_texts(g: Seq<u16>) -> Seq<Seq<char>> {
    Seq::new(g.len(), |i: int| hexadecimal(g[i] as nat))
}

/// Groups in hexadecimal with colons between them.
pub open spec fn colon_text(g: Seq<u16>) -> Seq<char> {
    joined(group_texts(g), ":"@)
}

/// Whether an address is an IPv4 address in the IPv6 space.
pub open spec fn ipv4_mapped(g: Seq<u16>) -> bool {
    &&& g[0] == 0 && g[1] == 0 && g[2] == 0 && g[3] == 0 && g[4] == 0
    &&& g[5] == 0xffff
}

/// An IPv6 address in words: groups without leading zeros, the first longest
/// row of two or more zero groups shortened to two colons, and IPv4 addresses
/// in their own notation.
pub open spec fn ipv6_text(a: Seq<u8>) -> Seq<char> {
    let g = groups(a);
    let start = longest_run(g, 0);
    let len = zero_run(g, start);
    if ipv4_mapped(g) {
        "::ffff:"@ + ipv4_text(a.subrange(12, 16))
    } else if len >= 2 {
        colon_text(g.take(start)) + "::"@ + colon_text(g.skip(start + len))
    } else {
        colon_text(g)
    }
}

proof fn lemma_zero_run(g: Seq<u16>, i: int)
    requires
        0 <= i <= g.len(),
    ensures
        i + zero_run(g, i) <= g.len(),
    decreases g.len() - i,
{
    if i < g.len() && g[i] == 0 {
        lemma_zero_run(g, i + 1);
    }
}

proof fn lemma_longest_run(g: Seq<u16>, i: int)
    requires
        0 <= i <= g.len(),
    ensures
        i <= longest_run(g, i) <= g.len(),
    decreases g.len() - i,
{
    if i < g.len() {
        lemma_longest_run(g, i + 1);
    }
}

fn groups_of(a: &[u8]) -> (r: Vec<u16>)
    requires
        a@.len() == 16,
    ensures
        r@ == groups(a@),
{
    let mut g: Vec<u16> = Vec::new();
    let mut i: usize = 0;
    while i < 8
        invariant
            i <= 8,
            a@.len() == 16,
            g@.len() == i,
            forall|j: int| 0 <= j < i ==> g@[j] == big_endian(a@[2 * j], a@[2 * j + 1]),
        decreases 8 - i,
    {
        g.push(u16_of(a[2 * i], a[2 * i + 1]));
        i += 1;
    }
    assert(g@ =~= groups(a@));
    g
}

fn u16_of(high: u8, low: u8) -> (r: u16)
    ensures
        r == big_endian(high, low),
{
    (high as u16) * 256 + (low as u16)
}

fn colon_text_of(g: &Vec<u16>, from: usize, to: usize) -> (r: String)
    requires
        from <= to <= g@.len(),
    ensures
        r@ == colon_text(g@.subrange(from as int, to as int)),
{
    let mut parts: Vec<String> = Vec::new();
    let mut i: usize = from;
    while i < to
        invariant
            from <= i <= to <= g@.len(),
            parts@.len() == i - from,
            forall|j: int|
                0 <= j < i - from ==> (#[trigger] parts@[j])@ == hexadecimal(
                    g@[from + j] as nat,
                ),
        decreases to - i,
    {
        parts.push(hexadecimal_text(g[i]));
        i += 1;
    }
    assert(texts(parts@) =~= group_texts(g@.subrange(from as int, to as int)));
    join(&parts, ":")
}

/// An IPv6 address in words.
pub fn ipv6_to_text(a: &[u8]) -> (r: String)
    requires
        a@.len() == 16,
    ensures
        r@ == ipv6_text(a@),
{
    let g = groups_of(a);
    if g[0] == 0 && g[1] == 0 && g[2] == 0 && g[3] == 0 && g[4] == 0 && g[5] == 0xffff {
        let low = ipv4_to_text(slice_subrange(a, 12, 16));
        return cat2("::ffff:", low.as_str());
    }
    let mut i: usize = 8;
    let mut run: usize = 0;
    let mut start: usize = 8;
    let mut len: usize = 0;
    while i > 0
        invariant
            i <= 8,
            g@.len() == 8,
            run == zero_run(g@, i as int),
            i <= start <= 8,
            start == longest_run(g@, i as int),
            len == zero_run(g@, start as int),
            run <= 8 - i,
        decreases i,
    {
        i -= 1;
        run = if g[i] == 0 {
            run + 1
        } else {
            0
        };
        if run >= len {
            start = i;
            len = run;
        }
    }
    proof {
        lemma_longest_run(g@, 0);
        lemma_zero_run(g@, start as int);
        assert(g@.subrange(0, start as int) =~= g@.take(start as int));
        assert(g@.subrange(start + len, 8) =~= g@.skip(start + len));
        assert(g@.subrange(0, 8) =~= g@);
    }
    if len >= 2 {
        let head = colon_text_of(&g, 0, start);
        let tail = colon_text_of(&g, start + len, 8);
        cat3(head.as_str(), "::", tail.as_str())
    } else {
        colon_text_of(&g, 0, 8)
    }
}

// ---------------------------------------------------------------------------
// The handshake
// ---------------------------------------------------------------------------

/// What the server waits for.
#[derive(Debug, Clone, Copy, PartialEq, Eq, Structural)]
pub enum Socks5Stage {
    /// The version and the number of authentication methods.
    Greeting,
    /// So many authentication methods.
    Methods(u8),
    /// The version, the command, a reserved byte and the type of the address.
    Request,
    /// An IPv4 address and a port.
    Ipv4,
    /// The length of a domain name.
    DomainLength,
    /// A domain name of so many bytes, and a port.
    Domain(u8),
    /// An IPv6 address and a port.
    Ipv6,
}

/// What the server does when that has arrived.
#[derive(Debug)]
pub enum Socks5Step {
    /// Send some bytes, and wait for more.
    Next { reply: Vec<u8>, stage: Socks5Stage },
    /// Send some bytes, and connect to the host and port.
    Done { reply: Vec<u8>, host: String, port: u16 },
}

/// What a [`Socks5Step`] says.
pub enum StepView {
    Next { reply: Seq<u8>, stage: Socks5Stage },
    Done { reply: Seq<u8>, host: Seq<char>, port: u16 },
    /// The handshake is given up.
    Failed(Seq<char>),
}

/// What the outcome of a step says.
pub open spec fn step_view(r: Result<Socks5Step, Error>) -> StepView {
    match r {
        Ok(Socks5Step::Next { reply, stage }) => StepView::Next { reply: reply@, stage },
        Ok(Socks5Step::Done { reply, host, port }) => StepView::Done {
            reply: reply@,
            host: host@,
            port,
        },
        Err(e) => StepView::Failed(e.text()),
    }
}

/// The reply that no authentication is asked for.
pub open spec fn no_authentication() -> Seq<u8> {
    seq![5u8, 0u8]
}

/// The reply that the connection is made.
pub open spec fn success() -> Seq<u8> {
    seq![5u8, 0u8, 0u8, 1u8, 0u8, 0u8, 0u8, 0u8, 0u8, 0u8]
}

impl Socks5Stage {
    /// How many bytes the server waits for.
    pub open spec fn spec_wanted(self) -> nat {
        match self {
            Socks5Stage::Greeting => 2,
            Socks5Stage::Methods(n) => n as nat,
            Socks5Stage::Request => 4,
            Socks5Stage::Ipv4 => 6,
            Socks5Stage::DomainLength => 1,
            Socks5Stage::Domain(n) => n as nat + 2,
            Socks5Stage::Ipv6 => 18,
        }
    }

    /// How many bytes the server waits for.
    pub fn wanted(self) -> (n: usize)
        ensures
            n == self.spec_wanted(),
    {
        match self {
            Socks5Stage::Greeting => 2,
            Socks5Stage::Methods(n) => n as usize,
            Socks5Stage::Request => 4,
            Socks5Stage::Ipv4 => 6,
            Socks5Stage::DomainLength => 1,
            Socks5Stage::Domain(n) => n as usize + 2,
            Socks5Stage::Ipv6 => 18,
        }
    }
}

/// The port in the last two bytes.
pub open spec fn port_behind(bytes: Seq<u8>) -> u16 {
    big_endian(bytes[bytes.len() - 2], bytes[bytes.len() - 1])
}

/// What the server does when the bytes that it waited for have arrived.
pub open spec fn step_taken(stage: Socks5Stage, bytes: Seq<u8>) -> StepView {
    match stage {
        Socks5Stage::Greeting => if bytes[0] != 5 {
            StepView::Failed(Error::Socks5Greeting(bytes[0]).text())
        } else {
            StepView::Next { reply: Seq::empty(), stage: Socks5Stage::Methods(bytes[1]) }
        },
        Socks5Stage::Methods(_) => StepView::Next {
            reply: no_authentication(),
            stage: Socks5Stage::Request,
        },
        Socks5Stage::Request => if bytes[0] != 5 {
            StepView::Failed(Error::Socks5Version(bytes[0]).text())
        } else if bytes[1] != 1 {
            StepView::Failed(Error::Socks5Command(bytes[1]).text())
        } else if bytes[3] == 1 {
            StepView::Next { reply: Seq::empty(), stage: Socks5Stage::Ipv4 }
        } else if bytes[3] == 3 {
            StepView::Next { reply: Seq::empty(), stage: Socks5Stage::DomainLength }
        } else if bytes[3] == 4 {
            StepView::Next { reply: Seq::empty(), stage: Socks5Stage::Ipv6 }
        } else {
            StepView::Failed(Error::Socks5AddressType(bytes[3]).text())
        },
        Socks5Stage::Ipv4 => StepView::Done {
            reply: success(),
            host: ipv4_text(bytes.take(4)),
            port: port_behind(bytes),
        },
        Socks5Stage::DomainLength => StepView::Next {
            reply: Seq::empty(),
            stage: Socks5Stage::Domain(bytes[0]),
        },
        Socks5Stage::Domain(n) => StepView::Done {
            reply: success(),
            host: lossy_text(bytes.take(n as int)),
            port: port_behind(bytes),
        },
        Socks5Stage::Ipv6 => StepView::Done {
            reply: success(),
            host: ipv6_text(bytes.take(16)),
            port: port_behind(bytes),
        },
    }
}

fn success_reply() -> (r: Vec<u8>)
    ensures
        r@ == success(),
{
    let r: Vec<u8> = vec![5u8, 0u8, 0u8, 1u8, 0u8, 0u8, 0u8, 0u8, 0u8, 0u8];
    assert(r@ =~= success());
    r
}

/// What the server does when the bytes that it waited for have arrived.
pub fn socks5_step(stage: Socks5Stage, bytes: &[u8]) -> (r: Result<Socks5Step, Error>)
    requires
        bytes@.len() == stage.spec_wanted(),
    ensures
        step_view(r) == step_taken(stage, bytes@),
{
    let n: usize = bytes.len();
    match stage {
        Socks5Stage::Greeting => {
            if bytes[0] != 5 {
                return Err(Error::Socks5Greeting(bytes[0]));
            }
            let reply: Vec<u8> = Vec::new();
            Ok(Socks5Step::Next { reply, stage: Socks5Stage::Methods(bytes[1]) })
        },
        Socks5Stage::Methods(_) => {
            let reply: Vec<u8> = vec![5u8, 0u8];
            assert(reply@ =~= no_authentication());
            Ok(Socks5Step::Next { reply, stage: Socks5Stage::Request })
        },
        Socks5Stage::Request => {
            if bytes[0] != 5 {
                return Err(Error::Socks5Version(bytes[0]));
            }
            if bytes[1] != 1 {
                return Err(Error::Socks5Command(bytes[1]));
            }
            let stage = match bytes[3] {
                1 => Socks5Stage::Ipv4,
                3 => Socks5Stage::DomainLength,
                4 => Socks5Stage::Ipv6,
                other => return Err(Error::Socks5AddressType(other)),
            };
            Ok(Socks5Step::Next { reply: Vec::new(), stage })
        },
        Socks5Stage::Ipv4 => {
            let address = slice_subrange(bytes, 0, 4);
            assert(address@ =~= bytes@.take(4));
            let host = ipv4_to_text(address);
            Ok(Socks5Step::Done { reply: success_reply(), host, port: u16_of(bytes[4], bytes[5]) })
        },
        Socks5Stage::DomainLength => {
            Ok(
                Socks5Step::Next {
                    reply: Vec::new(),
                    stage: Socks5Stage::Domain(bytes[0]),
                },
            )
        },
        Socks5Stage::Domain(len) => {
            let name = slice_subrange(bytes, 0, len as usize);
            assert(name@ =~= bytes@.take(len as int));
            let host = from_utf8_lossy(name);
            Ok(
                Socks5Step::Done {
                    reply: success_reply(),
                    host,
                    port: u16_of(bytes[n - 2], bytes[n - 1]),
                },
            )
        },
        Socks5Stage::Ipv6 => {
            let address = slice_subrange(bytes, 0, 16);
            assert(address@ =~= bytes@.take(16));
            let host = ipv6_to_text(address);
            Ok(
                Socks5Step::Done {
                    reply: success_reply(),
                    host,
                    port: u16_of(bytes[16], bytes[17]),
                },
            )
        },
    }
}

// ---------------------------------------------------------------------------
// Laws
// ---------------------------------------------------------------------------

/// How a handshake ends.
pub enum Handshake {
    /// The client has not sent enough yet.
    Waiting,
    /// The handshake is given up.
    Failed(Seq<char>),
    /// The server has sent `sent`, connects to the host and port, and has
    /// taken `used` bytes from the client.
    Connected { sent: Seq<u8>, host: Seq<char>, port: u16, used: nat },
}

/// How many stages are left at most.
pub open spec fn stages_left(stage: Socks5Stage) -> nat {
    match stage {
        Socks5Stage::Greeting => 5,
        Socks5Stage::Methods(_) => 4,
        Socks5Stage::Request => 3,
        Socks5Stage::DomainLength => 2,
        _ => 1,
    }
}

/// The handshake from `stage` on with a client that sends `stream`, where the
/// server has sent `sent` and taken `used` bytes so far.
pub open spec fn handshake(
    stage: Socks5Stage,
    stream: Seq<u8>,
    sent: Seq<u8>,
    used: nat,
) -> Handshake
    decreases stages_left(stage),
{
    let n = stage.spec_wanted();
    if stream.len() < n {
        Handshake::Waiting
    } else {
        match step_taken(stage, stream.take(n as int)) {
            StepView::Failed(message) => Handshake::Failed(message),
            StepView::Done { reply, host, port } => Handshake::Connected {
                sent: sent + reply,
                host,
                port,
                used: used + n,
            },
            StepView::Next { reply, stage: next } => if stages_left(next) < stages_left(stage) {
                handshake(next, stream.skip(n as int), sent + reply, used + n)
            } else {
                Handshake::Waiting
            },
        }
    }
}

/// What a client asks to be connected to.
pub enum Destination {
    Ipv4(Seq<u8>),
    Domain(Seq<u8>),
    Ipv6(Seq<u8>),
}

impl Destination {
    /// Whether the destination has the length that its type asks for.
    pub open spec fn wf(self) -> bool {
        match self {
            Destination::Ipv4(a) => a.len() == 4,
            Destination::Domain(name) => name.len() <= 255,
            Destination::Ipv6(a) => a.len() == 16,
        }
    }

    /// The destination in a request: its type and its bytes.
    pub open spec fn bytes(self) -> Seq<u8> {
        match self {
            Destination::Ipv4(a) => seq![1u8] + a,
            Destination::Domain(name) => seq![3u8, name.len() as u8] + name,
            Destination::Ipv6(a) => seq![4u8] + a,
        }
    }

    /// The host that the destination names.
    pub open spec fn host(self) -> Seq<char> {
        match self {
            Destination::Ipv4(a) => ipv4_text(a),
            Destination::Domain(name) => lossy_text(name),
            Destination::Ipv6(a) => ipv6_text(a),
        }
    }
}

/// What a client sends that offers `methods` and asks for a connection to
/// `destination`.
pub open spec fn client_stream(
    methods: Seq<u8>,
    reserved: u8,
    destination: Destination,
    port_high: u8,
    port_low: u8,
) -> Seq<u8> {
    seq![5u8, methods.len() as u8] + methods + seq![5u8, 1u8, reserved] + destination.bytes()
        + seq![port_high, port_low]
}

proof fn lemma_stage(stage: Socks5Stage, part: Seq<u8>, rest: Seq<u8>, sent: Seq<u8>, used: nat)
    requires
        part.len() == stage.spec_wanted(),
    ensures
        match step_taken(stage, part) {
            StepView::Failed(message) => handshake(stage, part + rest, sent, used)
                == Handshake::Failed(message),
            StepView::Done { reply, host, port } => handshake(stage, part + rest, sent, used)
                == (Handshake::Connected {
                sent: sent + reply,
                host,
                port,
                used: used + part.len(),
            }),
            StepView::Next { reply, stage: next } => stages_left(next) < stages_left(stage)
                ==> handshake(stage, part + rest, sent, used) == handshake(
                next,
                rest,
                sent + reply,
                used + part.len(),
            ),
        },
{
    assert((part + rest).take(part.len() as int) =~= part);
    assert((part + rest).skip(part.len() as int) =~= rest);
}

/// The stage that follows the request for a destination.
pub open spec fn address_stage(destination: Destination) -> Socks5Stage {
    match destination {
        Destination::Ipv4(_) => Socks5Stage::Ipv4,
        Destination::Domain(_) => Socks5Stage::DomainLength,
        Destination::Ipv6(_) => Socks5Stage::Ipv6,
    }
}

/// The handshake up to the destination's address.
proof fn lemma_up_to_address(
    methods: Seq<u8>,
    reserved: u8,
    destination: Destination,
    behind: Seq<u8>,
)
    requires
        methods.len() <= 255,
        destination.wf(),
    ensures
        handshake(
            Socks5Stage::Greeting,
            seq![5u8, methods.len() as u8] + methods + seq![5u8, 1u8, reserved]
                + destination.bytes() + behind,
            Seq::empty(),
            0,
        ) == handshake(
            address_stage(destination),
            destination.bytes().skip(1) + behind,
            no_authentication(),
            methods.len() + 6,
        ),
{
    let greeting = seq![5u8, methods.len() as u8];
    let none = Seq::<u8>::empty();
    let agreed = none + none + no_authentication();
    let header = seq![5u8, 1u8, reserved] + seq![destination.bytes()[0]];
    let address = destination.bytes().skip(1);
    let after_methods = header + (address + behind);
    assert(greeting + methods + seq![5u8, 1u8, reserved] + destination.bytes() + behind
        =~= greeting + (methods + after_methods));
    lemma_stage(Socks5Stage::Greeting, greeting, methods + after_methods, none, 0);
    lemma_stage(
        Socks5Stage::Methods(methods.len() as u8),
        methods,
        after_methods,
        none + none,
        2,
    );
    lemma_stage(
        Socks5Stage::Request,
        header,
        address + behind,
        agreed,
        2 + methods.len(),
    );
    assert(agreed + none =~= no_authentication());
}

proof fn lemma_from_ipv4(
    a: Seq<u8>,
    port: Seq<u8>,
    rest: Seq<u8>,
    sent: Seq<u8>,
    used: nat,
)
    requires
        a.len() == 4,
        port.len() == 2,
    ensures
        handshake(
            address_stage(Destination::Ipv4(a)),
            Destination::Ipv4(a).bytes().skip(1) + (port + rest),
            sent,
            used,
        ) == (Handshake::Connected {
            sent: sent + success(),
            host: Destination::Ipv4(a).host(),
            port: big_endian(port[0], port[1]),
            used: used + Destination::Ipv4(a).bytes().len() + 1,
        }),
{
    let address = Destination::Ipv4(a).bytes().skip(1);
    let part = a + port;
    assert(address =~= a);
    assert(address + (port + rest) =~= part + rest);
    assert(part.take(4) =~= a);
    lemma_stage(Socks5Stage::Ipv4, part, rest, sent, used);
}

proof fn lemma_from_ipv6(
    a: Seq<u8>,
    port: Seq<u8>,
    rest: Seq<u8>,
    sent: Seq<u8>,
    used: nat,
)
    requires
        a.len() == 16,
        port.len() == 2,
    ensures
        handshake(
            address_stage(Destination::Ipv6(a)),
            Destination::Ipv6(a).bytes().skip(1) + (port + rest),
            sent,
            used,
        ) == (Handshake::Connected {
            sent: sent + success(),
            host: Destination::Ipv6(a).host(),
            port: big_endian(port[0], port[1]),
            used: used + Destination::Ipv6(a).bytes().len() + 1,
        }),
{
    let address = Destination::Ipv6(a).bytes().skip(1);
    let part = a + port;
    assert(address =~= a);
    assert(address + (port + rest) =~= part + rest);
    assert(part.take(16) =~= a);
    lemma_stage(Socks5Stage::Ipv6, part, rest, sent, used);
}

proof fn lemma_from_domain(
    name: Seq<u8>,
    port: Seq<u8>,
    rest: Seq<u8>,
    sent: Seq<u8>,
    used: nat,
)
    requires
        Destination::Domain(name).wf(),
        port.len() == 2,
    ensures
        handshake(
            address_stage(Destination::Domain(name)),
            Destination::Domain(name).bytes().skip(1) + (port + rest),
            sent,
            used,
        ) == (Handshake::Connected {
            sent: sent + success(),
            host: Destination::Domain(name).host(),
            port: big_endian(port[0], port[1]),
            used: used + Destination::Domain(name).bytes().len() + 1,
        }),
{
    let address = Destination::Domain(name).bytes().skip(1);
    let len = seq![name.len() as u8];
    let none = Seq::<u8>::empty();
    let part = name + port;
    assert(address =~= len + name);
    assert(address + (port + rest) =~= len + (part + rest));
    lemma_stage(Socks5Stage::DomainLength, len, part + rest, sent, used);
    assert(sent + none =~= sent);
    assert(part.take(name.len() as int) =~= name);
    lemma_stage(Socks5Stage::Domain(name.len() as u8), part, rest, sent, used + 1);
}

/// The handshake from the destination's address on.
proof fn lemma_from_address(
    destination: Destination,
    port: Seq<u8>,
    rest: Seq<u8>,
    sent: Seq<u8>,
    used: nat,
)
    requires
        destination.wf(),
        port.len() == 2,
    ensures
        handshake(
            address_stage(destination),
            destination.bytes().skip(1) + (port + rest),
            sent,
            used,
        ) == (Handshake::Connected {
            sent: sent + success(),
            host: destination.host(),
            port: big_endian(port[0], port[1]),
            used: used + destination.bytes().len() + 1,
        }),
{
    match destination {
        Destination::Ipv4(a) => lemma_from_ipv4(a, port, rest, sent, used),
        Destination::Domain(name) => lemma_from_domain(name, port, rest, sent, used),
        Destination::Ipv6(a) => lemma_from_ipv6(a, port, rest, sent, used),
    }
}

/// A client that offers any methods and asks for a connection is told that no
/// authentication is needed and that it is connected, and the connection goes
/// to the host and port that it named. Exactly the bytes of the handshake are
/// taken; what the client sends behind them is left for the connection.
pub proof fn connect_request_is_understood(
    methods: Seq<u8>,
    reserved: u8,
    destination: Destination,
    port_high: u8,
    port_low: u8,
    rest: Seq<u8>,
)
    requires
        methods.len() <= 255,
        destination.wf(),
    ensures
        handshake(
            Socks5Stage::Greeting,
            client_stream(methods, reserved, destination, port_high, port_low) + rest,
            Seq::empty(),
            0,
        ) == (Handshake::Connected {
            sent: no_authentication() + success(),
            host: destination.host(),
            port: big_endian(port_high, port_low),
            used: client_stream(methods, reserved, destination, port_high, port_low).len(),
        }),
{
    let port = seq![port_high, port_low];
    lemma_up_to_address(methods, reserved, destination, port + rest);
    lemma_from_address(destination, port, rest, no_authentication(), methods.len() + 6);
    assert(client_stream(methods, reserved, destination, port_high, port_low) + rest =~= seq![
        5u8,
        methods.len() as u8,
    ] + methods + seq![5u8, 1u8, reserved] + destination.bytes() + (port + rest));
}

/// Every step either ends the handshake or leaves fewer stages to go.
pub proof fn handshake_ends(stage: Socks5Stage, bytes: Seq<u8>)
    ensures
        step_taken(stage, bytes) matches StepView::Next { stage: next, .. } ==> stages_left(next)
            < stages_left(stage),
{
}

/// A port is two bytes, of which the first counts 256 times as much as the second.
pub proof fn ports_have_the_high_byte_first(high: u8, low: u8)
    ensures
        big_endian(high, low) as int == 256 * high + low,
{
}

/// An IPv4 address is written as its four bytes in decimal, with dots between
/// them.
pub proof fn ipv4_addresses_are_dotted(a: u8, b: u8, c: u8, d: u8)
    ensures
        ipv4_text(seq![a, b, c, d]) == decimal(a as nat) + seq!['.'] + decimal(b as nat) + seq!['.']
            + decimal(c as nat) + seq!['.'] + decimal(d as nat),
{
    reveal_strlit(".");
    assert("."@ =~= seq!['.']);
    assert(ipv4_text(seq![a, b, c, d]) =~= decimal(a as nat) + seq!['.'] + decimal(b as nat)
        + seq!['.'] + decimal(c as nat) + seq!['.'] + decimal(d as nat));
}

proof fn lemma_zero_run_is_maximal(g: Seq<u16>, i: int, n: int)
    requires
        0 <= i,
        0 <= n,
        i + n <= g.len(),
        forall|j: int| i <= j < i + n ==> #[trigger] g[j] == 0,
        i + n < g.len() ==> g[i + n] != 0,
    ensures
        zero_run(g, i) == n,
    decreases n,
{
    if n > 0 {
        assert(g[i] == 0);
        lemma_zero_run_is_maximal(g, i + 1, n - 1);
    }
}

proof fn lemma_zero_run_is_zero(g: Seq<u16>, i: int)
    requires
        0 <= i <= g.len(),
    ensures
        i + zero_run(g, i) <= g.len(),
        forall|j: int| i <= j < i + zero_run(g, i) ==> #[trigger] g[j] == 0,
    decreases g.len() - i,
{
    if i < g.len() && g[i] == 0 {
        lemma_zero_run_is_zero(g, i + 1);
    }
}

proof fn lemma_longest_run_is_longest(g: Seq<u16>, i: int)
    requires
        0 <= i <= g.len(),
    ensures
        i <= longest_run(g, i) <= g.len(),
        forall|j: int|
            i <= j <= g.len() ==> #[trigger] zero_run(g, j) <= zero_run(g, longest_run(g, i)),
        forall|j: int|
            i <= j < longest_run(g, i) ==> #[trigger] zero_run(g, j) < zero_run(
                g,
                longest_run(g, i),
            ),
    decreases g.len() - i,
{
    if i < g.len() {
        lemma_longest_run_is_longest(g, i + 1);
    }
}

/// An IPv6 address is written as its eight groups in hexadecimal, with colons
/// between them. The longest row of two or more zero groups is left out, the
/// first of them where several are longest, and two colons stand for it.
pub proof fn ipv6_addresses_leave_out_zeros(a: Seq<u8>, from: int, n: int)
    requires
        a.len() == 16,
        !(a.take(10) == seq![0u8, 0, 0, 0, 0, 0, 0, 0, 0, 0] && a[10] == 0xff && a[11] == 0xff),
        0 <= from && 0 <= n && from + n <= 8,
        forall|i: int| 2 * from <= i < 2 * (from + n) ==> #[trigger] a[i] == 0,
        from + n < 8 ==> a[2 * (from + n)] != 0 || a[2 * (from + n) + 1] != 0,
        forall|t: int, m: int|
            #![trigger a.subrange(t, m)]
            0 <= t && t < m && m <= 8 && (forall|i: int|
                2 * t <= i < 2 * m ==> #[trigger] a[i] == 0) ==> m - t <= n && (t < from ==> m - t
                < n),
    ensures
        ({
            let g = Seq::new(8, |i: int| (256 * a[2 * i] + a[2 * i + 1]) as u16);
            let written = |s: Seq<u16>|
                joined(Seq::new(s.len(), |i: int| hexadecimal(s[i] as nat)), seq![':']);
            &&& n >= 2 ==> ipv6_text(a) == written(g.take(from)) + seq![':', ':'] + written(
                g.skip(from + n),
            )
            &&& n < 2 ==> ipv6_text(a) == written(g)
        }),
{
    reveal_strlit(":");
    reveal_strlit("::");
    assert(":"@ =~= seq![':']);
    assert("::"@ =~= seq![':', ':']);
    let g = groups(a);
    let h = Seq::new(8, |i: int| (256 * a[2 * i] + a[2 * i + 1]) as u16);
    assert(g =~= h);
    assert forall|i: int| 0 <= i < 8 implies (#[trigger] g[i] == 0 <==> a[2 * i] == 0 && a[2 * i
        + 1] == 0) by {}
    assert(!ipv4_mapped(g)) by {
        if ipv4_mapped(g) {
            assert(a[0] == 0 && a[1] == 0);
            assert(a[2] == 0 && a[3] == 0);
            assert(a[4] == 0 && a[5] == 0);
            assert(a[6] == 0 && a[7] == 0);
            assert(a[8] == 0 && a[9] == 0);
            assert(a.take(10) =~= seq![0u8, 0, 0, 0, 0, 0, 0, 0, 0, 0]);
            assert(g[5] == big_endian(a[10], a[11]));
        }
    }
    assert forall|j: int| from <= j < from + n implies #[trigger] g[j] == 0 by {
        assert(a[2 * j] == 0 && a[2 * j + 1] == 0);
    }
    if from + n < 8 {
        assert(g[from + n] != 0);
    }
    lemma_zero_run_is_maximal(g, from, n);
    lemma_longest_run_is_longest(g, 0);
    let start = longest_run(g, 0);
    let len = zero_run(g, start) as int;
    lemma_zero_run_is_zero(g, start);
    assert forall|i: int| 2 * start <= i < 2 * (start + len) implies #[trigger] a[i] == 0 by {
        let j = i / 2;
        assert(start <= j < start + len);
        assert(g[j] == 0);
        assert(i == 2 * j || i == 2 * j + 1);
    }
    assert(len >= n) by {
        assert(zero_run(g, from) <= zero_run(g, start));
    }
    if len > 0 {
        let whole = a.subrange(start, start + len);
        assert(len <= n && (start < from ==> len < n));
    }
    assert(len == n);
    if n > 0 {
        assert(start >= from);
        assert(start <= from) by {
            if from < start {
                assert(zero_run(g, from) < zero_run(g, start));
            }
        }
    }
    let written = |s: Seq<u16>| joined(Seq::new(s.len(), |i: int| hexadecimal(s[i] as nat)), seq![':']);
    assert forall|s: Seq<u16>| #[trigger] colon_text(s) == written(s) by {
        assert(group_texts(s) =~= Seq::new(s.len(), |i: int| hexadecimal(s[i] as nat)));
    }
    assert(colon_text(g.take(from)) == written(h.take(from)));
    assert(colon_text(g.skip(from + n)) == written(h.skip(from + n)));
    assert(colon_text(g) == written(h));
}

/// An IPv4 address in the IPv6 space is written in its own notation.
pub proof fn mapped_addresses_show_their_ipv4(a: Seq<u8>)
    requires
        a.len() == 16,
        forall|i: int| 0 <= i < 10 ==> #[trigger] a[i] == 0,
        a[10] == 0xff,
        a[11] == 0xff,
    ensures
        ipv6_text(a) == "::ffff:"@ + ipv4_text(seq![a[12], a[13], a[14], a[15]]),
{
    let g = groups(a);
    assert(g[0] == big_endian(a[0], a[1]));
    assert(g[1] == big_endian(a[2], a[3]));
    assert(g[2] == big_endian(a[4], a[5]));
    assert(g[3] == big_endian(a[6], a[7]));
    assert(g[4] == big_endian(a[8], a[9]));
    assert(g[5] == big_endian(a[10], a[11]));
    assert(a.subrange(12, 16) =~= seq![a[12], a[13], a[14], a[15]]);
}

/// What is not understood is refused: another version, another command than
/// CONNECT, another type of address than IPv4, a name or IPv6.
pub proof fn other_requests_are_refused(bytes: Seq<u8>)
    ensures
        bytes.len() == 2 ==> (step_taken(Socks5Stage::Greeting, bytes) is Failed <==> bytes[0] != 5),
        bytes.len() == 4 ==> (step_taken(Socks5Stage::Request, bytes) is Failed <==> bytes[0] != 5
            || bytes[1] != 1 || (bytes[3] != 1 && bytes[3] != 3 && bytes[3] != 4)),
{
}

} // verus!
