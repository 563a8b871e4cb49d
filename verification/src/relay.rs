//! Sharing one UDP socket between a direct connection and a relay.
//!
//! STUN, DTLS, RTP and TURN channel data arrive on the same socket and are told apart by their
//! first byte.

use crate::addr::SocketAddr;
use crate::bytes;
use crate::time::Duration;
use vstd::prelude::*;
use vstd::slice::slice_subrange;

pub mod stun;
pub mod turn;

verus! {

/// What a datagram is, by its first byte.
#[derive(Clone, Copy, Debug, PartialEq, Eq, Structural)]
pub enum PacketKind {
    /// 0 to 3.
    Stun,
    /// 20 to 63.
    Dtls,
    /// 64 to 79.
    TurnChannel,
    /// 128 to 191.
    Rtp,
    /// Anything else, and the empty datagram.
    Unknown,
}

pub open spec fn kind_of(packet: Seq<u8>) -> PacketKind {
    if packet.len() == 0 {
        PacketKind::Unknown
    } else if packet[0] <= 3 {
        PacketKind::Stun
    } else if 20 <= packet[0] <= 63 {
        PacketKind::Dtls
    } else if 64 <= packet[0] <= 79 {
        PacketKind::TurnChannel
    } else if 128 <= packet[0] <= 191 {
        PacketKind::Rtp
    } else {
        PacketKind::Unknown
    }
}

/// Tells a datagram's kind by its first byte.
pub fn classify(packet: &[u8]) -> (k: PacketKind)
    ensures
        k == kind_of(packet@),
{
    if packet.len() == 0 {
        return PacketKind::Unknown;
    }
    let b: u8 = packet[0];
    if b <= 3 {
        PacketKind::Stun
    } else if 20 <= b && b <= 63 {
        PacketKind::Dtls
    } else if 64 <= b && b <= 79 {
        PacketKind::TurnChannel
    } else if 128 <= b && b <= 191 {
        PacketKind::Rtp
    } else {
        PacketKind::Unknown
    }
}

/// How many zero bytes make `n` a multiple of four.
pub open spec fn padding(n: nat) -> nat {
    ((4 - n % 4) % 4) as nat
}

/// TURN channel data: the channel, the length of the data modulo 2^16, the data, and zero bytes
/// up to a multiple of four.
pub open spec fn channel_data(channel: u16, data: Seq<u8>) -> Seq<u8> {
    bytes::be_bytes(channel as nat, 2) + bytes::be_bytes(data.len() % 0x1_0000, 2) + data
        + Seq::new(padding(data.len()), |i: int| 0u8)
}

/// Wraps data for a TURN channel.
pub fn wrap_channel_data(channel: u16, data: &[u8]) -> (out: Vec<u8>)
    ensures
        out@ == channel_data(channel, data@),
{
    let mut out: Vec<u8> = Vec::new();
    bytes::push_be16(&mut out, channel);
    bytes::push_be16(&mut out, (data.len() % 0x1_0000) as u16);
    bytes::append_slice(&mut out, data);
    let pad: usize = (4 - data.len() % 4) % 4;
    let mut i: usize = 0;
    let ghost body = out@;
    while i < pad
        invariant
            i <= pad,
            out@ == body + Seq::new(i as nat, |k: int| 0u8),
        decreases pad - i,
    {
        out.push(0);
        i += 1;
        proof {
            assert(out@ =~= body + Seq::new(i as nat, |k: int| 0u8));
        }
    }
    proof {
        assert(out@ =~= channel_data(channel, data@));
    }
    out
}

/// What channel data holds; nothing when it is too short, or its channel is outside 0x4000 to
/// 0x7FFF.
pub open spec fn unwrapped(packet: Seq<u8>) -> Option<(u16, Seq<u8>)> {
    if packet.len() < 4 {
        None
    } else {
        let channel = bytes::be_value(packet.subrange(0, 2)) as u16;
        let len = bytes::be_value(packet.subrange(2, 4));
        if 0x4000 <= channel <= 0x7FFF && 4 + len <= packet.len() {
            Some((channel, packet.subrange(4, (4 + len) as int)))
        } else {
            None
        }
    }
}

/// Unwraps channel data.
pub fn unwrap_channel_data(packet: &[u8]) -> (r: Option<(u16, &[u8])>)
    ensures
        match r {
            Some((channel, data)) => unwrapped(packet@) == Some((channel, data@)),
            None => unwrapped(packet@) is None,
        },
{
    if packet.len() < 4 {
        return None;
    }
    let channel: u16 = bytes::read_be16(packet, 0);
    if channel < 0x4000 || channel > 0x7FFF {
        return None;
    }
    let len: usize = bytes::read_be16(packet, 2) as usize;
    if packet.len() - 4 < len {
        return None;
    }
    Some((channel, slice_subrange(packet, 4, 4 + len)))
}

/// Channel data of a valid channel with at most 65535 bytes unwraps to what was wrapped, is a
/// multiple of four bytes long, and is told apart as channel data.
pub proof fn law_channel_data_roundtrip(channel: u16, data: Seq<u8>)
    requires
        0x4000 <= channel <= 0x7FFF,
        data.len() < 0x1_0000,
    ensures
        unwrapped(channel_data(channel, data)) == Some((channel, data)),
        channel_data(channel, data).len() % 4 == 0,
        channel < 0x5000 ==> kind_of(channel_data(channel, data)) == PacketKind::TurnChannel,
{
    let p = channel_data(channel, data);
    bytes::lemma_pow256();
    bytes::lemma_be_roundtrip(channel as nat, 2);
    bytes::lemma_be_roundtrip(data.len(), 2);
    assert(p.subrange(0, 2) =~= bytes::be_bytes(channel as nat, 2));
    assert(p.subrange(2, 4) =~= bytes::be_bytes(data.len(), 2));
    assert(p.subrange(4, (4 + data.len()) as int) =~= data);
    reveal_with_fuel(bytes::be_bytes, 3);
    assert(p[0] == bytes::be_bytes(channel as nat, 2)[0]);
    assert(p[0] as nat == channel as nat / 256);
}

/// The relay that a session uses: the server, and the own address there. Without them only the
/// direct path is used.
#[derive(Clone, Copy, Debug, PartialEq, Eq, Structural)]
pub struct Relay {
    pub turn_server: Option<SocketAddr>,
    pub my_relayed: Option<SocketAddr>,
}

impl Default for Relay {
    /// The direct path alone.
    fn default() -> (r: Relay)
        ensures
            r == (Relay { turn_server: None, my_relayed: None }),
    {
        Relay { turn_server: None, my_relayed: None }
    }
}

/// How a datagram goes out.
#[derive(Clone, Copy, Debug, PartialEq, Eq, Structural)]
pub enum Route {
    /// As it is, to its destination.
    Direct(SocketAddr),
    /// Wrapped for `peer`, to the relay server.
    ViaRelay { server: SocketAddr, peer: SocketAddr },
}

/// How a datagram from `source` to `destination` goes out: through the relay when it is sent from
/// the own relayed address.
pub open spec fn route_of(relay: Relay, source: SocketAddr, destination: SocketAddr) -> Route {
    match (relay.turn_server, relay.my_relayed) {
        (Some(server), Some(mine)) => if source == mine {
            Route::ViaRelay { server, peer: destination }
        } else {
            Route::Direct(destination)
        },
        _ => Route::Direct(destination),
    }
}

pub fn route_transmit(relay: &Relay, source: SocketAddr, destination: SocketAddr) -> (r: Route)
    ensures
        r == route_of(*relay, source, destination),
{
    match (relay.turn_server, relay.my_relayed) {
        (Some(server), Some(mine)) => if source == mine {
            Route::ViaRelay { server, peer: destination }
        } else {
            Route::Direct(destination)
        },
        _ => Route::Direct(destination),
    }
}

/// Where a received datagram came from.
#[derive(Clone, Copy, Debug, PartialEq, Eq, Structural)]
pub enum Origin {
    /// From the relay server; what it carries was sent to the own relayed address.
    Server { relayed: SocketAddr },
    /// From a peer.
    Peer,
}

pub open spec fn origin_of(relay: Relay, source: SocketAddr) -> Origin {
    match (relay.turn_server, relay.my_relayed) {
        (Some(server), Some(relayed)) => if source == server {
            Origin::Server { relayed }
        } else {
            Origin::Peer
        },
        _ => Origin::Peer,
    }
}

pub fn origin(relay: &Relay, source: SocketAddr) -> (o: Origin)
    ensures
        o == origin_of(*relay, source),
{
    match (relay.turn_server, relay.my_relayed) {
        (Some(server), Some(relayed)) => if source == server {
            Origin::Server { relayed }
        } else {
            Origin::Peer
        },
        _ => Origin::Peer,
    }
}

/// How long to wait between two refreshes of an allocation that lives for `lifetime` seconds:
/// half of it, and at least a minute.
pub fn refresh_interval(lifetime: u32) -> (d: Duration)
    ensures
        d.ns() == (if lifetime / 2 < 60 { 60 } else { lifetime as int / 2 }) * 1_000_000_000,
{
    let half: u32 = lifetime / 2;
    Duration::from_secs(if half < 60 { 60 } else { half as u64 })
}

/// When an allocation is due for a refresh.
#[derive(Clone, Copy, Debug)]
pub struct RefreshClock {
    /// The interval; none without a relay.
    pub every: Option<Duration>,
    pub last: Duration,
}

impl RefreshClock {
    pub open spec fn is_due(&self, now: int) -> bool {
        self.every matches Some(d) && crate::time::elapsed(now, self.last.ns()) >= d.ns()
    }

    /// A clock for an allocation with this lifetime in seconds, or for none.
    pub fn new(lifetime: Option<u32>, now: Duration) -> (c: RefreshClock)
        ensures
            c.last == now,
            match lifetime {
                Some(l) => c.every matches Some(d) && d.ns() == (if l / 2 < 60 {
                    60
                } else {
                    l as int / 2
                }) * 1_000_000_000,
                None => c.every is None,
            },
    {
        match lifetime {
            Some(l) => RefreshClock { every: Some(refresh_interval(l)), last: now },
            None => RefreshClock { every: None, last: now },
        }
    }

    /// Whether a refresh is due; if so, the next one is counted from now.
    pub fn tick(&mut self, now: Duration) -> (due: bool)
        ensures
            due == old(self).is_due(now.ns()),
            final(self).every == old(self).every,
            final(self).last == (if due { now } else { old(self).last }),
    {
        match self.every {
            Some(d) => {
                if now.since(self.last).at_least(d) {
                    self.last = now;
                    true
                } else {
                    false
                }
            },
            None => false,
        }
    }
}

/// What the transport reports.
#[derive(Debug)]
pub enum LinkOutput {
    /// Nothing more for now.
    Idle,
    /// A datagram to send.
    Transmit { source: SocketAddr, destination: SocketAddr, contents: Vec<u8> },
    /// The session's channel is open.
    ChannelOpen,
    /// A message on the session's channel.
    ChannelData(Vec<u8>),
    /// The peer is gone.
    Disconnected,
    /// Anything else.
    Other,
    /// The transport is closed or broken.
    Failed,
}

/// What to do about it.
#[derive(Debug)]
pub enum LinkStep {
    /// The transport has nothing more; the link is up.
    Drained,
    /// The link is lost.
    Lost,
    /// Send a datagram, then go on.
    Send { route: Route, contents: Vec<u8> },
    /// Go on.
    Continue,
}

/// The part of a link that the transport's reports change: whether the channel is open, and the
/// messages that have come and were not yet taken.
#[derive(Debug)]
pub struct Link {
    pub relay: Relay,
    pub open: bool,
    pub inbox: Vec<Vec<u8>>,
}

impl Link {
    pub fn new(relay: Relay) -> (l: Link)
        ensures
            l.relay == relay,
            !l.open,
            l.inbox@.len() == 0,
    {
        Link { relay, open: false, inbox: Vec::new() }
    }

    /// Takes in one report of the transport.
    pub fn on_output(&mut self, out: LinkOutput) -> (step: LinkStep)
        ensures
            final(self).relay == old(self).relay,
            final(self).open == (old(self).open || out is ChannelOpen),
            final(self).inbox@ == (match out {
                LinkOutput::ChannelData(data) => old(self).inbox@.push(data),
                _ => old(self).inbox@,
            }),
            match out {
                LinkOutput::Idle => step is Drained,
                LinkOutput::Transmit { source, destination, contents } => {
                    step == (LinkStep::Send {
                        route: route_of(old(self).relay, source, destination),
                        contents,
                    })
                },
                LinkOutput::Disconnected => step is Lost,
                LinkOutput::Failed => step is Lost,
                _ => step is Continue,
            },
    {
        match out {
            LinkOutput::Idle => LinkStep::Drained,
            LinkOutput::Transmit { source, destination, contents } => LinkStep::Send {
                route: route_transmit(&self.relay, source, destination),
                contents,
            },
            LinkOutput::ChannelOpen => {
                self.open = true;
                LinkStep::Continue
            },
            LinkOutput::ChannelData(data) => {
                self.inbox.push(data);
                LinkStep::Continue
            },
            LinkOutput::Disconnected => LinkStep::Lost,
            LinkOutput::Failed => LinkStep::Lost,
            LinkOutput::Other => LinkStep::Continue,
        }
    }

    /// Takes all messages that have come, in order.
    pub fn take_inbox(&mut self) -> (msgs: Vec<Vec<u8>>)
        ensures
            msgs@ == old(self).inbox@,
            final(self).inbox@.len() == 0,
            final(self).relay == old(self).relay,
            final(self).open == old(self).open,
    {
        let mut msgs: Vec<Vec<u8>> = Vec::new();
        std::mem::swap(&mut msgs, &mut self.inbox);
        msgs
    }
}

/// Packets on one socket are told apart by their first byte, and what was wrapped for a channel is
/// told apart as channel data and unwraps to what was wrapped.
pub proof fn law_packets_are_told_apart(
    packet: &[u8],
    k: PacketKind,
    channel: u16,
    data: &[u8],
    wrapped: Vec<u8>,
    w: &[u8],
    kind: PacketKind,
    r: Option<(u16, &[u8])>,
)
    requires
        call_ensures(classify, (packet,), k),
        0x4000 <= channel < 0x5000,
        data@.len() < 0x1_0000,
        call_ensures(wrap_channel_data, (channel, data), wrapped),
        w@ == wrapped@,
        call_ensures(classify, (w,), kind),
        call_ensures(unwrap_channel_data, (w,), r),
    ensures
        packet@.len() == 0 ==> k == PacketKind::Unknown,
        packet@.len() > 0 ==> {
            let b = packet@[0];
            &&& k == PacketKind::Stun <==> b <= 3
            &&& k == PacketKind::Dtls <==> 20 <= b <= 63
            &&& k == PacketKind::TurnChannel <==> 64 <= b <= 79
            &&& k == PacketKind::Rtp <==> 128 <= b <= 191
        },
        kind == PacketKind::TurnChannel,
        r matches Some((c, d)) && c == channel && d@ == data@,
{
    law_channel_data_roundtrip(channel, data@);
}

/// What goes through the relay comes back through it: a datagram that was sent from the own relayed
/// address goes to the server, for the peer that it is meant for, and what comes from the server
/// was sent to that address. Everything else goes directly. Without a relay everything does.
pub proof fn law_relay_is_used_both_ways(
    relay: &Relay,
    source: SocketAddr,
    destination: SocketAddr,
    route: Route,
    from: SocketAddr,
    o: Origin,
)
    requires
        call_ensures(route_transmit, (relay, source, destination), route),
        call_ensures(origin, (relay, from), o),
    ensures
        ({
            let used = relay.turn_server is Some && relay.my_relayed is Some;
            &&& route is ViaRelay <==> used && relay.my_relayed == Some(source)
            &&& route matches Route::ViaRelay { server, peer } ==> relay.turn_server == Some(server) && peer
                == destination
            &&& route matches Route::Direct(to) ==> to == destination
            &&& o is Server <==> used && relay.turn_server == Some(from)
            &&& o matches Origin::Server { relayed } ==> relay.my_relayed == Some(relayed)
        }),
{
}

/// An allocation is refreshed when half of its lifetime is over, though not more than once a
/// minute, and then again after as long. Without a relay nothing is refreshed.
pub proof fn law_allocation_is_refreshed(
    lifetime: u32,
    now: Duration,
    c: RefreshClock,
    s: &mut RefreshClock,
    at: Duration,
    due: bool,
    none: RefreshClock,
    t: &mut RefreshClock,
    never: bool,
)
    requires
        call_ensures(RefreshClock::new, (Some(lifetime), now), c),
        *old(s) == c,
        call_ensures(RefreshClock::tick, (s, at), due),
        call_ensures(RefreshClock::new, (None, now), none),
        *old(t) == none,
        call_ensures(RefreshClock::tick, (t, at), never),
    ensures
        due <==> at.ns() - now.ns() >= 60_000_000_000 && at.ns() - now.ns() >= (lifetime as int / 2)
            * 1_000_000_000,
        due ==> final(s).last == at,
        !due ==> *final(s) == *old(s),
        final(s).every == old(s).every,
        !never,
{
}

/// What the transport reports is done: datagrams are sent as they are, on their route; messages are
/// kept in order until they are taken, all at once; the channel, once open, stays open; the link is
/// lost when the peer is gone or the transport broken, and only then.
pub proof fn law_link(
    relay: Relay,
    fresh: Link,
    l: &mut Link,
    out: LinkOutput,
    step: LinkStep,
    m: &mut Link,
    msgs: Vec<Vec<u8>>,
    r: Route,
)
    requires
        call_ensures(Link::new, (relay,), fresh),
        call_ensures(Link::on_output, (l, out), step),
        out matches LinkOutput::Transmit { source, destination, .. } ==> call_ensures(
            route_transmit,
            (&old(l).relay, source, destination),
            r,
        ),
        *old(m) == *final(l),
        call_ensures(Link::take_inbox, (m,), msgs),
    ensures
        !fresh.open && fresh.inbox@.len() == 0 && fresh.relay == relay,
        step is Lost <==> out is Disconnected || out is Failed,
        step is Drained <==> out is Idle,
        step is Send <==> out is Transmit,
        out matches LinkOutput::Transmit { contents, .. } ==> step matches LinkStep::Send {
            contents: c,
            route,
        } && c == contents && route == r,
        old(l).open || out is ChannelOpen <==> final(l).open,
        out matches LinkOutput::ChannelData(d) ==> msgs@ == old(l).inbox@.push(d),
        !(out is ChannelData) ==> msgs@ == old(l).inbox@,
        final(m).inbox@.len() == 0,
        final(m).open == final(l).open,
{
}

/// Channel data has its parts in their places: the channel and the length of the data, each with
/// the more significant byte first, the data, and zeros up to a multiple of four.
pub proof fn law_channel_data_layout(channel: u16, data: &[u8], out: Vec<u8>, i: int)
    requires
        data@.len() < 0x1_0000,
        call_ensures(wrap_channel_data, (channel, data), out),
        4 + data@.len() <= i < out@.len(),
    ensures
        out@.len() % 4 == 0 && out@.len() < 4 + data@.len() + 4,
        out@[0] == channel / 256 && out@[1] == channel % 256,
        out@[2] == data@.len() / 256 && out@[3] == data@.len() % 256,
        out@.subrange(4, (4 + data@.len()) as int) == data@,
        out@[i] == 0,
{
    reveal_with_fuel(bytes::be_bytes, 3);
    let (a, b) = (bytes::be_bytes(channel as nat, 2), bytes::be_bytes(data@.len(), 2));
    assert(out@[0] == a[0] && out@[1] == a[1] && out@[2] == b[0] && out@[3] == b[1]);
    assert(out@.subrange(4, (4 + data@.len()) as int) =~= data@);
}

/// A refresh comes at half of the lifetime, and never sooner than after a minute.
pub proof fn law_refresh_interval(lifetime: u32, d: Duration)
    requires
        call_ensures(refresh_interval, (lifetime,), d),
    ensures
        d.nanos >= 60_000_000_000,
        lifetime >= 120 ==> d.nanos == (lifetime / 2) * 1_000_000_000,
        lifetime < 120 ==> d.nanos == 60_000_000_000,
{
}

} // verus!
