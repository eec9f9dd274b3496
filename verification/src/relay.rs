//! The relay from a TCP byte stream to WebSocket frames: finding the receiver, and forwarding.
use vstd::prelude::*;

use crate::text::{decimal, holds_at, push_decimal, starts_with};

verus! {

/// An address of a service.
#[derive(Debug, Clone, Copy, PartialEq, Eq, Structural)]
pub enum Address {
    V4 { a: u8, b: u8, c: u8, d: u8 },
    /// Any other, which is of no use here.
    Other,
}

impl Address {
    /// The address in dotted decimal.
    pub open spec fn dotted(self) -> Seq<char> {
        match self {
            Address::V4 { a, b, c, d } => decimal(a as nat) + "."@ + decimal(b as nat) + "."@
                + decimal(c as nat) + "."@ + decimal(d as nat),
            Address::Other => Seq::empty(),
        }
    }
}

/// The URL of the receiver at an address.
pub open spec fn receiver_url(address: Address, port: u16) -> Seq<char> {
    "ws://"@ + address.dotted() + ":"@ + decimal(port as nat)
}

/// What a resolved service turned out to be.
#[derive(Debug)]
pub enum Resolved {
    /// Not the receiver.
    Another,
    /// The receiver, but without an address of use.
    NoIpv4,
    /// The receiver, at this URL.
    Found(String),
}

/// The first IPv4 address among some, from one of them on.
pub open spec fn first_v4(addresses: Seq<Address>, from: int) -> Option<Address>
    decreases addresses.len() - from,
{
    if from < 0 || from >= addresses.len() {
        None
    } else if addresses[from] is V4 {
        Some(addresses[from])
    } else {
        first_v4(addresses, from + 1)
    }
}

/// Looks at a service that was resolved, with its addresses in the order in which they are to be
/// tried. The receiver's name starts with `instance`.
pub fn resolve(instance: &str, fullname: &str, addresses: &Vec<Address>, port: u16) -> (resolved:
    Resolved)
    ensures
        if !holds_at(fullname@, instance@, 0) {
            resolved is Another
        } else {
            match first_v4(addresses@, 0) {
                None => resolved is NoIpv4,
                Some(address) => resolved matches Resolved::Found(url) && url@ == receiver_url(
                    address,
                    port,
                ),
            }
        },
{
    if !starts_with(fullname, instance) {
        return Resolved::Another;
    }
    let mut i: usize = 0;
    while i < addresses.len()
        invariant
            i <= addresses@.len(),
            first_v4(addresses@, 0) == first_v4(addresses@, i as int),
            holds_at(fullname@, instance@, 0),
        decreases addresses.len() - i,
    {
        match addresses[i] {
            Address::V4 { a, b, c, d } => {
                let mut url = "ws://".to_owned();
                push_decimal(&mut url, a as u128);
                url.append(".");
                push_decimal(&mut url, b as u128);
                url.append(".");
                push_decimal(&mut url, c as u128);
                url.append(".");
                push_decimal(&mut url, d as u128);
                url.append(":");
                push_decimal(&mut url, port as u128);
                assert(url@ =~= receiver_url(addresses@[i as int], port));
                return Resolved::Found(url);
            },
            Address::Other => {},
        }
        i += 1;
    }
    Resolved::NoIpv4
}

/// What happened while waiting for the receiver to appear.
#[derive(Debug)]
pub enum DiscoveryEvent {
    /// A service was resolved.
    Resolved(Resolved),
    /// Something else was heard of, or nothing in time.
    Nothing,
    /// Nothing will ever be heard again.
    Closed,
}

/// What follows.
#[derive(Debug)]
pub enum DiscoveryStep {
    /// Wait on, for what is left of the time.
    Wait,
    /// The receiver is at this URL.
    Done(String),
    /// The time is up.
    TimedOut,
    /// Nothing will ever be heard again.
    ChannelClosed,
    /// The receiver has no address of use.
    NoIpv4,
}

/// Tells whether to wait on, with so much of the time left.
pub fn discovery_waits(remaining_ns: u128) -> (step: DiscoveryStep)
    ensures
        remaining_ns == 0 ==> step is TimedOut,
        remaining_ns > 0 ==> step is Wait,
{
    if remaining_ns == 0 {
        DiscoveryStep::TimedOut
    } else {
        DiscoveryStep::Wait
    }
}

/// Takes what happened while waiting.
pub fn discovery_heard(event: DiscoveryEvent) -> (step: DiscoveryStep)
    ensures
        step == match event {
            DiscoveryEvent::Resolved(Resolved::Another) => DiscoveryStep::Wait,
            DiscoveryEvent::Resolved(Resolved::NoIpv4) => DiscoveryStep::NoIpv4,
            DiscoveryEvent::Resolved(Resolved::Found(url)) => DiscoveryStep::Done(url),
            DiscoveryEvent::Nothing => DiscoveryStep::Wait,
            DiscoveryEvent::Closed => DiscoveryStep::ChannelClosed,
        },
{
    match event {
        DiscoveryEvent::Resolved(Resolved::Another) => DiscoveryStep::Wait,
        DiscoveryEvent::Resolved(Resolved::NoIpv4) => DiscoveryStep::NoIpv4,
        DiscoveryEvent::Resolved(Resolved::Found(url)) => DiscoveryStep::Done(url),
        DiscoveryEvent::Nothing => DiscoveryStep::Wait,
        DiscoveryEvent::Closed => DiscoveryStep::ChannelClosed,
    }
}

/// Where to listen for the sender.
pub fn listen_address(bind: &str, tcp_port: u16) -> (address: String)
    ensures
        address@ == bind@ + ":"@ + decimal(tcp_port as nat),
{
    let mut address = bind.to_owned();
    address.append(":");
    push_decimal(&mut address, tcp_port as u128);
    assert(address@ =~= bind@ + ":"@ + decimal(tcp_port as nat));
    address
}

/// The frame for what one read brought: its bytes as they are, or none at the end of the stream.
pub open spec fn frame_of(read: Seq<u8>) -> Option<Seq<u8>> {
    if read.len() == 0 {
        None
    } else {
        Some(read)
    }
}

/// Makes a frame of the first `n` bytes of a buffer, which one read has filled.
pub fn chunk(buf: &[u8], n: usize) -> (frame: Option<Vec<u8>>)
    requires
        n <= buf@.len(),
    ensures
        match (frame, frame_of(buf@.take(n as int))) {
            (Some(bytes), Some(wanted)) => bytes@ == wanted,
            (None, None) => true,
            _ => false,
        },
{
    if n == 0 {
        return None;
    }
    let mut bytes: Vec<u8> = Vec::new();
    let mut i: usize = 0;
    while i < n
        invariant
            i <= n <= buf@.len(),
            bytes@ == buf@.take(i as int),
        decreases n - i,
    {
        bytes.push(buf[i]);
        i += 1;
        assert(bytes@ =~= buf@.take(i as int));
    }
    Some(bytes)
}

/// What the forwarding side heard.
#[derive(Debug, PartialEq, Eq)]
pub enum ForwardEvent {
    /// What one read brought is there to be sent.
    Chunk(Vec<u8>),
    /// Sending it has failed.
    SendFailed,
    /// So many frames were dropped because the receiver is too slow.
    Lagged(u64),
    /// There will be no more frames.
    Closed,
}

/// What follows.
#[derive(Debug, PartialEq, Eq)]
pub enum ForwardStep {
    /// Send these bytes as one binary frame.
    Send(Vec<u8>),
    /// Warn of the frames that were dropped, and go on.
    Warn(u64),
    /// End the connection.
    Stop,
}

/// Takes what the forwarding side heard. Every chunk becomes one frame, as it is; dropped frames do
/// not end the forwarding.
pub fn forward(event: ForwardEvent) -> (step: ForwardStep)
    ensures
        step == match event {
            ForwardEvent::Chunk(bytes) => ForwardStep::Send(bytes),
            ForwardEvent::SendFailed => ForwardStep::Stop,
            ForwardEvent::Lagged(skipped) => ForwardStep::Warn(skipped),
            ForwardEvent::Closed => ForwardStep::Stop,
        },
{
    match event {
        ForwardEvent::Chunk(bytes) => ForwardStep::Send(bytes),
        ForwardEvent::SendFailed => ForwardStep::Stop,
        ForwardEvent::Lagged(skipped) => ForwardStep::Warn(skipped),
        ForwardEvent::Closed => ForwardStep::Stop,
    }
}

/// The frames for a stream that comes in so many reads.
pub open spec fn frames(reads: Seq<Seq<u8>>) -> Seq<Seq<u8>>
    decreases reads.len(),
{
    if reads.len() == 0 {
        Seq::empty()
    } else {
        match frame_of(reads.last()) {
            Some(frame) => frames(reads.drop_last()).push(frame),
            None => frames(reads.drop_last()),
        }
    }
}

/// Pieces put together.
pub open spec fn joined(pieces: Seq<Seq<u8>>) -> Seq<u8>
    decreases pieces.len(),
{
    if pieces.len() == 0 {
        Seq::empty()
    } else {
        joined(pieces.drop_last()) + pieces.last()
    }
}

/// Framing is transparent: however a stream falls into reads, its frames put together are the
/// stream, and no frame is empty.
pub proof fn law_framing_is_transparent(reads: Seq<Seq<u8>>)
    ensures
        joined(frames(reads)) == joined(reads),
        forall|i: int| 0 <= i < frames(reads).len() ==> (#[trigger] frames(reads)[i]).len() > 0,
    decreases reads.len(),
{
    if reads.len() > 0 {
        law_framing_is_transparent(reads.drop_last());
        match frame_of(reads.last()) {
            Some(frame) => {
                assert(frames(reads).drop_last() =~= frames(reads.drop_last()));
            },
            None => {
                assert(joined(reads) =~= joined(reads.drop_last()));
            },
        }
    }
}

proof fn lemma_first_v4(addresses: Seq<Address>, from: int, i: int)
    requires
        0 <= from <= i <= addresses.len(),
        forall|j: int| from <= j < i ==> (#[trigger] addresses[j]) !is V4,
        i < addresses.len() ==> addresses[i] is V4,
    ensures
        first_v4(addresses, from) == (if i < addresses.len() {
            Some(addresses[i])
        } else {
            None
        }),
    decreases i - from,
{
    if from < i {
        lemma_first_v4(addresses, from + 1, i);
    }
}

/// The receiver is the service whose name starts with that of the instance, and its URL names the
/// first of its addresses that is an IPv4 address, in dotted decimal, and its port; `i` is the place
/// of that address, or the number of addresses where there is none.
pub proof fn law_receiver_is_at_its_first_address(
    instance: &str,
    fullname: &str,
    addresses: &Vec<Address>,
    port: u16,
    resolved: Resolved,
    i: int,
)
    requires
        call_ensures(resolve, (instance, fullname, addresses, port), resolved),
        0 <= i <= addresses@.len(),
        forall|j: int| 0 <= j < i ==> #[trigger] addresses@[j] == Address::Other,
        i < addresses@.len() ==> addresses@[i] is V4,
    ensures
        ({
            let named = instance@.len() <= fullname@.len() && fullname@.take(instance@.len() as int)
                == instance@;
            &&& !named ==> resolved == Resolved::Another
            &&& named && i == addresses@.len() ==> resolved == Resolved::NoIpv4
            &&& named && i < addresses@.len() ==> (addresses@[i] matches Address::V4 { a, b, c, d }
                ==> (resolved matches Resolved::Found(url) && url@ == "ws://"@ + (decimal(a as nat)
                + "."@ + decimal(b as nat) + "."@ + decimal(c as nat) + "."@ + decimal(d as nat))
                + ":"@ + decimal(port as nat)))
        }),
{
    lemma_first_v4(addresses@, 0, i);
    if instance@.len() <= fullname@.len() {
        assert(fullname@.subrange(0, instance@.len() as int) =~= fullname@.take(
            instance@.len() as int,
        ));
    }
}

/// Waiting goes on while there is time, and ends when it is up.
pub proof fn law_waiting_ends_with_the_time(remaining_ns: u128, step: DiscoveryStep)
    requires
        call_ensures(discovery_waits, (remaining_ns,), step),
    ensures
        step == DiscoveryStep::TimedOut <==> remaining_ns == 0,
        step == DiscoveryStep::Wait <==> remaining_ns != 0,
{
}

/// Only the receiver ends the wait: what is heard of others, or nothing at all, does not. The URL
/// that was found is the one that is gone on with.
pub proof fn law_only_the_receiver_is_taken(event: DiscoveryEvent, step: DiscoveryStep)
    requires
        call_ensures(discovery_heard, (event,), step),
    ensures
        event matches DiscoveryEvent::Resolved(Resolved::Found(url)) ==> step
            == DiscoveryStep::Done(url),
        step is Done ==> (event matches DiscoveryEvent::Resolved(Resolved::Found(url))),
        event == DiscoveryEvent::Resolved(Resolved::NoIpv4) ==> step == DiscoveryStep::NoIpv4,
        event == DiscoveryEvent::Resolved(Resolved::Another) || event is Nothing ==> step
            == DiscoveryStep::Wait,
        event is Closed ==> step == DiscoveryStep::ChannelClosed,
{
}

/// The sender is listened for at the address and the port, with a colon between them.
pub proof fn law_parts_of_the_listening_address(
    bind: &str,
    tcp_port: u16,
    address: String,
    port: String,
)
    requires
        call_ensures(listen_address, (bind, tcp_port), address),
        call_ensures(crate::text::to_decimal, (tcp_port as u128,), port),
    ensures
        address@ == bind@ + ":"@ + port@,
{
}

/// What one read brought is sent as one frame, byte for byte; nothing read is no frame, and ends
/// the stream.
pub proof fn law_read_becomes_a_frame(
    buf: &[u8],
    n: usize,
    frame: Option<Vec<u8>>,
    bytes: Vec<u8>,
    step: ForwardStep,
)
    requires
        n <= buf@.len(),
        call_ensures(chunk, (buf, n), frame),
        frame is Some ==> bytes == frame->0,
        call_ensures(forward, (ForwardEvent::Chunk(bytes),), step),
    ensures
        frame is Some <==> n > 0,
        frame is Some ==> (step matches ForwardStep::Send(sent) && sent@.len() == n && forall|
            i: int,
        |
            0 <= i < n ==> #[trigger] sent@[i] == buf@[i]),
{
}

/// Frames that were dropped are warned of, each of them counted, and do not end the connection; a
/// failure to send and the end of the stream do.
pub proof fn law_lag_does_not_end_the_connection(event: ForwardEvent, step: ForwardStep)
    requires
        call_ensures(forward, (event,), step),
    ensures
        event matches ForwardEvent::Lagged(skipped) ==> step == ForwardStep::Warn(skipped),
        event matches ForwardEvent::Chunk(bytes) ==> step == ForwardStep::Send(bytes),
        step is Stop <==> event is SendFailed || event is Closed,
{
}

} // verus!
