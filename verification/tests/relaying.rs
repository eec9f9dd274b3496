use ddagrab_proxy::relay::{
    chunk, discovery_heard, discovery_waits, forward, listen_address, resolve, Address,
    DiscoveryEvent, DiscoveryStep, ForwardEvent, ForwardStep, Resolved,
};

const NAME: &str = "latencypoc-viewer";

fn v4(a: u8, b: u8, c: u8, d: u8) -> Address {
    Address::V4 { a, b, c, d }
}

#[test]
fn the_receiver_is_found_at_its_first_ipv4_address() {
    let addresses = vec![Address::Other, v4(192, 168, 1, 50), v4(10, 0, 0, 1)];
    match resolve(NAME, "latencypoc-viewer._latencypoc._udp.local.", &addresses, 5001) {
        Resolved::Found(url) => assert_eq!(url, "ws://192.168.1.50:5001"),
        other => panic!("{other:?}"),
    }
    match resolve(NAME, NAME, &vec![v4(0, 0, 0, 0)], 0) {
        Resolved::Found(url) => assert_eq!(url, "ws://0.0.0.0:0"),
        other => panic!("{other:?}"),
    }
}

#[test]
fn other_services_are_passed_over() {
    let addresses = vec![v4(1, 2, 3, 4)];
    assert!(matches!(resolve(NAME, "printer._ipp._tcp.local.", &addresses, 1), Resolved::Another));
    assert!(matches!(resolve(NAME, "", &addresses, 1), Resolved::Another));
    assert!(matches!(resolve(NAME, NAME, &vec![Address::Other], 1), Resolved::NoIpv4));
    assert!(matches!(resolve(NAME, NAME, &Vec::new(), 1), Resolved::NoIpv4));
}

#[test]
fn discovery() {
    assert!(matches!(discovery_waits(0), DiscoveryStep::TimedOut));
    assert!(matches!(discovery_waits(1), DiscoveryStep::Wait));
    assert!(matches!(discovery_heard(DiscoveryEvent::Nothing), DiscoveryStep::Wait));
    assert!(matches!(discovery_heard(DiscoveryEvent::Closed), DiscoveryStep::ChannelClosed));
    assert!(matches!(discovery_heard(DiscoveryEvent::Resolved(Resolved::Another)), DiscoveryStep::Wait));
    assert!(matches!(discovery_heard(DiscoveryEvent::Resolved(Resolved::NoIpv4)), DiscoveryStep::NoIpv4));
    match discovery_heard(DiscoveryEvent::Resolved(Resolved::Found("ws://a".to_string()))) {
        DiscoveryStep::Done(url) => assert_eq!(url, "ws://a"),
        other => panic!("{other:?}"),
    }
}

#[test]
fn the_listening_address() {
    assert_eq!(listen_address("0.0.0.0", 5000), "0.0.0.0:5000");
    assert_eq!(listen_address("127.0.0.1", 65535), "127.0.0.1:65535");
}

#[test]
fn reads_become_frames() {
    assert_eq!(chunk(&[1, 2, 3, 4], 2), Some(vec![1, 2]));
    assert_eq!(chunk(&[1, 2], 2), Some(vec![1, 2]));
    assert_eq!(chunk(&[1, 2], 0), None);
}

#[test]
fn frames_put_together_are_the_stream() {
    let stream: Vec<u8> = (0..=255).collect();
    for size in [1, 7, 100, 300] {
        let mut joined = Vec::new();
        for part in stream.chunks(size) {
            let mut buf = vec![0xeeu8; 512];
            buf[..part.len()].copy_from_slice(part);
            joined.extend(chunk(&buf, part.len()).unwrap());
        }
        assert_eq!(joined, stream);
    }
}

#[test]
fn forwarding() {
    assert_eq!(forward(ForwardEvent::Chunk(vec![0, 0, 1, 9])), ForwardStep::Send(vec![0, 0, 1, 9]));
    assert_eq!(forward(ForwardEvent::Chunk(Vec::new())), ForwardStep::Send(Vec::new()));
    assert_eq!(forward(ForwardEvent::Lagged(12)), ForwardStep::Warn(12));
    assert_eq!(forward(ForwardEvent::SendFailed), ForwardStep::Stop);
    assert_eq!(forward(ForwardEvent::Closed), ForwardStep::Stop);
}
