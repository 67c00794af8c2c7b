use agent_net::address::{parse_legacy_multiaddr, strip_peer_id, Address, AddressError, Component};
use agent_net::legacy::sanitize;

const PEER: &str = "QmcgpsyWgH8Y8ajJz1Cu72KnS5uo2Aa2LpzU7kinSupNKC";

fn component(tag: &str, bytes: Vec<u8>) -> Component {
    Component { tag: tag.to_string(), bytes }
}

fn boot_components() -> Vec<Component> {
    vec![
        component("ip4", vec![4, 192, 168, 1, 136]),
        component("tcp", vec![6, 0x1f, 0x42]),
    ]
}

fn read(text: &str) -> Address {
    parse_legacy_multiaddr(text).unwrap()
}

#[test]
fn sanitize_rewrites_the_legacy_name() {
    assert_eq!(sanitize("/ip4/1.2.3.4/ipfs/x"), "/ip4/1.2.3.4/p2p/x");
    assert_eq!(sanitize("ipfs"), "p2p");
    assert_eq!(sanitize("/ipfs/ipfs"), "/p2p/p2p");
}

#[test]
fn sanitize_rewrites_whole_parts_only() {
    assert_eq!(sanitize("/ipfsx/xipfs/IPFS/ipfs "), "/ipfsx/xipfs/IPFS/ipfs ");
    assert_eq!(sanitize(""), "");
    assert_eq!(sanitize("/"), "/");
    assert_eq!(sanitize("//ipfs//"), "//p2p//");
}

#[test]
fn sanitize_rewrites_values_too() {
    assert_eq!(sanitize("/dns4/ipfs/tcp/80"), "/dns4/p2p/tcp/80");
}

#[test]
fn sanitize_keeps_other_scripts() {
    assert_eq!(sanitize("/dns/grüße/ipfs/日本"), "/dns/grüße/p2p/日本");
}

#[test]
fn sanitize_twice_is_sanitize_once() {
    for text in ["/ip4/1.2.3.4/ipfs/x", "ipfs/ipfs", "", "/p2p/y"] {
        let once = sanitize(text);
        assert_eq!(sanitize(&once), once);
    }
}

#[test]
fn sanitize_works_on_both_sides_of_a_slash() {
    let left = "/ip4/1.2.3.4";
    let right = "ipfs/x";
    assert_eq!(
        sanitize(&format!("{}/{}", left, right)),
        format!("{}/{}", sanitize(left), sanitize(right))
    );
}

#[test]
fn boot_address_is_read() {
    assert_eq!(read("/ip4/192.168.1.136/tcp/8002").components, boot_components());
}

#[test]
fn peer_id_is_stripped_under_either_name() {
    let legacy = read(&format!("/ip4/192.168.1.136/tcp/8002/ipfs/{}", PEER));
    let modern = read(&format!("/ip4/192.168.1.136/tcp/8002/p2p/{}", PEER));
    assert_eq!(legacy.components, boot_components());
    assert_eq!(modern, legacy);
}

#[test]
fn only_the_last_peer_id_is_stripped() {
    let address = read(&format!("/ip4/192.168.1.136/tcp/8002/p2p/{}/p2p/{}", PEER, PEER));
    assert_eq!(address.components.len(), 3);
    assert_eq!(address.components[2].tag, "p2p");
}

#[test]
fn peer_id_in_the_middle_stays() {
    let address = read(&format!("/ip4/1.2.3.4/tcp/1/ipfs/{}/p2p-circuit", PEER));
    let tags: Vec<&str> = address.components.iter().map(|c| c.tag.as_str()).collect();
    assert_eq!(tags, vec!["ip4", "tcp", "p2p", "p2p-circuit"]);
}

#[test]
fn a_lone_peer_id_leaves_nothing() {
    assert!(read(&format!("/ipfs/{}", PEER)).components.is_empty());
    assert!(read("").components.is_empty());
}

fn unknown(name: &str) -> Result<Address, AddressError> {
    Err(AddressError::UnknownProtocolString(name.to_string()))
}

fn unreadable(cause: &str) -> Result<Address, AddressError> {
    Err(AddressError::ParsingError(cause.to_string()))
}

#[test]
fn texts_that_are_no_address() {
    assert_eq!(parse_legacy_multiaddr("ip4/1.2.3.4"), Err(AddressError::InvalidMultiaddr));
    assert_eq!(parse_legacy_multiaddr("/ip4"), Err(AddressError::InvalidProtocolString));
    assert_eq!(parse_legacy_multiaddr("/ip4/one"), unreadable("invalid IPv4 address syntax"));
    assert_eq!(
        parse_legacy_multiaddr("/ip4/1.2.3.4/tcp/70000"),
        unreadable("number too large to fit in target type")
    );
    assert_eq!(parse_legacy_multiaddr("/carrier-pigeon"), unknown("carrier-pigeon"));
    assert_eq!(parse_legacy_multiaddr("/tls/pigeon/tls"), unknown("pigeon"));
    assert_eq!(parse_legacy_multiaddr("/"), unknown(""));
}

#[test]
fn a_bad_peer_id_spoils_the_address() {
    for text in ["/ip4/1.2.3.4/ipfs/0OIl", "/ip4/1.2.3.4/ipfs/ipfs"] {
        assert!(matches!(parse_legacy_multiaddr(text), Err(AddressError::ParsingError(_))));
    }
}

#[test]
fn stripping_undoes_adding_a_peer() {
    let mut components = boot_components();
    components.push(component("p2p", vec![1, 2, 3]));
    let mut address = Address { components };
    strip_peer_id(&mut address);
    assert_eq!(address.components, boot_components());
    strip_peer_id(&mut address);
    assert_eq!(address.components, boot_components());
}

#[test]
fn stripping_nothing() {
    let mut address = Address { components: vec![] };
    strip_peer_id(&mut address);
    assert_eq!(address.components, vec![]);
}

#[test]
fn bytes_are_those_of_the_multiaddr() {
    for text in ["", "/ip4/192.168.1.136/tcp/8002", "/dns4/example.org/tcp/443/wss", "/ip6/::1/udp/9/quic-v1"] {
        let expected: libp2p::Multiaddr = text.parse().unwrap();
        assert_eq!(read(text).to_bytes(), expected.to_vec());
    }
    assert_eq!(
        read("/ip4/192.168.1.136/tcp/8002").to_bytes(),
        vec![4, 192, 168, 1, 136, 6, 0x1f, 0x42]
    );
}
