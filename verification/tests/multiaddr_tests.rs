use swarmbook::multiaddr::{get_protocol_layer, parse_multiaddr, ProtocolLayer};
use swarmbook::session::default_listen_addr;

#[test]
fn valid_ip4_tcp_address_decomposes() {
    let r = parse_multiaddr(String::from("/ip4/127.0.0.1/tcp/8080"));
    assert!(r.valid);
    assert_eq!(r.input, "/ip4/127.0.0.1/tcp/8080");
    assert!(r.error.is_none());
    assert_eq!(r.components.len(), 2);
    assert_eq!(r.components[0].name, "ip4");
    assert_eq!(r.components[0].value.as_deref(), Some("127.0.0.1"));
    assert_eq!(r.components[0].layer, ProtocolLayer::Network);
    assert_eq!(r.components[0].raw, "/ip4/127.0.0.1");
    assert_eq!(r.components[1].name, "tcp");
    assert_eq!(r.components[1].value.as_deref(), Some("8080"));
    assert_eq!(r.components[1].layer, ProtocolLayer::Transport);
    assert_eq!(r.components[1].raw, "/tcp/8080");
}

#[test]
fn concatenated_raw_forms_reconstruct_the_input() {
    let inputs = [
        "/ip4/127.0.0.1/tcp/8080",
        "/ip6/::1/tcp/4001",
        "/dns4/example.com/tcp/443/wss",
        "/ip4/10.0.0.1/tcp/4001/tls/p2p/12D3KooWa",
        "/ip4/1.2.3.4/udp/9/quic-v1",
    ];
    for input in inputs {
        let r = parse_multiaddr(String::from(input));
        assert!(r.valid, "expected valid: {input}");
        assert!(!r.components.is_empty());
        let rebuilt: String = r.components.iter().map(|c| c.raw.as_str()).collect();
        assert_eq!(rebuilt, input);
    }
}

#[test]
fn invalid_address_yields_empty_components_and_error() {
    let r = parse_multiaddr(String::from("not-an-address"));
    assert!(!r.valid);
    assert_eq!(r.components.len(), 0);
    let err = r.error.expect("an invalid address carries an error message");
    assert!(!err.is_empty());
}

#[test]
fn malformed_addresses_are_rejected() {
    let bad = [
        "/",
        "//",
        "/ip4",
        "/ip4/999.0.0.1/tcp/1",
        "/ip4/1.2.3/tcp/1",
        "/ip4/01.2.3.4/tcp/1",
        "/ip4/1.2.3.4/tcp/70000",
        "/ip4/1.2.3.4/tcp",
        "/nosuchproto/1",
        "/tcp/12x",
        "/ip4/1.2.3.4/tcp/80/",
    ];
    for input in bad {
        let r = parse_multiaddr(String::from(input));
        assert!(!r.valid, "expected invalid: {input}");
        assert!(r.components.is_empty());
        assert!(r.error.is_some());
    }
}

#[test]
fn empty_input_is_the_trivial_address() {
    let r = parse_multiaddr(String::new());
    assert!(r.valid);
    assert!(r.components.is_empty());
    assert!(r.error.is_none());
}

#[test]
fn bare_tags_parse_without_values() {
    let r = parse_multiaddr(String::from("/ip4/1.2.3.4/tcp/443/tls/ws"));
    assert!(r.valid);
    assert_eq!(r.components.len(), 4);
    assert_eq!(r.components[2].name, "tls");
    assert_eq!(r.components[2].value, None);
    assert_eq!(r.components[2].layer, ProtocolLayer::Security);
    assert_eq!(r.components[2].raw, "/tls");
    assert_eq!(r.components[3].name, "ws");
    assert_eq!(r.components[3].value, None);
    assert_eq!(r.components[3].layer, ProtocolLayer::Application);
}

#[test]
fn relay_and_identity_layers_classify() {
    let r = parse_multiaddr(String::from(
        "/ip4/7.7.7.7/tcp/55/p2p/QmWATWZxyz/p2p-circuit/p2p/QmYyQSo1",
    ));
    assert!(r.valid);
    assert_eq!(r.components.len(), 5);
    assert_eq!(r.components[2].layer, ProtocolLayer::Identity);
    assert_eq!(r.components[2].value.as_deref(), Some("QmWATWZxyz"));
    assert_eq!(r.components[3].layer, ProtocolLayer::Relay);
    assert_eq!(r.components[3].value, None);
    assert_eq!(r.components[4].layer, ProtocolLayer::Identity);
}

#[test]
fn layer_classification_is_stable() {
    assert_eq!(get_protocol_layer("ip4"), ProtocolLayer::Network);
    assert_eq!(get_protocol_layer("ip6"), ProtocolLayer::Network);
    assert_eq!(get_protocol_layer("dnsaddr"), ProtocolLayer::Network);
    assert_eq!(get_protocol_layer("tcp"), ProtocolLayer::Transport);
    assert_eq!(get_protocol_layer("udp"), ProtocolLayer::Transport);
    assert_eq!(get_protocol_layer("tls"), ProtocolLayer::Security);
    assert_eq!(get_protocol_layer("noise"), ProtocolLayer::Security);
    assert_eq!(get_protocol_layer("p2p"), ProtocolLayer::Identity);
    assert_eq!(get_protocol_layer("p2p-circuit"), ProtocolLayer::Relay);
    assert_eq!(get_protocol_layer("ws"), ProtocolLayer::Application);
    assert_eq!(get_protocol_layer("http"), ProtocolLayer::Application);
    assert_eq!(get_protocol_layer("certhash"), ProtocolLayer::Application);
    // Unrecognized tags default to the application layer.
    assert_eq!(get_protocol_layer("no-such-protocol"), ProtocolLayer::Application);
    assert_eq!(get_protocol_layer(""), ProtocolLayer::Application);
    // Classification is a pure function: asking twice gives the same layer.
    assert_eq!(get_protocol_layer("ip4"), get_protocol_layer("ip4"));
}

#[test]
fn the_default_listen_address_is_well_formed() {
    let r = parse_multiaddr(default_listen_addr());
    assert!(r.valid);
    assert_eq!(r.components.len(), 2);
    assert_eq!(r.components[0].name, "ip4");
    assert_eq!(r.components[0].value.as_deref(), Some("0.0.0.0"));
    assert_eq!(r.components[1].name, "tcp");
    assert_eq!(r.components[1].value.as_deref(), Some("0"));
}
