//! Decomposition of a layered network address string into its protocol
//! segments, each classified into a semantic layer.
//!
//! The grammar is a sequence of `/tag` or `/tag/value` components.  An
//! address is accepted exactly when every tag is recognized, every tag
//! that carries a value is followed by a well-formed one, and no segment
//! is empty; acceptance and the produced segments are pinned down by the
//! specification parser [`parse_from`].

use vstd::prelude::*;
use vstd::string::StrSliceExecFns;
use crate::addrvalue::{
    check_base58, check_decimal, check_ip4, check_ip6, lemma_scan_ge, scan, scan_str,
    valid_base58, valid_decimal, valid_ip4, valid_ip6,
};
use crate::strutil::str_eq;

verus! {

/// Semantic layer of one protocol segment in a layered network address.
#[derive(Clone, Copy, Debug, PartialEq, Eq, Structural)]
pub enum ProtocolLayer {
    /// Network layer (IP addresses, host names).
    Network,
    /// Stream transport layer (TCP, UDP and the like).
    Transport,
    /// Security handshake layer (TLS, Noise).
    Security,
    /// Stream multiplexing layer.
    Muxer,
    /// Application layer, also the default for unrecognized tags.
    Application,
    /// Peer identity layer.
    Identity,
    /// Relay layer.
    Relay,
}

/// The kind of payload value a recognized tag carries.
#[derive(Clone, Copy, Debug, PartialEq, Eq, Structural)]
pub enum ValueKind {
    /// The tag stands alone.
    NoValue,
    /// A dotted-quad IPv4 literal.
    Ip4Addr,
    /// An IPv6 literal.
    Ip6Addr,
    /// A host name.
    HostName,
    /// A decimal port number.
    PortNumber,
    /// A base58 peer identifier.
    PeerIdText,
    /// An opaque certificate-hash token.
    HashText,
}

/// The layer a tag belongs to; tags outside the recognized set count as
/// application-level.
pub open spec fn layer_of(tag: Seq<char>) -> ProtocolLayer {
    if tag == "ip4"@ || tag == "ip6"@ || tag == "dns"@ || tag == "dns4"@ || tag == "dns6"@
        || tag == "dnsaddr"@ {
        ProtocolLayer::Network
    } else if tag == "tcp"@ || tag == "udp"@ || tag == "dccp"@ || tag == "sctp"@ {
        ProtocolLayer::Transport
    } else if tag == "tls"@ || tag == "noise"@ {
        ProtocolLayer::Security
    } else if tag == "p2p"@ {
        ProtocolLayer::Identity
    } else if tag == "p2p-circuit"@ {
        ProtocolLayer::Relay
    } else {
        ProtocolLayer::Application
    }
}

/// The payload kind of a recognized tag, or nothing for an unknown one.
pub open spec fn kind_of(tag: Seq<char>) -> Option<ValueKind> {
    if tag == "ip4"@ {
        Option::Some(ValueKind::Ip4Addr)
    } else if tag == "ip6"@ {
        Option::Some(ValueKind::Ip6Addr)
    } else if tag == "dns"@ || tag == "dns4"@ || tag == "dns6"@ || tag == "dnsaddr"@ {
        Option::Some(ValueKind::HostName)
    } else if tag == "tcp"@ || tag == "udp"@ || tag == "dccp"@ || tag == "sctp"@ {
        Option::Some(ValueKind::PortNumber)
    } else if tag == "p2p"@ {
        Option::Some(ValueKind::PeerIdText)
    } else if tag == "certhash"@ {
        Option::Some(ValueKind::HashText)
    } else if tag == "tls"@ || tag == "noise"@ || tag == "ws"@ || tag == "wss"@ || tag == "http"@
        || tag == "https"@ || tag == "quic"@ || tag == "quic-v1"@ || tag == "webrtc"@
        || tag == "webrtc-direct"@ || tag == "p2p-circuit"@ {
        Option::Some(ValueKind::NoValue)
    } else {
        Option::None
    }
}

/// A well-formed payload for the given kind.
pub open spec fn valid_value(kind: ValueKind, s: Seq<char>) -> bool {
    match kind {
        ValueKind::NoValue => false,
        ValueKind::Ip4Addr => valid_ip4(s),
        ValueKind::Ip6Addr => valid_ip6(s),
        ValueKind::HostName => s.len() >= 1,
        ValueKind::PortNumber => valid_decimal(s, 65535),
        ValueKind::PeerIdText => valid_base58(s),
        ValueKind::HashText => s.len() >= 1,
    }
}

/// The mathematical form of one decomposed segment.
pub ghost struct ComponentModel {
    /// The protocol tag.
    pub name: Seq<char>,
    /// The payload value, when the tag carries one.
    pub value: Option<Seq<char>>,
    /// The semantic layer of the tag.
    pub layer: ProtocolLayer,
    /// The raw textual form of the whole segment.
    pub raw: Seq<char>,
}

/// The segment a tag and optional value decompose to.
pub open spec fn component_of(tag: Seq<char>, value: Option<Seq<char>>) -> ComponentModel {
    ComponentModel {
        name: tag,
        value: value,
        layer: layer_of(tag),
        raw: match value {
            Option::Some(v) => seq!['/'] + tag + seq!['/'] + v,
            Option::None => seq!['/'] + tag,
        },
    }
}

/// The specification parser: the segments of the suffix of `s` starting
/// at `i`, or nothing when that suffix is not a well-formed address.
pub open spec fn parse_from(s: Seq<char>, i: int) -> Option<Seq<ComponentModel>>
    decreases s.len() - i,
    via parse_from_dec
{
    if i >= s.len() {
        Option::Some(Seq::empty())
    } else if s[i] != '/' {
        Option::None
    } else {
        let j = scan(s, i + 1, '/');
        let tag = s.subrange(i + 1, j);
        match kind_of(tag) {
            Option::None => Option::None,
            Option::Some(kind) => match kind {
                ValueKind::NoValue => match parse_from(s, j) {
                    Option::None => Option::None,
                    Option::Some(rest) => Option::Some(
                        seq![component_of(tag, Option::None)] + rest,
                    ),
                },
                _ => {
                    if j >= s.len() {
                        Option::None
                    } else {
                        let m = scan(s, j + 1, '/');
                        let value = s.subrange(j + 1, m);
                        if !valid_value(kind, value) {
                            Option::None
                        } else {
                            match parse_from(s, m) {
                                Option::None => Option::None,
                                Option::Some(rest) => Option::Some(
                                    seq![component_of(tag, Option::Some(value))] + rest,
                                ),
                            }
                        }
                    }
                },
            },
        }
    }
}

#[via_fn]
proof fn parse_from_dec(s: Seq<char>, i: int) {
    lemma_scan_ge(s, i + 1, '/');
    lemma_scan_ge(s, scan(s, i + 1, '/') + 1, '/');
}

/// Whether a whole address string is well formed.
pub open spec fn valid_addr(s: Seq<char>) -> bool {
    parse_from(s, 0) is Some
}

/// One decomposed protocol segment.
#[derive(Clone, Debug)]
pub struct ProtocolComponent {
    /// The protocol tag.
    pub name: String,
    /// The payload value, when the tag carries one.
    pub value: Option<String>,
    /// The semantic layer of the tag.
    pub layer: ProtocolLayer,
    /// The raw textual form of the whole segment.
    pub raw: String,
}

impl View for ProtocolComponent {
    type V = ComponentModel;

    open spec fn view(&self) -> ComponentModel {
        ComponentModel {
            name: self.name@,
            value: match self.value {
                Option::Some(v) => Option::Some(v@),
                Option::None => Option::None,
            },
            layer: self.layer,
            raw: self.raw@,
        }
    }
}

/// The models of a sequence of decomposed segments.
pub open spec fn comps_view(cs: Seq<ProtocolComponent>) -> Seq<ComponentModel> {
    cs.map_values(|c: ProtocolComponent| c@)
}

/// The result of decomposing an address string.
#[derive(Clone, Debug)]
pub struct ParsedMultiaddr {
    /// The input as given.
    pub input: String,
    /// The decomposed segments, in input order; empty on failure.
    pub components: Vec<ProtocolComponent>,
    /// Whether the input is a well-formed address.
    pub valid: bool,
    /// The failure message, exactly on failure.
    pub error: Option<String>,
}

/// Classify a protocol tag into its semantic layer.  Total: tags outside
/// the recognized set classify as application-level.
pub fn get_protocol_layer(tag: &str) -> (l: ProtocolLayer)
    ensures
        l == layer_of(tag@),
{
    if str_eq(tag, "ip4") || str_eq(tag, "ip6") || str_eq(tag, "dns") || str_eq(tag, "dns4")
        || str_eq(tag, "dns6") || str_eq(tag, "dnsaddr") {
        ProtocolLayer::Network
    } else if str_eq(tag, "tcp") || str_eq(tag, "udp") || str_eq(tag, "dccp") || str_eq(
        tag,
        "sctp",
    ) {
        ProtocolLayer::Transport
    } else if str_eq(tag, "tls") || str_eq(tag, "noise") {
        ProtocolLayer::Security
    } else if str_eq(tag, "p2p") {
        ProtocolLayer::Identity
    } else if str_eq(tag, "p2p-circuit") {
        ProtocolLayer::Relay
    } else {
        ProtocolLayer::Application
    }
}

/// The payload kind of a recognized tag, or nothing for an unknown one.
pub fn tag_kind(tag: &str) -> (r: Option<ValueKind>)
    ensures
        r == kind_of(tag@),
{
    if str_eq(tag, "ip4") {
        Option::Some(ValueKind::Ip4Addr)
    } else if str_eq(tag, "ip6") {
        Option::Some(ValueKind::Ip6Addr)
    } else if str_eq(tag, "dns") || str_eq(tag, "dns4") || str_eq(tag, "dns6") || str_eq(
        tag,
        "dnsaddr",
    ) {
        Option::Some(ValueKind::HostName)
    } else if str_eq(tag, "tcp") || str_eq(tag, "udp") || str_eq(tag, "dccp") || str_eq(
        tag,
        "sctp",
    ) {
        Option::Some(ValueKind::PortNumber)
    } else if str_eq(tag, "p2p") {
        Option::Some(ValueKind::PeerIdText)
    } else if str_eq(tag, "certhash") {
        Option::Some(ValueKind::HashText)
    } else if str_eq(tag, "tls") || str_eq(tag, "noise") || str_eq(tag, "ws") || str_eq(tag, "wss")
        || str_eq(tag, "http") || str_eq(tag, "https") || str_eq(tag, "quic") || str_eq(
        tag,
        "quic-v1",
    ) || str_eq(tag, "webrtc") || str_eq(tag, "webrtc-direct") || str_eq(tag, "p2p-circuit") {
        Option::Some(ValueKind::NoValue)
    } else {
        Option::None
    }
}

/// Check a payload value against its kind.
fn check_value(kind: ValueKind, v: &str) -> (r: bool)
    ensures
        r == valid_value(kind, v@),
{
    match kind {
        ValueKind::NoValue => false,
        ValueKind::Ip4Addr => check_ip4(v),
        ValueKind::Ip6Addr => check_ip6(v),
        ValueKind::HostName => v.unicode_len() > 0,
        ValueKind::PortNumber => check_decimal(v, 65535),
        ValueKind::PeerIdText => check_base58(v),
        ValueKind::HashText => v.unicode_len() > 0,
    }
}

/// Decompose the suffix of `s` starting at `i`, following the
/// specification parser exactly.
fn parse_components(s: &str, i: usize) -> (r: Option<Vec<ProtocolComponent>>)
    requires
        i <= s@.len(),
    ensures
        (match r {
            Option::Some(v) => parse_from(s@, i as int) == Option::Some(comps_view(v@)),
            Option::None => parse_from(s@, i as int) is None,
        }),
    decreases s@.len() - i,
{
    let n = s.unicode_len();
    if i == n {
        let v: Vec<ProtocolComponent> = Vec::new();
        proof {
            assert(comps_view(v@) =~= Seq::<ComponentModel>::empty());
        }
        return Option::Some(v);
    }
    if s.get_char(i) != '/' {
        return Option::None;
    }
    let j = scan_str(s, i + 1, '/');
    let tag = s.substring_char(i + 1, j);
    let ghost tag_spec = s@.subrange(i + 1 as int, j as int);
    match tag_kind(tag) {
        Option::None => Option::None,
        Option::Some(kind) => match kind {
            ValueKind::NoValue => {
                match parse_components(s, j) {
                    Option::None => Option::None,
                    Option::Some(mut v) => {
                        let comp = ProtocolComponent {
                            name: tag.to_owned(),
                            value: Option::None,
                            layer: get_protocol_layer(tag),
                            raw: s.substring_char(i, j).to_owned(),
                        };
                        proof {
                            assert(s@.subrange(i as int, j as int) =~= seq!['/'] + tag_spec);
                            assert(comp@ == component_of(tag_spec, Option::None));
                        }
                        let ghost prev = v@;
                        v.insert(0, comp);
                        proof {
                            assert(comps_view(v@) =~= seq![component_of(tag_spec, Option::None)]
                                + comps_view(prev));
                        }
                        Option::Some(v)
                    },
                }
            },
            _ => {
                if j == n {
                    return Option::None;
                }
                let m = scan_str(s, j + 1, '/');
                let value = s.substring_char(j + 1, m);
                let ghost value_spec = s@.subrange(j + 1 as int, m as int);
                if !check_value(kind, value) {
                    return Option::None;
                }
                match parse_components(s, m) {
                    Option::None => Option::None,
                    Option::Some(mut v) => {
                        let comp = ProtocolComponent {
                            name: tag.to_owned(),
                            value: Option::Some(value.to_owned()),
                            layer: get_protocol_layer(tag),
                            raw: s.substring_char(i, m).to_owned(),
                        };
                        proof {
                            assert(s@.subrange(i as int, m as int) =~= seq!['/'] + tag_spec
                                + seq!['/'] + value_spec);
                            assert(comp@ == component_of(tag_spec, Option::Some(value_spec)));
                        }
                        let ghost prev = v@;
                        v.insert(0, comp);
                        proof {
                            assert(comps_view(v@) =~= seq![
                                component_of(tag_spec, Option::Some(value_spec)),
                            ] + comps_view(prev));
                        }
                        Option::Some(v)
                    },
                }
            },
        },
    }
}

/// The failure message for an address the decomposer rejects.
pub open spec fn parse_error_text() -> Seq<char> {
    "invalid multiaddr"@
}

/// Decompose an address string into its classified protocol segments.
///
/// Accepts exactly the addresses the specification parser accepts; on
/// success the components are its segments in input order with no error
/// message, and on failure the component list is empty, the address is
/// flagged invalid, and a non-empty error message is returned.
pub fn parse_multiaddr(input: String) -> (r: ParsedMultiaddr)
    ensures
        r.input@ == input@,
        r.valid == valid_addr(input@),
        (match parse_from(input@, 0) {
            Option::Some(m) => r.components@.len() == m.len() && comps_view(r.components@) == m
                && r.error is None,
            Option::None => r.components@.len() == 0 && (match r.error {
                Option::Some(e) => e@ == parse_error_text() && e@.len() > 0,
                Option::None => false,
            }),
        }),
{
    match parse_components(input.as_str(), 0) {
        Option::Some(components) => {
            proof {
                assert(comps_view(components@).len() == components@.len());
            }
            ParsedMultiaddr { input, components, valid: true, error: Option::None }
        },
        Option::None => {
            let msg = "invalid multiaddr".to_owned();
            proof {
                reveal_strlit("invalid multiaddr");
            }
            ParsedMultiaddr {
                input,
                components: Vec::new(),
                valid: false,
                error: Option::Some(msg),
            }
        },
    }
}

/// The concatenation of the raw forms of a sequence of segments.
pub open spec fn concat_raws(ms: Seq<ComponentModel>) -> Seq<char>
    decreases ms.len(),
{
    if ms.len() == 0 {
        Seq::empty()
    } else {
        ms[0].raw + concat_raws(ms.skip(1))
    }
}

proof fn lemma_parse_reconstructs_from(s: Seq<char>, i: int, ms: Seq<ComponentModel>)
    requires
        0 <= i <= s.len(),
        parse_from(s, i) == Option::Some(ms),
    ensures
        concat_raws(ms) == s.subrange(i, s.len() as int),
    decreases s.len() - i,
{
    if i >= s.len() {
        assert(ms =~= Seq::<ComponentModel>::empty());
        assert(s.subrange(i, s.len() as int) =~= Seq::<char>::empty());
    } else {
        let j = scan(s, i + 1, '/');
        let tag = s.subrange(i + 1, j);
        crate::addrvalue::lemma_scan(s, i + 1, '/');
        match kind_of(tag) {
            Option::None => {
                assert(false);
            },
            Option::Some(kind) => match kind {
                ValueKind::NoValue => {
                    let rest = parse_from(s, j).unwrap();
                    assert(parse_from(s, j) == Option::Some(rest));
                    assert(ms == seq![component_of(tag, Option::None)] + rest);
                    lemma_parse_reconstructs_from(s, j, rest);
                    assert(ms[0] == component_of(tag, Option::None));
                    assert(ms.skip(1) =~= rest);
                    assert(concat_raws(ms) == ms[0].raw + concat_raws(rest));
                    assert(ms[0].raw =~= s.subrange(i, j));
                    assert(s.subrange(i, j) + s.subrange(j, s.len() as int) =~= s.subrange(
                        i,
                        s.len() as int,
                    ));
                },
                _ => {
                    let m = scan(s, j + 1, '/');
                    let value = s.subrange(j + 1, m);
                    crate::addrvalue::lemma_scan(s, j + 1, '/');
                    let rest = parse_from(s, m).unwrap();
                    assert(parse_from(s, m) == Option::Some(rest));
                    assert(ms == seq![component_of(tag, Option::Some(value))] + rest);
                    lemma_parse_reconstructs_from(s, m, rest);
                    assert(ms[0] == component_of(tag, Option::Some(value)));
                    assert(ms.skip(1) =~= rest);
                    assert(concat_raws(ms) == ms[0].raw + concat_raws(rest));
                    assert(ms[0].raw =~= s.subrange(i, m));
                    assert(s.subrange(i, m) + s.subrange(m, s.len() as int) =~= s.subrange(
                        i,
                        s.len() as int,
                    ));
                },
            },
        }
    }
}

/// Every accepted address is reconstructed exactly by concatenating the
/// raw forms of its segments, and a non-empty accepted address yields at
/// least one segment.
pub proof fn lemma_valid_address_reconstructs(s: Seq<char>, ms: Seq<ComponentModel>)
    requires
        parse_from(s, 0) == Option::Some(ms),
    ensures
        concat_raws(ms) == s,
        s.len() > 0 ==> ms.len() > 0,
{
    lemma_parse_reconstructs_from(s, 0, ms);
    assert(s.subrange(0, s.len() as int) =~= s);
}

/// Every segment of an accepted address carries a recognized tag and is
/// classified by that tag.
pub proof fn lemma_components_classified(s: Seq<char>, i: int, ms: Seq<ComponentModel>)
    requires
        0 <= i <= s.len(),
        parse_from(s, i) == Option::Some(ms),
    ensures
        forall|k: int| 0 <= k < ms.len() ==> (#[trigger] ms[k]).layer == layer_of(ms[k].name)
            && kind_of(ms[k].name) is Some,
    decreases s.len() - i,
{
    if i < s.len() {
        let j = scan(s, i + 1, '/');
        let tag = s.subrange(i + 1, j);
        match kind_of(tag) {
            Option::None => {
                assert(false);
            },
            Option::Some(kind) => match kind {
                ValueKind::NoValue => {
                    let rest = parse_from(s, j).unwrap();
                    assert(ms == seq![component_of(tag, Option::None)] + rest);
                    lemma_scan_ge(s, i + 1, '/');
                    lemma_components_classified(s, j, rest);
                    assert forall|k: int| 0 <= k < ms.len() implies (#[trigger] ms[k]).layer
                        == layer_of(ms[k].name) && kind_of(ms[k].name) is Some by {
                        if k > 0 {
                            assert(ms[k] == rest[k - 1]);
                        }
                    }
                },
                _ => {
                    let m = scan(s, j + 1, '/');
                    let rest = parse_from(s, m).unwrap();
                    let value = s.subrange(j + 1, m);
                    assert(ms == seq![component_of(tag, Option::Some(value))] + rest);
                    lemma_scan_ge(s, i + 1, '/');
                    lemma_scan_ge(s, j + 1, '/');
                    lemma_components_classified(s, m, rest);
                    assert forall|k: int| 0 <= k < ms.len() implies (#[trigger] ms[k]).layer
                        == layer_of(ms[k].name) && kind_of(ms[k].name) is Some by {
                        if k > 0 {
                            assert(ms[k] == rest[k - 1]);
                        }
                    }
                },
            },
        }
    }
}

/// A tag outside the recognized set always classifies as
/// application-level.
pub proof fn lemma_unrecognized_tag_is_application(tag: Seq<char>)
    requires
        kind_of(tag) is None,
    ensures
        layer_of(tag) == ProtocolLayer::Application,
{
}

} // verus!
