//! The addresses of resources.
//!
//! A resource is addressed by a URI of one of three schemes:
//!
//! | URI                                   | names                              |
//! |---------------------------------------|------------------------------------|
//! | `protocol://<protocol>/abi/<name>`    | an interface of a protocol         |
//! | `protocol://<protocol>/misc_data/<n>` | a protocol's data on a network     |
//! | `drosera://<document>`                | a page of documentation            |
//! | `trap-example://<example>`            | an example bundle                  |
//!
//! The path of a `protocol` URI is split at every `/`; a document's name may
//! itself hold `/`, and so may an example's. Reading a URI never fails: what
//! names nothing has a form of its own.

use crate::text::{
    first_index, has_prefix, head_to, holds_char, index_of, lemma_first_index_is, same_text,
    tail_from,
};
use vstd::prelude::*;

verus! {

/// What a URI addresses, over texts.
pub enum ResourceUriView {
    /// `protocol://<protocol>/abi/<interface>`.
    Abi { protocol: Seq<char>, interface: Seq<char> },
    /// `protocol://<protocol>/misc_data/<network>`.
    Network { protocol: Seq<char>, network: Seq<char> },
    /// A `protocol` URI whose path has two segments or more and is of
    /// neither form above: it names a protocol, and nothing in it.
    Elsewhere { protocol: Seq<char> },
    /// A `protocol` URI whose path has one segment only.
    Malformed,
    /// `drosera://<name>`.
    Document { name: Seq<char> },
    /// `trap-example://<name>`.
    Example { name: Seq<char> },
    /// A URI of no known scheme.
    Unknown,
}

/// What a URI addresses.
#[derive(Debug, PartialEq, Eq)]
pub enum ResourceUri {
    /// `protocol://<protocol>/abi/<interface>`.
    Abi { protocol: String, interface: String },
    /// `protocol://<protocol>/misc_data/<network>`.
    Network { protocol: String, network: String },
    /// A `protocol` URI whose path has two segments or more and is of
    /// neither form above.
    Elsewhere { protocol: String },
    /// A `protocol` URI whose path has one segment only.
    Malformed,
    /// `drosera://<name>`.
    Document { name: String },
    /// `trap-example://<name>`.
    Example { name: String },
    /// A URI of no known scheme.
    Unknown,
}

impl View for ResourceUri {
    type V = ResourceUriView;

    open spec fn view(&self) -> ResourceUriView {
        match self {
            ResourceUri::Abi { protocol, interface } => ResourceUriView::Abi {
                protocol: protocol@,
                interface: interface@,
            },
            ResourceUri::Network { protocol, network } => ResourceUriView::Network {
                protocol: protocol@,
                network: network@,
            },
            ResourceUri::Elsewhere { protocol } => ResourceUriView::Elsewhere {
                protocol: protocol@,
            },
            ResourceUri::Malformed => ResourceUriView::Malformed,
            ResourceUri::Document { name } => ResourceUriView::Document { name: name@ },
            ResourceUri::Example { name } => ResourceUriView::Example { name: name@ },
            ResourceUri::Unknown => ResourceUriView::Unknown,
        }
    }
}

/// The prefix of a URI that addresses into a protocol.
pub open spec fn protocol_scheme() -> Seq<char> {
    "protocol://"@
}

/// The prefix of a URI that addresses a page of documentation.
pub open spec fn document_scheme() -> Seq<char> {
    "drosera://"@
}

/// The prefix of a URI that addresses an example.
pub open spec fn example_scheme() -> Seq<char> {
    "trap-example://"@
}

/// The path segment that stands before an interface's name.
pub open spec fn abi_segment() -> Seq<char> {
    "abi"@
}

/// The path segment that stands before a network's name.
pub open spec fn network_segment() -> Seq<char> {
    "misc_data"@
}

/// The URI of an interface of a protocol.
pub open spec fn abi_uri(protocol: Seq<char>, interface: Seq<char>) -> Seq<char> {
    protocol_scheme() + protocol + seq!['/'] + abi_segment() + seq!['/'] + interface
}

/// The URI of a protocol's data on a network.
pub open spec fn network_uri(protocol: Seq<char>, network: Seq<char>) -> Seq<char> {
    protocol_scheme() + protocol + seq!['/'] + network_segment() + seq!['/'] + network
}

/// The URI of a page of documentation.
pub open spec fn document_uri(name: Seq<char>) -> Seq<char> {
    document_scheme() + name
}

/// The URI of an example.
pub open spec fn example_uri(name: Seq<char>) -> Seq<char> {
    example_scheme() + name
}

/// What the path of a `protocol` URI addresses. The path is split at every
/// `/`: one segment is malformed; `<protocol>/abi/<name>` and
/// `<protocol>/misc_data/<name>` are the two forms that name a resource; any
/// other path of two segments or more names its first segment as the
/// protocol and nothing in it.
pub open spec fn protocol_path(path: Seq<char>) -> ResourceUriView {
    let first = first_index(path, '/');
    if first == path.len() {
        ResourceUriView::Malformed
    } else {
        let protocol = path.take(first);
        let rest = path.skip(first + 1);
        let second = first_index(rest, '/');
        if second == rest.len() {
            ResourceUriView::Elsewhere { protocol }
        } else {
            let kind = rest.take(second);
            let name = rest.skip(second + 1);
            if name.contains('/') {
                ResourceUriView::Elsewhere { protocol }
            } else if kind == abi_segment() {
                ResourceUriView::Abi { protocol, interface: name }
            } else if kind == network_segment() {
                ResourceUriView::Network { protocol, network: name }
            } else {
                ResourceUriView::Elsewhere { protocol }
            }
        }
    }
}

/// What a URI addresses.
pub open spec fn parsed(uri: Seq<char>) -> ResourceUriView {
    if protocol_scheme().is_prefix_of(uri) {
        protocol_path(uri.skip(protocol_scheme().len() as int))
    } else if document_scheme().is_prefix_of(uri) {
        ResourceUriView::Document { name: uri.skip(document_scheme().len() as int) }
    } else if example_scheme().is_prefix_of(uri) {
        ResourceUriView::Example { name: uri.skip(example_scheme().len() as int) }
    } else {
        ResourceUriView::Unknown
    }
}

proof fn lemma_schemes()
    ensures
        protocol_scheme().len() == 11,
        protocol_scheme()[0] == 'p',
        document_scheme().len() == 10,
        document_scheme()[0] == 'd',
        example_scheme().len() == 15,
        example_scheme()[0] == 't',
        abi_segment() == seq!['a', 'b', 'i'],
        network_segment() == seq!['m', 'i', 's', 'c', '_', 'd', 'a', 't', 'a'],
{
    reveal_strlit("protocol://");
    reveal_strlit("drosera://");
    reveal_strlit("trap-example://");
    reveal_strlit("abi");
    reveal_strlit("misc_data");
    assert(abi_segment() =~= seq!['a', 'b', 'i']);
    assert(network_segment() =~= seq!['m', 'i', 's', 'c', '_', 'd', 'a', 't', 'a']);
}

/// The path `<protocol>/<kind>/<name>` splits into its three segments, where
/// none of them holds a `/`.
proof fn lemma_three_segments(protocol: Seq<char>, kind: Seq<char>, name: Seq<char>)
    requires
        !protocol.contains('/'),
        !kind.contains('/'),
        !name.contains('/'),
    ensures
        ({
            let path = protocol + seq!['/'] + kind + seq!['/'] + name;
            let first = first_index(path, '/');
            let rest = path.skip(first + 1);
            let second = first_index(rest, '/');
            &&& first == protocol.len()
            &&& first < path.len()
            &&& path.take(first) == protocol
            &&& second == kind.len()
            &&& second < rest.len()
            &&& rest.take(second) == kind
            &&& rest.skip(second + 1) == name
        }),
{
    let path = protocol + seq!['/'] + kind + seq!['/'] + name;
    assert forall|j: int| 0 <= j < protocol.len() implies path[j] != '/' by {
        assert(path[j] == protocol[j]);
        assert(protocol.contains(protocol[j]));
    }
    assert(path[protocol.len() as int] == '/');
    lemma_first_index_is(path, '/', protocol.len() as int);
    let first = first_index(path, '/');
    assert(path.take(first) =~= protocol);
    let rest = path.skip(first + 1);
    assert(rest =~= kind + seq!['/'] + name);
    assert forall|j: int| 0 <= j < kind.len() implies rest[j] != '/' by {
        assert(rest[j] == kind[j]);
        assert(kind.contains(kind[j]));
    }
    assert(rest[kind.len() as int] == '/');
    lemma_first_index_is(rest, '/', kind.len() as int);
    let second = first_index(rest, '/');
    assert(rest.take(second) =~= kind);
    assert(rest.skip(second + 1) =~= name);
}

/// An interface's URI addresses that interface, where neither the
/// protocol's name nor the interface's holds a `/`.
pub proof fn law_abi_uri_is_parsed_back(protocol: Seq<char>, interface: Seq<char>)
    requires
        !protocol.contains('/'),
        !interface.contains('/'),
    ensures
        parsed(abi_uri(protocol, interface)) == (ResourceUriView::Abi { protocol, interface }),
{
    lemma_schemes();
    let uri = abi_uri(protocol, interface);
    let path = protocol + seq!['/'] + abi_segment() + seq!['/'] + interface;
    assert(uri.subrange(0, protocol_scheme().len() as int) =~= protocol_scheme());
    assert(uri.skip(protocol_scheme().len() as int) =~= path);
    assert(!abi_segment().contains('/'));
    lemma_three_segments(protocol, abi_segment(), interface);
}

/// The URI of a protocol's data on a network addresses that data, where
/// neither the protocol's name nor the network's holds a `/`.
pub proof fn law_network_uri_is_parsed_back(protocol: Seq<char>, network: Seq<char>)
    requires
        !protocol.contains('/'),
        !network.contains('/'),
    ensures
        parsed(network_uri(protocol, network)) == (ResourceUriView::Network { protocol, network }),
{
    lemma_schemes();
    let uri = network_uri(protocol, network);
    let path = protocol + seq!['/'] + network_segment() + seq!['/'] + network;
    assert(uri.subrange(0, protocol_scheme().len() as int) =~= protocol_scheme());
    assert(uri.skip(protocol_scheme().len() as int) =~= path);
    assert(!network_segment().contains('/'));
    assert(network_segment() != abi_segment()) by {
        assert(network_segment().len() != abi_segment().len());
    }
    lemma_three_segments(protocol, network_segment(), network);
}

/// A document's URI addresses that document, whatever its name holds.
pub proof fn law_document_uri_is_parsed_back(name: Seq<char>)
    ensures
        parsed(document_uri(name)) == (ResourceUriView::Document { name }),
{
    lemma_schemes();
    let uri = document_uri(name);
    assert(uri[0] == 'd');
    assert(!protocol_scheme().is_prefix_of(uri)) by {
        if protocol_scheme().is_prefix_of(uri) {
            assert(uri.subrange(0, 11)[0] == protocol_scheme()[0]);
        }
    }
    assert(uri.subrange(0, document_scheme().len() as int) =~= document_scheme());
    assert(uri.skip(document_scheme().len() as int) =~= name);
}

/// An example's URI addresses that example, whatever its name holds.
pub proof fn law_example_uri_is_parsed_back(name: Seq<char>)
    ensures
        parsed(example_uri(name)) == (ResourceUriView::Example { name }),
{
    lemma_schemes();
    let uri = example_uri(name);
    assert(uri[0] == 't');
    assert(!protocol_scheme().is_prefix_of(uri)) by {
        if protocol_scheme().is_prefix_of(uri) {
            assert(uri.subrange(0, 11)[0] == protocol_scheme()[0]);
        }
    }
    assert(!document_scheme().is_prefix_of(uri)) by {
        if document_scheme().is_prefix_of(uri) {
            assert(uri.subrange(0, 10)[0] == document_scheme()[0]);
        }
    }
    assert(uri.subrange(0, example_scheme().len() as int) =~= example_scheme());
    assert(uri.skip(example_scheme().len() as int) =~= name);
}

/// Writes the URI of an interface of a protocol.
pub fn format_abi_uri(protocol: &str, interface: &str) -> (uri: String)
    ensures
        uri@ == abi_uri(protocol@, interface@),
{
    let mut uri = "protocol://".to_owned();
    uri.append(protocol);
    uri.append("/");
    uri.append("abi");
    uri.append("/");
    uri.append(interface);
    proof {
        reveal_strlit("/");
        assert("/"@ =~= seq!['/']);
    }
    uri
}

/// Writes the URI of a protocol's data on a network.
pub fn format_network_uri(protocol: &str, network: &str) -> (uri: String)
    ensures
        uri@ == network_uri(protocol@, network@),
{
    let mut uri = "protocol://".to_owned();
    uri.append(protocol);
    uri.append("/");
    uri.append("misc_data");
    uri.append("/");
    uri.append(network);
    proof {
        reveal_strlit("/");
        assert("/"@ =~= seq!['/']);
    }
    uri
}

/// Writes the URI of a page of documentation.
pub fn format_document_uri(name: &str) -> (uri: String)
    ensures
        uri@ == document_uri(name@),
{
    let mut uri = "drosera://".to_owned();
    uri.append(name);
    uri
}

/// Writes the URI of an example.
pub fn format_example_uri(name: &str) -> (uri: String)
    ensures
        uri@ == example_uri(name@),
{
    let mut uri = "trap-example://".to_owned();
    uri.append(name);
    uri
}

/// Reads the path of a `protocol` URI.
fn parse_protocol_path(path: &str) -> (form: ResourceUri)
    ensures
        form@ == protocol_path(path@),
{
    let length = path.unicode_len();
    let first = index_of(path, '/');
    if first == length {
        return ResourceUri::Malformed;
    }
    let protocol = head_to(path, first).to_owned();
    let rest = tail_from(path, first + 1);
    let rest_length = rest.unicode_len();
    let second = index_of(rest, '/');
    if second == rest_length {
        return ResourceUri::Elsewhere { protocol };
    }
    let kind = head_to(rest, second);
    let name = tail_from(rest, second + 1);
    if holds_char(name, '/') {
        ResourceUri::Elsewhere { protocol }
    } else if same_text(kind, "abi") {
        ResourceUri::Abi { protocol, interface: name.to_owned() }
    } else if same_text(kind, "misc_data") {
        ResourceUri::Network { protocol, network: name.to_owned() }
    } else {
        ResourceUri::Elsewhere { protocol }
    }
}

/// Reads a URI: finds its scheme and, for a `protocol` URI, splits its path.
pub fn parse_uri(uri: &str) -> (form: ResourceUri)
    ensures
        form@ == parsed(uri@),
{
    if has_prefix(uri, "protocol://") {
        let scheme = "protocol://".unicode_len();
        parse_protocol_path(tail_from(uri, scheme))
    } else if has_prefix(uri, "drosera://") {
        let scheme = "drosera://".unicode_len();
        ResourceUri::Document { name: tail_from(uri, scheme).to_owned() }
    } else if has_prefix(uri, "trap-example://") {
        let scheme = "trap-example://".unicode_len();
        ResourceUri::Example { name: tail_from(uri, scheme).to_owned() }
    } else {
        ResourceUri::Unknown
    }
}

} // verus!
