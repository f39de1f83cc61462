//! Listing the catalog's resources and reading one of them.
//!
//! Listing gives one descriptor for each resource: for each network of each
//! protocol, for each interface of each protocol, for each page of
//! documentation and for each example. Reading takes a URI, finds what it
//! addresses and hands out its text; a URI that addresses nothing is answered
//! with the reason.

use crate::catalog::{Catalog, CatalogView, Example, ExampleView, ProtocolView};
use crate::json::{
    duplicate, insert, json_of, members_of, members_or_none, new_members, no_members, object,
    pretty_text, set_member, text, to_pretty, Json, JsonDoc, Members,
};
use crate::table::{has_key, value_of, Table};
use crate::text::{capitalize, capitalized, replace_char, replaced};
use crate::uri::{
    abi_uri, document_uri, example_uri, format_abi_uri, format_document_uri, format_example_uri,
    format_network_uri, network_uri, parse_uri, parsed, ResourceUri, ResourceUriView,
};
use serde_json::Value;
use vstd::prelude::*;

verus! {

/// What a listing says of one resource, over texts.
pub struct DescriptorView {
    pub uri: Seq<char>,
    pub name: Seq<char>,
    pub description: Seq<char>,
    pub mime_type: Seq<char>,
}

/// What a listing says of one resource: the URI to read it by, a name and a
/// description for people, and the type of its content.
#[derive(Debug, PartialEq, Eq)]
pub struct ResourceDescriptor {
    pub uri: String,
    pub name: String,
    pub description: String,
    pub mime_type: String,
}

impl View for ResourceDescriptor {
    type V = DescriptorView;

    open spec fn view(&self) -> DescriptorView {
        DescriptorView {
            uri: self.uri@,
            name: self.name@,
            description: self.description@,
            mime_type: self.mime_type@,
        }
    }
}

/// The descriptors in a list, over texts.
pub open spec fn descriptor_views(list: Seq<ResourceDescriptor>) -> Seq<DescriptorView> {
    list.map_values(|descriptor: ResourceDescriptor| descriptor@)
}

/// The name shown for a protocol's data on a network, made of the two names
/// as they are shown.
pub open spec fn network_title(protocol: Seq<char>, network: Seq<char>) -> Seq<char> {
    protocol + " "@ + network + " Protocol Data"@
}

/// The descriptor of a protocol's data on a network. The name shown has both
/// names capitalized; the URI has them as they are.
pub open spec fn network_descriptor(protocol: Seq<char>, network: Seq<char>) -> DescriptorView {
    DescriptorView {
        uri: network_uri(protocol, network),
        name: network_title(capitalized(protocol), capitalized(network)),
        description:
            "Complete protocol data including contracts, tokens, pools, ABIs, and functions for "@
            + protocol + " on "@ + network,
        mime_type: "application/json"@,
    }
}

/// The descriptor of an interface of a protocol.
pub open spec fn abi_descriptor(protocol: Seq<char>, interface: Seq<char>) -> DescriptorView {
    DescriptorView {
        uri: abi_uri(protocol, interface),
        name: protocol + " "@ + interface + " Interface"@,
        description: "ABI and function signatures for "@ + interface + " interface"@,
        mime_type: "application/json"@,
    }
}

/// The descriptor of a page of documentation.
pub open spec fn document_descriptor(name: Seq<char>) -> DescriptorView {
    DescriptorView {
        uri: document_uri(name),
        name: "Drosera "@ + replaced(replaced(name, '-', " "@), '/', " - "@),
        description: "Drosera documentation: "@ + name,
        mime_type: "text/markdown"@,
    }
}

/// The descriptor of an example.
pub open spec fn example_descriptor(name: Seq<char>) -> DescriptorView {
    DescriptorView {
        uri: example_uri(name),
        name: replaced(name, '-', " "@) + " Trap Example"@,
        description: "Complete trap example: "@ + name,
        mime_type: "application/json"@,
    }
}

/// The descriptors of the first `count` networks of a protocol.
pub open spec fn network_descriptors(
    protocol: Seq<char>,
    networks: Seq<(Seq<char>, Json)>,
    count: int,
) -> Seq<DescriptorView> {
    Seq::new(count as nat, |k: int| network_descriptor(protocol, networks[k].0))
}

/// The descriptors of the first `count` interfaces of a protocol.
pub open spec fn abi_descriptors(
    protocol: Seq<char>,
    abis: Seq<(Seq<char>, Json)>,
    count: int,
) -> Seq<DescriptorView> {
    Seq::new(count as nat, |k: int| abi_descriptor(protocol, abis[k].0))
}

/// The descriptors of the first `count` pages of documentation.
pub open spec fn document_descriptors(catalog: CatalogView, count: int) -> Seq<DescriptorView> {
    Seq::new(count as nat, |k: int| document_descriptor(catalog.documentation[k].0))
}

/// The descriptors of the first `count` examples.
pub open spec fn example_descriptors(catalog: CatalogView, count: int) -> Seq<DescriptorView> {
    Seq::new(count as nat, |k: int| example_descriptor(catalog.examples[k].0))
}

/// The descriptors of one protocol: its networks, then its interfaces.
pub open spec fn protocol_listing(name: Seq<char>, protocol: ProtocolView) -> Seq<DescriptorView> {
    network_descriptors(name, protocol.networks, protocol.networks.len() as int) + abi_descriptors(
        name,
        protocol.abis,
        protocol.abis.len() as int,
    )
}

/// The descriptors of some protocols, protocol by protocol.
pub open spec fn protocol_listings(protocols: Seq<(Seq<char>, ProtocolView)>) -> Seq<
    DescriptorView,
>
    decreases protocols.len(),
{
    if protocols.len() == 0 {
        Seq::empty()
    } else {
        protocol_listings(protocols.drop_last()) + protocol_listing(
            protocols.last().0,
            protocols.last().1,
        )
    }
}

/// The listing of a catalog: the protocols' resources, then the pages of
/// documentation, then the examples, each namespace in the order of
/// insertion.
pub open spec fn listing(catalog: CatalogView) -> Seq<DescriptorView> {
    protocol_listings(catalog.protocols) + document_descriptors(
        catalog,
        catalog.documentation.len() as int,
    ) + example_descriptors(catalog, catalog.examples.len() as int)
}

/// The members of the object that holds each name's document, put in one by
/// one in their order. Where no name occurs twice, these are the documents
/// by name.
pub open spec fn object_members(entries: Seq<(Seq<char>, Json)>) -> Map<Seq<char>, Json>
    decreases entries.len(),
{
    if entries.len() == 0 {
        no_members()
    } else {
        object_members(entries.drop_last()).insert(entries.last().0, entries.last().1)
    }
}

/// The members of the object that holds each file's text as a JSON string,
/// by file name.
pub open spec fn file_members(files: Seq<(Seq<char>, Seq<char>)>) -> Map<Seq<char>, Json>
    decreases files.len(),
{
    if files.len() == 0 {
        no_members()
    } else {
        file_members(files.drop_last()).insert(files.last().0, Json::Text(files.last().1))
    }
}

/// What is read for a protocol's network: the network's data with the
/// protocol's interfaces, all of them, merged in under the key `abis`. What
/// the data held under that key is replaced; every other member is kept.
pub open spec fn network_document(protocol: ProtocolView, network: Seq<char>) -> Json {
    Json::Object(
        members_or_none(value_of(protocol.networks, network)).insert(
            "abis"@,
            Json::Object(object_members(protocol.abis)),
        ),
    )
}

/// The members of an example's document before its files: its name, its
/// type, and its readme where it has one.
pub open spec fn example_head(name: Seq<char>, example: ExampleView) -> Map<Seq<char>, Json> {
    let base = no_members().insert("name"@, Json::Text(name)).insert(
        "type"@,
        Json::Text("trap_example"@),
    );
    match example.readme {
        Some(readme) => base.insert("readme"@, Json::Text(readme)),
        None => base,
    }
}

/// The members of an example's document up to its sources.
pub open spec fn example_with_sources(name: Seq<char>, example: ExampleView) -> Map<
    Seq<char>,
    Json,
> {
    match example.sources {
        Some(files) => example_head(name, example).insert(
            "sources"@,
            Json::Object(file_members(files)),
        ),
        None => example_head(name, example),
    }
}

/// What is read for an example: an object with the example's name under
/// `name`, the text `trap_example` under `type`, and, each where the example
/// has it, the readme under `readme`, the source files under `sources` and
/// the test files under `tests`.
pub open spec fn example_document(name: Seq<char>, example: ExampleView) -> Json {
    Json::Object(
        match example.tests {
            Some(files) => example_with_sources(name, example).insert(
                "tests"@,
                Json::Object(file_members(files)),
            ),
            None => example_with_sources(name, example),
        },
    )
}

/// Why a URI could not be read, over texts.
pub enum ReadErrorView {
    /// The URI is of no known scheme.
    UnknownScheme { uri: Seq<char> },
    /// The path of a `protocol` URI has one segment only.
    MalformedProtocolUri,
    /// The catalog has no protocol of the name.
    ProtocolNotFound { protocol: Seq<char> },
    /// The protocol is there, and the rest of the URI names nothing in it.
    ResourceNotFound { uri: Seq<char> },
    /// The catalog has no page of documentation of the name.
    DocumentNotFound { name: Seq<char> },
    /// The catalog has no example of the name.
    ExampleNotFound { name: Seq<char> },
}

/// Why a URI could not be read.
#[derive(Debug, PartialEq, Eq)]
pub enum ReadError {
    /// The URI is of no known scheme.
    UnknownScheme { uri: String },
    /// The path of a `protocol` URI has one segment only.
    MalformedProtocolUri,
    /// The catalog has no protocol of the name.
    ProtocolNotFound { protocol: String },
    /// The protocol is there, and the rest of the URI names nothing in it.
    ResourceNotFound { uri: String },
    /// The catalog has no page of documentation of the name.
    DocumentNotFound { name: String },
    /// The catalog has no example of the name.
    ExampleNotFound { name: String },
}

impl View for ReadError {
    type V = ReadErrorView;

    open spec fn view(&self) -> ReadErrorView {
        match self {
            ReadError::UnknownScheme { uri } => ReadErrorView::UnknownScheme { uri: uri@ },
            ReadError::MalformedProtocolUri => ReadErrorView::MalformedProtocolUri,
            ReadError::ProtocolNotFound { protocol } => ReadErrorView::ProtocolNotFound {
                protocol: protocol@,
            },
            ReadError::ResourceNotFound { uri } => ReadErrorView::ResourceNotFound { uri: uri@ },
            ReadError::DocumentNotFound { name } => ReadErrorView::DocumentNotFound { name: name@ },
            ReadError::ExampleNotFound { name } => ReadErrorView::ExampleNotFound { name: name@ },
        }
    }
}

/// The message that tells a client why a URI could not be read. Each reason
/// has a message of its own.
pub open spec fn message_of(error: ReadErrorView) -> Seq<char> {
    match error {
        ReadErrorView::UnknownScheme { uri } => "Unknown resource URI: "@ + uri,
        ReadErrorView::MalformedProtocolUri => "Invalid protocol URI format"@,
        ReadErrorView::ProtocolNotFound { protocol } => "Protocol '"@ + protocol + "' not found"@,
        ReadErrorView::ResourceNotFound { uri } => "Resource not found: "@ + uri,
        ReadErrorView::DocumentNotFound { name } => "Drosera documentation '"@ + name
            + "' not found"@,
        ReadErrorView::ExampleNotFound { name } => "Trap example '"@ + name + "' not found"@,
    }
}

impl ReadError {
    /// The message that tells a client why the URI could not be read.
    pub fn message(&self) -> (message: String)
        ensures
            message@ == message_of(self@),
    {
        match self {
            ReadError::UnknownScheme { uri } => {
                let mut message = "Unknown resource URI: ".to_owned();
                message.append(uri.as_str());
                message
            },
            ReadError::MalformedProtocolUri => "Invalid protocol URI format".to_owned(),
            ReadError::ProtocolNotFound { protocol } => {
                let mut message = "Protocol '".to_owned();
                message.append(protocol.as_str());
                message.append("' not found");
                message
            },
            ReadError::ResourceNotFound { uri } => {
                let mut message = "Resource not found: ".to_owned();
                message.append(uri.as_str());
                message
            },
            ReadError::DocumentNotFound { name } => {
                let mut message = "Drosera documentation '".to_owned();
                message.append(name.as_str());
                message.append("' not found");
                message
            },
            ReadError::ExampleNotFound { name } => {
                let mut message = "Trap example '".to_owned();
                message.append(name.as_str());
                message.append("' not found");
                message
            },
        }
    }
}

/// What reading a URI gives: the text of the resource that the URI
/// addresses, or the reason why there is none.
///
/// * An interface is read as its ABI document, written as indented JSON.
/// * A network is read as its [`network_document`], written as indented JSON.
/// * A page of documentation is read as its text, as it is.
/// * An example is read as its [`example_document`], written as indented
///   JSON.
pub open spec fn reading(catalog: CatalogView, uri: Seq<char>) -> Result<Seq<char>, ReadErrorView> {
    match parsed(uri) {
        ResourceUriView::Unknown => Err(ReadErrorView::UnknownScheme { uri }),
        ResourceUriView::Malformed => Err(ReadErrorView::MalformedProtocolUri),
        ResourceUriView::Elsewhere { protocol } => if has_key(catalog.protocols, protocol) {
            Err(ReadErrorView::ResourceNotFound { uri })
        } else {
            Err(ReadErrorView::ProtocolNotFound { protocol })
        },
        ResourceUriView::Abi { protocol, interface } => if !has_key(catalog.protocols, protocol) {
            Err(ReadErrorView::ProtocolNotFound { protocol })
        } else if has_key(value_of(catalog.protocols, protocol).abis, interface) {
            Ok(pretty_text(value_of(value_of(catalog.protocols, protocol).abis, interface)))
        } else {
            Err(ReadErrorView::ResourceNotFound { uri })
        },
        ResourceUriView::Network { protocol, network } => if !has_key(catalog.protocols, protocol) {
            Err(ReadErrorView::ProtocolNotFound { protocol })
        } else if has_key(value_of(catalog.protocols, protocol).networks, network) {
            Ok(pretty_text(network_document(value_of(catalog.protocols, protocol), network)))
        } else {
            Err(ReadErrorView::ResourceNotFound { uri })
        },
        ResourceUriView::Document { name } => if has_key(catalog.documentation, name) {
            Ok(value_of(catalog.documentation, name).content)
        } else {
            Err(ReadErrorView::DocumentNotFound { name })
        },
        ResourceUriView::Example { name } => if has_key(catalog.examples, name) {
            Ok(pretty_text(example_document(name, value_of(catalog.examples, name))))
        } else {
            Err(ReadErrorView::ExampleNotFound { name })
        },
    }
}

/// Writes the name shown for a protocol's data on a network, from the two
/// names as they are shown.
pub fn format_network_title(protocol: &str, network: &str) -> (title: String)
    ensures
        title@ == network_title(protocol@, network@),
{
    let mut title = protocol.to_owned();
    title.append(" ");
    title.append(network);
    title.append(" Protocol Data");
    title
}

/// Describes a protocol's data on a network.
pub fn describe_network(protocol: &str, network: &str) -> (descriptor: ResourceDescriptor)
    ensures
        descriptor@ == network_descriptor(protocol@, network@),
{
    let shown_protocol = capitalize(protocol);
    let shown_network = capitalize(network);
    let name = format_network_title(shown_protocol.as_str(), shown_network.as_str());
    let mut description =
        "Complete protocol data including contracts, tokens, pools, ABIs, and functions for ".to_owned();
    description.append(protocol);
    description.append(" on ");
    description.append(network);
    ResourceDescriptor {
        uri: format_network_uri(protocol, network),
        name,
        description,
        mime_type: "application/json".to_owned(),
    }
}

/// Describes an interface of a protocol.
pub fn describe_abi(protocol: &str, interface: &str) -> (descriptor: ResourceDescriptor)
    ensures
        descriptor@ == abi_descriptor(protocol@, interface@),
{
    let mut name = protocol.to_owned();
    name.append(" ");
    name.append(interface);
    name.append(" Interface");
    let mut description = "ABI and function signatures for ".to_owned();
    description.append(interface);
    description.append(" interface");
    ResourceDescriptor {
        uri: format_abi_uri(protocol, interface),
        name,
        description,
        mime_type: "application/json".to_owned(),
    }
}

/// Describes a page of documentation.
pub fn describe_document(key: &str) -> (descriptor: ResourceDescriptor)
    ensures
        descriptor@ == document_descriptor(key@),
{
    let spaced = replace_char(key, '-', " ");
    let shown = replace_char(spaced.as_str(), '/', " - ");
    let mut name = "Drosera ".to_owned();
    name.append(shown.as_str());
    let mut description = "Drosera documentation: ".to_owned();
    description.append(key);
    ResourceDescriptor {
        uri: format_document_uri(key),
        name,
        description,
        mime_type: "text/markdown".to_owned(),
    }
}

/// Describes an example.
pub fn describe_example(key: &str) -> (descriptor: ResourceDescriptor)
    ensures
        descriptor@ == example_descriptor(key@),
{
    let mut name = replace_char(key, '-', " ");
    name.append(" Trap Example");
    let mut description = "Complete trap example: ".to_owned();
    description.append(key);
    ResourceDescriptor {
        uri: format_example_uri(key),
        name,
        description,
        mime_type: "application/json".to_owned(),
    }
}

/// Adds the descriptors of one protocol to a list.
fn list_protocol(name: &str, protocol: &crate::catalog::Protocol, out: &mut Vec<ResourceDescriptor>)
    ensures
        descriptor_views(final(out)@) == descriptor_views(old(out)@) + protocol_listing(
            name@,
            protocol@,
        ),
{
    let ghost before = descriptor_views(out@);
    let networks = protocol.networks();
    let mut j: usize = 0;
    while j < networks.len()
        invariant
            j <= networks@.len(),
            networks@ == protocol@.networks,
            descriptor_views(out@) == before + network_descriptors(name@, networks@, j as int),
        decreases networks@.len() - j,
    {
        let descriptor = describe_network(name, networks.key_at(j));
        proof {
            assert(descriptor_views(out@.push(descriptor)) =~= descriptor_views(out@).push(
                descriptor@,
            ));
            assert(network_descriptors(name@, networks@, j + 1) =~= network_descriptors(
                name@,
                networks@,
                j as int,
            ).push(descriptor@));
        }
        out.push(descriptor);
        j = j + 1;
    }
    let ghost middle = descriptor_views(out@);
    let abis = protocol.abis();
    let mut k: usize = 0;
    while k < abis.len()
        invariant
            k <= abis@.len(),
            abis@ == protocol@.abis,
            descriptor_views(out@) == middle + abi_descriptors(name@, abis@, k as int),
        decreases abis@.len() - k,
    {
        let descriptor = describe_abi(name, abis.key_at(k));
        proof {
            assert(descriptor_views(out@.push(descriptor)) =~= descriptor_views(out@).push(
                descriptor@,
            ));
            assert(abi_descriptors(name@, abis@, k + 1) =~= abi_descriptors(
                name@,
                abis@,
                k as int,
            ).push(descriptor@));
        }
        out.push(descriptor);
        k = k + 1;
    }
    proof {
        assert(descriptor_views(out@) =~= before + protocol_listing(name@, protocol@));
    }
}

/// The JSON object that holds each name's document.
fn documents_object(entries: &Table<JsonDoc>) -> (value: Value)
    ensures
        json_of(value) == Json::Object(object_members(entries@)),
{
    let mut members: Members = new_members();
    let mut i: usize = 0;
    proof {
        assert(entries@.take(0) =~= Seq::<(Seq<char>, Json)>::empty());
    }
    while i < entries.len()
        invariant
            i <= entries@.len(),
            members_of(members) == object_members(entries@.take(i as int)),
        decreases entries@.len() - i,
    {
        proof {
            let next = entries@.take(i + 1);
            assert(next.drop_last() =~= entries@.take(i as int));
            assert(next.last() == entries@[i as int]);
        }
        insert(&mut members, entries.key_at(i).to_owned(), duplicate(entries.value_at(i).value()));
        i = i + 1;
    }
    proof {
        assert(entries@.take(i as int) =~= entries@);
    }
    object(members)
}

/// The JSON object that holds each file's text.
fn files_object(files: &Table<String>) -> (value: Value)
    ensures
        json_of(value) == Json::Object(file_members(files@)),
{
    let mut members: Members = new_members();
    let mut i: usize = 0;
    proof {
        assert(files@.take(0) =~= Seq::<(Seq<char>, Seq<char>)>::empty());
    }
    while i < files.len()
        invariant
            i <= files@.len(),
            members_of(members) == file_members(files@.take(i as int)),
        decreases files@.len() - i,
    {
        proof {
            let next = files@.take(i + 1);
            assert(next.drop_last() =~= files@.take(i as int));
            assert(next.last() == files@[i as int]);
        }
        insert(&mut members, files.key_at(i).to_owned(), text(files.value_at(i).clone()));
        i = i + 1;
    }
    proof {
        assert(files@.take(i as int) =~= files@);
    }
    object(members)
}

/// The JSON document of an example.
fn example_value(name: &str, example: &Example) -> (value: Value)
    ensures
        json_of(value) == example_document(name@, example@),
{
    let mut members: Members = new_members();
    insert(&mut members, "name".to_owned(), text(name.to_owned()));
    insert(&mut members, "type".to_owned(), text("trap_example".to_owned()));
    match example.readme() {
        Some(readme) => {
            insert(&mut members, "readme".to_owned(), text(readme.to_owned()));
        },
        None => {},
    }
    match example.sources() {
        Some(files) => {
            insert(&mut members, "sources".to_owned(), files_object(files));
        },
        None => {},
    }
    match example.tests() {
        Some(files) => {
            insert(&mut members, "tests".to_owned(), files_object(files));
        },
        None => {},
    }
    object(members)
}

impl Catalog {
    /// Lists the catalog's resources: one descriptor for each.
    pub fn list(&self) -> (resources: Vec<ResourceDescriptor>)
        ensures
            descriptor_views(resources@) == listing(self@),
    {
        let mut out: Vec<ResourceDescriptor> = Vec::new();
        let protocols = self.protocols();
        let mut a: usize = 0;
        proof {
            assert(descriptor_views(out@) =~= protocol_listings(protocols@.take(0)));
        }
        while a < protocols.len()
            invariant
                a <= protocols@.len(),
                protocols@ == self@.protocols,
                descriptor_views(out@) == protocol_listings(protocols@.take(a as int)),
            decreases protocols@.len() - a,
        {
            proof {
                let next = protocols@.take(a + 1);
                assert(next.drop_last() =~= protocols@.take(a as int));
                assert(next.last() == protocols@[a as int]);
            }
            list_protocol(protocols.key_at(a), protocols.value_at(a), &mut out);
            a = a + 1;
        }
        proof {
            assert(protocols@.take(a as int) =~= protocols@);
        }
        let ghost first = descriptor_views(out@);
        let pages = self.documentation();
        let mut d: usize = 0;
        while d < pages.len()
            invariant
                d <= pages@.len(),
                pages@ == self@.documentation,
                descriptor_views(out@) == first + document_descriptors(self@, d as int),
            decreases pages@.len() - d,
        {
            let descriptor = describe_document(pages.key_at(d));
            proof {
                assert(descriptor_views(out@.push(descriptor)) =~= descriptor_views(out@).push(
                    descriptor@,
                ));
                assert(document_descriptors(self@, d + 1) =~= document_descriptors(
                    self@,
                    d as int,
                ).push(descriptor@));
            }
            out.push(descriptor);
            d = d + 1;
        }
        let ghost second = descriptor_views(out@);
        let examples = self.examples();
        let mut e: usize = 0;
        while e < examples.len()
            invariant
                e <= examples@.len(),
                examples@ == self@.examples,
                descriptor_views(out@) == second + example_descriptors(self@, e as int),
            decreases examples@.len() - e,
        {
            let descriptor = describe_example(examples.key_at(e));
            proof {
                assert(descriptor_views(out@.push(descriptor)) =~= descriptor_views(out@).push(
                    descriptor@,
                ));
                assert(example_descriptors(self@, e + 1) =~= example_descriptors(
                    self@,
                    e as int,
                ).push(descriptor@));
            }
            out.push(descriptor);
            e = e + 1;
        }
        out
    }

    /// Reads the resource that a URI addresses.
    pub fn read(&self, uri: &str) -> (outcome: Result<String, ReadError>)
        ensures
            match outcome {
                Ok(content) => reading(self@, uri@) == Ok::<Seq<char>, ReadErrorView>(content@),
                Err(error) => reading(self@, uri@) == Err::<Seq<char>, ReadErrorView>(error@),
            },
    {
        proof {
            use_type_invariant(self);
        }
        match parse_uri(uri) {
            ResourceUri::Unknown => Err(ReadError::UnknownScheme { uri: uri.to_owned() }),
            ResourceUri::Malformed => Err(ReadError::MalformedProtocolUri),
            ResourceUri::Elsewhere { protocol } => {
                if self.protocols().contains_key(protocol.as_str()) {
                    Err(ReadError::ResourceNotFound { uri: uri.to_owned() })
                } else {
                    Err(ReadError::ProtocolNotFound { protocol })
                }
            },
            ResourceUri::Abi { protocol, interface } => {
                match self.protocols().get(protocol.as_str()) {
                    None => Err(ReadError::ProtocolNotFound { protocol }),
                    Some(found) => {
                        match found.abis().get(interface.as_str()) {
                            Some(document) => Ok(to_pretty(document.value())),
                            None => Err(ReadError::ResourceNotFound { uri: uri.to_owned() }),
                        }
                    },
                }
            },
            ResourceUri::Network { protocol, network } => {
                match self.protocols().get(protocol.as_str()) {
                    None => Err(ReadError::ProtocolNotFound { protocol }),
                    Some(found) => {
                        match found.networks().get(network.as_str()) {
                            Some(data) => {
                                let mut merged = duplicate(data.value());
                                set_member(&mut merged, "abis", documents_object(found.abis()));
                                Ok(to_pretty(&merged))
                            },
                            None => Err(ReadError::ResourceNotFound { uri: uri.to_owned() }),
                        }
                    },
                }
            },
            ResourceUri::Document { name } => {
                match self.documentation().get(name.as_str()) {
                    Some(page) => Ok(page.content().to_owned()),
                    None => Err(ReadError::DocumentNotFound { name }),
                }
            },
            ResourceUri::Example { name } => {
                match self.examples().get(name.as_str()) {
                    Some(example) => Ok(to_pretty(&example_value(name.as_str(), example))),
                    None => Err(ReadError::ExampleNotFound { name }),
                }
            },
        }
    }
}

} // verus!
