//! Laws of listing and reading: what holds of every well-formed catalog.

use crate::catalog::{
    is_segment, protocol_well_formed, well_formed, CatalogView, ProtocolView,
};
use crate::json::{member, pretty_text, Json};
use crate::resources::{
    abi_descriptor, document_descriptor, example_descriptor, listing, message_of,
    network_descriptor, network_document, object_members, protocol_listing, protocol_listings,
    reading, DescriptorView, ReadErrorView,
};
use crate::table::{distinct_keys, has_key, lemma_index_of_key, value_of};
use crate::uri::{
    abi_uri, document_uri, example_uri, law_abi_uri_is_parsed_back,
    law_document_uri_is_parsed_back, law_example_uri_is_parsed_back,
    law_network_uri_is_parsed_back, network_uri, parsed, ResourceUriView,
};
use vstd::prelude::*;

verus! {

/// The number of descriptors that come before those of the protocol at an
/// index: the resources of the protocols before it.
pub open spec fn protocol_offset(protocols: Seq<(Seq<char>, ProtocolView)>, index: int) -> int {
    protocol_listings(protocols.take(index)).len() as int
}

/// The number of resources of some protocols: their networks and their
/// interfaces.
pub open spec fn protocol_resources(protocols: Seq<(Seq<char>, ProtocolView)>) -> nat
    decreases protocols.len(),
{
    if protocols.len() == 0 {
        0
    } else {
        protocol_resources(protocols.drop_last()) + protocols.last().1.networks.len()
            + protocols.last().1.abis.len()
    }
}

/// The number of resources of a catalog.
pub open spec fn resource_count(catalog: CatalogView) -> nat {
    protocol_resources(catalog.protocols) + catalog.documentation.len() + catalog.examples.len()
}

/// Where the descriptors of one protocol stand among those of all of them.
proof fn lemma_protocol_listing_placed(protocols: Seq<(Seq<char>, ProtocolView)>, index: int)
    requires
        0 <= index < protocols.len(),
    ensures
        protocol_offset(protocols, index) + protocol_listing(
            protocols[index].0,
            protocols[index].1,
        ).len() == protocol_offset(protocols, index + 1),
        protocol_offset(protocols, index + 1) <= protocol_listings(protocols).len(),
        forall|k: int|
            0 <= k < protocol_listing(protocols[index].0, protocols[index].1).len()
                ==> protocol_listings(protocols)[protocol_offset(protocols, index) + k]
                == protocol_listing(protocols[index].0, protocols[index].1)[k],
    decreases protocols.len(),
{
    let rest = protocols.drop_last();
    let last = protocols.len() - 1;
    assert(protocols.take(protocols.len() as int) =~= protocols);
    if index == last {
        assert(protocols.take(index) =~= rest);
    } else {
        lemma_protocol_listing_placed(rest, index);
        assert(rest.take(index) =~= protocols.take(index));
        assert(rest.take(index + 1) =~= protocols.take(index + 1));
        assert(rest[index] == protocols[index]);
    }
}

/// The offsets of the protocols grow with the index.
proof fn lemma_protocol_offsets_grow(
    protocols: Seq<(Seq<char>, ProtocolView)>,
    low: int,
    high: int,
)
    requires
        0 <= low <= high <= protocols.len(),
    ensures
        protocol_offset(protocols, low) <= protocol_offset(protocols, high),
    decreases high - low,
{
    if low < high {
        lemma_protocol_listing_placed(protocols, high - 1);
        lemma_protocol_offsets_grow(protocols, low, high - 1);
    }
}

/// Every descriptor of the protocols stands at some protocol's offset plus
/// an index into that protocol's own descriptors.
proof fn lemma_protocol_of_descriptor(protocols: Seq<(Seq<char>, ProtocolView)>, i: int) -> (index:
    int)
    requires
        0 <= i < protocol_listings(protocols).len(),
    ensures
        0 <= index < protocols.len(),
        protocol_offset(protocols, index) <= i < protocol_offset(protocols, index + 1),
    decreases protocols.len(),
{
    let rest = protocols.drop_last();
    let last = protocols.len() - 1;
    assert(protocols.take(protocols.len() as int) =~= protocols);
    assert(protocols.take(last) =~= rest);
    if i < protocol_listings(rest).len() {
        let index = lemma_protocol_of_descriptor(rest, i);
        assert(rest.take(index) =~= protocols.take(index));
        assert(rest.take(index + 1) =~= protocols.take(index + 1));
        index
    } else {
        last
    }
}

/// The listing has one descriptor for each resource: as many as the catalog
/// has networks, interfaces, pages and examples together.
pub proof fn law_listing_has_one_descriptor_each(catalog: CatalogView)
    ensures
        listing(catalog).len() == resource_count(catalog),
{
    lemma_protocol_listings_len(catalog.protocols);
}

proof fn lemma_protocol_listings_len(protocols: Seq<(Seq<char>, ProtocolView)>)
    ensures
        protocol_listings(protocols).len() == protocol_resources(protocols),
    decreases protocols.len(),
{
    if protocols.len() != 0 {
        lemma_protocol_listings_len(protocols.drop_last());
    }
}

/// The data of every network of every protocol is listed, at the place that
/// the order of insertion gives it.
pub proof fn law_every_network_is_listed(catalog: CatalogView, protocol: int, network: int)
    requires
        0 <= protocol < catalog.protocols.len(),
        0 <= network < catalog.protocols[protocol].1.networks.len(),
    ensures
        0 <= protocol_offset(catalog.protocols, protocol) + network < listing(catalog).len(),
        listing(catalog)[protocol_offset(catalog.protocols, protocol) + network]
            == network_descriptor(
            catalog.protocols[protocol].0,
            catalog.protocols[protocol].1.networks[network].0,
        ),
{
    lemma_protocol_listing_placed(catalog.protocols, protocol);
    let own = protocol_listing(catalog.protocols[protocol].0, catalog.protocols[protocol].1);
    assert(own[network] == network_descriptor(
        catalog.protocols[protocol].0,
        catalog.protocols[protocol].1.networks[network].0,
    ));
}

/// Every interface of every protocol is listed, behind the protocol's
/// networks.
pub proof fn law_every_interface_is_listed(catalog: CatalogView, protocol: int, interface: int)
    requires
        0 <= protocol < catalog.protocols.len(),
        0 <= interface < catalog.protocols[protocol].1.abis.len(),
    ensures
        0 <= protocol_offset(catalog.protocols, protocol)
            + catalog.protocols[protocol].1.networks.len() + interface < listing(catalog).len(),
        listing(catalog)[protocol_offset(catalog.protocols, protocol)
            + catalog.protocols[protocol].1.networks.len() + interface] == abi_descriptor(
            catalog.protocols[protocol].0,
            catalog.protocols[protocol].1.abis[interface].0,
        ),
{
    lemma_protocol_listing_placed(catalog.protocols, protocol);
    let own = protocol_listing(catalog.protocols[protocol].0, catalog.protocols[protocol].1);
    assert(own[catalog.protocols[protocol].1.networks.len() + interface] == abi_descriptor(
        catalog.protocols[protocol].0,
        catalog.protocols[protocol].1.abis[interface].0,
    ));
}

/// Every page of documentation is listed, behind the protocols' resources.
pub proof fn law_every_document_is_listed(catalog: CatalogView, page: int)
    requires
        0 <= page < catalog.documentation.len(),
    ensures
        0 <= protocol_resources(catalog.protocols) + page < listing(catalog).len(),
        listing(catalog)[protocol_resources(catalog.protocols) + page] == document_descriptor(
            catalog.documentation[page].0,
        ),
{
    lemma_protocol_listings_len(catalog.protocols);
}

/// Every example is listed, behind the pages of documentation.
pub proof fn law_every_example_is_listed(catalog: CatalogView, example: int)
    requires
        0 <= example < catalog.examples.len(),
    ensures
        0 <= protocol_resources(catalog.protocols) + catalog.documentation.len() + example
            < listing(catalog).len(),
        listing(catalog)[protocol_resources(catalog.protocols) + catalog.documentation.len()
            + example] == example_descriptor(catalog.examples[example].0),
{
    lemma_protocol_listings_len(catalog.protocols);
}

/// What a listed descriptor describes: a network or an interface of a
/// protocol, a page of documentation or an example, each by its indices.
pub enum Listed {
    Network { protocol: int, network: int },
    Interface { protocol: int, interface: int },
    Page { page: int },
    Example { example: int },
}

/// The resource that the descriptor at an index of the listing describes.
pub open spec fn listed_at(catalog: CatalogView, i: int) -> Listed {
    let protocols = catalog.protocols;
    if i < protocol_resources(protocols) {
        let protocol = choose|a: int|
            0 <= a < protocols.len() && protocol_offset(protocols, a) <= i
                < #[trigger] protocol_offset(protocols, a + 1);
        let k = i - protocol_offset(protocols, protocol);
        if k < protocols[protocol].1.networks.len() {
            Listed::Network { protocol, network: k }
        } else {
            Listed::Interface { protocol, interface: k - protocols[protocol].1.networks.len() }
        }
    } else if i < protocol_resources(protocols) + catalog.documentation.len() {
        Listed::Page { page: i - protocol_resources(protocols) }
    } else {
        Listed::Example {
            example: i - protocol_resources(protocols) - catalog.documentation.len(),
        }
    }
}

/// The descriptor of a resource of the catalog.
pub open spec fn descriptor_of(catalog: CatalogView, resource: Listed) -> DescriptorView {
    match resource {
        Listed::Network { protocol, network } => network_descriptor(
            catalog.protocols[protocol].0,
            catalog.protocols[protocol].1.networks[network].0,
        ),
        Listed::Interface { protocol, interface } => abi_descriptor(
            catalog.protocols[protocol].0,
            catalog.protocols[protocol].1.abis[interface].0,
        ),
        Listed::Page { page } => document_descriptor(catalog.documentation[page].0),
        Listed::Example { example } => example_descriptor(catalog.examples[example].0),
    }
}

/// Whether the indices of a resource lie within the catalog.
pub open spec fn is_resource(catalog: CatalogView, resource: Listed) -> bool {
    match resource {
        Listed::Network { protocol, network } => 0 <= protocol < catalog.protocols.len() && 0
            <= network < catalog.protocols[protocol].1.networks.len(),
        Listed::Interface { protocol, interface } => 0 <= protocol < catalog.protocols.len() && 0
            <= interface < catalog.protocols[protocol].1.abis.len(),
        Listed::Page { page } => 0 <= page < catalog.documentation.len(),
        Listed::Example { example } => 0 <= example < catalog.examples.len(),
    }
}

/// The place of a resource in the listing.
pub open spec fn place_of(catalog: CatalogView, resource: Listed) -> int {
    match resource {
        Listed::Network { protocol, network } => protocol_offset(catalog.protocols, protocol)
            + network,
        Listed::Interface { protocol, interface } => protocol_offset(catalog.protocols, protocol)
            + catalog.protocols[protocol].1.networks.len() + interface,
        Listed::Page { page } => protocol_resources(catalog.protocols) + page,
        Listed::Example { example } => protocol_resources(catalog.protocols)
            + catalog.documentation.len() + example,
    }
}

/// Every descriptor of the listing describes a resource of the catalog, and
/// stands at that resource's place.
pub proof fn law_every_descriptor_is_of_a_resource(catalog: CatalogView, i: int)
    requires
        0 <= i < listing(catalog).len(),
    ensures
        is_resource(catalog, listed_at(catalog, i)),
        place_of(catalog, listed_at(catalog, i)) == i,
        listing(catalog)[i] == descriptor_of(catalog, listed_at(catalog, i)),
{
    let protocols = catalog.protocols;
    lemma_protocol_listings_len(protocols);
    if i < protocol_resources(protocols) {
        let witness = lemma_protocol_of_descriptor(protocols, i);
        let protocol = choose|a: int|
            0 <= a < protocols.len() && protocol_offset(protocols, a) <= i
                < #[trigger] protocol_offset(protocols, a + 1);
        lemma_protocol_listing_placed(protocols, protocol);
        let k = i - protocol_offset(protocols, protocol);
        let own = protocol_listing(protocols[protocol].0, protocols[protocol].1);
        assert(0 <= k < own.len());
        assert(listing(catalog)[i] == own[k]);
    }
}

/// Reading the URI of any listed descriptor succeeds.
pub proof fn law_listed_resources_can_be_read(catalog: CatalogView, i: int)
    requires
        well_formed(catalog),
        0 <= i < listing(catalog).len(),
    ensures
        reading(catalog, listing(catalog)[i].uri) is Ok,
{
    law_every_descriptor_is_of_a_resource(catalog, i);
    lemma_resource_can_be_read(catalog, listed_at(catalog, i));
}

/// Reading the URI of a resource's descriptor succeeds.
proof fn lemma_resource_can_be_read(catalog: CatalogView, resource: Listed)
    requires
        well_formed(catalog),
        is_resource(catalog, resource),
    ensures
        reading(catalog, descriptor_of(catalog, resource).uri) is Ok,
{
    match resource {
        Listed::Network { protocol, network } => {
            let name = catalog.protocols[protocol].0;
            let found = catalog.protocols[protocol].1;
            assert(is_segment(name) && protocol_well_formed(found));
            assert(is_segment(found.networks[network].0));
            law_network_uri_is_parsed_back(name, found.networks[network].0);
            lemma_index_of_key(catalog.protocols, protocol);
            lemma_index_of_key(found.networks, network);
        },
        Listed::Interface { protocol, interface } => {
            let name = catalog.protocols[protocol].0;
            let found = catalog.protocols[protocol].1;
            assert(is_segment(name) && protocol_well_formed(found));
            assert(is_segment(found.abis[interface].0));
            law_abi_uri_is_parsed_back(name, found.abis[interface].0);
            lemma_index_of_key(catalog.protocols, protocol);
            lemma_index_of_key(found.abis, interface);
        },
        Listed::Page { page } => {
            law_document_uri_is_parsed_back(catalog.documentation[page].0);
            lemma_index_of_key(catalog.documentation, page);
        },
        Listed::Example { example } => {
            law_example_uri_is_parsed_back(catalog.examples[example].0);
            lemma_index_of_key(catalog.examples, example);
        },
    }
}

/// What the URI of a resource's descriptor addresses: that resource, by its
/// names.
pub open spec fn address_of(catalog: CatalogView, resource: Listed) -> ResourceUriView {
    match resource {
        Listed::Network { protocol, network } => ResourceUriView::Network {
            protocol: catalog.protocols[protocol].0,
            network: catalog.protocols[protocol].1.networks[network].0,
        },
        Listed::Interface { protocol, interface } => ResourceUriView::Abi {
            protocol: catalog.protocols[protocol].0,
            interface: catalog.protocols[protocol].1.abis[interface].0,
        },
        Listed::Page { page } => ResourceUriView::Document { name: catalog.documentation[page].0 },
        Listed::Example { example } => ResourceUriView::Example {
            name: catalog.examples[example].0,
        },
    }
}

/// Listing and parsing are inverse to each other: the URI under which a
/// resource is listed is parsed back to the names of that resource.
pub proof fn law_listed_uri_addresses_its_resource(catalog: CatalogView, resource: Listed)
    requires
        well_formed(catalog),
        is_resource(catalog, resource),
    ensures
        parsed(descriptor_of(catalog, resource).uri) == address_of(catalog, resource),
{
    match resource {
        Listed::Network { protocol, network } => {
            let found = catalog.protocols[protocol].1;
            assert(is_segment(catalog.protocols[protocol].0) && protocol_well_formed(found));
            assert(is_segment(found.networks[network].0));
            law_network_uri_is_parsed_back(catalog.protocols[protocol].0, found.networks[network].0);
        },
        Listed::Interface { protocol, interface } => {
            let found = catalog.protocols[protocol].1;
            assert(is_segment(catalog.protocols[protocol].0) && protocol_well_formed(found));
            assert(is_segment(found.abis[interface].0));
            law_abi_uri_is_parsed_back(catalog.protocols[protocol].0, found.abis[interface].0);
        },
        Listed::Page { page } => {
            law_document_uri_is_parsed_back(catalog.documentation[page].0);
        },
        Listed::Example { example } => {
            law_example_uri_is_parsed_back(catalog.examples[example].0);
        },
    }
}

/// Among distinct keys, two entries with one key are one entry.
proof fn lemma_same_key_same_index<T>(entries: Seq<(Seq<char>, T)>, i: int, j: int)
    requires
        distinct_keys(entries),
        0 <= i < entries.len(),
        0 <= j < entries.len(),
        entries[i].0 == entries[j].0,
    ensures
        i == j,
{
    if i < j {
        assert(entries[i].0 != entries[j].0);
    } else if j < i {
        assert(entries[j].0 != entries[i].0);
    }
}

/// A resource is listed once: the place of a resource in the listing is the
/// place of no other resource.
pub proof fn law_each_resource_is_listed_once(catalog: CatalogView, resource: Listed)
    requires
        is_resource(catalog, resource),
    ensures
        0 <= place_of(catalog, resource) < listing(catalog).len(),
        listing(catalog)[place_of(catalog, resource)] == descriptor_of(catalog, resource),
        listed_at(catalog, place_of(catalog, resource)) == resource,
{
    let protocols = catalog.protocols;
    let i = place_of(catalog, resource);
    lemma_protocol_listings_len(protocols);
    match resource {
        Listed::Network { protocol, network } => {
            law_every_network_is_listed(catalog, protocol, network);
            lemma_protocol_listing_placed(protocols, protocol);
            lemma_protocol_at_place(protocols, protocol, i);
        },
        Listed::Interface { protocol, interface } => {
            law_every_interface_is_listed(catalog, protocol, interface);
            lemma_protocol_listing_placed(protocols, protocol);
            lemma_protocol_at_place(protocols, protocol, i);
        },
        Listed::Page { page } => {
            law_every_document_is_listed(catalog, page);
        },
        Listed::Example { example } => {
            law_every_example_is_listed(catalog, example);
        },
    }
}

/// A place between a protocol's offset and the next belongs to that protocol
/// and to no other.
proof fn lemma_protocol_at_place(protocols: Seq<(Seq<char>, ProtocolView)>, index: int, i: int)
    requires
        0 <= index < protocols.len(),
        protocol_offset(protocols, index) <= i < protocol_offset(protocols, index + 1),
    ensures
        i < protocol_resources(protocols),
        (choose|a: int|
            0 <= a < protocols.len() && protocol_offset(protocols, a) <= i
                < #[trigger] protocol_offset(protocols, a + 1)) == index,
{
    lemma_protocol_listings_len(protocols);
    lemma_protocol_listing_placed(protocols, index);
    let chosen = choose|a: int|
        0 <= a < protocols.len() && protocol_offset(protocols, a) <= i
            < #[trigger] protocol_offset(protocols, a + 1);
    if chosen < index {
        lemma_protocol_offsets_grow(protocols, chosen + 1, index);
    } else if index < chosen {
        lemma_protocol_offsets_grow(protocols, index + 1, chosen);
    }
}

/// No two descriptors of the listing have the same URI.
pub proof fn law_listed_uris_differ(catalog: CatalogView, i: int, k: int)
    requires
        well_formed(catalog),
        0 <= i < listing(catalog).len(),
        0 <= k < listing(catalog).len(),
        i != k,
    ensures
        listing(catalog)[i].uri != listing(catalog)[k].uri,
{
    let first = listed_at(catalog, i);
    let second = listed_at(catalog, k);
    law_every_descriptor_is_of_a_resource(catalog, i);
    law_every_descriptor_is_of_a_resource(catalog, k);
    law_listed_uri_addresses_its_resource(catalog, first);
    law_listed_uri_addresses_its_resource(catalog, second);
    if listing(catalog)[i].uri == listing(catalog)[k].uri {
        assert(address_of(catalog, first) == address_of(catalog, second));
        match (first, second) {
            (
                Listed::Network { protocol: a, network: m },
                Listed::Network { protocol: b, network: n },
            ) => {
                lemma_same_key_same_index(catalog.protocols, a, b);
                lemma_same_key_same_index(catalog.protocols[a].1.networks, m, n);
            },
            (
                Listed::Interface { protocol: a, interface: m },
                Listed::Interface { protocol: b, interface: n },
            ) => {
                lemma_same_key_same_index(catalog.protocols, a, b);
                lemma_same_key_same_index(catalog.protocols[a].1.abis, m, n);
            },
            (Listed::Page { page: a }, Listed::Page { page: b }) => {
                lemma_same_key_same_index(catalog.documentation, a, b);
            },
            (Listed::Example { example: a }, Listed::Example { example: b }) => {
                lemma_same_key_same_index(catalog.examples, a, b);
            },
            _ => {},
        }
        assert(first == second);
    }
}

/// The object that is made of a table's entries holds, where no name occurs
/// twice, each name's document under that name, and nothing else.
pub proof fn law_object_members_are_the_entries(entries: Seq<(Seq<char>, Json)>)
    requires
        distinct_keys(entries),
    ensures
        forall|key: Seq<char>| #[trigger]
            object_members(entries).contains_key(key) == has_key(entries, key),
        forall|i: int|
            0 <= i < entries.len() ==> object_members(entries)[(#[trigger] entries[i]).0]
                == entries[i].1,
    decreases entries.len(),
{
    if entries.len() != 0 {
        let rest = entries.drop_last();
        let last = entries.len() - 1;
        assert(distinct_keys(rest)) by {
            assert forall|i: int, j: int| 0 <= i < j < rest.len() implies (#[trigger] rest[i]).0 != (
            #[trigger] rest[j]).0 by {
                assert(entries[i].0 != entries[j].0);
            }
        }
        law_object_members_are_the_entries(rest);
        assert forall|key: Seq<char>| #[trigger]
            object_members(entries).contains_key(key) == has_key(entries, key) by {
            if key == entries[last].0 {
                assert(entries[last].0 == key);
                assert(has_key(entries, key));
            } else {
                assert(object_members(entries).contains_key(key) == object_members(
                    rest,
                ).contains_key(key));
                assert(object_members(rest).contains_key(key) == has_key(rest, key));
                if has_key(rest, key) {
                    let i = choose|i: int| 0 <= i < rest.len() && (#[trigger] rest[i]).0 == key;
                    assert(entries[i].0 == key);
                    assert(has_key(entries, key));
                }
                if has_key(entries, key) {
                    let i = choose|i: int|
                        0 <= i < entries.len() && (#[trigger] entries[i]).0 == key;
                    assert(i != last);
                    assert(rest[i].0 == key);
                    assert(has_key(rest, key));
                }
            }
        }
        assert forall|i: int| 0 <= i < entries.len() implies object_members(entries)[(
        #[trigger] entries[i]).0] == entries[i].1 by {
            if i < last {
                assert(rest[i] == entries[i]);
                assert(entries[i].0 != entries[last].0);
            }
        }
    }
}

/// What is read for a network is the network's data together with the
/// protocol's interfaces: under `abis` it holds the object of all the
/// protocol's ABI documents, and under every other key what the network's
/// data holds.
pub proof fn law_network_data_carries_the_interfaces(
    catalog: CatalogView,
    protocol: Seq<char>,
    network: Seq<char>,
)
    requires
        well_formed(catalog),
        has_key(catalog.protocols, protocol),
        has_key(value_of(catalog.protocols, protocol).networks, network),
    ensures
        ({
            let found = value_of(catalog.protocols, protocol);
            let document = network_document(found, network);
            &&& reading(catalog, network_uri(protocol, network)) == Ok::<
                Seq<char>,
                ReadErrorView,
            >(pretty_text(document))
            &&& member(document, "abis"@) == Some(Json::Object(object_members(found.abis)))
            &&& forall|key: Seq<char>|
                key != "abis"@ ==> #[trigger] member(document, key) == member(
                    value_of(found.networks, network),
                    key,
                )
        }),
{
    let at = crate::table::index_of_key(catalog.protocols, protocol);
    let found = catalog.protocols[at].1;
    assert(is_segment(catalog.protocols[at].0) && protocol_well_formed(found));
    let network_at = crate::table::index_of_key(found.networks, network);
    assert(is_segment(found.networks[network_at].0));
    law_network_uri_is_parsed_back(protocol, network);
    let data = value_of(found.networks, network);
    let document = network_document(found, network);
    assert forall|key: Seq<char>| key != "abis"@ implies #[trigger] member(document, key)
        == member(data, key) by {}
}

/// A page of documentation is read by the URI of its key, as its text and as
/// nothing but its text; a key that the catalog does not have is answered
/// with the key.
pub proof fn law_document_is_read_as_its_text(catalog: CatalogView, name: Seq<char>)
    ensures
        reading(catalog, document_uri(name)) == if has_key(catalog.documentation, name) {
            Ok::<Seq<char>, ReadErrorView>(value_of(catalog.documentation, name).content)
        } else {
            Err::<Seq<char>, ReadErrorView>(ReadErrorView::DocumentNotFound { name })
        },
{
    law_document_uri_is_parsed_back(name);
}

/// A page that is put into a catalog is read by the URI of its key, as its
/// text, whether or not the key was there before.
pub proof fn law_inserted_page_is_read(
    catalog: CatalogView,
    key: Seq<char>,
    page: crate::catalog::PageView,
)
    requires
        well_formed(catalog),
    ensures
        reading(
            CatalogView {
                documentation: crate::table::with_entry(catalog.documentation, key, page),
                ..catalog
            },
            document_uri(key),
        ) == Ok::<Seq<char>, ReadErrorView>(page.content),
{
    crate::table::lemma_with_entry(catalog.documentation, key, page);
    law_document_uri_is_parsed_back(key);
}

/// An interface that is put into a protocol of the catalog is read by its
/// URI, as its document written as indented JSON.
pub proof fn law_inserted_interface_is_read(
    catalog: CatalogView,
    protocol: Seq<char>,
    found: ProtocolView,
    interface: Seq<char>,
    document: Json,
)
    requires
        well_formed(catalog),
        crate::catalog::protocol_well_formed(found),
        is_segment(protocol),
        is_segment(interface),
    ensures
        reading(
            CatalogView {
                protocols: crate::table::with_entry(
                    catalog.protocols,
                    protocol,
                    ProtocolView {
                        abis: crate::table::with_entry(found.abis, interface, document),
                        ..found
                    },
                ),
                ..catalog
            },
            abi_uri(protocol, interface),
        ) == Ok::<Seq<char>, ReadErrorView>(pretty_text(document)),
{
    let after = ProtocolView {
        abis: crate::table::with_entry(found.abis, interface, document),
        ..found
    };
    crate::table::lemma_with_entry(found.abis, interface, document);
    crate::table::lemma_with_entry(catalog.protocols, protocol, after);
    law_abi_uri_is_parsed_back(protocol, interface);
}

/// An example is read by the URI of its name, whatever the name holds.
pub proof fn law_example_is_read_by_its_name(catalog: CatalogView, name: Seq<char>)
    ensures
        reading(catalog, example_uri(name)) == if has_key(catalog.examples, name) {
            Ok::<Seq<char>, ReadErrorView>(
                pretty_text(
                    crate::resources::example_document(name, value_of(catalog.examples, name)),
                ),
            )
        } else {
            Err::<Seq<char>, ReadErrorView>(ReadErrorView::ExampleNotFound { name })
        },
{
    law_example_uri_is_parsed_back(name);
}

/// A URI into a protocol that the catalog does not have is answered with the
/// protocol's name, whatever else the URI holds.
pub proof fn law_unknown_protocol_is_named(
    catalog: CatalogView,
    protocol: Seq<char>,
    name: Seq<char>,
)
    requires
        is_segment(protocol),
        is_segment(name),
        !has_key(catalog.protocols, protocol),
    ensures
        reading(catalog, abi_uri(protocol, name)) == Err::<Seq<char>, ReadErrorView>(
            ReadErrorView::ProtocolNotFound { protocol },
        ),
        reading(catalog, network_uri(protocol, name)) == Err::<Seq<char>, ReadErrorView>(
            ReadErrorView::ProtocolNotFound { protocol },
        ),
{
    law_abi_uri_is_parsed_back(protocol, name);
    law_network_uri_is_parsed_back(protocol, name);
}

/// The messages of two reasons are the same only where the reasons are of one
/// kind: from the message a client can tell an unknown scheme, a malformed
/// path, an unknown protocol and a name that is not there apart.
pub proof fn law_messages_tell_the_reasons_apart(first: ReadErrorView, second: ReadErrorView)
    requires
        message_of(first) == message_of(second),
    ensures
        first is UnknownScheme <==> second is UnknownScheme,
        first is MalformedProtocolUri <==> second is MalformedProtocolUri,
        first is ProtocolNotFound <==> second is ProtocolNotFound,
        first is ResourceNotFound <==> second is ResourceNotFound,
        first is DocumentNotFound <==> second is DocumentNotFound,
        first is ExampleNotFound <==> second is ExampleNotFound,
{
    lemma_message_begins(first);
    lemma_message_begins(second);
}

/// The first character of a message, by the reason's kind.
proof fn lemma_message_begins(error: ReadErrorView)
    ensures
        message_of(error).len() > 0,
        message_of(error)[0] == match error {
            ReadErrorView::UnknownScheme { .. } => 'U',
            ReadErrorView::MalformedProtocolUri => 'I',
            ReadErrorView::ProtocolNotFound { .. } => 'P',
            ReadErrorView::ResourceNotFound { .. } => 'R',
            ReadErrorView::DocumentNotFound { .. } => 'D',
            ReadErrorView::ExampleNotFound { .. } => 'T',
        },
{
    reveal_strlit("Unknown resource URI: ");
    reveal_strlit("Invalid protocol URI format");
    reveal_strlit("Protocol '");
    reveal_strlit("Resource not found: ");
    reveal_strlit("Drosera documentation '");
    reveal_strlit("Trap example '");
}

} // verus!
