//! The catalog: everything the server can hand out, in three namespaces.
//!
//! * protocols, by name: each with its data per network and its interfaces
//!   (ABI documents), both JSON;
//! * documentation, by page name (`<name>`, or `<category>/<name>`): Markdown
//!   text;
//! * examples, by name: an optional readme, source files and test files.
//!
//! A catalog is filled once, before the first request, and only read after
//! that. Filling it never fails as a whole: what cannot be taken is left out,
//! and the function that was asked says so in its result.
//!
//! Every catalog is well formed ([`well_formed`]): no name occurs twice in a
//! namespace, the names that stand in the path of a URI hold no `/`, and the
//! data of every network can take the interfaces in. The types keep this as
//! their invariant, so that no function here asks it of its caller.

use crate::json::{is_null, is_object, json_of, parse, parsed_text, Json, JsonDoc};
use crate::table::{distinct_keys, lemma_with_entry, with_entry, Table};
use crate::text::holds_char;
use serde_json::Value;
use vstd::prelude::*;

verus! {

/// A protocol: its data on each network and each of its interfaces, by name
/// and in the order of insertion.
pub struct ProtocolView {
    pub networks: Seq<(Seq<char>, Json)>,
    pub abis: Seq<(Seq<char>, Json)>,
}

/// A page of documentation.
pub struct PageView {
    pub content: Seq<char>,
    pub category: Option<Seq<char>>,
}

/// An example bundle: its files by file name, where it has any.
pub struct ExampleView {
    pub readme: Option<Seq<char>>,
    pub sources: Option<Seq<(Seq<char>, Seq<char>)>>,
    pub tests: Option<Seq<(Seq<char>, Seq<char>)>>,
}

/// A catalog: its three namespaces, each by name and in the order of
/// insertion.
pub struct CatalogView {
    pub protocols: Seq<(Seq<char>, ProtocolView)>,
    pub documentation: Seq<(Seq<char>, PageView)>,
    pub examples: Seq<(Seq<char>, ExampleView)>,
}

/// A name that can stand as one segment of a path: it holds no `/`.
pub open spec fn is_segment(name: Seq<char>) -> bool {
    !name.contains('/')
}

/// Data onto which a protocol's interfaces can be merged: an object, or
/// `null`, which stands for the empty object.
pub open spec fn is_mergeable(data: Json) -> bool {
    data is Object || data is Null
}

/// A protocol is well formed when no network and no interface occurs twice,
/// their names are path segments, and the data of every network is
/// mergeable.
pub open spec fn protocol_well_formed(protocol: ProtocolView) -> bool {
    &&& distinct_keys(protocol.networks)
    &&& distinct_keys(protocol.abis)
    &&& forall|i: int|
        0 <= i < protocol.networks.len() ==> is_segment((#[trigger] protocol.networks[i]).0)
            && is_mergeable(protocol.networks[i].1)
    &&& forall|i: int| 0 <= i < protocol.abis.len() ==> is_segment((#[trigger] protocol.abis[i]).0)
}

/// An example is well formed when no file name occurs twice among its
/// sources, nor among its tests.
pub open spec fn example_well_formed(example: ExampleView) -> bool {
    &&& example.sources matches Some(files) ==> distinct_keys(files)
    &&& example.tests matches Some(files) ==> distinct_keys(files)
}

/// A catalog is well formed when no name occurs twice within a namespace,
/// every protocol's name is a path segment, and every protocol and example
/// is well formed.
pub open spec fn well_formed(catalog: CatalogView) -> bool {
    &&& distinct_keys(catalog.protocols)
    &&& distinct_keys(catalog.documentation)
    &&& distinct_keys(catalog.examples)
    &&& forall|i: int|
        0 <= i < catalog.protocols.len() ==> is_segment((#[trigger] catalog.protocols[i]).0)
            && protocol_well_formed(catalog.protocols[i].1)
    &&& forall|i: int|
        0 <= i < catalog.examples.len() ==> example_well_formed((#[trigger] catalog.examples[i]).1)
}

/// The key of a page of documentation: its name, behind its category and a
/// `/` where it has a category.
pub open spec fn page_key(category: Option<Seq<char>>, name: Seq<char>) -> Seq<char> {
    match category {
        Some(category) => category + seq!['/'] + name,
        None => name,
    }
}

/// A protocol's data and interfaces.
pub struct Protocol {
    networks: Table<JsonDoc>,
    abis: Table<JsonDoc>,
}

impl View for Protocol {
    type V = ProtocolView;

    closed spec fn view(&self) -> ProtocolView {
        ProtocolView { networks: self.networks@, abis: self.abis@ }
    }
}

impl Protocol {
    /// The invariant of a protocol, which every protocol meets.
    #[verifier::type_invariant]
    pub open spec fn wf(&self) -> bool {
        protocol_well_formed(self@)
    }

    /// A protocol without networks and interfaces.
    pub fn new() -> (protocol: Self)
        ensures
            protocol@.networks.len() == 0,
            protocol@.abis.len() == 0,
    {
        Protocol { networks: Table::new(), abis: Table::new() }
    }

    /// The data per network.
    pub fn networks(&self) -> (table: &Table<JsonDoc>)
        ensures
            table@ == self@.networks,
    {
        &self.networks
    }

    /// The interfaces.
    pub fn abis(&self) -> (table: &Table<JsonDoc>)
        ensures
            table@ == self@.abis,
    {
        &self.abis
    }

    /// Puts a network's data under the network's name, in place of what the
    /// name had. The data is taken where the name is a path segment and the
    /// data is an object or `null`; otherwise the protocol stays as it is.
    pub fn insert_network(&mut self, name: String, data: Value) -> (taken: bool)
        ensures
            taken == (is_segment(name@) && is_mergeable(json_of(data))),
            final(self)@.abis == old(self)@.abis,
            final(self)@.networks == if taken {
                with_entry(old(self)@.networks, name@, json_of(data))
            } else {
                old(self)@.networks
            },
    {
        if holds_char(name.as_str(), '/') || !(is_object(&data) || is_null(&data)) {
            return false;
        }
        proof {
            use_type_invariant(&*self);
            lemma_with_entry(self@.networks, name@, json_of(data));
        }
        // The table is taken out while it changes: the invariant holds at every step.
        let mut networks: Table<JsonDoc> = Table::new();
        std::mem::swap(&mut networks, &mut self.networks);
        networks.insert(name, JsonDoc::new(data));
        self.networks = networks;
        true
    }

    /// Puts an interface's ABI document under the interface's name, in place
    /// of what the name had. The document is taken where the name is a path
    /// segment; otherwise the protocol stays as it is.
    pub fn insert_abi(&mut self, name: String, document: Value) -> (taken: bool)
        ensures
            taken == is_segment(name@),
            final(self)@.networks == old(self)@.networks,
            final(self)@.abis == if taken {
                with_entry(old(self)@.abis, name@, json_of(document))
            } else {
                old(self)@.abis
            },
    {
        if holds_char(name.as_str(), '/') {
            return false;
        }
        proof {
            use_type_invariant(&*self);
            lemma_with_entry(self@.abis, name@, json_of(document));
        }
        // The table is taken out while it changes: the invariant holds at every step.
        let mut abis: Table<JsonDoc> = Table::new();
        std::mem::swap(&mut abis, &mut self.abis);
        abis.insert(name, JsonDoc::new(document));
        self.abis = abis;
        true
    }

    /// Reads a network's data from JSON text and puts it under the network's
    /// name. The data is taken where the text is one JSON document that is an
    /// object or `null`, and the name is a path segment; otherwise the
    /// protocol stays as it is.
    pub fn add_network(&mut self, name: String, text: &str) -> (taken: bool)
        ensures
            final(self)@.abis == old(self)@.abis,
            final(self)@.networks == network_added(old(self)@.networks, name@, parsed_text(text@)),
            taken == network_taken(name@, parsed_text(text@)),
    {
        match parse(text) {
            Some(data) => self.insert_network(name, data),
            None => false,
        }
    }

    /// Reads an interface's ABI document from JSON text and puts it under the
    /// interface's name. The document is taken where the text is one JSON
    /// document and the name is a path segment; otherwise the protocol stays
    /// as it is.
    pub fn add_abi(&mut self, name: String, text: &str) -> (taken: bool)
        ensures
            final(self)@.networks == old(self)@.networks,
            final(self)@.abis == abi_added(old(self)@.abis, name@, parsed_text(text@)),
            taken == abi_taken(name@, parsed_text(text@)),
    {
        match parse(text) {
            Some(document) => self.insert_abi(name, document),
            None => false,
        }
    }
}

/// Whether a network's data, read from text, is taken under the name.
pub open spec fn network_taken(name: Seq<char>, data: Option<Json>) -> bool {
    data matches Some(data) && is_segment(name) && is_mergeable(data)
}

/// The networks of a protocol after data read from text was offered under a
/// name.
pub open spec fn network_added(
    networks: Seq<(Seq<char>, Json)>,
    name: Seq<char>,
    data: Option<Json>,
) -> Seq<(Seq<char>, Json)> {
    if network_taken(name, data) {
        with_entry(networks, name, data->0)
    } else {
        networks
    }
}

/// Whether an interface's document, read from text, is taken under the name.
pub open spec fn abi_taken(name: Seq<char>, document: Option<Json>) -> bool {
    document is Some && is_segment(name)
}

/// The interfaces of a protocol after a document read from text was offered
/// under a name.
pub open spec fn abi_added(
    abis: Seq<(Seq<char>, Json)>,
    name: Seq<char>,
    document: Option<Json>,
) -> Seq<(Seq<char>, Json)> {
    if abi_taken(name, document) {
        with_entry(abis, name, document->0)
    } else {
        abis
    }
}

/// A page of documentation: its text, and its category where it has one.
pub struct Page {
    content: String,
    category: Option<String>,
}

impl View for Page {
    type V = PageView;

    closed spec fn view(&self) -> PageView {
        PageView {
            content: self.content@,
            category: match self.category {
                Some(category) => Some(category@),
                None => None,
            },
        }
    }
}

impl Page {
    /// A page with the given text and category.
    pub fn new(content: String, category: Option<String>) -> (page: Self)
        ensures
            page@.content == content@,
            page@.category == match category {
                Some(category) => Some(category@),
                None => None::<Seq<char>>,
            },
    {
        Page { content, category }
    }

    /// The page's text.
    pub fn content(&self) -> (content: &str)
        ensures
            content@ == self@.content,
    {
        self.content.as_str()
    }

    /// The page's category, where it has one.
    pub fn category(&self) -> (category: Option<&str>)
        ensures
            match category {
                Some(category) => self@.category == Some(category@),
                None => self@.category is None,
            },
    {
        match &self.category {
            Some(category) => Some(category.as_str()),
            None => None,
        }
    }
}

/// The files of an example, over texts.
pub open spec fn files_view(files: Option<Table<String>>) -> Option<Seq<(Seq<char>, Seq<char>)>> {
    match files {
        Some(files) => Some(files@),
        None => None,
    }
}

/// An example bundle.
pub struct Example {
    readme: Option<String>,
    sources: Option<Table<String>>,
    tests: Option<Table<String>>,
}

impl View for Example {
    type V = ExampleView;

    closed spec fn view(&self) -> ExampleView {
        ExampleView {
            readme: match self.readme {
                Some(readme) => Some(readme@),
                None => None,
            },
            sources: files_view(self.sources),
            tests: files_view(self.tests),
        }
    }
}

impl Example {
    /// The invariant of an example, which every example meets.
    #[verifier::type_invariant]
    pub open spec fn wf(&self) -> bool {
        example_well_formed(self@)
    }

    /// An example without a readme, sources and tests.
    pub fn new() -> (example: Self)
        ensures
            example@.readme is None,
            example@.sources is None,
            example@.tests is None,
    {
        Example { readme: None, sources: None, tests: None }
    }

    /// Gives the example a readme, in place of the one it had.
    pub fn set_readme(&mut self, text: String)
        ensures
            final(self)@.readme == Some(text@),
            final(self)@.sources == old(self)@.sources,
            final(self)@.tests == old(self)@.tests,
    {
        proof {
            use_type_invariant(&*self);
        }
        self.readme = Some(text);
    }

    /// Gives the example its source files, in place of those it had.
    pub fn set_sources(&mut self, files: Table<String>)
        ensures
            final(self)@.readme == old(self)@.readme,
            final(self)@.sources == Some(files@),
            final(self)@.tests == old(self)@.tests,
    {
        proof {
            use_type_invariant(&*self);
            use_type_invariant(&files);
        }
        self.sources = Some(files);
    }

    /// Gives the example its test files, in place of those it had.
    pub fn set_tests(&mut self, files: Table<String>)
        ensures
            final(self)@.readme == old(self)@.readme,
            final(self)@.sources == old(self)@.sources,
            final(self)@.tests == Some(files@),
    {
        proof {
            use_type_invariant(&*self);
            use_type_invariant(&files);
        }
        self.tests = Some(files);
    }

    /// The readme, where the example has one.
    pub fn readme(&self) -> (readme: Option<&str>)
        ensures
            match readme {
                Some(text) => self@.readme == Some(text@),
                None => self@.readme is None,
            },
    {
        match &self.readme {
            Some(text) => Some(text.as_str()),
            None => None,
        }
    }

    /// The source files, where the example has any.
    pub fn sources(&self) -> (files: Option<&Table<String>>)
        ensures
            match files {
                Some(files) => self@.sources == Some(files@),
                None => self@.sources is None,
            },
    {
        self.sources.as_ref()
    }

    /// The test files, where the example has any.
    pub fn tests(&self) -> (files: Option<&Table<String>>)
        ensures
            match files {
                Some(files) => self@.tests == Some(files@),
                None => self@.tests is None,
            },
    {
        self.tests.as_ref()
    }
}

/// The catalog.
pub struct Catalog {
    protocols: Table<Protocol>,
    documentation: Table<Page>,
    examples: Table<Example>,
}

impl View for Catalog {
    type V = CatalogView;

    closed spec fn view(&self) -> CatalogView {
        CatalogView {
            protocols: self.protocols@,
            documentation: self.documentation@,
            examples: self.examples@,
        }
    }
}

impl Catalog {
    /// The invariant of a catalog, which every catalog meets.
    #[verifier::type_invariant]
    pub open spec fn wf(&self) -> bool {
        well_formed(self@)
    }

    /// The empty catalog.
    pub fn new() -> (catalog: Self)
        ensures
            catalog@.protocols.len() == 0,
            catalog@.documentation.len() == 0,
            catalog@.examples.len() == 0,
    {
        Catalog { protocols: Table::new(), documentation: Table::new(), examples: Table::new() }
    }

    /// The protocols.
    pub fn protocols(&self) -> (table: &Table<Protocol>)
        ensures
            table@ == self@.protocols,
    {
        &self.protocols
    }

    /// The pages of documentation.
    pub fn documentation(&self) -> (table: &Table<Page>)
        ensures
            table@ == self@.documentation,
    {
        &self.documentation
    }

    /// The examples.
    pub fn examples(&self) -> (table: &Table<Example>)
        ensures
            table@ == self@.examples,
    {
        &self.examples
    }

    /// Puts a protocol under a name, in place of the protocol that the name
    /// had. The protocol is taken where the name is a path segment;
    /// otherwise the catalog stays as it is.
    pub fn insert_protocol(&mut self, name: String, protocol: Protocol) -> (taken: bool)
        ensures
            taken == is_segment(name@),
            final(self)@.documentation == old(self)@.documentation,
            final(self)@.examples == old(self)@.examples,
            final(self)@.protocols == if taken {
                with_entry(old(self)@.protocols, name@, protocol@)
            } else {
                old(self)@.protocols
            },
    {
        if holds_char(name.as_str(), '/') {
            return false;
        }
        proof {
            use_type_invariant(&*self);
            use_type_invariant(&protocol);
            lemma_with_entry(self@.protocols, name@, protocol@);
        }
        // The table is taken out while it changes: the invariant holds at every step.
        let mut protocols: Table<Protocol> = Table::new();
        std::mem::swap(&mut protocols, &mut self.protocols);
        protocols.insert(name, protocol);
        self.protocols = protocols;
        true
    }

    /// Puts a page of documentation under a key, in place of the page that
    /// the key had.
    pub fn insert_page(&mut self, key: String, page: Page)
        ensures
            final(self)@.protocols == old(self)@.protocols,
            final(self)@.examples == old(self)@.examples,
            final(self)@.documentation == with_entry(old(self)@.documentation, key@, page@),
    {
        proof {
            use_type_invariant(&*self);
            lemma_with_entry(self@.documentation, key@, page@);
        }
        // The table is taken out while it changes: the invariant holds at every step.
        let mut documentation: Table<Page> = Table::new();
        std::mem::swap(&mut documentation, &mut self.documentation);
        documentation.insert(key, page);
        self.documentation = documentation;
    }

    /// Puts a page of documentation under the key made of its category and
    /// its name.
    pub fn add_page(&mut self, category: Option<String>, name: &str, content: String)
        ensures
            final(self)@.protocols == old(self)@.protocols,
            final(self)@.examples == old(self)@.examples,
            final(self)@.documentation == with_entry(
                old(self)@.documentation,
                page_key(option_text(category), name@),
                (PageView { content: content@, category: option_text(category) }),
            ),
    {
        let key = match &category {
            Some(category) => {
                let mut key = category.clone();
                key.append("/");
                key.append(name);
                proof {
                    reveal_strlit("/");
                    assert("/"@ =~= seq!['/']);
                }
                key
            },
            None => name.to_owned(),
        };
        self.insert_page(key, Page::new(content, category));
    }

    /// Puts an example under a name, in place of the example that the name
    /// had.
    pub fn insert_example(&mut self, name: String, example: Example)
        ensures
            final(self)@.protocols == old(self)@.protocols,
            final(self)@.documentation == old(self)@.documentation,
            final(self)@.examples == with_entry(old(self)@.examples, name@, example@),
    {
        proof {
            use_type_invariant(&*self);
            use_type_invariant(&example);
            lemma_with_entry(self@.examples, name@, example@);
        }
        // The table is taken out while it changes: the invariant holds at every step.
        let mut examples: Table<Example> = Table::new();
        std::mem::swap(&mut examples, &mut self.examples);
        examples.insert(name, example);
        self.examples = examples;
    }
}

/// The text of an optional string.
pub open spec fn option_text(text: Option<String>) -> Option<Seq<char>> {
    match text {
        Some(text) => Some(text@),
        None => None,
    }
}

} // verus!
