use mcp_trap_generator::catalog::{Catalog, Example, Page, Protocol};
use mcp_trap_generator::table::Table;
use serde_json::Value;

fn json(text: &str) -> Value {
    serde_json::from_str(text).unwrap()
}

#[test]
fn new_protocol_is_empty() {
    let protocol = Protocol::new();
    assert_eq!(protocol.networks().len(), 0);
    assert_eq!(protocol.abis().len(), 0);
}

#[test]
fn insert_network_takes_objects_and_null() {
    let mut protocol = Protocol::new();
    assert!(protocol.insert_network("mainnet".to_string(), json("{\"chainId\": 1}")));
    assert!(protocol.insert_network("testnet".to_string(), json("null")));
    assert_eq!(protocol.networks().len(), 2);
    assert_eq!(protocol.networks().key_at(0), "mainnet");
    assert_eq!(protocol.networks().value_at(0).value(), &json("{\"chainId\": 1}"));
    assert_eq!(protocol.networks().value_at(1).value(), &Value::Null);
    assert_eq!(protocol.abis().len(), 0);
}

#[test]
fn insert_network_leaves_out_what_cannot_be_merged_into() {
    let mut protocol = Protocol::new();
    assert!(!protocol.insert_network("a".to_string(), json("[1, 2]")));
    assert!(!protocol.insert_network("b".to_string(), json("3")));
    assert!(!protocol.insert_network("c".to_string(), json("\"text\"")));
    assert!(!protocol.insert_network("d".to_string(), json("true")));
    assert_eq!(protocol.networks().len(), 0);
}

#[test]
fn insert_network_leaves_out_names_with_a_slash() {
    let mut protocol = Protocol::new();
    assert!(!protocol.insert_network("main/net".to_string(), json("{}")));
    assert_eq!(protocol.networks().len(), 0);
}

#[test]
fn insert_abi_takes_any_document() {
    let mut protocol = Protocol::new();
    assert!(protocol.insert_abi("IERC20".to_string(), json("[{\"name\": \"transfer\"}]")));
    assert!(protocol.insert_abi("Odd".to_string(), json("7")));
    assert!(!protocol.insert_abi("a/b".to_string(), json("{}")));
    assert_eq!(protocol.abis().len(), 2);
    assert_eq!(protocol.abis().key_at(0), "IERC20");
    assert_eq!(protocol.abis().value_at(1).value(), &json("7"));
    assert_eq!(protocol.networks().len(), 0);
}

#[test]
fn insert_abi_replaces_the_document_of_a_present_name() {
    let mut protocol = Protocol::new();
    assert!(protocol.insert_abi("IERC20".to_string(), json("1")));
    assert!(protocol.insert_abi("IPool".to_string(), json("2")));
    assert!(protocol.insert_abi("IERC20".to_string(), json("3")));
    assert_eq!(protocol.abis().len(), 2);
    assert_eq!(protocol.abis().key_at(0), "IERC20");
    assert_eq!(protocol.abis().value_at(0).value(), &json("3"));
}

#[test]
fn add_abi_reads_json_text() {
    let mut protocol = Protocol::new();
    assert!(protocol.add_abi("IERC20".to_string(), "  {\"name\": \"transfer\"}\n"));
    assert_eq!(protocol.abis().len(), 1);
    assert_eq!(protocol.abis().value_at(0).value(), &json("{\"name\":\"transfer\"}"));
}

#[test]
fn add_abi_leaves_out_malformed_text() {
    let mut protocol = Protocol::new();
    assert!(!protocol.add_abi("IERC20".to_string(), "{\"name\": "));
    assert!(!protocol.add_abi("IERC20".to_string(), ""));
    assert!(!protocol.add_abi("IERC20".to_string(), "{} {}"));
    assert_eq!(protocol.abis().len(), 0);
}

#[test]
fn add_network_reads_json_text() {
    let mut protocol = Protocol::new();
    assert!(protocol.add_network("mainnet".to_string(), "{\"chainId\": 1}"));
    assert!(!protocol.add_network("broken".to_string(), "{chainId: 1}"));
    assert!(!protocol.add_network("list".to_string(), "[]"));
    assert_eq!(protocol.networks().len(), 1);
    assert_eq!(protocol.networks().key_at(0), "mainnet");
}

#[test]
fn page_keeps_its_text_and_category() {
    let page = Page::new("# Title".to_string(), Some("operators".to_string()));
    assert_eq!(page.content(), "# Title");
    assert_eq!(page.category(), Some("operators"));
    let flat = Page::new("".to_string(), None);
    assert_eq!(flat.content(), "");
    assert_eq!(flat.category(), None);
}

#[test]
fn example_starts_without_files() {
    let example = Example::new();
    assert_eq!(example.readme(), None);
    assert!(example.sources().is_none());
    assert!(example.tests().is_none());
}

#[test]
fn example_keeps_what_it_is_given() {
    let mut example = Example::new();
    example.set_readme("Read me".to_string());
    let mut sources: Table<String> = Table::new();
    sources.insert("Trap.sol".to_string(), "contract Trap {}".to_string());
    example.set_sources(sources);
    example.set_tests(Table::new());
    assert_eq!(example.readme(), Some("Read me"));
    assert_eq!(example.sources().unwrap().len(), 1);
    assert_eq!(example.sources().unwrap().get("Trap.sol"), Some(&"contract Trap {}".to_string()));
    assert_eq!(example.tests().unwrap().len(), 0);
}

#[test]
fn new_catalog_is_empty() {
    let catalog = Catalog::new();
    assert_eq!(catalog.protocols().len(), 0);
    assert_eq!(catalog.documentation().len(), 0);
    assert_eq!(catalog.examples().len(), 0);
}

#[test]
fn insert_protocol_leaves_out_names_with_a_slash() {
    let mut catalog = Catalog::new();
    assert!(catalog.insert_protocol("uniswap".to_string(), Protocol::new()));
    assert!(!catalog.insert_protocol("uni/swap".to_string(), Protocol::new()));
    assert!(catalog.insert_protocol("".to_string(), Protocol::new()));
    assert_eq!(catalog.protocols().len(), 2);
    assert_eq!(catalog.protocols().key_at(0), "uniswap");
    assert_eq!(catalog.protocols().key_at(1), "");
}

#[test]
fn insert_protocol_replaces_the_protocol_of_a_present_name() {
    let mut catalog = Catalog::new();
    let mut first = Protocol::new();
    assert!(first.insert_abi("A".to_string(), json("1")));
    assert!(catalog.insert_protocol("uniswap".to_string(), first));
    assert!(catalog.insert_protocol("aave".to_string(), Protocol::new()));
    assert!(catalog.insert_protocol("uniswap".to_string(), Protocol::new()));
    assert_eq!(catalog.protocols().len(), 2);
    assert_eq!(catalog.protocols().key_at(0), "uniswap");
    assert_eq!(catalog.protocols().value_at(0).abis().len(), 0);
}

#[test]
fn add_page_builds_the_key_from_category_and_name() {
    let mut catalog = Catalog::new();
    catalog.add_page(None, "getting-started", "Start".to_string());
    catalog.add_page(Some("operators".to_string()), "foo", "Operate".to_string());
    catalog.add_page(Some("trappers".to_string()), "foo", "Trap".to_string());
    assert_eq!(catalog.documentation().len(), 3);
    assert_eq!(catalog.documentation().key_at(0), "getting-started");
    assert_eq!(catalog.documentation().key_at(1), "operators/foo");
    assert_eq!(catalog.documentation().key_at(2), "trappers/foo");
    assert_eq!(catalog.documentation().value_at(0).category(), None);
    assert_eq!(catalog.documentation().value_at(1).category(), Some("operators"));
    assert_eq!(catalog.documentation().value_at(1).content(), "Operate");
}

#[test]
fn insert_page_and_example_replace_under_a_present_key() {
    let mut catalog = Catalog::new();
    catalog.insert_page("a".to_string(), Page::new("old".to_string(), None));
    catalog.insert_page("a".to_string(), Page::new("new".to_string(), None));
    assert_eq!(catalog.documentation().len(), 1);
    assert_eq!(catalog.documentation().get("a").unwrap().content(), "new");
    let mut with_readme = Example::new();
    with_readme.set_readme("r".to_string());
    catalog.insert_example("e".to_string(), Example::new());
    catalog.insert_example("e".to_string(), with_readme);
    assert_eq!(catalog.examples().len(), 1);
    assert_eq!(catalog.examples().get("e").unwrap().readme(), Some("r"));
}
