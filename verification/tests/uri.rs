use mcp_trap_generator::uri::{
    format_abi_uri, format_document_uri, format_example_uri, format_network_uri, parse_uri,
    ResourceUri,
};

#[test]
fn parses_an_interface_uri() {
    assert_eq!(
        parse_uri("protocol://uniswap/abi/IUniswapV3Pool"),
        ResourceUri::Abi {
            protocol: "uniswap".to_string(),
            interface: "IUniswapV3Pool".to_string()
        }
    );
}

#[test]
fn parses_a_network_uri() {
    assert_eq!(
        parse_uri("protocol://uniswap/misc_data/mainnet"),
        ResourceUri::Network { protocol: "uniswap".to_string(), network: "mainnet".to_string() }
    );
}

#[test]
fn a_protocol_path_of_one_segment_is_malformed() {
    assert_eq!(parse_uri("protocol://uniswap"), ResourceUri::Malformed);
    assert_eq!(parse_uri("protocol://"), ResourceUri::Malformed);
}

#[test]
fn a_protocol_path_of_two_segments_names_the_protocol_only() {
    assert_eq!(
        parse_uri("protocol://uniswap/abi"),
        ResourceUri::Elsewhere { protocol: "uniswap".to_string() }
    );
    assert_eq!(
        parse_uri("protocol://uniswap/"),
        ResourceUri::Elsewhere { protocol: "uniswap".to_string() }
    );
}

#[test]
fn a_protocol_path_of_four_segments_names_the_protocol_only() {
    assert_eq!(
        parse_uri("protocol://uniswap/abi/IERC20/extra"),
        ResourceUri::Elsewhere { protocol: "uniswap".to_string() }
    );
    assert_eq!(
        parse_uri("protocol://uniswap/misc_data/mainnet/"),
        ResourceUri::Elsewhere { protocol: "uniswap".to_string() }
    );
}

#[test]
fn an_unknown_resource_type_names_the_protocol_only() {
    assert_eq!(
        parse_uri("protocol://uniswap/badtype/x"),
        ResourceUri::Elsewhere { protocol: "uniswap".to_string() }
    );
    assert_eq!(
        parse_uri("protocol://uniswap/ABI/x"),
        ResourceUri::Elsewhere { protocol: "uniswap".to_string() }
    );
}

#[test]
fn empty_segments_are_segments() {
    assert_eq!(
        parse_uri("protocol:///abi/"),
        ResourceUri::Abi { protocol: "".to_string(), interface: "".to_string() }
    );
    assert_eq!(
        parse_uri("protocol://p/misc_data/"),
        ResourceUri::Network { protocol: "p".to_string(), network: "".to_string() }
    );
}

#[test]
fn a_document_name_may_hold_slashes() {
    assert_eq!(
        parse_uri("drosera://operators/foo"),
        ResourceUri::Document { name: "operators/foo".to_string() }
    );
    assert_eq!(parse_uri("drosera://"), ResourceUri::Document { name: "".to_string() });
    assert_eq!(
        parse_uri("drosera://a/b/c"),
        ResourceUri::Document { name: "a/b/c".to_string() }
    );
}

#[test]
fn parses_an_example_uri() {
    assert_eq!(
        parse_uri("trap-example://hello-trap"),
        ResourceUri::Example { name: "hello-trap".to_string() }
    );
}

#[test]
fn other_schemes_are_unknown() {
    assert_eq!(parse_uri("http://example.com"), ResourceUri::Unknown);
    assert_eq!(parse_uri(""), ResourceUri::Unknown);
    assert_eq!(parse_uri("protocol:/uniswap/abi/x"), ResourceUri::Unknown);
    assert_eq!(parse_uri("Protocol://uniswap/abi/x"), ResourceUri::Unknown);
    assert_eq!(parse_uri(" drosera://x"), ResourceUri::Unknown);
}

#[test]
fn formats_each_kind_of_uri() {
    assert_eq!(format_abi_uri("uniswap", "IERC20"), "protocol://uniswap/abi/IERC20");
    assert_eq!(
        format_network_uri("uniswap", "mainnet"),
        "protocol://uniswap/misc_data/mainnet"
    );
    assert_eq!(format_document_uri("operators/foo"), "drosera://operators/foo");
    assert_eq!(format_example_uri("hello-trap"), "trap-example://hello-trap");
}

#[test]
fn formatted_uris_are_parsed_back() {
    assert_eq!(
        parse_uri(&format_abi_uri("aave", "IPool")),
        ResourceUri::Abi { protocol: "aave".to_string(), interface: "IPool".to_string() }
    );
    assert_eq!(
        parse_uri(&format_network_uri("aave", "base")),
        ResourceUri::Network { protocol: "aave".to_string(), network: "base".to_string() }
    );
    assert_eq!(
        parse_uri(&format_document_uri("trappers/écrire")),
        ResourceUri::Document { name: "trappers/écrire".to_string() }
    );
    assert_eq!(
        parse_uri(&format_example_uri("a/b")),
        ResourceUri::Example { name: "a/b".to_string() }
    );
}
