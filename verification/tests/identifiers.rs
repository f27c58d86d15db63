use scylla_rust_mcp::ident::sanitize_ident;

#[test]
fn plain_names_are_valid() {
    for name in ["a", "_", "id", "user_id", "_private", "Table1", "A9_z", "system_schema"] {
        assert!(sanitize_ident(name), "{name}");
    }
}

#[test]
fn the_empty_name_is_invalid() {
    assert!(!sanitize_ident(""));
}

#[test]
fn a_leading_digit_is_invalid() {
    assert!(!sanitize_ident("1abc"));
    assert!(!sanitize_ident("9"));
    assert!(!sanitize_ident("0_"));
}

#[test]
fn other_characters_are_invalid() {
    for name in [
        "a b", "a-b", "a.b", "a;b", "a'b", "a\"b", "id; DROP TABLE t", "a=1", "a?", "*", "a,b",
        " a", "a ", "a\n", "caf\u{e9}", "\u{430}bc", "a\u{0}",
    ] {
        assert!(!sanitize_ident(name), "{name:?}");
    }
}
