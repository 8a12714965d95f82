use omp_visualizer::session::index;

#[test]
fn fingerprint_is_hex_sha256_of_le_fields() {
    assert_eq!(
        index::fingerprint_of(0, 0),
        "374708fff7719dd5979ec875d56cd2286f6d3cf7ec317a3b25632aab28ec37bb"
    );
    assert_eq!(
        index::fingerprint_of(1700000000, 1234),
        "76c6fb64baf347f8f40227519e00b5f964f68afb4597f3a120ce32d4a7debaca"
    );
    assert_eq!(index::fingerprint_of(5, 6).len(), 64);
}

#[test]
fn le_bytes_of_u64() {
    assert_eq!(index::u64_le_bytes(0x0102030405060708), vec![8, 7, 6, 5, 4, 3, 2, 1]);
}

#[test]
fn fts_query_prefix_terms() {
    assert_eq!(index::fts_match_query("hello world"), "hello* world*");
    assert_eq!(index::fts_match_query("  fix: the-parser!  "), "fix* the* parser*");
    assert_eq!(index::fts_match_query("café au"), "café* au*");
    assert_eq!(index::fts_match_query(""), "");
}

#[test]
fn fts_search_query_skips_empty() {
    assert_eq!(index::fts_search_query("!!! ???"), None);
    assert_eq!(index::fts_search_query("rust"), Some("rust*".to_string()));
}
