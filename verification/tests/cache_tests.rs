use graphql_parser::query::Definition;
use graphql_parser::query::OperationDefinition;
use graphql_parser::query::Selection;
use query_cache::MemoizingCache;
use query_cache::cached_parse;
use query_cache::parse;
use query_cache::try_cached_parse;
use query_cache::try_parse;

const TRIP_QUERY: &str = "{ trip { tripPatterns { duration } } }";

fn ok(r: Result<query_cache::ParsedDocument, query_cache::ParseFailure>) -> query_cache::ParsedDocument {
    match r {
        Ok(d) => d,
        Err(e) => panic!("expected a document, got failure: {}", e.message()),
    }
}

fn err(r: Result<query_cache::ParsedDocument, query_cache::ParseFailure>) -> query_cache::ParseFailure {
    match r {
        Ok(_) => panic!("expected a failure, got a document"),
        Err(e) => e,
    }
}

#[test]
fn new_cache_is_empty() {
    let cache = MemoizingCache::new();
    assert_eq!(cache.len(), 0);
    assert_eq!(cache.parse_count(), 0);
    assert!(!cache.contains_key(TRIP_QUERY));
}

#[test]
fn miss_then_hit_parses_once() {
    let mut cache = MemoizingCache::new();
    let first = ok(cache.get_or_parse(TRIP_QUERY));
    assert_eq!(cache.parse_count(), 1);
    assert_eq!(cache.len(), 1);
    let second = ok(cache.get_or_parse(TRIP_QUERY));
    assert_eq!(cache.parse_count(), 1);
    assert_eq!(cache.len(), 1);
    assert!(first.structurally_equal(&second));
    assert_eq!(first.to_query_string(), second.to_query_string());
}

#[test]
fn distinct_texts_are_distinct_keys() {
    let mut cache = MemoizingCache::new();
    let plain = ok(cache.get_or_parse("query { a }"));
    assert_eq!(cache.parse_count(), 1);
    let with_newline = ok(cache.get_or_parse("query { a }\n"));
    assert_eq!(cache.parse_count(), 2);
    assert_eq!(cache.len(), 2);
    assert!(cache.contains_key("query { a }"));
    assert!(cache.contains_key("query { a }\n"));
    assert_eq!(plain.to_query_string(), with_newline.to_query_string());
}

#[test]
fn failure_is_not_memoized() {
    let invalid = "query {";
    let mut cache = MemoizingCache::new();
    let first = err(cache.get_or_parse(invalid));
    assert_eq!(cache.parse_count(), 1);
    assert_eq!(cache.len(), 0);
    assert!(!cache.contains_key(invalid));
    let second = err(cache.get_or_parse(invalid));
    assert_eq!(cache.parse_count(), 2);
    assert_eq!(cache.len(), 0);
    assert_eq!(first.message(), second.message());
    assert!(!first.message().is_empty());
}

#[test]
fn entries_do_not_interfere() {
    let q1 = "query { a }";
    let q2 = "{ b }";
    let mut cache = MemoizingCache::new();
    let d2_before = ok(cache.get_or_parse(q2));
    let _ = ok(cache.get_or_parse(q1));
    assert_eq!(cache.parse_count(), 2);
    assert!(cache.contains_key(q2));
    let d2_after = ok(cache.get_or_parse(q2));
    assert_eq!(cache.parse_count(), 2);
    assert!(d2_before.structurally_equal(&d2_after));
    assert_eq!(cache.len(), 2);
}

#[test]
fn trip_query_scenario() {
    // The expected structure, checked on the external parser's own AST.
    let reference = graphql_parser::query::parse_query::<String>(TRIP_QUERY)
        .expect("valid query");
    assert_eq!(reference.definitions.len(), 1);
    let set = match &reference.definitions[0] {
        Definition::Operation(OperationDefinition::SelectionSet(set)) => set,
        other => panic!("unexpected definition: {:?}", other),
    };
    assert_eq!(set.items.len(), 1);
    let trip = match &set.items[0] {
        Selection::Field(f) => f,
        other => panic!("unexpected selection: {:?}", other),
    };
    assert_eq!(trip.name, "trip");
    assert_eq!(trip.selection_set.items.len(), 1);
    let trip_patterns = match &trip.selection_set.items[0] {
        Selection::Field(f) => f,
        other => panic!("unexpected selection: {:?}", other),
    };
    assert_eq!(trip_patterns.name, "tripPatterns");
    assert_eq!(trip_patterns.selection_set.items.len(), 1);
    let duration = match &trip_patterns.selection_set.items[0] {
        Selection::Field(f) => f,
        other => panic!("unexpected selection: {:?}", other),
    };
    assert_eq!(duration.name, "duration");
    assert!(duration.selection_set.items.is_empty());

    // The cache returns a document of exactly that structure, and a second
    // call returns a structurally identical one without parsing again.
    let mut cache = MemoizingCache::new();
    let first = ok(cache.get_or_parse(TRIP_QUERY));
    assert_eq!(first.to_query_string(), reference.to_string());
    assert_eq!(cache.parse_count(), 1);
    let second = ok(cache.get_or_parse(TRIP_QUERY));
    assert!(first.structurally_equal(&second));
    assert_eq!(second.to_query_string(), reference.to_string());
    assert_eq!(cache.parse_count(), 1);
}

#[test]
fn parse_returns_the_parsed_document() {
    let document = parse("query { a }");
    let reference = graphql_parser::query::parse_query::<String>("query { a }")
        .expect("valid query");
    assert_eq!(document.to_query_string(), reference.to_string());
    // The canonical rendering is not the input text handed back.
    assert_ne!(document.to_query_string(), "query { a }");
}

#[test]
fn documents_of_distinct_queries_differ() {
    let a = parse("query { a }");
    let b = parse("{ b }");
    assert!(!a.structurally_equal(&b));
    assert_ne!(a.to_query_string(), b.to_query_string());
}

#[test]
fn try_parse_reports_the_parser_error() {
    let invalid = "query {";
    let failure = err(try_parse(invalid));
    let reference = graphql_parser::query::parse_query::<String>(invalid)
        .expect_err("invalid query");
    assert_eq!(failure.message(), reference.to_string());
}

#[test]
fn try_parse_accepts_a_valid_query() {
    let document = ok(try_parse(TRIP_QUERY));
    let reference = graphql_parser::query::parse_query::<String>(TRIP_QUERY)
        .expect("valid query");
    assert_eq!(document.to_query_string(), reference.to_string());
}

#[test]
fn cached_parse_reuses_the_cache() {
    let mut cache = MemoizingCache::new();
    let first = cached_parse(&mut cache, TRIP_QUERY);
    assert_eq!(cache.parse_count(), 1);
    let second = cached_parse(&mut cache, TRIP_QUERY);
    assert_eq!(cache.parse_count(), 1);
    assert!(first.structurally_equal(&second));
}

#[test]
fn try_cached_parse_handles_both_outcomes() {
    let mut cache = MemoizingCache::new();
    let document = ok(try_cached_parse(&mut cache, "query { a }"));
    assert!(cache.contains_key("query { a }"));
    assert_eq!(cache.parse_count(), 1);
    let again = ok(try_cached_parse(&mut cache, "query { a }"));
    assert!(document.structurally_equal(&again));
    assert_eq!(cache.parse_count(), 1);

    let failure = err(try_cached_parse(&mut cache, "query {"));
    assert!(!failure.message().is_empty());
    assert!(!cache.contains_key("query {"));
    assert_eq!(cache.len(), 1);
    // The failing attempt is a real, counted parser invocation.
    assert_eq!(cache.parse_count(), 2);
}

#[test]
fn ascii_block_strings_parse() {
    let q = "{ f(arg: \"\"\"abc\ndef\"\"\") }";
    assert!(query_cache::has_block_string(q));
    assert!(!query_cache::is_unsupported_text(q));
    let mut cache = MemoizingCache::new();
    let document = ok(cache.get_or_parse(q));
    assert_eq!(cache.parse_count(), 1);
    assert_eq!(cache.len(), 1);
    let reference = graphql_parser::query::parse_query::<String>(q).expect("valid query");
    assert_eq!(document.to_query_string(), reference.to_string());
    let again = ok(cache.get_or_parse(q));
    assert_eq!(cache.parse_count(), 1);
    assert!(document.structurally_equal(&again));
}

#[test]
fn exotic_block_string_indentation_is_refused() {
    // Lines of the block string mix ASCII and multibyte whitespace; the
    // external parser's unquoting would slice inside a character here.
    let q = "{ f(x: \"\"\"\n  a\n\u{2003}b\"\"\") }";
    assert!(query_cache::is_unsupported_text(q));
    let mut cache = MemoizingCache::new();
    let failure = err(try_cached_parse(&mut cache, q));
    assert_eq!(failure.message(), "block string with non-ascii whitespace is not supported");
    assert_eq!(cache.len(), 0);
    assert_eq!(cache.parse_count(), 0);
    let failure_again = err(try_parse(q));
    assert_eq!(failure_again.message(), failure.message());
}

#[test]
fn quote_scan_matches_the_text() {
    assert!(!query_cache::has_block_string(""));
    assert!(!query_cache::has_block_string("\"\""));
    assert!(query_cache::has_block_string("\"\"\""));
    assert!(!query_cache::has_block_string("{ f(s: \"a\") }"));
    assert!(!query_cache::has_block_string("\"a\"\"b\""));
    assert!(query_cache::has_block_string("x\u{2003}\"\"\"y"));
    assert!(!query_cache::has_wide_whitespace("plain text"));
    assert!(query_cache::has_wide_whitespace("a\u{00A0}b"));
    assert!(!query_cache::is_unsupported_text("\"\"\"ascii\"\"\""));
    assert!(!query_cache::is_unsupported_text("\u{2003}"));
    assert!(query_cache::is_unsupported_text("x\u{2003}\"\"\"y"));
}

#[test]
fn cloned_documents_stay_equal() {
    let document = parse(TRIP_QUERY);
    let copy = document.clone();
    assert!(document.structurally_equal(&copy));
    assert_eq!(document.to_query_string(), copy.to_query_string());
}
