use sqlite_vector_store::filter::{CmpOp, FilterError, Predicate, SqliteFilter};
use sqlite_vector_store::options::SqliteOptions;
use sqlite_vector_store::query::{Bind, Query};
use sqlite_vector_store::schema::Store;
use sqlite_vector_store::search::{
    decode, decode_row, kinds_of, DecodeError, Decoded, Document, JsonKind, SearchError,
};

fn docs() -> Store {
    Store::new("docs".to_string(), 3).unwrap()
}

fn text(s: &str) -> String {
    s.to_string()
}

fn animals() -> SqliteOptions {
    SqliteOptions::new().with_filters(SqliteFilter::Eq(text("type"), text("animal")))
}

#[test]
fn options_start_empty() {
    assert_eq!(SqliteOptions::new().filters, None);
    assert_eq!(SqliteOptions::default(), SqliteOptions::new());
    assert_eq!(animals().filters, Some(SqliteFilter::Eq(text("type"), text("animal"))));
}

#[test]
fn filters_of_the_options_are_compiled() {
    let store = docs();
    assert_eq!(
        store.get_filters(&SqliteOptions::new()),
        Ok(Predicate { clause: text("TRUE"), params: vec![] })
    );
    assert_eq!(
        store.get_filters(&animals()),
        Ok(Predicate {
            clause: text("json_extract(e.metadata, ?) = ?"),
            params: vec![text("$.\"type\""), text("animal")],
        })
    );
    let empty = SqliteOptions::new().with_filters(SqliteFilter::And(vec![]));
    assert_eq!(store.get_filters(&empty), Err(FilterError::EmptyGroup));
}

#[test]
fn animals_among_the_five_nearest() {
    let q = docs().search_query(3, 5, &animals()).unwrap();
    assert_eq!(
        q.sql,
        "SELECT text, metadata, distance FROM docs e INNER JOIN vec_docs v ON v.rowid = e.rowid \
         WHERE v.text_embedding MATCH ? AND k = ? AND json_extract(e.metadata, ?) = ? ORDER BY \
         distance, e.rowid LIMIT ?"
    );
    assert_eq!(
        q.binds,
        vec![
            Bind::Embedding,
            Bind::Integer(5),
            Bind::Text(text("$.\"type\"")),
            Bind::Text(text("animal")),
            Bind::Integer(5),
        ]
    );
}

#[test]
fn the_nearest_without_a_filter() {
    let q = docs().search_query(3, 1, &SqliteOptions::new()).unwrap();
    assert_eq!(
        q,
        Query {
            sql: text(
                "SELECT text, metadata, distance FROM docs e INNER JOIN vec_docs v ON v.rowid = \
                 e.rowid WHERE v.text_embedding MATCH ? AND k = ? AND TRUE ORDER BY distance, \
                 e.rowid LIMIT ?"
            ),
            binds: vec![Bind::Embedding, Bind::Integer(1), Bind::Integer(1)],
        }
    );
}

#[test]
fn the_same_search_is_planned_alike() {
    let store = docs();
    assert_eq!(store.search_query(3, 1, &SqliteOptions::new()), store.search_query(3, 1, &SqliteOptions::new()));
    assert_eq!(store.search_query(3, 5, &animals()), store.search_query(3, 5, &animals()));
}

#[test]
fn every_bind_has_its_placeholder() {
    let filter = SqliteFilter::Or(vec![
        SqliteFilter::In(text("a"), vec![text("1"), text("2")]),
        SqliteFilter::Cmp(CmpOp::Greater, text("b"), text("?")),
    ]);
    let q = docs().search_query(3, 7, &SqliteOptions::new().with_filters(filter)).unwrap();
    assert_eq!(q.binds.len(), 8);
    assert_eq!(q.sql.chars().filter(|c| *c == '?').count(), 8);
}

#[test]
fn a_query_vector_of_the_wrong_length_is_refused() {
    let store = docs();
    assert_eq!(store.search_query(2, 5, &animals()), Err(SearchError::DimensionMismatch));
    assert_eq!(store.search_query(4, 5, &animals()), Err(SearchError::DimensionMismatch));
    assert_eq!(store.search_query(0, 5, &SqliteOptions::new()), Err(SearchError::DimensionMismatch));
    assert_eq!(
        store.search_query(usize::MAX, 5, &SqliteOptions::new()),
        Err(SearchError::DimensionMismatch)
    );
}

#[test]
fn the_wrong_length_is_reported_first() {
    let empty = SqliteOptions::new().with_filters(SqliteFilter::Or(vec![]));
    assert_eq!(docs().search_query(2, 0, &empty), Err(SearchError::DimensionMismatch));
    assert_eq!(docs().search_query(3, 0, &empty), Err(SearchError::InvalidLimit));
    assert_eq!(
        docs().search_query(3, 1, &empty),
        Err(SearchError::InvalidFilter(FilterError::EmptyGroup))
    );
}

#[test]
fn a_limit_of_zero_is_refused() {
    assert_eq!(docs().search_query(3, 0, &SqliteOptions::new()), Err(SearchError::InvalidLimit));
}

#[test]
fn a_limit_beyond_the_integers_is_refused() {
    assert_eq!(
        docs().search_query(3, usize::MAX, &SqliteOptions::new()),
        Err(SearchError::InvalidLimit)
    );
}

#[test]
fn a_bad_filter_is_refused() {
    let bad = SqliteOptions::new().with_filters(SqliteFilter::Eq(text("a\"b"), text("1")));
    assert_eq!(
        docs().search_query(3, 5, &bad),
        Err(SearchError::InvalidFilter(FilterError::InvalidField))
    );
}

#[test]
fn hostile_values_leave_the_statement_alone() {
    let plain = docs().search_query(3, 5, &animals()).unwrap();
    let hostile = SqliteOptions::new()
        .with_filters(SqliteFilter::Eq(text("type"), text("x' OR 1=1; DROP TABLE docs; --")));
    let q = docs().search_query(3, 5, &hostile).unwrap();
    assert_eq!(q.sql, plain.sql);
    assert_eq!(q.binds[3], Bind::Text(text("x' OR 1=1; DROP TABLE docs; --")));
}

#[test]
fn object_metadata_is_kept() {
    let d = decode(text("cat"), text("{\"type\":\"animal\"}"), 0.1f64);
    assert_eq!(
        d,
        Decoded {
            document: Document {
                page_content: text("cat"),
                metadata: text("{\"type\":\"animal\"}"),
                score: 0.1f64,
            },
            anomaly: None,
        }
    );
}

#[test]
fn object_metadata_is_kept_as_it_is_written() {
    let blob = " { \"a\" : [1, 2.5, null, true], \"b\": {\"c\": \"\\u00e9\"} } ";
    let d = decode(text("x"), text(blob), 7u8);
    assert_eq!(d.document.metadata, blob);
    assert_eq!(d.document.score, 7u8);
    assert_eq!(d.anomaly, None);
    assert_eq!(decode(text("x"), text("{}"), ()).anomaly, None);
}

#[test]
fn other_json_degrades_to_the_empty_object() {
    for blob in ["[1,2]", "\"text\"", "3", "3.5", "true", "null", "[]"] {
        let d = decode(text("car"), text(blob), 1.5f64);
        assert_eq!(d.document.page_content, "car");
        assert_eq!(d.document.metadata, "{}");
        assert_eq!(d.document.score, 1.5f64);
        assert_eq!(d.anomaly, Some(DecodeError::NotAnObject));
    }
}

#[test]
fn malformed_metadata_degrades_to_the_empty_object() {
    for blob in ["", "{", "{\"a\":}", "not json", "{} {}", "{'a': 1}", "{\"a\": 1,}"] {
        let d = decode(text("car"), text(blob), 2i64);
        assert_eq!(d.document.metadata, "{}");
        assert_eq!(d.anomaly, Some(DecodeError::Malformed));
    }
}

#[test]
fn rows_of_a_known_kind() {
    let kept = decode_row(text("a"), text("{\"k\":1}"), 0u8, JsonKind::Object);
    assert_eq!(kept.document.metadata, "{\"k\":1}");
    assert_eq!(kept.anomaly, None);
    let other = decode_row(text("a"), text("[1]"), 0u8, JsonKind::Other);
    assert_eq!(other.document.metadata, "{}");
    assert_eq!(other.anomaly, Some(DecodeError::NotAnObject));
    let bad = decode_row(text("a"), text("{"), 0u8, JsonKind::Malformed);
    assert_eq!(bad.document.metadata, "{}");
    assert_eq!(bad.anomaly, Some(DecodeError::Malformed));
}

#[test]
fn the_rows_of_the_animals() {
    let rows = vec![(text("cat"), text("{\"type\":\"animal\"}"), 0.02f64)];
    let found: Vec<String> = rows
        .into_iter()
        .map(|(content, metadata, distance)| decode(content, metadata, distance).document.page_content)
        .collect();
    assert_eq!(found, vec![text("cat")]);
}

#[test]
fn kinds_of_a_batch() {
    let batch = vec![
        Document { page_content: text("a"), metadata: text("{}"), score: () },
        Document { page_content: text("b"), metadata: text("[]"), score: () },
        Document { page_content: text("c"), metadata: text("{"), score: () },
    ];
    assert_eq!(kinds_of(&batch), vec![JsonKind::Object, JsonKind::Other, JsonKind::Malformed]);
    assert!(kinds_of::<()>(&vec![]).is_empty());
}
