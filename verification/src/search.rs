//! Similarity search: the statement that asks for the nearest neighbours, and
//! the decoding of the rows that come back.
//!
//! The statement joins the row table to the vector index, asks the index for
//! the `limit` nearest neighbours of the query vector, and keeps those of them
//! that meet the filter. The filter is applied to the neighbours found, not
//! before the search: fewer than `limit` rows may come back although more rows
//! meet the filter further away. Rows at the same distance come in the order of
//! their row ids.

use crate::filter::{compile_filter, compiled, compiles_to, FilterError, FilterModel, Predicate};
use crate::options::SqliteOptions;
use crate::query::{bind_models, push_text_binds, text_binds, Bind, BindModel, Query, QueryModel};
use crate::filter::lemma_placeholders_match_params;
use crate::schema::{index_name, is_identifier, Store};
use crate::text::{count, lemma_count_absent, lemma_count_append, lemma_count_pair, lemma_count_single};
use vstd::prelude::*;
use vstd::string::StringExecFns;

verus! {

/// Why a search cannot be asked.
#[derive(Clone, Copy, Debug, PartialEq, Eq, Structural)]
pub enum SearchError {
    /// The query vector has another length than the collection's embeddings.
    DimensionMismatch,
    /// The limit is zero, or too large to be bound as an integer.
    InvalidLimit,
    /// The filter cannot be compiled.
    InvalidFilter(FilterError),
}

/// What a text is when it is read as a JSON document.
#[derive(Clone, Copy, Debug, PartialEq, Eq, Structural)]
pub enum JsonKind {
    /// A JSON object.
    Object,
    /// Another JSON value.
    Other,
    /// No JSON document.
    Malformed,
}

/// What is wrong with the stored metadata of a row.
#[derive(Clone, Copy, Debug, PartialEq, Eq, Structural)]
pub enum DecodeError {
    /// The metadata is no JSON document.
    Malformed,
    /// The metadata is a JSON value, but not an object.
    NotAnObject,
}

/// A stored document. `metadata` is the text of a JSON object, and `score` is
/// what the caller attaches to the document (the distance, on retrieval).
#[derive(Clone, Debug, PartialEq)]
pub struct Document<S> {
    pub page_content: String,
    pub metadata: String,
    pub score: S,
}

/// A decoded row: the document, and what was found wrong with its stored
/// metadata, if anything.
#[derive(Clone, Debug, PartialEq)]
pub struct Decoded<S> {
    pub document: Document<S>,
    pub anomaly: Option<DecodeError>,
}

/// What `serde_json` makes of `text` when it parses it as one JSON document.
pub uninterp spec fn json_kind(text: Seq<char>) -> JsonKind;

/// Parses `text` with `serde_json::from_str` into a `serde_json::Value` and
/// reports whether that gave an object, another value, or an error. The parse
/// depends on the text alone.
#[verifier::external_body]
fn classify_json(text: &str) -> (kind: JsonKind)
    ensures
        kind == json_kind(text@),
{
    match serde_json::from_str::<serde_json::Value>(text) {
        Ok(serde_json::Value::Object(_)) => JsonKind::Object,
        Ok(_) => JsonKind::Other,
        Err(_) => JsonKind::Malformed,
    }
}

/// The metadata of a document whose stored metadata `blob` is of kind `kind`:
/// the blob itself when it is an object, and else the empty object.
pub open spec fn kept_metadata(blob: Seq<char>, kind: JsonKind) -> Seq<char> {
    if kind == JsonKind::Object {
        blob
    } else {
        "{}"@
    }
}

/// What is reported of stored metadata of kind `kind`.
pub open spec fn anomaly_of(kind: JsonKind) -> Option<DecodeError> {
    match kind {
        JsonKind::Object => None,
        JsonKind::Other => Some(DecodeError::NotAnObject),
        JsonKind::Malformed => Some(DecodeError::Malformed),
    }
}

/// The text of the search statement for the table `table` and the condition
/// `clause`.
pub open spec fn search_sql(table: Seq<char>, clause: Seq<char>) -> Seq<char> {
    "SELECT text, metadata, distance FROM "@ + table + " e INNER JOIN "@ + index_name(table)
        + " v ON v.rowid = e.rowid WHERE v.text_embedding MATCH ? AND k = ? AND "@ + clause
        + " ORDER BY distance, e.rowid LIMIT ?"@
}

/// The binds of the search statement: the query vector, the number of
/// neighbours, the parameters of the condition, and the limit.
pub open spec fn search_binds(limit: int, params: Seq<Seq<char>>) -> Seq<BindModel> {
    seq![BindModel::Embedding, BindModel::Integer(limit)] + text_binds(params)
        + seq![BindModel::Integer(limit)]
}

/// The search statement of a collection, or why there is none. A query vector
/// of the wrong length is reported first, then a limit that is not positive or
/// does not fit, then a filter that cannot be compiled.
pub open spec fn search_plan(
    table: Seq<char>,
    dimensions: int,
    query_dimensions: int,
    limit: int,
    filter: Option<FilterModel>,
) -> Result<QueryModel, SearchError> {
    if query_dimensions != dimensions {
        Err(SearchError::DimensionMismatch)
    } else if limit < 1 || limit > i64::MAX {
        Err(SearchError::InvalidLimit)
    } else {
        match compiled(filter) {
            Err(e) => Err(SearchError::InvalidFilter(e)),
            Ok(p) => Ok(
                QueryModel { sql: search_sql(table, p.clause), binds: search_binds(limit, p.params) },
            ),
        }
    }
}

/// Whether a planning result `r` is the one that `expected` describes.
pub open spec fn plans_to(r: Result<Query, SearchError>, expected: Result<QueryModel, SearchError>)
    -> bool {
    match r {
        Ok(q) => expected == Ok::<QueryModel, SearchError>(q@),
        Err(e) => expected == Err::<QueryModel, SearchError>(e),
    }
}

/// Makes a document of a row whose stored metadata is known to be of kind
/// `kind`. Metadata that is no object is replaced by the empty object, and the
/// replacement is reported beside the document.
pub fn decode_row<S>(page_content: String, metadata: String, score: S, kind: JsonKind) -> (d:
    Decoded<S>)
    ensures
        d.document.page_content@ == page_content@,
        d.document.metadata@ == kept_metadata(metadata@, kind),
        d.document.score == score,
        d.anomaly == anomaly_of(kind),
{
    match kind {
        JsonKind::Object => Decoded {
            document: Document { page_content, metadata, score },
            anomaly: None,
        },
        JsonKind::Other => Decoded {
            document: Document { page_content, metadata: String::from_str("{}"), score },
            anomaly: Some(DecodeError::NotAnObject),
        },
        JsonKind::Malformed => Decoded {
            document: Document { page_content, metadata: String::from_str("{}"), score },
            anomaly: Some(DecodeError::Malformed),
        },
    }
}

/// Makes a document of a row as the engine returned it. The stored metadata is
/// parsed: where it is no JSON object, the document gets the empty object and
/// the anomaly is reported beside it, so that one bad row never fails a search.
pub fn decode<S>(page_content: String, metadata: String, score: S) -> (d: Decoded<S>)
    ensures
        d.document.page_content@ == page_content@,
        d.document.metadata@ == kept_metadata(metadata@, json_kind(metadata@)),
        d.document.score == score,
        d.anomaly == anomaly_of(json_kind(metadata@)),
{
    let kind = classify_json(metadata.as_str());
    decode_row(page_content, metadata, score, kind)
}

/// What the metadata of each document of `docs` is as a JSON document.
pub fn kinds_of<S>(docs: &Vec<Document<S>>) -> (kinds: Vec<JsonKind>)
    ensures
        kinds@.len() == docs@.len(),
        forall|i: int| 0 <= i < docs@.len() ==> kinds@[i] == json_kind(#[trigger] docs@[i].metadata@),
{
    let mut kinds: Vec<JsonKind> = Vec::new();
    let mut i: usize = 0;
    while i < docs.len()
        invariant
            i <= docs.len(),
            kinds@.len() == i,
            forall|j: int| 0 <= j < i ==> kinds@[j] == json_kind(#[trigger] docs@[j].metadata@),
        decreases docs.len() - i,
    {
        kinds.push(classify_json(docs[i].metadata.as_str()));
        i += 1;
    }
    kinds
}

impl Store {
    /// Compiles the filter of `opt`, or the condition that every row meets when
    /// `opt` has none.
    pub fn get_filters(&self, opt: &SqliteOptions) -> (r: Result<Predicate, FilterError>)
        ensures
            compiles_to(r, compiled(opt.filter_model())),
    {
        match &opt.filters {
            Some(filter) => compile_filter(Some(filter)),
            None => compile_filter(None),
        }
    }

    /// The statement that finds the `limit` nearest neighbours of a query vector
    /// of `query_dimensions` numbers and keeps those that meet the filter of
    /// `opt`, nearest first.
    ///
    /// Nothing is to be sent to the engine when the vector has the wrong length,
    /// the limit is zero or the filter cannot be compiled.
    pub fn search_query(&self, query_dimensions: usize, limit: usize, opt: &SqliteOptions) -> (r:
        Result<Query, SearchError>)
        ensures
            plans_to(
                r,
                search_plan(
                    self.table_name(),
                    self.dimensions(),
                    query_dimensions as int,
                    limit as int,
                    opt.filter_model(),
                ),
            ),
    {
        let dimensions = self.vector_dimensions();
        if query_dimensions as u64 != dimensions as u64 {
            return Err(SearchError::DimensionMismatch);
        }
        if limit < 1 || limit as u64 > i64::MAX as u64 {
            return Err(SearchError::InvalidLimit);
        }
        let predicate = match self.get_filters(opt) {
            Ok(p) => p,
            Err(e) => {
                return Err(SearchError::InvalidFilter(e));
            },
        };
        let table = self.table();
        let mut sql = String::from_str("SELECT text, metadata, distance FROM ");
        sql.append(table);
        sql.append(" e INNER JOIN ");
        sql.append("vec_");
        sql.append(table);
        sql.append(" v ON v.rowid = e.rowid WHERE v.text_embedding MATCH ? AND k = ? AND ");
        sql.append(predicate.clause.as_str());
        sql.append(" ORDER BY distance, e.rowid LIMIT ?");
        let mut binds: Vec<Bind> = Vec::new();
        binds.push(Bind::Embedding);
        binds.push(Bind::Integer(limit as i64));
        push_text_binds(&mut binds, &predicate.params);
        let ghost before = binds@;
        binds.push(Bind::Integer(limit as i64));
        let q = Query { sql, binds };
        proof {
            assert(bind_models(q.binds@) =~= bind_models(before).push(
                BindModel::Integer(limit as int),
            ));
            assert(q@.binds =~= search_binds(limit as int, predicate@.params));
            assert(q@.sql =~= search_sql(self.table_name(), predicate@.clause));
        }
        Ok(q)
    }
}

/// The search statement holds one placeholder for each of its binds: the
/// query vector, the number of neighbours, each parameter of the condition,
/// and the limit. The name of the table adds none.
pub proof fn lemma_search_binds_match(
    table: Seq<char>,
    limit: int,
    filter: Option<FilterModel>,
)
    requires
        is_identifier(table),
        compiled(filter) is Ok,
    ensures
        count(search_sql(table, compiled(filter)->Ok_0.clause), '?') == search_binds(
            limit,
            compiled(filter)->Ok_0.params,
        ).len(),
{
    let p = compiled(filter)->Ok_0;
    match filter {
        Some(model) => {
            lemma_placeholders_match_params(model);
        },
        None => {
            reveal_strlit("TRUE");
            lemma_count_absent("TRUE"@, '?');
        },
    }
    reveal_strlit("SELECT text, metadata, distance FROM ");
    reveal_strlit(" e INNER JOIN ");
    reveal_strlit("vec_");
    reveal_strlit(" v ON v.rowid = e.rowid WHERE v.text_embedding MATCH ? AND k = ? AND ");
    reveal_strlit(" ORDER BY distance, e.rowid LIMIT ?");
    let a = "SELECT text, metadata, distance FROM "@;
    let b = " e INNER JOIN "@;
    let c = " v ON v.rowid = e.rowid WHERE v.text_embedding MATCH ? AND k = ? AND "@;
    let d = " ORDER BY distance, e.rowid LIMIT ?"@;
    lemma_count_absent(a, '?');
    lemma_count_absent(b, '?');
    lemma_count_absent("vec_"@, '?');
    lemma_count_absent(table, '?');
    lemma_count_pair(c, '?', 53, 63);
    lemma_count_single(d, '?', 34);
    lemma_count_append("vec_"@, table, '?');
    lemma_count_append(a, table, '?');
    lemma_count_append(a + table, b, '?');
    lemma_count_append(a + table + b, index_name(table), '?');
    lemma_count_append(a + table + b + index_name(table), c, '?');
    lemma_count_append(a + table + b + index_name(table) + c, p.clause, '?');
    lemma_count_append(a + table + b + index_name(table) + c + p.clause, d, '?');
}

} // verus!
