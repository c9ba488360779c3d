//! Ingestion of a batch of documents, as a session that tells its driver what
//! to do next and is told what came of it.
//!
//! The driver performs the outside work: it asks the embedder, opens the
//! transaction, inserts the rows and commits. The session decides. The
//! embedder is asked before the transaction is opened, so no transaction waits
//! for it. The transaction is committed only when every row of the batch went
//! in, and is rolled back when anything fails before that.

use crate::query::{bind_models, Bind, BindModel, Query, QueryModel};
use crate::schema::{is_identifier, Store};
use crate::search::{json_kind, kinds_of, Document, JsonKind};
use crate::text::{
    count, lemma_count_absent, lemma_count_append, lemma_count_single, signed_decimal,
    signed_decimal_string, texts,
};
use vstd::prelude::*;
use vstd::string::StringExecFns;

verus! {

/// Why a batch was not ingested.
#[derive(Clone, Copy, Debug, PartialEq, Eq, Structural)]
pub enum IngestError {
    /// The metadata of the document at this position is no JSON object.
    InvalidMetadata(usize),
    /// The embedder failed.
    EmbeddingFailed,
    /// The embedder did not return one vector for each document.
    EmbeddingCountMismatch,
    /// A vector has another length than the collection's embeddings.
    DimensionMismatch,
    /// The storage engine failed.
    StorageFailed,
    /// The driver reported something that the session was not waiting for.
    OutOfOrder,
}

/// Where a session stands.
#[derive(Clone, Copy, Debug, PartialEq, Eq, Structural)]
pub enum IngestPhase {
    /// The embedder is to be asked for the vectors of all documents at once.
    Embedding,
    /// The transaction is to be opened.
    Opening,
    /// The next document is to be inserted.
    Inserting,
    /// The transaction is to be committed.
    Committing,
    /// The open transaction is to be rolled back.
    RollingBack(IngestError),
    /// The batch is stored.
    Finished,
    /// Nothing of the batch is stored.
    Failed(IngestError),
}

/// What the driver reports to the session.
#[derive(Clone, Debug, PartialEq)]
pub enum IngestEvent {
    /// The embedder returned vectors of these lengths, in this order.
    Embedded(Vec<usize>),
    /// The embedder failed.
    EmbeddingFailed,
    /// The transaction is open.
    TransactionOpened,
    /// The row went in and the engine gave it this id.
    RowInserted(i64),
    /// The transaction is committed.
    Committed,
    /// The transaction is rolled back.
    RolledBack,
    /// The engine failed at what it was asked.
    StorageFailed,
}

/// What the session asks of the driver.
#[derive(Clone, Debug, PartialEq)]
pub enum IngestAction {
    /// Ask the embedder for the vectors of all documents, in one call.
    Embed,
    /// Open a transaction.
    Begin,
    /// Insert the document at this position, inside the transaction.
    Insert(usize),
    /// Commit the transaction.
    Commit,
    /// Roll the transaction back.
    Rollback,
    /// Return the ids of the stored rows, in the order of the documents.
    Finish(Vec<String>),
    /// Return the error. Nothing of the batch is stored.
    Fail(IngestError),
}

/// The mathematical content of an [`IngestEvent`].
pub enum EventModel {
    Embedded(Seq<usize>),
    EmbeddingFailed,
    TransactionOpened,
    RowInserted(i64),
    Committed,
    RolledBack,
    StorageFailed,
}

/// The mathematical content of an [`IngestAction`].
pub enum ActionModel {
    Embed,
    Begin,
    Insert(int),
    Commit,
    Rollback,
    Finish(Seq<Seq<char>>),
    Fail(IngestError),
}

impl View for IngestEvent {
    type V = EventModel;

    open spec fn view(&self) -> EventModel {
        match self {
            IngestEvent::Embedded(lengths) => EventModel::Embedded(lengths@),
            IngestEvent::EmbeddingFailed => EventModel::EmbeddingFailed,
            IngestEvent::TransactionOpened => EventModel::TransactionOpened,
            IngestEvent::RowInserted(id) => EventModel::RowInserted(*id),
            IngestEvent::Committed => EventModel::Committed,
            IngestEvent::RolledBack => EventModel::RolledBack,
            IngestEvent::StorageFailed => EventModel::StorageFailed,
        }
    }
}

impl View for IngestAction {
    type V = ActionModel;

    open spec fn view(&self) -> ActionModel {
        match self {
            IngestAction::Embed => ActionModel::Embed,
            IngestAction::Begin => ActionModel::Begin,
            IngestAction::Insert(i) => ActionModel::Insert(*i as int),
            IngestAction::Commit => ActionModel::Commit,
            IngestAction::Rollback => ActionModel::Rollback,
            IngestAction::Finish(ids) => ActionModel::Finish(texts(ids@)),
            IngestAction::Fail(e) => ActionModel::Fail(*e),
        }
    }
}

/// The mathematical content of an [`IngestSession`].
pub struct SessionModel {
    /// The number of documents of the batch.
    pub total: nat,
    /// The length that every vector must have.
    pub dimensions: nat,
    pub phase: IngestPhase,
    /// The ids of the rows inserted so far, in the order of the documents.
    pub row_ids: Seq<i64>,
}

/// The ids as the caller gets them: decimal numerals, in the same order.
pub open spec fn id_texts(row_ids: Seq<i64>) -> Seq<Seq<char>> {
    Seq::new(row_ids.len(), |i: int| signed_decimal(row_ids[i] as int))
}

/// Whether every vector has the length `dimensions`.
pub open spec fn all_of_length(lengths: Seq<usize>, dimensions: nat) -> bool {
    forall|i: int| 0 <= i < lengths.len() ==> #[trigger] lengths[i] == dimensions
}

/// What is wrong with vectors of these lengths for a batch of `total`
/// documents, if anything. A wrong count is reported before a wrong length.
pub open spec fn embedding_fault(lengths: Seq<usize>, total: nat, dimensions: nat) -> Option<
    IngestError,
> {
    if lengths.len() != total {
        Some(IngestError::EmbeddingCountMismatch)
    } else if !all_of_length(lengths, dimensions) {
        Some(IngestError::DimensionMismatch)
    } else {
        None
    }
}

impl SessionModel {
    /// The session of a batch of `total` documents before anything happened.
    pub open spec fn initial(total: nat, dimensions: nat) -> SessionModel {
        SessionModel { total, dimensions, phase: IngestPhase::Embedding, row_ids: Seq::empty() }
    }

    /// What holds of every session: the rows inserted are never more than the
    /// documents, none is inserted before the transaction is open, and all are
    /// inserted before the transaction is committed.
    pub open spec fn consistent(self) -> bool {
        match self.phase {
            IngestPhase::Embedding => self.row_ids.len() == 0,
            IngestPhase::Opening => self.row_ids.len() == 0,
            IngestPhase::Inserting => self.row_ids.len() < self.total,
            IngestPhase::Committing => self.row_ids.len() == self.total,
            IngestPhase::Finished => self.row_ids.len() == self.total,
            IngestPhase::RollingBack(_) => self.row_ids.len() <= self.total,
            IngestPhase::Failed(_) => self.row_ids.len() <= self.total,
        }
    }

    /// Whether the batch has failed: it is being rolled back or is given up.
    pub open spec fn failed(self) -> bool {
        self.phase is RollingBack || self.phase is Failed
    }

    /// Whether a transaction is open.
    pub open spec fn in_transaction(self) -> bool {
        self.phase is Inserting || self.phase is Committing || self.phase is RollingBack
    }

    /// The same session in another phase.
    pub open spec fn at(self, phase: IngestPhase) -> SessionModel {
        SessionModel { phase, ..self }
    }

    /// What the session asks of its driver.
    pub open spec fn action(self) -> ActionModel {
        match self.phase {
            IngestPhase::Embedding => ActionModel::Embed,
            IngestPhase::Opening => ActionModel::Begin,
            IngestPhase::Inserting => ActionModel::Insert(self.row_ids.len() as int),
            IngestPhase::Committing => ActionModel::Commit,
            IngestPhase::RollingBack(_) => ActionModel::Rollback,
            IngestPhase::Finished => ActionModel::Finish(id_texts(self.row_ids)),
            IngestPhase::Failed(e) => ActionModel::Fail(e),
        }
    }

    /// The session after the driver reported `event`.
    ///
    /// Outside a transaction every failure gives the batch up at once. Inside a
    /// transaction a failure has the transaction rolled back first, except that a
    /// commit that failed leaves nothing to roll back. A finished and a failed
    /// session stay as they are.
    pub open spec fn next(self, event: EventModel) -> SessionModel {
        match self.phase {
            IngestPhase::Embedding => match event {
                EventModel::Embedded(lengths) => match embedding_fault(
                    lengths,
                    self.total,
                    self.dimensions,
                ) {
                    Some(e) => self.at(IngestPhase::Failed(e)),
                    None => self.at(IngestPhase::Opening),
                },
                EventModel::EmbeddingFailed => self.at(
                    IngestPhase::Failed(IngestError::EmbeddingFailed),
                ),
                _ => self.at(IngestPhase::Failed(IngestError::OutOfOrder)),
            },
            IngestPhase::Opening => match event {
                EventModel::TransactionOpened => if self.total == 0 {
                    self.at(IngestPhase::Committing)
                } else {
                    self.at(IngestPhase::Inserting)
                },
                EventModel::StorageFailed => self.at(
                    IngestPhase::Failed(IngestError::StorageFailed),
                ),
                _ => self.at(IngestPhase::Failed(IngestError::OutOfOrder)),
            },
            IngestPhase::Inserting => match event {
                EventModel::RowInserted(id) => SessionModel {
                    phase: if self.row_ids.len() + 1 == self.total {
                        IngestPhase::Committing
                    } else {
                        IngestPhase::Inserting
                    },
                    row_ids: self.row_ids.push(id),
                    ..self
                },
                EventModel::StorageFailed => self.at(
                    IngestPhase::RollingBack(IngestError::StorageFailed),
                ),
                _ => self.at(IngestPhase::RollingBack(IngestError::OutOfOrder)),
            },
            IngestPhase::Committing => match event {
                EventModel::Committed => self.at(IngestPhase::Finished),
                EventModel::StorageFailed => self.at(
                    IngestPhase::Failed(IngestError::StorageFailed),
                ),
                _ => self.at(IngestPhase::RollingBack(IngestError::OutOfOrder)),
            },
            IngestPhase::RollingBack(e) => self.at(IngestPhase::Failed(e)),
            IngestPhase::Finished => self,
            IngestPhase::Failed(_) => self,
        }
    }

    /// The session after the driver reported `events`, one after the other.
    pub open spec fn run(self, events: Seq<EventModel>) -> SessionModel
        decreases events.len(),
    {
        if events.len() == 0 {
            self
        } else {
            self.run(events.drop_last()).next(events.last())
        }
    }
}

/// The statement that inserts one document.
pub open spec fn insert_sql(table: Seq<char>) -> Seq<char> {
    "INSERT INTO "@ + table + " (text, metadata, text_embedding) VALUES (?, ?, ?)"@
}

/// The statement that inserts a document with its binds: the text, the
/// metadata and the document's vector.
pub open spec fn insert_query(table: Seq<char>, page_content: Seq<char>, metadata: Seq<char>)
    -> QueryModel {
    QueryModel {
        sql: insert_sql(table),
        binds: seq![BindModel::Text(page_content), BindModel::Text(metadata), BindModel::Embedding],
    }
}

/// The position of the first kind that is no object, if there is one.
pub open spec fn first_invalid(kinds: Seq<JsonKind>) -> Option<int>
    decreases kinds.len(),
{
    if kinds.len() == 0 {
        None
    } else {
        match first_invalid(kinds.drop_last()) {
            Some(i) => Some(i),
            None => if kinds.last() == JsonKind::Object {
                None
            } else {
                Some(kinds.len() - 1)
            },
        }
    }
}

/// The kinds of the metadata of `docs`, in order.
pub open spec fn metadata_kinds<S>(docs: Seq<Document<S>>) -> Seq<JsonKind> {
    Seq::new(docs.len(), |i: int| json_kind(docs[i].metadata@))
}

/// The ingestion of one batch.
#[derive(Debug, PartialEq)]
pub struct IngestSession {
    total: usize,
    dimensions: usize,
    phase: IngestPhase,
    row_ids: Vec<i64>,
}

impl View for IngestSession {
    type V = SessionModel;

    closed spec fn view(&self) -> SessionModel {
        SessionModel {
            total: self.total as nat,
            dimensions: self.dimensions as nat,
            phase: self.phase,
            row_ids: self.row_ids@,
        }
    }
}

/// Whether every vector has the length `dimensions`.
fn check_lengths(lengths: &Vec<usize>, dimensions: usize) -> (ok: bool)
    ensures
        ok == all_of_length(lengths@, dimensions as nat),
{
    let mut i: usize = 0;
    while i < lengths.len()
        invariant
            i <= lengths.len(),
            forall|j: int| 0 <= j < i ==> #[trigger] lengths@[j] == dimensions,
        decreases lengths.len() - i,
    {
        if lengths[i] != dimensions {
            return false;
        }
        i += 1;
    }
    true
}

/// The position of the first kind that is no object, if there is one.
pub fn find_invalid(kinds: &Vec<JsonKind>) -> (r: Option<usize>)
    ensures
        match r {
            Some(i) => first_invalid(kinds@) == Some(i as int),
            None => first_invalid(kinds@) is None,
        },
{
    let mut i: usize = 0;
    while i < kinds.len()
        invariant
            i <= kinds.len(),
            first_invalid(kinds@.take(i as int)) is None,
        decreases kinds.len() - i,
    {
        proof {
            assert(kinds@.take(i + 1).drop_last() =~= kinds@.take(i as int));
        }
        if kinds[i] != JsonKind::Object {
            proof {
                lemma_first_invalid_prefix(kinds@, i + 1);
            }
            return Some(i);
        }
        i += 1;
    }
    assert(kinds@.take(kinds.len() as int) =~= kinds@);
    None
}

/// A position found in a prefix is the position found in the whole.
proof fn lemma_first_invalid_prefix(kinds: Seq<JsonKind>, n: int)
    requires
        0 <= n <= kinds.len(),
        first_invalid(kinds.take(n)) is Some,
    ensures
        first_invalid(kinds) == first_invalid(kinds.take(n)),
    decreases kinds.len() - n,
{
    if n < kinds.len() {
        assert(kinds.take(n + 1).drop_last() =~= kinds.take(n));
        lemma_first_invalid_prefix(kinds, n + 1);
    } else {
        assert(kinds.take(n) =~= kinds);
    }
}

impl IngestSession {
    /// A session for a batch of `total` documents with vectors of `dimensions`
    /// numbers.
    pub fn new(total: usize, dimensions: usize) -> (session: IngestSession)
        ensures
            session@ == SessionModel::initial(total as nat, dimensions as nat),
    {
        IngestSession { total, dimensions, phase: IngestPhase::Embedding, row_ids: Vec::new() }
    }

    /// Where the session stands.
    pub fn phase(&self) -> (phase: IngestPhase)
        ensures
            phase == self@.phase,
    {
        self.phase
    }

    fn ids(&self) -> (ids: Vec<String>)
        ensures
            texts(ids@) == id_texts(self@.row_ids),
    {
        let mut ids: Vec<String> = Vec::new();
        let mut i: usize = 0;
        while i < self.row_ids.len()
            invariant
                i <= self.row_ids.len(),
                texts(ids@) == id_texts(self.row_ids@).take(i as int),
            decreases self.row_ids.len() - i,
        {
            let ghost before = ids@;
            ids.push(signed_decimal_string(self.row_ids[i]));
            assert(texts(ids@) =~= texts(before).push(signed_decimal(self.row_ids@[i as int] as int)));
            assert(id_texts(self.row_ids@).take(i + 1) =~= id_texts(self.row_ids@).take(
                i as int,
            ).push(signed_decimal(self.row_ids@[i as int] as int)));
            i += 1;
        }
        assert(id_texts(self.row_ids@).take(self.row_ids.len() as int) =~= id_texts(
            self.row_ids@,
        ));
        ids
    }

    /// What the driver is to do next.
    pub fn action(&self) -> (action: IngestAction)
        ensures
            action@ == self@.action(),
    {
        match self.phase {
            IngestPhase::Embedding => IngestAction::Embed,
            IngestPhase::Opening => IngestAction::Begin,
            IngestPhase::Inserting => IngestAction::Insert(self.row_ids.len()),
            IngestPhase::Committing => IngestAction::Commit,
            IngestPhase::RollingBack(_) => IngestAction::Rollback,
            IngestPhase::Finished => IngestAction::Finish(self.ids()),
            IngestPhase::Failed(e) => IngestAction::Fail(e),
        }
    }

    /// Takes in what the driver reports of the last action.
    pub fn advance(&mut self, event: IngestEvent)
        ensures
            final(self)@ == old(self)@.next(event@),
    {
        match self.phase {
            IngestPhase::Embedding => match event {
                IngestEvent::Embedded(lengths) => {
                    if lengths.len() != self.total {
                        self.phase = IngestPhase::Failed(IngestError::EmbeddingCountMismatch);
                    } else if !check_lengths(&lengths, self.dimensions) {
                        self.phase = IngestPhase::Failed(IngestError::DimensionMismatch);
                    } else {
                        self.phase = IngestPhase::Opening;
                    }
                },
                IngestEvent::EmbeddingFailed => {
                    self.phase = IngestPhase::Failed(IngestError::EmbeddingFailed);
                },
                _ => {
                    self.phase = IngestPhase::Failed(IngestError::OutOfOrder);
                },
            },
            IngestPhase::Opening => match event {
                IngestEvent::TransactionOpened => {
                    if self.total == 0 {
                        self.phase = IngestPhase::Committing;
                    } else {
                        self.phase = IngestPhase::Inserting;
                    }
                },
                IngestEvent::StorageFailed => {
                    self.phase = IngestPhase::Failed(IngestError::StorageFailed);
                },
                _ => {
                    self.phase = IngestPhase::Failed(IngestError::OutOfOrder);
                },
            },
            IngestPhase::Inserting => match event {
                IngestEvent::RowInserted(id) => {
                    self.row_ids.push(id);
                    if self.row_ids.len() == self.total {
                        self.phase = IngestPhase::Committing;
                    }
                },
                IngestEvent::StorageFailed => {
                    self.phase = IngestPhase::RollingBack(IngestError::StorageFailed);
                },
                _ => {
                    self.phase = IngestPhase::RollingBack(IngestError::OutOfOrder);
                },
            },
            IngestPhase::Committing => match event {
                IngestEvent::Committed => {
                    self.phase = IngestPhase::Finished;
                },
                IngestEvent::StorageFailed => {
                    self.phase = IngestPhase::Failed(IngestError::StorageFailed);
                },
                _ => {
                    self.phase = IngestPhase::RollingBack(IngestError::OutOfOrder);
                },
            },
            IngestPhase::RollingBack(e) => {
                self.phase = IngestPhase::Failed(e);
            },
            IngestPhase::Finished => {},
            IngestPhase::Failed(_) => {},
        }
    }
}

impl Store {
    /// The statement that inserts one document. The row's id is given by the
    /// engine, and the trigger of the collection enters the row's vector into
    /// the index within the same transaction.
    pub fn insert_query(&self, page_content: &str, metadata: &str) -> (q: Query)
        ensures
            q@ == insert_query(self.table_name(), page_content@, metadata@),
    {
        let mut sql = String::from_str("INSERT INTO ");
        sql.append(self.table());
        sql.append(" (text, metadata, text_embedding) VALUES (?, ?, ?)");
        let mut binds: Vec<Bind> = Vec::new();
        binds.push(Bind::Text(String::from_str(page_content)));
        binds.push(Bind::Text(String::from_str(metadata)));
        binds.push(Bind::Embedding);
        let q = Query { sql, binds };
        assert(q@.binds =~= insert_query(self.table_name(), page_content@, metadata@).binds);
        q
    }

    /// Starts the ingestion of a batch whose metadata are known to be of the
    /// kinds `kinds`. A document whose metadata is no JSON object is the caller's
    /// error: the first such document is reported and nothing is started.
    pub fn begin_ingest_checked(&self, kinds: &Vec<JsonKind>) -> (r: Result<
        IngestSession,
        IngestError,
    >)
        ensures
            match r {
                Ok(session) => first_invalid(kinds@) is None && session@ == SessionModel::initial(
                    kinds@.len(),
                    self.dimensions() as nat,
                ),
                Err(IngestError::InvalidMetadata(i)) => first_invalid(kinds@) == Some(i as int),
                Err(_) => false,
            },
    {
        match find_invalid(kinds) {
            Some(i) => Err(IngestError::InvalidMetadata(i)),
            None => Ok(IngestSession::new(kinds.len(), self.vector_dimensions() as usize)),
        }
    }

    /// Starts the ingestion of `docs`. The metadata of every document is parsed
    /// first: a document whose metadata is no JSON object is the caller's error,
    /// the first such document is reported and nothing is started.
    pub fn begin_ingest<S>(&self, docs: &Vec<Document<S>>) -> (r: Result<
        IngestSession,
        IngestError,
    >)
        ensures
            match r {
                Ok(session) => first_invalid(metadata_kinds(docs@)) is None && session@
                    == SessionModel::initial(docs@.len(), self.dimensions() as nat),
                Err(IngestError::InvalidMetadata(i)) => first_invalid(metadata_kinds(docs@))
                    == Some(i as int),
                Err(_) => false,
            },
    {
        let kinds = kinds_of(docs);
        assert(kinds@ =~= metadata_kinds(docs@));
        self.begin_ingest_checked(&kinds)
    }
}

/// Whatever is reported, a consistent session stays consistent. Every session
/// starts consistent, so every session that can be reached is: it never asks
/// for a commit before every row went in, and never holds more rows than the
/// batch has documents.
pub proof fn lemma_sessions_stay_consistent(s: SessionModel, events: Seq<EventModel>)
    requires
        s.consistent(),
    ensures
        s.run(events).consistent(),
        s.run(events).total == s.total,
        s.run(events).dimensions == s.dimensions,
        SessionModel::initial(s.total, s.dimensions).consistent(),
    decreases events.len(),
{
    if events.len() > 0 {
        lemma_sessions_stay_consistent(s, events.drop_last());
    }
}

/// A batch is all or nothing. Once anything has failed, the session never
/// again asks for an insert or a commit and never reports success, whatever
/// the driver reports afterwards: the batch is rolled back where a transaction
/// is open, and then given up with the error that came first.
pub proof fn lemma_failure_is_final(s: SessionModel, events: Seq<EventModel>)
    requires
        s.failed(),
    ensures
        s.run(events).failed(),
        s.run(events).row_ids == s.row_ids,
        s.phase matches IngestPhase::RollingBack(e) ==> s.run(events).phase
            == IngestPhase::RollingBack(e) || s.run(events).phase == IngestPhase::Failed(e),
        s.phase matches IngestPhase::Failed(e) ==> s.run(events).phase == IngestPhase::Failed(e),
    decreases events.len(),
{
    if events.len() > 0 {
        lemma_failure_is_final(s, events.drop_last());
    }
}

/// A failure while rows are being inserted has the transaction rolled back,
/// however many rows went in before, and nothing that is reported later brings
/// the batch to a commit.
pub proof fn lemma_failed_insert_rolls_back(s: SessionModel, events: Seq<EventModel>)
    requires
        s.phase is Inserting,
    ensures
        s.next(EventModel::StorageFailed).action() == ActionModel::Rollback,
        s.next(EventModel::StorageFailed).run(events).failed(),
        !(s.next(EventModel::StorageFailed).run(events).action() is Commit),
        !(s.next(EventModel::StorageFailed).run(events).action() is Finish),
{
    lemma_failure_is_final(s.next(EventModel::StorageFailed), events);
}

/// Vectors of the wrong number or the wrong length are refused before
/// anything is written: the session fails at once with the fault, no
/// transaction is ever opened, and nothing that is reported later changes
/// that.
pub proof fn lemma_rejected_vectors_write_nothing(
    total: nat,
    dimensions: nat,
    lengths: Seq<usize>,
    events: Seq<EventModel>,
)
    requires
        embedding_fault(lengths, total, dimensions) is Some,
    ensures
        SessionModel::initial(total, dimensions).next(EventModel::Embedded(lengths)).run(
            events,
        ).action() == ActionModel::Fail(embedding_fault(lengths, total, dimensions)->0),
        SessionModel::initial(total, dimensions).next(EventModel::Embedded(lengths)).run(
            events,
        ).row_ids.len() == 0,
{
    lemma_failure_is_final(
        SessionModel::initial(total, dimensions).next(EventModel::Embedded(lengths)),
        events,
    );
}

/// What a session reports at the end belongs to the whole batch: a session
/// that can be reached reports success only with one id for each document.
pub proof fn lemma_success_names_every_row(total: nat, dimensions: nat, events: Seq<EventModel>)
    ensures
        SessionModel::initial(total, dimensions).run(events).action() matches ActionModel::Finish(
            ids,
        ) ==> ids.len() == total,
        SessionModel::initial(total, dimensions).run(events).action() is Commit
            ==> SessionModel::initial(total, dimensions).run(events).row_ids.len() == total,
        SessionModel::initial(total, dimensions).run(events).action() matches ActionModel::Insert(
            i,
        ) ==> 0 <= i < total,
{
    lemma_sessions_stay_consistent(SessionModel::initial(total, dimensions), events);
}

/// The ids come back in the order in which the rows went in: while rows are
/// inserted, each reported id is appended to those before it.
pub proof fn lemma_ids_keep_their_order(s: SessionModel, id: i64)
    requires
        s.phase is Inserting,
    ensures
        s.next(EventModel::RowInserted(id)).row_ids == s.row_ids.push(id),
        id_texts(s.next(EventModel::RowInserted(id)).row_ids) == id_texts(s.row_ids).push(
            signed_decimal(id as int),
        ),
{
    assert(id_texts(s.row_ids.push(id)) =~= id_texts(s.row_ids).push(signed_decimal(id as int)));
}

/// The insert statement holds one placeholder for each of its three binds.
pub proof fn lemma_insert_binds_match(
    table: Seq<char>,
    page_content: Seq<char>,
    metadata: Seq<char>,
)
    requires
        is_identifier(table),
    ensures
        count(insert_query(table, page_content, metadata).sql, '?') == insert_query(
            table,
            page_content,
            metadata,
        ).binds.len(),
{
    reveal_strlit("INSERT INTO ");
    reveal_strlit(" (text, metadata, text_embedding) VALUES (");
    reveal_strlit("?, ");
    reveal_strlit("?)");
    reveal_strlit(" (text, metadata, text_embedding) VALUES (?, ?, ?)");
    let values = " (text, metadata, text_embedding) VALUES (?, ?, ?)"@;
    let head = " (text, metadata, text_embedding) VALUES ("@;
    assert(values =~= head + "?, "@ + "?, "@ + "?)"@);
    lemma_count_absent("INSERT INTO "@, '?');
    lemma_count_absent(table, '?');
    lemma_count_absent(head, '?');
    lemma_count_single("?, "@, '?', 0);
    lemma_count_single("?)"@, '?', 0);
    lemma_count_append(head, "?, "@, '?');
    lemma_count_append(head + "?, "@, "?, "@, '?');
    lemma_count_append(head + "?, "@ + "?, "@, "?)"@, '?');
    lemma_count_append("INSERT INTO "@, table, '?');
    lemma_count_append("INSERT INTO "@ + table, values, '?');
}

} // verus!
