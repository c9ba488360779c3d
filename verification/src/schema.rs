//! The collection: its table, its vector index, and the statements that create them.

use crate::query::{Bind, BindModel, Query, QueryModel};
use crate::text::{
    chars_of, contains, contains_run, decimal, digit, lemma_decimal_is_digits,
    lemma_decimal_is_injective, occurs_at, push_decimal,
};
use vstd::prelude::*;
use vstd::string::StringExecFns;

verus! {

/// Why a collection cannot be configured.
#[derive(Clone, Copy, Debug, PartialEq, Eq, Structural)]
pub enum ConfigError {
    /// The table name is not a plain identifier.
    InvalidTableName,
    /// The number of dimensions is not positive.
    InvalidDimensions,
}

/// Why a collection cannot be set up in the storage engine.
#[derive(Clone, Copy, Debug, PartialEq, Eq, Structural)]
pub enum SchemaError {
    /// The engine refused a statement.
    DdlFailure,
    /// The collection exists with another number of dimensions.
    DimensionMismatch,
}

/// Whether `c` may begin an identifier.
pub open spec fn identifier_start(c: char) -> bool {
    ('a' <= c && c <= 'z') || ('A' <= c && c <= 'Z') || c == '_'
}

/// Whether `c` may stand in an identifier.
pub open spec fn identifier_char(c: char) -> bool {
    identifier_start(c) || ('0' <= c && c <= '9')
}

/// Whether `name` is a plain identifier: letters of the basic alphabet, digits
/// and underscores, the first of them no digit.
pub open spec fn is_identifier(name: Seq<char>) -> bool {
    &&& name.len() > 0
    &&& identifier_start(name[0])
    &&& forall|i: int| 0 <= i < name.len() ==> identifier_char(#[trigger] name[i])
}

/// The name of the vector index of the table `table`.
pub open spec fn index_name(table: Seq<char>) -> Seq<char> {
    "vec_"@ + table
}

/// The column type of an embedding of `dimensions` numbers.
pub open spec fn column_type(dimensions: int) -> Seq<char> {
    "float["@ + decimal(dimensions as nat) + "]"@
}

/// The statement that creates the row table.
pub open spec fn create_table(table: Seq<char>) -> Seq<char> {
    "CREATE TABLE IF NOT EXISTS "@ + table
        + " (rowid INTEGER PRIMARY KEY AUTOINCREMENT, text TEXT, metadata BLOB, text_embedding BLOB)"@
}

/// The statement that creates the vector index.
pub open spec fn create_index(table: Seq<char>, dimensions: int) -> Seq<char> {
    "CREATE VIRTUAL TABLE IF NOT EXISTS "@ + index_name(table) + " USING vec0(text_embedding "@
        + column_type(dimensions) + ")"@
}

/// The statement that makes every inserted row enter the vector index.
pub open spec fn create_insert_trigger(table: Seq<char>) -> Seq<char> {
    "CREATE TRIGGER IF NOT EXISTS embed_text_"@ + table + " AFTER INSERT ON "@ + table
        + " BEGIN INSERT INTO "@ + index_name(table)
        + "(rowid, text_embedding) VALUES (new.rowid, new.text_embedding); END"@
}

/// The statement that makes every deleted row leave the vector index.
pub open spec fn create_delete_trigger(table: Seq<char>) -> Seq<char> {
    "CREATE TRIGGER IF NOT EXISTS unembed_text_"@ + table + " AFTER DELETE ON "@ + table
        + " BEGIN DELETE FROM "@ + index_name(table) + " WHERE rowid = old.rowid; END"@
}

/// The statements that set a collection up: the row table, the vector index,
/// and the two triggers that keep the index in step with the table.
pub open spec fn schema_statements(table: Seq<char>, dimensions: int) -> Seq<Seq<char>> {
    seq![
        create_table(table),
        create_index(table, dimensions),
        create_insert_trigger(table),
        create_delete_trigger(table),
    ]
}

/// The statement that reads the stored definition of the vector index.
pub open spec fn index_lookup(table: Seq<char>) -> QueryModel {
    QueryModel {
        sql: "SELECT sql FROM sqlite_master WHERE type = 'table' AND name = ?"@,
        binds: seq![BindModel::Text(index_name(table))],
    }
}

/// What setting up gives when the engine holds `existing` as the definition of
/// the vector index: the statements to run, or a mismatch when the definition
/// does not declare an embedding of `dimensions` numbers.
pub open spec fn setup(table: Seq<char>, dimensions: int, existing: Option<Seq<char>>) -> Result<
    Seq<Seq<char>>,
    SchemaError,
> {
    match existing {
        Some(definition) => if contains_run(definition, column_type(dimensions)) {
            Ok(schema_statements(table, dimensions))
        } else {
            Err(SchemaError::DimensionMismatch)
        },
        None => Ok(schema_statements(table, dimensions)),
    }
}

fn is_identifier_start(c: char) -> (b: bool)
    ensures
        b == identifier_start(c),
{
    (c >= 'a' && c <= 'z') || (c >= 'A' && c <= 'Z') || c == '_'
}

fn is_identifier_char(c: char) -> (b: bool)
    ensures
        b == identifier_char(c),
{
    is_identifier_start(c) || (c >= '0' && c <= '9')
}

/// Whether `name` is a plain identifier.
pub fn check_identifier(name: &str) -> (b: bool)
    ensures
        b == is_identifier(name@),
{
    let chars = chars_of(name);
    if chars.len() == 0 {
        return false;
    }
    if !is_identifier_start(chars[0]) {
        return false;
    }
    let mut i: usize = 0;
    while i < chars.len()
        invariant
            i <= chars.len(),
            chars@ == name@,
            forall|j: int| 0 <= j < i ==> identifier_char(#[trigger] name@[j]),
        decreases chars.len() - i,
    {
        if !is_identifier_char(chars[i]) {
            return false;
        }
        i += 1;
    }
    true
}

/// A collection of documents: the name of its row table and the number of
/// dimensions of its embeddings.
#[derive(Debug, PartialEq)]
pub struct Store {
    table: String,
    vector_dimensions: i32,
}

impl Clone for Store {
    fn clone(&self) -> (copy: Store)
        ensures
            copy.table_name() == self.table_name(),
            copy.dimensions() == self.dimensions(),
    {
        proof {
            use_type_invariant(self);
        }
        Store { table: self.table.clone(), vector_dimensions: self.vector_dimensions }
    }
}

impl Store {
    #[verifier::type_invariant]
    spec fn well_formed(self) -> bool {
        is_identifier(self.table@) && self.vector_dimensions >= 1
    }

    /// The name of the row table.
    pub closed spec fn table_name(self) -> Seq<char> {
        self.table@
    }

    /// The number of dimensions of every embedding of the collection.
    pub closed spec fn dimensions(self) -> int {
        self.vector_dimensions as int
    }

    /// A collection over the table `table` with embeddings of `vector_dimensions`
    /// numbers. The name must be a plain identifier and the dimensions positive.
    pub fn new(table: String, vector_dimensions: i32) -> (r: Result<Store, ConfigError>)
        ensures
            match r {
                Ok(store) => is_identifier(table@) && vector_dimensions >= 1
                    && store.table_name() == table@ && store.dimensions()
                    == vector_dimensions,
                Err(ConfigError::InvalidTableName) => !is_identifier(table@),
                Err(ConfigError::InvalidDimensions) => is_identifier(table@) && vector_dimensions
                    < 1,
            },
    {
        if !check_identifier(table.as_str()) {
            return Err(ConfigError::InvalidTableName);
        }
        if vector_dimensions < 1 {
            return Err(ConfigError::InvalidDimensions);
        }
        Ok(Store { table, vector_dimensions })
    }

    /// The name of the row table.
    pub fn table(&self) -> (name: &str)
        ensures
            name@ == self.table_name(),
            is_identifier(name@),
    {
        proof {
            use_type_invariant(self);
        }
        self.table.as_str()
    }

    /// The number of dimensions of every embedding of the collection.
    pub fn vector_dimensions(&self) -> (d: i32)
        ensures
            d == self.dimensions(),
            d >= 1,
    {
        proof {
            use_type_invariant(self);
        }
        self.vector_dimensions
    }

    /// The column type of the collection's embeddings.
    fn column_type(&self) -> (s: String)
        ensures
            s@ == column_type(self.dimensions()),
    {
        proof {
            use_type_invariant(self);
        }
        let mut s = String::from_str("float[");
        push_decimal(&mut s, self.vector_dimensions as u64);
        s.append("]");
        s
    }

    /// The statement that reads the stored definition of the vector index. It
    /// gives one row with the definition, or none when the index does not exist.
    pub fn index_lookup(&self) -> (q: Query)
        ensures
            q@ == index_lookup(self.table_name()),
    {
        let mut name = String::from_str("vec_");
        name.append(self.table.as_str());
        let mut binds: Vec<Bind> = Vec::new();
        binds.push(Bind::Text(name));
        let q = Query {
            sql: String::from_str("SELECT sql FROM sqlite_master WHERE type = 'table' AND name = ?"),
            binds,
        };
        assert(q@.binds =~= index_lookup(self.table_name()).binds);
        q
    }

    fn create_table(&self) -> (s: String)
        ensures
            s@ == create_table(self.table_name()),
    {
        let mut s = String::from_str("CREATE TABLE IF NOT EXISTS ");
        s.append(self.table.as_str());
        s.append(
            " (rowid INTEGER PRIMARY KEY AUTOINCREMENT, text TEXT, metadata BLOB, text_embedding BLOB)",
        );
        s
    }

    fn create_index(&self) -> (s: String)
        ensures
            s@ == create_index(self.table_name(), self.dimensions()),
    {
        let mut s = String::from_str("CREATE VIRTUAL TABLE IF NOT EXISTS ");
        s.append("vec_");
        s.append(self.table.as_str());
        s.append(" USING vec0(text_embedding ");
        let column = self.column_type();
        s.append(column.as_str());
        s.append(")");
        assert(s@ =~= create_index(self.table_name(), self.dimensions()));
        s
    }

    fn create_insert_trigger(&self) -> (s: String)
        ensures
            s@ == create_insert_trigger(self.table_name()),
    {
        let mut s = String::from_str("CREATE TRIGGER IF NOT EXISTS embed_text_");
        s.append(self.table.as_str());
        s.append(" AFTER INSERT ON ");
        s.append(self.table.as_str());
        s.append(" BEGIN INSERT INTO ");
        s.append("vec_");
        s.append(self.table.as_str());
        s.append("(rowid, text_embedding) VALUES (new.rowid, new.text_embedding); END");
        assert(s@ =~= create_insert_trigger(self.table_name()));
        s
    }

    fn create_delete_trigger(&self) -> (s: String)
        ensures
            s@ == create_delete_trigger(self.table_name()),
    {
        let mut s = String::from_str("CREATE TRIGGER IF NOT EXISTS unembed_text_");
        s.append(self.table.as_str());
        s.append(" AFTER DELETE ON ");
        s.append(self.table.as_str());
        s.append(" BEGIN DELETE FROM ");
        s.append("vec_");
        s.append(self.table.as_str());
        s.append(" WHERE rowid = old.rowid; END");
        assert(s@ =~= create_delete_trigger(self.table_name()));
        s
    }

    /// Plans the setup of the collection. `existing_index` is what
    /// [`Self::index_lookup`] found: the stored definition of the vector index,
    /// or nothing when the index does not exist yet.
    ///
    /// The statements create only what is missing, so running them again changes
    /// nothing. An index that was created for another number of dimensions is
    /// reported and nothing is to be run.
    pub fn initialize(&self, existing_index: Option<&str>) -> (r: Result<Vec<String>, SchemaError>)
        ensures
            match r {
                Ok(statements) => Ok::<Seq<Seq<char>>, SchemaError>(crate::text::texts(statements@))
                    == setup(
                    self.table_name(),
                    self.dimensions(),
                    match existing_index {
                        Some(d) => Some(d@),
                        None => None,
                    },
                ),
                Err(e) => Err::<Seq<Seq<char>>, SchemaError>(e) == setup(
                    self.table_name(),
                    self.dimensions(),
                    match existing_index {
                        Some(d) => Some(d@),
                        None => None,
                    },
                ),
            },
    {
        match existing_index {
            Some(definition) => {
                let column = self.column_type();
                if !contains(definition, column.as_str()) {
                    return Err(SchemaError::DimensionMismatch);
                }
            },
            None => {},
        }
        let mut statements: Vec<String> = Vec::new();
        statements.push(self.create_table());
        statements.push(self.create_index());
        statements.push(self.create_insert_trigger());
        statements.push(self.create_delete_trigger());
        assert(crate::text::texts(statements@) =~= schema_statements(
            self.table_name(),
            self.dimensions(),
        ));
        Ok(statements)
    }
}

/// No collection is set up without its triggers: whenever a setup goes ahead,
/// its statements are the row table, the vector index, the trigger that enters
/// every inserted row into the index, and the trigger that takes every deleted
/// row out of it, in this order and whatever the engine held before.
pub proof fn lemma_setup_installs_triggers(
    table: Seq<char>,
    dimensions: int,
    existing: Option<Seq<char>>,
)
    ensures
        setup(table, dimensions, existing) matches Ok(statements) ==> statements == seq![
            create_table(table),
            create_index(table, dimensions),
            create_insert_trigger(table),
            create_delete_trigger(table),
        ],
{
}

/// Whether `c` occurs nowhere in `s`.
pub open spec fn free_of(s: Seq<char>, c: char) -> bool {
    forall|i: int| 0 <= i < s.len() ==> #[trigger] s[i] != c
}

/// Setting up is safe to repeat: a definition that declares an embedding of
/// the requested length, whatever stands before and behind the declaration, is
/// accepted, and the statements to run are those of a first setup.
pub proof fn lemma_same_dimension_is_accepted(
    table: Seq<char>,
    dimensions: int,
    before: Seq<char>,
    behind: Seq<char>,
)
    ensures
        setup(table, dimensions, Some(before + column_type(dimensions) + behind)) == Ok::<
            Seq<Seq<char>>,
            SchemaError,
        >(schema_statements(table, dimensions)),
        setup(table, dimensions, None) == Ok::<Seq<Seq<char>>, SchemaError>(
            schema_statements(table, dimensions),
        ),
{
    let definition = before + column_type(dimensions) + behind;
    let at = before.len() as int;
    assert(definition.subrange(at, at + column_type(dimensions).len()) =~= column_type(
        dimensions,
    ));
    assert(occurs_at(definition, column_type(dimensions), at));
}

/// A collection is never reused with another number of dimensions: a
/// definition that declares one embedding, of a length other than the
/// requested one, is refused. The declaration is told apart by its bracket,
/// which stands nowhere else in the definition.
pub proof fn lemma_other_dimension_is_refused(
    table: Seq<char>,
    dimensions: int,
    existing: int,
    before: Seq<char>,
    behind: Seq<char>,
)
    requires
        dimensions >= 0,
        existing >= 0,
        dimensions != existing,
        free_of(before, '['),
        free_of(behind, '['),
    ensures
        setup(table, dimensions, Some(before + column_type(existing) + behind)) == Err::<
            Seq<Seq<char>>,
            SchemaError,
        >(SchemaError::DimensionMismatch),
{
    reveal_strlit("float[");
    reveal_strlit("]");
    let stored = column_type(existing);
    let wanted = column_type(dimensions);
    let definition = before + stored + behind;
    let have = decimal(existing as nat);
    let want = decimal(dimensions as nat);
    lemma_decimal_is_digits(existing as nat);
    lemma_decimal_is_digits(dimensions as nat);
    assert(stored.len() == have.len() + 7);
    assert(wanted.len() == want.len() + 7);
    assert forall|at: int| !occurs_at(definition, wanted, at) by {
        if occurs_at(definition, wanted, at) {
            let found = definition.subrange(at, at + wanted.len());
            assert(found == wanted);
            // The bracket of the wanted type meets the only bracket there is.
            assert(wanted[5] == '[');
            assert(found[5] == definition[at + 5]);
            let start = before.len() as int;
            assert(at + 5 == start + 5) by {
                let p = at + 5;
                if p < start {
                    assert(definition[p] == before[p]);
                } else if p >= start + stored.len() {
                    assert(definition[p] == behind[p - start - stored.len()]);
                } else {
                    let k = p - start;
                    assert(definition[p] == stored[k]);
                    if k < 5 {
                        assert(stored[k] == "float["@[k]);
                    } else if k > 5 {
                        if k < 6 + have.len() {
                            assert(stored[k] == have[k - 6]);
                        } else {
                            assert(stored[k] == ']');
                        }
                    }
                }
            }
            assert(at == start);
            // Digit by digit the two numerals agree, and they end together.
            if want.len() < have.len() {
                let k: int = want.len() as int + 6;
                assert(wanted[k] == ']');
                assert(found[k] == definition[at + k]);
                assert(definition[at + k] == stored[k]);
                assert(stored[k] == have[k - 6]);
                assert(false);
            }
            if want.len() > have.len() {
                let k: int = have.len() as int + 6;
                assert(wanted[k] == want[k - 6]);
                assert(found[k] == definition[at + k]);
                assert(definition[at + k] == stored[k]);
                assert(stored[k] == ']');
                assert(false);
            }
            assert forall|k: int| 0 <= k < want.len() implies want[k] == have[k] by {
                assert(wanted[k + 6] == want[k]);
                assert(found[k + 6] == definition[at + k + 6]);
                assert(definition[at + k + 6] == stored[k + 6]);
                assert(stored[k + 6] == have[k]);
            }
            assert(want =~= have);
            lemma_decimal_is_injective(dimensions as nat, existing as nat);
            assert(false);
        }
    }
}

} // verus!
