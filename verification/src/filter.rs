//! Metadata filters and how they are compiled into a parameterised SQL predicate.
//!
//! A filter never contributes text of its own to the predicate. Field names and
//! literal values travel as bound parameters, in the order of their placeholders,
//! so the predicate's text is fixed by the shape of the filter alone.

use crate::text::{
    concat, count, join, lemma_concat_step, lemma_count_absent, lemma_count_append,
    lemma_count_single, lemma_join_step, repeat, texts,
};
use std::cmp::Ordering;
use vstd::prelude::*;
use vstd::string::StringExecFns;

verus! {

/// The relation tested by a [`SqliteFilter::Cmp`] node.
#[derive(Clone, Copy, Debug, PartialEq, Eq, Structural)]
pub enum CmpOp {
    Less,
    Equal,
    Greater,
}

/// A predicate over the metadata of a stored document.
///
/// Every literal is text: it is compared with the value that the engine extracts
/// from the metadata under the field's name.
#[derive(Debug, PartialEq)]
pub enum SqliteFilter {
    /// The field equals the literal.
    Eq(String, String),
    /// The field stands in the given relation to the literal.
    Cmp(CmpOp, String, String),
    /// The field equals one of the literals.
    In(String, Vec<String>),
    /// Every child holds. At least one child is needed.
    And(Vec<SqliteFilter>),
    /// Some child holds. At least one child is needed.
    Or(Vec<SqliteFilter>),
}

/// The mathematical content of a [`SqliteFilter`].
pub enum FilterModel {
    Eq(Seq<char>, Seq<char>),
    Cmp(CmpOp, Seq<char>, Seq<char>),
    In(Seq<char>, Seq<Seq<char>>),
    And(Seq<FilterModel>),
    Or(Seq<FilterModel>),
}

/// Why a filter cannot be compiled.
#[derive(Clone, Copy, Debug, PartialEq, Eq, Structural)]
pub enum FilterError {
    /// An `And` or an `Or` without children.
    EmptyGroup,
    /// A field name that holds a double quote or a backslash.
    InvalidField,
}

/// A compiled filter: the text of a condition and the values of its placeholders.
#[derive(Clone, Debug, PartialEq)]
pub struct Predicate {
    /// The condition, with one `?` for each entry of `params`.
    pub clause: String,
    /// The values to bind as text, in the order of the placeholders.
    pub params: Vec<String>,
}

/// The mathematical content of a [`Predicate`].
pub struct PredicateModel {
    pub clause: Seq<char>,
    pub params: Seq<Seq<char>>,
}

impl View for Predicate {
    type V = PredicateModel;

    open spec fn view(&self) -> PredicateModel {
        PredicateModel { clause: self.clause@, params: texts(self.params@) }
    }
}

/// The models of `children`, in order.
pub open spec fn models(children: Seq<SqliteFilter>) -> Seq<FilterModel>
    decreases children,
{
    Seq::new(
        children.len(),
        |i: int|
            if 0 <= i < children.len() {
                children[i]@
            } else {
                FilterModel::And(Seq::empty())
            },
    )
}

impl View for SqliteFilter {
    type V = FilterModel;

    open spec fn view(&self) -> FilterModel
        decreases self,
    {
        match self {
            SqliteFilter::Eq(field, value) => FilterModel::Eq(field@, value@),
            SqliteFilter::Cmp(op, field, value) => FilterModel::Cmp(*op, field@, value@),
            SqliteFilter::In(field, values) => FilterModel::In(field@, texts(values@)),
            SqliteFilter::And(children) => FilterModel::And(models(children@)),
            SqliteFilter::Or(children) => FilterModel::Or(models(children@)),
        }
    }
}

/// Whether `c` may stand in a field name.
///
/// A double quote would end the quoted label of the path, and engines differ on
/// what a backslash inside it means.
pub open spec fn field_char_ok(c: char) -> bool {
    c != '"' && c != '\\'
}

/// Whether `field` can be written as one quoted label of a JSON path.
pub open spec fn field_ok(field: Seq<char>) -> bool {
    forall|i: int| 0 <= i < field.len() ==> field_char_ok(#[trigger] field[i])
}

/// The JSON path of the member `field` of the metadata object: `$."field"`.
pub open spec fn json_path(field: Seq<char>) -> Seq<char> {
    "$.\""@ + field + "\""@
}

/// The text of a comparison of a metadata member with a literal.
pub open spec fn comparison(op: CmpOp) -> Seq<char> {
    "json_extract(e.metadata, ?) "@ + op.symbol() + " ?"@
}

/// The text of a membership test against `n` literals.
pub open spec fn membership(n: nat) -> Seq<char> {
    "json_extract(e.metadata, ?) IN ("@ + join(repeat("?"@, n), ", "@) + ")"@
}

/// `parts` joined by `connective`, in parentheses.
pub open spec fn group(parts: Seq<Seq<char>>, connective: Seq<char>) -> Seq<char> {
    "("@ + join(parts, connective) + ")"@
}

/// Whether every filter of `children` is well grouped.
pub open spec fn all_well_grouped(children: Seq<FilterModel>) -> bool
    decreases children,
{
    forall|i: int| 0 <= i < children.len() ==> (#[trigger] children[i]).well_grouped()
}

/// Whether every filter of `children` has field names that can be written as JSON paths.
pub open spec fn all_fields_ok(children: Seq<FilterModel>) -> bool
    decreases children,
{
    forall|i: int| 0 <= i < children.len() ==> (#[trigger] children[i]).fields_ok()
}

/// The clauses of `children`, in order.
pub open spec fn clauses(children: Seq<FilterModel>) -> Seq<Seq<char>>
    decreases children,
{
    Seq::new(
        children.len(),
        |i: int|
            if 0 <= i < children.len() {
                children[i].clause()
            } else {
                Seq::empty()
            },
    )
}

/// The parameter lists of `children`, in order.
pub open spec fn param_lists(children: Seq<FilterModel>) -> Seq<Seq<Seq<char>>>
    decreases children,
{
    Seq::new(
        children.len(),
        |i: int|
            if 0 <= i < children.len() {
                children[i].params()
            } else {
                Seq::empty()
            },
    )
}

impl CmpOp {
    /// The SQL operator of the relation.
    pub open spec fn symbol(self) -> Seq<char> {
        match self {
            CmpOp::Less => "<"@,
            CmpOp::Equal => "="@,
            CmpOp::Greater => ">"@,
        }
    }

    /// The relation that `ordering` names.
    pub fn from_ordering(ordering: Ordering) -> (op: CmpOp)
        ensures
            op == match ordering {
                Ordering::Less => CmpOp::Less,
                Ordering::Equal => CmpOp::Equal,
                Ordering::Greater => CmpOp::Greater,
            },
    {
        match ordering {
            Ordering::Less => CmpOp::Less,
            Ordering::Equal => CmpOp::Equal,
            Ordering::Greater => CmpOp::Greater,
        }
    }

    /// The SQL operator of the relation.
    pub fn operator(&self) -> (s: &'static str)
        ensures
            s@ == self.symbol(),
    {
        match self {
            CmpOp::Less => "<",
            CmpOp::Equal => "=",
            CmpOp::Greater => ">",
        }
    }
}

impl FilterModel {
    /// Whether every `And` and every `Or` of the filter has a child.
    pub open spec fn well_grouped(self) -> bool
        decreases self,
    {
        match self {
            FilterModel::And(children) => children.len() > 0 && all_well_grouped(children),
            FilterModel::Or(children) => children.len() > 0 && all_well_grouped(children),
            _ => true,
        }
    }

    /// Whether every field name of the filter can be written as a JSON path.
    pub open spec fn fields_ok(self) -> bool
        decreases self,
    {
        match self {
            FilterModel::Eq(field, _) => field_ok(field),
            FilterModel::Cmp(_, field, _) => field_ok(field),
            FilterModel::In(field, _) => field_ok(field),
            FilterModel::And(children) => all_fields_ok(children),
            FilterModel::Or(children) => all_fields_ok(children),
        }
    }

    /// Whether the filter can be compiled.
    pub open spec fn valid(self) -> bool {
        self.well_grouped() && self.fields_ok()
    }

    /// The text of the condition that the filter compiles to.
    pub open spec fn clause(self) -> Seq<char>
        decreases self,
    {
        match self {
            FilterModel::Eq(_, _) => comparison(CmpOp::Equal),
            FilterModel::Cmp(op, _, _) => comparison(op),
            FilterModel::In(_, values) => membership(values.len()),
            FilterModel::And(children) => group(clauses(children), " AND "@),
            FilterModel::Or(children) => group(clauses(children), " OR "@),
        }
    }

    /// The values of the placeholders of [`Self::clause`], from left to right.
    pub open spec fn params(self) -> Seq<Seq<char>>
        decreases self,
    {
        match self {
            FilterModel::Eq(field, value) => seq![json_path(field), value],
            FilterModel::Cmp(_, field, value) => seq![json_path(field), value],
            FilterModel::In(field, values) => seq![json_path(field)] + values,
            FilterModel::And(children) => concat(param_lists(children)),
            FilterModel::Or(children) => concat(param_lists(children)),
        }
    }
}

/// What compiling `filter` gives: the tautology for no filter, an error for a
/// filter that is not valid (an empty group is reported before a bad field name),
/// and else the filter's clause with its parameters.
pub open spec fn compiled(filter: Option<FilterModel>) -> Result<PredicateModel, FilterError> {
    match filter {
        None => Ok(PredicateModel { clause: "TRUE"@, params: Seq::empty() }),
        Some(model) => if !model.well_grouped() {
            Err(FilterError::EmptyGroup)
        } else if !model.fields_ok() {
            Err(FilterError::InvalidField)
        } else {
            Ok(PredicateModel { clause: model.clause(), params: model.params() })
        },
    }
}

/// Whether a compilation result `r` is the one that `expected` describes.
pub open spec fn compiles_to(
    r: Result<Predicate, FilterError>,
    expected: Result<PredicateModel, FilterError>,
) -> bool {
    match r {
        Ok(p) => expected == Ok::<PredicateModel, FilterError>(p@),
        Err(e) => expected == Err::<PredicateModel, FilterError>(e),
    }
}

fn clone_texts(v: &Vec<String>) -> (res: Vec<String>)
    ensures
        res@ == v@,
{
    let mut out: Vec<String> = Vec::new();
    let mut i: usize = 0;
    while i < v.len()
        invariant
            i <= v.len(),
            out@ == v@.take(i as int),
        decreases v.len() - i,
    {
        out.push(v[i].clone());
        i += 1;
    }
    out
}

fn clone_filters(children: &Vec<SqliteFilter>) -> (res: Vec<SqliteFilter>)
    ensures
        models(res@) == models(children@),
    decreases children,
{
    let mut out: Vec<SqliteFilter> = Vec::new();
    let mut i: usize = 0;
    while i < children.len()
        invariant
            i <= children.len(),
            out.len() == i,
            forall|j: int| 0 <= j < i ==> (#[trigger] out[j])@ == children[j]@,
        decreases children.len() - i,
    {
        proof {
            assert(decreases_to!(*children => children[i as int]));
        }
        out.push(children[i].clone());
        i += 1;
    }
    assert(models(out@) =~= models(children@));
    out
}

impl Clone for SqliteFilter {
    fn clone(&self) -> (res: Self)
        ensures
            res@ == self@,
        decreases self,
    {
        match self {
            SqliteFilter::Eq(field, value) => SqliteFilter::Eq(field.clone(), value.clone()),
            SqliteFilter::Cmp(op, field, value) => SqliteFilter::Cmp(
                *op,
                field.clone(),
                value.clone(),
            ),
            SqliteFilter::In(field, values) => SqliteFilter::In(field.clone(), clone_texts(values)),
            SqliteFilter::And(children) => {
                proof {
                    assert(decreases_to!(*self => self->And_0));
                }
                SqliteFilter::And(clone_filters(children))
            },
            SqliteFilter::Or(children) => {
                proof {
                    assert(decreases_to!(*self => self->Or_0));
                }
                SqliteFilter::Or(clone_filters(children))
            },
        }
    }
}

/// Whether `field` can be written as one quoted label of a JSON path.
pub fn field_is_ok(field: &str) -> (ok: bool)
    ensures
        ok == field_ok(field@),
{
    broadcast use vstd::string::group_string_axioms;

    let mut ok = true;
    for c in it: field.chars()
        invariant
            it.seq() == field@,
            ok == field_ok(field@.take(it.index() as int)),
    {
        let ghost seen = field@.take(it.index() as int);
        let ghost next = field@.take(it.index() + 1);
        assert(next =~= seen.push(c));
        if c == '"' || c == '\\' {
            ok = false;
            assert(!field_char_ok(next[it.index() as int]));
        } else if !ok {
            let ghost j = choose|j: int| 0 <= j < seen.len() && !field_char_ok(#[trigger] seen[j]);
            assert(!field_char_ok(next[j]));
        }
    }
    assert(field@.take(field@.len() as int) =~= field@);
    ok
}

/// The JSON path of the member `field` of the metadata object.
pub fn json_path_of(field: &str) -> (path: String)
    ensures
        path@ == json_path(field@),
{
    let mut path = String::from_str("$.\"");
    path.append(field);
    path.append("\"");
    path
}

fn groups_ok(children: &Vec<SqliteFilter>) -> (ok: bool)
    ensures
        ok == all_well_grouped(models(children@)),
    decreases children,
{
    let mut i: usize = 0;
    while i < children.len()
        invariant
            i <= children.len(),
            forall|j: int| 0 <= j < i ==> (#[trigger] models(children@)[j]).well_grouped(),
        decreases children.len() - i,
    {
        proof {
            assert(decreases_to!(*children => children[i as int]));
        }
        if !children[i].is_well_grouped() {
            assert(!models(children@)[i as int].well_grouped());
            return false;
        }
        i += 1;
    }
    true
}

fn fields_ok_in(children: &Vec<SqliteFilter>) -> (ok: bool)
    ensures
        ok == all_fields_ok(models(children@)),
    decreases children,
{
    let mut i: usize = 0;
    while i < children.len()
        invariant
            i <= children.len(),
            forall|j: int| 0 <= j < i ==> (#[trigger] models(children@)[j]).fields_ok(),
        decreases children.len() - i,
    {
        proof {
            assert(decreases_to!(*children => children[i as int]));
        }
        if !children[i].has_valid_fields() {
            assert(!models(children@)[i as int].fields_ok());
            return false;
        }
        i += 1;
    }
    true
}

fn render_group(
    children: &Vec<SqliteFilter>,
    connective: &str,
    clause: &mut String,
    params: &mut Vec<String>,
)
    ensures
        final(clause)@ == old(clause)@ + group(clauses(models(children@)), connective@),
        texts(final(params)@) == texts(old(params)@) + concat(param_lists(models(children@))),
    decreases children,
{
    let ghost parts = clauses(models(children@));
    let ghost lists = param_lists(models(children@));
    clause.append("(");
    let mut i: usize = 0;
    while i < children.len()
        invariant
            i <= children.len(),
            parts == clauses(models(children@)),
            lists == param_lists(models(children@)),
            clause@ == old(clause)@ + "("@ + join(parts.take(i as int), connective@),
            texts(params@) == texts(old(params)@) + concat(lists.take(i as int)),
        decreases children.len() - i,
    {
        proof {
            assert(decreases_to!(*children => children[i as int]));
            lemma_join_step(parts, connective@, i as int);
            lemma_concat_step(lists, i as int);
        }
        if i > 0 {
            clause.append(connective);
        }
        children[i].render(clause, params);
        assert(clause@ =~= old(clause)@ + "("@ + join(parts.take(i + 1), connective@));
        assert(texts(params@) =~= texts(old(params)@) + concat(lists.take(i + 1)));
        i += 1;
    }
    clause.append(")");
    proof {
        assert(parts.take(children.len() as int) =~= parts);
        assert(lists.take(children.len() as int) =~= lists);
        assert(final(clause)@ =~= old(clause)@ + group(parts, connective@));
    }
}

impl SqliteFilter {
    /// Whether every `And` and every `Or` of the filter has a child.
    pub fn is_well_grouped(&self) -> (ok: bool)
        ensures
            ok == self@.well_grouped(),
        decreases self,
    {
        match self {
            SqliteFilter::And(children) => {
                proof {
                    assert(decreases_to!(*self => self->And_0));
                }
                children.len() > 0 && groups_ok(children)
            },
            SqliteFilter::Or(children) => {
                proof {
                    assert(decreases_to!(*self => self->Or_0));
                }
                children.len() > 0 && groups_ok(children)
            },
            _ => true,
        }
    }

    /// Whether every field name of the filter can be written as a JSON path.
    pub fn has_valid_fields(&self) -> (ok: bool)
        ensures
            ok == self@.fields_ok(),
        decreases self,
    {
        match self {
            SqliteFilter::Eq(field, _) => field_is_ok(field.as_str()),
            SqliteFilter::Cmp(_, field, _) => field_is_ok(field.as_str()),
            SqliteFilter::In(field, _) => field_is_ok(field.as_str()),
            SqliteFilter::And(children) => {
                proof {
                    assert(decreases_to!(*self => self->And_0));
                }
                fields_ok_in(children)
            },
            SqliteFilter::Or(children) => {
                proof {
                    assert(decreases_to!(*self => self->Or_0));
                }
                fields_ok_in(children)
            },
        }
    }

    /// Appends the filter's clause to `clause` and its parameters to `params`.
    fn render(&self, clause: &mut String, params: &mut Vec<String>)
        ensures
            final(clause)@ == old(clause)@ + self@.clause(),
            texts(final(params)@) == texts(old(params)@) + self@.params(),
        decreases self,
    {
        match self {
            SqliteFilter::Eq(field, value) => {
                render_comparison(CmpOp::Equal, field, value, clause, params);
            },
            SqliteFilter::Cmp(op, field, value) => {
                render_comparison(*op, field, value, clause, params);
            },
            SqliteFilter::In(field, values) => {
                render_membership(field, values, clause, params);
            },
            SqliteFilter::And(children) => {
                proof {
                    assert(decreases_to!(*self => self->And_0));
                }
                render_group(children, " AND ", clause, params);
            },
            SqliteFilter::Or(children) => {
                proof {
                    assert(decreases_to!(*self => self->Or_0));
                }
                render_group(children, " OR ", clause, params);
            },
        }
    }

    /// Compiles the filter into a condition with bound parameters.
    ///
    /// A filter with an empty `And` or `Or` is refused, and so is one with a field
    /// name that cannot be written as a JSON path.
    pub fn compile(&self) -> (r: Result<Predicate, FilterError>)
        ensures
            compiles_to(r, compiled(Some(self@))),
    {
        if !self.is_well_grouped() {
            return Err(FilterError::EmptyGroup);
        }
        if !self.has_valid_fields() {
            return Err(FilterError::InvalidField);
        }
        let mut clause = String::new();
        let mut params: Vec<String> = Vec::new();
        self.render(&mut clause, &mut params);
        let p = Predicate { clause, params };
        assert(p@.clause =~= self@.clause());
        assert(p@.params =~= self@.params());
        Ok(p)
    }
}

fn render_comparison(
    op: CmpOp,
    field: &String,
    value: &String,
    clause: &mut String,
    params: &mut Vec<String>,
)
    ensures
        final(clause)@ == old(clause)@ + comparison(op),
        texts(final(params)@) == texts(old(params)@) + seq![json_path(field@), value@],
{
    clause.append("json_extract(e.metadata, ?) ");
    clause.append(op.operator());
    clause.append(" ?");
    params.push(json_path_of(field.as_str()));
    params.push(value.clone());
    assert(final(clause)@ =~= old(clause)@ + comparison(op));
    assert(texts(final(params)@) =~= texts(old(params)@) + seq![json_path(field@), value@]);
}

fn render_membership(
    field: &String,
    values: &Vec<String>,
    clause: &mut String,
    params: &mut Vec<String>,
)
    ensures
        final(clause)@ == old(clause)@ + membership(values@.len()),
        texts(final(params)@) == texts(old(params)@) + (seq![json_path(field@)] + texts(values@)),
{
    let ghost marks = repeat("?"@, values@.len());
    clause.append("json_extract(e.metadata, ?) IN (");
    params.push(json_path_of(field.as_str()));
    let mut i: usize = 0;
    while i < values.len()
        invariant
            i <= values.len(),
            marks == repeat("?"@, values@.len()),
            clause@ == old(clause)@ + "json_extract(e.metadata, ?) IN ("@ + join(
                marks.take(i as int),
                ", "@,
            ),
            texts(params@) == texts(old(params)@) + (seq![json_path(field@)] + texts(
                values@,
            ).take(i as int)),
        decreases values.len() - i,
    {
        proof {
            lemma_join_step(marks, ", "@, i as int);
        }
        if i > 0 {
            clause.append(", ");
        }
        clause.append("?");
        let ghost before = params@;
        params.push(values[i].clone());
        assert(texts(params@) =~= texts(before).push(values@[i as int]@));
        assert(texts(values@).take(i + 1) =~= texts(values@).take(i as int).push(
            values@[i as int]@,
        ));
        assert(clause@ =~= old(clause)@ + "json_extract(e.metadata, ?) IN ("@ + join(
            marks.take(i + 1),
            ", "@,
        ));
        assert(texts(params@) =~= texts(old(params)@) + (seq![json_path(field@)] + texts(
            values@,
        ).take(i + 1)));
        i += 1;
    }
    clause.append(")");
    proof {
        assert(marks.take(values.len() as int) =~= marks);
        assert(texts(values@).take(values.len() as int) =~= texts(values@));
        assert(final(clause)@ =~= old(clause)@ + membership(values@.len()));
    }
}

/// Compiles an optional filter. No filter compiles to the condition `TRUE`,
/// which every row meets.
pub fn compile_filter(filter: Option<&SqliteFilter>) -> (r: Result<Predicate, FilterError>)
    ensures
        compiles_to(
            r,
            compiled(
                match filter {
                    Some(f) => Some(f@),
                    None => None,
                },
            ),
        ),
{
    match filter {
        Some(f) => f.compile(),
        None => {
            let p = Predicate { clause: String::from_str("TRUE"), params: Vec::new() };
            assert(p@.params =~= Seq::empty());
            Ok(p)
        },
    }
}

/// Whether two lists of filters have the same shape, one by one.
pub open spec fn all_same_shape(a: Seq<FilterModel>, b: Seq<FilterModel>) -> bool
    decreases a,
{
    a.len() == b.len() && forall|i: int|
        0 <= i < a.len() ==> (#[trigger] a[i]).same_shape(b[i])
}

impl FilterModel {
    /// Whether two filters differ in nothing but their field names and their
    /// literals: the same nodes in the same places, the same relations, and as
    /// many literals in each membership test.
    pub open spec fn same_shape(self, other: FilterModel) -> bool
        decreases self,
    {
        match self {
            FilterModel::Eq(_, _) => other is Eq,
            FilterModel::Cmp(op, _, _) => other is Cmp && other->Cmp_0 == op,
            FilterModel::In(_, values) => other is In && other->In_1.len() == values.len(),
            FilterModel::And(children) => other is And && all_same_shape(children, other->And_0),
            FilterModel::Or(children) => other is Or && all_same_shape(children, other->Or_0),
        }
    }
}

/// The closing quote of a quoted label: the first double quote of `path` at or
/// after `from`, or the end of `path` when there is none. With `escapes`, a
/// backslash hides the character behind it, as in the newer engines.
pub open spec fn closing_quote(path: Seq<char>, from: int, escapes: bool) -> int
    decreases path.len() - from,
{
    if from < 0 || from >= path.len() {
        path.len() as int
    } else if path[from] == '"' {
        from
    } else if escapes && path[from] == '\\' {
        if from + 1 < path.len() {
            closing_quote(path, from + 2, escapes)
        } else {
            path.len() as int
        }
    } else {
        closing_quote(path, from + 1, escapes)
    }
}

/// No field name and no literal has any part in the text of the condition: two
/// filters of the same shape compile to the same text, whatever their names and
/// values hold. A quote, a semicolon or a keyword in a value can therefore
/// change nothing of what the engine is asked.
pub proof fn lemma_clause_ignores_values(a: FilterModel, b: FilterModel)
    requires
        a.same_shape(b),
    ensures
        a.clause() == b.clause(),
    decreases a,
{
    match a {
        FilterModel::And(children) => {
            let others = b->And_0;
            assert forall|i: int| 0 <= i < children.len() implies clauses(children)[i] == clauses(
                others,
            )[i] by {
                lemma_clause_ignores_values(children[i], others[i]);
            }
            assert(clauses(children) =~= clauses(others));
        },
        FilterModel::Or(children) => {
            let others = b->Or_0;
            assert forall|i: int| 0 <= i < children.len() implies clauses(children)[i] == clauses(
                others,
            )[i] by {
                lemma_clause_ignores_values(children[i], others[i]);
            }
            assert(clauses(children) =~= clauses(others));
        },
        _ => {},
    }
}

/// Every literal is bound exactly as the caller wrote it: the parameters of a
/// comparison are the path of its field and its literal, and those of a
/// membership test are the path and the literals in their order.
pub proof fn lemma_values_are_bound_verbatim(field: Seq<char>, value: Seq<char>, op: CmpOp, values: Seq<Seq<char>>)
    ensures
        FilterModel::Eq(field, value).params() == seq![json_path(field), value],
        FilterModel::Cmp(op, field, value).params() == seq![json_path(field), value],
        FilterModel::In(field, values).params().len() == values.len() + 1,
        forall|i: int|
            0 <= i < values.len() ==> FilterModel::In(field, values).params()[i + 1] == values[i],
{
}

/// A valid field name is one label of its path: the label opens at the third
/// character and closes at the last, with or without backslash escapes. The
/// path therefore names the member `field` of the metadata and nothing below
/// or beside it.
pub proof fn lemma_path_is_one_label(field: Seq<char>, escapes: bool)
    requires
        field_ok(field),
    ensures
        json_path(field).len() == field.len() + 4,
        json_path(field).subrange(0, 3) == seq!['$', '.', '"'],
        json_path(field).subrange(3, field.len() as int + 3) == field,
        closing_quote(json_path(field), 3, escapes) == json_path(field).len() - 1,
{
    reveal_strlit("$.\"");
    reveal_strlit("\"");
    let path = json_path(field);
    assert(path.len() == field.len() + 4);
    assert(path.subrange(0, 3) =~= seq!['$', '.', '"']);
    assert(path.subrange(3, field.len() as int + 3) =~= field);
    lemma_closing_quote_skips(path, 3, path.len() - 1, escapes);
}

/// The scan for the closing quote passes over characters that are neither a
/// double quote nor a backslash.
proof fn lemma_closing_quote_skips(path: Seq<char>, from: int, quote: int, escapes: bool)
    requires
        0 <= from <= quote < path.len(),
        path[quote] == '"',
        forall|i: int| from <= i < quote ==> field_char_ok(#[trigger] path[i]),
    ensures
        closing_quote(path, from, escapes) == quote,
    decreases quote - from,
{
    if from < quote {
        assert(field_char_ok(path[from]));
        lemma_closing_quote_skips(path, from + 1, quote, escapes);
    }
}

/// How many placeholders `parts` joined by `sep` hold, when `sep` holds none.
proof fn lemma_count_join(parts: Seq<Seq<char>>, sep: Seq<char>, each: nat)
    requires
        count(sep, '?') == 0,
        forall|i: int| 0 <= i < parts.len() ==> count(#[trigger] parts[i], '?') == each,
    ensures
        count(join(parts, sep), '?') == parts.len() * each,
    decreases parts.len(),
{
    if parts.len() == 0 {
    } else if parts.len() == 1 {
        assert(parts.len() * each == each) by (nonlinear_arith)
            requires
                parts.len() == 1,
        ;
    } else {
        lemma_count_join(parts.drop_last(), sep, each);
        lemma_count_append(join(parts.drop_last(), sep), sep, '?');
        lemma_count_append(join(parts.drop_last(), sep) + sep, parts.last(), '?');
        assert(parts.len() * each == (parts.len() - 1) * each + each) by (nonlinear_arith);
    }
}

/// How many placeholders the clauses of `children` joined by `sep` hold.
proof fn lemma_count_group(children: Seq<FilterModel>, sep: Seq<char>, n: int)
    requires
        count(sep, '?') == 0,
        0 <= n <= children.len(),
        forall|i: int|
            0 <= i < children.len() ==> count((#[trigger] children[i]).clause(), '?')
                == children[i].params().len(),
    ensures
        count(join(clauses(children).take(n), sep), '?') == concat(
            param_lists(children).take(n),
        ).len(),
    decreases n,
{
    let parts = clauses(children);
    let lists = param_lists(children);
    if n > 0 {
        lemma_count_group(children, sep, n - 1);
        lemma_join_step(parts, sep, n - 1);
        lemma_concat_step(lists, n - 1);
        assert(count(children[n - 1].clause(), '?') == children[n - 1].params().len());
        if n > 1 {
            lemma_count_append(join(parts.take(n - 1), sep), sep, '?');
            lemma_count_append(join(parts.take(n - 1), sep) + sep, parts[n - 1], '?');
        } else {
            assert(lists.take(0) =~= Seq::empty());
        }
    } else {
        assert(parts.take(0) =~= Seq::empty());
        assert(lists.take(0) =~= Seq::empty());
    }
}

proof fn lemma_count_fragments()
    ensures
        count("json_extract(e.metadata, ?) "@, '?') == 1,
        count("json_extract(e.metadata, ?) IN ("@, '?') == 1,
        count(" ?"@, '?') == 1,
        count("?"@, '?') == 1,
        count(", "@, '?') == 0,
        count("("@, '?') == 0,
        count(")"@, '?') == 0,
        count(" AND "@, '?') == 0,
        count(" OR "@, '?') == 0,
        count("<"@, '?') == 0,
        count("="@, '?') == 0,
        count(">"@, '?') == 0,
        count("TRUE"@, '?') == 0,
{
    reveal_strlit("json_extract(e.metadata, ?) ");
    reveal_strlit("json_extract(e.metadata, ?) IN (");
    reveal_strlit(" ?");
    reveal_strlit("?");
    reveal_strlit(", ");
    reveal_strlit("(");
    reveal_strlit(")");
    reveal_strlit(" AND ");
    reveal_strlit(" OR ");
    reveal_strlit("<");
    reveal_strlit("=");
    reveal_strlit(">");
    reveal_strlit("TRUE");
    lemma_count_single("json_extract(e.metadata, ?) "@, '?', 25);
    lemma_count_single("json_extract(e.metadata, ?) IN ("@, '?', 25);
    lemma_count_single(" ?"@, '?', 1);
    lemma_count_single("?"@, '?', 0);
    lemma_count_absent(", "@, '?');
    lemma_count_absent("("@, '?');
    lemma_count_absent(")"@, '?');
    lemma_count_absent(" AND "@, '?');
    lemma_count_absent(" OR "@, '?');
    lemma_count_absent("<"@, '?');
    lemma_count_absent("="@, '?');
    lemma_count_absent(">"@, '?');
    lemma_count_absent("TRUE"@, '?');
}

/// The text of a condition holds one placeholder for each of its parameters,
/// so every parameter is bound and no placeholder is left open.
pub proof fn lemma_placeholders_match_params(model: FilterModel)
    ensures
        count(model.clause(), '?') == model.params().len(),
    decreases model,
{
    lemma_count_fragments();
    match model {
        FilterModel::Eq(_, _) => {
            lemma_count_comparison(CmpOp::Equal);
        },
        FilterModel::Cmp(op, _, _) => {
            lemma_count_comparison(op);
        },
        FilterModel::In(_, values) => {
            let marks = repeat("?"@, values.len());
            lemma_count_join(marks, ", "@, 1);
            assert(marks.len() * 1 == marks.len()) by (nonlinear_arith);
            lemma_count_append("json_extract(e.metadata, ?) IN ("@, join(marks, ", "@), '?');
            lemma_count_append(
                "json_extract(e.metadata, ?) IN ("@ + join(marks, ", "@),
                ")"@,
                '?',
            );
        },
        FilterModel::And(children) => {
            assert forall|i: int| 0 <= i < children.len() implies count(
                (#[trigger] children[i]).clause(),
                '?',
            ) == children[i].params().len() by {
                lemma_placeholders_match_params(children[i]);
            }
            lemma_count_group(children, " AND "@, children.len() as int);
            lemma_count_in_parentheses(children, " AND "@);
        },
        FilterModel::Or(children) => {
            assert forall|i: int| 0 <= i < children.len() implies count(
                (#[trigger] children[i]).clause(),
                '?',
            ) == children[i].params().len() by {
                lemma_placeholders_match_params(children[i]);
            }
            lemma_count_group(children, " OR "@, children.len() as int);
            lemma_count_in_parentheses(children, " OR "@);
        },
    }
}

proof fn lemma_count_comparison(op: CmpOp)
    ensures
        count(comparison(op), '?') == 2,
{
    lemma_count_fragments();
    lemma_count_append("json_extract(e.metadata, ?) "@, op.symbol(), '?');
    lemma_count_append("json_extract(e.metadata, ?) "@ + op.symbol(), " ?"@, '?');
}

proof fn lemma_count_in_parentheses(children: Seq<FilterModel>, sep: Seq<char>)
    requires
        count(join(clauses(children).take(children.len() as int), sep), '?') == concat(
            param_lists(children).take(children.len() as int),
        ).len(),
    ensures
        count(group(clauses(children), sep), '?') == concat(param_lists(children)).len(),
{
    lemma_count_fragments();
    assert(clauses(children).take(children.len() as int) =~= clauses(children));
    assert(param_lists(children).take(children.len() as int) =~= param_lists(children));
    lemma_count_append("("@, join(clauses(children), sep), '?');
    lemma_count_append("("@ + join(clauses(children), sep), ")"@, '?');
}

} // verus!
