//! Statements for the storage engine: their text and the values bound to it.

use crate::text::texts;
use vstd::prelude::*;

verus! {

/// A value bound to one placeholder of a statement.
#[derive(Clone, Debug, PartialEq)]
pub enum Bind {
    /// The embedding that the statement is about: the query vector of a search,
    /// or the vector of the document that is inserted. The caller holds the
    /// vector and binds it in the encoding that the vector index reads.
    Embedding,
    /// An integer.
    Integer(i64),
    /// A text.
    Text(String),
}

/// The mathematical content of a [`Bind`].
pub enum BindModel {
    Embedding,
    Integer(int),
    Text(Seq<char>),
}

impl View for Bind {
    type V = BindModel;

    open spec fn view(&self) -> BindModel {
        match self {
            Bind::Embedding => BindModel::Embedding,
            Bind::Integer(i) => BindModel::Integer(*i as int),
            Bind::Text(s) => BindModel::Text(s@),
        }
    }
}

/// A statement with the values of its placeholders, in the order of the
/// placeholders.
#[derive(Clone, Debug, PartialEq)]
pub struct Query {
    pub sql: String,
    pub binds: Vec<Bind>,
}

/// The mathematical content of a [`Query`].
pub struct QueryModel {
    pub sql: Seq<char>,
    pub binds: Seq<BindModel>,
}

/// The contents of each bind of `v`, in order.
pub open spec fn bind_models(v: Seq<Bind>) -> Seq<BindModel> {
    Seq::new(v.len(), |i: int| v[i]@)
}

/// Each text of `params` as a bind.
pub open spec fn text_binds(params: Seq<Seq<char>>) -> Seq<BindModel> {
    Seq::new(params.len(), |i: int| BindModel::Text(params[i]))
}

impl View for Query {
    type V = QueryModel;

    open spec fn view(&self) -> QueryModel {
        QueryModel { sql: self.sql@, binds: bind_models(self.binds@) }
    }
}

/// Appends each text of `params` to `binds` as a text bind.
pub fn push_text_binds(binds: &mut Vec<Bind>, params: &Vec<String>)
    ensures
        bind_models(final(binds)@) == bind_models(old(binds)@) + text_binds(texts(params@)),
{
    let ghost all = text_binds(texts(params@));
    let mut i: usize = 0;
    while i < params.len()
        invariant
            i <= params.len(),
            all == text_binds(texts(params@)),
            bind_models(binds@) == bind_models(old(binds)@) + all.take(i as int),
        decreases params.len() - i,
    {
        let ghost before = binds@;
        binds.push(Bind::Text(params[i].clone()));
        assert(bind_models(binds@) =~= bind_models(before).push(all[i as int]));
        assert(all.take(i + 1) =~= all.take(i as int).push(all[i as int]));
        i += 1;
    }
    assert(all.take(params.len() as int) =~= all);
}

} // verus!
