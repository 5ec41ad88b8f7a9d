//! The contexts in which users wrote last, which replies carry along.
use vstd::prelude::*;
use vstd::string::*;

use crate::types;

verus! {

/// A table of contexts, by user.
pub type ContextTable = dashmap::DashMap<String, String>;

/// The contexts that a table holds, by user.
pub uninterp spec fn contexts(table: ContextTable) -> Map<Seq<char>, Seq<char>>;

/// No context is known.
pub open spec fn no_contexts() -> Map<Seq<char>, Seq<char>> {
    Map::empty()
}

/// `dashmap::DashMap::new`: the table without entries.
#[verifier::external_body]
fn new_contexts() -> (r: ContextTable)
    ensures
        contexts(r) == no_contexts(),
{
    dashmap::DashMap::new()
}

/// `dashmap::DashMap::insert`: puts a context under a user, in the place of one
/// that stood there.
#[verifier::external_body]
fn put_context(table: &mut ContextTable, user: &str, context: &str)
    ensures
        contexts(*final(table)) == contexts(*old(table)).insert(user@, context@),
{
    table.insert(user.to_owned(), context.to_owned());
}

/// `dashmap::DashMap::get`: the context of a user, where it is there.
#[verifier::external_body]
fn find_context(table: &ContextTable, user: &str) -> (r: Option<String>)
    ensures
        match r {
            Some(c) => contexts(*table).dom().contains(user@) && contexts(*table)[user@] == c@,
            None => !contexts(*table).dom().contains(user@),
        },
{
    table.get(user).map(|c| c.clone())
}

/// `dashmap::DashMap::clear`: takes every entry out.
#[verifier::external_body]
fn clear_contexts(table: &mut ContextTable)
    ensures
        contexts(*final(table)) == no_contexts(),
{
    table.clear();
}

/// The contexts in which users wrote last.
pub struct Contexts {
    table: ContextTable,
}

impl View for Contexts {
    type V = Map<Seq<char>, Seq<char>>;

    closed spec fn view(&self) -> Map<Seq<char>, Seq<char>> {
        contexts(self.table)
    }
}

/// The context of a user, where one is known.
pub open spec fn context_of(m: Map<Seq<char>, Seq<char>>, user: Seq<char>) -> Option<Seq<char>> {
    if m.dom().contains(user) {
        Some(m[user])
    } else {
        None
    }
}

impl Contexts {
    /// No context is known.
    pub fn new() -> (r: Self)
        ensures
            r@ == Map::<Seq<char>, Seq<char>>::empty(),
    {
        Contexts { table: new_contexts() }
    }

    /// Notes the context in which a user wrote.
    pub fn insert(&mut self, user: &str, context: &str)
        ensures
            final(self)@ == old(self)@.insert(user@, context@),
    {
        put_context(&mut self.table, user, context);
    }

    /// The context in which a user wrote last.
    pub fn get(&self, user: &str) -> (r: Option<String>)
        ensures
            types::opt_text(r) == context_of(self@, user@),
    {
        find_context(&self.table, user)
    }

    /// Forgets every context.
    pub fn clear(&mut self)
        ensures
            final(self)@ == Map::<Seq<char>, Seq<char>>::empty(),
    {
        clear_contexts(&mut self.table);
    }
}

/// A reply carries the context in which its user wrote last, and nobody else's.
pub proof fn law_latest_context_holds(
    m: Map<Seq<char>, Seq<char>>,
    user: Seq<char>,
    other: Seq<char>,
    first: Seq<char>,
    last: Seq<char>,
)
    requires
        user != other,
    ensures
        context_of(m.insert(user, first).insert(user, last), user) == Some(last),
        context_of(m.insert(user, last), other) == context_of(m, other),
{
}

} // verus!
