//! The read-only schema projections the completion strategies work over,
//! and the connection settings they are fetched with.  The values are
//! supplied per request by the caller; nothing here caches or queries.

use vstd::prelude::*;
use vstd::view::View as _;
use crate::text::{to_chars, chars_to_string};

verus! {

pub struct Table {
    pub keyspace_name: String,
    pub table_name: String,
}

impl Table {
    /// The fully qualified `keyspace.table` name.
    pub fn united(&self) -> (r: String)
        ensures
            r@ == self.keyspace_name@ + seq!['.'] + self.table_name@,
    {
        let mut v = to_chars(self.keyspace_name.as_str());
        v.push('.');
        let t = to_chars(self.table_name.as_str());
        let mut i: usize = 0;
        while i < t.len()
            invariant
                i <= t@.len(),
                t@ == self.table_name@,
                v@ == self.keyspace_name@ + seq!['.'] + t@.take(i as int),
            decreases t.len() - i,
        {
            v.push(t[i]);
            assert(self.keyspace_name@ + seq!['.'] + t@.take(i as int + 1) =~= (
            self.keyspace_name@ + seq!['.'] + t@.take(i as int)).push(t@[i as int]));
            i = i + 1;
        }
        assert(t@.take(t@.len() as int) =~= t@);
        chars_to_string(&v)
    }
}

pub struct KeySpace {
    pub keyspace_name: String,
    pub durable_writes: bool,
    pub replication: std::collections::HashMap<String, String>,
}

pub struct Column {
    pub keyspace_name: String,
    pub table_name: String,
    pub column_name: String,
    pub column_type: String,
}

pub struct Role {
    pub name: String,
}

pub struct Aggregate {
    pub keyspace_name: String,
    pub aggregate_name: String,
}

pub struct Function {
    pub keyspace_name: String,
    pub function_name: String,
}

pub struct Index {
    pub keyspace_name: String,
    pub index_name: String,
}

pub struct Type {
    pub keyspace_name: String,
    pub typename: String,
}

pub struct View {
    pub keyspace_name: String,
    pub view_name: String,
}

pub struct CqlSettings {
    pub url: String,
    pub pswd: String,
    pub user: String,
}

impl CqlSettings {
    /// The default connection settings for a locally hosted database.
    pub fn new() -> (r: CqlSettings)
        ensures
            r.url@ == "127.0.0.1:9042"@,
            r.pswd@ == "cassandra"@,
            r.user@ == "cassandra"@,
    {
        CqlSettings {
            url: "127.0.0.1:9042".to_owned(),
            pswd: "cassandra".to_owned(),
            user: "cassandra".to_owned(),
        }
    }

    /// Connection settings from externally supplied values.
    pub fn from_env(url: &str, pswd: &str, user: &str) -> (r: CqlSettings)
        ensures
            r.url@ == url@,
            r.pswd@ == pswd@,
            r.user@ == user@,
    {
        CqlSettings { url: url.to_owned(), pswd: pswd.to_owned(), user: user.to_owned() }
    }
}

pub struct SetupConfig {
    pub password: String,
    pub user_name: String,
    pub ip_addr: String,
    pub context_based_select: bool,
}

/// One tracked document: its identifier and its full text, replaced
/// wholesale on every change.
pub struct Document {
    pub uri: String,
    pub text: String,
}

impl Document {
    pub fn new(uri: String, text: String) -> (r: Document)
        ensures
            r.uri == uri,
            r.text == text,
    {
        Document { uri, text }
    }

    /// Replaces the document's identity and text.
    pub fn change(&mut self, uri: String, text: String)
        ensures
            final(self).uri == uri,
            final(self).text == text,
    {
        self.uri = uri;
        self.text = text;
    }
}

/// The keyspace names of a list of keyspace rows, in order.
pub fn keyspace_names(items: &Vec<KeySpace>) -> (r: Vec<String>)
    ensures
        r.deep_view() == items@.map_values(|k: KeySpace| k.keyspace_name@),
{
    let mut r: Vec<String> = Vec::new();
    let mut i: usize = 0;
    while i < items.len()
        invariant
            i <= items@.len(),
            r.deep_view() == items@.take(i as int).map_values(|k: KeySpace| k.keyspace_name@),
        decreases items.len() - i,
    {
        let ghost pre = r.deep_view();
        r.push(items[i].keyspace_name.clone());
        proof {
            assert(r.deep_view() =~~= pre.push(items@[i as int].keyspace_name@));
            assert(items@.take(i as int + 1).map_values(|k: KeySpace| k.keyspace_name@) =~~= items@.take(
                i as int,
            ).map_values(|k: KeySpace| k.keyspace_name@).push(items@[i as int].keyspace_name@));
        }
        i = i + 1;
    }
    assert(items@.take(items@.len() as int) =~= items@);
    r
}

} // verus!
