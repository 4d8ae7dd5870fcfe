//! Names of the node tables and relation tables of the graph store.

use vstd::prelude::*;

verus! {

/// The four node tables.
#[derive(Debug, Clone, Copy, PartialEq, Eq, Structural)]
pub enum Table {
    User,
    Collection,
    Entry,
    Music,
}

impl Table {
    /// The table's name as the store spells it.
    pub open spec fn name(self) -> Seq<char> {
        match self {
            Table::User => "user"@,
            Table::Collection => "collection"@,
            Table::Entry => "entry"@,
            Table::Music => "music"@,
        }
    }

    /// The name as the store spells it.
    pub fn as_str(&self) -> (s: &'static str)
        ensures
            s@ == self.name(),
    {
        match self {
            Table::User => "user",
            Table::Collection => "collection",
            Table::Entry => "entry",
            Table::Music => "music",
        }
    }
}

/// The three relation tables.
#[derive(Debug, Clone, Copy, PartialEq, Eq, Structural)]
pub enum Rel {
    SignIn,
    Collect,
    HasMusic,
}

impl Rel {
    /// The relation's name as the store spells it.
    pub open spec fn name(self) -> Seq<char> {
        match self {
            Rel::SignIn => "sign_in"@,
            Rel::Collect => "collect"@,
            Rel::HasMusic => "has_music"@,
        }
    }

    /// The name as the store spells it.
    pub fn as_str(&self) -> (s: &'static str)
        ensures
            s@ == self.name(),
    {
        match self {
            Rel::SignIn => "sign_in",
            Rel::Collect => "collect",
            Rel::HasMusic => "has_music",
        }
    }
}

/// Whatever names a table of the store.
pub trait TableName {
    spec fn spec_table_name(&self) -> Seq<char>;

    fn table_name(&self) -> (s: &str)
        ensures
            s@ == self.spec_table_name(),
    ;
}

impl TableName for Table {
    open spec fn spec_table_name(&self) -> Seq<char> {
        self.name()
    }

    fn table_name(&self) -> (s: &str) {
        self.as_str()
    }
}

impl TableName for Rel {
    open spec fn spec_table_name(&self) -> Seq<char> {
        self.name()
    }

    fn table_name(&self) -> (s: &str) {
        self.as_str()
    }
}

/// The identity of a record: its table and the key it is derived from
/// (a collection's or an entry's name, a music's path).
#[derive(Debug)]
pub struct RecordKey {
    pub table: Table,
    pub key: String,
}

/// A record's identity, by its text.
pub struct KeyView {
    pub table: Table,
    pub key: Seq<char>,
}

impl View for RecordKey {
    type V = KeyView;

    open spec fn view(&self) -> KeyView {
        KeyView { table: self.table, key: self.key@ }
    }
}

/// The identity that a record with this key has in this table. It depends
/// on nothing else, so it is known before the record is written.
pub fn record_id_for(table: Table, key: &str) -> (id: RecordKey)
    ensures
        id@ == (KeyView { table, key: key@ }),
{
    RecordKey { table, key: key.to_owned() }
}

impl RecordKey {
    /// Whether two identities are the same: same table, same key.
    pub fn same(&self, other: &RecordKey) -> (b: bool)
        ensures
            b == (self@ == other@),
    {
        let t = self.table == other.table;
        let k = self.key == other.key;
        assert(k == (self.key@ == other.key@));
        t && k
    }

    /// A copy of the identity.
    pub fn copy(&self) -> (r: RecordKey)
        ensures
            r@ == self@,
    {
        RecordKey { table: self.table, key: self.key.clone() }
    }
}

} // verus!
