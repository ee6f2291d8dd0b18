use vstd::prelude::*;

use crate::errors::Error;

verus! {

/// One named, hashable, optionally reversible schema change.
///
/// A migration loaded from the local definition source carries its forward
/// SQL; one reconstructed from the bookkeeping store carries the hash and
/// reverse SQL recorded at apply time, and no forward SQL.
pub struct Migration {
    pub name: String,
    pub hash: Option<String>,
    pub up_sql: Option<String>,
    pub down_sql: Option<String>,
}

/// The mathematical image of a `Migration`: every field as a plain value.
pub struct MigrationView {
    pub name: Seq<char>,
    pub hash: Option<Seq<char>>,
    pub up_sql: Option<Seq<char>>,
    pub down_sql: Option<Seq<char>>,
}

/// The view of an optional string.
pub open spec fn opt_str_view(o: Option<String>) -> Option<Seq<char>> {
    match o {
        Option::Some(s) => Option::Some(s@),
        Option::None => Option::None,
    }
}

impl View for Migration {
    type V = MigrationView;

    open spec fn view(&self) -> MigrationView {
        MigrationView {
            name: self.name@,
            hash: opt_str_view(self.hash),
            up_sql: opt_str_view(self.up_sql),
            down_sql: opt_str_view(self.down_sql),
        }
    }
}

impl Migration {
    /// A migration can be reverted exactly when it carries reverse SQL.
    pub fn is_reversable(&self) -> (r: bool)
        ensures
            r == (self@.down_sql is Some),
    {
        self.down_sql.is_some()
    }
}

/// Assembles a `Migration` field by field and validates, at `build`, that
/// the combination is consistent with some origin: a local definition
/// (forward SQL present) or a recorded history row (hash and reverse SQL
/// present). A name is required in either case.
pub struct MigrationBuilder {
    pub name: Option<String>,
    pub hash: Option<String>,
    pub up_sql: Option<String>,
    pub down_sql: Option<String>,
}

/// The field combinations `MigrationBuilder::build` accepts.
pub open spec fn buildable(b: MigrationBuilder) -> bool {
    b.name is Some && (b.up_sql is Some || (b.hash is Some && b.down_sql is Some))
}

impl MigrationBuilder {
    pub fn new() -> (r: Self)
        ensures
            r.name is None,
            r.hash is None,
            r.up_sql is None,
            r.down_sql is None,
    {
        MigrationBuilder { name: None, hash: None, up_sql: None, down_sql: None }
    }

    /// Sets the migration's full (compound) name.
    pub fn compound_name(self, name: &str) -> (r: Self)
        ensures
            opt_str_view(r.name) == Option::Some(name@),
            r.hash == self.hash,
            r.up_sql == self.up_sql,
            r.down_sql == self.down_sql,
    {
        MigrationBuilder { name: Some(name.to_owned()), ..self }
    }

    pub fn name(self, name: &str) -> (r: Self)
        ensures
            opt_str_view(r.name) == Option::Some(name@),
            r.hash == self.hash,
            r.up_sql == self.up_sql,
            r.down_sql == self.down_sql,
    {
        MigrationBuilder { name: Some(name.to_owned()), ..self }
    }

    pub fn hash(self, hash: &str) -> (r: Self)
        ensures
            opt_str_view(r.hash) == Option::Some(hash@),
            r.name == self.name,
            r.up_sql == self.up_sql,
            r.down_sql == self.down_sql,
    {
        MigrationBuilder { hash: Some(hash.to_owned()), ..self }
    }

    pub fn up_sql(self, sql: &str) -> (r: Self)
        ensures
            opt_str_view(r.up_sql) == Option::Some(sql@),
            r.name == self.name,
            r.hash == self.hash,
            r.down_sql == self.down_sql,
    {
        MigrationBuilder { up_sql: Some(sql.to_owned()), ..self }
    }

    pub fn down_sql(self, sql: &str) -> (r: Self)
        ensures
            opt_str_view(r.down_sql) == Option::Some(sql@),
            r.name == self.name,
            r.hash == self.hash,
            r.up_sql == self.up_sql,
    {
        MigrationBuilder { down_sql: Some(sql.to_owned()), ..self }
    }

    /// Validates the collected fields and produces the migration.
    /// Fails with `BadMigration` exactly when no origin fits them.
    pub fn build(self) -> (r: Result<Migration, Error>)
        ensures
            r is Ok <==> buildable(self),
            r is Err ==> r == Result::<Migration, Error>::Err(Error::BadMigration),
            r matches Ok(m) ==> {
                &&& Option::Some(m@.name) == opt_str_view(self.name)
                &&& m@.hash == opt_str_view(self.hash)
                &&& m@.up_sql == opt_str_view(self.up_sql)
                &&& m@.down_sql == opt_str_view(self.down_sql)
            },
    {
        match self.name {
            Some(name) => {
                if self.up_sql.is_some() || (self.hash.is_some() && self.down_sql.is_some()) {
                    Ok(Migration {
                        name,
                        hash: self.hash,
                        up_sql: self.up_sql,
                        down_sql: self.down_sql,
                    })
                } else {
                    Err(Error::BadMigration)
                }
            },
            None => Err(Error::BadMigration),
        }
    }
}

} // verus!
