//! Database sources: how a database is addressed and queried, and the
//! records built from what its queries answer.

use vstd::prelude::*;
use crate::paths::{file_name, file_name_bounds};
use crate::text::{concat, string_of, to_chars};

verus! {

/// Errors of a database source.
#[derive(Clone, Debug, PartialEq)]
pub enum DatabaseError {
    Connection(String),
    Query(String),
    NotFound(String),
}

/// A column of a table: its name, its declared type, and whether it may be null.
#[derive(Clone, Debug, PartialEq)]
pub struct ColumnSchema {
    pub name: String,
    pub data_type: String,
    pub nullable: bool,
}

/// A table: its name, its columns and its number of rows.
#[derive(Clone, Debug, PartialEq)]
pub struct TableInfo {
    pub name: String,
    pub columns: Vec<ColumnSchema>,
    pub row_count: u64,
}

/// A value of a previewed row: text, or null where the value is not text.
#[derive(Clone, Debug, PartialEq)]
pub enum DbColumnValue {
    Text(String),
    Null,
}

/// The first rows of a table.
#[derive(Clone, Debug, PartialEq)]
pub struct TablePreview {
    pub columns: Vec<ColumnSchema>,
    pub rows: Vec<Vec<DbColumnValue>>,
    pub total_rows: u64,
}

/// What a successful connection test reports.
#[derive(Clone, Debug, PartialEq)]
pub struct ConnectionInfo {
    pub server_version: String,
    pub database_name: String,
    pub reachable: bool,
    pub latency_ms: u32,
}

/// The connection string of the SQLite database file at `path`, created
/// when missing.
pub open spec fn sqlite_uri(path: Seq<char>) -> Seq<char> {
    "sqlite:///"@ + path + "?mode=rwc"@
}

/// The connection string of the SQLite database file at `path` (see `sqlite_uri`).
pub fn sqlite_connect_string(path: &str) -> (r: String)
    ensures
        r@ == sqlite_uri(path@),
{
    let a = concat("sqlite:///", path);
    concat(a.as_str(), "?mode=rwc")
}

/// The query that counts the rows of `table`.
pub fn count_query(table: &str) -> (r: String)
    ensures
        r@ == "SELECT COUNT(*) FROM \""@ + table@ + "\""@,
{
    let a = concat("SELECT COUNT(*) FROM \"", table);
    concat(a.as_str(), "\"")
}

/// The query that reads the first rows of `table`, their number bound to
/// its parameter.
pub fn preview_query(table: &str) -> (r: String)
    ensures
        r@ == "SELECT * FROM \""@ + table@ + "\" LIMIT ?"@,
{
    let a = concat("SELECT * FROM \"", table);
    concat(a.as_str(), "\" LIMIT ?")
}

/// The columns described by the rows of `pragma_table_info`: each name,
/// type and not-null flag.
pub fn column_schemas(rows: Vec<(String, String, bool)>) -> (r: Vec<ColumnSchema>)
    ensures
        r@.len() == rows@.len(),
        forall|i: int| 0 <= i < rows@.len() ==> {
            &&& (#[trigger] r@[i]).name@ == rows@[i].0@
            &&& r@[i].data_type@ == rows@[i].1@
            &&& r@[i].nullable == !rows@[i].2
        },
{
    let mut r: Vec<ColumnSchema> = Vec::new();
    let mut i: usize = 0;
    while i < rows.len()
        invariant
            i <= rows@.len(),
            r@.len() == i,
            forall|k: int| 0 <= k < i ==> {
                &&& (#[trigger] r@[k]).name@ == rows@[k].0@
                &&& r@[k].data_type@ == rows@[k].1@
                &&& r@[k].nullable == !rows@[k].2
            },
        decreases rows@.len() - i,
    {
        let row = &rows[i];
        r.push(ColumnSchema { name: row.0.clone(), data_type: row.1.clone(), nullable: !row.2 });
        i += 1;
    }
    r
}

/// The values of a previewed row: each value read as text, else null.
pub fn row_values(values: Vec<Option<String>>) -> (r: Vec<DbColumnValue>)
    ensures
        r@.len() == values@.len(),
        forall|i: int| 0 <= i < values@.len() ==> match values@[i] {
            Some(s) => #[trigger] r@[i] matches DbColumnValue::Text(t) && t@ == s@,
            None => r@[i] is Null,
        },
{
    let mut r: Vec<DbColumnValue> = Vec::new();
    let mut i: usize = 0;
    while i < values.len()
        invariant
            i <= values@.len(),
            r@.len() == i,
            forall|k: int| 0 <= k < i ==> match values@[k] {
                Some(s) => #[trigger] r@[k] matches DbColumnValue::Text(t) && t@ == s@,
                None => r@[k] is Null,
            },
        decreases values@.len() - i,
    {
        match &values[i] {
            Some(s) => r.push(DbColumnValue::Text(s.clone())),
            None => r.push(DbColumnValue::Null),
        }
        i += 1;
    }
    r
}

/// A table's description from its name, its columns and the count that the
/// count query answered.
pub fn table_info(name: String, columns: Vec<ColumnSchema>, count: i64) -> (r: TableInfo)
    ensures
        r.name == name,
        r.columns == columns,
        r.row_count == count as u64,
{
    TableInfo { name, columns, row_count: count as u64 }
}

/// A preview from the columns, the rows read and the count of all rows.
pub fn table_preview(columns: Vec<ColumnSchema>, rows: Vec<Vec<DbColumnValue>>, total: i64) -> (r: TablePreview)
    ensures
        r.columns == columns,
        r.rows == rows,
        r.total_rows == total as u64,
{
    TablePreview { columns, rows, total_rows: total as u64 }
}

/// What a connection test reports: the server's version, the database's
/// name and the time the test took; the server was reached.
pub fn connection_info(server_version: String, database_name: String, latency_ms: u32) -> (r: ConnectionInfo)
    ensures
        r.server_version == server_version,
        r.database_name == database_name,
        r.reachable,
        r.latency_ms == latency_ms,
{
    ConnectionInfo { server_version, database_name, reachable: true, latency_ms }
}

/// A SQLite database file.
pub struct SqliteDatabaseSource {
    pub path: String,
}

impl SqliteDatabaseSource {
    pub fn new(path: String) -> (r: Self)
        ensures
            r.path == path,
    {
        SqliteDatabaseSource { path }
    }

    /// The connection string of the database file (see `sqlite_uri`).
    pub fn connect_string(&self) -> (r: String)
        ensures
            r@ == sqlite_uri(self.path@),
    {
        sqlite_connect_string(self.path.as_str())
    }

    /// The database's name: the file name of its path, or empty.
    pub fn database_name(&self) -> (r: String)
        ensures
            r@ == match file_name(self.path@) {
                Some(n) => n,
                None => Seq::empty(),
            },
    {
        let v = to_chars(self.path.as_str());
        match file_name_bounds(&v) {
            Some((a, b)) => string_of(&v, a, b),
            None => String::new(),
        }
    }
}

/// A PostgreSQL server, reached by its connection string.
pub struct PostgresDatabaseSource {
    pub connection_string: String,
}

impl PostgresDatabaseSource {
    pub fn new(connection_string: String) -> (r: Self)
        ensures
            r.connection_string == connection_string,
    {
        PostgresDatabaseSource { connection_string }
    }

    /// The name a connection test reports.
    pub fn database_name(&self) -> (r: String)
        ensures
            r@ == "postgres"@,
    {
        "postgres".to_string()
    }

    /// Listing the tables is not offered for PostgreSQL.
    pub fn list_tables(&self) -> (r: Result<Vec<TableInfo>, DatabaseError>)
        ensures
            r matches Err(DatabaseError::NotFound(m)) && m@ == "PostgreSQL list_tables not yet implemented"@,
    {
        Err(DatabaseError::NotFound("PostgreSQL list_tables not yet implemented".to_string()))
    }

    /// Previewing a table is not offered for PostgreSQL.
    pub fn preview_table(&self, table: &str, limit: usize) -> (r: Result<TablePreview, DatabaseError>)
        ensures
            r matches Err(DatabaseError::NotFound(m)) && m@ == "PostgreSQL preview_table not yet implemented"@,
    {
        Err(DatabaseError::NotFound("PostgreSQL preview_table not yet implemented".to_string()))
    }
}

/// A MySQL server, reached by its connection string.
pub struct MySqlDatabaseSource {
    pub connection_string: String,
}

impl MySqlDatabaseSource {
    pub fn new(connection_string: String) -> (r: Self)
        ensures
            r.connection_string == connection_string,
    {
        MySqlDatabaseSource { connection_string }
    }

    /// The name a connection test reports.
    pub fn database_name(&self) -> (r: String)
        ensures
            r@ == "mysql"@,
    {
        "mysql".to_string()
    }

    /// Listing the tables is not offered for MySQL.
    pub fn list_tables(&self) -> (r: Result<Vec<TableInfo>, DatabaseError>)
        ensures
            r matches Err(DatabaseError::NotFound(m)) && m@ == "MySQL list_tables not yet implemented"@,
    {
        Err(DatabaseError::NotFound("MySQL list_tables not yet implemented".to_string()))
    }

    /// Previewing a table is not offered for MySQL.
    pub fn preview_table(&self, table: &str, limit: usize) -> (r: Result<TablePreview, DatabaseError>)
        ensures
            r matches Err(DatabaseError::NotFound(m)) && m@ == "MySQL preview_table not yet implemented"@,
    {
        Err(DatabaseError::NotFound("MySQL preview_table not yet implemented".to_string()))
    }
}

} // verus!
