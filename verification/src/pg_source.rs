use vstd::prelude::*;

use crate::error::MartinError;
use crate::metadata::{TileJson, TileJsonV};
use crate::tile::TileCoord;

verus! {

// ---------------------------------------------------------------------------
// SQL query descriptors
// ---------------------------------------------------------------------------

/// An immutable description of the SQL query a PostgreSQL-backed source runs:
/// the query text, whether it accepts a trailing client-supplied JSON
/// parameter, and a human-readable signature used in error reports.
#[derive(Debug, PartialEq, Eq)]
pub struct PgSqlInfo {
    pub sql_query: String,
    pub use_url_query: bool,
    pub signature: String,
}

/// The mathematical value of a `PgSqlInfo`.
pub struct PgSqlInfoV {
    pub sql_query: Seq<char>,
    pub use_url_query: bool,
    pub signature: Seq<char>,
}

impl View for PgSqlInfo {
    type V = PgSqlInfoV;

    open spec fn view(&self) -> PgSqlInfoV {
        PgSqlInfoV {
            sql_query: self.sql_query@,
            use_url_query: self.use_url_query,
            signature: self.signature@,
        }
    }
}

impl PgSqlInfo {
    pub fn new(query: String, has_query_params: bool, signature: String) -> (r: Self)
        ensures
            r@.sql_query == query@,
            r@.use_url_query == has_query_params,
            r@.signature == signature@,
    {
        PgSqlInfo {
            sql_query: query,
            use_url_query: has_query_params,
            signature,
        }
    }
}

impl Clone for PgSqlInfo {
    fn clone(&self) -> (r: Self)
        ensures
            r@ == self@,
    {
        PgSqlInfo {
            sql_query: self.sql_query.clone(),
            use_url_query: self.use_url_query,
            signature: self.signature.clone(),
        }
    }
}

// ---------------------------------------------------------------------------
// PostgreSQL-backed sources
// ---------------------------------------------------------------------------

/// A tile source that answers fetches by running a parameterized SQL query
/// against a pooled database connection. The connection pool itself lives
/// outside the core; this value carries everything the query step needs to
/// know: the source id, the query descriptor, and the TileJSON document.
#[derive(Debug)]
pub struct PgSource {
    pub id: String,
    pub info: PgSqlInfo,
    pub tilejson: TileJson,
}

/// The mathematical value of a `PgSource`.
pub struct PgSourceV {
    pub id: Seq<char>,
    pub info: PgSqlInfoV,
    pub tilejson: TileJsonV,
}

impl View for PgSource {
    type V = PgSourceV;

    open spec fn view(&self) -> PgSourceV {
        PgSourceV { id: self.id@, info: self.info@, tilejson: self.tilejson@ }
    }
}

impl PgSource {
    pub fn new(id: String, info: PgSqlInfo, tilejson: TileJson) -> (r: Self)
        ensures
            r@.id == id@,
            r@.info == info@,
            r@.tilejson == tilejson@,
    {
        PgSource { id, info, tilejson }
    }
}

impl Clone for PgSource {
    fn clone(&self) -> (r: Self)
        ensures
            r@ == self@,
    {
        PgSource {
            id: self.id.clone(),
            info: self.info.clone(),
            tilejson: self.tilejson.clone(),
        }
    }
}

// ---------------------------------------------------------------------------
// The tile-fetch pipeline
//
// Fetching a tile runs through the external pool and database driver:
// acquire a connection, prepare the statement, execute it, read at most one
// row. Those steps suspend on I/O and live with the caller that owns the
// pool; what this core pins down is everything decided around them: which
// parameter types are bound, and what each step outcome means for the
// caller — which error it raises with which diagnostics, and which payload
// a row (or its absence) yields.
// ---------------------------------------------------------------------------

/// A SQL parameter type bound to the tile query.
#[derive(Clone, Copy, Debug, PartialEq, Eq, Structural)]
pub enum SqlParamType {
    /// A 16-bit integer (the zoom).
    Int2,
    /// A 64-bit integer (the column or row).
    Int8,
    /// A JSON document (the client query parameters).
    Json,
}

/// The parameter types of the tile query: zoom, x, y, plus a trailing JSON
/// parameter when the source consumes client query parameters.
pub open spec fn param_types_spec(use_url_query: bool) -> Seq<SqlParamType> {
    if use_url_query {
        seq![SqlParamType::Int2, SqlParamType::Int8, SqlParamType::Int8, SqlParamType::Json]
    } else {
        seq![SqlParamType::Int2, SqlParamType::Int8, SqlParamType::Int8]
    }
}

/// What the database steps produced, handed back by the caller that ran
/// them. Each failure carries the driver's message.
#[derive(Debug)]
pub enum QueryOutcome {
    /// The pool could not provide a connection.
    PoolFailure(String),
    /// Statement preparation failed.
    PrepareFailure(String),
    /// Statement execution failed.
    QueryFailure(String),
    /// Execution succeeded with zero or one row; the payload column of a
    /// present row may be NULL.
    Row(Option<Option<Vec<u8>>>),
}

/// The payload a query result stands for: the column's bytes when a row
/// came back with a non-NULL column, otherwise the empty "no tile" payload.
pub open spec fn extract_tile_spec(row: Option<Option<Vec<u8>>>) -> Seq<u8> {
    match row {
        Some(Some(d)) => d@,
        _ => Seq::<u8>::empty(),
    }
}

impl PgSource {
    /// The parameter types to prepare the statement with.
    pub fn param_types(&self) -> (r: Vec<SqlParamType>)
        ensures
            r@ == param_types_spec(self@.info.use_url_query),
    {
        let mut r: Vec<SqlParamType> = Vec::new();
        r.push(SqlParamType::Int2);
        r.push(SqlParamType::Int8);
        r.push(SqlParamType::Int8);
        if self.info.use_url_query {
            r.push(SqlParamType::Json);
        }
        proof {
            assert(r@ =~= param_types_spec(self@.info.use_url_query));
        }
        r
    }

    /// Turns the outcome of the database steps for tile `xyz` into the
    /// fetch result: a missing row or a NULL column is the valid empty
    /// payload, never an error; each failure becomes the error variant that
    /// names what the operator must look at. Pool failures are not retried
    /// here; retry policy belongs to the pool's owner.
    pub fn resolve_fetch(
        &self,
        xyz: TileCoord,
        url_query: Option<&crate::UrlQuery>,
        outcome: QueryOutcome,
    ) -> (r: Result<crate::TileData, MartinError>)
        ensures
            match outcome {
                QueryOutcome::PoolFailure(m) => r matches Err(
                    MartinError::PoolError(c),
                ) && c@ == m@,
                QueryOutcome::PrepareFailure(m) => r matches Err(
                    MartinError::PrepareQueryError(c, id, sig, sql),
                ) && c@ == m@ && id@ == self@.id && sig@ == self@.info.signature
                    && sql@ == self@.info.sql_query,
                QueryOutcome::QueryFailure(m) => if self@.info.use_url_query {
                    r matches Err(MartinError::GetTileWithQueryError(c, id, coord, q))
                        && c@ == m@ && id@ == self@.id && coord == xyz
                        && (match url_query {
                        Some(q0) => q matches Some(qq) && crate::metadata::pairs_view(qq@)
                            == crate::metadata::pairs_view(q0@),
                        None => q is None,
                    })
                } else {
                    r matches Err(MartinError::GetTileError(c, id, coord)) && c@ == m@
                        && id@ == self@.id && coord == xyz
                },
                QueryOutcome::Row(row) => r matches Ok(data) && data@
                    == extract_tile_spec(row),
            },
    {
        match outcome {
            QueryOutcome::PoolFailure(m) => Err(MartinError::PoolError(m)),
            QueryOutcome::PrepareFailure(m) => Err(MartinError::PrepareQueryError(
                m,
                self.id.clone(),
                self.info.signature.clone(),
                self.info.sql_query.clone(),
            )),
            QueryOutcome::QueryFailure(m) => {
                if self.info.use_url_query {
                    let q: Option<crate::UrlQuery> = match url_query {
                        Some(q0) => Some(crate::metadata::clone_pairs(q0)),
                        None => None,
                    };
                    Err(MartinError::GetTileWithQueryError(m, self.id.clone(), xyz, q))
                } else {
                    Err(MartinError::GetTileError(m, self.id.clone(), xyz))
                }
            },
            QueryOutcome::Row(row) => Ok(match row {
                Some(Some(d)) => d,
                Some(None) => Vec::new(),
                None => Vec::new(),
            }),
        }
    }
}

// ---------------------------------------------------------------------------
// Dynamic registration
// ---------------------------------------------------------------------------

/// The id a dynamically registered table is installed under.
pub open spec fn dynamic_source_id(schema: Seq<char>, table: Seq<char>) -> Seq<char> {
    schema + seq!['.'] + table
}

/// The placeholder query text for a dynamically registered table.
pub open spec fn default_sql_query(schema: Seq<char>, table: Seq<char>) -> Seq<char> {
    "SELECT * FROM "@ + schema + seq!['.'] + table
}

/// The placeholder metadata of a dynamically registered table: a generic
/// description, the conservative full zoom range, and no bounds. Weaker
/// than statically configured sources, pending a real introspection pass.
pub open spec fn default_tilejson(schema: Seq<char>, table: Seq<char>) -> TileJsonV {
    TileJsonV {
        tilejson: "2.2.0"@,
        tiles: Seq::<Seq<char>>::empty(),
        name: Some(table),
        description: Some("Dynamic source added: "@ + schema + seq!['.'] + table),
        attribution: None,
        version: Some("1.0.0"@),
        minzoom: Some(0u8),
        maxzoom: Some(22u8),
        bounds: None,
        center: None,
        vector_layers: None,
    }
}

/// The full view of a dynamically registered source.
pub open spec fn dynamic_source(schema: Seq<char>, table: Seq<char>) -> crate::source::SourceV {
    crate::source::SourceV::Pg(PgSourceV {
        id: dynamic_source_id(schema, table),
        info: PgSqlInfoV {
            sql_query: default_sql_query(schema, table),
            use_url_query: false,
            signature: Seq::<char>::empty(),
        },
        tilejson: default_tilejson(schema, table),
    })
}

pub(crate) fn concat_schema_table(prefix: &str, schema_name: &str, source_name: &str) -> (r: String)
    ensures
        r@ == prefix@ + schema_name@ + seq!['.'] + source_name@,
{
    proof {
        reveal_strlit(".");
        assert("."@ =~= seq!['.']);
    }
    let mut s = String::new();
    s.append(prefix);
    s.append(schema_name);
    s.append(".");
    s.append(source_name);
    proof {
        assert(s@ =~= prefix@ + schema_name@ + seq!['.'] + source_name@);
    }
    s
}

impl crate::source::TileSources {
    /// Installs a PostgreSQL source for `schema_name.source_name` with the
    /// placeholder metadata and default query, under the id
    /// `schema_name.source_name`. Every other entry is kept.
    pub fn add_source(&mut self, schema_name: &str, source_name: &str) -> (r: Result<
        (),
        MartinError,
    >)
        requires
            old(self).wf(),
        ensures
            r is Ok,
            final(self).wf(),
            final(self).has_id(dynamic_source_id(schema_name@, source_name@)),
            final(self).at_id(dynamic_source_id(schema_name@, source_name@))@
                == dynamic_source(schema_name@, source_name@),
            forall|k: Seq<char>| k != dynamic_source_id(schema_name@, source_name@)
                ==> final(self).has_id(k) == old(self).has_id(k),
            forall|k: Seq<char>| k != dynamic_source_id(schema_name@, source_name@)
                && old(self).has_id(k) ==> final(self).at_id(k) == old(self).at_id(k),
    {
        let source_id = concat_schema_table("", schema_name, source_name);
        proof {
            reveal_strlit("");
            assert(""@ =~= Seq::<char>::empty());
            assert(source_id@ =~= dynamic_source_id(schema_name@, source_name@));
        }

        let tilejson = TileJson {
            tilejson: String::from_str("2.2.0"),
            tiles: Vec::new(),
            name: Some(source_name.to_owned()),
            description: Some(concat_schema_table(
                "Dynamic source added: ",
                schema_name,
                source_name,
            )),
            attribution: None,
            version: Some(String::from_str("1.0.0")),
            minzoom: Some(0),
            maxzoom: Some(22),
            bounds: None,
            center: None,
            vector_layers: None,
        };
        proof {
            assert(crate::text::strs_view(tilejson.tiles@) =~= Seq::<Seq<char>>::empty());
            assert(tilejson@ =~= default_tilejson(schema_name@, source_name@));
        }

        let sql_query = concat_schema_table("SELECT * FROM ", schema_name, source_name);
        let info = PgSqlInfo {
            sql_query,
            signature: String::new(),
            use_url_query: false,
        };

        let new_pg_source = PgSource::new(source_id.clone(), info, tilejson);
        proof {
            assert(new_pg_source@.id =~= dynamic_source_id(schema_name@, source_name@));
            assert(new_pg_source@.info.sql_query
                =~= default_sql_query(schema_name@, source_name@));
            assert(new_pg_source@.info.signature =~= Seq::<char>::empty());
        }
        self.insert_source(source_id, crate::source::Source::Pg(new_pg_source));
        Ok(())
    }

    /// Registers `schema_name.source_name` given the result of the external
    /// "does the table exist" check. When the table is absent the registry
    /// is left untouched and `BadRequest` carries the would-be id;
    /// otherwise the source is installed as `add_source` says.
    pub fn register_table_source(
        &mut self,
        schema_name: &str,
        source_name: &str,
        table_exists: bool,
    ) -> (r: Result<(), MartinError>)
        requires
            old(self).wf(),
        ensures
            final(self).wf(),
            !table_exists ==> (r matches Err(MartinError::BadRequest(m))
                && m@ == dynamic_source_id(schema_name@, source_name@)
                && *final(self) == *old(self)),
            table_exists ==> {
                &&& r is Ok
                &&& final(self).has_id(dynamic_source_id(schema_name@, source_name@))
                &&& final(self).at_id(dynamic_source_id(schema_name@, source_name@))@
                    == dynamic_source(schema_name@, source_name@)
                &&& forall|k: Seq<char>| k != dynamic_source_id(
                    schema_name@,
                    source_name@,
                ) ==> final(self).has_id(k) == old(self).has_id(k)
                &&& forall|k: Seq<char>| k != dynamic_source_id(
                    schema_name@,
                    source_name@,
                ) && old(self).has_id(k) ==> final(self).at_id(k) == old(self).at_id(k)
            },
    {
        if !table_exists {
            let id = concat_schema_table("", schema_name, source_name);
            proof {
                reveal_strlit("");
                assert(""@ =~= Seq::<char>::empty());
                assert(id@ =~= dynamic_source_id(schema_name@, source_name@));
            }
            return Err(MartinError::BadRequest(id));
        }
        self.add_source(schema_name, source_name)
    }
}

} // verus!
