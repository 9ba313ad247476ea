use vstd::prelude::*;

use crate::tile::{TileCoord, TileInfo};
use crate::UrlQuery;

verus! {

/// The error taxonomy of the tile core. Each variant implies a different
/// operator action, so the distinctions are part of the contract surface.
#[derive(Debug, PartialEq, Eq)]
pub enum MartinError {
    /// Duplicate source id handed to the startup constructor; carries the id.
    ConfigurationError(String),
    /// A request named a source id that the registry does not hold.
    NotFound(String),
    /// A request named sources whose format fingerprints differ; carries the
    /// fingerprint established so far and the conflicting one.
    MergeConflict(TileInfo, TileInfo),
    /// A pooled database connection could not be acquired; carries the
    /// pool's own message.
    PoolError(String),
    /// Statement preparation failed: the cause, the source id, the query
    /// signature, and the raw SQL text, in that order.
    PrepareQueryError(String, String, String, String),
    /// Query execution failed: the cause, the source id, and the coordinate.
    GetTileError(String, String, TileCoord),
    /// Query execution with client parameters failed: the cause, the source
    /// id, the coordinate, and the parameters the caller supplied, if any.
    GetTileWithQueryError(String, String, TileCoord, Option<UrlQuery>),
    /// Dynamic registration named a schema/table that does not exist.
    BadRequest(String),
}

impl MartinError {
    /// True exactly when this is a client-side error (4xx-equivalent);
    /// the rest are server-side failures.
    pub fn is_client_error(&self) -> (r: bool)
        ensures
            r == (self is NotFound || self is MergeConflict || self is BadRequest),
    {
        match self {
            MartinError::NotFound(_) => true,
            MartinError::MergeConflict(_, _) => true,
            MartinError::BadRequest(_) => true,
            _ => false,
        }
    }
}

} // verus!
