//! A map-tile serving core: a registry of tile sources, a PostgreSQL-backed
//! tile-fetch pipeline, and a resolution/merge engine for multi-source
//! requests and their TileJSON metadata.

use vstd::prelude::*;

mod catalog;
mod error;
mod merge;
mod metadata;
mod pg_source;
mod source;
mod text;
mod tile;

pub use catalog::{AddSourceInput, Catalog, SourceMetadata};
pub use error::MartinError;
pub use merge::{merge_tilejson, tiles_path_and_query, SourceIDsRequest};
pub use metadata::{Bounds, Center, TileJson, VectorLayer};
pub use pg_source::{PgSource, PgSqlInfo, QueryOutcome, SqlParamType};
pub use source::{CatalogSourceEntry, Source, StaticSource, TileCatalog, TileSources};
pub use tile::{Tile, TileCoord, TileEncoding, TileFormat, TileInfo};

verus! {

/// Raw tile payload bytes; an empty sequence means "no tile here".
pub type TileData = Vec<u8>;

/// Client-supplied query parameters, as ordered key/value pairs.
pub type UrlQuery = Vec<(String, String)>;

} // verus!
