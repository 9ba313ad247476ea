use martin::{
    MartinError, Source, SourceIDsRequest, StaticSource, Tile, TileCoord, TileEncoding,
    TileFormat, TileInfo, TileJson, TileSources,
};

fn plain_tilejson(name: &str, minzoom: Option<u8>, maxzoom: Option<u8>) -> TileJson {
    TileJson {
        tilejson: "3.0.0".to_string(),
        tiles: vec![],
        name: Some(name.to_string()),
        description: None,
        attribution: None,
        version: None,
        minzoom,
        maxzoom,
        bounds: None,
        center: None,
        vector_layers: None,
    }
}

fn static_source(id: &str, minzoom: Option<u8>, maxzoom: Option<u8>) -> Source {
    Source::Static(StaticSource {
        id: id.to_string(),
        tilejson: plain_tilejson(id, minzoom, maxzoom),
        info: TileInfo::new(TileFormat::Mvt, TileEncoding::Uncompressed),
        data: vec![],
    })
}

fn static_source_with_info(id: &str, info: TileInfo) -> Source {
    Source::Static(StaticSource {
        id: id.to_string(),
        tilejson: plain_tilejson(id, None, None),
        info,
        data: vec![],
    })
}

#[test]
fn xyz_format() {
    let xyz = TileCoord { z: 1, x: 2, y: 3 };
    assert_eq!(xyz.to_csv(), "1,2,3");
    assert_eq!(xyz.to_slash_path(), "1/2/3");
}

#[test]
fn coordinate_format_extremes() {
    let xyz = TileCoord { z: 0, x: 4294967295, y: 10 };
    assert_eq!(xyz.to_csv(), "0,4294967295,10");
    assert_eq!(xyz.to_slash_path(), "0/4294967295/10");
}

#[test]
fn build_then_lookup_returns_supplied_producer() {
    let t = TileSources::new(vec![
        vec![static_source("alpha", Some(3), Some(9))],
        vec![static_source("beta", None, None)],
    ])
    .unwrap();
    let a = t.get_source("alpha").unwrap();
    assert_eq!(a.get_id(), "alpha");
    assert_eq!(a.get_tilejson().minzoom, Some(3));
    let b = t.get_source("beta").unwrap();
    assert_eq!(b.get_id(), "beta");
    assert!(matches!(
        t.get_source("gamma"),
        Err(MartinError::NotFound(id)) if id == "gamma"
    ));
}

#[test]
fn build_with_duplicate_id_fails() {
    let r = TileSources::new(vec![
        vec![static_source("alpha", None, None)],
        vec![static_source("alpha", Some(1), Some(2))],
    ]);
    assert!(matches!(r, Err(MartinError::ConfigurationError(id)) if id == "alpha"));
}

#[test]
fn insert_then_lookup_returns_new_producer() {
    let mut t = TileSources::new(vec![vec![static_source("alpha", None, None)]]).unwrap();
    t.insert_source("beta".to_string(), static_source("beta", Some(4), Some(8)));
    let b = t.get_source("beta").unwrap();
    assert_eq!(b.get_tilejson().minzoom, Some(4));

    // Replacing under the same key is an idempotent replace-or-insert.
    t.insert_source("beta".to_string(), static_source("beta", Some(5), Some(9)));
    let b2 = t.get_source("beta").unwrap();
    assert_eq!(b2.get_tilejson().minzoom, Some(5));
    assert_eq!(t.get_catalog().len(), 2);
}

#[test]
fn catalog_is_sorted_and_suppresses_redundant_names() {
    let mut t = TileSources::new(vec![vec![
        static_source("beta", None, None),
        static_source("alpha", None, None),
        static_source("gamma", None, None),
    ]])
    .unwrap();
    t.insert_source("delta".to_string(), static_source("delta", None, None));
    let catalog = t.get_catalog();
    let keys: Vec<&str> = catalog.iter().map(|e| e.0.as_str()).collect();
    assert_eq!(keys, vec!["alpha", "beta", "delta", "gamma"]);
    // Each name equals its id, so the catalog suppresses all of them.
    assert!(catalog.iter().all(|e| e.1.name.is_none()));
    assert_eq!(catalog[0].1.content_type, "application/x-protobuf");
    assert_eq!(catalog[0].1.content_encoding, None);
}

#[test]
fn unknown_id_aborts_resolution() {
    let t = TileSources::new(vec![vec![static_source("alpha", None, None)]]).unwrap();
    let r = t.get_sources("alpha,beta", None);
    assert!(matches!(r, Err(MartinError::NotFound(id)) if id == "beta"));
}

#[test]
fn empty_id_list_is_not_found() {
    let t = TileSources::new(vec![vec![static_source("alpha", None, None)]]).unwrap();
    let r = t.get_sources("", None);
    assert!(matches!(r, Err(MartinError::NotFound(id)) if id.is_empty()));
}

#[test]
fn mismatched_fingerprints_conflict() {
    let mvt = TileInfo::new(TileFormat::Mvt, TileEncoding::Uncompressed);
    let png = TileInfo::new(TileFormat::Png, TileEncoding::Internal);
    let t = TileSources::new(vec![vec![
        static_source_with_info("alpha", mvt),
        static_source_with_info("beta", png),
    ]])
    .unwrap();
    let r = t.get_sources("alpha,beta", None);
    assert!(matches!(r, Err(MartinError::MergeConflict(a, b)) if a == mvt && b == png));
}

#[test]
fn zoom_filtering_keeps_order_and_drops_unserved_zooms() {
    let t = TileSources::new(vec![vec![
        static_source("alpha", Some(5), Some(10)),
        static_source("beta", None, None),
    ]])
    .unwrap();

    // Out of range: alpha is dropped, not an error.
    let (sources, _, _) = t.get_sources("alpha,beta", Some(12)).unwrap();
    let ids: Vec<&str> = sources.iter().map(|s| s.get_id()).collect();
    assert_eq!(ids, vec!["beta"]);

    // In range: both stay, in request order.
    let (sources, _, _) = t.get_sources("alpha,beta", Some(7)).unwrap();
    let ids: Vec<&str> = sources.iter().map(|s| s.get_id()).collect();
    assert_eq!(ids, vec!["alpha", "beta"]);

    // Without a zoom, nothing is filtered.
    let (sources, use_query, info) = t.get_sources("alpha,beta", None).unwrap();
    assert_eq!(sources.len(), 2);
    assert!(!use_query);
    assert_eq!(info, TileInfo::new(TileFormat::Mvt, TileEncoding::Uncompressed));
}

#[test]
fn zoom_validity_respects_open_bounds() {
    let s = static_source("alpha", Some(5), Some(10));
    assert!(!s.is_valid_zoom(4));
    assert!(s.is_valid_zoom(5));
    assert!(s.is_valid_zoom(10));
    assert!(!s.is_valid_zoom(11));
    let open = static_source("beta", None, None);
    assert!(open.is_valid_zoom(0));
    assert!(open.is_valid_zoom(22));
    assert!(TileSources::check_zoom(&open, "beta", 22));
}

#[test]
fn tile_carries_payload_and_fingerprint() {
    let info = TileInfo::new(TileFormat::Png, TileEncoding::Gzip);
    let tile = Tile::new(vec![7, 8], info);
    assert_eq!(tile.data, vec![7, 8]);
    assert_eq!(tile.info, info);
    assert_eq!(info.format.content_type(), "image/png");
    assert_eq!(info.encoding.content_encoding(), Some("gzip"));
}

#[test]
fn request_ids_resolve_in_order() {
    let req = SourceIDsRequest {
        source_ids: "alpha,beta".to_string(),
    };
    let t = TileSources::new(vec![vec![
        static_source("alpha", None, None),
        static_source("beta", None, None),
    ]])
    .unwrap();
    let (sources, _, _) = t.get_sources(&req.source_ids, None).unwrap();
    let ids: Vec<&str> = sources.iter().map(|s| s.get_id()).collect();
    assert_eq!(ids, vec!["alpha", "beta"]);
    // A duplicate handle names the same logical source.
    let copy = sources[0].clone_source();
    assert_eq!(copy.get_id(), "alpha");
}

#[test]
fn client_errors_are_classified() {
    assert!(MartinError::NotFound("x".to_string()).is_client_error());
    assert!(MartinError::BadRequest("x".to_string()).is_client_error());
    assert!(!MartinError::PoolError("down".to_string()).is_client_error());
    assert!(!MartinError::ConfigurationError("dup".to_string()).is_client_error());
}
