use martin::{
    AddSourceInput, Catalog, MartinError, PgSource, PgSqlInfo, QueryOutcome, Source,
    SourceMetadata, SqlParamType, TileCoord, TileSources,
};

fn pg_tilejson(name: &str) -> martin::TileJson {
    martin::TileJson {
        tilejson: "3.0.0".to_string(),
        tiles: vec![],
        name: Some(name.to_string()),
        description: None,
        attribution: None,
        version: None,
        minzoom: None,
        maxzoom: None,
        bounds: None,
        center: None,
        vector_layers: None,
    }
}

fn pg_source(id: &str, sql: &str, use_url_query: bool) -> PgSource {
    PgSource::new(
        id.to_string(),
        PgSqlInfo::new(sql.to_string(), use_url_query, "sig".to_string()),
        pg_tilejson(id),
    )
}

#[test]
fn fetch_without_row_is_empty_payload() {
    let src = pg_source("public.tbl", "SELECT 1", false);
    let xyz = TileCoord { z: 1, x: 2, y: 3 };
    assert_eq!(src.resolve_fetch(xyz, None, QueryOutcome::Row(None)), Ok(vec![]));
    assert_eq!(
        src.resolve_fetch(xyz, None, QueryOutcome::Row(Some(None))),
        Ok(vec![])
    );
    assert_eq!(
        src.resolve_fetch(xyz, None, QueryOutcome::Row(Some(Some(vec![1, 2, 3])))),
        Ok(vec![1, 2, 3])
    );
}

#[test]
fn prepare_failure_carries_exact_sql() {
    let sql = "SELECT mvt FROM tiles WHERE z=$1 AND x=$2 AND y=$3";
    let src = pg_source("public.tiles", sql, false);
    let xyz = TileCoord { z: 0, x: 0, y: 0 };
    let r = src.resolve_fetch(
        xyz,
        None,
        QueryOutcome::PrepareFailure("type mismatch".to_string()),
    );
    match r {
        Err(MartinError::PrepareQueryError(cause, id, signature, text)) => {
            assert_eq!(cause, "type mismatch");
            assert_eq!(id, "public.tiles");
            assert_eq!(signature, "sig");
            assert_eq!(text, sql);
        }
        other => panic!("expected PrepareQueryError, got {:?}", other),
    }
}

#[test]
fn pool_failure_is_a_pool_error() {
    let src = pg_source("public.tbl", "SELECT 1", false);
    let xyz = TileCoord { z: 1, x: 1, y: 1 };
    let r = src.resolve_fetch(xyz, None, QueryOutcome::PoolFailure("pool down".to_string()));
    assert!(matches!(r, Err(MartinError::PoolError(m)) if m == "pool down"));
}

#[test]
fn query_failure_reports_coordinate_and_params() {
    let xyz = TileCoord { z: 4, x: 5, y: 6 };

    let plain = pg_source("public.tbl", "SELECT 1", false);
    let r = plain.resolve_fetch(xyz, None, QueryOutcome::QueryFailure("boom".to_string()));
    match r {
        Err(MartinError::GetTileError(cause, id, coord)) => {
            assert_eq!(cause, "boom");
            assert_eq!(id, "public.tbl");
            assert_eq!(coord, xyz);
        }
        other => panic!("expected GetTileError, got {:?}", other),
    }

    let with_query = pg_source("public.tbl", "SELECT 1", true);
    let params = vec![("k".to_string(), "v".to_string())];
    let r = with_query.resolve_fetch(
        xyz,
        Some(&params),
        QueryOutcome::QueryFailure("boom".to_string()),
    );
    match r {
        Err(MartinError::GetTileWithQueryError(cause, id, coord, q)) => {
            assert_eq!(cause, "boom");
            assert_eq!(id, "public.tbl");
            assert_eq!(coord, xyz);
            assert_eq!(q, Some(params));
        }
        other => panic!("expected GetTileWithQueryError, got {:?}", other),
    }
}

#[test]
fn param_types_follow_query_support() {
    let plain = pg_source("a", "q", false);
    assert_eq!(
        plain.param_types(),
        vec![SqlParamType::Int2, SqlParamType::Int8, SqlParamType::Int8]
    );
    let with_query = pg_source("a", "q", true);
    assert_eq!(
        with_query.param_types(),
        vec![
            SqlParamType::Int2,
            SqlParamType::Int8,
            SqlParamType::Int8,
            SqlParamType::Json
        ]
    );
}

#[test]
fn url_query_support_accumulates_across_sources() {
    let t = TileSources::new(vec![vec![
        Source::Pg(pg_source("alpha", "q", true)),
        Source::Pg(pg_source("beta", "q", false)),
    ]])
    .unwrap();
    let (_, use_query, _) = t.get_sources("beta,alpha", None).unwrap();
    assert!(use_query);
    let (_, use_query, _) = t.get_sources("beta", None).unwrap();
    assert!(!use_query);
}

#[test]
fn registering_missing_table_is_bad_request_and_changes_nothing() {
    let mut t = TileSources::new(vec![vec![Source::Pg(pg_source("alpha", "q", false))]]).unwrap();
    let before = t.get_catalog();
    let r = t.register_table_source("public", "missing", false);
    assert!(matches!(r, Err(MartinError::BadRequest(id)) if id == "public.missing"));
    assert_eq!(t.get_catalog(), before);
}

#[test]
fn registering_existing_table_installs_default_source() {
    let mut t = TileSources::new(vec![]).unwrap();
    t.register_table_source("public", "roads", true).unwrap();
    let src = t.get_source("public.roads").unwrap();
    match &src {
        Source::Pg(p) => {
            assert_eq!(p.id, "public.roads");
            assert_eq!(p.info.sql_query, "SELECT * FROM public.roads");
            assert!(!p.info.use_url_query);
            assert_eq!(p.info.signature, "");
        }
        other => panic!("expected a PostgreSQL source, got {:?}", other),
    }
    let tj = src.get_tilejson();
    assert_eq!(tj.tilejson, "2.2.0");
    assert_eq!(tj.name, Some("roads".to_string()));
    assert_eq!(
        tj.description,
        Some("Dynamic source added: public.roads".to_string())
    );
    assert_eq!(tj.version, Some("1.0.0".to_string()));
    assert_eq!(tj.minzoom, Some(0));
    assert_eq!(tj.maxzoom, Some(22));
    assert_eq!(tj.bounds, None);
    // The conservative zoom range serves everything.
    assert!(src.is_valid_zoom(0));
    assert!(src.is_valid_zoom(22));

    let catalog = t.get_catalog();
    assert_eq!(catalog.len(), 1);
    assert_eq!(catalog[0].0, "public.roads");
}

#[test]
fn catalog_tracks_registered_descriptors() {
    let t = TileSources::new(vec![]).unwrap();
    let mut catalog = Catalog::new(&t).unwrap();
    assert!(catalog.tiles.is_empty());
    assert!(catalog.sources.is_empty());

    let input = AddSourceInput {
        schema: "public".to_string(),
        table_or_function: "roads".to_string(),
    };
    catalog.add_source(SourceMetadata {
        schema: input.schema.clone(),
        table_or_function: input.table_or_function.clone(),
    });
    assert_eq!(catalog.sources.len(), 1);
    assert_eq!(catalog.sources[0].0, "public.roads");
    assert_eq!(catalog.sources[0].1.schema, "public");

    // Registering the same key again replaces, not duplicates.
    catalog.add_source(SourceMetadata {
        schema: "public".to_string(),
        table_or_function: "roads".to_string(),
    });
    assert_eq!(catalog.sources.len(), 1);
}
