use martin::{
    merge_tilejson, tiles_path_and_query, Bounds, Source, StaticSource, TileEncoding, TileFormat,
    TileInfo, TileJson, VectorLayer,
};

fn layer(id: &str, field: &str, value: &str) -> VectorLayer {
    VectorLayer {
        id: id.to_string(),
        fields: vec![(field.to_string(), value.to_string())],
    }
}

fn source_from(tj: TileJson, id: &str) -> Source {
    Source::Static(StaticSource {
        id: id.to_string(),
        tilejson: tj,
        info: TileInfo::new(TileFormat::Mvt, TileEncoding::Uncompressed),
        data: vec![],
    })
}

#[test]
fn test_merge_tilejson() {
    let url = "http://localhost:8888/foo/{z}/{x}/{y}".to_string();
    let tj1 = TileJson {
        tilejson: "3.0.0".to_string(),
        tiles: vec![],
        name: Some("layer1".to_string()),
        description: None,
        attribution: None,
        version: None,
        minzoom: Some(5),
        maxzoom: Some(10),
        bounds: Some(Bounds::new(-10, -20, 10, 20)),
        center: None,
        vector_layers: Some(vec![layer("layer1", "a", "x1")]),
    };

    let tj = merge_tilejson(&vec![source_from(tj1.clone(), "id")], url.clone());
    assert_eq!(
        TileJson {
            tiles: vec![url.clone()],
            ..tj1.clone()
        },
        tj
    );

    let tj2 = TileJson {
        tilejson: "3.0.0".to_string(),
        tiles: vec![],
        name: Some("layer2".to_string()),
        description: None,
        attribution: None,
        version: None,
        minzoom: Some(7),
        maxzoom: Some(12),
        bounds: Some(Bounds::new(-20, -5, 5, 50)),
        center: None,
        vector_layers: Some(vec![layer("layer2", "b", "x2")]),
    };

    let tj = merge_tilejson(
        &vec![source_from(tj1, "id"), source_from(tj2, "id")],
        url.clone(),
    );
    assert_eq!(tj.tiles, vec![url]);
    assert_eq!(tj.name, Some("layer1,layer2".to_string()));
    assert_eq!(tj.minzoom, Some(5));
    assert_eq!(tj.maxzoom, Some(12));
    assert_eq!(tj.bounds, Some(Bounds::new(-20, -20, 10, 50)));
    assert_eq!(
        tj.vector_layers,
        Some(vec![layer("layer1", "a", "x1"), layer("layer2", "b", "x2")])
    );
}

#[test]
fn merge_deduplicates_and_joins_text_fields() {
    let mut tj1 = TileJson {
        tilejson: "3.0.0".to_string(),
        tiles: vec![],
        name: Some("n1".to_string()),
        description: Some("shared".to_string()),
        attribution: Some("owner".to_string()),
        version: None,
        minzoom: None,
        maxzoom: None,
        bounds: None,
        center: None,
        vector_layers: None,
    };
    let mut tj2 = tj1.clone();
    tj2.name = Some("n2".to_string());
    let tj3 = tj1.clone();
    tj1.description = Some("first".to_string());

    let merged = merge_tilejson(
        &vec![
            source_from(tj1, "a"),
            source_from(tj2, "b"),
            source_from(tj3, "c"),
        ],
        "u".to_string(),
    );
    // Three names, first occurrence of each wins its position.
    assert_eq!(merged.name, Some("n1,n2".to_string()));
    // "owner" appears three times but is kept once.
    assert_eq!(merged.attribution, Some("owner".to_string()));
    // Distinct descriptions joined with a newline, in order.
    assert_eq!(merged.description, Some("first\nshared".to_string()));
    // A field absent from every source stays absent.
    assert_eq!(merged.version, None);
    assert_eq!(merged.bounds, None);
    assert_eq!(merged.center, None);
    assert_eq!(merged.vector_layers, None);
    assert_eq!(merged.tilejson, "3.0.0");
}

#[test]
fn merge_keeps_first_center() {
    let mut tj1 = TileJson {
        tilejson: "3.0.0".to_string(),
        tiles: vec![],
        name: None,
        description: None,
        attribution: None,
        version: None,
        minzoom: None,
        maxzoom: None,
        bounds: None,
        center: None,
        vector_layers: None,
    };
    let mut tj2 = tj1.clone();
    let mut tj3 = tj1.clone();
    tj1.center = None;
    tj2.center = Some(martin::Center {
        longitude: 4,
        latitude: 5,
        zoom: 6,
    });
    tj3.center = Some(martin::Center {
        longitude: 7,
        latitude: 8,
        zoom: 9,
    });

    let merged = merge_tilejson(
        &vec![
            source_from(tj1, "a"),
            source_from(tj2, "b"),
            source_from(tj3, "c"),
        ],
        "u".to_string(),
    );
    assert_eq!(
        merged.center,
        Some(martin::Center {
            longitude: 4,
            latitude: 5,
            zoom: 6,
        })
    );
}

#[test]
fn tiles_path_suffix_includes_query_only_when_present() {
    assert_eq!(tiles_path_and_query("/foo", ""), "/foo/{z}/{x}/{y}");
    assert_eq!(
        tiles_path_and_query("/foo", "k=v"),
        "/foo/{z}/{x}/{y}?k=v"
    );
}
