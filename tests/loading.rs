use ldtk_load::{
    directory_of, resolve_path, EntityRef, FieldScalar, TileRect, FieldValue, JsonValue, LayerPayload,
    LdtkJson, Level, LoadError, Project,
};

const INT_LAYER: &str = r#"{"__identifier":"Ground","__type":"IntGrid","__cWid":2,"__cHei":1,"__gridSize":16,"intGridCsv":[1,0]}"#;
const ENTITY_LAYER: &str = r#"{"__identifier":"Things","__type":"Entities","__cWid":2,"__cHei":1,"__gridSize":16,"entityInstances":[{"__identifier":"Player","px":[8,8],"width":16,"height":24,"fieldInstances":[{"__identifier":"hp","__type":"Int","__value":10},{"__identifier":"speed","__type":"Float","__value":1.5},{"__identifier":"spawn","__type":"Point","__value":{"cx":1,"cy":2}},{"__identifier":"tags","__type":"Array<String>","__value":["a","b"]}]}]}"#;
const TILE_LAYER: &str = r#"{"__identifier":"Art","__type":"Tiles","__cWid":1,"__cHei":1,"__gridSize":16,"gridTiles":[{"px":[0,0],"src":[16,0],"t":1}]}"#;

fn level_doc(uid: i64, name: &str, layers: &str) -> String {
    format!(
        r#"{{"uid":{},"identifier":"{}","worldX":0,"worldY":{},"pxWid":256,"pxHei":128,"externalRelPath":null,"layerInstances":[{}],"fieldInstances":[]}}"#,
        uid,
        name,
        uid * 10,
        layers
    )
}

fn stub_doc(uid: i64, name: &str, rel: Option<&str>) -> String {
    let path = match rel {
        Some(r) => format!("\"{}\"", r),
        None => "null".to_string(),
    };
    format!(
        r#"{{"uid":{},"identifier":"{}","worldX":0,"worldY":0,"pxWid":256,"pxHei":128,"externalRelPath":{},"layerInstances":null,"fieldInstances":[]}}"#,
        uid, name, path
    )
}

fn project_doc(external: bool, levels: &[String]) -> String {
    format!(
        r#"{{"jsonVersion":"1.1.3","defaultGridSize":16,"externalLevels":{},"defs":{{"layers":[{{"identifier":"Ground","uid":1}}],"entities":[{{"identifier":"Player","uid":2}}],"tilesets":[],"enums":[]}},"levels":[{}]}}"#,
        external,
        levels.join(",")
    )
}

fn table(entries: &[(&str, String)]) -> Vec<(String, Vec<u8>)> {
    entries.iter().map(|(p, c)| (p.to_string(), c.as_bytes().to_vec())).collect()
}

#[test]
fn inline_project_keeps_embedded_levels() {
    let l1 = level_doc(7, "First", INT_LAYER);
    let l2 = level_doc(9, "Second", TILE_LAYER);
    let files = table(&[("/a/b/project.json", project_doc(false, &[l1.clone(), l2.clone()]))]);
    let p = Project::new("/a/b/project.json", &files).unwrap();
    assert!(!p.external_levels);
    assert_eq!(p.json_version, "1.1.3");
    assert_eq!(p.defs.layers.len(), 1);
    assert_eq!(p.defs.entities[0].uid, 2);
    assert_eq!(p.levels.len(), 2);
    let only1 = Level::new("l1.json", &table(&[("l1.json", l1)])).unwrap();
    let only2 = Level::new("l2.json", &table(&[("l2.json", l2)])).unwrap();
    assert_eq!(p.levels[0], only1);
    assert_eq!(p.levels[1], only2);
    assert_eq!(p.levels[1].world_y, 90);
    let mut q = p.clone();
    q.load_external_levels("/a/b/project.json", &files).unwrap();
    assert_eq!(q, p);
}

#[test]
fn external_project_loads_level_files_in_order() {
    let files = table(&[
        (
            "/a/b/project.json",
            project_doc(true, &[stub_doc(3, "B", Some("levels/B.json")), stub_doc(1, "A", Some("levels/A.json"))]),
        ),
        ("/a/b/levels/A.json", level_doc(1, "A", INT_LAYER)),
        ("/a/b/levels/B.json", level_doc(3, "B", ENTITY_LAYER)),
    ]);
    let stubs = Project::load_project("/a/b/project.json", &files).unwrap();
    assert!(stubs.levels[0].layer_instances.is_none());
    let p = Project::new("/a/b/project.json", &files).unwrap();
    assert_eq!(p.levels.len(), 2);
    assert_eq!(p.levels[0].uid, 3);
    assert_eq!(p.levels[1].uid, 1);
    assert_eq!(p.levels[0].identifier, "B");
    assert!(p.levels[0].external_rel_path.is_none());
    let layers = p.levels[0].layer_instances.as_ref().unwrap();
    assert_eq!(layers.len(), 1);
    match &layers[0].payload {
        LayerPayload::Entities(es) => {
            assert_eq!(es[0].identifier, "Player");
            assert_eq!(es[0].px.x, 8);
            assert_eq!(es[0].height, 24);
            assert_eq!(es[0].field_instances.len(), 4);
        }
        _ => panic!("expected an entity layer"),
    }
    let legacy = LdtkJson::new("/a/b/project.json".to_string(), &files).unwrap();
    assert_eq!(legacy, p);
}

#[test]
fn resolves_against_the_project_directory() {
    assert_eq!(resolve_path("/a/b/project.json", "levels/L1.json"), "/a/b/levels/L1.json");
    assert_eq!(directory_of("/a/b/project.json"), "/a/b");
    assert_eq!(directory_of("project.json"), ".");
    assert_eq!(resolve_path("project.json", "L1.json"), "./L1.json");
}

#[test]
fn external_level_is_read_from_the_resolved_path() {
    let files = table(&[
        ("/a/b/project.json", project_doc(true, &[stub_doc(5, "L1", Some("levels/L1.json"))])),
        ("/a/levels/L1.json", level_doc(5, "wrong", INT_LAYER)),
        ("./levels/L1.json", level_doc(5, "wrong", INT_LAYER)),
        ("/a/b/levels/L1.json", level_doc(5, "right", INT_LAYER)),
    ]);
    let p = Project::new("/a/b/project.json", &files).unwrap();
    assert_eq!(p.levels[0].identifier, "right");
}

#[test]
fn get_level_finds_first_by_uid() {
    let files = table(&[(
        "p.json",
        project_doc(false, &[level_doc(4, "x", INT_LAYER), level_doc(6, "y", INT_LAYER), level_doc(6, "z", INT_LAYER)]),
    )]);
    let mut p = Project::new("p.json", &files).unwrap();
    assert_eq!(p.get_level(6).unwrap().identifier, "y");
    assert_eq!(p.get_level(4).unwrap().identifier, "x");
    assert!(p.get_level(5).is_none());
    p.clear_levels();
    assert!(p.get_level(4).is_none());
}

#[test]
fn missing_external_path_fails() {
    let files = table(&[
        (
            "/p/project.json",
            project_doc(true, &[stub_doc(1, "A", Some("A.json")), stub_doc(2, "B", None)]),
        ),
        ("/p/A.json", level_doc(1, "A", INT_LAYER)),
    ]);
    let r = Project::new("/p/project.json", &files);
    assert_eq!(r, Err(LoadError::MissingExternalPath { index: 1, uid: 2 }));
    let mut stubs = Project::load_project("/p/project.json", &files).unwrap();
    let before = stubs.clone();
    assert!(stubs.load_external_levels("/p/project.json", &files).is_err());
    assert_eq!(stubs, before);
}

#[test]
fn missing_level_file_fails() {
    let files = table(&[(
        "/p/project.json",
        project_doc(true, &[stub_doc(1, "A", Some("A.json"))]),
    )]);
    let r = Project::new("/p/project.json", &files);
    assert_eq!(r, Err(LoadError::ResourceNotFound { path: "/p/A.json".to_string() }));
}

#[test]
fn load_level_failures() {
    let files = table(&[("bad.json", r#"{"not": "a level"}"#.to_string())]);
    assert_eq!(
        Level::new("absent.json", &files),
        Err(LoadError::ResourceNotFound { path: "absent.json".to_string() })
    );
    assert!(matches!(Level::new("bad.json", &files), Err(LoadError::Decode { .. })));
    let broken = table(&[("broken.json", "{\"uid\": ".to_string())]);
    assert!(matches!(Level::new("broken.json", &broken), Err(LoadError::Decode { .. })));
    assert!(matches!(Project::load_project("x.json", &files), Err(LoadError::ResourceNotFound { .. })));
}

#[test]
fn clear_levels_empties() {
    let files = table(&[("p.json", project_doc(false, &[level_doc(1, "a", INT_LAYER)]))]);
    let mut p = Project::new("p.json", &files).unwrap();
    assert_eq!(p.levels.len(), 1);
    p.clear_levels();
    assert_eq!(p.levels.len(), 0);
    p.clear_levels();
    assert_eq!(p.levels.len(), 0);
    assert_eq!(p.default_grid_size, 16);
}

#[test]
fn unknown_layer_type_is_rejected() {
    let layer = r#"{"__identifier":"X","__type":"Sprites","__cWid":1,"__cHei":1,"__gridSize":8,"gridTiles":[]}"#;
    let files = table(&[("l.json", level_doc(1, "a", layer))]);
    assert_eq!(
        Level::new("l.json", &files),
        Err(LoadError::Decode { message: "the document does not fit the LDtk schema".to_string() })
    );
}

#[test]
fn field_value_must_fit_its_type() {
    let ok = r#"{"__identifier":"E","__type":"Entities","__cWid":1,"__cHei":1,"__gridSize":8,"entityInstances":[{"__identifier":"P","px":[0,0],"width":1,"height":1,"fieldInstances":[{"__identifier":"hp","__type":"Int","__value":null}]}]}"#;
    let bad = r#"{"__identifier":"E","__type":"Entities","__cWid":1,"__cHei":1,"__gridSize":8,"entityInstances":[{"__identifier":"P","px":[0,0],"width":1,"height":1,"fieldInstances":[{"__identifier":"hp","__type":"Int","__value":"ten"}]}]}"#;
    let files = table(&[("ok.json", level_doc(1, "a", ok)), ("bad.json", level_doc(1, "a", bad))]);
    let l = Level::new("ok.json", &files).unwrap();
    match &l.layer_instances.unwrap()[0].payload {
        LayerPayload::Entities(es) => {
            assert_eq!(es[0].field_instances[0].value, FieldValue::Single(FieldScalar::Null));
        }
        _ => panic!("expected an entity layer"),
    }
    assert!(matches!(Level::new("bad.json", &files), Err(LoadError::Decode { .. })));
}

#[test]
fn field_values_of_each_shape() {
    let files = table(&[("l.json", level_doc(2, "b", ENTITY_LAYER))]);
    let l = Level::new("l.json", &files).unwrap();
    let layers = l.layer_instances.unwrap();
    let fields = match &layers[0].payload {
        LayerPayload::Entities(es) => es[0].field_instances.clone(),
        _ => panic!("expected an entity layer"),
    };
    assert_eq!(fields[0].value, FieldValue::Single(FieldScalar::Int(10)));
    match &fields[1].value {
        FieldValue::Single(FieldScalar::Float(n)) => assert_eq!(n.as_f64(), Some(1.5)),
        _ => panic!("expected a float"),
    }
    match &fields[2].value {
        FieldValue::Single(FieldScalar::Point(p)) => assert_eq!((p.x, p.y), (1, 2)),
        _ => panic!("expected a point"),
    }
    assert_eq!(
        fields[3].value,
        FieldValue::List(vec![FieldScalar::Str("a".to_string()), FieldScalar::Str("b".to_string())])
    );
    assert_eq!(fields[3].field_type, "Array<String>");
}

#[test]
fn level_tree_holds_its_members() {
    let l = Level::new("l.json", &table(&[("l.json", level_doc(2, "b", INT_LAYER))])).unwrap();
    match l.to_json() {
        JsonValue::Object(entries) => {
            assert_eq!(entries.len(), 9);
            assert_eq!(entries[0].0, "uid");
            assert!(matches!(entries[0].1, JsonValue::Int(2)));
            assert!(matches!(&entries[1].1, JsonValue::Str(s) if s == "b"));
            assert!(matches!(entries[6].1, JsonValue::Null));
            match &entries[7].1 {
                JsonValue::Array(layers) => assert_eq!(layers.len(), 1),
                _ => panic!("expected an array"),
            }
        }
        _ => panic!("expected an object"),
    }
}

#[test]
fn level_round_trips_through_json_text() {
    let doc = level_doc(2, "b", &[ENTITY_LAYER, INT_LAYER, TILE_LAYER].join(","));
    let l = Level::new("l.json", &table(&[("l.json", doc)])).unwrap();
    let bytes = l.to_json_bytes();
    let text = String::from_utf8(bytes.clone()).unwrap();
    assert!(text.contains("\"uid\":2"));
    assert!(text.contains("\"__type\":\"Entities\""));
    let again = Level::new("m.json", &vec![("m.json".to_string(), bytes)]).unwrap();
    assert_eq!(again, l);
}

#[test]
fn project_round_trips_through_json_text() {
    for external in [false, true] {
        let levels = if external {
            vec![stub_doc(1, "A", Some("A.json")), stub_doc(2, "B", Some("B.json"))]
        } else {
            vec![level_doc(1, "A", ENTITY_LAYER), level_doc(2, "B", TILE_LAYER)]
        };
        let p = Project::load_project("p.json", &table(&[("p.json", project_doc(external, &levels))])).unwrap();
        let bytes = p.to_json_bytes();
        let again = Project::load_project("q.json", &vec![("q.json".to_string(), bytes)]).unwrap();
        assert_eq!(again, p);
        assert_eq!(again.external_levels, external);
    }
}

fn entity_layer_with_field(field_type: &str, value: &str) -> String {
    format!(
        r#"{{"__identifier":"E","__type":"Entities","__cWid":1,"__cHei":1,"__gridSize":8,"entityInstances":[{{"__identifier":"P","px":[0,0],"width":1,"height":1,"fieldInstances":[{{"__identifier":"f","__type":"{}","__value":{}}}]}}]}}"#,
        field_type, value
    )
}

fn decode_field_value(field_type: &str, value: &str) -> Result<FieldValue, LoadError> {
    let files = table(&[("l.json", level_doc(1, "a", &entity_layer_with_field(field_type, value)))]);
    let l = Level::new("l.json", &files)?;
    match &l.layer_instances.unwrap()[0].payload {
        LayerPayload::Entities(es) => Ok(es[0].field_instances[0].value.clone()),
        _ => panic!("expected an entity layer"),
    }
}

#[test]
fn unknown_field_type_is_rejected() {
    assert!(matches!(decode_field_value("Banana", "1"), Err(LoadError::Decode { .. })));
    assert!(matches!(decode_field_value("Array<Banana>", "[1]"), Err(LoadError::Decode { .. })));
    assert!(matches!(decode_field_value("LocalEnum.", "\"A\""), Err(LoadError::Decode { .. })));
}

#[test]
fn array_elements_must_fit_the_element_type() {
    assert!(matches!(decode_field_value("Array<Int>", "[\"abc\"]"), Err(LoadError::Decode { .. })));
    assert!(matches!(decode_field_value("Array<Int>", "3"), Err(LoadError::Decode { .. })));
    assert!(matches!(decode_field_value("Int", "[3]"), Err(LoadError::Decode { .. })));
    assert!(matches!(decode_field_value("Bool", "null"), Err(LoadError::Decode { .. })));
    assert_eq!(
        decode_field_value("Array<Int>", "[3, null]"),
        Ok(FieldValue::List(vec![FieldScalar::Int(3), FieldScalar::Null]))
    );
}

#[test]
fn field_types_of_the_schema_decode() {
    assert_eq!(
        decode_field_value("LocalEnum.Item", "\"Sword\""),
        Ok(FieldValue::Single(FieldScalar::Str("Sword".to_string())))
    );
    assert_eq!(
        decode_field_value("ExternEnum.Color", "null"),
        Ok(FieldValue::Single(FieldScalar::Null))
    );
    assert_eq!(
        decode_field_value("Array<Point>", r#"[{"cx":1,"cy":2}]"#),
        Ok(FieldValue::List(vec![FieldScalar::Point(ldtk_load::GridPoint { x: 1, y: 2 })]))
    );
    assert_eq!(
        decode_field_value("EntityRef", r#"{"entityIid":"e","layerIid":"l","levelIid":"v","worldIid":"w"}"#),
        Ok(FieldValue::Single(FieldScalar::EntityRef(EntityRef {
            entity_iid: "e".to_string(),
            layer_iid: "l".to_string(),
            level_iid: "v".to_string(),
            world_iid: "w".to_string(),
        })))
    );
    assert_eq!(
        decode_field_value("Tile", r#"{"tilesetUid":3,"x":16,"y":0,"w":16,"h":16}"#),
        Ok(FieldValue::Single(FieldScalar::Tile(TileRect { tileset_uid: 3, x: 16, y: 0, w: 16, h: 16 })))
    );
    assert!(matches!(decode_field_value("Tile", r#"{"cx":1,"cy":2}"#), Err(LoadError::Decode { .. })));
}

#[test]
fn first_failing_stub_decides_the_error() {
    let stubs = [stub_doc(1, "A", Some("A.json")), stub_doc(2, "B", Some("B.json")), stub_doc(3, "C", Some("C.json"))];
    let files = table(&[
        ("/p/project.json", project_doc(true, &stubs)),
        ("/p/A.json", level_doc(1, "A", INT_LAYER)),
        ("/p/C.json", "{\"uid\": 3}".to_string()),
    ]);
    assert_eq!(
        Project::new("/p/project.json", &files),
        Err(LoadError::ResourceNotFound { path: "/p/B.json".to_string() })
    );
    let files = table(&[
        ("/p/project.json", project_doc(true, &stubs)),
        ("/p/A.json", level_doc(1, "A", INT_LAYER)),
        ("/p/B.json", "not json".to_string()),
    ]);
    assert!(matches!(Project::new("/p/project.json", &files), Err(LoadError::Decode { .. })));
}

#[test]
fn repeated_loads_agree() {
    let files = table(&[("bad.json", "{\"uid\": ".to_string()), ("p.json", project_doc(false, &[level_doc(1, "a", INT_LAYER)]))]);
    assert_eq!(Level::new("bad.json", &files), Level::new("bad.json", &files));
    assert_eq!(Project::load_project("p.json", &files), Project::load_project("p.json", &files));
}
