use serde_json::Value;
use shpconvert::attributes::{parse_dbase_value, Date, DateTime, FieldValue, Record, Time};
use shpconvert::cli::{init, OutputFormat};
use shpconvert::files::{
    classify_extension, output_file_name, pair_files, random_file_name, same_text, FileKind,
    PairError,
};
use shpconvert::geometry::{Coord, CoordZ, Shape};
use shpconvert::json::JsonValue;
use shpconvert::kml::{KmlError, KmlToken};
use shpconvert::shapefile::ShapeFile;
use shpconvert::state::AppState;
use shpconvert::transform::transform_shapes;

fn c(x: f64, y: f64) -> Coord {
    Coord { x: x.to_bits(), y: y.to_bits() }
}

fn path(points: &[(f64, f64)]) -> Vec<Coord> {
    points.iter().map(|&(x, y)| c(x, y)).collect()
}

fn named(name: &str) -> Record {
    vec![("NAME".to_string(), FieldValue::Character(Some(name.to_string())))]
}

fn to_serde(v: JsonValue) -> Value {
    match v {
        JsonValue::Null => Value::Null,
        JsonValue::Bool(b) => Value::Bool(b),
        JsonValue::Int(i) => Value::from(i),
        JsonValue::UInt(u) => Value::from(u),
        JsonValue::F64(b) => Value::from(f64::from_bits(b)),
        JsonValue::F32(b) => serde_json::to_value(f32::from_bits(b)).unwrap_or(Value::Null),
        JsonValue::Str(s) => Value::String(s),
        JsonValue::Arr(a) => Value::Array(a.into_iter().map(to_serde).collect()),
        JsonValue::Obj(o) => {
            Value::Object(o.into_iter().map(|(k, v)| (k, to_serde(v))).collect::<serde_json::Map<_, _>>())
        }
    }
}

fn pair(x: f64, y: f64) -> Value {
    Value::Array(vec![Value::from(x), Value::from(y)])
}

fn render_kml(tokens: Vec<KmlToken>) -> String {
    let mut kml = String::new();
    for t in tokens {
        match t {
            KmlToken::Text(s) => kml.push_str(&s),
            KmlToken::Num(b) => kml.push_str(&format!("{}", f64::from_bits(b))),
        }
    }
    kml
}

fn file_of(shapes: Vec<Shape>, records: Vec<Record>) -> ShapeFile {
    let mut shp = ShapeFile::new();
    shp.populate(shapes, records);
    shp
}

#[test]
fn test_shapefile() {
    let mut shp = ShapeFile::new();
    shp.populate(vec![], vec![]);
    let kml = render_kml(shp.to_kml().unwrap());
    assert_eq!(
        kml,
        "<?xml version=\"1.0\" encoding=\"UTF-8\"?><kml xmlns=\"http://www.opengis.net/kml/2.2\"><Document></Document></kml>"
    );
}

#[test]
fn point_features_keep_coordinates_and_order() {
    let shp = file_of(
        vec![Shape::Point(c(1.5, -2.25)), Shape::NullShape, Shape::Point(c(3.0, 4.0))],
        vec![named("a"), named("b"), named("c")],
    );
    let doc = to_serde(shp.to_geojson());
    assert_eq!(doc["type"], "FeatureCollection");
    let fs = doc["features"].as_array().unwrap();
    assert_eq!(fs.len(), 2);
    assert_eq!(fs[0]["geometry"]["coordinates"], pair(1.5, -2.25));
    assert_eq!(fs[0]["id"], 0);
    assert_eq!(fs[0]["properties"]["NAME"], "a");
    assert_eq!(fs[1]["geometry"]["coordinates"], pair(3.0, 4.0));
    assert_eq!(fs[1]["id"], 1);
    // a point takes the record at its shape's position, null shapes included
    assert_eq!(fs[1]["properties"]["NAME"], "c");
}

#[test]
fn polygon_rings_within_records_each_become_a_feature() {
    let r0 = path(&[(0.0, 0.0), (1.0, 0.0), (1.0, 1.0), (0.0, 0.0)]);
    let r1 = path(&[(5.0, 5.0), (6.0, 5.0), (5.0, 5.0)]);
    let shp = file_of(
        vec![Shape::Polygon(vec![r0, r1])],
        vec![named("first"), named("second"), named("third")],
    );
    let doc = to_serde(shp.to_geojson());
    let fs = doc["features"].as_array().unwrap();
    assert_eq!(fs.len(), 2);
    assert_eq!(fs[0]["geometry"]["type"], "Polygon");
    let ring0 = Value::Array(vec![Value::Array(vec![
        pair(0.0, 0.0),
        pair(1.0, 0.0),
        pair(1.0, 1.0),
        pair(0.0, 0.0),
    ])]);
    assert_eq!(fs[0]["geometry"]["coordinates"], ring0);
    let ring1 = Value::Array(vec![Value::Array(vec![pair(5.0, 5.0), pair(6.0, 5.0), pair(5.0, 5.0)])]);
    assert_eq!(fs[1]["geometry"]["coordinates"], ring1);
    assert_eq!(fs[0]["properties"]["NAME"], "first");
    assert_eq!(fs[1]["properties"]["NAME"], "second");
    assert_eq!(fs[1]["id"], 1);
}

#[test]
fn polygon_rings_past_the_records_are_dropped() {
    let ring = path(&[(0.0, 0.0), (1.0, 1.0), (0.0, 0.0)]);
    let shp = file_of(
        vec![Shape::Polygon(vec![ring.clone(), ring.clone(), ring])],
        vec![named("only")],
    );
    let doc = to_serde(shp.to_geojson());
    assert_eq!(doc["features"].as_array().unwrap().len(), 1);
}

#[test]
fn polyline_parts_take_consecutive_records() {
    let shp = file_of(
        vec![
            Shape::Polyline(vec![path(&[(0.0, 0.0), (1.0, 1.0)]), path(&[(2.0, 2.0), (3.0, 3.0)])]),
            Shape::Polyline(vec![path(&[(4.0, 4.0), (5.0, 5.0)])]),
        ],
        vec![named("p0"), named("p1"), named("p2")],
    );
    let doc = to_serde(shp.to_geojson());
    let fs = doc["features"].as_array().unwrap();
    assert_eq!(fs.len(), 3);
    assert_eq!(fs[0]["geometry"]["type"], "LineString");
    assert_eq!(fs[1]["geometry"]["coordinates"], Value::Array(vec![pair(2.0, 2.0), pair(3.0, 3.0)]));
    assert_eq!(fs[2]["properties"]["NAME"], "p2");
    assert_eq!(fs[2]["id"], 2);
}

#[test]
fn measured_shapes_are_skipped_in_geojson() {
    let shp = file_of(
        vec![Shape::PointM(c(1.0, 1.0)), Shape::PolygonZ, Shape::Point(c(2.0, 2.0))],
        vec![named("a"), named("b"), named("c")],
    );
    let doc = to_serde(shp.to_geojson());
    let fs = doc["features"].as_array().unwrap();
    assert_eq!(fs.len(), 1);
    assert_eq!(fs[0]["id"], 0);
    assert_eq!(fs[0]["properties"]["NAME"], "c");
}

#[test]
fn transform_shapes_advances_the_cursor() {
    let mut features: Vec<JsonValue> = Vec::new();
    let mut state = AppState::new();
    let records = vec![named("a"), named("b")];
    let line = Shape::Polyline(vec![path(&[(0.0, 0.0), (1.0, 1.0)]), path(&[(2.0, 2.0)])]);
    transform_shapes(&line, &records, &mut features, &mut state);
    assert_eq!(features.len(), 2);
    assert_eq!((state.index, state.id, state.line_index), (1, 2, 2));
    transform_shapes(&Shape::Point(c(9.0, 9.0)), &records, &mut features, &mut state);
    assert_eq!(features.len(), 3);
    assert_eq!((state.index, state.id, state.line_index), (2, 3, 2));
    let last = to_serde(features.pop().unwrap());
    assert_eq!(last["id"], 2);
    // the point stands at shape position 1
    assert_eq!(last["properties"]["NAME"], "b");
}

#[test]
fn app_state_counters() {
    let mut s = AppState::new();
    s.increment_index();
    s.increment_id();
    s.increment_id();
    s.increment_line_index();
    assert_eq!((s.index, s.id, s.line_index), (1, 2, 1));
}

#[test]
fn topojson_gives_each_line_and_ring_its_own_arc() {
    let ring = path(&[(0.0, 0.0), (1.0, 0.0), (0.0, 0.0)]);
    let shp = file_of(
        vec![
            Shape::Point(c(7.0, 8.0)),
            Shape::Polyline(vec![path(&[(0.0, 0.0), (1.0, 1.0)]), path(&[(2.0, 2.0), (3.0, 3.0)])]),
            Shape::Polygon(vec![ring.clone(), ring]),
        ],
        vec![named("a"), named("b")],
    );
    let doc = to_serde(shp.to_topojson());
    assert_eq!(doc["type"], "Topology");
    assert_eq!(doc["objects"]["collection"]["type"], "GeometryCollection");
    let gs = doc["objects"]["collection"]["geometries"].as_array().unwrap();
    let arcs = doc["arcs"].as_array().unwrap();
    assert_eq!(gs.len(), 5);
    let with_arcs: Vec<&Value> = gs.iter().filter(|g| g.get("arcs").is_some()).collect();
    assert_eq!(arcs.len(), with_arcs.len());
    assert_eq!(arcs.len(), 4);
    assert_eq!(gs[0]["type"], "Point");
    assert_eq!(gs[0]["coordinates"], pair(7.0, 8.0));
    assert_eq!(gs[0]["properties"]["NAME"], "a");
    for (k, g) in with_arcs.iter().enumerate() {
        assert_eq!(g["arcs"], Value::Array(vec![Value::Array(vec![Value::from(k)])]));
    }
    assert_eq!(gs[2]["type"], "LineString");
    assert_eq!(gs[2]["properties"]["NAME"], "b");
    assert_eq!(arcs[1], Value::Array(vec![pair(2.0, 2.0), pair(3.0, 3.0)]));
    assert_eq!(gs[4]["type"], "Polygon");
    assert_eq!(gs[4]["properties"]["NAME"], "b");
    assert_eq!(gs[4]["id"], 4);
}

#[test]
fn topojson_drops_polygon_rings_past_the_records() {
    let ring = path(&[(0.0, 0.0), (1.0, 0.0), (0.0, 0.0)]);
    let shp = file_of(
        vec![Shape::Polygon(vec![ring.clone(), ring.clone(), ring])],
        vec![named("only")],
    );
    let doc = to_serde(shp.to_topojson());
    let gs = doc["objects"]["collection"]["geometries"].as_array().unwrap();
    assert_eq!(gs.len(), 1);
    assert_eq!(doc["arcs"].as_array().unwrap().len(), 1);
    assert_eq!(gs[0]["properties"]["NAME"], "only");
}

#[test]
fn kml_polyline_takes_first_point_of_each_part() {
    let shp = file_of(
        vec![Shape::Polyline(vec![
            path(&[(0.0, 0.0), (1.0, 1.0)]),
            path(&[(2.0, 2.0), (3.0, 3.0)]),
        ])],
        vec![],
    );
    let kml = render_kml(shp.to_kml().unwrap());
    assert!(kml.contains("<LineString><coordinates>0,0,0 2,2,0 </coordinates></LineString>"));
}

#[test]
fn kml_points_and_polygons() {
    let shp = file_of(
        vec![
            Shape::Point(c(1.5, 2.0)),
            Shape::PointZ(CoordZ { x: 1.0f64.to_bits(), y: 2.0f64.to_bits(), z: 3.0f64.to_bits() }),
            Shape::Polygon(vec![path(&[(0.0, 0.0), (1.0, 0.0)]), path(&[(5.0, 5.0)])]),
        ],
        vec![],
    );
    let kml = render_kml(shp.to_kml().unwrap());
    assert!(kml.contains("<Placemark><Point><coordinates>1.5,2</coordinates></Point></Placemark>"));
    assert!(kml.contains("<Placemark><Point><coordinates>1,2,3</coordinates></Point></Placemark>"));
    assert!(kml.contains(
        "<LinearRing><coordinates>0,0,0 1,0,0 5,5,0 </coordinates></LinearRing>"
    ));
    assert!(kml.ends_with("</Document></kml>"));
}

#[test]
fn kml_rejects_unsupported_shapes() {
    let shp = file_of(vec![Shape::Point(c(0.0, 0.0)), Shape::PolygonM, Shape::NullShape], vec![]);
    assert_eq!(shp.to_kml().unwrap_err(), KmlError::UnsupportedShape { index: 1 });
    let shp = file_of(vec![Shape::Multipatch], vec![]);
    assert_eq!(shp.to_kml().unwrap_err(), KmlError::UnsupportedShape { index: 0 });
}

#[test]
fn conversions_are_repeatable() {
    let make = || {
        file_of(
            vec![
                Shape::Point(c(0.1, 0.2)),
                Shape::Polyline(vec![path(&[(0.0, 0.0), (1.0, 1.0)])]),
                Shape::Polygon(vec![path(&[(0.0, 0.0), (1.0, 0.0), (0.0, 0.0)])]),
            ],
            vec![named("x"), named("y")],
        )
    };
    let g1 = serde_json::to_string_pretty(&to_serde(make().to_geojson())).unwrap();
    let g2 = serde_json::to_string_pretty(&to_serde(make().to_geojson())).unwrap();
    assert_eq!(g1, g2);
    let t1 = serde_json::to_string_pretty(&to_serde(make().to_topojson())).unwrap();
    let t2 = serde_json::to_string_pretty(&to_serde(make().to_topojson())).unwrap();
    assert_eq!(t1, t2);
    assert_eq!(render_kml(make().to_kml().unwrap()), render_kml(make().to_kml().unwrap()));
}

#[test]
fn geojson_of_points_round_trips_with_unique_ids() {
    let n = 5;
    let shapes: Vec<Shape> = (0..n).map(|i| Shape::Point(c(i as f64, 2.0 * i as f64))).collect();
    let text = serde_json::to_string_pretty(&to_serde(file_of(shapes, vec![]).to_geojson())).unwrap();
    let back: Value = serde_json::from_str(&text).unwrap();
    let fs = back["features"].as_array().unwrap();
    assert_eq!(fs.len(), n);
    let mut ids: Vec<u64> = fs.iter().map(|f| f["id"].as_u64().unwrap()).collect();
    ids.sort();
    assert_eq!(ids, (0..n as u64).collect::<Vec<u64>>());
}

#[test]
fn three_points_with_names_end_to_end() {
    let shp = file_of(
        vec![Shape::Point(c(1.0, 1.0)), Shape::Point(c(2.0, 2.0)), Shape::Point(c(3.0, 3.0))],
        vec![named("one"), named("two"), named("three")],
    );
    let doc = to_serde(shp.to_geojson());
    let fs = doc["features"].as_array().unwrap();
    assert_eq!(fs.len(), 3);
    for (f, name) in fs.iter().zip(["one", "two", "three"]) {
        assert_eq!(f["properties"]["NAME"], name);
        assert_eq!(f["geometry"]["type"], "Point");
        assert_eq!(f["type"], "Feature");
    }
}

#[test]
fn field_values_coerce() {
    let v = parse_dbase_value(FieldValue::Date(Some(Date { year: 1970, month: 1, day: 1 })));
    assert!(matches!(v, JsonValue::Int(0)));
    let v = parse_dbase_value(FieldValue::Date(Some(Date { year: 2000, month: 3, day: 1 })));
    assert!(matches!(v, JsonValue::Int(11017)));
    let v = parse_dbase_value(FieldValue::Date(Some(Date { year: 1969, month: 12, day: 31 })));
    assert!(matches!(v, JsonValue::Int(-1)));
    let v = parse_dbase_value(FieldValue::Date(None));
    assert!(matches!(v, JsonValue::Str(ref s) if s.is_empty()));
    let dt = DateTime {
        date: Date { year: 1970, month: 1, day: 2 },
        time: Time { hours: 1, minutes: 2, seconds: 3 },
    };
    let v = parse_dbase_value(FieldValue::DateTime(dt));
    assert!(matches!(v, JsonValue::Int(90123)));
    assert!(matches!(parse_dbase_value(FieldValue::Character(None)), JsonValue::Null));
    assert!(matches!(parse_dbase_value(FieldValue::Numeric(None)), JsonValue::Null));
    assert!(matches!(parse_dbase_value(FieldValue::Logical(None)), JsonValue::Null));
    assert!(matches!(parse_dbase_value(FieldValue::Logical(Some(true))), JsonValue::Bool(true)));
    assert!(matches!(parse_dbase_value(FieldValue::Integer(-7)), JsonValue::Int(-7)));
    let b = 2.5f64.to_bits();
    assert!(matches!(parse_dbase_value(FieldValue::Double(b)), JsonValue::F64(x) if x == b));
    assert!(matches!(parse_dbase_value(FieldValue::Memo("m".to_string())), JsonValue::Str(ref s) if s == "m"));
    let f = 1.25f32.to_bits();
    assert_eq!(to_serde(parse_dbase_value(FieldValue::Float(Some(f)))), Value::from(1.25));
}

#[test]
fn files_are_classified_and_paired() {
    assert_eq!(classify_extension(Some("shp")), FileKind::Geometry);
    assert_eq!(classify_extension(Some("dbf")), FileKind::Attribute);
    assert_eq!(classify_extension(Some("shx")), FileKind::Ignored);
    assert_eq!(classify_extension(Some("prj")), FileKind::Ignored);
    assert_eq!(classify_extension(None), FileKind::Ignored);
    assert!(same_text("abc", "abc"));
    assert!(!same_text("abc", "abd"));
    let pairs = pair_files(
        vec!["a.shp".to_string(), "b.shp".to_string()],
        vec!["x.dbf".to_string(), "y.dbf".to_string(), "z.dbf".to_string()],
    )
    .unwrap();
    assert_eq!(pairs, vec![
        ("a.shp".to_string(), "x.dbf".to_string()),
        ("b.shp".to_string(), "y.dbf".to_string()),
    ]);
    let err = pair_files(vec!["a.shp".to_string(), "b.shp".to_string()], vec!["x.dbf".to_string()]);
    assert_eq!(err.unwrap_err(), PairError::MissingAttributeFile { index: 1 });
}

#[test]
fn output_names() {
    assert_eq!(output_file_name("0123456789abcdef", "kml"), "0123456789ab.kml");
    let a = random_file_name("geojson");
    let b = random_file_name("geojson");
    assert_eq!(a.len(), 20);
    assert!(a.ends_with(".geojson"));
    assert!(a[..12].chars().all(|ch| ch.is_ascii_digit() || ('a'..='f').contains(&ch)));
    assert_ne!(a, b);
}

#[test]
fn command_line_requests() {
    let r = init(Some("g".to_string()), None, Some("k".to_string()));
    assert_eq!(r.len(), 2);
    assert_eq!(r[0].format, OutputFormat::GeoJson);
    assert_eq!(r[0].folder, "g");
    assert_eq!(r[1].format, OutputFormat::Kml);
    assert_eq!(r[1].format.extension(), "kml");
    assert_eq!(init(None, None, None).len(), 0);
    assert_eq!(OutputFormat::TopoJson.extension(), "topojson");
}
