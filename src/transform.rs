//! Flattening of geometry units into GeoJSON features.
//!
//! One geometry unit may give several features: a polyline one per part, a
//! polygon one per ring. Each kind takes its attribute record by its own
//! rule: a point by its shape's position, a polyline part by the running
//! count of parts, a polygon ring by the ring's position in its polygon.
use vstd::prelude::*;
use crate::attributes::{FieldValue, Record, is_props, properties_value, record_at, records_wf};
use crate::geometry::{Coord, Shape};
use crate::json::{JsonValue, coord_value, is_coord, is_path, is_str, member, path_value, str_value};
use crate::state::AppState;

verus! {

/// The geometry of one feature.
pub ghost enum FeatureGeom {
    Point(Coord),
    LineString(Seq<Coord>),
    Polygon(Seq<Coord>),
}

/// One feature before encoding: its geometry and its attribute record.
pub ghost struct FeatureSpec {
    pub geom: FeatureGeom,
    pub record: Option<Seq<(String, FieldValue)>>,
}

/// `v` is the GeoJSON geometry object of `g`; a polygon's single ring is
/// wrapped in a list of rings.
pub open spec fn is_geometry(v: JsonValue, g: FeatureGeom) -> bool {
    v matches JsonValue::Obj(o) && o@.len() == 2 && o@[0].0@ == "coordinates"@ && o@[1].0@
        == "type"@ && match g {
        FeatureGeom::Point(c) => is_coord(o@[0].1, c) && is_str(o@[1].1, "Point"@),
        FeatureGeom::LineString(cs) => is_path(o@[0].1, cs) && is_str(o@[1].1, "LineString"@),
        FeatureGeom::Polygon(cs) => (o@[0].1 matches JsonValue::Arr(w) && w@.len() == 1 && is_path(
            w@[0],
            cs,
        )) && is_str(o@[1].1, "Polygon"@),
    }
}

/// `v` is the GeoJSON feature of `f` with identifier `id`.
pub open spec fn is_feature(v: JsonValue, f: FeatureSpec, id: int) -> bool {
    v matches JsonValue::Obj(o) && {
        &&& o@.len() == 4
        &&& o@[0].0@ == "type"@ && is_str(o@[0].1, "Feature"@)
        &&& o@[1].0@ == "properties"@ && is_props(o@[1].1, f.record)
        &&& o@[2].0@ == "geometry"@ && is_geometry(o@[2].1, f.geom)
        &&& o@[3].0@ == "id"@ && o@[3].1 == JsonValue::UInt(id as u64)
    }
}

/// `fs` are the features `specs`, numbered from `id0` on.
pub open spec fn features_match(fs: Seq<JsonValue>, specs: Seq<FeatureSpec>, id0: int) -> bool {
    &&& fs.len() == specs.len()
    &&& forall|k: int| 0 <= k < specs.len() ==> #[trigger] is_feature(fs[k], specs[k], id0 + k)
}

/// The number of polyline parts of a shape.
pub open spec fn line_parts(s: Shape) -> nat {
    match s {
        Shape::Polyline(parts) => parts@.len(),
        _ => 0,
    }
}

/// The number of polyline parts of the shapes.
pub open spec fn parts_before(shapes: Seq<Shape>) -> nat
    decreases shapes.len(),
{
    if shapes.len() == 0 {
        0
    } else {
        parts_before(shapes.drop_last()) + line_parts(shapes.last())
    }
}

/// The GeoJSON features of a stream of shapes, in emission order.
pub open spec fn geojson_features(shapes: Seq<Shape>, records: Seq<Record>) -> Seq<FeatureSpec>
    decreases shapes.len(),
{
    if shapes.len() == 0 {
        seq![]
    } else {
        let p = shapes.drop_last();
        geojson_features(p, records) + shape_features(
            shapes.last(),
            records,
            p.len() as int,
            parts_before(p) as int,
        )
    }
}

/// The features of a prefix of the stream are the first features of the
/// whole stream.
pub proof fn lemma_geojson_prefix(shapes: Seq<Shape>, records: Seq<Record>, j: int)
    requires
        0 <= j <= shapes.len(),
    ensures
        geojson_features(shapes.take(j), records).len() <= geojson_features(shapes, records).len(),
        geojson_features(shapes.take(j), records) == geojson_features(shapes, records).subrange(
            0,
            geojson_features(shapes.take(j), records).len() as int,
        ),
    decreases shapes.len(),
{
    if j < shapes.len() {
        assert(shapes.drop_last().take(j) =~= shapes.take(j));
        lemma_geojson_prefix(shapes.drop_last(), records, j);
        let l = geojson_features(shapes.take(j), records).len() as int;
        let p = geojson_features(shapes.drop_last(), records);
        let add = shape_features(
            shapes.last(),
            records,
            shapes.drop_last().len() as int,
            parts_before(shapes.drop_last()) as int,
        );
        assert((p + add).subrange(0, l) =~= p.subrange(0, l));
    } else {
        assert(shapes.take(j) =~= shapes);
        assert(geojson_features(shapes, records) =~= geojson_features(shapes, records).subrange(
            0,
            geojson_features(shapes, records).len() as int,
        ));
    }
}

/// Each polyline part gives one feature.
pub proof fn lemma_parts_le_features(shapes: Seq<Shape>, records: Seq<Record>)
    ensures
        parts_before(shapes) <= geojson_features(shapes, records).len(),
    decreases shapes.len(),
{
    if shapes.len() > 0 {
        lemma_parts_le_features(shapes.drop_last(), records);
    }
}

/// The features of one shape, the shape standing at position `index`
/// after `line_index` polyline parts. Polygon rings past the number of
/// records give none; the kinds that GeoJSON does not take give none.
pub open spec fn shape_features(s: Shape, records: Seq<Record>, index: int, line_index: int) -> Seq<
    FeatureSpec,
> {
    match s {
        Shape::Point(c) => seq![
            FeatureSpec { geom: FeatureGeom::Point(c), record: record_at(records, index) },
        ],
        Shape::Polyline(parts) => Seq::new(
            parts@.len(),
            |k: int|
                FeatureSpec {
                    geom: FeatureGeom::LineString(parts@[k]@),
                    record: record_at(records, line_index + k),
                },
        ),
        Shape::Polygon(rings) => Seq::new(
            if rings@.len() <= records.len() {
                rings@.len()
            } else {
                records.len()
            },
            |k: int| FeatureSpec { geom: FeatureGeom::Polygon(rings@[k]@), record: record_at(records, k) },
        ),
        _ => seq![],
    }
}

fn point_geometry(c: Coord) -> (r: JsonValue)
    ensures
        is_geometry(r, FeatureGeom::Point(c)),
{
    let mut o: Vec<(String, JsonValue)> = Vec::new();
    o.push(member("coordinates", coord_value(c)));
    o.push(member("type", str_value("Point")));
    JsonValue::Obj(o)
}

fn line_geometry(cs: &Vec<Coord>) -> (r: JsonValue)
    ensures
        is_geometry(r, FeatureGeom::LineString(cs@)),
{
    let mut o: Vec<(String, JsonValue)> = Vec::new();
    o.push(member("coordinates", path_value(cs)));
    o.push(member("type", str_value("LineString")));
    JsonValue::Obj(o)
}

fn polygon_geometry(cs: &Vec<Coord>) -> (r: JsonValue)
    ensures
        is_geometry(r, FeatureGeom::Polygon(cs@)),
{
    let mut w: Vec<JsonValue> = Vec::new();
    w.push(path_value(cs));
    let mut o: Vec<(String, JsonValue)> = Vec::new();
    o.push(member("coordinates", JsonValue::Arr(w)));
    o.push(member("type", str_value("Polygon")));
    JsonValue::Obj(o)
}

fn feature_value(
    props: JsonValue,
    geometry: JsonValue,
    id: u32,
    Ghost(f): Ghost<FeatureSpec>,
) -> (r: JsonValue)
    requires
        is_props(props, f.record),
        is_geometry(geometry, f.geom),
    ensures
        is_feature(r, f, id as int),
{
    let mut o: Vec<(String, JsonValue)> = Vec::new();
    o.push(member("type", str_value("Feature")));
    o.push(member("properties", props));
    o.push(member("geometry", geometry));
    o.push(member("id", JsonValue::UInt(id as u64)));
    JsonValue::Obj(o)
}

/// Appends the features of one shape to `features_vec` and advances the
/// cursor: `index` by one shape, `id` by one per feature, `line_index` by
/// the shape's polyline parts.
pub fn transform_shapes(
    shape: &Shape,
    records: &Vec<Record>,
    features_vec: &mut Vec<JsonValue>,
    state: &mut AppState,
)
    requires
        records_wf(records@),
        old(state).index < usize::MAX,
        old(state).id + shape_features(
            *shape,
            records@,
            old(state).index as int,
            old(state).line_index as int,
        ).len() <= u32::MAX,
        old(state).line_index + line_parts(*shape) <= usize::MAX,
    ensures
        final(features_vec)@.len() == old(features_vec)@.len() + shape_features(
            *shape,
            records@,
            old(state).index as int,
            old(state).line_index as int,
        ).len(),
        final(features_vec)@.subrange(0, old(features_vec)@.len() as int) == old(features_vec)@,
        features_match(
            final(features_vec)@.subrange(
                old(features_vec)@.len() as int,
                final(features_vec)@.len() as int,
            ),
            shape_features(
                *shape,
                records@,
                old(state).index as int,
                old(state).line_index as int,
            ),
            old(state).id as int,
        ),
        final(state).index == old(state).index + 1,
        final(state).id == old(state).id + shape_features(
            *shape,
            records@,
            old(state).index as int,
            old(state).line_index as int,
        ).len(),
        final(state).line_index == old(state).line_index + line_parts(*shape),
{
    let ghost specs = shape_features(
        *shape,
        records@,
        state.index as int,
        state.line_index as int,
    );
    let ghost start = features_vec@.len();
    let ghost id0 = state.id as int;
    match shape {
        Shape::Polygon(rings) => {
            let mut i: usize = 0;
            while i < rings.len()
                invariant
                    *shape == Shape::Polygon(*rings),
                    records_wf(records@),
                    specs == shape_features(*shape, records@, old(state).index as int, old(state).line_index as int),
                    i <= rings@.len(),
                    i <= records@.len(),
                    id0 + specs.len() <= u32::MAX,
                    state.id == id0 + i,
                    state.index == old(state).index,
                    state.line_index == old(state).line_index,
                    features_vec@.len() == start + i,
                    features_vec@.subrange(0, start as int) == old(features_vec)@,
                    forall|k: int| 0 <= k < i ==> #[trigger] is_feature(features_vec@[start + k], specs[k], id0 + k),
                ensures
                    i <= rings@.len(),
                    i <= records@.len(),
                    i == rings@.len() || i == records@.len(),
                    state.id == id0 + i,
                    state.index == old(state).index,
                    state.line_index == old(state).line_index,
                    features_vec@.len() == start + i,
                    features_vec@.subrange(0, start as int) == old(features_vec)@,
                    forall|k: int| 0 <= k < i ==> #[trigger] is_feature(features_vec@[start + k], specs[k], id0 + k),
                decreases rings@.len() - i,
            {
                if i == records.len() {
                    break;
                }
                let geometry = polygon_geometry(&rings[i]);
                let props = properties_value(records, i);
                let f = feature_value(props, geometry, state.id, Ghost(specs[i as int]));
                features_vec.push(f);
                assert(features_vec@.subrange(0, start as int) =~= old(features_vec)@);
                state.increment_id();
                i = i + 1;
            }
            assert(i == specs.len());
        },
        Shape::NullShape => {},
        Shape::Point(point) => {
            let geometry = point_geometry(*point);
            let props = properties_value(records, state.index);
            let f = feature_value(props, geometry, state.id, Ghost(specs[0]));
            features_vec.push(f);
            assert(features_vec@.subrange(0, start as int) =~= old(features_vec)@);
            state.increment_id();
        },
        Shape::Polyline(polyline) => {
            let mut i: usize = 0;
            while i < polyline.len()
                invariant
                    *shape == Shape::Polyline(*polyline),
                    records_wf(records@),
                    specs == shape_features(*shape, records@, old(state).index as int, old(state).line_index as int),
                    i <= polyline@.len(),
                    id0 + specs.len() <= u32::MAX,
                    old(state).line_index + polyline@.len() <= usize::MAX,
                    state.id == id0 + i,
                    state.index == old(state).index,
                    state.line_index == old(state).line_index + i,
                    features_vec@.len() == start + i,
                    features_vec@.subrange(0, start as int) == old(features_vec)@,
                    forall|k: int| 0 <= k < i ==> #[trigger] is_feature(features_vec@[start + k], specs[k], id0 + k),
                decreases polyline@.len() - i,
            {
                let geometry = line_geometry(&polyline[i]);
                let props = properties_value(records, state.line_index);
                let f = feature_value(props, geometry, state.id, Ghost(specs[i as int]));
                features_vec.push(f);
                assert(features_vec@.subrange(0, start as int) =~= old(features_vec)@);
                state.increment_line_index();
                state.increment_id();
                i = i + 1;
            }
        },
        _ => {},
    }
    state.increment_index();
    assert(features_vec@.subrange(start as int, features_vec@.len() as int).len() == specs.len());
    assert forall|k: int| 0 <= k < specs.len() implies #[trigger] is_feature(
        features_vec@.subrange(start as int, features_vec@.len() as int)[k],
        specs[k],
        id0 + k,
    ) by {
        assert(features_vec@.subrange(start as int, features_vec@.len() as int)[k] == features_vec@[start + k]);
    }
}

/// A polygon whose rings are no more than the attribute records gives one
/// polygon feature per ring, in ring order, each taking the record at its
/// ring's position.
pub proof fn lemma_polygon_every_ring(
    rings: Vec<Vec<Coord>>,
    records: Seq<Record>,
    index: int,
    line_index: int,
)
    requires
        rings@.len() <= records.len(),
    ensures
        ({
            let fs = shape_features(Shape::Polygon(rings), records, index, line_index);
            &&& fs.len() == rings@.len()
            &&& forall|k: int|
                0 <= k < fs.len() ==> #[trigger] fs[k] == FeatureSpec {
                    geom: FeatureGeom::Polygon(rings@[k]@),
                    record: Some(records[k]@),
                }
        }),
{
}

/// A polygon with more rings than there are attribute records gives one
/// feature per record, and the rings past the last record give none.
pub proof fn lemma_polygon_truncated(
    rings: Vec<Vec<Coord>>,
    records: Seq<Record>,
    index: int,
    line_index: int,
)
    requires
        rings@.len() > records.len(),
    ensures
        shape_features(Shape::Polygon(rings), records, index, line_index).len() == records.len(),
{
}

/// The feature of a point is a point feature at the shape's coordinates,
/// with the record at the shape's position; its place in the emitted
/// features is the number of features before it.
pub proof fn lemma_point_feature(shapes: Seq<Shape>, records: Seq<Record>, i: int)
    requires
        0 <= i < shapes.len(),
        shapes[i] is Point,
    ensures
        ({
            let k = geojson_features(shapes.take(i), records).len() as int;
            &&& k < geojson_features(shapes, records).len()
            &&& geojson_features(shapes, records)[k] == FeatureSpec {
                geom: FeatureGeom::Point(shapes[i]->Point_0),
                record: record_at(records, i),
            }
        }),
{
    lemma_geojson_prefix(shapes, records, i + 1);
    let t = shapes.take(i + 1);
    assert(t.drop_last() =~= shapes.take(i));
    assert(t.last() == shapes[i]);
    let k = geojson_features(shapes.take(i), records).len() as int;
    assert(geojson_features(t, records)[k] == geojson_features(shapes, records).subrange(
        0,
        geojson_features(t, records).len() as int,
    )[k]);
}

/// A stream of points only gives one feature per point.
pub proof fn lemma_points_only(shapes: Seq<Shape>, records: Seq<Record>)
    requires
        forall|i: int| 0 <= i < shapes.len() ==> #[trigger] shapes[i] is Point,
    ensures
        geojson_features(shapes, records).len() == shapes.len(),
    decreases shapes.len(),
{
    if shapes.len() > 0 {
        let p = shapes.drop_last();
        assert forall|i: int| 0 <= i < p.len() implies #[trigger] p[i] is Point by {
            assert(p[i] == shapes[i]);
        }
        lemma_points_only(p, records);
        assert(shapes.last() is Point);
    }
}

} // verus!
