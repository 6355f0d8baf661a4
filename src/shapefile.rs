//! The geometry and attribute contents of a set of shapefiles, and their
//! conversion into output documents.
use vstd::prelude::*;
use crate::attributes::{Record, record_at, records_wf};
use crate::geometry::Shape;
use crate::json::{JsonValue, is_str, member, str_value};
use crate::state::AppState;
use crate::transform::{
    FeatureGeom, FeatureSpec, is_feature, lemma_point_feature, lemma_points_only,
    features_match, geojson_features, lemma_geojson_prefix, lemma_parts_le_features, parts_before,
    transform_shapes,
};

verus! {

/// The shapes and attribute records of every file pair read, in reading
/// order.
pub struct ShapeFile {
    pub shapes_vec: Vec<Shape>,
    pub records_vec: Vec<Record>,
}

/// `doc` is a GeoJSON feature collection whose features are `fs`.
pub open spec fn is_feature_collection(doc: JsonValue, fs: Seq<JsonValue>) -> bool {
    doc matches JsonValue::Obj(o) && {
        &&& o@.len() == 2
        &&& o@[0].0@ == "features"@ && (o@[0].1 matches JsonValue::Arr(a) && a@ == fs)
        &&& o@[1].0@ == "type"@ && is_str(o@[1].1, "FeatureCollection"@)
    }
}

/// The features of a feature collection.
pub open spec fn collection_features(doc: JsonValue) -> Seq<JsonValue> {
    doc->Obj_0@[0].1->Arr_0@
}

/// In a GeoJSON document of a stream, the feature of each point holds the
/// point's `[x, y]` and has as identifier its place in emission order.
pub proof fn lemma_point_in_collection(
    shapes: Seq<Shape>,
    records: Seq<Record>,
    i: int,
    doc: JsonValue,
    fs: Seq<JsonValue>,
)
    requires
        0 <= i < shapes.len(),
        shapes[i] is Point,
        is_feature_collection(doc, fs),
        features_match(fs, geojson_features(shapes, records), 0),
    ensures
        exists|k: int|
            0 <= k < fs.len() && #[trigger] is_feature(
                fs[k],
                FeatureSpec {
                    geom: FeatureGeom::Point(shapes[i]->Point_0),
                    record: record_at(records, i),
                },
                k,
            ),
{
    lemma_point_feature(shapes, records, i);
    let k = geojson_features(shapes.take(i), records).len() as int;
    assert(is_feature(fs[k], geojson_features(shapes, records)[k], 0 + k));
}

/// In a GeoJSON document of a stream, a polygon gives, right after the
/// features of the shapes before it, one polygon feature per ring up to
/// the number of records, each wrapping its ring, taking the record at its
/// ring's position, and numbered in emission order.
pub proof fn lemma_polygon_in_collection(
    shapes: Seq<Shape>,
    records: Seq<Record>,
    i: int,
    doc: JsonValue,
    fs: Seq<JsonValue>,
)
    requires
        0 <= i < shapes.len(),
        shapes[i] is Polygon,
        is_feature_collection(doc, fs),
        features_match(fs, geojson_features(shapes, records), 0),
    ensures
        ({
            let rings = shapes[i]->Polygon_0@;
            let n = if rings.len() <= records.len() {
                rings.len() as int
            } else {
                records.len() as int
            };
            let j = geojson_features(shapes.take(i), records).len() as int;
            &&& j + n <= fs.len()
            &&& forall|r: int|
                0 <= r < n ==> #[trigger] is_feature(
                    fs[j + r],
                    FeatureSpec {
                        geom: FeatureGeom::Polygon(rings[r]@),
                        record: Some(records[r]@),
                    },
                    j + r,
                )
        }),
{
    lemma_geojson_prefix(shapes, records, i + 1);
    let t = shapes.take(i + 1);
    assert(t.drop_last() =~= shapes.take(i));
    assert(t.last() == shapes[i]);
    let rings = shapes[i]->Polygon_0@;
    let j = geojson_features(shapes.take(i), records).len() as int;
    let full = geojson_features(shapes, records);
    let pre = geojson_features(t, records);
    assert forall|r: int|
        0 <= r < (if rings.len() <= records.len() {
            rings.len() as int
        } else {
            records.len() as int
        }) implies #[trigger] is_feature(
        fs[j + r],
        FeatureSpec { geom: FeatureGeom::Polygon(rings[r]@), record: Some(records[r]@) },
        j + r,
    ) by {
        assert(pre[j + r] == full.subrange(0, pre.len() as int)[j + r]);
        assert(is_feature(fs[j + r], full[j + r], 0 + (j + r)));
    }
}

/// A GeoJSON document of `n` points holds `n` features whose identifiers
/// are `0` to `n - 1`, each once.
pub proof fn lemma_point_ids(shapes: Seq<Shape>, records: Seq<Record>, doc: JsonValue, fs: Seq<JsonValue>)
    requires
        forall|i: int| 0 <= i < shapes.len() ==> #[trigger] shapes[i] is Point,
        is_feature_collection(doc, fs),
        features_match(fs, geojson_features(shapes, records), 0),
    ensures
        fs.len() == shapes.len(),
        forall|k: int|
            0 <= k < fs.len() ==> (#[trigger] fs[k] matches JsonValue::Obj(o) && o@[3].0@ == "id"@
                && o@[3].1 == JsonValue::UInt(k as u64)),
{
    lemma_points_only(shapes, records);
    assert forall|k: int| 0 <= k < fs.len() implies (#[trigger] fs[k] matches JsonValue::Obj(o)
        && o@[3].0@ == "id"@ && o@[3].1 == JsonValue::UInt(k as u64)) by {
        assert(is_feature(fs[k], geojson_features(shapes, records)[k], 0 + k));
    }
}

/// Converting the same shapes and records twice gives documents with
/// features of one description: the same number of them, and at each
/// position the same identifier, geometry type, coordinates, property
/// names and property values.
pub proof fn lemma_geojson_repeatable(
    shapes: Seq<Shape>,
    records: Seq<Record>,
    r1: JsonValue,
    r2: JsonValue,
)
    requires
        exists|fs: Seq<JsonValue>|
            is_feature_collection(r1, fs) && features_match(fs, geojson_features(shapes, records), 0),
        exists|fs: Seq<JsonValue>|
            is_feature_collection(r2, fs) && features_match(fs, geojson_features(shapes, records), 0),
    ensures
        collection_features(r1).len() == collection_features(r2).len(),
        forall|k: int|
            0 <= k < collection_features(r1).len() ==> {
                let f = geojson_features(shapes, records)[k];
                &&& is_feature(#[trigger] collection_features(r1)[k], f, k)
                &&& is_feature(collection_features(r2)[k], f, k)
            },
{
    let fs1 = choose|fs: Seq<JsonValue>|
        is_feature_collection(r1, fs) && features_match(fs, geojson_features(shapes, records), 0);
    let fs2 = choose|fs: Seq<JsonValue>|
        is_feature_collection(r2, fs) && features_match(fs, geojson_features(shapes, records), 0);
    assert(collection_features(r1) == fs1);
    assert(collection_features(r2) == fs2);
    let specs = geojson_features(shapes, records);
    assert forall|k: int| 0 <= k < fs1.len() implies is_feature(#[trigger] fs1[k], specs[k], k)
        && is_feature(fs2[k], specs[k], k) by {
        assert(is_feature(fs1[k], specs[k], 0 + k));
        assert(is_feature(fs2[k], specs[k], 0 + k));
    }
}

impl ShapeFile {
    pub open spec fn wf(&self) -> bool {
        records_wf(self.records_vec@)
    }

    /// An empty set of shapes and records.
    pub fn new() -> (r: Self)
        ensures
            r.shapes_vec@.len() == 0,
            r.records_vec@.len() == 0,
            r.wf(),
    {
        ShapeFile { shapes_vec: Vec::new(), records_vec: Vec::new() }
    }

    /// Appends the decoded contents of one geometry file and its attribute
    /// file.
    pub fn populate(&mut self, shapes: Vec<Shape>, records: Vec<Record>)
        requires
            old(self).wf(),
            records_wf(records@),
        ensures
            final(self).wf(),
            final(self).shapes_vec@ == old(self).shapes_vec@ + shapes@,
            final(self).records_vec@ == old(self).records_vec@ + records@,
    {
        let ghost recs = records@;
        let mut shapes = shapes;
        let mut records = records;
        self.shapes_vec.append(&mut shapes);
        self.records_vec.append(&mut records);
        assert forall|i: int| 0 <= i < self.records_vec@.len() implies crate::attributes::record_wf(
            #[trigger] self.records_vec@[i]@,
        ) by {
            if i >= old(self).records_vec@.len() {
                assert(self.records_vec@[i] == recs[i - old(self).records_vec@.len()]);
            }
        }
    }

    /// The GeoJSON feature collection of every shape, features numbered
    /// from 0 in emission order.
    pub fn to_geojson(&self) -> (r: JsonValue)
        requires
            self.wf(),
            geojson_features(self.shapes_vec@, self.records_vec@).len() <= u32::MAX,
        ensures
            exists|fs: Seq<JsonValue>|
                is_feature_collection(r, fs) && features_match(
                    fs,
                    geojson_features(self.shapes_vec@, self.records_vec@),
                    0,
                ),
    {
        let ghost shapes = self.shapes_vec@;
        let ghost records = self.records_vec@;
        let mut features: Vec<JsonValue> = Vec::new();
        let mut state = AppState::new();
        let mut i: usize = 0;
        assert(shapes.take(0) =~= Seq::<Shape>::empty());
        while i < self.shapes_vec.len()
            invariant
                self.wf(),
                shapes == self.shapes_vec@,
                records == self.records_vec@,
                geojson_features(shapes, records).len() <= u32::MAX,
                i <= shapes.len(),
                state.index == i,
                state.id == geojson_features(shapes.take(i as int), records).len(),
                state.line_index == parts_before(shapes.take(i as int)),
                features_match(features@, geojson_features(shapes.take(i as int), records), 0),
            decreases shapes.len() - i,
        {
            proof {
                assert(shapes.take(i + 1).drop_last() =~= shapes.take(i as int));
                lemma_geojson_prefix(shapes, records, i + 1);
                lemma_parts_le_features(shapes.take(i + 1), records);
            }
            let ghost before = features@;
            let ghost id_before = state.id as int;
            transform_shapes(&self.shapes_vec[i], &self.records_vec, &mut features, &mut state);
            proof {
                let prev = geojson_features(shapes.take(i as int), records);
                let add = crate::transform::shape_features(
                    shapes[i as int],
                    records,
                    i as int,
                    parts_before(shapes.take(i as int)) as int,
                );
                assert(geojson_features(shapes.take(i + 1), records) == prev + add);
                assert forall|k: int| 0 <= k < prev.len() + add.len() implies #[trigger] crate::transform::is_feature(
                    features@[k],
                    (prev + add)[k],
                    k,
                ) by {
                    if k < prev.len() {
                        assert((prev + add)[k] == prev[k]);
                        assert(features@.subrange(0, before.len() as int)[k] == features@[k]);
                        assert(crate::transform::is_feature(before[k], prev[k], 0 + k));
                    } else {
                        let j = k - before.len();
                        let sub = features@.subrange(before.len() as int, features@.len() as int);
                        assert((prev + add)[k] == add[j]);
                        assert(features@[k] == sub[j]);
                        assert(crate::transform::is_feature(sub[j], add[j], id_before + j));
                    }
                }
            }
            i = i + 1;
        }
        assert(shapes.take(i as int) =~= shapes);
        let ghost fs = features@;
        let mut o: Vec<(String, JsonValue)> = Vec::new();
        o.push(member("features", JsonValue::Arr(features)));
        o.push(member("type", str_value("FeatureCollection")));
        let r = JsonValue::Obj(o);
        assert(is_feature_collection(r, fs));
        r
    }
}

} // verus!
