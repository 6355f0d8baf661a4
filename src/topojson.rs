//! TopoJSON encoding: a geometry collection whose lines and polygon rings
//! each refer to an arc of their own in a top-level list of arcs.
use vstd::prelude::*;
use crate::attributes::{Record, is_props, properties_value, record_at, records_wf};
use crate::geometry::Shape;
use crate::json::{JsonValue, coord_value, is_coord, is_path, is_str, member, path_value, str_value};
use crate::shapefile::ShapeFile;
use crate::state::AppState;
use crate::transform::{FeatureGeom, FeatureSpec, line_parts, parts_before};

verus! {

/// One geometry of the collection: a feature and, for a line or a ring,
/// the position of its arc.
pub ghost struct TopoItem {
    pub feature: FeatureSpec,
    pub arc: int,
}

/// Whether a shape is a point.
pub open spec fn point_count(s: Shape) -> nat {
    match s {
        Shape::Point(_) => 1,
        _ => 0,
    }
}

/// The number of points among the shapes.
pub open spec fn points_before(shapes: Seq<Shape>) -> nat
    decreases shapes.len(),
{
    if shapes.len() == 0 {
        0
    } else {
        points_before(shapes.drop_last()) + point_count(shapes.last())
    }
}

/// The number of rings of a polygon that are kept: one per attribute
/// record at most.
pub open spec fn kept_rings(rings: nat, records: Seq<Record>) -> nat {
    if rings <= records.len() {
        rings
    } else {
        records.len()
    }
}

/// The arcs that one shape contributes: its polyline parts, or its kept
/// rings.
pub open spec fn shape_arcs(s: Shape, records: Seq<Record>) -> Seq<Seq<crate::geometry::Coord>> {
    match s {
        Shape::Polyline(parts) => Seq::new(parts@.len(), |k: int| parts@[k]@),
        Shape::Polygon(rings) => Seq::new(kept_rings(rings@.len(), records), |k: int| rings@[k]@),
        _ => seq![],
    }
}

/// The arcs of a stream of shapes, in order.
pub open spec fn topo_arcs(shapes: Seq<Shape>, records: Seq<Record>) -> Seq<Seq<crate::geometry::Coord>>
    decreases shapes.len(),
{
    if shapes.len() == 0 {
        seq![]
    } else {
        topo_arcs(shapes.drop_last(), records) + shape_arcs(shapes.last(), records)
    }
}

/// The geometries of one shape, after `point_index` points, `line_index`
/// polyline parts and `arc_index` arcs. As in the GeoJSON features, a
/// polygon's rings past the number of records give none.
pub open spec fn shape_topo(
    s: Shape,
    records: Seq<Record>,
    point_index: int,
    line_index: int,
    arc_index: int,
) -> Seq<TopoItem> {
    match s {
        Shape::Point(c) => seq![
            TopoItem {
                feature: FeatureSpec {
                    geom: FeatureGeom::Point(c),
                    record: record_at(records, point_index),
                },
                arc: 0,
            },
        ],
        Shape::Polyline(parts) => Seq::new(
            parts@.len(),
            |k: int|
                TopoItem {
                    feature: FeatureSpec {
                        geom: FeatureGeom::LineString(parts@[k]@),
                        record: record_at(records, line_index + k),
                    },
                    arc: arc_index + k,
                },
        ),
        Shape::Polygon(rings) => Seq::new(
            kept_rings(rings@.len(), records),
            |k: int|
                TopoItem {
                    feature: FeatureSpec {
                        geom: FeatureGeom::Polygon(rings@[k]@),
                        record: record_at(records, k),
                    },
                    arc: arc_index + k,
                },
        ),
        _ => seq![],
    }
}

/// The geometries of a stream of shapes, in emission order.
pub open spec fn topo_items(shapes: Seq<Shape>, records: Seq<Record>) -> Seq<TopoItem>
    decreases shapes.len(),
{
    if shapes.len() == 0 {
        seq![]
    } else {
        let p = shapes.drop_last();
        topo_items(p, records) + shape_topo(
            shapes.last(),
            records,
            points_before(p) as int,
            parts_before(p) as int,
            topo_arcs(p, records).len() as int,
        )
    }
}

/// Whether a geometry refers to an arc.
pub open spec fn has_arc(item: TopoItem) -> bool {
    !(item.feature.geom is Point)
}

/// `v` is the arc reference `[[a]]`.
pub open spec fn is_arc_ref(v: JsonValue, a: int) -> bool {
    v matches JsonValue::Arr(w) && w@.len() == 1 && (w@[0] matches JsonValue::Arr(x) && x@.len()
        == 1 && x@[0] == JsonValue::UInt(a as u64))
}

/// `v` is the geometry object of `item` with identifier `id`: a point
/// holds its position, a line or a ring its arc reference.
pub open spec fn is_topo_geometry(v: JsonValue, item: TopoItem, id: int) -> bool {
    v matches JsonValue::Obj(o) && o@.len() == 4 && match item.feature.geom {
        FeatureGeom::Point(c) => {
            &&& o@[0].0@ == "properties"@ && is_props(o@[0].1, item.feature.record)
            &&& o@[1].0@ == "coordinates"@ && is_coord(o@[1].1, c)
            &&& o@[2].0@ == "type"@ && is_str(o@[2].1, "Point"@)
            &&& o@[3].0@ == "id"@ && o@[3].1 == JsonValue::UInt(id as u64)
        },
        FeatureGeom::LineString(_) => {
            &&& o@[0].0@ == "type"@ && is_str(o@[0].1, "LineString"@)
            &&& o@[1].0@ == "arcs"@ && is_arc_ref(o@[1].1, item.arc)
            &&& o@[2].0@ == "id"@ && o@[2].1 == JsonValue::UInt(id as u64)
            &&& o@[3].0@ == "properties"@ && is_props(o@[3].1, item.feature.record)
        },
        FeatureGeom::Polygon(_) => {
            &&& o@[0].0@ == "type"@ && is_str(o@[0].1, "Polygon"@)
            &&& o@[1].0@ == "arcs"@ && is_arc_ref(o@[1].1, item.arc)
            &&& o@[2].0@ == "id"@ && o@[2].1 == JsonValue::UInt(id as u64)
            &&& o@[3].0@ == "properties"@ && is_props(o@[3].1, item.feature.record)
        },
    }
}

/// `gs` are the geometries `items`, numbered from `id0` on.
pub open spec fn geometries_match(gs: Seq<JsonValue>, items: Seq<TopoItem>, id0: int) -> bool {
    &&& gs.len() == items.len()
    &&& forall|k: int| 0 <= k < items.len() ==> #[trigger] is_topo_geometry(gs[k], items[k], id0 + k)
}

/// `vs` are the arcs `arcs`, each as its list of positions.
pub open spec fn arcs_match(vs: Seq<JsonValue>, arcs: Seq<Seq<crate::geometry::Coord>>) -> bool {
    &&& vs.len() == arcs.len()
    &&& forall|k: int| 0 <= k < arcs.len() ==> #[trigger] is_path(vs[k], arcs[k])
}

/// `doc` is a topology whose collection holds `gs` and whose arcs are `arcs`.
pub open spec fn is_topology(doc: JsonValue, gs: Seq<JsonValue>, arcs: Seq<JsonValue>) -> bool {
    doc matches JsonValue::Obj(o) && {
        &&& o@.len() == 3
        &&& o@[0].0@ == "type"@ && is_str(o@[0].1, "Topology"@)
        &&& o@[1].0@ == "objects"@ && (o@[1].1 matches JsonValue::Obj(objs) && objs@.len() == 1
            && objs@[0].0@ == "collection"@ && (objs@[0].1 matches JsonValue::Obj(c) && c@.len()
            == 2 && c@[0].0@ == "type"@ && is_str(c@[0].1, "GeometryCollection"@) && c@[1].0@
            == "geometries"@ && (c@[1].1 matches JsonValue::Arr(g) && g@ == gs)))
        &&& o@[2].0@ == "arcs"@ && (o@[2].1 matches JsonValue::Arr(a) && a@ == arcs)
    }
}

/// The points and the arcs of a stream account for all its geometries,
/// and each polyline part is an arc.
pub proof fn lemma_topo_counts(shapes: Seq<Shape>, records: Seq<Record>)
    ensures
        points_before(shapes) + topo_arcs(shapes, records).len() == topo_items(shapes, records).len(),
        parts_before(shapes) <= topo_arcs(shapes, records).len(),
    decreases shapes.len(),
{
    if shapes.len() > 0 {
        lemma_topo_counts(shapes.drop_last(), records);
    }
}

/// The number of geometries that refer to an arc.
pub open spec fn arc_refs(items: Seq<TopoItem>) -> nat
    decreases items.len(),
{
    if items.len() == 0 {
        0
    } else {
        arc_refs(items.drop_last()) + if has_arc(items.last()) {
            1nat
        } else {
            0nat
        }
    }
}

proof fn lemma_arc_refs_append(a: Seq<TopoItem>, b: Seq<TopoItem>)
    ensures
        arc_refs(a + b) == arc_refs(a) + arc_refs(b),
    decreases b.len(),
{
    if b.len() > 0 {
        assert((a + b).drop_last() =~= a + b.drop_last());
        lemma_arc_refs_append(a, b.drop_last());
    } else {
        assert(a + b =~= a);
    }
}

proof fn lemma_arc_refs_all(items: Seq<TopoItem>)
    requires
        forall|k: int| 0 <= k < items.len() ==> has_arc(#[trigger] items[k]),
    ensures
        arc_refs(items) == items.len(),
    decreases items.len(),
{
    if items.len() > 0 {
        let p = items.drop_last();
        assert forall|k: int| 0 <= k < p.len() implies has_arc(#[trigger] p[k]) by {
            assert(p[k] == items[k]);
        }
        lemma_arc_refs_all(p);
        assert(has_arc(items[items.len() - 1]));
    }
}

/// Every line and polygon ring of a stream has an arc of its own: the arcs
/// are exactly as many as the geometries that refer to one.
pub proof fn lemma_one_arc_per_line(shapes: Seq<Shape>, records: Seq<Record>)
    ensures
        topo_arcs(shapes, records).len() == arc_refs(topo_items(shapes, records)),
    decreases shapes.len(),
{
    if shapes.len() > 0 {
        let p = shapes.drop_last();
        lemma_one_arc_per_line(p, records);
        let add = shape_topo(
            shapes.last(),
            records,
            points_before(p) as int,
            parts_before(p) as int,
            topo_arcs(p, records).len() as int,
        );
        lemma_arc_refs_append(topo_items(p, records), add);
        match shapes.last() {
            Shape::Point(_) => {
                assert(add.drop_last() =~= Seq::<TopoItem>::empty());
                assert(!has_arc(add.last()));
                assert(arc_refs(add.drop_last()) == 0);
                assert(arc_refs(add) == 0);
            },
            Shape::Polyline(parts) => {
                lemma_arc_refs_all(add);
                assert(shape_arcs(shapes.last(), records).len() == add.len());
            },
            Shape::Polygon(rings) => {
                lemma_arc_refs_all(add);
                assert(shape_arcs(shapes.last(), records).len() == add.len());
            },
            _ => {
                assert(add.len() == 0);
                assert(shape_arcs(shapes.last(), records).len() == 0);
            },
        }
    }
}

/// No two geometries share an arc: a geometry that refers to an arc refers
/// to the one whose position is the number of such geometries before it.
pub proof fn lemma_arcs_not_shared(shapes: Seq<Shape>, records: Seq<Record>)
    ensures
        ({
            let items = topo_items(shapes, records);
            forall|k: int|
                0 <= k < items.len() && has_arc(#[trigger] items[k]) ==> items[k].arc == arc_refs(
                    items.take(k),
                )
        }),
    decreases shapes.len(),
{
    if shapes.len() > 0 {
        let p = shapes.drop_last();
        lemma_arcs_not_shared(p, records);
        lemma_one_arc_per_line(p, records);
        let prev = topo_items(p, records);
        let add = shape_topo(
            shapes.last(),
            records,
            points_before(p) as int,
            parts_before(p) as int,
            topo_arcs(p, records).len() as int,
        );
        let items = topo_items(shapes, records);
        assert(items == prev + add);
        assert forall|k: int| 0 <= k < items.len() && has_arc(#[trigger] items[k]) implies items[k].arc
            == arc_refs(items.take(k)) by {
            if k < prev.len() {
                assert(items[k] == prev[k]);
                assert(items.take(k) =~= prev.take(k));
            } else {
                let j = k - prev.len();
                assert(items[k] == add[j]);
                assert(items.take(k) =~= prev + add.take(j));
                lemma_arc_refs_append(prev, add.take(j));
                assert forall|m: int| 0 <= m < add.take(j).len() implies has_arc(
                    #[trigger] add.take(j)[m],
                ) by {
                    assert(add.take(j)[m] == add[m]);
                }
                lemma_arc_refs_all(add.take(j));
            }
        }
    }
}

/// A polygon with more rings than there are attribute records gives one
/// geometry and one arc per record; the rings past the last record give
/// none.
pub proof fn lemma_topo_polygon_truncated(
    rings: Vec<Vec<crate::geometry::Coord>>,
    records: Seq<Record>,
    point_index: int,
    line_index: int,
    arc_index: int,
)
    requires
        rings@.len() > records.len(),
    ensures
        shape_topo(Shape::Polygon(rings), records, point_index, line_index, arc_index).len()
            == records.len(),
        shape_arcs(Shape::Polygon(rings), records).len() == records.len(),
{
}

/// In a TopoJSON document of a stream, the list of arcs is as long as the
/// number of line and polygon geometries of the collection.
pub proof fn lemma_topology_arcs(
    shapes: Seq<Shape>,
    records: Seq<Record>,
    doc: JsonValue,
    gs: Seq<JsonValue>,
    arcs: Seq<JsonValue>,
)
    requires
        is_topology(doc, gs, arcs),
        geometries_match(gs, topo_items(shapes, records), 0),
        arcs_match(arcs, topo_arcs(shapes, records)),
    ensures
        arcs.len() == arc_refs(topo_items(shapes, records)),
        gs.len() == topo_items(shapes, records).len(),
{
    lemma_one_arc_per_line(shapes, records);
}

/// A prefix of the stream gives no more geometries than the whole.
pub proof fn lemma_topo_prefix(shapes: Seq<Shape>, records: Seq<Record>, j: int)
    requires
        0 <= j <= shapes.len(),
    ensures
        topo_items(shapes.take(j), records).len() <= topo_items(shapes, records).len(),
    decreases shapes.len(),
{
    if j < shapes.len() {
        assert(shapes.drop_last().take(j) =~= shapes.take(j));
        lemma_topo_prefix(shapes.drop_last(), records, j);
    } else {
        assert(shapes.take(j) =~= shapes);
    }
}

fn arc_ref(a: usize) -> (r: JsonValue)
    ensures
        is_arc_ref(r, a as int),
{
    let mut x: Vec<JsonValue> = Vec::new();
    x.push(JsonValue::UInt(a as u64));
    let mut w: Vec<JsonValue> = Vec::new();
    w.push(JsonValue::Arr(x));
    JsonValue::Arr(w)
}

fn arc_geometry(
    kind: &str,
    a: usize,
    id: u32,
    props: JsonValue,
    Ghost(item): Ghost<TopoItem>,
) -> (r: JsonValue)
    requires
        has_arc(item),
        item.arc == a,
        is_props(props, item.feature.record),
        item.feature.geom is LineString ==> kind@ == "LineString"@,
        item.feature.geom is Polygon ==> kind@ == "Polygon"@,
    ensures
        is_topo_geometry(r, item, id as int),
{
    let mut o: Vec<(String, JsonValue)> = Vec::new();
    o.push(member("type", str_value(kind)));
    o.push(member("arcs", arc_ref(a)));
    o.push(member("id", JsonValue::UInt(id as u64)));
    o.push(member("properties", props));
    JsonValue::Obj(o)
}

/// Appends the geometries and arcs of one shape, and advances the
/// counters: `index` counts points, `line_index` polyline parts, `id`
/// geometries and `geom_index` arcs.
fn topo_shape(
    shape: &Shape,
    records: &Vec<Record>,
    geoms: &mut Vec<JsonValue>,
    arcs: &mut Vec<JsonValue>,
    state: &mut AppState,
    geom_index: &mut usize,
)
    requires
        records_wf(records@),
        old(state).index + point_count(*shape) <= usize::MAX,
        old(state).line_index + line_parts(*shape) <= usize::MAX,
        *old(geom_index) + shape_arcs(*shape, records@).len() <= usize::MAX,
        old(state).id + shape_topo(
            *shape,
            records@,
            old(state).index as int,
            old(state).line_index as int,
            *old(geom_index) as int,
        ).len() <= u32::MAX,
    ensures
        ({
            let add = shape_topo(
                *shape,
                records@,
                old(state).index as int,
                old(state).line_index as int,
                *old(geom_index) as int,
            );
            &&& final(geoms)@.len() == old(geoms)@.len() + add.len()
            &&& final(geoms)@.subrange(0, old(geoms)@.len() as int) == old(geoms)@
            &&& forall|k: int|
                0 <= k < add.len() ==> #[trigger] is_topo_geometry(
                    final(geoms)@[old(geoms)@.len() + k],
                    add[k],
                    old(state).id + k,
                )
            &&& final(state).id == old(state).id + add.len()
        }),
        final(arcs)@.len() == old(arcs)@.len() + shape_arcs(*shape, records@).len(),
        final(arcs)@.subrange(0, old(arcs)@.len() as int) == old(arcs)@,
        forall|k: int|
            0 <= k < shape_arcs(*shape, records@).len() ==> #[trigger] is_path(
                final(arcs)@[old(arcs)@.len() + k],
                shape_arcs(*shape, records@)[k],
            ),
        final(state).index == old(state).index + point_count(*shape),
        final(state).line_index == old(state).line_index + line_parts(*shape),
        *final(geom_index) == *old(geom_index) + shape_arcs(*shape, records@).len(),
{
    let ghost add = shape_topo(
        *shape,
        records@,
        state.index as int,
        state.line_index as int,
        *geom_index as int,
    );
    let ghost sa = shape_arcs(*shape, records@);
    let ghost g0 = geoms@;
    let ghost a0 = arcs@;
    let ghost id0 = state.id as int;
    let ghost gi0 = *geom_index as int;
    match shape {
        Shape::NullShape => {},
        Shape::Point(point) => {
            let props = properties_value(records, state.index);
            let mut o: Vec<(String, JsonValue)> = Vec::new();
            o.push(member("properties", props));
            o.push(member("coordinates", coord_value(*point)));
            o.push(member("type", str_value("Point")));
            o.push(member("id", JsonValue::UInt(state.id as u64)));
            geoms.push(JsonValue::Obj(o));
            state.increment_id();
            state.increment_index();
            assert(geoms@.subrange(0, g0.len() as int) =~= g0);
            assert(arcs@.subrange(0, a0.len() as int) =~= a0);
        },
        Shape::Polyline(polyline) => {
            let mut i: usize = 0;
            while i < polyline.len()
                invariant
                    *shape == Shape::Polyline(*polyline),
                    records_wf(records@),
                    add == shape_topo(*shape, records@, old(state).index as int, old(state).line_index as int, gi0),
                    sa == shape_arcs(*shape, records@),
                    i <= polyline@.len(),
                    id0 + add.len() <= u32::MAX,
                    gi0 + polyline@.len() <= usize::MAX,
                    old(state).line_index + polyline@.len() <= usize::MAX,
                    state.id == id0 + i,
                    state.index == old(state).index,
                    state.line_index == old(state).line_index + i,
                    *geom_index == gi0 + i,
                    geoms@.len() == g0.len() + i,
                    geoms@.subrange(0, g0.len() as int) == g0,
                    arcs@.len() == a0.len() + i,
                    arcs@.subrange(0, a0.len() as int) == a0,
                    forall|k: int| 0 <= k < i ==> #[trigger] is_topo_geometry(geoms@[g0.len() + k], add[k], id0 + k),
                    forall|k: int| 0 <= k < i ==> #[trigger] is_path(arcs@[a0.len() + k], sa[k]),
                decreases polyline@.len() - i,
            {
                let props = properties_value(records, state.line_index);
                let g = arc_geometry("LineString", *geom_index, state.id, props, Ghost(add[i as int]));
                geoms.push(g);
                arcs.push(path_value(&polyline[i]));
                assert(geoms@.subrange(0, g0.len() as int) =~= g0);
                assert(arcs@.subrange(0, a0.len() as int) =~= a0);
                *geom_index = *geom_index + 1;
                state.increment_id();
                state.increment_line_index();
                i = i + 1;
            }
        },
        Shape::Polygon(rings) => {
            let mut i: usize = 0;
            while i < rings.len()
                invariant
                    *shape == Shape::Polygon(*rings),
                    records_wf(records@),
                    add == shape_topo(*shape, records@, old(state).index as int, old(state).line_index as int, gi0),
                    sa == shape_arcs(*shape, records@),
                    i <= rings@.len(),
                    i <= records@.len(),
                    id0 + add.len() <= u32::MAX,
                    gi0 + sa.len() <= usize::MAX,
                    state.id == id0 + i,
                    state.index == old(state).index,
                    state.line_index == old(state).line_index,
                    *geom_index == gi0 + i,
                    geoms@.len() == g0.len() + i,
                    geoms@.subrange(0, g0.len() as int) == g0,
                    arcs@.len() == a0.len() + i,
                    arcs@.subrange(0, a0.len() as int) == a0,
                    forall|k: int| 0 <= k < i ==> #[trigger] is_topo_geometry(geoms@[g0.len() + k], add[k], id0 + k),
                    forall|k: int| 0 <= k < i ==> #[trigger] is_path(arcs@[a0.len() + k], sa[k]),
                ensures
                    i <= rings@.len(),
                    i <= records@.len(),
                    i == rings@.len() || i == records@.len(),
                    state.id == id0 + i,
                    state.index == old(state).index,
                    state.line_index == old(state).line_index,
                    *geom_index == gi0 + i,
                    geoms@.len() == g0.len() + i,
                    geoms@.subrange(0, g0.len() as int) == g0,
                    arcs@.len() == a0.len() + i,
                    arcs@.subrange(0, a0.len() as int) == a0,
                    forall|k: int| 0 <= k < i ==> #[trigger] is_topo_geometry(geoms@[g0.len() + k], add[k], id0 + k),
                    forall|k: int| 0 <= k < i ==> #[trigger] is_path(arcs@[a0.len() + k], sa[k]),
                decreases rings@.len() - i,
            {
                if i == records.len() {
                    break;
                }
                let props = properties_value(records, i);
                let g = arc_geometry("Polygon", *geom_index, state.id, props, Ghost(add[i as int]));
                arcs.push(path_value(&rings[i]));
                geoms.push(g);
                assert(geoms@.subrange(0, g0.len() as int) =~= g0);
                assert(arcs@.subrange(0, a0.len() as int) =~= a0);
                *geom_index = *geom_index + 1;
                state.increment_id();
                i = i + 1;
            }
            assert(i == add.len());
        },
        _ => {
            assert(geoms@.subrange(0, g0.len() as int) =~= g0);
            assert(arcs@.subrange(0, a0.len() as int) =~= a0);
        },
    }
}

impl ShapeFile {
    /// The TopoJSON topology of every shape: one geometry per point,
    /// polyline part and polygon ring, numbered from 0 in emission order,
    /// each line and ring referring to an arc of its own.
    pub fn to_topojson(&self) -> (r: JsonValue)
        requires
            self.wf(),
            topo_items(self.shapes_vec@, self.records_vec@).len() <= u32::MAX,
        ensures
            exists|gs: Seq<JsonValue>, arcs: Seq<JsonValue>|
                {
                    &&& is_topology(r, gs, arcs)
                    &&& geometries_match(gs, topo_items(self.shapes_vec@, self.records_vec@), 0)
                    &&& arcs_match(arcs, topo_arcs(self.shapes_vec@, self.records_vec@))
                },
    {
        let ghost shapes = self.shapes_vec@;
        let ghost records = self.records_vec@;
        let mut geoms: Vec<JsonValue> = Vec::new();
        let mut arcs: Vec<JsonValue> = Vec::new();
        let mut state = AppState::new();
        let mut geom_index: usize = 0;
        let mut i: usize = 0;
        assert(shapes.take(0) =~= Seq::<Shape>::empty());
        while i < self.shapes_vec.len()
            invariant
                self.wf(),
                shapes == self.shapes_vec@,
                records == self.records_vec@,
                topo_items(shapes, records).len() <= u32::MAX,
                i <= shapes.len(),
                state.index == points_before(shapes.take(i as int)),
                state.line_index == parts_before(shapes.take(i as int)),
                geom_index == topo_arcs(shapes.take(i as int), records).len(),
                state.id == topo_items(shapes.take(i as int), records).len(),
                geometries_match(geoms@, topo_items(shapes.take(i as int), records), 0),
                arcs_match(arcs@, topo_arcs(shapes.take(i as int), records)),
            decreases shapes.len() - i,
        {
            proof {
                assert(shapes.take(i + 1).drop_last() =~= shapes.take(i as int));
                lemma_topo_prefix(shapes, records, i + 1);
                lemma_topo_counts(shapes.take(i + 1), records);
            }
            let ghost gb = geoms@;
            let ghost ab = arcs@;
            let ghost id_before = state.id as int;
            topo_shape(
                &self.shapes_vec[i],
                &self.records_vec,
                &mut geoms,
                &mut arcs,
                &mut state,
                &mut geom_index,
            );
            proof {
                let p = shapes.take(i as int);
                let prev = topo_items(p, records);
                let add = shape_topo(
                    shapes[i as int],
                    records,
                    points_before(p) as int,
                    parts_before(p) as int,
                    topo_arcs(p, records).len() as int,
                );
                assert(topo_items(shapes.take(i + 1), records) == prev + add);
                assert forall|k: int| 0 <= k < prev.len() + add.len() implies #[trigger] is_topo_geometry(
                    geoms@[k],
                    (prev + add)[k],
                    0 + k,
                ) by {
                    if k < prev.len() {
                        assert((prev + add)[k] == prev[k]);
                        assert(geoms@.subrange(0, gb.len() as int)[k] == geoms@[k]);
                        assert(is_topo_geometry(gb[k], prev[k], 0 + k));
                    } else {
                        let j = k - gb.len();
                        assert((prev + add)[k] == add[j]);
                        assert(is_topo_geometry(geoms@[gb.len() + j], add[j], id_before + j));
                    }
                }
                let pa = topo_arcs(p, records);
                let sa = shape_arcs(shapes[i as int], records);
                assert(topo_arcs(shapes.take(i + 1), records) == pa + sa);
                assert forall|k: int| 0 <= k < pa.len() + sa.len() implies #[trigger] is_path(
                    arcs@[k],
                    (pa + sa)[k],
                ) by {
                    if k < pa.len() {
                        assert((pa + sa)[k] == pa[k]);
                        assert(arcs@.subrange(0, ab.len() as int)[k] == arcs@[k]);
                        assert(is_path(ab[k], pa[k]));
                    } else {
                        let j = k - ab.len();
                        assert((pa + sa)[k] == sa[j]);
                        assert(is_path(arcs@[ab.len() + j], sa[j]));
                    }
                }
            }
            i = i + 1;
        }
        assert(shapes.take(i as int) =~= shapes);
        let ghost gs = geoms@;
        let ghost avs = arcs@;
        let mut c: Vec<(String, JsonValue)> = Vec::new();
        c.push(member("type", str_value("GeometryCollection")));
        c.push(member("geometries", JsonValue::Arr(geoms)));
        let mut objs: Vec<(String, JsonValue)> = Vec::new();
        objs.push(member("collection", JsonValue::Obj(c)));
        let mut o: Vec<(String, JsonValue)> = Vec::new();
        o.push(member("type", str_value("Topology")));
        o.push(member("objects", JsonValue::Obj(objs)));
        o.push(member("arcs", JsonValue::Arr(arcs)));
        let r = JsonValue::Obj(o);
        assert(is_topology(r, gs, avs));
        r
    }
}

} // verus!
