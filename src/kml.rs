//! KML encoding. KML works on the geometry units themselves, not on
//! flattened features, and carries no attributes. The document is a list
//! of tokens: literal text, and coordinates to be written as decimal
//! numbers.
use vstd::prelude::*;
use crate::geometry::{Coord, Shape};
use crate::shapefile::ShapeFile;

verus! {

/// A piece of a KML document: literal text, or the `f64` with the given
/// bit pattern written in decimal.
#[derive(Debug)]
pub enum KmlToken {
    Text(String),
    Num(u64),
}

/// The model of a token.
pub ghost enum KmlPiece {
    Text(Seq<char>),
    Num(u64),
}

/// Why a document could not be encoded: the shape at `index` is of a kind
/// that KML encoding does not take.
#[derive(Debug, PartialEq, Eq, Structural)]
pub enum KmlError {
    UnsupportedShape { index: usize },
}

pub open spec fn piece_of(t: KmlToken) -> KmlPiece {
    match t {
        KmlToken::Text(s) => KmlPiece::Text(s@),
        KmlToken::Num(b) => KmlPiece::Num(b),
    }
}

pub open spec fn pieces(ts: Seq<KmlToken>) -> Seq<KmlPiece> {
    ts.map_values(|t: KmlToken| piece_of(t))
}

/// A position written as `x,y,0 `.
pub open spec fn coord_pieces(c: Coord) -> Seq<KmlPiece> {
    seq![KmlPiece::Num(c.x), KmlPiece::Text(","@), KmlPiece::Num(c.y), KmlPiece::Text(",0 "@)]
}

/// Every position of a path, in order.
pub open spec fn path_pieces(cs: Seq<Coord>) -> Seq<KmlPiece>
    decreases cs.len(),
{
    if cs.len() == 0 {
        seq![]
    } else {
        path_pieces(cs.drop_last()) + coord_pieces(cs.last())
    }
}

/// The first position of each part, in order.
pub open spec fn first_points(parts: Seq<Vec<Coord>>) -> Seq<KmlPiece>
    decreases parts.len(),
{
    if parts.len() == 0 {
        seq![]
    } else {
        first_points(parts.drop_last()) + coord_pieces(parts.last()@[0])
    }
}

/// Every position of every ring, the rings one after the other.
pub open spec fn ring_points(rings: Seq<Vec<Coord>>) -> Seq<KmlPiece>
    decreases rings.len(),
{
    if rings.len() == 0 {
        seq![]
    } else {
        ring_points(rings.drop_last()) + path_pieces(rings.last()@)
    }
}

pub open spec fn line_pieces(parts: Seq<Vec<Coord>>) -> Seq<KmlPiece> {
    seq![KmlPiece::Text("<Placemark><LineString><coordinates>"@)] + first_points(parts) + seq![
        KmlPiece::Text("</coordinates></LineString></Placemark>"@),
    ]
}

/// The placemark of one shape; none for the kinds that KML encoding does
/// not take. A polyline gives only the first position of each part; a
/// polygon gives all its rings as one boundary.
pub open spec fn shape_kml(s: Shape) -> Option<Seq<KmlPiece>> {
    match s {
        Shape::Point(c) | Shape::PointM(c) => Some(
            seq![
                KmlPiece::Text("<Placemark><Point><coordinates>"@),
                KmlPiece::Num(c.x),
                KmlPiece::Text(","@),
                KmlPiece::Num(c.y),
                KmlPiece::Text("</coordinates></Point></Placemark>"@),
            ],
        ),
        Shape::PointZ(c) => Some(
            seq![
                KmlPiece::Text("<Placemark><Point><coordinates>"@),
                KmlPiece::Num(c.x),
                KmlPiece::Text(","@),
                KmlPiece::Num(c.y),
                KmlPiece::Text(","@),
                KmlPiece::Num(c.z),
                KmlPiece::Text("</coordinates></Point></Placemark>"@),
            ],
        ),
        Shape::Polyline(parts) => Some(line_pieces(parts@)),
        Shape::PolylineM(parts) => Some(line_pieces(parts@)),
        Shape::PolylineZ(parts) => Some(line_pieces(parts@)),
        Shape::Polygon(rings) => Some(
            seq![
                KmlPiece::Text(
                    "<Placemark><Polygon><outerBoundaryIs><LinearRing><coordinates>"@,
                ),
            ] + ring_points(rings@) + seq![
                KmlPiece::Text(
                    "</coordinates></LinearRing></outerBoundaryIs></Polygon></Placemark>"@,
                ),
            ],
        ),
        _ => None,
    }
}

pub open spec fn parts_nonempty(parts: Seq<Vec<Coord>>) -> bool {
    forall|k: int| 0 <= k < parts.len() ==> (#[trigger] parts[k])@.len() > 0
}

/// Every polyline part of the shape has a first position.
pub open spec fn kml_ready(s: Shape) -> bool {
    match s {
        Shape::Polyline(parts) => parts_nonempty(parts@),
        Shape::PolylineM(parts) => parts_nonempty(parts@),
        Shape::PolylineZ(parts) => parts_nonempty(parts@),
        _ => true,
    }
}

/// The placemarks of a stream of shapes; none if any shape has none.
pub open spec fn kml_body(shapes: Seq<Shape>) -> Option<Seq<KmlPiece>>
    decreases shapes.len(),
{
    if shapes.len() == 0 {
        Some(seq![])
    } else {
        match (kml_body(shapes.drop_last()), shape_kml(shapes.last())) {
            (Some(b), Some(p)) => Some(b + p),
            _ => None,
        }
    }
}

pub open spec fn kml_header() -> Seq<KmlPiece> {
    seq![
        KmlPiece::Text("<?xml version=\"1.0\" encoding=\"UTF-8\"?>"@),
        KmlPiece::Text("<kml xmlns=\"http://www.opengis.net/kml/2.2\">"@),
        KmlPiece::Text("<Document>"@),
    ]
}

pub open spec fn kml_footer() -> Seq<KmlPiece> {
    seq![KmlPiece::Text("</Document></kml>"@)]
}

/// The placemarks exist exactly when every shape has one.
pub proof fn lemma_kml_body_some(shapes: Seq<Shape>)
    ensures
        kml_body(shapes) is Some <==> forall|j: int|
            0 <= j < shapes.len() ==> #[trigger] shape_kml(shapes[j]) is Some,
    decreases shapes.len(),
{
    if shapes.len() > 0 {
        let p = shapes.drop_last();
        lemma_kml_body_some(p);
        if kml_body(shapes) is Some {
            assert forall|j: int| 0 <= j < shapes.len() implies #[trigger] shape_kml(
                shapes[j],
            ) is Some by {
                if j < p.len() {
                    assert(p[j] == shapes[j]);
                }
            }
        }
        if forall|j: int| 0 <= j < shapes.len() ==> #[trigger] shape_kml(shapes[j]) is Some {
            assert forall|j: int| 0 <= j < p.len() implies #[trigger] shape_kml(p[j]) is Some by {
                assert(p[j] == shapes[j]);
            }
            assert(shape_kml(shapes[shapes.len() - 1]) is Some);
        }
    }
}

fn push_text(out: &mut Vec<KmlToken>, s: &str)
    ensures
        pieces(final(out)@) == pieces(old(out)@).push(KmlPiece::Text(s@)),
{
    out.push(KmlToken::Text(s.to_owned()));
    assert(pieces(out@) =~= pieces(old(out)@).push(KmlPiece::Text(s@)));
}

fn push_num(out: &mut Vec<KmlToken>, b: u64)
    ensures
        pieces(final(out)@) == pieces(old(out)@).push(KmlPiece::Num(b)),
{
    out.push(KmlToken::Num(b));
    assert(pieces(out@) =~= pieces(old(out)@).push(KmlPiece::Num(b)));
}

fn push_coord(out: &mut Vec<KmlToken>, c: Coord)
    ensures
        pieces(final(out)@) == pieces(old(out)@) + coord_pieces(c),
{
    push_num(out, c.x);
    push_text(out, ",");
    push_num(out, c.y);
    push_text(out, ",0 ");
    assert(pieces(out@) =~= pieces(old(out)@) + coord_pieces(c));
}

fn push_line(out: &mut Vec<KmlToken>, parts: &Vec<Vec<Coord>>)
    requires
        parts_nonempty(parts@),
    ensures
        pieces(final(out)@) == pieces(old(out)@) + line_pieces(parts@),
{
    push_text(out, "<Placemark><LineString><coordinates>");
    let ghost start = pieces(out@);
    let mut i: usize = 0;
    assert(parts@.take(0) =~= Seq::<Vec<Coord>>::empty());
    assert(pieces(out@) =~= start + first_points(parts@.take(0)));
    while i < parts.len()
        invariant
            i <= parts@.len(),
            forall|k: int| 0 <= k < parts@.len() ==> (#[trigger] parts@[k])@.len() > 0,
            pieces(out@) == start + first_points(parts@.take(i as int)),
        decreases parts@.len() - i,
    {
        assert(parts@[i as int]@.len() > 0);
        push_coord(out, parts[i][0]);
        assert(parts@.take(i + 1).drop_last() =~= parts@.take(i as int));
        assert(pieces(out@) =~= start + first_points(parts@.take(i + 1)));
        i = i + 1;
    }
    assert(parts@.take(i as int) =~= parts@);
    push_text(out, "</coordinates></LineString></Placemark>");
    assert(pieces(out@) =~= pieces(old(out)@) + line_pieces(parts@));
}

fn push_path(out: &mut Vec<KmlToken>, cs: &Vec<Coord>)
    ensures
        pieces(final(out)@) == pieces(old(out)@) + path_pieces(cs@),
{
    let ghost start = pieces(out@);
    let mut j: usize = 0;
    assert(cs@.take(0) =~= Seq::<Coord>::empty());
    assert(pieces(out@) =~= start + path_pieces(cs@.take(0)));
    while j < cs.len()
        invariant
            j <= cs@.len(),
            start == pieces(old(out)@),
            pieces(out@) == start + path_pieces(cs@.take(j as int)),
        decreases cs@.len() - j,
    {
        push_coord(out, cs[j]);
        assert(cs@.take(j + 1).drop_last() =~= cs@.take(j as int));
        assert(pieces(out@) =~= start + path_pieces(cs@.take(j + 1)));
        j = j + 1;
    }
    assert(cs@.take(j as int) =~= cs@);
}

fn push_polygon(out: &mut Vec<KmlToken>, rings: &Vec<Vec<Coord>>)
    ensures
        shape_kml(Shape::Polygon(*rings)) == Some(
            pieces(final(out)@).subrange(pieces(old(out)@).len() as int, pieces(final(out)@).len() as int),
        ),
        pieces(final(out)@) == pieces(old(out)@) + shape_kml(Shape::Polygon(*rings))->Some_0,
{
    push_text(out, "<Placemark><Polygon><outerBoundaryIs><LinearRing><coordinates>");
    let ghost start = pieces(out@);
    let mut i: usize = 0;
    assert(rings@.take(0) =~= Seq::<Vec<Coord>>::empty());
    assert(pieces(out@) =~= start + ring_points(rings@.take(0)));
    while i < rings.len()
        invariant
            i <= rings@.len(),
            pieces(out@) == start + ring_points(rings@.take(i as int)),
        decreases rings@.len() - i,
    {
        push_path(out, &rings[i]);
        assert(rings@.take(i + 1).drop_last() =~= rings@.take(i as int));
        assert(pieces(out@) =~= start + ring_points(rings@.take(i + 1)));
        i = i + 1;
    }
    assert(rings@.take(i as int) =~= rings@);
    push_text(out, "</coordinates></LinearRing></outerBoundaryIs></Polygon></Placemark>");
    let ghost body = shape_kml(Shape::Polygon(*rings))->Some_0;
    assert(pieces(out@) =~= pieces(old(out)@) + body);
    assert(pieces(out@).subrange(pieces(old(out)@).len() as int, pieces(out@).len() as int) =~= body);
}

/// Appends the placemark of one shape; false, with nothing appended, for a
/// kind that KML encoding does not take.
fn push_shape(out: &mut Vec<KmlToken>, shape: &Shape) -> (ok: bool)
    requires
        kml_ready(*shape),
    ensures
        ok == shape_kml(*shape) is Some,
        ok ==> pieces(final(out)@) == pieces(old(out)@) + shape_kml(*shape)->Some_0,
        !ok ==> final(out)@ == old(out)@,
{
    match shape {
        Shape::Point(c) | Shape::PointM(c) => {
            push_text(out, "<Placemark><Point><coordinates>");
            push_num(out, c.x);
            push_text(out, ",");
            push_num(out, c.y);
            push_text(out, "</coordinates></Point></Placemark>");
            assert(pieces(out@) =~= pieces(old(out)@) + shape_kml(*shape)->Some_0);
            true
        },
        Shape::PointZ(c) => {
            push_text(out, "<Placemark><Point><coordinates>");
            push_num(out, c.x);
            push_text(out, ",");
            push_num(out, c.y);
            push_text(out, ",");
            push_num(out, c.z);
            push_text(out, "</coordinates></Point></Placemark>");
            assert(pieces(out@) =~= pieces(old(out)@) + shape_kml(*shape)->Some_0);
            true
        },
        Shape::Polyline(parts) => {
            push_line(out, parts);
            true
        },
        Shape::PolylineM(parts) => {
            push_line(out, parts);
            true
        },
        Shape::PolylineZ(parts) => {
            push_line(out, parts);
            true
        },
        Shape::Polygon(rings) => {
            push_polygon(out, rings);
            true
        },
        _ => false,
    }
}

/// Encoding the same shapes twice gives the same document, token for
/// token, or fails both times at the same shape.
pub proof fn lemma_kml_repeatable(
    shapes: Seq<Shape>,
    r1: Result<Vec<KmlToken>, KmlError>,
    r2: Result<Vec<KmlToken>, KmlError>,
)
    requires
        kml_body(shapes) is Some <==> r1 is Ok,
        r1 is Ok ==> pieces(r1->Ok_0@) == kml_header() + kml_body(shapes)->Some_0 + kml_footer(),
        r1 matches Err(KmlError::UnsupportedShape { index }) ==> {
            &&& index < shapes.len()
            &&& shape_kml(shapes[index as int]) is None
            &&& forall|j: int| 0 <= j < index ==> shape_kml(#[trigger] shapes[j]) is Some
        },
        kml_body(shapes) is Some <==> r2 is Ok,
        r2 is Ok ==> pieces(r2->Ok_0@) == kml_header() + kml_body(shapes)->Some_0 + kml_footer(),
        r2 matches Err(KmlError::UnsupportedShape { index }) ==> {
            &&& index < shapes.len()
            &&& shape_kml(shapes[index as int]) is None
            &&& forall|j: int| 0 <= j < index ==> shape_kml(#[trigger] shapes[j]) is Some
        },
    ensures
        r1 is Ok <==> r2 is Ok,
        r1 is Ok ==> pieces(r1->Ok_0@) == pieces(r2->Ok_0@),
        r1 is Err ==> r1 == r2,
{
    if r1 is Err {
        let i1 = r1->Err_0->index;
        let i2 = r2->Err_0->index;
        if i1 < i2 {
            assert(shape_kml(shapes[i1 as int]) is Some);
        } else if i2 < i1 {
            assert(shape_kml(shapes[i2 as int]) is Some);
        }
    }
}

impl ShapeFile {
    /// The KML document of every shape, one placemark per shape; the first
    /// shape of a kind that KML encoding does not take fails the whole
    /// document.
    pub fn to_kml(&self) -> (r: Result<Vec<KmlToken>, KmlError>)
        requires
            forall|i: int| 0 <= i < self.shapes_vec@.len() ==> kml_ready(#[trigger] self.shapes_vec@[i]),
        ensures
            kml_body(self.shapes_vec@) is Some <==> r is Ok,
            r is Ok ==> pieces(r->Ok_0@) == kml_header() + kml_body(self.shapes_vec@)->Some_0
                + kml_footer(),
            r matches Err(KmlError::UnsupportedShape { index }) ==> {
                &&& index < self.shapes_vec@.len()
                &&& shape_kml(self.shapes_vec@[index as int]) is None
                &&& forall|j: int| 0 <= j < index ==> shape_kml(#[trigger] self.shapes_vec@[j]) is Some
            },
    {
        let ghost shapes = self.shapes_vec@;
        let mut out: Vec<KmlToken> = Vec::new();
        push_text(&mut out, "<?xml version=\"1.0\" encoding=\"UTF-8\"?>");
        push_text(&mut out, "<kml xmlns=\"http://www.opengis.net/kml/2.2\">");
        push_text(&mut out, "<Document>");
        assert(pieces(out@) =~= kml_header());
        let mut i: usize = 0;
        assert(shapes.take(0) =~= Seq::<Shape>::empty());
        assert(pieces(out@) =~= kml_header() + kml_body(shapes.take(0))->Some_0);
        while i < self.shapes_vec.len()
            invariant
                shapes == self.shapes_vec@,
                forall|k: int| 0 <= k < shapes.len() ==> kml_ready(#[trigger] shapes[k]),
                i <= shapes.len(),
                kml_body(shapes.take(i as int)) is Some,
                forall|j: int| 0 <= j < i ==> shape_kml(#[trigger] shapes[j]) is Some,
                pieces(out@) == kml_header() + kml_body(shapes.take(i as int))->Some_0,
            decreases shapes.len() - i,
        {
            let ghost before = pieces(out@);
            assert(kml_ready(shapes[i as int]));
            let ok = push_shape(&mut out, &self.shapes_vec[i]);
            assert(shapes.take(i + 1).drop_last() =~= shapes.take(i as int));
            if !ok {
                proof {
                    lemma_kml_body_some(shapes);
                }
                return Err(KmlError::UnsupportedShape { index: i });
            }
            assert(pieces(out@) =~= kml_header() + kml_body(shapes.take(i + 1))->Some_0);
            i = i + 1;
        }
        assert(shapes.take(i as int) =~= shapes);
        push_text(&mut out, "</Document></kml>");
        assert(pieces(out@) =~= kml_header() + kml_body(shapes)->Some_0 + kml_footer());
        Ok(out)
    }
}

} // verus!
