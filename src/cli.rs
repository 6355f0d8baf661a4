//! The conversions that a command line asks for.
use vstd::prelude::*;

verus! {

/// An output encoding.
#[derive(Clone, Copy, Debug, PartialEq, Eq, Structural)]
pub enum OutputFormat {
    GeoJson,
    TopoJson,
    Kml,
}

/// One requested conversion: every shapefile under `folder` into one
/// document of `format`.
#[derive(Debug)]
pub struct Conversion {
    pub format: OutputFormat,
    pub folder: String,
}

/// The requested conversions, in the order GeoJSON, TopoJSON, KML.
pub open spec fn requested(
    geojson: Option<Seq<char>>,
    topojson: Option<Seq<char>>,
    kml: Option<Seq<char>>,
) -> Seq<(OutputFormat, Seq<char>)> {
    let a: Seq<(OutputFormat, Seq<char>)> = match geojson {
        Some(f) => seq![(OutputFormat::GeoJson, f)],
        None => seq![],
    };
    let b: Seq<(OutputFormat, Seq<char>)> = match topojson {
        Some(f) => seq![(OutputFormat::TopoJson, f)],
        None => seq![],
    };
    let c: Seq<(OutputFormat, Seq<char>)> = match kml {
        Some(f) => seq![(OutputFormat::Kml, f)],
        None => seq![],
    };
    a + b + c
}

pub open spec fn opt_view(o: Option<String>) -> Option<Seq<char>> {
    match o {
        Some(s) => Some(s@),
        None => None,
    }
}

/// The conversions that the three folder options ask for; each option
/// given asks for one, and they may be combined.
pub fn init(
    shpgeojson: Option<String>,
    shptopojson: Option<String>,
    shpkml: Option<String>,
) -> (r: Vec<Conversion>)
    ensures
        r@.len() == requested(opt_view(shpgeojson), opt_view(shptopojson), opt_view(shpkml)).len(),
        forall|i: int|
            0 <= i < r@.len() ==> {
                let want = #[trigger] requested(
                    opt_view(shpgeojson),
                    opt_view(shptopojson),
                    opt_view(shpkml),
                )[i];
                r@[i].format == want.0 && r@[i].folder@ == want.1
            },
{
    let ghost want = requested(opt_view(shpgeojson), opt_view(shptopojson), opt_view(shpkml));
    let mut r: Vec<Conversion> = Vec::new();
    if let Some(f) = shpgeojson {
        r.push(Conversion { format: OutputFormat::GeoJson, folder: f });
    }
    if let Some(f) = shptopojson {
        r.push(Conversion { format: OutputFormat::TopoJson, folder: f });
    }
    if let Some(f) = shpkml {
        r.push(Conversion { format: OutputFormat::Kml, folder: f });
    }
    r
}

impl OutputFormat {
    /// The file extension of the format's documents.
    pub fn extension(&self) -> (r: &'static str)
        ensures
            *self == OutputFormat::GeoJson ==> r@ == "geojson"@,
            *self == OutputFormat::TopoJson ==> r@ == "topojson"@,
            *self == OutputFormat::Kml ==> r@ == "kml"@,
    {
        match self {
            OutputFormat::GeoJson => "geojson",
            OutputFormat::TopoJson => "topojson",
            OutputFormat::Kml => "kml",
        }
    }
}

} // verus!
