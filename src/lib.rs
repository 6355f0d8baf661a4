//! Conversion of shapefile geometry and dBASE attribute records into
//! GeoJSON, TopoJSON and KML document models.
pub mod attributes;
pub mod cli;
pub mod files;
pub mod geometry;
pub mod json;
pub mod kml;
pub mod shapefile;
pub mod state;
pub mod topojson;
pub mod transform;
