//! Loader for Wavefront geometry and material text.
//!
//! The loader turns the lines of a material file and of a geometry file into
//! a flat list of vertex records, three per triangle. Polygons are cut into
//! triangle fans, and every vertex carries the diffuse colour of the material
//! that was active when its face was read.
//!
//! Real numbers never pass through this library as numbers. A caller decodes
//! the three numeric fields of a line and hands over their single-precision
//! bit patterns; the library only moves them and flips a sign bit.
//!
//! - `scan` finds the fields of a line, `number` reads an index field.
//! - `line` tells the directive of a line and where its numeric fields stand.
//! - `material` builds the table of colours from a material file.
//! - `face` reads the corners of a polygon and cuts it into a triangle fan.
//! - `geometry` reads a geometry file and puts out the vertices.
//! - `laws` proves what holds of every load.

pub mod element;
pub mod error;
pub mod face;
pub mod geometry;
pub mod laws;
pub mod line;
pub mod material;
pub mod number;
pub mod scan;

pub use element::{mirror, negate, Element};
pub use error::LoadError;
pub use face::{parse_corner, parse_face, triangulate, Corner};
pub use geometry::{load_geometry, load_wfo, resolve, GeometryReader};
pub use line::{
    geometry_directive, geometry_fields, material_directive, material_fields, material_name,
    numeric_fields, GeometryDirective, MaterialDirective, SourceLine,
};
pub use material::{load_materials, same_bytes, MaterialReader, MaterialTable};
pub use number::{parse_decimal, parse_index};
pub use scan::{find_next_slash, find_next_space, scan_index};
