use vstd::prelude::*;
use crate::element::{mirror, mirrored, Element};
use crate::error::LoadError;
use crate::face::{corners_of, fan, parse_face, triangulate, Corner};
use crate::line::{
    geometry_directive, geometry_directive_of, material_name, material_name_of,
    GeometryDirective, SourceLine,
};
use crate::laws::law_vertex_count;
use crate::material::{load_materials, material_table_of, MaterialTable};

verus! {

/// The colour of the material named `name`, if `colors` holds it.
pub open spec fn color_of(colors: Map<Seq<u8>, [u32; 3]>, name: Seq<u8>) -> Option<[u32; 3]> {
    if colors.contains_key(name) {
        Some(colors[name])
    } else {
        None
    }
}

/// The vertex that a corner stands for, given the positions and normals read
/// so far and the colour of the active material, if it has one.
///
/// A corner whose position or normal has not been declared fails as out of
/// range; one whose indices are good fails on a missing material.
pub open spec fn vertex_of(
    corner: Corner,
    positions: Seq<[u32; 3]>,
    normals: Seq<[u32; 3]>,
    color: Option<[u32; 3]>,
) -> Result<Element, LoadError> {
    if corner.v >= positions.len() || corner.vn >= normals.len() {
        Err(LoadError::IndexOutOfRange)
    } else {
        match color {
            None => Err(LoadError::Lookup),
            Some(rgb) => Ok(
                Element {
                    position: positions[corner.v as int],
                    normal: normals[corner.vn as int],
                    color: rgb,
                },
            ),
        }
    }
}

/// The vertices that a run of corners stands for, in order; the first corner
/// that fails decides the error.
pub open spec fn vertices_of(
    corners: Seq<Corner>,
    positions: Seq<[u32; 3]>,
    normals: Seq<[u32; 3]>,
    color: Option<[u32; 3]>,
) -> Result<Seq<Element>, LoadError>
    decreases corners.len(),
{
    if corners.len() == 0 {
        Ok(Seq::empty())
    } else {
        match vertices_of(corners.drop_last(), positions, normals, color) {
            Err(e) => Err(e),
            Ok(front) => match vertex_of(corners.last(), positions, normals, color) {
                Err(e) => Err(e),
                Ok(vertex) => Ok(front.push(vertex)),
            },
        }
    }
}

/// Where the reading of a geometry file stands: the positions and normals
/// declared so far, the name of the active material, and the vertices put out
/// so far. The active name is empty until the first `usemtl` line.
pub struct GeometryState {
    pub positions: Seq<[u32; 3]>,
    pub normals: Seq<[u32; 3]>,
    pub active: Seq<u8>,
    pub elements: Seq<Element>,
}

/// The state before the first line.
pub open spec fn geometry_start() -> GeometryState {
    GeometryState {
        positions: Seq::empty(),
        normals: Seq::empty(),
        active: Seq::empty(),
        elements: Seq::empty(),
    }
}

/// The vertices that a face line puts out in a given state: those of the fan
/// of its corners, every one in the colour of the active material.
pub open spec fn face_vertices(
    state: GeometryState,
    line: Seq<u8>,
    colors: Map<Seq<u8>, [u32; 3]>,
) -> Result<Seq<Element>, LoadError> {
    match corners_of(line) {
        Err(e) => Err(e),
        Ok(corners) => vertices_of(
            fan(corners),
            state.positions,
            state.normals,
            color_of(colors, state.active),
        ),
    }
}

/// What one line of a geometry file does to the state.
///
/// A position line and a normal line append the line's values, the first of
/// the three negated; they fail where the values are missing. A `usemtl` line
/// makes its name the active one, whether the table holds it or not. A face
/// line appends the vertices of its fan. Any other line changes nothing.
pub open spec fn geometry_step(
    state: GeometryState,
    line: SourceLine,
    colors: Map<Seq<u8>, [u32; 3]>,
) -> Result<GeometryState, LoadError> {
    match geometry_directive_of(line.text@) {
        GeometryDirective::Position => match line.values {
            None => Err(LoadError::Parse),
            Some(raw) => Ok(
                GeometryState { positions: state.positions.push(mirrored(raw)), ..state },
            ),
        },
        GeometryDirective::Normal => match line.values {
            None => Err(LoadError::Parse),
            Some(raw) => Ok(GeometryState { normals: state.normals.push(mirrored(raw)), ..state }),
        },
        GeometryDirective::UseMaterial => Ok(
            GeometryState { active: material_name_of(line.text@), ..state },
        ),
        GeometryDirective::Face => match face_vertices(state, line.text@, colors) {
            Err(e) => Err(e),
            Ok(vertices) => Ok(GeometryState { elements: state.elements + vertices, ..state }),
        },
        GeometryDirective::Other => Ok(state),
    }
}

/// The state after all of `lines`, read in order from the start state; the
/// first line that fails decides the error.
pub open spec fn geometry_after(lines: Seq<SourceLine>, colors: Map<Seq<u8>, [u32; 3]>) -> Result<
    GeometryState,
    LoadError,
>
    decreases lines.len(),
{
    if lines.len() == 0 {
        Ok(geometry_start())
    } else {
        match geometry_after(lines.drop_last(), colors) {
            Err(e) => Err(e),
            Ok(state) => geometry_step(state, lines.last(), colors),
        }
    }
}

/// How many triangles a polygon with `n` corners is cut into.
pub open spec fn triangles_of(n: nat) -> nat {
    if n >= 3 {
        (n - 2) as nat
    } else {
        0
    }
}

/// How many triangles the face lines among `lines` are cut into.
pub open spec fn triangles_in(lines: Seq<SourceLine>) -> nat
    decreases lines.len(),
{
    if lines.len() == 0 {
        0
    } else {
        triangles_in(lines.drop_last()) + match geometry_directive_of(lines.last().text@) {
            GeometryDirective::Face => match corners_of(lines.last().text@) {
                Ok(corners) => triangles_of(corners.len()),
                Err(_) => 0,
            },
            _ => 0,
        }
    }
}

/// The vertices that a geometry file gives with a given material table.
pub open spec fn elements_of(lines: Seq<SourceLine>, colors: Map<Seq<u8>, [u32; 3]>) -> Result<
    Seq<Element>,
    LoadError,
> {
    match geometry_after(lines, colors) {
        Err(e) => Err(e),
        Ok(state) => Ok(state.elements),
    }
}

/// The vertices that a material file and a geometry file give together. The
/// material file is read first, and its error comes first.
pub open spec fn loaded(materials: Seq<SourceLine>, geometry: Seq<SourceLine>) -> Result<
    Seq<Element>,
    LoadError,
> {
    match material_table_of(materials) {
        Err(e) => Err(e),
        Ok(colors) => elements_of(geometry, colors),
    }
}

/// Turns corners into vertices.
pub fn resolve(
    corners: &[Corner],
    positions: &[[u32; 3]],
    normals: &[[u32; 3]],
    color: Option<[u32; 3]>,
) -> (r: Result<Vec<Element>, LoadError>)
    ensures
        match vertices_of(corners@, positions@, normals@, color) {
            Ok(vertices) => r matches Ok(v) && v@ == vertices,
            Err(e) => r matches Err(x) && x == e,
        },
{
    let mut out: Vec<Element> = Vec::new();
    let mut i: usize = 0;
    assert(corners@.take(0) =~= Seq::<Corner>::empty());
    while i < corners.len()
        invariant
            i <= corners.len(),
            vertices_of(corners@.take(i as int), positions@, normals@, color) == Ok::<
                Seq<Element>,
                LoadError,
            >(out@),
        decreases corners.len() - i,
    {
        assert(corners@.take(i + 1).drop_last() =~= corners@.take(i as int));
        let corner = corners[i];
        if corner.v >= positions.len() || corner.vn >= normals.len() {
            proof {
                lemma_vertices_fail_early(corners@, positions@, normals@, color, i + 1);
            }
            return Err(LoadError::IndexOutOfRange);
        }
        match color {
            None => {
                proof {
                    lemma_vertices_fail_early(corners@, positions@, normals@, color, i + 1);
                }
                return Err(LoadError::Lookup);
            },
            Some(rgb) => {
                out.push(
                    Element {
                        position: positions[corner.v],
                        normal: normals[corner.vn],
                        color: rgb,
                    },
                );
            },
        }
        i += 1;
    }
    assert(corners@.take(i as int) =~= corners@);
    Ok(out)
}

/// Corners whose first `n` fail fail as a whole, with the same error.
pub proof fn lemma_vertices_fail_early(
    corners: Seq<Corner>,
    positions: Seq<[u32; 3]>,
    normals: Seq<[u32; 3]>,
    color: Option<[u32; 3]>,
    n: int,
)
    requires
        0 <= n <= corners.len(),
        vertices_of(corners.take(n), positions, normals, color) is Err,
    ensures
        vertices_of(corners, positions, normals, color) == vertices_of(
            corners.take(n),
            positions,
            normals,
            color,
        ),
    decreases corners.len(),
{
    if n == corners.len() {
        assert(corners.take(n) =~= corners);
    } else {
        assert(corners.drop_last().take(n) =~= corners.take(n));
        lemma_vertices_fail_early(corners.drop_last(), positions, normals, color, n);
    }
}

/// A geometry file whose first `n` lines fail fails as a whole, with the
/// same error.
pub proof fn lemma_geometry_fail_early(
    lines: Seq<SourceLine>,
    colors: Map<Seq<u8>, [u32; 3]>,
    n: int,
)
    requires
        0 <= n <= lines.len(),
        geometry_after(lines.take(n), colors) is Err,
    ensures
        geometry_after(lines, colors) == geometry_after(lines.take(n), colors),
    decreases lines.len(),
{
    if n == lines.len() {
        assert(lines.take(n) =~= lines);
    } else {
        assert(lines.drop_last().take(n) =~= lines.take(n));
        lemma_geometry_fail_early(lines.drop_last(), colors, n);
    }
}

/// Reads a geometry file line by line.
#[derive(Debug)]
pub struct GeometryReader {
    positions: Vec<[u32; 3]>,
    normals: Vec<[u32; 3]>,
    active: Vec<u8>,
    elements: Vec<Element>,
}

impl View for GeometryReader {
    type V = GeometryState;

    closed spec fn view(&self) -> GeometryState {
        GeometryState {
            positions: self.positions@,
            normals: self.normals@,
            active: self.active@,
            elements: self.elements@,
        }
    }
}

impl GeometryReader {
    /// A reader that has read nothing yet.
    pub fn new() -> (r: Self)
        ensures
            r@ == geometry_start(),
    {
        GeometryReader {
            positions: Vec::new(),
            normals: Vec::new(),
            active: Vec::new(),
            elements: Vec::new(),
        }
    }

    /// Reads one line, with the finished material table at hand. A line that
    /// fails leaves the reader as it was.
    pub fn read_line(&mut self, line: &SourceLine, table: &MaterialTable) -> (r: Result<
        (),
        LoadError,
    >)
        ensures
            match geometry_step(old(self)@, *line, table@) {
                Ok(state) => r is Ok && final(self)@ == state,
                Err(e) => r == Err::<(), LoadError>(e) && final(self)@ == old(self)@,
            },
    {
        match geometry_directive(line.text.as_slice()) {
            GeometryDirective::Position => match line.values {
                None => Err(LoadError::Parse),
                Some(raw) => {
                    self.positions.push(mirror(raw));
                    Ok(())
                },
            },
            GeometryDirective::Normal => match line.values {
                None => Err(LoadError::Parse),
                Some(raw) => {
                    self.normals.push(mirror(raw));
                    Ok(())
                },
            },
            GeometryDirective::UseMaterial => {
                self.active = material_name(line.text.as_slice());
                Ok(())
            },
            GeometryDirective::Face => {
                let corners = match parse_face(line.text.as_slice()) {
                    Ok(corners) => corners,
                    Err(e) => {
                        return Err(e);
                    },
                };
                let triangles = triangulate(corners.as_slice());
                let color = table.get(self.active.as_slice());
                let mut vertices = match resolve(
                    triangles.as_slice(),
                    self.positions.as_slice(),
                    self.normals.as_slice(),
                    color,
                ) {
                    Ok(vertices) => vertices,
                    Err(e) => {
                        return Err(e);
                    },
                };
                self.elements.append(&mut vertices);
                Ok(())
            },
            GeometryDirective::Other => Ok(()),
        }
    }

    /// Hands out the vertices put out so far.
    pub fn finish(self) -> (r: Vec<Element>)
        ensures
            r@ == self@.elements,
    {
        self.elements
    }
}

/// Reads the lines of a geometry file, with the finished material table at
/// hand, and returns the vertices of all its faces, three per triangle.
pub fn load_geometry(lines: &[SourceLine], table: &MaterialTable) -> (r: Result<
    Vec<Element>,
    LoadError,
>)
    ensures
        match elements_of(lines@, table@) {
            Ok(elements) => r matches Ok(v) && v@ == elements,
            Err(e) => r matches Err(x) && x == e,
        },
        r matches Ok(v) ==> v@.len() == 3 * triangles_in(lines@),
{
    proof {
        if elements_of(lines@, table@) is Ok {
            law_vertex_count(lines@, table@);
        }
    }
    let mut reader = GeometryReader::new();
    let mut i: usize = 0;
    assert(lines@.take(0) =~= Seq::<SourceLine>::empty());
    while i < lines.len()
        invariant
            i <= lines.len(),
            geometry_after(lines@.take(i as int), table@) == Ok::<GeometryState, LoadError>(
                reader@,
            ),
        decreases lines.len() - i,
    {
        assert(lines@.take(i + 1).drop_last() =~= lines@.take(i as int));
        match reader.read_line(&lines[i], table) {
            Ok(()) => {},
            Err(e) => {
                proof {
                    lemma_geometry_fail_early(lines@, table@, i + 1);
                }
                return Err(e);
            },
        }
        i += 1;
    }
    assert(lines@.take(i as int) =~= lines@);
    Ok(reader.finish())
}

/// Loads a model from the lines of its material file and of its geometry
/// file: builds the material table, then reads the geometry with it.
pub fn load_wfo(materials: &[SourceLine], geometry: &[SourceLine]) -> (r: Result<
    Vec<Element>,
    LoadError,
>)
    ensures
        match loaded(materials@, geometry@) {
            Ok(elements) => r matches Ok(v) && v@ == elements,
            Err(e) => r matches Err(x) && x == e,
        },
        r matches Ok(v) ==> v@.len() == 3 * triangles_in(geometry@),
{
    match load_materials(materials) {
        Err(e) => Err(e),
        Ok(table) => load_geometry(geometry, &table),
    }
}

} // verus!
