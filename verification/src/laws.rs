//! What holds of every load, proved from the definitions of the two passes.

use vstd::prelude::*;
use crate::element::{black, mirrored, negated, Element};
use crate::error::LoadError;
use crate::face::{corners_of, fan, fan_corner, Corner};
use crate::geometry::{
    color_of, elements_of, geometry_after, geometry_step, lemma_vertices_fail_early, triangles_in,
    vertex_of, vertices_of, GeometryState,
};
use crate::line::{
    geometry_directive_of, material_directive_of, material_name_of, GeometryDirective,
    SourceLine,
};
use crate::material::{
    lemma_materials_fail_early, material_start, material_table_of, materials_after, MaterialState,
};
use crate::number::index_of_field;

verus! {

// ---------------------------------------------------------------------------
// The material pass
// ---------------------------------------------------------------------------

/// The name that is active after `lines`: the one on the last `newmtl` line,
/// or the empty name where there is none.
pub open spec fn active_after(lines: Seq<SourceLine>) -> Seq<u8>
    decreases lines.len(),
{
    if lines.len() == 0 {
        Seq::empty()
    } else if material_directive_of(lines.last().text@) is Declare {
        material_name_of(lines.last().text@)
    } else {
        active_after(lines.drop_last())
    }
}

/// A material file that was read to its end leaves active the name on its
/// last `newmtl` line.
pub proof fn lemma_active_name(lines: Seq<SourceLine>)
    requires
        materials_after(lines) is Ok,
    ensures
        materials_after(lines)->Ok_0.active == active_after(lines),
    decreases lines.len(),
{
    if lines.len() > 0 {
        lemma_active_name(lines.drop_last());
    }
}

/// Every name that a `newmtl` line declares is a key of the finished table.
pub proof fn law_declared_names_are_keys(lines: Seq<SourceLine>, k: int)
    requires
        material_table_of(lines) is Ok,
        0 <= k < lines.len(),
        material_directive_of(lines[k].text@) is Declare,
    ensures
        material_table_of(lines)->Ok_0.contains_key(material_name_of(lines[k].text@)),
    decreases lines.len(),
{
    if k < lines.len() - 1 {
        law_declared_names_are_keys(lines.drop_last(), k);
    }
}

/// A declared material is black in the finished table unless a later `Kd`
/// line comes while its name is the active one.
pub proof fn law_declared_material_is_black(lines: Seq<SourceLine>, k: int)
    requires
        material_table_of(lines) is Ok,
        0 <= k < lines.len(),
        material_directive_of(lines[k].text@) is Declare,
        forall|j: int|
            k < j < lines.len() && material_directive_of(lines[j].text@) is Diffuse
                ==> active_after(#[trigger] lines.take(j)) != material_name_of(lines[k].text@),
    ensures
        material_table_of(lines)->Ok_0.contains_key(material_name_of(lines[k].text@)),
        material_table_of(lines)->Ok_0[material_name_of(lines[k].text@)] == black(),
    decreases lines.len(),
{
    let last = lines.len() - 1;
    if k < last {
        let front = lines.drop_last();
        let name = material_name_of(lines[k].text@);
        assert forall|j: int|
            k < j < front.len() && material_directive_of(front[j].text@) is Diffuse
                implies active_after(#[trigger] front.take(j)) != name by {
            assert(front.take(j) =~= lines.take(j));
        }
        law_declared_material_is_black(front, k);
        if material_directive_of(lines[last].text@) is Diffuse {
            lemma_active_name(front);
            assert(lines.take(last) =~= front);
        }
    }
}

/// A `Kd` line that no `newmtl` line precedes fails the load: as a lookup
/// failure where the line's values were decoded, as a parse failure where
/// they were not. The line meant is the first `Kd` line of the file.
pub proof fn law_diffuse_before_declaration(lines: Seq<SourceLine>, k: int)
    requires
        0 <= k < lines.len(),
        material_directive_of(lines[k].text@) is Diffuse,
        forall|j: int| 0 <= j < k ==> material_directive_of((#[trigger] lines[j]).text@) is Other,
    ensures
        material_table_of(lines) == Err::<Map<Seq<u8>, [u32; 3]>, LoadError>(
            if lines[k].values is Some {
                LoadError::Lookup
            } else {
                LoadError::Parse
            },
        ),
{
    lemma_nothing_declared(lines.take(k));
    let upto = lines.take(k + 1);
    assert(upto.drop_last() =~= lines.take(k));
    assert(upto.last() == lines[k]);
    lemma_materials_fail_early(lines, k + 1);
}

/// Lines that declare nothing and colour nothing leave the start state.
proof fn lemma_nothing_declared(lines: Seq<SourceLine>)
    requires
        forall|j: int|
            0 <= j < lines.len() ==> material_directive_of((#[trigger] lines[j]).text@) is Other,
    ensures
        materials_after(lines) == Ok::<MaterialState, LoadError>(material_start()),
    decreases lines.len(),
{
    if lines.len() > 0 {
        lemma_nothing_declared(lines.drop_last());
    }
}

// ---------------------------------------------------------------------------
// The geometry pass
// ---------------------------------------------------------------------------

/// Corners that all stand for a vertex give one vertex each: corner `k`
/// gives vertex `k`, made of the position and the normal that the corner
/// names and of the one colour.
pub proof fn lemma_vertices_pointwise(
    corners: Seq<Corner>,
    positions: Seq<[u32; 3]>,
    normals: Seq<[u32; 3]>,
    color: Option<[u32; 3]>,
)
    requires
        vertices_of(corners, positions, normals, color) is Ok,
    ensures
        vertices_of(corners, positions, normals, color)->Ok_0.len() == corners.len(),
        forall|k: int|
            0 <= k < corners.len() ==> vertex_of(corners[k], positions, normals, color) == Ok::<
                Element,
                LoadError,
            >(#[trigger] vertices_of(corners, positions, normals, color)->Ok_0[k]),
    decreases corners.len(),
{
    if corners.len() > 0 {
        lemma_vertices_pointwise(corners.drop_last(), positions, normals, color);
    }
}

/// The number of vertices that a load puts out is three times the number of
/// triangles that its faces are cut into: a face with `n >= 3` corners counts
/// for `n - 2` triangles, a face with fewer counts for none.
pub proof fn law_vertex_count(lines: Seq<SourceLine>, colors: Map<Seq<u8>, [u32; 3]>)
    requires
        elements_of(lines, colors) is Ok,
    ensures
        elements_of(lines, colors)->Ok_0.len() == 3 * triangles_in(lines),
    decreases lines.len(),
{
    if lines.len() > 0 {
        let front = lines.drop_last();
        law_vertex_count(front, colors);
        let state = geometry_after(front, colors)->Ok_0;
        let text = lines.last().text@;
        if geometry_directive_of(text) is Face {
            let corners = corners_of(text)->Ok_0;
            lemma_vertices_pointwise(
                fan(corners),
                state.positions,
                state.normals,
                color_of(colors, state.active),
            );
        }
    }
}

/// What the first `n` lines of a geometry file put out stands unchanged at
/// the start of what the whole file puts out: vertices come in the order of
/// the face lines, and a later line takes none back.
pub proof fn law_output_grows(lines: Seq<SourceLine>, colors: Map<Seq<u8>, [u32; 3]>, n: int)
    requires
        0 <= n <= lines.len(),
        elements_of(lines, colors) is Ok,
    ensures
        elements_of(lines.take(n), colors) is Ok,
        elements_of(lines.take(n), colors)->Ok_0.is_prefix_of(elements_of(lines, colors)->Ok_0),
    decreases lines.len(),
{
    if n == lines.len() {
        assert(lines.take(n) =~= lines);
    } else {
        let front = lines.drop_last();
        assert(front.take(n) =~= lines.take(n));
        law_output_grows(front, colors, n);
    }
}

/// A face line with fewer than three corners changes nothing and fails
/// nothing, whatever its corners name.
pub proof fn law_short_face(state: GeometryState, line: SourceLine, colors: Map<Seq<u8>, [u32; 3]>)
    requires
        geometry_directive_of(line.text@) is Face,
        corners_of(line.text@) is Ok,
        corners_of(line.text@)->Ok_0.len() < 3,
    ensures
        geometry_step(state, line, colors) == Ok::<GeometryState, LoadError>(state),
{
    let corners = corners_of(line.text@)->Ok_0;
    assert(fan(corners) =~= Seq::<Corner>::empty());
    assert(state.elements + Seq::<Element>::empty() =~= state.elements);
}

/// An index field without digits stands for index 0 and is no error.
pub proof fn law_empty_field()
    ensures
        index_of_field(Seq::<u8>::empty()) == Ok::<usize, LoadError>(0),
{
}

/// The triples that the lines of the given directive declare, in the order of
/// the file, each stored with its first component negated. A line without
/// values declares nothing.
pub open spec fn declared(lines: Seq<SourceLine>, directive: GeometryDirective) -> Seq<[u32; 3]>
    decreases lines.len(),
{
    if lines.len() == 0 {
        Seq::empty()
    } else {
        let before = declared(lines.drop_last(), directive);
        match lines.last().values {
            Some(raw) if geometry_directive_of(lines.last().text@) == directive => before.push(
                mirrored(raw),
            ),
            _ => before,
        }
    }
}

/// After a geometry file was read to its end, the positions held are those
/// of its position lines and the normals held are those of its normal lines,
/// in the order of the file: an index in a face line counts these lines.
pub proof fn law_declarations_in_file_order(lines: Seq<SourceLine>, colors: Map<Seq<u8>, [u32; 3]>)
    requires
        geometry_after(lines, colors) is Ok,
    ensures
        geometry_after(lines, colors)->Ok_0.positions == declared(
            lines,
            GeometryDirective::Position,
        ),
        geometry_after(lines, colors)->Ok_0.normals == declared(lines, GeometryDirective::Normal),
    decreases lines.len(),
{
    if lines.len() > 0 {
        law_declarations_in_file_order(lines.drop_last(), colors);
    }
}

/// Whether a corner names a position and a normal that are declared.
pub open spec fn in_range(corner: Corner, state: GeometryState) -> bool {
    corner.v < state.positions.len() && corner.vn < state.normals.len()
}

/// Corners whose first stands for no vertex fail with the error of the first.
proof fn lemma_first_vertex_fails(
    corners: Seq<Corner>,
    positions: Seq<[u32; 3]>,
    normals: Seq<[u32; 3]>,
    color: Option<[u32; 3]>,
)
    requires
        corners.len() > 0,
        vertex_of(corners[0], positions, normals, color) is Err,
    ensures
        vertices_of(corners, positions, normals, color) == Err::<Seq<Element>, LoadError>(
            vertex_of(corners[0], positions, normals, color)->Err_0,
        ),
{
    let first = corners.take(1);
    assert(first.drop_last() =~= Seq::<Corner>::empty());
    assert(first.last() == corners[0]);
    assert(vertices_of(first.drop_last(), positions, normals, color) == Ok::<
        Seq<Element>,
        LoadError,
    >(Seq::empty()));
    lemma_vertices_fail_early(corners, positions, normals, color, 1);
}

/// A face with three corners or more whose first corner names a declared
/// position and a declared normal fails as a lookup failure where the table
/// does not hold the active material; so does every such face that comes
/// before the first `usemtl` line, unless a material without a name exists.
pub proof fn law_face_without_material(
    state: GeometryState,
    line: SourceLine,
    colors: Map<Seq<u8>, [u32; 3]>,
)
    requires
        geometry_directive_of(line.text@) is Face,
        corners_of(line.text@) is Ok,
        corners_of(line.text@)->Ok_0.len() >= 3,
        in_range(corners_of(line.text@)->Ok_0[0], state),
        !colors.contains_key(state.active),
    ensures
        geometry_step(state, line, colors) == Err::<GeometryState, LoadError>(LoadError::Lookup),
{
    let corners = fan(corners_of(line.text@)->Ok_0);
    lemma_first_vertex_fails(corners, state.positions, state.normals, None);
}

/// A face with three corners or more whose first corner names a position or
/// a normal that is not declared yet fails as out of range.
pub proof fn law_face_out_of_range(
    state: GeometryState,
    line: SourceLine,
    colors: Map<Seq<u8>, [u32; 3]>,
)
    requires
        geometry_directive_of(line.text@) is Face,
        corners_of(line.text@) is Ok,
        corners_of(line.text@)->Ok_0.len() >= 3,
        !in_range(corners_of(line.text@)->Ok_0[0], state),
    ensures
        geometry_step(state, line, colors) == Err::<GeometryState, LoadError>(
            LoadError::IndexOutOfRange,
        ),
{
    let corners = fan(corners_of(line.text@)->Ok_0);
    lemma_first_vertex_fails(
        corners,
        state.positions,
        state.normals,
        color_of(colors, state.active),
    );
}

/// Corners stand for vertices exactly if each of them does; where the colour
/// is there, they can only fail as out of range.
proof fn lemma_vertices_ok(
    corners: Seq<Corner>,
    positions: Seq<[u32; 3]>,
    normals: Seq<[u32; 3]>,
    color: Option<[u32; 3]>,
)
    ensures
        vertices_of(corners, positions, normals, color) is Ok <==> forall|k: int|
            0 <= k < corners.len() ==> vertex_of(
                #[trigger] corners[k],
                positions,
                normals,
                color,
            ) is Ok,
        color is Some && vertices_of(corners, positions, normals, color) is Err ==> vertices_of(
            corners,
            positions,
            normals,
            color,
        ) == Err::<Seq<Element>, LoadError>(LoadError::IndexOutOfRange),
    decreases corners.len(),
{
    if corners.len() > 0 {
        let front = corners.drop_last();
        lemma_vertices_ok(front, positions, normals, color);
        if vertices_of(corners, positions, normals, color) is Ok {
            assert forall|k: int| 0 <= k < corners.len() implies vertex_of(
                #[trigger] corners[k],
                positions,
                normals,
                color,
            ) is Ok by {
                if k < front.len() {
                    assert(corners[k] == front[k]);
                }
            }
        } else if vertices_of(front, positions, normals, color) is Err {
            let k = choose|k: int|
                0 <= k < front.len() && !(vertex_of(
                    #[trigger] front[k],
                    positions,
                    normals,
                    color,
                ) is Ok);
            assert(corners[k] == front[k]);
        } else {
            assert(corners[corners.len() - 1] == corners.last());
        }
    }
}

/// Where the table holds the active material, a face with three corners or
/// more is put out exactly if every one of its corners names a declared
/// position and a declared normal; else it fails as out of range.
pub proof fn law_face_with_material(
    state: GeometryState,
    line: SourceLine,
    colors: Map<Seq<u8>, [u32; 3]>,
)
    requires
        geometry_directive_of(line.text@) is Face,
        corners_of(line.text@) is Ok,
        corners_of(line.text@)->Ok_0.len() >= 3,
        colors.contains_key(state.active),
    ensures
        geometry_step(state, line, colors) is Ok <==> forall|k: int|
            0 <= k < corners_of(line.text@)->Ok_0.len() ==> in_range(
                #[trigger] corners_of(line.text@)->Ok_0[k],
                state,
            ),
        geometry_step(state, line, colors) is Err ==> geometry_step(state, line, colors) == Err::<
            GeometryState,
            LoadError,
        >(LoadError::IndexOutOfRange),
{
    let polygon = corners_of(line.text@)->Ok_0;
    let corners = fan(polygon);
    let color = color_of(colors, state.active);
    lemma_vertices_ok(corners, state.positions, state.normals, color);
    if geometry_step(state, line, colors) is Ok {
        assert forall|k: int| 0 <= k < polygon.len() implies in_range(
            #[trigger] polygon[k],
            state,
        ) by {
            let m = if k == 0 {
                0
            } else if k == 1 {
                2
            } else {
                3 * (k - 2) + 1
            };
            assert(fan_corner(m) == k);
            assert(corners[m] == polygon[k]);
            assert(vertex_of(corners[m], state.positions, state.normals, color) is Ok);
        }
    }
    if forall|k: int| 0 <= k < polygon.len() ==> in_range(#[trigger] polygon[k], state) {
        assert forall|m: int| 0 <= m < corners.len() implies vertex_of(
            #[trigger] corners[m],
            state.positions,
            state.normals,
            color,
        ) is Ok by {
            let k = fan_corner(m);
            assert(0 <= k < polygon.len());
            assert(corners[m] == polygon[k]);
            assert(in_range(polygon[k], state));
        }
    }
}

/// Whether `line` is a position line or a normal line, as `directive` says,
/// whose values are those of `stored` before the first was negated.
pub open spec fn declares(
    line: SourceLine,
    directive: GeometryDirective,
    stored: [u32; 3],
) -> bool {
    &&& geometry_directive_of(line.text@) == directive
    &&& line.values matches Some(raw)
    &&& stored[0] == negated(raw[0])
    &&& stored[1] == raw[1]
    &&& stored[2] == raw[2]
}

/// Whether one of `lines` declares `stored`.
pub open spec fn declared_in(
    lines: Seq<SourceLine>,
    directive: GeometryDirective,
    stored: [u32; 3],
) -> bool {
    exists|j: int| 0 <= j < lines.len() && declares(#[trigger] lines[j], directive, stored)
}

/// What is declared in all lines but the last is declared in all lines.
proof fn lemma_declared_in_grows(
    lines: Seq<SourceLine>,
    directive: GeometryDirective,
    stored: [u32; 3],
)
    requires
        lines.len() > 0,
        declared_in(lines.drop_last(), directive, stored),
    ensures
        declared_in(lines, directive, stored),
{
    let front = lines.drop_last();
    let j = choose|j: int| 0 <= j < front.len() && declares(#[trigger] front[j], directive, stored);
    assert(lines[j] == front[j]);
}

/// Whether every position, normal and vertex of `state` goes back to a line
/// of `lines`, and every colour to the table.
pub open spec fn traced(
    state: GeometryState,
    lines: Seq<SourceLine>,
    colors: Map<Seq<u8>, [u32; 3]>,
) -> bool {
    &&& forall|i: int|
        0 <= i < state.positions.len() ==> declared_in(
            lines,
            GeometryDirective::Position,
            #[trigger] state.positions[i],
        )
    &&& forall|i: int|
        0 <= i < state.normals.len() ==> declared_in(
            lines,
            GeometryDirective::Normal,
            #[trigger] state.normals[i],
        )
    &&& forall|k: int|
        0 <= k < state.elements.len() ==> {
            &&& declared_in(
                lines,
                GeometryDirective::Position,
                (#[trigger] state.elements[k]).position,
            )
            &&& declared_in(lines, GeometryDirective::Normal, state.elements[k].normal)
            &&& colors.values().contains(state.elements[k].color)
        }
}

proof fn lemma_traced(lines: Seq<SourceLine>, colors: Map<Seq<u8>, [u32; 3]>)
    requires
        geometry_after(lines, colors) is Ok,
    ensures
        traced(geometry_after(lines, colors)->Ok_0, lines, colors),
    decreases lines.len(),
{
    if lines.len() > 0 {
        let front = lines.drop_last();
        let line = lines.last();
        lemma_traced(front, colors);
        let before = geometry_after(front, colors)->Ok_0;
        let after = geometry_after(lines, colors)->Ok_0;
        assert forall|i: int| 0 <= i < before.positions.len() implies declared_in(
            lines,
            GeometryDirective::Position,
            #[trigger] before.positions[i],
        ) by {
            lemma_declared_in_grows(lines, GeometryDirective::Position, before.positions[i]);
        }
        assert forall|i: int| 0 <= i < before.normals.len() implies declared_in(
            lines,
            GeometryDirective::Normal,
            #[trigger] before.normals[i],
        ) by {
            lemma_declared_in_grows(lines, GeometryDirective::Normal, before.normals[i]);
        }
        assert forall|k: int| 0 <= k < before.elements.len() implies {
            &&& declared_in(
                lines,
                GeometryDirective::Position,
                (#[trigger] before.elements[k]).position,
            )
            &&& declared_in(lines, GeometryDirective::Normal, before.elements[k].normal)
        } by {
            let vertex = before.elements[k];
            lemma_declared_in_grows(lines, GeometryDirective::Position, vertex.position);
            lemma_declared_in_grows(lines, GeometryDirective::Normal, vertex.normal);
        }
        match geometry_directive_of(line.text@) {
            GeometryDirective::Position => {
                let stored = after.positions.last();
                assert(declares(lines[lines.len() - 1], GeometryDirective::Position, stored));
                assert forall|i: int| 0 <= i < after.positions.len() implies declared_in(
                    lines,
                    GeometryDirective::Position,
                    #[trigger] after.positions[i],
                ) by {
                    if i < before.positions.len() {
                        assert(after.positions[i] == before.positions[i]);
                    }
                }
            },
            GeometryDirective::Normal => {
                let stored = after.normals.last();
                assert(declares(lines[lines.len() - 1], GeometryDirective::Normal, stored));
                assert forall|i: int| 0 <= i < after.normals.len() implies declared_in(
                    lines,
                    GeometryDirective::Normal,
                    #[trigger] after.normals[i],
                ) by {
                    if i < before.normals.len() {
                        assert(after.normals[i] == before.normals[i]);
                    }
                }
            },
            GeometryDirective::UseMaterial => {},
            GeometryDirective::Face => {
                let corners = fan(corners_of(line.text@)->Ok_0);
                let color = color_of(colors, before.active);
                let added = vertices_of(corners, before.positions, before.normals, color)->Ok_0;
                lemma_vertices_pointwise(corners, before.positions, before.normals, color);
                assert forall|k: int| 0 <= k < after.elements.len() implies {
                    &&& declared_in(
                        lines,
                        GeometryDirective::Position,
                        (#[trigger] after.elements[k]).position,
                    )
                    &&& declared_in(lines, GeometryDirective::Normal, after.elements[k].normal)
                    &&& colors.values().contains(after.elements[k].color)
                } by {
                    if k < before.elements.len() {
                        assert(after.elements[k] == before.elements[k]);
                    } else {
                        let n = k - before.elements.len();
                        assert(after.elements[k] == added[n]);
                        assert(vertex_of(corners[n], before.positions, before.normals, color)
                            == Ok::<Element, LoadError>(added[n]));
                        assert(added[n].position == before.positions[corners[n].v as int]);
                        assert(added[n].normal == before.normals[corners[n].vn as int]);
                        assert(colors.contains_key(before.active));
                        assert(added[n].color == colors[before.active]);
                    }
                }
            },
            GeometryDirective::Other => {},
        }
    }
}

/// Every vertex that a load puts out has the position of a position line and
/// the normal of a normal line of the file, each with its first component
/// negated and its second and third as the line gave them, and a colour of
/// the material table.
pub proof fn law_vertices_from_declarations(
    lines: Seq<SourceLine>,
    colors: Map<Seq<u8>, [u32; 3]>,
    k: int,
)
    requires
        elements_of(lines, colors) is Ok,
        0 <= k < elements_of(lines, colors)->Ok_0.len(),
    ensures
        declared_in(
            lines,
            GeometryDirective::Position,
            elements_of(lines, colors)->Ok_0[k].position,
        ),
        declared_in(lines, GeometryDirective::Normal, elements_of(lines, colors)->Ok_0[k].normal),
        colors.values().contains(elements_of(lines, colors)->Ok_0[k].color),
{
    lemma_traced(lines, colors);
}

} // verus!
