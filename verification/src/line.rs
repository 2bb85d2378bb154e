use vstd::prelude::*;
use vstd::slice::slice_to_vec;
use crate::scan::{find_next_space, skip_spaces, word_end, SPACE};

verus! {

/// One line of a file, without its line ending, together with the values of
/// its numeric fields.
///
/// `values` matters only on a line that carries three numeric fields (see
/// `material_fields` and `geometry_fields`). There it holds the bit patterns
/// of the three numbers, or `None` when one of the fields is no number. The
/// library takes the values as they are given: whoever builds the line
/// decodes the fields.
#[derive(Debug, PartialEq, Eq)]
pub struct SourceLine {
    pub text: Vec<u8>,
    pub values: Option<[u32; 3]>,
}

impl Clone for SourceLine {
    fn clone(&self) -> (r: Self)
        ensures
            r.text@ == self.text@,
            r.values == self.values,
    {
        SourceLine { text: slice_to_vec(self.text.as_slice()), values: self.values }
    }
}

/// What a line of a material file asks for.
#[derive(Clone, Copy, Debug, PartialEq, Eq, Structural)]
pub enum MaterialDirective {
    /// `newmtl`: declares a material and makes it the active one.
    Declare,
    /// `Kd`: gives the active material its diffuse colour.
    Diffuse,
    /// Anything else; the line is passed over.
    Other,
}

/// What a line of a geometry file asks for.
#[derive(Clone, Copy, Debug, PartialEq, Eq, Structural)]
pub enum GeometryDirective {
    /// `v `: declares a position.
    Position,
    /// `vn`: declares a normal.
    Normal,
    /// `usemtl`: makes a material the active one.
    UseMaterial,
    /// `f `: a polygon.
    Face,
    /// Anything else; the line is passed over.
    Other,
}

/// The bytes of `newmtl`.
pub open spec fn newmtl() -> Seq<u8> {
    seq![110u8, 101u8, 119u8, 109u8, 116u8, 108u8]
}

/// The bytes of `usemtl`.
pub open spec fn usemtl() -> Seq<u8> {
    seq![117u8, 115u8, 101u8, 109u8, 116u8, 108u8]
}

/// The bytes of `Kd`.
pub open spec fn kd() -> Seq<u8> {
    seq![75u8, 100u8]
}

/// The bytes of `v `.
pub open spec fn v_space() -> Seq<u8> {
    seq![118u8, SPACE]
}

/// The bytes of `vn`.
pub open spec fn vn() -> Seq<u8> {
    seq![118u8, 110u8]
}

/// The bytes of `f `.
pub open spec fn f_space() -> Seq<u8> {
    seq![102u8, SPACE]
}

/// Whether `line` starts with `word` and goes on for at least one byte more.
pub open spec fn opens_with(line: Seq<u8>, word: Seq<u8>) -> bool {
    line.len() > word.len() && line.take(word.len() as int) == word
}

/// Whether `line` starts with `word`.
pub open spec fn starts_with(line: Seq<u8>, word: Seq<u8>) -> bool {
    line.len() >= word.len() && line.take(word.len() as int) == word
}

/// The directive of a line of a material file. A directive is recognised
/// only on a line that is longer than the directive itself.
pub open spec fn material_directive_of(line: Seq<u8>) -> MaterialDirective {
    if opens_with(line, newmtl()) {
        MaterialDirective::Declare
    } else if opens_with(line, kd()) {
        MaterialDirective::Diffuse
    } else {
        MaterialDirective::Other
    }
}

/// The directive of a line of a geometry file. The four directives are tried
/// in the order position, normal, material, face.
pub open spec fn geometry_directive_of(line: Seq<u8>) -> GeometryDirective {
    if starts_with(line, v_space()) {
        GeometryDirective::Position
    } else if starts_with(line, vn()) {
        GeometryDirective::Normal
    } else if opens_with(line, usemtl()) {
        GeometryDirective::UseMaterial
    } else if starts_with(line, f_space()) {
        GeometryDirective::Face
    } else {
        GeometryDirective::Other
    }
}

/// The material name on a `newmtl` or `usemtl` line: what follows the
/// directive and one more byte. It may be empty.
pub open spec fn material_name_of(line: Seq<u8>) -> Seq<u8> {
    if line.len() >= 7 {
        line.skip(7)
    } else {
        Seq::empty()
    }
}

/// Where the three numeric fields of `line` stand when the first is looked
/// for from `from` on: three words in a row, each found as `find_next_space`
/// finds it. A field that the line is too short for is empty and stands at
/// the end of the line.
pub open spec fn fields_from(line: Seq<u8>, from: int) -> [(usize, usize); 3] {
    let from = if from <= line.len() {
        from
    } else {
        line.len() as int
    };
    let s0 = skip_spaces(line, from);
    let e0 = word_end(line, s0);
    let s1 = skip_spaces(line, e0);
    let e1 = word_end(line, s1);
    let s2 = skip_spaces(line, e1);
    let e2 = word_end(line, s2);
    [(s0 as usize, e0 as usize), (s1 as usize, e1 as usize), (s2 as usize, e2 as usize)]
}

/// Whether three fields follow each other, each inside a line of `len` bytes.
pub open spec fn in_order(fields: [(usize, usize); 3], len: nat) -> bool {
    fields[0].0 <= fields[0].1 <= fields[1].0 <= fields[1].1 <= fields[2].0 <= fields[2].1 <= len
}

/// Where the numeric fields of a line of a material file stand, if it
/// carries any: those of a `Kd` line, looked for behind the directive and one
/// more byte.
pub open spec fn material_fields_of(line: Seq<u8>) -> Option<[(usize, usize); 3]> {
    match material_directive_of(line) {
        MaterialDirective::Diffuse => Some(fields_from(line, 3)),
        _ => None,
    }
}

/// Where the numeric fields of a line of a geometry file stand, if it carries
/// any: those of a position line, looked for behind the two bytes of its
/// directive, and those of a normal line, looked for behind its directive and
/// one more byte.
pub open spec fn geometry_fields_of(line: Seq<u8>) -> Option<[(usize, usize); 3]> {
    match geometry_directive_of(line) {
        GeometryDirective::Position => Some(fields_from(line, 2)),
        GeometryDirective::Normal => Some(fields_from(line, 3)),
        _ => None,
    }
}

/// Whether `line` holds the bytes of `word` from its start on.
fn has_prefix(line: &[u8], word: &[u8]) -> (r: bool)
    ensures
        r == starts_with(line@, word@),
{
    if line.len() < word.len() {
        return false;
    }
    let mut i: usize = 0;
    while i < word.len()
        invariant
            i <= word.len() <= line.len(),
            forall|k: int| 0 <= k < i ==> line@[k] == word@[k],
        decreases word.len() - i,
    {
        if line[i] != word[i] {
            assert(line@.take(word.len() as int)[i as int] != word@[i as int]);
            return false;
        }
        i += 1;
    }
    assert(line@.take(word.len() as int) =~= word@);
    true
}

/// Tells what a line of a material file asks for.
pub fn material_directive(line: &[u8]) -> (r: MaterialDirective)
    ensures
        r == material_directive_of(line@),
{
    let newmtl_word: [u8; 6] = [110, 101, 119, 109, 116, 108];
    let kd_word: [u8; 2] = [75, 100];
    assert(newmtl_word@ =~= newmtl());
    assert(kd_word@ =~= kd());
    if line.len() > 6 && has_prefix(line, newmtl_word.as_slice()) {
        MaterialDirective::Declare
    } else if line.len() > 2 && has_prefix(line, kd_word.as_slice()) {
        MaterialDirective::Diffuse
    } else {
        MaterialDirective::Other
    }
}

/// Tells what a line of a geometry file asks for.
pub fn geometry_directive(line: &[u8]) -> (r: GeometryDirective)
    ensures
        r == geometry_directive_of(line@),
{
    let v_word: [u8; 2] = [118, SPACE];
    let vn_word: [u8; 2] = [118, 110];
    let usemtl_word: [u8; 6] = [117, 115, 101, 109, 116, 108];
    let f_word: [u8; 2] = [102, SPACE];
    assert(v_word@ =~= v_space());
    assert(vn_word@ =~= vn());
    assert(usemtl_word@ =~= usemtl());
    assert(f_word@ =~= f_space());
    if has_prefix(line, v_word.as_slice()) {
        GeometryDirective::Position
    } else if has_prefix(line, vn_word.as_slice()) {
        GeometryDirective::Normal
    } else if line.len() > 6 && has_prefix(line, usemtl_word.as_slice()) {
        GeometryDirective::UseMaterial
    } else if has_prefix(line, f_word.as_slice()) {
        GeometryDirective::Face
    } else {
        GeometryDirective::Other
    }
}

/// Copies the material name out of a `newmtl` or `usemtl` line.
pub fn material_name(line: &[u8]) -> (r: Vec<u8>)
    ensures
        r@ == material_name_of(line@),
{
    let mut name: Vec<u8> = Vec::new();
    let mut i: usize = 7;
    if line.len() <= 7 {
        assert(name@ =~= material_name_of(line@));
        return name;
    }
    while i < line.len()
        invariant
            7 <= i <= line.len(),
            name@ == line@.subrange(7, i as int),
        decreases line.len() - i,
    {
        name.push(line[i]);
        assert(name@ =~= line@.subrange(7, i + 1));
        i += 1;
    }
    assert(name@ =~= material_name_of(line@));
    name
}

/// Finds the three numeric fields of `line`, the first looked for from
/// `from` on. Each field lies inside the line.
pub fn numeric_fields(line: &[u8], from: usize) -> (r: [(usize, usize); 3])
    ensures
        r == fields_from(line@, from as int),
        in_order(r, line@.len()),
{
    let from = if from <= line.len() {
        from
    } else {
        line.len()
    };
    let first = find_next_space(from, line);
    let second = find_next_space(first.1, line);
    let third = find_next_space(second.1, line);
    [first, second, third]
}

/// Finds the numeric fields of a line of a material file, if it carries any.
pub fn material_fields(line: &[u8]) -> (r: Option<[(usize, usize); 3]>)
    ensures
        r == material_fields_of(line@),
        r matches Some(f) ==> in_order(f, line@.len()),
{
    match material_directive(line) {
        MaterialDirective::Diffuse => Some(numeric_fields(line, 3)),
        _ => None,
    }
}

/// Finds the numeric fields of a line of a geometry file, if it carries any.
pub fn geometry_fields(line: &[u8]) -> (r: Option<[(usize, usize); 3]>)
    ensures
        r == geometry_fields_of(line@),
        r matches Some(f) ==> in_order(f, line@.len()),
{
    match geometry_directive(line) {
        GeometryDirective::Position => Some(numeric_fields(line, 2)),
        GeometryDirective::Normal => Some(numeric_fields(line, 3)),
        _ => None,
    }
}

} // verus!
