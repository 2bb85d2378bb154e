use vstd::prelude::*;
use vstd::slice::slice_subrange;
use crate::error::LoadError;
use crate::number::{index_of_field, parse_index};
use crate::scan::{
    find_next_slash, index_end, lemma_index_end, lemma_skip_spaces, scan_index, skip_slash,
    skip_spaces, SLASH, SPACE,
};

verus! {

/// One corner of a polygon: where its position, its texture coordinate and its
/// normal stand in the lists read so far, counted from zero. The texture index
/// is read and never followed.
#[derive(Clone, Copy, Debug, PartialEq, Eq)]
pub struct Corner {
    pub v: usize,
    pub vt: usize,
    pub vn: usize,
}

/// The bytes of a field; a field that ends where it starts is empty, wherever
/// that is.
pub open spec fn field(line: Seq<u8>, start: int, end: int) -> Seq<u8> {
    if start < end {
        line.subrange(start, end)
    } else {
        Seq::empty()
    }
}

/// Where the second index field of the corner at `p` starts.
pub open spec fn second_start(line: Seq<u8>, p: int) -> int {
    skip_slash(line, index_end(line, p))
}

/// Where the third index field of the corner at `p` starts.
pub open spec fn third_start(line: Seq<u8>, p: int) -> int {
    skip_slash(line, index_end(line, second_start(line, p)))
}

/// Where the corner at `p` ends: the end of its third index field.
pub open spec fn corner_end(line: Seq<u8>, p: int) -> int {
    index_end(line, third_start(line, p))
}

/// The corner written at `p`. Its first field runs from `p` to the next slash
/// or space; the second and the third each step over one slash first. The
/// first field that cannot be read decides the error.
pub open spec fn corner_at(line: Seq<u8>, p: int) -> Result<Corner, LoadError> {
    let s1 = second_start(line, p);
    let s2 = third_start(line, p);
    match index_of_field(field(line, p, index_end(line, p))) {
        Err(e) => Err(e),
        Ok(v) => match index_of_field(field(line, s1, index_end(line, s1))) {
            Err(e) => Err(e),
            Ok(vt) => match index_of_field(field(line, s2, index_end(line, s2))) {
                Err(e) => Err(e),
                Ok(vn) => Ok(Corner { v, vt, vn }),
            },
        },
    }
}

/// A corner that starts inside the line, on a byte that is no space, ends
/// further on and inside the line.
pub proof fn lemma_corner_advances(line: Seq<u8>, p: int)
    requires
        0 <= p < line.len(),
        line[p] != SPACE,
    ensures
        p < corner_end(line, p) <= line.len(),
        p <= index_end(line, p) <= second_start(line, p) <= index_end(line, second_start(line, p))
            <= third_start(line, p) <= corner_end(line, p),
{
    lemma_index_end(line, p);
    lemma_index_end(line, second_start(line, p));
    lemma_index_end(line, third_start(line, p));
    if line[p] != SLASH {
        assert(index_end(line, p) == index_end(line, p + 1));
        lemma_index_end(line, p + 1);
    }
}

/// The corners written in `line` from `p` on, in order. Runs of spaces between
/// them are stepped over. The first corner that cannot be read decides the
/// error.
pub open spec fn corners_from(line: Seq<u8>, p: int) -> Result<Seq<Corner>, LoadError>
    decreases line.len() - p,
    when 0 <= p
    via corners_from_decreases
{
    let s = skip_spaces(line, p);
    if s >= line.len() {
        Ok(Seq::empty())
    } else {
        match corner_at(line, s) {
            Err(e) => Err(e),
            Ok(c) => match corners_from(line, corner_end(line, s)) {
                Err(e) => Err(e),
                Ok(rest) => Ok(seq![c] + rest),
            },
        }
    }
}

#[via_fn]
proof fn corners_from_decreases(line: Seq<u8>, p: int) {
    let s = skip_spaces(line, p);
    lemma_skip_spaces(line, p);
    if s < line.len() {
        lemma_corner_advances(line, s);
    }
}

/// The corners of a face line: all that follow its two-byte directive.
pub open spec fn corners_of(line: Seq<u8>) -> Result<Seq<Corner>, LoadError> {
    corners_from(line, 2)
}

/// Corners already read, followed by what the rest of the line gives.
pub open spec fn followed_by(read: Seq<Corner>, rest: Result<Seq<Corner>, LoadError>) -> Result<
    Seq<Corner>,
    LoadError,
> {
    match rest {
        Err(e) => Err(e),
        Ok(more) => Ok(read + more),
    }
}

/// Reads the field of `line` between `start` and `end` as an index.
fn parse_field(line: &[u8], start: usize, end: usize) -> (r: Result<usize, LoadError>)
    requires
        start < end ==> end <= line.len(),
    ensures
        r == index_of_field(field(line@, start as int, end as int)),
{
    if start < end {
        parse_index(slice_subrange(line, start, end))
    } else {
        Ok(0)
    }
}

/// Reads the corner written at `start` and returns it with the position
/// where it ends.
pub fn parse_corner(start: usize, line: &[u8]) -> (r: Result<(Corner, usize), LoadError>)
    ensures
        match corner_at(line@, start as int) {
            Ok(c) => r matches Ok((corner, end)) && corner == c && end == corner_end(
                line@,
                start as int,
            ),
            Err(e) => r matches Err(x) && x == e,
        },
{
    let first_end = scan_index(start, line);
    let second = find_next_slash(first_end, line);
    let third = find_next_slash(second.1, line);
    let v = match parse_field(line, start, first_end) {
        Ok(n) => n,
        Err(e) => {
            return Err(e);
        },
    };
    let vt = match parse_field(line, second.0, second.1) {
        Ok(n) => n,
        Err(e) => {
            return Err(e);
        },
    };
    let vn = match parse_field(line, third.0, third.1) {
        Ok(n) => n,
        Err(e) => {
            return Err(e);
        },
    };
    Ok((Corner { v, vt, vn }, third.1))
}

/// Reads the corners of a face line.
pub fn parse_face(line: &[u8]) -> (r: Result<Vec<Corner>, LoadError>)
    ensures
        match corners_of(line@) {
            Ok(cs) => r matches Ok(v) && v@ == cs,
            Err(e) => r matches Err(x) && x == e,
        },
{
    let mut corners: Vec<Corner> = Vec::new();
    let mut start: usize = 2;
    loop
        invariant
            2 <= start,
            corners_of(line@) == followed_by(corners@, corners_from(line@, start as int)),
        ensures
            start >= line.len(),
            corners_of(line@) == followed_by(corners@, corners_from(line@, start as int)),
        decreases line.len() - start,
    {
        let ghost before = start;
        while start < line.len() && line[start] == SPACE
            invariant
                before <= start,
                skip_spaces(line@, start as int) == skip_spaces(line@, before as int),
            decreases line.len() - start,
        {
            start += 1;
        }
        proof {
            lemma_skip_spaces(line@, before as int);
            lemma_skip_spaces(line@, start as int);
        }
        if start >= line.len() {
            break ;
        }
        assert(skip_spaces(line@, before as int) == start);
        proof {
            lemma_corner_advances(line@, start as int);
        }
        match parse_corner(start, line) {
            Err(e) => {
                return Err(e);
            },
            Ok((corner, end)) => {
                proof {
                    let rest = corners_from(line@, end as int);
                    if let Ok(more) = rest {
                        assert(corners@.push(corner) + more =~= corners@ + (seq![corner] + more));
                    }
                }
                corners.push(corner);
                start = end;
            },
        }
    }
    proof {
        lemma_skip_spaces(line@, start as int);
        assert(corners_from(line@, start as int) == Ok::<Seq<Corner>, LoadError>(Seq::empty()));
        assert(corners@ + Seq::<Corner>::empty() =~= corners@);
    }
    Ok(corners)
}

/// How many vertices the fan of a polygon with `n` corners has.
pub open spec fn fan_len(n: nat) -> nat {
    if n >= 3 {
        (3 * (n - 2)) as nat
    } else {
        0
    }
}

/// Which corner of the polygon the vertex at place `k` of its fan is. Triangle
/// `t` holds the corners 0, `t + 2` and `t + 1`, in that order.
pub open spec fn fan_corner(k: int) -> int {
    if k % 3 == 0 {
        0
    } else if k % 3 == 1 {
        k / 3 + 2
    } else {
        k / 3 + 1
    }
}

/// The triangle fan of a polygon around its first corner, as a flat list of
/// vertices. A polygon with fewer than three corners has an empty fan.
pub open spec fn fan<T>(polygon: Seq<T>) -> Seq<T> {
    Seq::new(fan_len(polygon.len()), |k: int| polygon[fan_corner(k)])
}

/// Cuts a polygon into its triangle fan.
pub fn triangulate(polygon: &[Corner]) -> (r: Vec<Corner>)
    ensures
        r@ == fan(polygon@),
{
    let mut out: Vec<Corner> = Vec::new();
    if polygon.len() < 3 {
        assert(out@ =~= fan(polygon@));
        return out;
    }
    let mut start: usize = 1;
    while start + 1 < polygon.len()
        invariant
            1 <= start < polygon.len(),
            polygon.len() >= 3,
            out@.len() == 3 * (start - 1),
            forall|k: int| 0 <= k < out@.len() ==> out@[k] == polygon@[fan_corner(k)],
        decreases polygon.len() - start,
    {
        let ghost base = out@.len() as int;
        out.push(polygon[0]);
        out.push(polygon[start + 1]);
        out.push(polygon[start]);
        proof {
            assert(base == 3 * (start - 1));
            assert(base % 3 == 0 && base / 3 == start - 1);
            assert((base + 1) % 3 == 1 && (base + 1) / 3 == start - 1);
            assert((base + 2) % 3 == 2 && (base + 2) / 3 == start - 1);
        }
        start += 1;
    }
    assert(out@ =~= fan(polygon@));
    out
}

/// The fan of a polygon with `n >= 3` corners has `3 * (n - 2)` vertices; a
/// polygon with fewer corners has none.
pub proof fn law_fan_len<T>(polygon: Seq<T>)
    ensures
        polygon.len() >= 3 ==> fan(polygon).len() == 3 * (polygon.len() - 2),
        polygon.len() < 3 ==> fan(polygon).len() == 0,
{
}

/// Triangle `t` of a fan is made of the corners 0, `t + 2` and `t + 1` of
/// the polygon, in that order.
pub proof fn law_fan_winding<T>(polygon: Seq<T>, t: int)
    requires
        0 <= t,
        t + 2 < polygon.len(),
    ensures
        3 * t + 2 < fan(polygon).len(),
        fan(polygon)[3 * t] == polygon[0],
        fan(polygon)[3 * t + 1] == polygon[t + 2],
        fan(polygon)[3 * t + 2] == polygon[t + 1],
{
    assert((3 * t) % 3 == 0 && (3 * t) / 3 == t);
    assert((3 * t + 1) % 3 == 1 && (3 * t + 1) / 3 == t);
    assert((3 * t + 2) % 3 == 2 && (3 * t + 2) / 3 == t);
}

} // verus!
