use vstd::prelude::*;
use vstd::utf8::*;

use super::text::{
    decode_chars, field_ranges, find_line_end, lemma_field_ranges_bounds, lemma_line_end, line_end,
    ranges_view, split_fields,
};
use super::{
    garment_geometry_is_well_formed, triangle_is_valid, GarmentAsset, GarmentImportError,
    GarmentSourceFormat,
};
use crate::math::Vec3;

verus! {

/// Geometry-only OBJ importer.
///
/// Vertex positions and polygon faces are normalized into an indexed triangle surface. Texture
/// coordinates, normals, material libraries, groups, and other rendering metadata are ignored;
/// they are not treated as simulation semantics.
///
/// Vertex coordinates are decimal text; their binary64 values are supplied by the caller as
/// `coordinates`, one entry per field listed by [`ObjGarmentImporter::coordinate_fields`], in that
/// order (`None` for a field that is not a number). Everything else — line structure, comments,
/// face indices, triangulation, and every validation — is decided here.
#[derive(Clone, Copy, Debug, Default)]
pub struct ObjGarmentImporter;

/// Parser state after a prefix of the source lines: the vertices and triangles read so far, and
/// how many coordinate values have been consumed.
pub ghost struct ObjParse {
    pub positions: Seq<Vec3>,
    pub triangles: Seq<[usize; 3]>,
    pub cursor: nat,
}

/// The decoded value of coordinate field `k`, if one was supplied.
pub open spec fn decoded_at(decoded: Seq<Option<u64>>, k: int) -> Option<u64> {
    if 0 <= k < decoded.len() {
        decoded[k]
    } else {
        None
    }
}

/// Field `r` of `s` is exactly the one character `c`.
pub open spec fn field_is(s: Seq<char>, r: (int, int), c: char) -> bool {
    r.1 == r.0 + 1 && s[r.0] == c
}

/// The value of coordinate `j` of a vertex line: missing fields and fields without a decoded
/// value give `None`.
pub open spec fn vertex_coordinate(
    fields: Seq<(int, int)>,
    decoded: Seq<Option<u64>>,
    cursor: nat,
    j: int,
) -> Option<u64> {
    if fields.len() > j + 1 {
        decoded_at(decoded, cursor + j)
    } else {
        None
    }
}

/// A `v` line: three coordinates, all present, numeric, and finite.
pub open spec fn vertex_step(
    fields: Seq<(int, int)>,
    decoded: Seq<Option<u64>>,
    st: ObjParse,
    line: int,
) -> Result<ObjParse, GarmentImportError> {
    let x = vertex_coordinate(fields, decoded, st.cursor, 0);
    let y = vertex_coordinate(fields, decoded, st.cursor, 1);
    let z = vertex_coordinate(fields, decoded, st.cursor, 2);
    if x is None || y is None || z is None {
        Err(GarmentImportError::InvalidVertex { line: line as usize })
    } else {
        let v = Vec3 { x: x->0, y: y->0, z: z->0 };
        if !v.spec_is_finite() {
            Err(GarmentImportError::NonFiniteVertex { line: line as usize })
        } else {
            Ok(
                ObjParse {
                    positions: st.positions.push(v),
                    triangles: st.triangles,
                    cursor: st.cursor + 3,
                },
            )
        }
    }
}

pub open spec fn is_digit(c: char) -> bool {
    48 <= (c as int) <= 57
}

pub open spec fn digit_value(c: char) -> int {
    (c as int) - 48
}

pub open spec fn all_digits(s: Seq<char>, a: int, b: int) -> bool {
    forall|k: int| a <= k < b ==> is_digit(#[trigger] s[k])
}

/// The decimal number written by the digits `s[a..b]`.
pub open spec fn decimal_value(s: Seq<char>, a: int, b: int) -> int
    decreases b - a,
{
    if b <= a {
        0
    } else {
        decimal_value(s, a, b - 1) * 10 + digit_value(s[b - 1])
    }
}

/// `i64::from_str` on `s[a..b]`: an optional `+` or `-` followed by one or more ASCII digits,
/// whose value lies in the `i64` range.
pub open spec fn parse_i64(s: Seq<char>, a: int, b: int) -> Option<int> {
    if a >= b {
        None
    } else if s[a] == '-' {
        if a + 1 < b && all_digits(s, a + 1, b) && decimal_value(s, a + 1, b) <= 0x8000_0000_0000_0000 {
            Some(-decimal_value(s, a + 1, b))
        } else {
            None
        }
    } else {
        let start = if s[a] == '+' {
            a + 1
        } else {
            a
        };
        if start < b && all_digits(s, start, b) && decimal_value(s, start, b)
            <= 0x7fff_ffff_ffff_ffff {
            Some(decimal_value(s, start, b))
        } else {
            None
        }
    }
}

/// First index in `[i, b)` holding `/`, or `b`.
pub open spec fn slash_end(s: Seq<char>, i: int, b: int) -> int
    decreases b - i,
{
    if i >= b {
        b
    } else if s[i] == '/' {
        i
    } else {
        slash_end(s, i + 1, b)
    }
}

/// One face token: its vertex reference (the part before any `/`) resolved against the
/// `vertex_count` vertices defined so far. Positive references are one-based; negative ones
/// count back from the latest vertex.
pub open spec fn face_index(s: Seq<char>, token: (int, int), vertex_count: int, line: int) -> Result<
    usize,
    GarmentImportError,
> {
    let end = slash_end(s, token.0, token.1);
    if end == token.0 {
        Err(GarmentImportError::InvalidFaceIndex { line: line as usize })
    } else {
        match parse_i64(s, token.0, end) {
            None => Err(GarmentImportError::InvalidFaceIndex { line: line as usize }),
            Some(v) => {
                if v == 0 {
                    Err(GarmentImportError::InvalidFaceIndex { line: line as usize })
                } else if v > 0 {
                    if v - 1 >= vertex_count {
                        Err(GarmentImportError::FaceIndexOutOfBounds { line: line as usize })
                    } else {
                        Ok((v - 1) as usize)
                    }
                } else {
                    if -v > vertex_count {
                        Err(GarmentImportError::FaceIndexOutOfBounds { line: line as usize })
                    } else {
                        Ok((vertex_count + v) as usize)
                    }
                }
            },
        }
    }
}

/// All face tokens resolved in order; the first failing token decides the error.
pub open spec fn resolve_face(
    s: Seq<char>,
    tokens: Seq<(int, int)>,
    vertex_count: int,
    line: int,
) -> Result<Seq<usize>, GarmentImportError>
    decreases tokens.len(),
{
    if tokens.len() == 0 {
        Ok(Seq::empty())
    } else {
        match resolve_face(s, tokens.drop_last(), vertex_count, line) {
            Err(e) => Err(e),
            Ok(prefix) => match face_index(s, tokens.last(), vertex_count, line) {
                Err(e) => Err(e),
                Ok(index) => Ok(prefix.push(index)),
            },
        }
    }
}

/// Fan triangulation of a polygon in source order: `[i0, i1, i2]`, `[i0, i2, i3]`, ...
pub open spec fn fan(indices: Seq<usize>) -> Seq<[usize; 3]> {
    Seq::new(
        (indices.len() - 2) as nat,
        |o: int| [indices[0], indices[o + 1], indices[o + 2]],
    )
}

/// A fan triangulation of a polygon of `n >= 3` corners has `n - 2` triangles, all sharing the
/// first corner, and covers the polygon's boundary: each side from corner `k` to corner `k + 1`,
/// and the closing side from the last corner back to the first, is a side of one of its
/// triangles, traversed in the polygon's own direction.
pub proof fn lemma_fan_covers_polygon_boundary(indices: Seq<usize>)
    requires
        indices.len() >= 3,
    ensures
        fan(indices).len() == indices.len() - 2,
        forall|o: int| 0 <= o < fan(indices).len() ==> (#[trigger] fan(indices)[o])[0] == indices[0],
        forall|k: int|
            #![trigger indices[k]]
            0 <= k < indices.len() - 1 ==> exists|o: int|
                0 <= o < fan(indices).len() && {
                    let t = #[trigger] fan(indices)[o];
                    ||| (t[0] == indices[k] && t[1] == indices[k + 1])
                    ||| (t[1] == indices[k] && t[2] == indices[k + 1])
                },
        exists|o: int|
            0 <= o < fan(indices).len() && (#[trigger] fan(indices)[o])[2]
                == indices[indices.len() - 1] && fan(indices)[o][0] == indices[0],
{
    let n = indices.len() as int;
    assert forall|k: int| #![trigger indices[k]] 0 <= k < n - 1 implies exists|o: int|
        0 <= o < fan(indices).len() && {
            let t = #[trigger] fan(indices)[o];
            ||| (t[0] == indices[k] && t[1] == indices[k + 1])
            ||| (t[1] == indices[k] && t[2] == indices[k + 1])
        } by {
        if k == 0 {
            assert(fan(indices)[0][0] == indices[0] && fan(indices)[0][1] == indices[1]);
        } else {
            let o = k - 1;
            assert(fan(indices)[o][1] == indices[k] && fan(indices)[o][2] == indices[k + 1]);
        }
    }
    let last = n - 3;
    assert(fan(indices)[last][2] == indices[n - 1] && fan(indices)[last][0] == indices[0]);
}

pub open spec fn has_distinct_corners(t: [usize; 3]) -> bool {
    t[0] != t[1] && t[1] != t[2] && t[0] != t[2]
}

/// An `f` line: every token resolves, there are at least three, and every fan triangle has three
/// distinct corners.
pub open spec fn face_step(s: Seq<char>, fields: Seq<(int, int)>, st: ObjParse, line: int) -> Result<
    ObjParse,
    GarmentImportError,
> {
    match resolve_face(s, fields.subrange(1, fields.len() as int), st.positions.len() as int, line) {
        Err(e) => Err(e),
        Ok(indices) => {
            if indices.len() < 3 {
                Err(GarmentImportError::InvalidFace { line: line as usize })
            } else if exists|o: int|
                0 <= o < fan(indices).len() && !has_distinct_corners(#[trigger] fan(indices)[o]) {
                Err(GarmentImportError::DegenerateFace { line: line as usize })
            } else {
                Ok(
                    ObjParse {
                        positions: st.positions,
                        triangles: st.triangles + fan(indices),
                        cursor: st.cursor,
                    },
                )
            }
        },
    }
}

/// One source line `s[p..e]` with one-based number `line`. Blank lines and `#` comments are
/// skipped, as are statements other than `v` and `f`.
pub open spec fn line_step(
    s: Seq<char>,
    p: int,
    e: int,
    line: int,
    decoded: Seq<Option<u64>>,
    st: ObjParse,
) -> Result<ObjParse, GarmentImportError> {
    let fields = field_ranges(s, p, e);
    if fields.len() == 0 || s[fields[0].0] == '#' {
        Ok(st)
    } else if field_is(s, fields[0], 'v') {
        vertex_step(fields, decoded, st, line)
    } else if field_is(s, fields[0], 'f') {
        face_step(s, fields, st, line)
    } else {
        Ok(st)
    }
}

/// Runs the lines that start at or after `p` (the `index`-th line, zero-based), as `str::lines`
/// yields them, stopping at the first error.
pub open spec fn obj_run(
    s: Seq<char>,
    decoded: Seq<Option<u64>>,
    p: nat,
    index: nat,
    st: ObjParse,
) -> Result<ObjParse, GarmentImportError>
    decreases s.len() + 1 - p,
{
    if p >= s.len() {
        Ok(st)
    } else {
        let e = line_end(s, p as int);
        proof {
            lemma_line_end(s, p as int);
        }
        match line_step(s, p as int, e, index + 1 as int, decoded, st) {
            Err(error) => Err(error),
            Ok(next) => obj_run(s, decoded, (e + 1) as nat, index + 1, next),
        }
    }
}

pub open spec fn obj_start() -> ObjParse {
    ObjParse { positions: Seq::empty(), triangles: Seq::empty(), cursor: 0 }
}

/// The OBJ document in `s`, given the decoded coordinate values.
pub open spec fn obj_document(s: Seq<char>, decoded: Seq<Option<u64>>) -> Result<
    (Seq<Vec3>, Seq<[usize; 3]>),
    GarmentImportError,
> {
    match obj_run(s, decoded, 0, 0, obj_start()) {
        Err(e) => Err(e),
        Ok(st) => {
            if st.positions.len() == 0 {
                Err(GarmentImportError::MissingVertices)
            } else if st.triangles.len() == 0 {
                Err(GarmentImportError::MissingTriangles)
            } else {
                Ok((st.positions, st.triangles))
            }
        },
    }
}

/// The result of importing `bytes` as OBJ, given the decoded coordinate values.
pub open spec fn obj_import(bytes: Seq<u8>, decoded: Seq<Option<u64>>) -> Result<
    (Seq<Vec3>, Seq<[usize; 3]>),
    GarmentImportError,
> {
    if !valid_utf8(bytes) {
        Err(GarmentImportError::InvalidUtf8)
    } else {
        obj_document(decode_utf8(bytes), decoded)
    }
}

/// The coordinate fields of the vertex lines at or after `p`: up to the first three fields after
/// each `v`, in source order.
pub open spec fn coordinate_ranges(s: Seq<char>, p: nat) -> Seq<(int, int)>
    decreases s.len() + 1 - p,
{
    if p >= s.len() {
        Seq::empty()
    } else {
        let e = line_end(s, p as int);
        proof {
            lemma_line_end(s, p as int);
        }
        let fields = field_ranges(s, p as int, e);
        let here = if fields.len() > 0 && field_is(s, fields[0], 'v') {
            fields.subrange(1, if fields.len() > 4 { 4 } else { fields.len() as int })
        } else {
            Seq::empty()
        };
        here + coordinate_ranges(s, (e + 1) as nat)
    }
}

/// The texts of the coordinate fields of `bytes`, which must be UTF-8.
pub open spec fn coordinate_texts(bytes: Seq<u8>) -> Seq<Seq<char>> {
    let s = decode_utf8(bytes);
    coordinate_ranges(s, 0).map_values(|r: (int, int)| s.subrange(r.0, r.1))
}

/// The state of the exec parser, as a spec value.
pub open spec fn parse_state(positions: Seq<Vec3>, triangles: Seq<[usize; 3]>, cursor: usize) -> ObjParse {
    ObjParse { positions, triangles, cursor: cursor as nat }
}

/// Positions are finite and triangles address existing, distinct vertices.
pub open spec fn partial_geometry_ok(positions: Seq<Vec3>, triangles: Seq<[usize; 3]>) -> bool {
    &&& forall|i: int| 0 <= i < positions.len() ==> (#[trigger] positions[i]).spec_is_finite()
    &&& forall|t: int|
        0 <= t < triangles.len() ==> triangle_is_valid(#[trigger] triangles[t], positions.len() as int)
}

proof fn lemma_decimal_value_monotone(s: Seq<char>, a: int, j: int, b: int)
    requires
        a <= j <= b,
        all_digits(s, a, b),
    ensures
        0 <= decimal_value(s, a, j) <= decimal_value(s, a, b),
    decreases b - j,
{
    if j < b {
        lemma_decimal_value_monotone(s, a, j, b - 1);
        assert(is_digit(s[b - 1]));
    } else {
        lemma_decimal_value_nonneg(s, a, b);
    }
}

proof fn lemma_decimal_value_nonneg(s: Seq<char>, a: int, b: int)
    requires
        all_digits(s, a, b),
    ensures
        0 <= decimal_value(s, a, b),
    decreases b - a,
{
    if b > a {
        lemma_decimal_value_nonneg(s, a, b - 1);
        assert(is_digit(s[b - 1]));
    }
}

/// Decimal digits `s[start..end]` as a value no larger than `limit`, or `None`.
fn parse_digits(s: &Vec<char>, start: usize, end: usize, limit: u64) -> (value: Option<u64>)
    requires
        start <= end <= s@.len(),
    ensures
        value is Some <==> (start < end && all_digits(s@, start as int, end as int)
            && decimal_value(s@, start as int, end as int) <= limit),
        value matches Some(v) ==> v == decimal_value(s@, start as int, end as int),
{
    if start >= end {
        return None;
    }
    let mut acc: u64 = 0;
    let mut k = start;
    while k < end
        invariant
            start <= k <= end <= s@.len(),
            all_digits(s@, start as int, k as int),
            acc == decimal_value(s@, start as int, k as int),
        decreases end - k,
    {
        let c = s[k];
        if !('0' <= c && c <= '9') {
            assert(!all_digits(s@, start as int, end as int));
            return None;
        }
        let digit = (c as u32 - '0' as u32) as u64;
        assert(decimal_value(s@, start as int, k + 1) == acc * 10 + digit);
        match acc.checked_mul(10) {
            None => {
                proof {
                    if all_digits(s@, start as int, end as int) {
                        lemma_decimal_value_monotone(s@, start as int, k + 1, end as int);
                    }
                }
                return None;
            },
            Some(scaled) => match scaled.checked_add(digit) {
                None => {
                    proof {
                        if all_digits(s@, start as int, end as int) {
                            lemma_decimal_value_monotone(s@, start as int, k + 1, end as int);
                        }
                    }
                    return None;
                },
                Some(next) => {
                    acc = next;
                },
            },
        }
        k = k + 1;
    }
    if acc > limit {
        None
    } else {
        Some(acc)
    }
}

/// `i64::from_str` on `s[a..b]`, returned as sign and magnitude.
fn parse_signed(s: &Vec<char>, a: usize, b: usize) -> (parsed: Option<(bool, u64)>)
    requires
        a <= b <= s@.len(),
    ensures
        parsed is Some <==> parse_i64(s@, a as int, b as int) is Some,
        parsed matches Some((negative, magnitude)) ==> parse_i64(s@, a as int, b as int) == Some(
            if negative {
                -(magnitude as int)
            } else {
                magnitude as int
            },
        ),
{
    if a >= b {
        return None;
    }
    if s[a] == '-' {
        match parse_digits(s, a + 1, b, 0x8000_0000_0000_0000) {
            None => None,
            Some(m) => Some((true, m)),
        }
    } else {
        let start = if s[a] == '+' {
            a + 1
        } else {
            a
        };
        match parse_digits(s, start, b, 0x7fff_ffff_ffff_ffff) {
            None => None,
            Some(m) => Some((false, m)),
        }
    }
}

/// Resolves one face token `s[a..b]` against `vertex_count` vertices.
fn resolve_face_index(s: &Vec<char>, a: usize, b: usize, vertex_count: usize, line: usize) -> (index:
    Result<usize, GarmentImportError>)
    requires
        a <= b <= s@.len(),
    ensures
        index == face_index(s@, (a as int, b as int), vertex_count as int, line as int),
        index matches Ok(i) ==> i < vertex_count,
{
    let mut end = a;
    while end < b && s[end] != '/'
        invariant
            a <= end <= b <= s@.len(),
            slash_end(s@, a as int, b as int) == slash_end(s@, end as int, b as int),
        decreases b - end,
    {
        end = end + 1;
    }
    if end == a {
        return Err(GarmentImportError::InvalidFaceIndex { line });
    }
    match parse_signed(s, a, end) {
        None => Err(GarmentImportError::InvalidFaceIndex { line }),
        Some((negative, magnitude)) => {
            if magnitude == 0 {
                Err(GarmentImportError::InvalidFaceIndex { line })
            } else if !negative {
                if magnitude - 1 >= vertex_count as u64 {
                    Err(GarmentImportError::FaceIndexOutOfBounds { line })
                } else {
                    Ok((magnitude - 1) as usize)
                }
            } else {
                if magnitude > vertex_count as u64 {
                    Err(GarmentImportError::FaceIndexOutOfBounds { line })
                } else {
                    Ok(vertex_count - magnitude as usize)
                }
            }
        },
    }
}

proof fn lemma_resolve_face_error_persists(
    s: Seq<char>,
    tokens: Seq<(int, int)>,
    k: int,
    vertex_count: int,
    line: int,
)
    requires
        0 <= k <= tokens.len(),
        resolve_face(s, tokens.take(k), vertex_count, line) is Err,
    ensures
        resolve_face(s, tokens, vertex_count, line) == resolve_face(
            s,
            tokens.take(k),
            vertex_count,
            line,
        ),
    decreases tokens.len() - k,
{
    if k < tokens.len() {
        let next = tokens.take(k + 1);
        assert(next.drop_last() =~= tokens.take(k));
        lemma_resolve_face_error_persists(s, tokens, k + 1, vertex_count, line);
    } else {
        assert(tokens.take(k) =~= tokens);
    }
}

impl ObjGarmentImporter {
    /// The format this importer produces.
    pub fn source_format(&self) -> (format: GarmentSourceFormat)
        ensures
            format == GarmentSourceFormat::Obj,
    {
        GarmentSourceFormat::Obj
    }

    /// Handles one `v` line whose fields are `fields` (the first one is `v`).
    fn read_vertex(
        fields: &Vec<(usize, usize)>,
        coordinates: &[Option<u64>],
        line: usize,
        positions: &mut Vec<Vec3>,
        triangles: &Vec<[usize; 3]>,
        cursor: &mut usize,
    ) -> (result: Result<(), GarmentImportError>)
        requires
            *old(cursor) <= coordinates@.len(),
            fields@.len() >= 1,
            partial_geometry_ok(old(positions)@, triangles@),
        ensures
            result matches Ok(_) ==> vertex_step(
                ranges_view(fields@),
                coordinates@,
                parse_state(old(positions)@, triangles@, *old(cursor)),
                line as int,
            ) == Ok::<ObjParse, GarmentImportError>(parse_state(final(positions)@, triangles@, *final(cursor))),
            result matches Err(e) ==> vertex_step(
                ranges_view(fields@),
                coordinates@,
                parse_state(old(positions)@, triangles@, *old(cursor)),
                line as int,
            ) == Err::<ObjParse, GarmentImportError>(e),
            *final(cursor) <= coordinates@.len(),
            partial_geometry_ok(final(positions)@, triangles@),
    {
        let ghost f = ranges_view(fields@);
        let start = *cursor;
        let available = coordinates.len() - start;
        let mut values: [u64; 3] = [0, 0, 0];
        let mut j: usize = 0;
        while j < 3
            invariant
                j <= 3,
                start == *old(cursor),
                *cursor == start,
                positions@ == old(positions)@,
                partial_geometry_ok(positions@, triangles@),
                start + available == coordinates@.len(),
                coordinates@.len() <= usize::MAX,
                f == ranges_view(fields@),
                f.len() == fields@.len(),
                forall|i: int|
                    0 <= i < j ==> vertex_coordinate(f, coordinates@, start as nat, i) == Some(
                        #[trigger] values[i],
                    ),
            decreases 3 - j,
        {
            if fields.len() <= j + 1 || j >= available {
                return Err(GarmentImportError::InvalidVertex { line });
            }
            let position_in_list = start + j;
            match coordinates[position_in_list] {
                None => {
                    return Err(GarmentImportError::InvalidVertex { line });
                },
                Some(v) => {
                    values[j] = v;
                },
            }
            j = j + 1;
        }
        let position = Vec3 { x: values[0], y: values[1], z: values[2] };
        assert(vertex_coordinate(f, coordinates@, start as nat, 0) == Some(values[0]));
        assert(vertex_coordinate(f, coordinates@, start as nat, 1) == Some(values[1]));
        assert(vertex_coordinate(f, coordinates@, start as nat, 2) == Some(values[2]));
        if !position.is_finite() {
            return Err(GarmentImportError::NonFiniteVertex { line });
        }
        positions.push(position);
        *cursor = start + 3;
        proof {
            assert forall|t: int| 0 <= t < triangles@.len() implies triangle_is_valid(
                #[trigger] triangles@[t],
                positions@.len() as int,
            ) by {
                assert(triangle_is_valid(triangles@[t], old(positions)@.len() as int));
            }
            assert forall|i: int| 0 <= i < positions@.len() implies (
            #[trigger] positions@[i]).spec_is_finite() by {
                if i < old(positions)@.len() {
                    assert(positions@[i] == old(positions)@[i]);
                }
            }
        }
        Ok(())
    }

    /// Handles one `f` line whose fields are `fields` (the first one is `f`).
    fn read_face(
        s: &Vec<char>,
        fields: &Vec<(usize, usize)>,
        line: usize,
        positions: &Vec<Vec3>,
        triangles: &mut Vec<[usize; 3]>,
        cursor: usize,
    ) -> (result: Result<(), GarmentImportError>)
        requires
            fields@.len() >= 1,
            forall|k: int|
                0 <= k < fields@.len() ==> (#[trigger] fields@[k]).0 <= fields@[k].1 <= s@.len(),
            partial_geometry_ok(positions@, old(triangles)@),
        ensures
            result matches Ok(_) ==> face_step(
                s@,
                ranges_view(fields@),
                parse_state(positions@, old(triangles)@, cursor),
                line as int,
            ) == Ok::<ObjParse, GarmentImportError>(parse_state(positions@, final(triangles)@, cursor)),
            result matches Err(e) ==> face_step(
                s@,
                ranges_view(fields@),
                parse_state(positions@, old(triangles)@, cursor),
                line as int,
            ) == Err::<ObjParse, GarmentImportError>(e),
            partial_geometry_ok(positions@, final(triangles)@),
    {
        let ghost f = ranges_view(fields@);
        let ghost tokens = f.subrange(1, f.len() as int);
        let ghost vc = positions@.len() as int;
        let mut indices: Vec<usize> = Vec::new();
        let mut k: usize = 1;
        assert(tokens.take(0) =~= Seq::<(int, int)>::empty());
        while k < fields.len()
            invariant
                1 <= k <= fields@.len(),
                f == ranges_view(fields@),
                tokens == f.subrange(1, f.len() as int),
                vc == positions@.len(),
                triangles@ == old(triangles)@,
                partial_geometry_ok(positions@, triangles@),
                forall|q: int|
                    0 <= q < fields@.len() ==> (#[trigger] fields@[q]).0 <= fields@[q].1 <= s@.len(),
                resolve_face(s@, tokens.take(k - 1), vc, line as int) == Ok::<
                    Seq<usize>,
                    GarmentImportError,
                >(indices@),
                forall|q: int| 0 <= q < indices@.len() ==> #[trigger] indices@[q] < vc,
            decreases fields@.len() - k,
        {
            let (a, b) = fields[k];
            let resolved = resolve_face_index(s, a, b, positions.len(), line);
            proof {
                let next = tokens.take(k as int);
                assert(next.drop_last() =~= tokens.take(k - 1));
                assert(next.last() == (a as int, b as int));
            }
            match resolved {
                Err(e) => {
                    proof {
                        lemma_resolve_face_error_persists(s@, tokens, k as int, vc, line as int);
                    }
                    return Err(e);
                },
                Ok(index) => {
                    indices.push(index);
                },
            }
            k = k + 1;
        }
        assert(tokens.take(k - 1) =~= tokens);
        if indices.len() < 3 {
            return Err(GarmentImportError::InvalidFace { line });
        }
        let ghost polygon = fan(indices@);
        let mut fanned: Vec<[usize; 3]> = Vec::new();
        let mut o: usize = 0;
        while o + 2 < indices.len()
            invariant
                indices@.len() >= 3,
                indices@.len() <= usize::MAX,
                polygon == fan(indices@),
                resolve_face(s@, tokens, vc, line as int) == Ok::<Seq<usize>, GarmentImportError>(
                    indices@,
                ),
                tokens == ranges_view(fields@).subrange(1, fields@.len() as int),
                vc == positions@.len(),
                triangles@ == old(triangles)@,
                partial_geometry_ok(positions@, triangles@),
                o <= indices@.len() - 2,
                fanned@ == polygon.take(o as int),
                forall|q: int| 0 <= q < o ==> has_distinct_corners(#[trigger] polygon[q]),
            decreases indices@.len() - o,
        {
            let triangle = [indices[0], indices[o + 1], indices[o + 2]];
            assert(triangle == polygon[o as int]);
            if triangle[0] == triangle[1] || triangle[1] == triangle[2] || triangle[0]
                == triangle[2] {
                assert(!has_distinct_corners(polygon[o as int]));
                return Err(GarmentImportError::DegenerateFace { line });
            }
            fanned.push(triangle);
            assert(fanned@ =~= polygon.take(o + 1));
            o = o + 1;
        }
        assert(fanned@ =~= polygon);
        let ghost before = triangles@;
        let mut q: usize = 0;
        while q < fanned.len()
            invariant
                q <= fanned@.len(),
                triangles@ == before + fanned@.take(q as int),
                partial_geometry_ok(positions@, before),
                fanned@ == fan(indices@),
                forall|r: int| 0 <= r < indices@.len() ==> #[trigger] indices@[r] < vc,
                vc == positions@.len(),
                forall|r: int| 0 <= r < fanned@.len() ==> has_distinct_corners(#[trigger] fanned@[r]),
            decreases fanned@.len() - q,
        {
            triangles.push(fanned[q]);
            assert(triangles@ =~= before + fanned@.take(q + 1));
            q = q + 1;
        }
        proof {
            assert(fanned@.take(q as int) =~= fanned@);
            assert forall|t: int| 0 <= t < triangles@.len() implies triangle_is_valid(
                #[trigger] triangles@[t],
                positions@.len() as int,
            ) by {
                if t < before.len() {
                    assert(triangles@[t] == before[t]);
                } else {
                    let r = t - before.len();
                    assert(triangles@[t] == fanned@[r]);
                    assert(has_distinct_corners(fanned@[r]));
                    assert(fanned@[r] == [indices@[0], indices@[r + 1], indices@[r + 2]]);
                    assert(indices@[0] < vc);
                    assert(indices@[r + 1] < vc);
                    assert(indices@[r + 2] < vc);
                }
            }
        }
        Ok(())
    }

    /// Handles the line `s[p..e]` with one-based number `line`.
    fn read_line(
        s: &Vec<char>,
        p: usize,
        e: usize,
        line: usize,
        coordinates: &[Option<u64>],
        positions: &mut Vec<Vec3>,
        triangles: &mut Vec<[usize; 3]>,
        cursor: &mut usize,
    ) -> (result: Result<(), GarmentImportError>)
        requires
            p <= e <= s@.len(),
            *old(cursor) <= coordinates@.len(),
            partial_geometry_ok(old(positions)@, old(triangles)@),
        ensures
            result matches Ok(_) ==> line_step(
                s@,
                p as int,
                e as int,
                line as int,
                coordinates@,
                parse_state(old(positions)@, old(triangles)@, *old(cursor)),
            ) == Ok::<ObjParse, GarmentImportError>(parse_state(final(positions)@, final(triangles)@, *final(cursor))),
            result matches Err(x) ==> line_step(
                s@,
                p as int,
                e as int,
                line as int,
                coordinates@,
                parse_state(old(positions)@, old(triangles)@, *old(cursor)),
            ) == Err::<ObjParse, GarmentImportError>(x),
            *final(cursor) <= coordinates@.len(),
            partial_geometry_ok(final(positions)@, final(triangles)@),
    {
        let fields = split_fields(s, p, e);
        proof {
            lemma_field_ranges_bounds(s@, p as int, e as int);
            assert forall|k: int| 0 <= k < fields@.len() implies (#[trigger] fields@[k]).0
                <= fields@[k].1 <= s@.len() by {
                assert(ranges_view(fields@)[k] == (fields@[k].0 as int, fields@[k].1 as int));
            }
        }
        if fields.len() == 0 {
            return Ok(());
        }
        let (a, b) = fields[0];
        assert(ranges_view(fields@)[0] == (a as int, b as int));
        if s[a] == '#' {
            return Ok(());
        }
        if b == a + 1 && s[a] == 'v' {
            Self::read_vertex(&fields, coordinates, line, positions, triangles, cursor)
        } else if b == a + 1 && s[a] == 'f' {
            Self::read_face(s, &fields, line, positions, triangles, *cursor)
        } else {
            Ok(())
        }
    }

    /// Lists the coordinate fields of `bytes`, in the order in which
    /// [`ObjGarmentImporter::import`] consumes their decoded values: for every `v` line, its first
    /// three fields after the `v`. Fails only when the bytes are not UTF-8.
    pub fn coordinate_fields(&self, bytes: &[u8]) -> (fields: Result<
        Vec<Vec<char>>,
        GarmentImportError,
    >)
        ensures
            fields is Err <==> !valid_utf8(bytes@),
            fields matches Err(e) ==> e == GarmentImportError::InvalidUtf8,
            fields matches Ok(list) ==> list@.len() == coordinate_texts(bytes@).len() && forall|
                k: int,
            |
                0 <= k < list@.len() ==> (#[trigger] list@[k])@ == coordinate_texts(bytes@)[k],
    {
        let s = match decode_chars(bytes) {
            None => {
                return Err(GarmentImportError::InvalidUtf8);
            },
            Some(chars) => chars,
        };
        let ghost all = coordinate_ranges(s@, 0);
        let mut out: Vec<Vec<char>> = Vec::new();
        let mut p: usize = 0;
        while p < s.len()
            invariant
                p <= s@.len(),
                s@ == decode_utf8(bytes@),
                all == coordinate_ranges(s@, 0),
                out@.len() + coordinate_ranges(s@, p as nat).len() == all.len(),
                forall|k: int|
                    0 <= k < out@.len() ==> (#[trigger] out@[k])@ == s@.subrange(
                        all[k].0,
                        all[k].1,
                    ),
                forall|k: int|
                    0 <= k < coordinate_ranges(s@, p as nat).len() ==> all[out@.len() + k]
                        == #[trigger] coordinate_ranges(s@, p as nat)[k],
            decreases s@.len() - p,
        {
            let e = find_line_end(&s, p);
            proof {
                lemma_line_end(s@, p as int);
            }
            let fields = split_fields(&s, p, e);
            proof {
                lemma_field_ranges_bounds(s@, p as int, e as int);
            }
            let ghost rest = coordinate_ranges(s@, p as nat);
            let ghost next_rest = coordinate_ranges(s@, (e + 1) as nat);
            let ghost fs = ranges_view(fields@);
            let ghost here = if fs.len() > 0 && field_is(s@, fs[0], 'v') {
                fs.subrange(1, if fs.len() > 4 { 4 } else { fs.len() as int })
            } else {
                Seq::empty()
            };
            assert(rest == here + next_rest);
            if fields.len() > 0 && fields[0].1 == fields[0].0 + 1 && s[fields[0].0] == 'v' {
                assert(fs[0] == (fields@[0].0 as int, fields@[0].1 as int));
                let count = if fields.len() > 4 {
                    4
                } else {
                    fields.len()
                };
                let mut k: usize = 1;
                while k < count
                    invariant
                        1 <= k <= count <= fields@.len(),
                        count == (if fields@.len() > 4 { 4 } else { fields@.len() }),
                        fs == ranges_view(fields@),
                        here == fs.subrange(1, count as int),
                        rest == here + next_rest,
                        all == coordinate_ranges(s@, 0),
                        out@.len() + rest.len() + 1 - k == all.len(),
                        forall|q: int|
                            0 <= q < rest.len() ==> all[(out@.len() - (k - 1)) + q] == #[trigger] rest[q],
                        forall|q: int|
                            0 <= q < out@.len() ==> (#[trigger] out@[q])@ == s@.subrange(
                                all[q].0,
                                all[q].1,
                            ),
                        forall|q: int|
                            0 <= q < fs.len() ==> p <= (#[trigger] fs[q]).0 < fs[q].1 <= e,
                        e <= s@.len(),
                    decreases count - k,
                {
                    let (a, b) = fields[k];
                    assert(fs[k as int] == (a as int, b as int));
                    let mut text: Vec<char> = Vec::new();
                    let mut i = a;
                    while i < b
                        invariant
                            a <= i <= b <= s@.len(),
                            text@ == s@.subrange(a as int, i as int),
                        decreases b - i,
                    {
                        text.push(s[i]);
                        assert(text@ =~= s@.subrange(a as int, i + 1));
                        i = i + 1;
                    }
                    let ghost base = out@.len() - (k - 1);
                    assert(rest[k - 1] == here[k - 1]);
                    assert(all[base + (k - 1)] == rest[k - 1]);
                    out.push(text);
                    k = k + 1;
                }
                assert(out@.len() + next_rest.len() == all.len());
                assert forall|q: int| 0 <= q < next_rest.len() implies all[out@.len() + q]
                    == #[trigger] next_rest[q] by {
                    let base = out@.len() - here.len();
                    assert(rest[here.len() + q] == next_rest[q]);
                }
            } else {
                proof {
                    if fs.len() > 0 {
                        assert(fs[0] == (fields@[0].0 as int, fields@[0].1 as int));
                    }
                    assert(here =~= Seq::<(int, int)>::empty());
                    assert(rest =~= next_rest);
                }
            }
            if e >= s.len() {
                assert(coordinate_ranges(s@, (e + 1) as nat) =~= Seq::<(int, int)>::empty());
                assert(coordinate_ranges(s@, s@.len() as nat) =~= Seq::<(int, int)>::empty());
                p = s.len();
            } else {
                p = e + 1;
            }
        }
        proof {
            assert(coordinate_ranges(s@, p as nat) =~= Seq::<(int, int)>::empty());
        }
        Ok(out)
    }

    /// Imports an OBJ surface.
    ///
    /// `coordinates` holds the binary64 patterns of the fields listed by
    /// [`ObjGarmentImporter::coordinate_fields`], in the same order (`None` for a field that is not
    /// a number; a missing entry counts as `None`).
    pub fn import(&self, bytes: &[u8], coordinates: &[Option<u64>]) -> (asset: Result<
        GarmentAsset,
        GarmentImportError,
    >)
        ensures
            asset matches Ok(a) ==> {
                &&& obj_import(bytes@, coordinates@) == Ok::<
                    (Seq<Vec3>, Seq<[usize; 3]>),
                    GarmentImportError,
                >((a.spec_positions(), a.spec_triangles()))
                &&& a.spec_source_format() == GarmentSourceFormat::Obj
            },
            asset matches Err(e) ==> obj_import(bytes@, coordinates@) == Err::<
                (Seq<Vec3>, Seq<[usize; 3]>),
                GarmentImportError,
            >(e),
    {
        let s = match decode_chars(bytes) {
            None => {
                return Err(GarmentImportError::InvalidUtf8);
            },
            Some(chars) => chars,
        };
        let mut positions: Vec<Vec3> = Vec::new();
        let mut triangles: Vec<[usize; 3]> = Vec::new();
        let mut cursor: usize = 0;
        let mut p: usize = 0;
        let mut index: usize = 0;
        let ghost whole = obj_run(s@, coordinates@, 0, 0, obj_start());
        assert(parse_state(positions@, triangles@, cursor) == obj_start());
        while p < s.len()
            invariant
                p <= s@.len(),
                index <= p,
                s@ == decode_utf8(bytes@),
                valid_utf8(bytes@),
                cursor <= coordinates@.len(),
                partial_geometry_ok(positions@, triangles@),
                whole == obj_run(s@, coordinates@, 0, 0, obj_start()),
                whole == obj_run(
                    s@,
                    coordinates@,
                    p as nat,
                    index as nat,
                    parse_state(positions@, triangles@, cursor),
                ),
            decreases s@.len() - p,
        {
            let e = find_line_end(&s, p);
            proof {
                lemma_line_end(s@, p as int);
            }
            let ghost old_state = parse_state(positions@, triangles@, cursor);
            let result = Self::read_line(
                &s,
                p,
                e,
                index + 1,
                coordinates,
                &mut positions,
                &mut triangles,
                &mut cursor,
            );
            if let Err(x) = result {
                return Err(x);
            }
            let ghost next = parse_state(positions@, triangles@, cursor);
            assert(obj_run(s@, coordinates@, p as nat, index as nat, old_state) == obj_run(
                s@,
                coordinates@,
                (e + 1) as nat,
                (index + 1) as nat,
                next,
            ));
            if e >= s.len() {
                p = s.len();
            } else {
                p = e + 1;
            }
            index = index + 1;
        }
        if positions.len() == 0 {
            return Err(GarmentImportError::MissingVertices);
        }
        if triangles.len() == 0 {
            return Err(GarmentImportError::MissingTriangles);
        }
        Ok(GarmentAsset::from_parts(GarmentSourceFormat::Obj, positions, triangles))
    }
}

} // verus!
