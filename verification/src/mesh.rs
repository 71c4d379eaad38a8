//! Mesh geometry conversion: turning a polygon-vertex-index stream (as
//! FBX geometry nodes store it) into a triangle list, and gathering the
//! per-vertex attribute channels into one interleaved vertex buffer.
//!
//! Reading the container format and decoding its nodes happen outside the
//! library; what arrives here are the plain index and coordinate arrays.

use vstd::prelude::*;
use crate::render::BufferElement;

verus! {

/// Why a geometry conversion failed.
#[derive(Clone, Copy, PartialEq, Eq, Debug, Structural)]
pub enum ConversionError {
    NGonNotSupported,
    IncompleteLastPoly,
    PolgyonVertexIndexNotFound,
}

/// An interleaved vertex buffer: the attribute channels of one vertex row,
/// in order, and the flat scalar data, one row per vertex.
#[derive(Debug)]
pub struct Buffer<T> {
    pub elements: Vec<BufferElement>,
    pub data: Vec<T>,
}

/// The triangle list a polygon-vertex-index stream parses to, read from
/// position `i` with the current polygon starting at `start`.
///
/// In the stream, a polygon ends at its bitwise-complemented last index,
/// recognisable as the one negative entry; `-1 - v` recovers the index.  A
/// three-vertex run is one triangle; a four-vertex run becomes two; a
/// longer run is refused; a shorter one is skipped.  Whatever trails the
/// last complete polygon is ignored.
pub open spec fn parse_from(s: Seq<i32>, start: int, i: int) -> Result<Seq<i32>, ConversionError>
    recommends
        0 <= start <= i <= s.len(),
    decreases s.len() - i,
{
    if i < 0 || i >= s.len() {
        Ok(Seq::empty())
    } else if s[i] < 0 {
        let n = i - start;
        if n == 2 {
            match parse_from(s, i + 1, i + 1) {
                Ok(rest) => Ok(
                    seq![s[start], s[start + 1], (-1 - s[start + 2]) as i32] + rest,
                ),
                Err(e) => Err(e),
            }
        } else if n == 3 {
            match parse_from(s, i + 1, i + 1) {
                Ok(rest) => Ok(
                    seq![
                        s[start],
                        s[start + 1],
                        s[start + 2],
                        s[start],
                        s[start + 2],
                        (-1 - s[start + 3]) as i32,
                    ] + rest,
                ),
                Err(e) => Err(e),
            }
        } else if n >= 4 {
            Err(ConversionError::NGonNotSupported)
        } else {
            parse_from(s, i + 1, i + 1)
        }
    } else {
        parse_from(s, start, i + 1)
    }
}

/// What [`parse_indices`] returns: the whole stream parsed from the start;
/// an empty stream has no complete last polygon to end on.
pub open spec fn parse_indices_spec(s: Seq<i32>) -> Result<Seq<i32>, ConversionError> {
    if s.len() == 0 {
        Err(ConversionError::IncompleteLastPoly)
    } else {
        parse_from(s, 0, 0)
    }
}

/// A parse result with a prefix of already-emitted triangles in front.
pub open spec fn with_prefix(prefix: Seq<i32>, r: Result<Seq<i32>, ConversionError>) -> Result<
    Seq<i32>,
    ConversionError,
> {
    match r {
        Ok(rest) => Ok(prefix + rest),
        Err(e) => Err(e),
    }
}

/// Parses a polygon-vertex-index stream of triangles and quads into a
/// plain triangle list; see [`parse_indices_spec`].
pub fn parse_indices(indices: &Vec<i32>) -> (r: Result<Vec<i32>, ConversionError>)
    ensures
        r is Ok ==> parse_indices_spec(indices@) == Result::<Seq<i32>, ConversionError>::Ok(
            r->Ok_0@,
        ),
        r is Err ==> parse_indices_spec(indices@) == Result::<Seq<i32>, ConversionError>::Err(
            r->Err_0,
        ),
{
    let ghost sq = indices@;
    if indices.len() == 0 {
        return Err(ConversionError::IncompleteLastPoly);
    }
    let mut start: usize = 0;
    let mut arr: Vec<i32> = Vec::new();
    let mut i: usize = 0;
    while i < indices.len()
        invariant
            sq == indices@,
            sq.len() > 0,
            start <= i,
            i <= sq.len(),
            parse_from(sq, 0, 0) == with_prefix(arr@, parse_from(sq, start as int, i as int)),
        decreases sq.len() - i,
    {
        let ghost start0 = start as int;
        let ghost i0 = i as int;
        let ghost arr0 = arr@;
        let v = indices[i];
        if v < 0 {
            let n = i - start;
            if n == 2 {
                arr.push(indices[start]);
                arr.push(indices[start + 1]);
                arr.push(-1 - indices[start + 2]);
                proof {
                    let tri = seq![sq[start0], sq[start0 + 1], (-1 - sq[start0 + 2]) as i32];
                    assert(arr@ =~= arr0 + tri);
                    let inner = parse_from(sq, i0 + 1, i0 + 1);
                    if inner is Ok {
                        assert(arr0 + (tri + inner->Ok_0) =~= (arr0 + tri) + inner->Ok_0);
                    }
                }
            } else if n == 3 {
                arr.push(indices[start]);
                arr.push(indices[start + 1]);
                arr.push(indices[start + 2]);
                arr.push(indices[start]);
                arr.push(indices[start + 2]);
                arr.push(-1 - indices[start + 3]);
                proof {
                    let tris = seq![
                        sq[start0],
                        sq[start0 + 1],
                        sq[start0 + 2],
                        sq[start0],
                        sq[start0 + 2],
                        (-1 - sq[start0 + 3]) as i32,
                    ];
                    assert(arr@ =~= arr0 + tris);
                    let inner = parse_from(sq, i0 + 1, i0 + 1);
                    if inner is Ok {
                        assert(arr0 + (tris + inner->Ok_0) =~= (arr0 + tris) + inner->Ok_0);
                    }
                }
            } else if n >= 4 {
                proof {
                    assert(parse_from(sq, start0, i0) == Result::<Seq<i32>, ConversionError>::Err(
                        ConversionError::NGonNotSupported,
                    ));
                }
                return Err(ConversionError::NGonNotSupported);
            }
            start = i + 1;
        }
        i += 1;
    }
    proof {
        assert(parse_from(sq, start as int, i as int) == Result::<Seq<i32>, ConversionError>::Ok(
            Seq::<i32>::empty(),
        ));
        assert(arr@ + Seq::<i32>::empty() =~= arr@);
    }
    Ok(arr)
}

/// One interleaved vertex row: three position scalars, three normal
/// scalars (or the fill value when the mesh has no normals), two texture
/// coordinates (or the fill value when it has none).
pub open spec fn vertex_row<T>(
    idx: int,
    position: Seq<T>,
    uv: Seq<T>,
    normal: Seq<T>,
    fill: T,
) -> Seq<T> {
    seq![position[3 * idx], position[3 * idx + 1], position[3 * idx + 2]] + (if normal.len() == 0 {
        seq![fill, fill, fill]
    } else {
        seq![normal[3 * idx], normal[3 * idx + 1], normal[3 * idx + 2]]
    }) + (if uv.len() == 0 {
        seq![fill, fill]
    } else {
        seq![uv[2 * idx], uv[2 * idx + 1]]
    })
}

/// The vertex rows of every index, in index order, flattened.
pub open spec fn gathered<T>(
    indices: Seq<i32>,
    position: Seq<T>,
    uv: Seq<T>,
    normal: Seq<T>,
    fill: T,
) -> Seq<T>
    decreases indices.len(),
{
    if indices.len() == 0 {
        Seq::empty()
    } else {
        gathered(indices.drop_last(), position, uv, normal, fill) + vertex_row(
            indices.last() as int,
            position,
            uv,
            normal,
            fill,
        )
    }
}

/// Every index addresses a full coordinate triple (and pair) in each
/// non-empty channel.
pub open spec fn indices_in_bounds<T>(
    indices: Seq<i32>,
    position: Seq<T>,
    uv: Seq<T>,
    normal: Seq<T>,
) -> bool {
    forall|j: int|
        0 <= j < indices.len() ==> {
            &&& 0 <= #[trigger] indices[j]
            &&& 3 * indices[j] + 3 <= position.len()
            &&& (normal.len() != 0 ==> 3 * indices[j] + 3 <= normal.len())
            &&& (uv.len() != 0 ==> 2 * indices[j] + 2 <= uv.len())
        }
}

/// Gathers the per-vertex channels addressed by a triangle list into one
/// interleaved vertex buffer: per vertex three position scalars, three
/// normal scalars and two texture coordinates, missing channels padded
/// with the fill value.
pub fn construct_buffer<T: Copy>(
    indices: &Vec<i32>,
    position_arr: &Vec<T>,
    uv_arr: &Vec<T>,
    normal_arr: &Vec<T>,
    fill: T,
) -> (r: Result<Buffer<T>, ConversionError>)
    requires
        indices_in_bounds(indices@, position_arr@, uv_arr@, normal_arr@),
    ensures
        r is Ok,
        r->Ok_0.data@ == gathered(indices@, position_arr@, uv_arr@, normal_arr@, fill),
        r->Ok_0.elements@.len() == 3,
        r->Ok_0.elements@[0].size == 3,
        r->Ok_0.elements@[1].size == 3,
        r->Ok_0.elements@[2].size == 2,
{
    let mut data: Vec<T> = Vec::new();
    let mut i: usize = 0;
    while i < indices.len()
        invariant
            indices_in_bounds(indices@, position_arr@, uv_arr@, normal_arr@),
            i <= indices@.len(),
            data@ == gathered(
                indices@.take(i as int),
                position_arr@,
                uv_arr@,
                normal_arr@,
                fill,
            ),
        decreases indices@.len() - i,
    {
        let ghost data0 = data@;
        let plen = position_arr.len();
        proof {
            assert(0 <= indices@[i as int]);
            assert(3 * indices@[i as int] + 3 <= plen);
        }
        let idx = indices[i] as usize;
        let base3 = 3 * idx;
        let base2 = 2 * idx;
        data.push(position_arr[base3]);
        data.push(position_arr[base3 + 1]);
        data.push(position_arr[base3 + 2]);
        if normal_arr.len() != 0 {
            data.push(normal_arr[base3]);
            data.push(normal_arr[base3 + 1]);
            data.push(normal_arr[base3 + 2]);
        } else {
            data.push(fill);
            data.push(fill);
            data.push(fill);
        }
        if uv_arr.len() != 0 {
            data.push(uv_arr[base2]);
            data.push(uv_arr[base2 + 1]);
        } else {
            data.push(fill);
            data.push(fill);
        }
        proof {
            assert(indices@.take((i + 1) as int).drop_last() =~= indices@.take(i as int));
            assert(indices@.take((i + 1) as int).last() == indices@[i as int]);
            assert(data@ =~= data0 + vertex_row(
                indices@[i as int] as int,
                position_arr@,
                uv_arr@,
                normal_arr@,
                fill,
            ));
        }
        i += 1;
    }
    proof {
        assert(indices@.take(indices@.len() as int) =~= indices@);
    }
    let mut elements: Vec<BufferElement> = Vec::new();
    elements.push(BufferElement { name: "position".to_owned(), size: 3 });
    elements.push(BufferElement { name: "normal".to_owned(), size: 3 });
    elements.push(BufferElement { name: "uv".to_owned(), size: 2 });
    Ok(Buffer { elements, data })
}

} // verus!
