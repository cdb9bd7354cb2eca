use vstd::prelude::*;

verus! {

/// Number of faces of a cube.
pub const CUBE_FACES: usize = 6;

/// Which of a face's four corners (in counter-clockwise order seen from
/// outside) the `j`-th index of the face's two triangles names.
pub open spec fn quad_corner(j: int) -> int {
    if j == 0 {
        0
    } else if j == 1 {
        1
    } else if j == 2 {
        2
    } else if j == 3 {
        0
    } else if j == 4 {
        2
    } else {
        3
    }
}

/// Triangle indices of a cube whose vertex list holds four corners per face,
/// face after face: two counter-clockwise triangles per face, `(0, 1, 2)` and
/// `(0, 2, 3)` of that face's corners.
pub fn cube_indices() -> (r: Vec<u16>)
    ensures
        r@.len() == 36,
        forall|f: int, j: int| 0 <= f < 6 && 0 <= j < 6 ==> #[trigger] r@[6 * f + j] == 4 * f + quad_corner(j),
{
    let mut indices: Vec<u16> = Vec::new();
    let mut face: usize = 0;
    while face < CUBE_FACES
        invariant
            face <= 6,
            indices@.len() == 6 * face,
            forall|f: int, j: int| 0 <= f < face && 0 <= j < 6 ==> #[trigger] indices@[6 * f + j] == 4 * f + quad_corner(j),
        decreases 6 - face,
    {
        let base = (4 * face) as u16;
        let ghost before = indices@;
        indices.push(base);
        indices.push(base + 1);
        indices.push(base + 2);
        indices.push(base);
        indices.push(base + 2);
        indices.push(base + 3);
        proof {
            assert forall|f: int, j: int| 0 <= f < face + 1 && 0 <= j < 6 implies #[trigger] indices@[6 * f + j] == 4 * f + quad_corner(j) by {
                if f < face {
                    assert(indices@[6 * f + j] == before[6 * f + j]);
                }
            }
        }
        face = face + 1;
    }
    indices
}

} // verus!
