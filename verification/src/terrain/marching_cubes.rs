use vstd::prelude::*;

verus! {

/// The marching-cubes configuration of a cube: bit `k` is set when corner
/// `k` lies at or below the iso value. The corners of the cube at `(x, y, z)`
/// are, in order, `(x, y, z)`, `(x, y, z + 1)`, `(x + 1, y, z + 1)`,
/// `(x + 1, y, z)`, and the same four one unit higher in `y`.
pub open spec fn spec_configuration(below: Seq<bool>) -> int {
    (below[0] as int) + 2 * (below[1] as int) + 4 * (below[2] as int) + 8 * (below[3] as int) + 16
        * (below[4] as int) + 32 * (below[5] as int) + 64 * (below[6] as int) + 128 * (
    below[7] as int)
}

/// The configuration index of a cube, from which of its eight corners lie
/// at or below the iso value; it selects the cube's row of the
/// triangulation table.
pub fn configuration_index(below: &[bool; 8]) -> (index: u8)
    ensures
        index == spec_configuration(below@),
{
    let mut index: u8 = 0;
    if below[0] {
        index = index + 1;
    }
    if below[1] {
        index = index + 2;
    }
    if below[2] {
        index = index + 4;
    }
    if below[3] {
        index = index + 8;
    }
    if below[4] {
        index = index + 16;
    }
    if below[5] {
        index = index + 32;
    }
    if below[6] {
        index = index + 64;
    }
    if below[7] {
        index = index + 128;
    }
    index
}

/// Law: the configuration index records each corner separately: bit `k`
/// of the index is set exactly when corner `k` is below the iso value, so
/// different corner patterns give different indices.
pub proof fn lemma_configuration_bits(below: Seq<bool>, k: int)
    requires
        below.len() == 8,
        0 <= k < 8,
    ensures
        0 <= spec_configuration(below) < 256,
        (spec_configuration(below) / pow2(k)) % 2 == (below[k] as int),
{
    assert(pow2(0) == 1 && pow2(1) == 2 && pow2(2) == 4 && pow2(3) == 8 && pow2(4) == 16
        && pow2(5) == 32 && pow2(6) == 64 && pow2(7) == 128) by {
        reveal_with_fuel(pow2, 9);
    }
}

pub open spec fn pow2(k: int) -> int
    decreases k,
{
    if k <= 0 {
        1
    } else {
        2 * pow2(k - 1)
    }
}

/// The first entries of every triangle up to and including triangle `m`
/// are edge indices (not negative).
pub open spec fn leading_triangles(triangulation: Seq<i8>, m: int) -> bool {
    forall|t: int| 0 <= t <= m ==> #[trigger] edge_at(triangulation, t, 0) >= 0
}

/// Edge index `j` of triangle `m`.
pub open spec fn edge_at(triangulation: Seq<i8>, m: int, j: int) -> i8 {
    triangulation[3 * m + j]
}

/// A triangulation row: five triangles of three cube-edge indices each; a
/// negative first index ends the list.
pub open spec fn valid_triangulation(triangulation: Seq<i8>) -> bool {
    &&& triangulation.len() == 15
    &&& forall|m: int, j: int|
        0 <= m < 5 && 0 <= j < 3 && leading_triangles(triangulation, m) ==> 0 <= #[trigger] edge_at(triangulation, m, j) < 12
}

/// Triangle `m` of the row, as edge indices.
pub open spec fn triangle_at(triangulation: Seq<i8>, m: int) -> (usize, usize, usize) {
    (
        edge_at(triangulation, m, 0) as usize,
        edge_at(triangulation, m, 1) as usize,
        edge_at(triangulation, m, 2) as usize,
    )
}

/// The triangles of a triangulation row, as triples of cube-edge indices:
/// those before the first triangle whose first index is negative.
pub fn triangle_edges(triangulation: &[i8; 15]) -> (triangles: Vec<(usize, usize, usize)>)
    requires
        valid_triangulation(triangulation@),
    ensures
        triangles@.len() <= 5,
        triangles@.len() == 5 || edge_at(triangulation@, triangles@.len() as int, 0) < 0,
        forall|m: int|
            0 <= m < triangles@.len() ==> #[trigger] triangles@[m] == triangle_at(triangulation@, m)
                && edge_at(triangulation@, m, 0) >= 0,
{
    let mut triangles: Vec<(usize, usize, usize)> = Vec::new();
    let mut i: usize = 0;
    while i < 5
        invariant
            i <= 5,
            valid_triangulation(triangulation@),
            triangles@.len() == i,
            i > 0 ==> leading_triangles(triangulation@, i - 1),
            forall|m: int|
                0 <= m < i ==> #[trigger] triangles@[m] == triangle_at(triangulation@, m)
                    && edge_at(triangulation@, m, 0) >= 0,
        decreases 5 - i,
    {
        let edge = triangulation[i * 3];
        if edge < 0 {
            return triangles;
        }
        proof {
            assert(edge_at(triangulation@, i as int, 0) >= 0);
            assert(leading_triangles(triangulation@, i as int));
            assert(0 <= edge_at(triangulation@, i as int, 0) < 12);
            assert(0 <= edge_at(triangulation@, i as int, 1) < 12);
            assert(0 <= edge_at(triangulation@, i as int, 2) < 12);
        }
        let a = triangulation[i * 3] as usize;
        let b = triangulation[i * 3 + 1] as usize;
        let c = triangulation[i * 3 + 2] as usize;
        triangles.push((a, b, c));
        i = i + 1;
    }
    triangles
}

} // verus!
