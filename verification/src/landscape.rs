//! The mesh that the landscape is drawn on: a grid of squares, each made of
//! two triangles, that is shifted round the torus of heights.

use vstd::prelude::*;

verus! {

/// Corner `k` of the two triangles of the square at row `i`, column `j`.
pub open spec fn square_corner(i: int, j: int, k: int) -> (u8, u8) {
    if k == 0 {
        (i as u8, j as u8)
    } else if k == 1 || k == 4 {
        (i as u8, (j + 1) as u8)
    } else if k == 2 || k == 5 {
        ((i + 1) as u8, j as u8)
    } else {
        ((i + 1) as u8, (j + 1) as u8)
    }
}

/// Where corner `k` of the square at row `i`, column `j` lies in the mesh
/// of a grid of side `n`.
pub open spec fn mesh_at(i: int, j: int, k: int, n: int) -> int {
    (i * n + j) * 6 + k
}

/// The vertices of the mesh of a grid of side `n`: six for each square. The
/// squares of the last row and of the last column have no neighbours to
/// reach for and stay at the origin.
pub fn gen_mesh(n: usize) -> (vertices: Vec<(u8, u8)>)
    requires
        1 <= n <= 256,
    ensures
        vertices.len() == n * n * 6,
        forall|i: int, j: int, k: int|
            0 <= i < n && 0 <= j < n && 0 <= k < 6 ==> #[trigger] vertices[mesh_at(i, j, k, n as int)]
                == (if i < n - 1 && j < n - 1 {
                square_corner(i, j, k)
            } else {
                (0u8, 0u8)
            }),
{
    proof {
        assert(n * n <= 256 * 256) by (nonlinear_arith)
            requires
                n <= 256,
        ;
    }
    let vertices_num: usize = n * n * 6;
    let mut vertices: Vec<(u8, u8)> = Vec::new();
    let mut filled: usize = 0;
    while filled < vertices_num
        invariant
            filled <= vertices_num,
            vertices.len() == filled,
            forall|m: int| 0 <= m < filled ==> vertices[m] == (0u8, 0u8),
        decreases vertices_num - filled,
    {
        vertices.push((0u8, 0u8));
        filled += 1;
    }
    proof {
        assert forall|r: int, c: int, k: int|
            0 <= r < n && 0 <= c < n && 0 <= k < 6 implies #[trigger] vertices[mesh_at(
            r,
            c,
            k,
            n as int,
        )] == (0u8, 0u8) by {
            crate::pop::level::lemma_cell_in_grid(r, c, n as int);
        }
    }
    let mut i: usize = 0;
    while i < n - 1
        invariant
            i <= n - 1,
            1 <= n <= 256,
            vertices.len() == n * n * 6,
            forall|r: int, c: int, k: int|
                0 <= r < n && 0 <= c < n && 0 <= k < 6 ==> #[trigger] vertices[mesh_at(
                    r,
                    c,
                    k,
                    n as int,
                )] == (if r < i && c < n - 1 {
                    square_corner(r, c, k)
                } else {
                    (0u8, 0u8)
                }),
        decreases n - 1 - i,
    {
        let mut j: usize = 0;
        while j < n - 1
            invariant
                j <= n - 1,
                i < n - 1,
                1 <= n <= 256,
                vertices.len() == n * n * 6,
                forall|r: int, c: int, k: int|
                    0 <= r < n && 0 <= c < n && 0 <= k < 6 ==> #[trigger] vertices[mesh_at(
                        r,
                        c,
                        k,
                        n as int,
                    )] == (if (r < i && c < n - 1) || (r == i && c < j) {
                        square_corner(r, c, k)
                    } else {
                        (0u8, 0u8)
                    }),
            decreases n - 1 - j,
        {
            proof {
                crate::pop::level::lemma_cell_in_grid(i as int, j as int, n as int);
            }
            let index = (i * n + j) * 6;
            let i_u8 = i as u8;
            let j_u8 = j as u8;
            let ghost before = vertices@;
            vertices[index] = (i_u8, j_u8);
            vertices[index + 1] = (i_u8, j_u8 + 1);
            vertices[index + 2] = (i_u8 + 1, j_u8);
            vertices[index + 3] = (i_u8 + 1, j_u8 + 1);
            vertices[index + 4] = (i_u8, j_u8 + 1);
            vertices[index + 5] = (i_u8 + 1, j_u8);
            proof {
                assert forall|r: int, c: int, k: int|
                    0 <= r < n && 0 <= c < n && 0 <= k < 6 implies #[trigger] vertices[mesh_at(
                    r,
                    c,
                    k,
                    n as int,
                )] == (if (r < i && c < n - 1) || (r == i && c < j + 1) {
                    square_corner(r, c, k)
                } else {
                    (0u8, 0u8)
                }) by {
                    crate::pop::level::lemma_cell_in_grid(r, c, n as int);
                    if r * n + c == i * n + j {
                        crate::pop::level::lemma_grid_at_injective(
                            r,
                            c,
                            i as int,
                            j as int,
                            n as int,
                        );
                    } else {
                        assert(vertices[mesh_at(r, c, k, n as int)] == before[mesh_at(
                            r,
                            c,
                            k,
                            n as int,
                        )]);
                    }
                }
            }
            j += 1;
        }
        i += 1;
    }
    vertices
}

/// The place that is `shift` places on from place `n` on a ring of `max_n`
/// places.
pub open spec fn shifted_place(n: int, max_n: int, shift: int) -> int {
    (n + shift) % max_n
}

/// Goes `shift` places on from place `n` on a ring of `max_n` places. The
/// shift may go back, but not further back than once round the ring.
pub fn shift_n(n: usize, max_n: usize, shift: i32) -> (place: usize)
    requires
        0 < max_n <= 0x2000_0000,
        n <= 0x2000_0000,
        -0x2000_0000 <= shift <= 0x2000_0000,
        n + shift + max_n >= 0,
    ensures
        place == shifted_place(n as int, max_n as int, shift as int),
        place < max_n,
{
    let shift_n = (n as i32) + shift;
    if shift_n >= 0 {
        (shift_n as usize) % max_n
    } else {
        proof {
            vstd::arithmetic::div_mod::lemma_mod_add_multiples_vanish(
                shift_n as int,
                max_n as int,
            );
        }
        (((max_n as i32) + shift_n) as usize) % max_n
    }
}

/// Entry `(x + shift_x, y + shift_y)` of the heights, taken round the
/// torus: the height under the vertex `(x, y)` of the shifted mesh.
pub fn mesh_height<const N: usize>(
    heights: &[[u16; N]; N],
    v: (u8, u8),
    shift_x: usize,
    shift_y: usize,
) -> (h: u16)
    requires
        N > 0,
        shift_x < N,
        shift_y < N,
        N <= usize::MAX - 255,
    ensures
        h == heights[(v.1 + shift_y) % (N as int)][(v.0 + shift_x) % (N as int)],
{
    let index_x = (v.0 as usize + shift_x) % N;
    let index_y = (v.1 as usize + shift_y) % N;
    heights[index_y][index_x]
}

} // verus!
