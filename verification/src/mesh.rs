use vstd::prelude::*;
use vstd::arithmetic::div_mod::lemma_fundamental_div_mod_converse;

verus! {

/// Number of latitude steps of the sphere mesh, from the top pole to the
/// bottom one; the mesh has one ring of vertices more than this.
pub const SPHERE_RINGS: u32 = 12;

/// Number of vertices around each ring of the sphere mesh.
pub const SPHERE_POINTS: u32 = 12;

/// Number of cells along each side of the ground grid; the grid has one
/// row and one column of vertices more than this.
pub const GRID_LINES: u32 = 200;

/// Number of vertices of the sphere mesh.
pub open spec fn sphere_vertex_count() -> int {
    (SPHERE_RINGS + 1) * SPHERE_POINTS
}

/// The (ring, point) coordinates of sphere vertex `k`: vertices are laid
/// out ring after ring, `SPHERE_POINTS` to a ring.
pub open spec fn sphere_point(k: int) -> (int, int) {
    (k / SPHERE_POINTS as int, k % SPHERE_POINTS as int)
}

/// The vertex index of point `point` of ring `ring` of the sphere.
pub open spec fn sphere_vertex(ring: int, point: int) -> int {
    ring * SPHERE_POINTS + point
}

/// The two triangles of the quad between rings `ring` and `ring + 1` and
/// points `seg` and `seg + 1`, the last point of a ring being followed by
/// its first: bottom-left, bottom-right, top-left, then top-left,
/// bottom-right, top-right.
pub open spec fn sphere_quad(ring: int, seg: int) -> Seq<u32> {
    let next = if seg == SPHERE_POINTS - 1 {
        0
    } else {
        seg + 1
    };
    let bottom_l = sphere_vertex(ring, seg) as u32;
    let bottom_r = sphere_vertex(ring, next) as u32;
    let top_l = sphere_vertex(ring + 1, seg) as u32;
    let top_r = sphere_vertex(ring + 1, next) as u32;
    seq![bottom_l, bottom_r, top_l, top_l, bottom_r, top_r]
}

/// Entry `i` of the sphere's triangle list: quads are laid out ring after
/// ring, segment after segment, six indices to a quad.
pub open spec fn sphere_index(i: int) -> u32 {
    let quad = i / 6;
    sphere_quad(quad / SPHERE_POINTS as int, quad % SPHERE_POINTS as int)[i % 6]
}

/// The (ring, point) lattice coordinates of every vertex of the sphere
/// mesh, in vertex order. Vertex `k` sits at ring `k / 12`, point
/// `k % 12`; its position on the sphere follows from these two angles.
pub fn sphere_lattice() -> (v: Vec<(u32, u32)>)
    ensures
        v.len() == sphere_vertex_count(),
        forall|k: int|
            0 <= k < v.len() ==> (#[trigger] v@[k]).0 == sphere_point(k).0 && v@[k].1
                == sphere_point(k).1,
{
    let mut v: Vec<(u32, u32)> = Vec::new();
    let mut ring: u32 = 0;
    while ring <= SPHERE_RINGS
        invariant
            ring <= SPHERE_RINGS + 1,
            v.len() == ring * SPHERE_POINTS,
            forall|k: int|
                0 <= k < v.len() ==> (#[trigger] v@[k]).0 == sphere_point(k).0 && v@[k].1
                    == sphere_point(k).1,
        decreases SPHERE_RINGS + 1 - ring,
    {
        let mut point: u32 = 0;
        while point < SPHERE_POINTS
            invariant
                ring <= SPHERE_RINGS,
                point <= SPHERE_POINTS,
                v.len() == ring * SPHERE_POINTS + point,
                forall|k: int|
                    0 <= k < v.len() ==> (#[trigger] v@[k]).0 == sphere_point(k).0 && v@[k].1
                        == sphere_point(k).1,
            decreases SPHERE_POINTS - point,
        {
            v.push((ring, point));
            point = point + 1;
        }
        ring = ring + 1;
    }
    v
}

/// The triangle list of the sphere mesh: for each ring below the last
/// and each point of it, the two triangles of the quad it spans with the
/// next point and the next ring. Every index names a vertex.
pub fn sphere_indices() -> (indices: Vec<u32>)
    ensures
        indices.len() == 6 * SPHERE_RINGS * SPHERE_POINTS,
        forall|i: int| 0 <= i < indices.len() ==> #[trigger] indices@[i] == sphere_index(i),
        forall|i: int| 0 <= i < indices.len() ==> #[trigger] indices@[i] < sphere_vertex_count(),
{
    let mut indices: Vec<u32> = Vec::new();
    let mut ring: u32 = 0;
    while ring < SPHERE_RINGS
        invariant
            ring <= SPHERE_RINGS,
            indices.len() == 6 * (ring * SPHERE_POINTS),
            forall|i: int| 0 <= i < indices.len() ==> #[trigger] indices@[i] == sphere_index(i),
            forall|i: int|
                0 <= i < indices.len() ==> #[trigger] indices@[i] < sphere_vertex_count(),
        decreases SPHERE_RINGS - ring,
    {
        let mut segment: u32 = 0;
        while segment < SPHERE_POINTS
            invariant
                ring < SPHERE_RINGS,
                segment <= SPHERE_POINTS,
                indices.len() == 6 * (ring * SPHERE_POINTS + segment),
                forall|i: int|
                    0 <= i < indices.len() ==> #[trigger] indices@[i] == sphere_index(i),
                forall|i: int|
                    0 <= i < indices.len() ==> #[trigger] indices@[i] < sphere_vertex_count(),
            decreases SPHERE_POINTS - segment,
        {
            let bottom_l = ring * SPHERE_POINTS + segment;
            let bottom_r = if segment == SPHERE_POINTS - 1 {
                ring * SPHERE_POINTS
            } else {
                ring * SPHERE_POINTS + segment + 1
            };
            let top_l = (ring + 1) * SPHERE_POINTS + segment;
            let top_r = if segment == SPHERE_POINTS - 1 {
                (ring + 1) * SPHERE_POINTS
            } else {
                (ring + 1) * SPHERE_POINTS + segment + 1
            };
            let ghost start = indices.len() as int;
            let ghost quad = ring * SPHERE_POINTS + segment;
            assert(sphere_quad(ring as int, segment as int) =~= seq![
                bottom_l,
                bottom_r,
                top_l,
                top_l,
                bottom_r,
                top_r,
            ]);
            indices.push(bottom_l);
            indices.push(bottom_r);
            indices.push(top_l);
            indices.push(top_l);
            indices.push(bottom_r);
            indices.push(top_r);
            assert forall|k: int| 0 <= k < 6 implies #[trigger] indices@[start + k] == sphere_index(
                start + k,
            ) by {
                assert((start + k) / 6 == quad);
                assert((start + k) % 6 == k);
                assert(quad / SPHERE_POINTS as int == ring);
                assert(quad % SPHERE_POINTS as int == segment);
            }
            assert forall|i: int| 0 <= i < indices.len() implies #[trigger] indices@[i]
                == sphere_index(i) by {
                if i >= start {
                    assert(indices@[start + (i - start)] == sphere_index(start + (i - start)));
                }
            }
            segment = segment + 1;
        }
        ring = ring + 1;
    }
    indices
}

/// Each quad of the sphere joins a vertex with its neighbour along the
/// ring (the last point of a ring wrapping round to the first) and with
/// the two vertices above them on the next ring; its two triangles share
/// the diagonal from the top-left to the bottom-right corner.
pub proof fn lemma_sphere_quad_corners(ring: int, seg: int)
    requires
        0 <= ring < SPHERE_RINGS,
        0 <= seg < SPHERE_POINTS,
    ensures
        sphere_point(sphere_quad(ring, seg)[0] as int) == (ring, seg),
        sphere_point(sphere_quad(ring, seg)[1] as int) == (ring, (seg + 1) % SPHERE_POINTS as int),
        sphere_point(sphere_quad(ring, seg)[2] as int) == (ring + 1, seg),
        sphere_point(sphere_quad(ring, seg)[5] as int) == (ring + 1, (seg + 1)
            % SPHERE_POINTS as int),
        sphere_quad(ring, seg)[3] == sphere_quad(ring, seg)[2],
        sphere_quad(ring, seg)[4] == sphere_quad(ring, seg)[1],
{
}

/// Number of vertices along each side of the ground grid.
pub open spec fn grid_side() -> int {
    GRID_LINES + 1
}

/// Number of vertices of the ground grid.
pub open spec fn grid_vertex_count() -> int {
    grid_side() * grid_side()
}

/// The vertex index of column `col` of row `row` of the grid: vertices
/// are laid out row after row.
pub open spec fn grid_vertex(row: int, col: int) -> int {
    row * grid_side() + col
}

/// The (column, row) coordinates of grid vertex `k`.
pub open spec fn grid_point(k: int) -> (int, int) {
    (k % grid_side(), k / grid_side())
}

/// The line segments the grid draws for cell (`row`, `col`), as pairs of
/// vertex indices: while `row + 1` is below the last row, the segment
/// from column `col` to `col + 1` along row `row + 1`; while `col + 1` is
/// below the last column, the segment from row `row` to `row + 1` along
/// column `col + 1`.
pub open spec fn grid_cell(row: int, col: int) -> Seq<u32> {
    (if row < GRID_LINES - 1 {
        seq![grid_vertex(row + 1, col) as u32, grid_vertex(row + 1, col + 1) as u32]
    } else {
        Seq::empty()
    }) + (if col < GRID_LINES - 1 {
        seq![grid_vertex(row, col + 1) as u32, grid_vertex(row + 1, col + 1) as u32]
    } else {
        Seq::empty()
    })
}

/// The segments of the first `cols` cells of row `row`.
pub open spec fn grid_row(row: int, cols: nat) -> Seq<u32>
    decreases cols,
{
    if cols == 0 {
        Seq::empty()
    } else {
        grid_row(row, (cols - 1) as nat) + grid_cell(row, cols - 1)
    }
}

/// The segments of the first `rows` rows of cells.
pub open spec fn grid_rows(rows: nat) -> Seq<u32>
    decreases rows,
{
    if rows == 0 {
        Seq::empty()
    } else {
        grid_rows((rows - 1) as nat) + grid_row(rows - 1, GRID_LINES as nat)
    }
}

/// The (column, row) lattice coordinates of every vertex of the grid, in
/// vertex order: vertex `k` sits at column `k % 201`, row `k / 201`; its
/// position on the ground plane follows from these two.
pub fn grid_lattice() -> (v: Vec<(u32, u32)>)
    ensures
        v.len() == grid_vertex_count(),
        forall|k: int|
            0 <= k < v.len() ==> (#[trigger] v@[k]).0 == grid_point(k).0 && v@[k].1 == grid_point(
                k,
            ).1,
{
    let mut v: Vec<(u32, u32)> = Vec::new();
    let mut row: u32 = 0;
    while row <= GRID_LINES
        invariant
            row <= GRID_LINES + 1,
            v.len() == row * grid_side(),
            forall|k: int|
                0 <= k < v.len() ==> (#[trigger] v@[k]).0 == grid_point(k).0 && v@[k].1
                    == grid_point(k).1,
        decreases GRID_LINES + 1 - row,
    {
        let mut col: u32 = 0;
        while col <= GRID_LINES
            invariant
                row <= GRID_LINES,
                col <= GRID_LINES + 1,
                v.len() == row * grid_side() + col,
                forall|k: int|
                    0 <= k < v.len() ==> (#[trigger] v@[k]).0 == grid_point(k).0 && v@[k].1
                        == grid_point(k).1,
            decreases GRID_LINES + 1 - col,
        {
            proof {
                lemma_fundamental_div_mod_converse(
                    row * grid_side() + col,
                    grid_side(),
                    row as int,
                    col as int,
                );
            }
            v.push((col, row));
            col = col + 1;
        }
        assert(v.len() == (row + 1) * grid_side()) by (nonlinear_arith)
            requires
                v.len() == row * grid_side() + grid_side(),
        ;
        row = row + 1;
    }
    v
}

/// The line list of the ground grid: for each cell, row after row and
/// column after column, the segments of `grid_cell`.
pub fn grid_indices() -> (indices: Vec<u32>)
    ensures
        indices@ == grid_rows(GRID_LINES as nat),
        indices.len() == 4 * GRID_LINES * (GRID_LINES - 1),
        forall|i: int| 0 <= i < indices.len() ==> #[trigger] indices@[i] < grid_vertex_count(),
        forall|row: int, col: int|
            0 <= row < GRID_LINES - 1 && 0 <= col < GRID_LINES ==> {
                &&& #[trigger] indices@[grid_horizontal_at(row, col)] == grid_vertex(row + 1, col)
                &&& indices@[grid_horizontal_at(row, col) + 1] == grid_vertex(row + 1, col + 1)
            },
        forall|row: int, col: int|
            0 <= row < GRID_LINES && 0 <= col < GRID_LINES - 1 ==> {
                &&& #[trigger] indices@[grid_vertical_at(row, col)] == grid_vertex(row, col + 1)
                &&& indices@[grid_vertical_at(row, col) + 1] == grid_vertex(row + 1, col + 1)
            },
{
    let mut indices: Vec<u32> = Vec::new();
    let mut row: u32 = 0;
    while row < GRID_LINES
        invariant
            row <= GRID_LINES,
            indices@ == grid_rows(row as nat),
        decreases GRID_LINES - row,
    {
        let mut col: u32 = 0;
        while col < GRID_LINES
            invariant
                row < GRID_LINES,
                col <= GRID_LINES,
                indices@ == grid_rows(row as nat) + grid_row(row as int, col as nat),
            decreases GRID_LINES - col,
        {
            let ghost before = indices@;
            if row < GRID_LINES - 1 {
                indices.push((row + 1) * (GRID_LINES + 1) + col);
                indices.push((row + 1) * (GRID_LINES + 1) + col + 1);
            }
            if col < GRID_LINES - 1 {
                indices.push(row * (GRID_LINES + 1) + col + 1);
                indices.push((row + 1) * (GRID_LINES + 1) + col + 1);
            }
            assert(indices@ =~= before + grid_cell(row as int, col as int));
            assert(grid_row(row as int, (col + 1) as nat) == grid_row(row as int, col as nat)
                + grid_cell(row as int, col as int));
            assert(indices@ =~= grid_rows(row as nat) + grid_row(row as int, (col + 1) as nat));
            col = col + 1;
        }
        assert(indices@ =~= grid_rows((row + 1) as nat));
        row = row + 1;
    }
    proof {
        lemma_grid_line_list();
        lemma_grid_draws_every_inner_segment();
    }
    indices
}

/// Whether grid vertices `a` and `b` are neighbours, `b` one column or
/// one row past `a`.
pub open spec fn grid_neighbours(a: int, b: int) -> bool {
    &&& 0 <= a < grid_vertex_count()
    &&& 0 <= b < grid_vertex_count()
    &&& {
        ||| grid_point(b) == (grid_point(a).0 + 1, grid_point(a).1)
        ||| grid_point(b) == (grid_point(a).0, grid_point(a).1 + 1)
    }
}

/// Whether `s` is a line list of segments between neighbouring grid
/// vertices.
pub open spec fn is_grid_line_list(s: Seq<u32>) -> bool {
    &&& s.len() % 2 == 0
    &&& forall|i: int|
        #![trigger s[i]]
        0 <= i < s.len() && i % 2 == 0 ==> grid_neighbours(s[i] as int, s[i + 1] as int)
}

proof fn lemma_grid_point_of_vertex(row: int, col: int)
    requires
        0 <= row <= GRID_LINES,
        0 <= col <= GRID_LINES,
    ensures
        grid_point(grid_vertex(row, col)) == (col, row),
        0 <= grid_vertex(row, col) < grid_vertex_count(),
{
    lemma_fundamental_div_mod_converse(grid_vertex(row, col), grid_side(), row, col);
    assert(grid_vertex(row, col) <= GRID_LINES * grid_side() + GRID_LINES) by (nonlinear_arith)
        requires
            0 <= row <= GRID_LINES,
            0 <= col <= GRID_LINES,
    ;
}

proof fn lemma_grid_line_list_concat(s1: Seq<u32>, s2: Seq<u32>)
    requires
        is_grid_line_list(s1),
        is_grid_line_list(s2),
    ensures
        is_grid_line_list(s1 + s2),
{
    let s = s1 + s2;
    assert forall|i: int| #![trigger s[i]] 0 <= i < s.len() && i % 2 == 0 implies grid_neighbours(
        s[i] as int,
        s[i + 1] as int,
    ) by {
        if i < s1.len() {
            assert(s[i] == s1[i]);
            assert(s[i + 1] == s1[i + 1]);
        } else {
            let j = i - s1.len();
            assert(s[i] == s2[j]);
            assert(s[i + 1] == s2[j + 1]);
        }
    }
}

proof fn lemma_grid_cell_segments(row: int, col: int)
    requires
        0 <= row < GRID_LINES,
        0 <= col < GRID_LINES,
    ensures
        is_grid_line_list(grid_cell(row, col)),
        grid_cell(row, col).len() == (if row < GRID_LINES - 1 {
            2int
        } else {
            0int
        }) + (if col < GRID_LINES - 1 {
            2int
        } else {
            0int
        }),
{
    lemma_grid_point_of_vertex(row + 1, col);
    lemma_grid_point_of_vertex(row + 1, col + 1);
    lemma_grid_point_of_vertex(row, col + 1);
    let h: Seq<u32> = if row < GRID_LINES - 1 {
        seq![grid_vertex(row + 1, col) as u32, grid_vertex(row + 1, col + 1) as u32]
    } else {
        Seq::empty()
    };
    let v: Seq<u32> = if col < GRID_LINES - 1 {
        seq![grid_vertex(row, col + 1) as u32, grid_vertex(row + 1, col + 1) as u32]
    } else {
        Seq::empty()
    };
    assert(is_grid_line_list(h));
    assert(is_grid_line_list(v));
    lemma_grid_line_list_concat(h, v);
}

proof fn lemma_grid_row_segments(row: int, cols: nat)
    requires
        0 <= row < GRID_LINES,
        cols <= GRID_LINES,
    ensures
        is_grid_line_list(grid_row(row, cols)),
        grid_row(row, cols).len() == (if row < GRID_LINES - 1 {
            2 * cols
        } else {
            0
        }) + 2 * (if cols < GRID_LINES {
            cols as int
        } else {
            GRID_LINES - 1
        }),
    decreases cols,
{
    if cols > 0 {
        lemma_grid_row_segments(row, (cols - 1) as nat);
        lemma_grid_cell_segments(row, cols - 1);
        lemma_grid_line_list_concat(grid_row(row, (cols - 1) as nat), grid_cell(row, cols - 1));
    }
}

proof fn lemma_grid_rows_segments(rows: nat)
    requires
        rows <= GRID_LINES,
    ensures
        is_grid_line_list(grid_rows(rows)),
        grid_rows(rows).len() == (if rows < GRID_LINES {
            (4 * GRID_LINES - 2) * rows
        } else {
            (4 * GRID_LINES - 2) * (GRID_LINES - 1) + 2 * (GRID_LINES - 1)
        }),
    decreases rows,
{
    if rows > 0 {
        lemma_grid_rows_segments((rows - 1) as nat);
        lemma_grid_row_segments(rows - 1, GRID_LINES as nat);
        lemma_grid_line_list_concat(
            grid_rows((rows - 1) as nat),
            grid_row(rows - 1, GRID_LINES as nat),
        );
    }
}

/// The grid's line list draws `2 * 200 * 199` segments, each joining a
/// grid vertex to its neighbour one column or one row further on, so
/// every index it holds names a vertex of the grid.
pub proof fn lemma_grid_line_list()
    ensures
        is_grid_line_list(grid_rows(GRID_LINES as nat)),
        grid_rows(GRID_LINES as nat).len() == 4 * GRID_LINES * (GRID_LINES - 1),
        forall|i: int|
            0 <= i < grid_rows(GRID_LINES as nat).len() ==> #[trigger] grid_rows(
                GRID_LINES as nat,
            )[i] < grid_vertex_count(),
{
    lemma_grid_rows_segments(GRID_LINES as nat);
    let s = grid_rows(GRID_LINES as nat);
    assert forall|i: int| 0 <= i < s.len() implies #[trigger] s[i] < grid_vertex_count() by {
        if i % 2 == 0 {
            assert(grid_neighbours(s[i] as int, s[i + 1] as int));
        } else {
            assert(grid_neighbours(s[i - 1] as int, s[(i - 1) + 1] as int));
        }
    }
}

/// Where the segments of cell (`row`, `col`) start within the segments
/// of row `row`: four to a cell, or two in the last row of cells.
pub open spec fn grid_row_offset(row: int, col: int) -> int {
    if row < GRID_LINES - 1 {
        4 * col
    } else {
        2 * col
    }
}

/// Where the segment along row `row + 1`, from column `col` to
/// `col + 1`, stands in the grid's line list.
pub open spec fn grid_horizontal_at(row: int, col: int) -> int {
    (4 * GRID_LINES - 2) * row + 4 * col
}

/// Where the segment along column `col + 1`, from row `row` to
/// `row + 1`, stands in the grid's line list.
pub open spec fn grid_vertical_at(row: int, col: int) -> int {
    if row < GRID_LINES - 1 {
        (4 * GRID_LINES - 2) * row + 4 * col + 2
    } else {
        (4 * GRID_LINES - 2) * row + 2 * col
    }
}

proof fn lemma_grid_row_positions(row: int, cols: nat)
    requires
        0 <= row < GRID_LINES,
        cols <= GRID_LINES,
    ensures
        forall|c: int, k: int|
            #![trigger grid_cell(row, c)[k]]
            0 <= c < cols && 0 <= k < grid_cell(row, c).len() ==> grid_row(row, cols)[grid_row_offset(
                row,
                c,
            ) + k] == grid_cell(row, c)[k],
    decreases cols,
{
    if cols > 0 {
        lemma_grid_row_positions(row, (cols - 1) as nat);
        lemma_grid_row_segments(row, (cols - 1) as nat);
        let prev = grid_row(row, (cols - 1) as nat);
        let cell = grid_cell(row, cols - 1);
        assert(grid_row(row, cols) == prev + cell);
        assert(prev.len() == grid_row_offset(row, cols - 1));
        assert forall|c: int, k: int|
            #![trigger grid_cell(row, c)[k]]
            0 <= c < cols && 0 <= k < grid_cell(row, c).len() implies grid_row(
            row,
            cols,
        )[grid_row_offset(row, c) + k] == grid_cell(row, c)[k] by {
            lemma_grid_cell_segments(row, c);
            if c < cols - 1 {
                assert(grid_row_offset(row, c) + k < prev.len());
                assert((prev + cell)[grid_row_offset(row, c) + k] == prev[grid_row_offset(row, c)
                    + k]);
            } else {
                assert((prev + cell)[prev.len() + k] == cell[k]);
            }
        }
    }
}

/// Where entry `k` of the segments of cell (`r`, `c`) stands in the
/// grid's line list.
spec fn grid_pos(r: int, c: int, k: int) -> int {
    (4 * GRID_LINES - 2) * r + grid_row_offset(r, c) + k
}

proof fn lemma_grid_rows_at(rows: nat, r: int, c: int, k: int)
    requires
        rows <= GRID_LINES,
        0 <= r < rows,
        0 <= c < GRID_LINES,
        0 <= k < grid_cell(r, c).len(),
    ensures
        0 <= grid_pos(r, c, k) < grid_rows(rows).len(),
        grid_rows(rows)[grid_pos(r, c, k)] == grid_cell(r, c)[k],
    decreases rows,
{
    let prev = grid_rows((rows - 1) as nat);
    let last = grid_row(rows - 1, GRID_LINES as nat);
    assert(grid_rows(rows) == prev + last);
    lemma_grid_rows_segments((rows - 1) as nat);
    lemma_grid_row_segments(rows - 1, GRID_LINES as nat);
    lemma_grid_cell_segments(r, c);
    if r < rows - 1 {
        lemma_grid_rows_at((rows - 1) as nat, r, c, k);
        assert((prev + last)[grid_pos(r, c, k)] == prev[grid_pos(r, c, k)]);
    } else {
        lemma_grid_row_positions(r, GRID_LINES as nat);
        assert(grid_pos(r, c, k) == prev.len() + grid_row_offset(r, c) + k);
        assert(grid_row_offset(r, c) + k < last.len());
        assert(last[grid_row_offset(r, c) + k] == grid_cell(r, c)[k]);
        assert((prev + last)[grid_pos(r, c, k)] == last[grid_row_offset(r, c) + k]);
    }
}

/// The grid draws every segment between neighbouring vertices that is
/// not on its first or last row or column, each at a known place in its
/// line list: the segment along row `row + 1` from column `col` to
/// `col + 1` (for rows below the last), and the segment along column
/// `col + 1` from row `row` to `row + 1` (for columns below the last).
pub proof fn lemma_grid_draws_every_inner_segment()
    ensures
        forall|row: int, col: int|
            0 <= row < GRID_LINES - 1 && 0 <= col < GRID_LINES ==> {
                &&& #[trigger] grid_rows(GRID_LINES as nat)[grid_horizontal_at(row, col)]
                    == grid_vertex(row + 1, col)
                &&& grid_rows(GRID_LINES as nat)[grid_horizontal_at(row, col) + 1] == grid_vertex(
                    row + 1,
                    col + 1,
                )
            },
        forall|row: int, col: int|
            0 <= row < GRID_LINES && 0 <= col < GRID_LINES - 1 ==> {
                &&& #[trigger] grid_rows(GRID_LINES as nat)[grid_vertical_at(row, col)]
                    == grid_vertex(row, col + 1)
                &&& grid_rows(GRID_LINES as nat)[grid_vertical_at(row, col) + 1] == grid_vertex(
                    row + 1,
                    col + 1,
                )
            },
{
    let s = grid_rows(GRID_LINES as nat);
    assert forall|row: int, col: int|
        0 <= row < GRID_LINES - 1 && 0 <= col < GRID_LINES implies {
        &&& #[trigger] s[grid_horizontal_at(row, col)] == grid_vertex(row + 1, col)
        &&& s[grid_horizontal_at(row, col) + 1] == grid_vertex(row + 1, col + 1)
    } by {
        lemma_grid_cell_segments(row, col);
        lemma_grid_point_of_vertex(row + 1, col + 1);
        lemma_grid_rows_at(GRID_LINES as nat, row, col, 0);
        lemma_grid_rows_at(GRID_LINES as nat, row, col, 1);
    }
    assert forall|row: int, col: int|
        0 <= row < GRID_LINES && 0 <= col < GRID_LINES - 1 implies {
        &&& #[trigger] s[grid_vertical_at(row, col)] == grid_vertex(row, col + 1)
        &&& s[grid_vertical_at(row, col) + 1] == grid_vertex(row + 1, col + 1)
    } by {
        lemma_grid_cell_segments(row, col);
        lemma_grid_point_of_vertex(row + 1, col + 1);
        lemma_grid_point_of_vertex(row, col + 1);
        if row < GRID_LINES - 1 {
            lemma_grid_rows_at(GRID_LINES as nat, row, col, 2);
            lemma_grid_rows_at(GRID_LINES as nat, row, col, 3);
        } else {
            lemma_grid_rows_at(GRID_LINES as nat, row, col, 0);
            lemma_grid_rows_at(GRID_LINES as nat, row, col, 1);
        }
    }
}

/// The value of bytes `4k .. 4k + 4` of `bytes`, least significant first.
pub open spec fn word_little_endian(bytes: Seq<u8>, k: int) -> int {
    bytes[4 * k] + 256 * bytes[4 * k + 1] + 65536 * bytes[4 * k + 2] + 16777216 * bytes[4 * k
        + 3]
}

/// The value of bytes `4k .. 4k + 4` of `bytes`, most significant first.
pub open spec fn word_big_endian(bytes: Seq<u8>, k: int) -> int {
    bytes[4 * k + 3] + 256 * bytes[4 * k + 2] + 65536 * bytes[4 * k + 1] + 16777216 * bytes[4
        * k]
}

/// Whether `bytes` holds `indices`, four bytes to an index, all in one
/// byte order: little-endian throughout or big-endian throughout.
pub open spec fn holds_indices(indices: Seq<u32>, bytes: Seq<u8>) -> bool {
    &&& bytes.len() == 4 * indices.len()
    &&& {
        ||| forall|k: int|
            0 <= k < indices.len() ==> #[trigger] indices[k] as int == word_little_endian(
                bytes,
                k,
            )
        ||| forall|k: int|
            0 <= k < indices.len() ==> #[trigger] indices[k] as int == word_big_endian(bytes, k)
    }
}

/// Calls `bytemuck::cast_slice::<u32, u8>`, which views the index list as
/// its bytes (it cannot fail for this pair of types: `u8` has the smaller
/// alignment and divides every size), and copies them out. Stated: four
/// bytes to an index, each group of four being the memory of its index,
/// so its value in the machine's byte order, which is little-endian for
/// every index or big-endian for every index. Left unsaid: which of the
/// two orders the machine has.
#[verifier::external_body]
fn cast_index_bytes(indices: &[u32]) -> (bytes: Vec<u8>)
    ensures
        holds_indices(indices@, bytes@),
{
    bytemuck::cast_slice::<u32, u8>(indices).to_vec()
}

/// An index list as the GPU takes it: its bytes and the number of
/// indices a draw call reads.
pub struct IndexBuffer {
    pub bytes: Vec<u8>,
    pub count: u32,
}

impl IndexBuffer {
    /// The index buffer of `indices`: each index as its four bytes in
    /// the machine's byte order, and the index count taken as a `u32`
    /// (modulo 2^32, as a draw range holds it).
    pub fn new(indices: &[u32]) -> (r: Self)
        ensures
            r.bytes.len() == 4 * indices.len(),
            holds_indices(indices@, r.bytes@),
            r.count == indices.len() as u32,
    {
        let bytes = cast_index_bytes(indices);
        IndexBuffer { bytes, count: #[verifier::truncate] (indices.len() as u32) }
    }
}

} // verus!
