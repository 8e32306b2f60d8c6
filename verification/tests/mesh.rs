use gravity_sim::mesh::{grid_indices, grid_lattice, sphere_indices, sphere_lattice, GRID_LINES, SPHERE_POINTS, SPHERE_RINGS};

#[test]
fn sphere_lattice_is_ring_major() {
    let v = sphere_lattice();
    assert_eq!(v.len(), 156);
    assert_eq!(v.len() as u32, (SPHERE_RINGS + 1) * SPHERE_POINTS);
    assert_eq!(v[0], (0, 0));
    assert_eq!(v[11], (0, 11));
    assert_eq!(v[12], (1, 0));
    assert_eq!(v[155], (12, 11));
    for (k, &(ring, point)) in v.iter().enumerate() {
        assert_eq!(ring as usize, k / 12);
        assert_eq!(point as usize, k % 12);
    }
}

#[test]
fn sphere_indices_form_quads() {
    let idx = sphere_indices();
    assert_eq!(idx.len(), 864);
    assert_eq!(&idx[0..6], &[0, 1, 12, 12, 1, 13]);
    // the last quad of the first ring wraps round to its first point
    assert_eq!(&idx[66..72], &[11, 0, 23, 23, 0, 12]);
    // the last quad of all
    assert_eq!(&idx[858..864], &[143, 132, 155, 155, 132, 144]);
    assert!(idx.iter().all(|&i| i < 156));
}

#[test]
fn sphere_triangles_join_neighbours() {
    let idx = sphere_indices();
    for q in 0..144usize {
        let (ring, seg) = (q / 12, q % 12);
        let quad = &idx[6 * q..6 * q + 6];
        assert_eq!(quad[0] as usize, ring * 12 + seg);
        assert_eq!(quad[1] as usize, ring * 12 + (seg + 1) % 12);
        assert_eq!(quad[2] as usize, (ring + 1) * 12 + seg);
        assert_eq!(quad[5] as usize, (ring + 1) * 12 + (seg + 1) % 12);
        assert_eq!(quad[3], quad[2]);
        assert_eq!(quad[4], quad[1]);
    }
}

#[test]
fn grid_lattice_is_row_major() {
    let v = grid_lattice();
    assert_eq!(GRID_LINES, 200);
    assert_eq!(v.len(), 201 * 201);
    assert_eq!(v[0], (0, 0));
    assert_eq!(v[200], (200, 0));
    assert_eq!(v[201], (0, 1));
    assert_eq!(v[202], (1, 1));
    assert_eq!(v[40400], (200, 200));
}

#[test]
fn grid_line_list_shape() {
    let idx = grid_indices();
    assert_eq!(idx.len(), 159200);
    // cell (0, 0): along row 1 from column 0, then along column 1 from row 0
    assert_eq!(&idx[0..4], &[201, 202, 1, 202]);
    // cell (0, 199): the vertical segment at column 200 is not drawn
    assert_eq!(&idx[796..798], &[201 + 199, 201 + 200]);
    // row 199 of cells draws no segments along row 200
    assert_eq!(&idx[158802..158804], &[199 * 201 + 1, 200 * 201 + 1]);
    assert!(idx.iter().all(|&i| i < 40401));
}

#[test]
fn grid_segments_join_neighbours() {
    let idx = grid_indices();
    for pair in idx.chunks(2) {
        let (a, b) = (pair[0], pair[1]);
        let horizontal = b == a + 1 && a % 201 < 200;
        let vertical = b == a + 201;
        assert!(horizontal || vertical, "{} {}", a, b);
    }
}

#[test]
fn index_buffer_holds_each_index_as_four_bytes() {
    let indices = [1u32, 0x0102_0304, 40400];
    let buffer = gravity_sim::mesh::IndexBuffer::new(&indices);
    assert_eq!(buffer.count, 3);
    assert_eq!(buffer.bytes.len(), 12);
    for (k, &i) in indices.iter().enumerate() {
        let chunk = [buffer.bytes[4 * k], buffer.bytes[4 * k + 1], buffer.bytes[4 * k + 2], buffer.bytes[4 * k + 3]];
        assert_eq!(u32::from_ne_bytes(chunk), i);
    }
    let empty = gravity_sim::mesh::IndexBuffer::new(&[]);
    assert_eq!(empty.count, 0);
    assert!(empty.bytes.is_empty());
}

#[test]
fn sphere_index_buffer() {
    let buffer = gravity_sim::mesh::IndexBuffer::new(&sphere_indices());
    assert_eq!(buffer.count, 864);
    assert_eq!(buffer.bytes.len(), 4 * 864);
}
