use kl_lords::terrain::terrain_mesh::heightfield_indices;
use kl_lords::terrain::mesh_generator::{simplification_increment, vertex_sample_indices, MeshData, MeshGenerator};

#[test]
fn level_of_detail_increments() {
    assert_eq!(simplification_increment(0), 1);
    assert_eq!(simplification_increment(1), 2);
    assert_eq!(simplification_increment(2), 4);
    assert_eq!(simplification_increment(3), 8);
    assert_eq!(simplification_increment(4), 16);
    assert_eq!(simplification_increment(9), 16);
}

#[test]
fn sample_indices_keep_the_last_sample() {
    assert_eq!(vertex_sample_indices(5, 1), vec![0, 1, 2, 3, 4]);
    assert_eq!(vertex_sample_indices(6, 2), vec![0, 1, 3, 4, 5]);
    assert_eq!(vertex_sample_indices(7, 2), vec![0, 1, 3, 5, 6]);
    assert_eq!(vertex_sample_indices(3, 16), vec![0, 1, 2]);
    let coarse = vertex_sample_indices(243, 16);
    assert_eq!(coarse.len(), 18);
    assert_eq!(coarse[16], 241);
    assert_eq!(coarse[17], 242);
}

#[test]
fn small_mesh_numbering_and_triangles() {
    let layout = MeshGenerator::generate_terrain_mesh(5, 0);
    assert_eq!(layout.sample_indices, vec![0, 1, 2, 3, 4]);
    let map = &layout.vertex_indices_map;
    assert_eq!(map.len(), 5);
    assert_eq!(map[1][1], 0);
    assert_eq!(map[2][1], 1);
    assert_eq!(map[1][2], 3);
    assert_eq!(map[3][3], 8);
    assert_eq!(map[0][0], (-1i32) as u32);
    assert_eq!(map[4][0], (-5i32) as u32);
    assert_eq!(map[0][1], (-6i32) as u32);
    assert_eq!(map[4][1], (-7i32) as u32);
    assert_eq!(map[4][4], (-16i32) as u32);
    let mesh: &MeshData = &layout.mesh_data;
    assert_eq!(mesh.vertices.len(), 9);
    assert_eq!(mesh.uvs.len(), 9);
    assert_eq!(mesh.normals.len(), 9);
    assert_eq!(mesh.triangles.len(), 24);
    assert_eq!(&mesh.triangles[0..6], &[0, 4, 3, 4, 0, 1]);
    assert_eq!(&mesh.triangles[6..12], &[1, 5, 4, 5, 1, 2]);
    assert_eq!(&mesh.triangles[18..24], &[4, 8, 7, 8, 4, 5]);
    assert!(mesh.triangles.iter().all(|&t| t < 9));
}

#[test]
fn mesh_at_lower_detail() {
    let layout = MeshGenerator::generate_terrain_mesh(7, 1);
    assert_eq!(layout.sample_indices, vec![0, 1, 3, 5, 6]);
    let map = &layout.vertex_indices_map;
    assert_eq!(map[1][1], 0);
    assert_eq!(map[5][5], 8);
    assert_eq!(map[2][2], 0);
    assert_eq!(map[2][1], 0);
    assert_eq!(layout.mesh_data.triangles.len(), 24);
    assert_eq!(&layout.mesh_data.triangles[0..6], &[0, 4, 3, 4, 0, 1]);
}

#[test]
fn single_vertex_mesh_has_only_border_triangles() {
    let layout = MeshGenerator::generate_terrain_mesh(3, 0);
    assert_eq!(layout.mesh_data.vertices.len(), 1);
    assert_eq!(layout.mesh_data.triangles.len(), 0);
}

#[test]
fn vertices_and_border_vertices_are_stored_apart() {
    let mut layout = MeshGenerator::generate_terrain_mesh(4, 0);
    let mesh = &mut layout.mesh_data;
    mesh.add_vertex([1, 2, 3], [4, 5], 3);
    mesh.add_vertex([7, 8, 9], [0, 0], -1);
    assert_eq!(mesh.vertices[3], [1, 2, 3]);
    assert_eq!(mesh.uvs[3], [4, 5]);
    assert_eq!(mesh.vertices[0], [0, 0, 0]);
}

#[test]
fn every_vertex_numbered_once() {
    for (size, lod) in [(9usize, 1u32), (12, 2), (20, 0), (3, 4)] {
        let layout = MeshGenerator::generate_terrain_mesh(size, lod);
        let samples = &layout.sample_indices;
        let last = size - 1;
        let mut mesh_codes = Vec::new();
        let mut border_codes = Vec::new();
        for &y in samples {
            for &x in samples {
                let code = layout.vertex_indices_map[x][y];
                if x == 0 || y == 0 || x == last || y == last {
                    border_codes.push(code as i32);
                } else {
                    mesh_codes.push(code);
                }
            }
        }
        let v = (samples.len() - 2) as u32;
        mesh_codes.sort();
        assert_eq!(mesh_codes, (0..v * v).collect::<Vec<u32>>());
        border_codes.sort();
        let expected: Vec<i32> = (-(4 * v as i32 + 4)..=-1).collect();
        assert_eq!(border_codes, expected);
        assert!(layout.mesh_data.triangles.iter().all(|&t| t < v * v));
    }
}

#[test]
fn heightfield_triangles() {
    assert_eq!(heightfield_indices(2, 2), vec![0, 2, 1, 1, 2, 3]);
    assert_eq!(heightfield_indices(3, 2), vec![0, 3, 1, 1, 3, 4, 1, 4, 2, 2, 4, 5]);
    assert_eq!(heightfield_indices(1, 5), vec![]);
    let big = heightfield_indices(9, 7);
    assert_eq!(big.len(), 8 * 6 * 6);
    assert!(big.iter().all(|&i| i < 63));
}
