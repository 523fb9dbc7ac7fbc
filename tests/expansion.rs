use appetizer::object::{Object, Vertex, VertexIndex};

fn coords(v: &[&str]) -> Vec<Vec<char>> {
    v.iter().map(|s| s.chars().collect()).collect()
}

fn vertex() -> Vertex {
    Vertex {
        position: coords(&["0", "0", "0"]),
        normal: coords(&["0", "0", "1"]),
        uv: coords(&["0", "0"]),
    }
}

#[test]
fn last_triangle_wins_for_shared_vertices() {
    let obj = Object {
        vertexes: (0..5).map(|_| vertex()).collect(),
        triangle_indices: vec![VertexIndex(0, 1, 2), VertexIndex(2, 3, 0), VertexIndex(3, 3, 3)],
    };
    assert_eq!(obj.tangent_sources(), vec![Some(1), Some(0), Some(1), Some(2), None]);
}

#[test]
fn unshared_vertices_take_their_own_triangle() {
    let obj = Object {
        vertexes: (0..6).map(|_| vertex()).collect(),
        triangle_indices: vec![VertexIndex(0, 1, 2), VertexIndex(3, 4, 5)],
    };
    assert_eq!(
        obj.tangent_sources(),
        vec![Some(0), Some(0), Some(0), Some(1), Some(1), Some(1)]
    );
}

#[test]
fn no_triangles_means_no_frames() {
    let obj = Object { vertexes: vec![vertex(), vertex()], triangle_indices: vec![] };
    assert_eq!(obj.tangent_sources(), vec![None, None]);
    let empty = Object { vertexes: vec![], triangle_indices: vec![] };
    assert!(empty.tangent_sources().is_empty());
}

#[test]
fn expansion_plan_is_repeatable() {
    let obj = Object {
        vertexes: (0..4).map(|_| vertex()).collect(),
        triangle_indices: vec![VertexIndex(0, 1, 2), VertexIndex(1, 2, 3)],
    };
    assert_eq!(obj.tangent_sources(), obj.tangent_sources());
}
