use p3_lib::connected_nodes::{
    all_sight_is_checkable, is_connected, sight_is_checkable, ConnectedNodes, ConnectedNodesMode, NavigationMatrix, NavigationVector, NavpointMatrix,
    NavpointMatrixCell,
};
use p3_lib::lines::{get_bresenham_line, get_p3_line};

#[test]
fn serialize_writes_little_endian_pairs() {
    let nodes = ConnectedNodes { connected_nodes: vec![(0x0102, 0x0304), (0xffff, 0)] };
    assert_eq!(nodes.serialize(), vec![0x02, 0x01, 0x04, 0x03, 0xff, 0xff, 0x00, 0x00]);
}

#[test]
fn deserialize_ignores_trailing_bytes() {
    let nodes = ConnectedNodes::deserialize(&[0x02, 0x01, 0x04, 0x03, 0x10, 0x20, 0x30]);
    assert_eq!(nodes.connected_nodes, vec![(0x0102, 0x0304)]);
    assert!(ConnectedNodes::deserialize(&[1, 2, 3]).connected_nodes.is_empty());
}

#[test]
fn deserialize_after_serialize_gives_the_edges_back() {
    let edges = vec![(1, 2), (2, 1), (300, 65535), (0, 0)];
    let nodes = ConnectedNodes { connected_nodes: edges.clone() };
    assert_eq!(ConnectedNodes::deserialize(&nodes.serialize()).connected_nodes, edges);
}

#[test]
fn serialize_after_deserialize_truncates_to_whole_edges() {
    let data = vec![9u8, 8, 7, 6, 5, 4, 3, 2, 1];
    let nodes = ConnectedNodes::deserialize(&data);
    assert_eq!(nodes.serialize(), data[..8].to_vec());
}

#[test]
fn get_neighbours_lists_edges_from_the_node_with_lengths() {
    let nodes = ConnectedNodes { connected_nodes: vec![(1, 2), (0, 1), (1, 5), (2, 1)] };
    let neighbours = nodes.get_neighbours(1, |a, b| (a as i32) * 100 + b as i32);
    assert_eq!(neighbours, vec![(2, 102), (5, 105)]);
    assert!(nodes.get_neighbours(7, |_, _| 1).is_empty());
}

#[test]
fn from_navpoint_matrix_keeps_direct_steps() {
    // Three nodes; cell (s, d) at s * 3 + d holds the next node towards d.
    let next = [0u16, 1, 1, 0, 1, 2, 1, 1, 2];
    let matrix = NavpointMatrix { matrix: next.iter().map(|&n| NavpointMatrixCell { next: n }).collect() };
    let nodes = ConnectedNodes::from_navpoint_matrix(&matrix);
    assert_eq!(nodes.connected_nodes, vec![(0, 0), (0, 1), (1, 0), (1, 1), (1, 2), (2, 1), (2, 2)]);
}

#[test]
fn from_navpoint_matrix_uses_the_whole_square_only() {
    // Ten cells make a 3 x 3 matrix; the last cell is ignored.
    let matrix = NavpointMatrix { matrix: (0..10).map(|_| NavpointMatrixCell { next: 0 }).collect() };
    let nodes = ConnectedNodes::from_navpoint_matrix(&matrix);
    assert_eq!(nodes.connected_nodes, vec![(0, 0), (1, 0), (2, 0)]);
}

#[test]
fn bresenham_line_example() {
    assert_eq!(get_bresenham_line(0, 0, 5, 2), vec![(0, 0), (1, 0), (2, 1), (3, 1), (4, 2), (5, 2)]);
}

#[test]
fn bresenham_line_single_point_and_steep_reverse() {
    assert_eq!(get_bresenham_line(3, -4, 3, -4), vec![(3, -4)]);
    assert_eq!(get_bresenham_line(2, 3, 1, 0), vec![(2, 3), (2, 2), (1, 1), (1, 0)]);
}

#[test]
fn bresenham_line_ends_at_the_end_point_with_neighbouring_steps() {
    for &(x0, y0, x1, y1) in &[(0i16, 0i16, 7i16, -3i16), (-5, 2, 4, 9), (10, 10, -2, 5), (0, 0, 0, 6)] {
        let line = get_bresenham_line(x0, y0, x1, y1);
        assert_eq!(line[0], (x0, y0));
        assert_eq!(*line.last().unwrap(), (x1, y1));
        for w in line.windows(2) {
            let (dx, dy) = ((w[1].0 - w[0].0).abs(), (w[1].1 - w[0].1).abs());
            assert!(dx <= 1 && dy <= 1 && (dx, dy) != (0, 0));
        }
    }
}

#[test]
fn p3_line_examples() {
    assert_eq!(get_p3_line(0, 0, 5, 2), vec![(0, 0), (1, 0), (2, 1), (3, 1), (4, 2), (5, 2)]);
    // The diff reaching exactly zero records the point before the y step.
    assert_eq!(get_p3_line(0, 0, 2, 1), vec![(0, 0), (1, 0), (2, 1)]);
    // Steep lines take one point per column only.
    assert_eq!(get_p3_line(0, 0, 1, 3), vec![(0, 0), (1, 1)]);
    assert_eq!(get_p3_line(4, 4, 4, 9), vec![(4, 4)]);
}

#[test]
fn p3_line_has_one_point_per_column() {
    let line = get_p3_line(10, -3, 2, 4);
    assert_eq!(line.len(), 9);
    for (j, p) in line.iter().enumerate() {
        assert_eq!(p.0, 10 - j as i16);
    }
    assert_eq!(line[0], (10, -3));
}

fn grid() -> NavigationMatrix {
    // 4 x 2 grid, blocked at (2, 0).
    NavigationMatrix { width: 4, data: vec![0, 0, 1, 0, 0, 0, 0, 0] }
}

#[test]
fn is_connected_checks_the_row_of_the_first_point() {
    let g = grid();
    assert!(is_connected((0, 0), (0, 0), &g, ConnectedNodesMode::BresenhamLine));
    assert!(is_connected((0, 0), (1, 1), &g, ConnectedNodesMode::BresenhamLine));
    assert!(!is_connected((0, 0), (3, 1), &g, ConnectedNodesMode::BresenhamLine));
    assert!(is_connected((0, 1), (3, 0), &g, ConnectedNodesMode::BresenhamLine));
}

#[test]
fn from_navigation_matrix_connects_visible_points() {
    let g = grid();
    let vector = NavigationVector { points: vec![(0, 0), (3, 0), (0, 1)] };
    let nodes = ConnectedNodes::from_navigation_matrix_p3(&vector, &g, ConnectedNodesMode::BresenhamLine);
    assert_eq!(nodes.connected_nodes, vec![(0, 0), (0, 2), (1, 1), (2, 0), (2, 1), (2, 2)]);
    let from_one = ConnectedNodes::sight_edges_of(&vector, 1, &g, ConnectedNodesMode::BresenhamLine);
    assert_eq!(from_one, vec![(1, 1)]);
}

#[test]
fn is_connected_on_a_grid_of_width_zero_reads_the_columns() {
    let g = NavigationMatrix { width: 0, data: vec![0, 0, 0, 1] };
    assert!(is_connected((0, -1), (2, -1), &g, ConnectedNodesMode::BresenhamLine));
    assert!(!is_connected((0, 5), (3, 0), &g, ConnectedNodesMode::BresenhamLine));
}

#[test]
fn sight_checks_stay_on_the_grid_up_to_the_first_blocked_cell() {
    let g = grid();
    assert!(sight_is_checkable((0, 0), (3, 1), &g));
    assert!(sight_is_checkable((0, 1), (3, 1), &g));
    assert!(sight_is_checkable((3, 1), (3, 1), &g));
    assert!(!sight_is_checkable((0, 1), (5, 0), &g));
    let vector = NavigationVector { points: vec![(0, 0), (3, 0), (0, 1)] };
    assert!(all_sight_is_checkable(&vector, &g));
    let vector = NavigationVector { points: vec![(0, 0), (3, 0), (0, 1), (5, 1)] };
    assert!(!all_sight_is_checkable(&vector, &g));
}

#[test]
fn p3_line_moves_with_its_end_points() {
    let line = get_p3_line(10, 20, 17, 23);
    let moved = get_p3_line(110, 220, 117, 223);
    let expected: Vec<(i16, i16)> = line.iter().map(|&(x, y)| (x + 100, y + 200)).collect();
    assert_eq!(moved, expected);
}
