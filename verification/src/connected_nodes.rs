use vstd::prelude::*;

use crate::lines::{bresenham_line, bresenham_line_fits, get_bresenham_line, lemma_bresenham_line_fits_on_map};

use crate::bytes::{lemma_row_col, hi_byte, lemma_u16_le_bytes_roundtrip, lemma_u16_le_roundtrip, lo_byte, u16_from_le, u16_hi, u16_le, u16_lo};

verus! {

/// The directed edges `(source, destination)` of the navigation graph.
#[derive(Debug, Clone)]
pub struct ConnectedNodes {
    pub connected_nodes: Vec<(u16, u16)>,
}

/// Byte `j` of the serialized form of `nodes`: each edge takes four bytes,
/// source then destination, each little-endian.
pub open spec fn serialized_byte(nodes: Seq<(u16, u16)>, j: int) -> u8 {
    let pair = nodes[j / 4];
    let k = j % 4;
    if k == 0 {
        lo_byte(pair.0)
    } else if k == 1 {
        hi_byte(pair.0)
    } else if k == 2 {
        lo_byte(pair.1)
    } else {
        hi_byte(pair.1)
    }
}

/// The serialized form of a list of edges.
pub open spec fn spec_serialize(nodes: Seq<(u16, u16)>) -> Seq<u8> {
    Seq::new(4 * nodes.len(), |j: int| serialized_byte(nodes, j))
}

/// The edges read back from `data`: one per whole group of four bytes, any
/// trailing bytes ignored.
pub open spec fn spec_deserialize(data: Seq<u8>) -> Seq<(u16, u16)> {
    Seq::new(
        data.len() / 4,
        |i: int| (u16_le(data[4 * i], data[4 * i + 1]), u16_le(data[4 * i + 2], data[4 * i + 3])),
    )
}

impl ConnectedNodes {
    /// Writes the edges as consecutive little-endian `u16` pairs.
    pub fn serialize(&self) -> (buf: Vec<u8>)
        requires
            4 * self.connected_nodes@.len() <= usize::MAX,
        ensures
            buf@ == spec_serialize(self.connected_nodes@),
    {
        let mut buf: Vec<u8> = vec![];
        let n = self.connected_nodes.len();
        let mut i: usize = 0;
        while i < n
            invariant
                n == self.connected_nodes@.len(),
                4 * n <= usize::MAX,
                i <= n,
                buf@ == spec_serialize(self.connected_nodes@.take(i as int)),
            decreases n - i,
        {
            let pair = self.connected_nodes[i];
            let ghost prev = buf@;
            buf.push(u16_lo(pair.0));
            buf.push(u16_hi(pair.0));
            buf.push(u16_lo(pair.1));
            buf.push(u16_hi(pair.1));
            proof {
                let s = self.connected_nodes@.take(i + 1);
                assert forall|j: int| 0 <= j < 4 * s.len() implies buf@[j] == serialized_byte(s, j) by {
                    if j < 4 * i {
                        assert(s[j / 4] == self.connected_nodes@.take(i as int)[j / 4]);
                    } else {
                        assert(j / 4 == i);
                    }
                }
                assert(buf@ =~= spec_serialize(s));
            }
            i = i + 1;
        }
        assert(self.connected_nodes@.take(n as int) =~= self.connected_nodes@);
        buf
    }

    /// Reads one edge from each whole group of four bytes of `data`.
    pub fn deserialize(data: &[u8]) -> (nodes: Self)
        ensures
            nodes.connected_nodes@ == spec_deserialize(data@),
    {
        let dlen = data.len();
        let len = dlen / 4;
        let mut connected_nodes: Vec<(u16, u16)> = Vec::with_capacity(len);
        let mut i: usize = 0;
        while i < len
            invariant
                dlen == data@.len(),
                len == dlen / 4,
                i <= len,
                connected_nodes@ == spec_deserialize(data@).take(i as int),
            decreases len - i,
        {
            let source = u16_from_le(data[i * 4], data[i * 4 + 1]);
            let destination = u16_from_le(data[i * 4 + 2], data[i * 4 + 3]);
            connected_nodes.push((source, destination));
            assert(connected_nodes@ =~= spec_deserialize(data@).take(i + 1));
            i = i + 1;
        }
        assert(spec_deserialize(data@).take(len as int) =~= spec_deserialize(data@));
        Self { connected_nodes }
    }
}

/// Reading back what was written gives the same edges.
pub proof fn lemma_deserialize_serialize(nodes: Seq<(u16, u16)>)
    ensures
        spec_deserialize(spec_serialize(nodes)) == nodes,
{
    let data = spec_serialize(nodes);
    assert forall|i: int| 0 <= i < nodes.len() implies #[trigger] spec_deserialize(data)[i] == nodes[i] by {
        assert((4 * i) / 4 == i);
        assert((4 * i + 1) / 4 == i && (4 * i + 1) % 4 == 1);
        assert((4 * i + 2) / 4 == i && (4 * i + 2) % 4 == 2);
        assert((4 * i + 3) / 4 == i && (4 * i + 3) % 4 == 3);
        lemma_u16_le_roundtrip(nodes[i].0);
        lemma_u16_le_roundtrip(nodes[i].1);
    }
    assert(spec_deserialize(data) =~= nodes);
}

/// Writing what was read gives back the input up to its last whole group of
/// four bytes.
pub proof fn lemma_serialize_deserialize(data: Seq<u8>)
    ensures
        spec_serialize(spec_deserialize(data)) == data.take(4 * (data.len() as int / 4)),
{
    let nodes = spec_deserialize(data);
    let out = spec_serialize(nodes);
    assert forall|j: int| 0 <= j < 4 * (data.len() / 4) implies #[trigger] out[j] == data[j] by {
        let i = j / 4;
        let k = j % 4;
        assert(j == 4 * i + k);
        lemma_u16_le_bytes_roundtrip(data[4 * i], data[4 * i + 1]);
        lemma_u16_le_bytes_roundtrip(data[4 * i + 2], data[4 * i + 3]);
    }
    assert(out =~= data.take(4 * (data.len() as int / 4)));
}

} // verus!

verus! {

/// How two navigation points are tested for a clear line of sight.
#[derive(Debug, Clone, Copy, PartialEq, Eq, Structural)]
pub enum ConnectedNodesMode {
    BresenhamLine,
}

/// The navigation grid: `data[x + width * y]` is 1 where ships cannot sail.
#[derive(Debug, Clone)]
pub struct NavigationMatrix {
    pub width: u16,
    pub data: Vec<u8>,
}

/// One cell of the navpoint matrix: the node to sail to next.
#[derive(Debug, Clone, Copy)]
pub struct NavpointMatrixCell {
    pub next: u16,
}

/// The navpoint matrix: for every source and destination node (row-major, one
/// row per source) the next node on the way.
#[derive(Debug, Clone)]
pub struct NavpointMatrix {
    pub matrix: Vec<NavpointMatrixCell>,
}

/// The edges that leave `node`, in order.
pub open spec fn edges_from(nodes: Seq<(u16, u16)>, node: u16) -> Seq<(u16, u16)> {
    nodes.filter(|e: (u16, u16)| e.0 == node)
}

proof fn lemma_filter_push_edges(s: Seq<(u16, u16)>, x: (u16, u16), node: u16)
    ensures
        edges_from(s.push(x), node) == if x.0 == node {
            edges_from(s, node).push(x)
        } else {
            edges_from(s, node)
        },
{
    reveal(Seq::filter);
    assert(s.push(x).drop_last() =~= s);
}

impl ConnectedNodes {
    /// The neighbours of `node_index`: for each edge leaving it, in order, the
    /// destination and the length of the path to it that `path_length` gives.
    pub fn get_neighbours<F: Fn(u16, u16) -> i32>(&self, node_index: u16, path_length: F) -> (neighbours: Vec<(u16, i32)>)
        requires
            forall|s: u16, d: u16| call_requires(path_length, (s, d)),
        ensures
            neighbours@.len() == edges_from(self.connected_nodes@, node_index).len(),
            forall|j: int|
                0 <= j < neighbours@.len() ==> {
                    let e = edges_from(self.connected_nodes@, node_index)[j];
                    &&& (#[trigger] neighbours@[j]).0 == e.1
                    &&& call_ensures(path_length, (e.0, e.1), neighbours@[j].1)
                },
    {
        let mut neighbours: Vec<(u16, i32)> = vec![];
        let mut i: usize = 0;
        while i < self.connected_nodes.len()
            invariant
                i <= self.connected_nodes@.len(),
                forall|s: u16, d: u16| call_requires(path_length, (s, d)),
                neighbours@.len() == edges_from(self.connected_nodes@.take(i as int), node_index).len(),
                forall|j: int|
                    0 <= j < neighbours@.len() ==> {
                        let e = edges_from(self.connected_nodes@.take(i as int), node_index)[j];
                        &&& (#[trigger] neighbours@[j]).0 == e.1
                        &&& call_ensures(path_length, (e.0, e.1), neighbours@[j].1)
                    },
            decreases self.connected_nodes@.len() - i,
        {
            let n = self.connected_nodes[i];
            proof {
                assert(self.connected_nodes@.take(i + 1) =~= self.connected_nodes@.take(i as int).push(n));
                lemma_filter_push_edges(self.connected_nodes@.take(i as int), n, node_index);
            }
            if n.0 == node_index {
                let length = path_length(n.0, n.1);
                neighbours.push((n.1, length));
            }
            i += 1;
        }
        assert(self.connected_nodes@.take(self.connected_nodes@.len() as int) =~= self.connected_nodes@);
        neighbours
    }
}

/// std's `usize::isqrt`: the square root rounded down.
#[verifier::external_body]
fn isqrt(n: usize) -> (r: usize)
    ensures
        r * r <= n < (r + 1) * (r + 1),
{
    n.isqrt()
}

/// The edges that a navpoint matrix with `n` nodes records among its first `q`
/// cells: `(source, destination)` wherever the next node towards the destination
/// is the destination itself.
pub open spec fn direct_edges(matrix: Seq<NavpointMatrixCell>, n: int, q: int) -> Seq<(u16, u16)>
    decreases q,
{
    if q <= 0 {
        Seq::empty()
    } else {
        let prev = direct_edges(matrix, n, q - 1);
        let s = (q - 1) / n;
        let d = (q - 1) % n;
        if matrix[q - 1].next == d as u16 {
            prev.push((s as u16, d as u16))
        } else {
            prev
        }
    }
}

/// The number of nodes of a navpoint matrix with `len` cells.
pub open spec fn node_count(len: int, n: int) -> bool {
    n >= 0 && n * n <= len < (n + 1) * (n + 1)
}

impl ConnectedNodes {
    /// The edges of the navigation graph that a navpoint matrix implies: from
    /// every node to each node that is its own next step.
    pub fn from_navpoint_matrix(navpoint_matrix: &NavpointMatrix) -> (nodes: Self)
        ensures
            exists|n: int|
                node_count(navpoint_matrix.matrix@.len() as int, n) && nodes.connected_nodes@ == direct_edges(
                    navpoint_matrix.matrix@,
                    n,
                    n * n,
                ),
    {
        let matrix = &navpoint_matrix.matrix;
        let len = matrix.len();
        let nodes_count = isqrt(len);
        let ghost n = nodes_count as int;
        let mut nodes: Vec<(u16, u16)> = vec![];
        let mut source_index: usize = 0;
        while source_index < nodes_count
            invariant
                n == nodes_count,
                len == matrix@.len(),
                n * n <= len,
                source_index <= n,
                nodes@ == direct_edges(matrix@, n, source_index * n),
            decreases n - source_index,
        {
            proof {
                assert(source_index * n + n <= n * n) by (nonlinear_arith)
                    requires
                        source_index < n,
                ;
            }
            let mut destination_index: usize = 0;
            while destination_index < nodes_count
                invariant
                    n == nodes_count,
                    len == matrix@.len(),
                    n * n <= len,
                    source_index < n,
                    source_index * n + n <= n * n,
                    destination_index <= n,
                    nodes@ == direct_edges(matrix@, n, source_index * n + destination_index),
                decreases n - destination_index,
            {
                proof {
                    lemma_row_col(source_index as int, destination_index as int, n);
                }
                let cell = matrix[source_index * nodes_count + destination_index];
                if cell.next == destination_index as u16 {
                    nodes.push((source_index as u16, destination_index as u16));
                }
                destination_index += 1;
            }
            proof {
                lemma_row_col(source_index as int, 0, n);
            }
            source_index += 1;
        }
        assert(node_count(len as int, n));
        ConnectedNodes { connected_nodes: nodes }
    }
}

} // verus!

verus! {

/// Whether the cell of `p` lies within the navigation grid's data: its column is
/// not negative, nor its row (unless the grid has width 0, where every row
/// starts at cell 0), and its index is below the data's length.
pub open spec fn on_grid(grid: NavigationMatrix, p: (i16, i16)) -> bool {
    p.0 >= 0 && (p.1 >= 0 || grid.width == 0) && p.0 + grid.width * p.1 < grid.data@.len()
}

/// Whether the grid blocks ships at `p`.
pub open spec fn blocked(grid: NavigationMatrix, p: (i16, i16)) -> bool {
    grid.data@[p.0 + grid.width * p.1] == 1
}

/// Whether checking the points of `line` from the `k`-th on, up to the first
/// blocked one, only looks at points on the grid.
pub open spec fn scan_on_grid(grid: NavigationMatrix, line: Seq<(i16, i16)>, k: int) -> bool
    decreases line.len() - k,
{
    if k < 0 || k >= line.len() {
        true
    } else {
        on_grid(grid, line[k]) && (!blocked(grid, line[k]) ==> scan_on_grid(grid, line, k + 1))
    }
}

/// The line along which `p0` and `p1` are checked: from `p0` to the column of
/// `p1`, staying in the row of `p0`.
pub open spec fn sight_line(p0: (i16, i16), p1: (i16, i16)) -> Seq<(i16, i16)> {
    bresenham_line(p0.0 as int, p0.1 as int, p1.0 as int, p0.1 as int)
}

/// Whether checking `p0` against `p1` stays within `i16` and on the grid.
pub open spec fn sight_checkable(p0: (i16, i16), p1: (i16, i16), grid: NavigationMatrix) -> bool {
    p0 != p1 ==> bresenham_line_fits(p0.0 as int, p0.1 as int, p1.0 as int, p0.1 as int) && scan_on_grid(
        grid,
        sight_line(p0, p1),
        0,
    )
}

/// Whether ships can sail directly between `p0` and `p1`.
pub open spec fn spec_is_connected(p0: (i16, i16), p1: (i16, i16), grid: NavigationMatrix) -> bool {
    p0 == p1 || forall|k: int| 0 <= k < sight_line(p0, p1).len() ==> !blocked(grid, #[trigger] sight_line(p0, p1)[k])
}

/// Whether ships can sail directly from `p0` to `p1`: no cell of the line of
/// sight is blocked.
pub fn is_connected(p0: (i16, i16), p1: (i16, i16), navigation_matrix: &NavigationMatrix, mode: ConnectedNodesMode) -> (res: bool)
    requires
        sight_checkable(p0, p1, *navigation_matrix),
    ensures
        res == spec_is_connected(p0, p1, *navigation_matrix),
{
    if p0.0 == p1.0 && p0.1 == p1.1 {
        return true;
    }
    let line = match mode {
        ConnectedNodesMode::BresenhamLine => get_bresenham_line(p0.0, p0.1, p1.0, p0.1),
    };
    let ghost grid = *navigation_matrix;
    let width = navigation_matrix.width as usize;
    let dlen = navigation_matrix.data.len();
    let mut k: usize = 0;
    while k < line.len()
        invariant
            line@ == sight_line(p0, p1),
            !(p0.0 == p1.0 && p0.1 == p1.1),
            grid == *navigation_matrix,
            width == grid.width,
            dlen == grid.data@.len(),
            k <= line@.len(),
            scan_on_grid(grid, line@, k as int),
            forall|j: int| 0 <= j < k ==> !blocked(grid, #[trigger] line@[j]),
        decreases line@.len() - k,
    {
        let point = line[k];
        assert(on_grid(grid, point));
        let row: usize = if width == 0 { 0 } else { point.1 as usize };
        assert(0 <= width * row && width * row == width * point.1 && point.0 + width * row < dlen) by (nonlinear_arith)
            requires
                point.1 >= 0 || width == 0,
                width == 0 ==> row == 0,
                width != 0 ==> row == point.1,
                point.0 >= 0,
                width >= 0,
                point.0 + width * point.1 < dlen,
        ;
        let index = point.0 as usize + width * row;
        if navigation_matrix.data[index] == 1 {
            assert(index as int == point.0 + width * point.1);
            assert(blocked(grid, line@[k as int]));
            assert(p0 != p1);
            return false;
        }
        k += 1;
    }
    true
}

} // verus!

verus! {

/// The navigation points, indexed by node.
#[derive(Debug, Clone)]
pub struct NavigationVector {
    pub points: Vec<(i16, i16)>,
}

/// The edges from node `s` to the first `d` nodes that it can see.
pub open spec fn sight_edges_from(points: Seq<(i16, i16)>, grid: NavigationMatrix, s: int, d: int) -> Seq<(u16, u16)>
    decreases d,
{
    if d <= 0 {
        Seq::empty()
    } else {
        let prev = sight_edges_from(points, grid, s, d - 1);
        if spec_is_connected(points[s], points[d - 1], grid) {
            prev.push((s as u16, (d - 1) as u16))
        } else {
            prev
        }
    }
}

/// The edges from the first `s` nodes to every node that they can see.
pub open spec fn sight_edges(points: Seq<(i16, i16)>, grid: NavigationMatrix, s: int) -> Seq<(u16, u16)>
    decreases s,
{
    if s <= 0 {
        Seq::empty()
    } else {
        sight_edges(points, grid, s - 1) + sight_edges_from(points, grid, s - 1, points.len() as int)
    }
}

/// Whether every pair of points can be checked against each other.
pub open spec fn all_sight_checkable(points: Seq<(i16, i16)>, grid: NavigationMatrix) -> bool {
    forall|s: int, d: int|
        0 <= s < points.len() && 0 <= d < points.len() ==> sight_checkable(#[trigger] points[s], #[trigger] points[d], grid)
}

/// Whether `p` lies on a map of up to 8000 by 8000 cells.
pub open spec fn on_map(p: (i16, i16)) -> bool {
    0 <= p.0 <= 8000 && 0 <= p.1 <= 8000
}

/// Whether `is_connected` may be called on the points `p0` and `p1` of the map
/// (`sight_checkable`): its line of sight stays on the grid up to the first
/// blocked cell.
pub fn sight_is_checkable(p0: (i16, i16), p1: (i16, i16), navigation_matrix: &NavigationMatrix) -> (r: bool)
    requires
        on_map(p0),
        on_map(p1),
    ensures
        r == sight_checkable(p0, p1, *navigation_matrix),
{
    if p0.0 == p1.0 && p0.1 == p1.1 {
        return true;
    }
    proof {
        lemma_bresenham_line_fits_on_map(p0.0, p0.1, p1.0, p0.1);
    }
    let line = get_bresenham_line(p0.0, p0.1, p1.0, p0.1);
    let ghost grid = *navigation_matrix;
    let width = navigation_matrix.width as usize;
    let dlen = navigation_matrix.data.len();
    let mut k: usize = 0;
    while k < line.len()
        invariant
            line@ == sight_line(p0, p1),
            p0 != p1,
            bresenham_line_fits(p0.0 as int, p0.1 as int, p1.0 as int, p0.1 as int),
            grid == *navigation_matrix,
            width == grid.width,
            dlen == grid.data@.len(),
            k <= line@.len(),
            scan_on_grid(grid, line@, 0) == scan_on_grid(grid, line@, k as int),
        decreases line@.len() - k,
    {
        let point = line[k];
        if point.0 < 0 || (point.1 < 0 && width != 0) {
            assert(!on_grid(grid, line@[k as int]));
            return false;
        }
        let row: usize = if width == 0 { 0 } else { point.1 as usize };
        assert(0 <= width * row <= 0xffff * 0x7fff && width * row == width * point.1) by (nonlinear_arith)
            requires
                point.1 >= 0 || width == 0,
                width == 0 ==> row == 0,
                width != 0 ==> row == point.1,
                width <= 0xffff,
                point.1 <= 0x7fff,
        ;
        let index = point.0 as usize + width * row;
        if index >= dlen {
            assert(!on_grid(grid, line@[k as int]));
            return false;
        }
        if navigation_matrix.data[index] == 1 {
            assert(blocked(grid, line@[k as int]));
            return true;
        }
        k += 1;
    }
    true
}

/// Whether the navigation graph of the points of the map may be built
/// (`all_sight_checkable`).
pub fn all_sight_is_checkable(navigation_vector: &NavigationVector, navigation_matrix: &NavigationMatrix) -> (r: bool)
    requires
        forall|i: int| 0 <= i < navigation_vector.points@.len() ==> on_map(#[trigger] navigation_vector.points@[i]),
    ensures
        r == all_sight_checkable(navigation_vector.points@, *navigation_matrix),
{
    let points = &navigation_vector.points;
    let n = points.len();
    let mut s: usize = 0;
    while s < n
        invariant
            n == points@.len(),
            points@ == navigation_vector.points@,
            s <= n,
            forall|i: int| 0 <= i < n ==> on_map(#[trigger] points@[i]),
            forall|i: int, j: int|
                0 <= i < s && 0 <= j < n ==> sight_checkable(#[trigger] points@[i], #[trigger] points@[j], *navigation_matrix),
        decreases n - s,
    {
        let mut d: usize = 0;
        while d < n
            invariant
                n == points@.len(),
                points@ == navigation_vector.points@,
                s < n,
                d <= n,
                forall|i: int| 0 <= i < n ==> on_map(#[trigger] points@[i]),
                forall|i: int, j: int|
                    0 <= i < s && 0 <= j < n ==> sight_checkable(#[trigger] points@[i], #[trigger] points@[j], *navigation_matrix),
                forall|j: int| 0 <= j < d ==> sight_checkable(points@[s as int], #[trigger] points@[j], *navigation_matrix),
            decreases n - d,
        {
            if !sight_is_checkable(points[s], points[d], navigation_matrix) {
                assert(!sight_checkable(points@[s as int], points@[d as int], *navigation_matrix));
                assert(!all_sight_checkable(navigation_vector.points@, *navigation_matrix));
                return false;
            }
            d += 1;
        }
        s += 1;
    }
    true
}

impl ConnectedNodes {
    /// The edges from node `source_index` to every node that it can see.
    pub fn sight_edges_of(
        navigation_vector: &NavigationVector,
        source_index: usize,
        navigation_matrix: &NavigationMatrix,
        mode: ConnectedNodesMode,
    ) -> (edges: Vec<(u16, u16)>)
        requires
            source_index < navigation_vector.points@.len(),
            all_sight_checkable(navigation_vector.points@, *navigation_matrix),
        ensures
            edges@ == sight_edges_from(
                navigation_vector.points@,
                *navigation_matrix,
                source_index as int,
                navigation_vector.points@.len() as int,
            ),
    {
        let points = &navigation_vector.points;
        let source = points[source_index];
        let mut edges: Vec<(u16, u16)> = vec![];
        let mut destination_index: usize = 0;
        while destination_index < points.len()
            invariant
                source_index < points@.len(),
                source == points@[source_index as int],
                all_sight_checkable(points@, *navigation_matrix),
                destination_index <= points@.len(),
                edges@ == sight_edges_from(points@, *navigation_matrix, source_index as int, destination_index as int),
            decreases points@.len() - destination_index,
        {
            let destination = points[destination_index];
            assert(sight_checkable(points@[source_index as int], points@[destination_index as int], *navigation_matrix));
            if is_connected(source, destination, navigation_matrix, mode) {
                edges.push((source_index as u16, destination_index as u16));
            }
            destination_index += 1;
        }
        edges
    }

    /// The navigation graph of the points: an edge from each point to every
    /// point that it can see.
    pub fn from_navigation_matrix_p3(
        navigation_vector: &NavigationVector,
        navigation_matrix: &NavigationMatrix,
        mode: ConnectedNodesMode,
    ) -> (nodes: Self)
        requires
            all_sight_checkable(navigation_vector.points@, *navigation_matrix),
        ensures
            nodes.connected_nodes@ == sight_edges(
                navigation_vector.points@,
                *navigation_matrix,
                navigation_vector.points@.len() as int,
            ),
    {
        let mut nodes: Vec<(u16, u16)> = vec![];
        let mut source_index: usize = 0;
        while source_index < navigation_vector.points.len()
            invariant
                all_sight_checkable(navigation_vector.points@, *navigation_matrix),
                source_index <= navigation_vector.points@.len(),
                nodes@ == sight_edges(navigation_vector.points@, *navigation_matrix, source_index as int),
            decreases navigation_vector.points@.len() - source_index,
        {
            let mut edges = Self::sight_edges_of(navigation_vector, source_index, navigation_matrix, mode);
            nodes.append(&mut edges);
            source_index += 1;
        }
        ConnectedNodes { connected_nodes: nodes }
    }
}

} // verus!
