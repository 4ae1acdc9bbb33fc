//! The spatial map: a fixed grid of per-tile traversal weights and occupancy,
//! rebuilt every tick, with the 8-directional edge relation and the distance
//! estimate the path search runs on.

use vstd::prelude::*;
use vstd::arithmetic::div_mod::{lemma_fundamental_div_mod, lemma_fundamental_div_mod_converse, lemma_mod_bound};
use crate::geom::{Point, iabs};
use crate::TILE_SIZE_MU;

verus! {

/// Uniform weight of a traversable tile (1.0 in world units).
pub const TILE_WEIGHT_MU: u64 = 1000;

/// Largest per-tile weight a map may hold.
pub const MAX_TILE_WEIGHT_MU: u64 = 1_000_000;

/// Terrain classes a noise sample is thresholded into.
#[derive(Clone, Copy, Debug, PartialEq, Eq)]
pub enum TileType {
    Grass,
    Water,
    Empty,
}

/// Terrain class of a noise sample in milliunits (a sample of `0.37` arrives
/// as `370`): the lower half of the unit interval is water, the upper half
/// grass, anything outside the interval empty.
pub fn convert_sample_to_tiletype(sample_mu: i64) -> (t: TileType)
    ensures
        0 <= sample_mu <= 500 ==> t is Water,
        500 < sample_mu <= 1000 ==> t is Grass,
        (sample_mu < 0 || sample_mu > 1000) ==> t is Empty,
{
    if 0 <= sample_mu && sample_mu <= 500 {
        TileType::Water
    } else if 500 < sample_mu && sample_mu <= 1000 {
        TileType::Grass
    } else {
        TileType::Empty
    }
}

/// Movement cost of a terrain class.  Every class currently weighs the same,
/// which disables terrain cost differentiation; the weight function is a
/// pluggable policy, not a fixed rule, so the search must not assume it.
pub fn get_map_weight_from_tile_type(tile: TileType) -> (w: u64)
    ensures
        w == TILE_WEIGHT_MU,
        1 <= w <= MAX_TILE_WEIGHT_MU,
{
    match tile {
        TileType::Grass => TILE_WEIGHT_MU,
        _ => TILE_WEIGHT_MU,
    }
}

/// A tile coordinate: a pair of non-negative grid indices.
#[derive(Clone, Copy, Debug, PartialEq, Eq)]
pub struct TilePos {
    pub x: usize,
    pub y: usize,
}

impl TilePos {
    /// The tile containing a world point, or `None` for a point with a
    /// negative component, which lies on no tile.
    pub fn from_coords(p: Point) -> (t: Option<TilePos>)
        requires
            p.wf(),
        ensures
            t is Some <==> p.x >= 0 && p.y >= 0,
            t matches Some(t) ==> t.x == p.x as int / TILE_SIZE_MU as int && t.y == p.y as int
                / TILE_SIZE_MU as int,
    {
        if p.x < 0 || p.y < 0 {
            None
        } else {
            Some(TilePos { x: (p.x / TILE_SIZE_MU) as usize, y: (p.y / TILE_SIZE_MU) as usize })
        }
    }

    /// The world coordinate of the tile's center.
    pub fn to_coords(&self) -> (p: Point)
        requires
            self.x <= 9999,
            self.y <= 9999,
        ensures
            p.x == TILE_SIZE_MU / 2 + self.x * TILE_SIZE_MU,
            p.y == TILE_SIZE_MU / 2 + self.y * TILE_SIZE_MU,
            p.wf(),
    {
        proof {
            assert(self.x * TILE_SIZE_MU <= 9999 * 10_000) by (nonlinear_arith)
                requires 0 <= self.x <= 9999, TILE_SIZE_MU == 10_000;
            assert(self.y * TILE_SIZE_MU <= 9999 * 10_000) by (nonlinear_arith)
                requires 0 <= self.y <= 9999, TILE_SIZE_MU == 10_000;
        }
        Point {
            x: TILE_SIZE_MU / 2 + self.x as i64 * TILE_SIZE_MU,
            y: TILE_SIZE_MU / 2 + self.y as i64 * TILE_SIZE_MU,
        }
    }

    /// Equality of tile coordinates.
    pub fn same_tile(&self, other: &TilePos) -> (r: bool)
        ensures
            r == (self.x == other.x && self.y == other.y),
    {
        self.x == other.x && self.y == other.y
    }
}

/// The grid of per-tile weights and occupancy covering the visible world.
/// Tiles are addressed either by coordinate pair or by node index
/// `x + y * width`.
#[derive(Debug)]
pub struct MapData {
    pub width: usize,
    pub height: usize,
    /// Traversal weight of each tile, in milliunits, row-major.
    pub weights: Vec<u64>,
    /// Whether an entity stood on the tile when occupancy was last rebuilt.
    pub occupied: Vec<bool>,
    /// A positive lower bound of every weight; the distance estimate of the
    /// path search scales by it.
    pub min_weight: u64,
}

impl MapData {
    /// Number of tiles.
    pub open spec fn size(self) -> int {
        self.width * self.height
    }

    pub open spec fn wf(self) -> bool {
        &&& 1 <= self.width <= 1000
        &&& 1 <= self.height <= 1000
        &&& self.weights@.len() == self.size()
        &&& self.occupied@.len() == self.size()
        &&& forall|i: int|
            0 <= i < self.weights@.len() ==> 1 <= #[trigger] self.weights@[i] <= MAX_TILE_WEIGHT_MU
        &&& 1 <= self.min_weight <= MAX_TILE_WEIGHT_MU
        &&& forall|i: int|
            0 <= i < self.weights@.len() ==> self.min_weight <= #[trigger] self.weights@[i]
    }

    /// Column of a node index.
    pub open spec fn node_x(self, n: int) -> int {
        n % (self.width as int)
    }

    /// Row of a node index.
    pub open spec fn node_y(self, n: int) -> int {
        n / (self.width as int)
    }

    /// Node index of a tile coordinate.
    pub open spec fn node_of(self, x: int, y: int) -> int {
        x + y * self.width
    }

    pub open spec fn in_grid(self, x: int, y: int) -> bool {
        0 <= x < self.width && 0 <= y < self.height
    }

    /// Weight of the tile a node addresses.
    pub open spec fn weight_at(self, n: int) -> int {
        self.weights@[n] as int
    }

    /// The 8-directional edge relation: two distinct in-grid nodes whose
    /// coordinates differ by at most one in each direction.
    pub open spec fn is_edge(self, a: int, b: int) -> bool {
        &&& 0 <= a < self.size()
        &&& 0 <= b < self.size()
        &&& a != b
        &&& iabs(self.node_x(b) - self.node_x(a)) <= 1
        &&& iabs(self.node_y(b) - self.node_y(a)) <= 1
    }

    /// Node indexing is a bijection with in-grid coordinates.
    pub proof fn lemma_node_coords(self, x: int, y: int)
        requires
            self.wf(),
            self.in_grid(x, y),
        ensures
            self.node_x(self.node_of(x, y)) == x,
            self.node_y(self.node_of(x, y)) == y,
            0 <= self.node_of(x, y) < self.size(),
    {
        let w = self.width as int;
        lemma_fundamental_div_mod_converse(x + y * w, w, y, x);
        assert(y * w + x < self.size()) by (nonlinear_arith)
            requires 0 <= x < w, 0 <= y <= self.height - 1, self.size() == w * self.height;
        assert(0 <= y * w) by (nonlinear_arith)
            requires 0 <= y, 0 <= w;
    }

    /// A node index decodes to in-grid coordinates that encode back to it.
    pub proof fn lemma_node_decode(self, n: int)
        requires
            self.wf(),
            0 <= n < self.size(),
        ensures
            self.in_grid(self.node_x(n), self.node_y(n)),
            self.node_of(self.node_x(n), self.node_y(n)) == n,
    {
        let w = self.width as int;
        lemma_fundamental_div_mod(n, w);
        lemma_mod_bound(n, w);
        assert(n / w < self.height) by (nonlinear_arith)
            requires
                n < w * self.height,
                w >= 1,
                self.height >= 1,
                n == w * (n / w) + n % w,
                n % w >= 0;
    }

    /// The grid never exceeds a million tiles.
    pub proof fn lemma_size_bound(self)
        requires
            self.wf(),
        ensures
            1 <= self.size() <= 1_000_000,
    {
        assert(1 <= self.width * self.height <= 1_000_000) by (nonlinear_arith)
            requires 1 <= self.width <= 1000, 1 <= self.height <= 1000;
    }

    /// A fresh map sized to the visible window: 80 by 45 tiles of 10 units,
    /// every tile traversable at the uniform weight, nothing occupied.
    pub fn default_map() -> (m: MapData)
        ensures
            m.wf(),
            m.width == 80,
            m.height == 45,
            forall|i: int| 0 <= i < m.weights@.len() ==> #[trigger] m.weights@[i] == TILE_WEIGHT_MU,
            forall|i: int| 0 <= i < m.occupied@.len() ==> !(#[trigger] m.occupied@[i]),
            m.min_weight == TILE_WEIGHT_MU,
    {
        MapData::new(80, 45)
    }

    /// A fresh map: every tile traversable at the uniform weight, nothing
    /// occupied.
    pub fn new(width: usize, height: usize) -> (m: MapData)
        requires
            1 <= width <= 1000,
            1 <= height <= 1000,
        ensures
            m.wf(),
            m.width == width,
            m.height == height,
            forall|i: int| 0 <= i < m.weights@.len() ==> #[trigger] m.weights@[i] == TILE_WEIGHT_MU,
            forall|i: int| 0 <= i < m.occupied@.len() ==> !(#[trigger] m.occupied@[i]),
            m.min_weight == TILE_WEIGHT_MU,
    {
        proof {
            assert(width * height <= 1_000_000) by (nonlinear_arith)
                requires 1 <= width <= 1000, 1 <= height <= 1000;
            assert(width * height >= 1) by (nonlinear_arith)
                requires 1 <= width, 1 <= height;
        }
        let size = width * height;
        let mut weights: Vec<u64> = Vec::new();
        let mut occupied: Vec<bool> = Vec::new();
        let mut i: usize = 0;
        while i < size
            invariant
                i <= size,
                weights@.len() == i,
                occupied@.len() == i,
                forall|j: int| 0 <= j < i ==> #[trigger] weights@[j] == TILE_WEIGHT_MU,
                forall|j: int| 0 <= j < i ==> !(#[trigger] occupied@[j]),
            decreases size - i,
        {
            weights.push(TILE_WEIGHT_MU);
            occupied.push(false);
            i = i + 1;
        }
        MapData { width, height, weights, occupied, min_weight: TILE_WEIGHT_MU }
    }

    /// Rebuild every tile weight from a freshly sampled terrain window, and
    /// refresh the lower weight bound the distance estimate uses.
    pub fn update_map(&mut self, tiles: &Vec<TileType>)
        requires
            old(self).wf(),
            tiles@.len() == old(self).size(),
        ensures
            final(self).wf(),
            final(self).width == old(self).width,
            final(self).height == old(self).height,
            final(self).occupied == old(self).occupied,
            final(self).weights@.len() == old(self).weights@.len(),
            forall|i: int|
                0 <= i < tiles@.len() ==> #[trigger] final(self).weights@[i] == TILE_WEIGHT_MU,
    {
        let n = self.weights.len();
        let mut i: usize = 0;
        let mut low: u64 = MAX_TILE_WEIGHT_MU;
        while i < n
            invariant
                i <= n,
                n == self.weights@.len(),
                tiles@.len() == n,
                self.weights@.len() == old(self).weights@.len(),
                self.width == old(self).width,
                self.height == old(self).height,
                self.occupied == old(self).occupied,
                self.min_weight == old(self).min_weight,
                1 <= low <= MAX_TILE_WEIGHT_MU,
                forall|j: int| 0 <= j < i ==> #[trigger] self.weights@[j] == TILE_WEIGHT_MU,
                forall|j: int| 0 <= j < i ==> low <= #[trigger] self.weights@[j],
                forall|j: int|
                    i <= j < n ==> 1 <= #[trigger] self.weights@[j] <= MAX_TILE_WEIGHT_MU,
            decreases n - i,
        {
            let w = get_map_weight_from_tile_type(tiles[i]);
            self.weights.set(i, w);
            if w < low {
                low = w;
            }
            i = i + 1;
        }
        self.min_weight = low;
    }

    /// Whether the tile is occupied; a tile outside the grid is not.
    pub fn is_tile_occupied(&self, tile: &TilePos) -> (r: bool)
        requires
            self.wf(),
        ensures
            r == (self.in_grid(tile.x as int, tile.y as int)
                && self.occupied@[self.node_of(tile.x as int, tile.y as int)]),
    {
        if tile.x < self.width && tile.y < self.height {
            proof {
                self.lemma_size_bound();
                self.lemma_node_coords(tile.x as int, tile.y as int);
            }
            self.occupied[tile.x + tile.y * self.width]
        } else {
            false
        }
    }

    /// Mark the tile as occupied.
    pub fn set_tile_occupied(&mut self, tile: &TilePos)
        requires
            old(self).wf(),
            old(self).in_grid(tile.x as int, tile.y as int),
        ensures
            final(self).wf(),
            *final(self) == (MapData {
                occupied: final(self).occupied,
                ..*old(self)
            }),
            final(self).occupied@ == old(self).occupied@.update(
                old(self).node_of(tile.x as int, tile.y as int),
                true,
            ),
    {
        proof {
            self.lemma_size_bound();
            self.lemma_node_coords(tile.x as int, tile.y as int);
        }
        let idx = tile.x + tile.y * self.width;
        self.occupied.set(idx, true);
    }

    /// Weight of a tile.
    pub fn get_weight(&self, tile: &TilePos) -> (w: u64)
        requires
            self.wf(),
            self.in_grid(tile.x as int, tile.y as int),
        ensures
            w == self.weight_at(self.node_of(tile.x as int, tile.y as int)),
    {
        proof {
            self.lemma_size_bound();
            self.lemma_node_coords(tile.x as int, tile.y as int);
        }
        self.weights[tile.x + tile.y * self.width]
    }

    /// Occupancy is rebuilt wholesale from the live entity positions: a tile
    /// is occupied afterward exactly when some listed position lies on it.
    /// A position off the grid (or with a negative component) marks nothing.
    pub fn refresh_occupancy(&mut self, positions: &Vec<Point>)
        requires
            old(self).wf(),
            forall|j: int| 0 <= j < positions@.len() ==> (#[trigger] positions@[j]).wf(),
        ensures
            final(self).wf(),
            final(self).width == old(self).width,
            final(self).height == old(self).height,
            final(self).weights == old(self).weights,
            final(self).min_weight == old(self).min_weight,
            final(self).occupied@.len() == old(self).occupied@.len(),
            forall|n: int|
                0 <= n < final(self).occupied@.len() ==> (#[trigger] final(self).occupied@[n]
                    <==> exists|j: int|
                    0 <= j < positions@.len() && position_marks(*old(self), #[trigger] positions@[j], n)),
    {
        let n = self.occupied.len();
        let mut i: usize = 0;
        while i < n
            invariant
                i <= n,
                n == self.occupied@.len(),
                self.wf(),
                *self == (MapData { occupied: self.occupied, ..*old(self) }),
                self.occupied@.len() == old(self).occupied@.len(),
                forall|k: int| 0 <= k < i ==> !(#[trigger] self.occupied@[k]),
            decreases n - i,
        {
            self.occupied.set(i, false);
            i = i + 1;
        }
        let mut j: usize = 0;
        while j < positions.len()
            invariant
                j <= positions@.len(),
                forall|k: int| 0 <= k < positions@.len() ==> (#[trigger] positions@[k]).wf(),
                self.wf(),
                *self == (MapData { occupied: self.occupied, ..*old(self) }),
                self.occupied@.len() == old(self).occupied@.len(),
                forall|t: int|
                    0 <= t < self.occupied@.len() ==> (#[trigger] self.occupied@[t] <==> exists|k: int|
                        0 <= k < j && position_marks(*old(self), #[trigger] positions@[k], t)),
            decreases positions@.len() - j,
        {
            let p = positions[j];
            if let Some(tile) = TilePos::from_coords(p) {
                if tile.x < self.width && tile.y < self.height {
                    proof {
                        self.lemma_size_bound();
                        self.lemma_node_coords(tile.x as int, tile.y as int);
                    }
                    let idx = tile.x + tile.y * self.width;
                    self.occupied.set(idx, true);
                }
            }
            j = j + 1;
        }
    }

    /// Whether a node lies strictly inside the grid, with all eight
    /// neighbours present.
    pub open spec fn interior(self, n: int) -> bool {
        &&& 1 <= self.node_x(n)
        &&& self.node_x(n) + 1 < self.width
        &&& 1 <= self.node_y(n)
        &&& self.node_y(n) + 1 < self.height
    }

    /// The successor list of a node: every node one step away in the eight
    /// directions, each listed exactly once with the cost of entering it —
    /// the target tile's weight.
    pub fn successors(&self, n: u64) -> (r: Vec<(u64, u64)>)
        requires
            self.wf(),
            0 <= n < self.size(),
        ensures
            forall|k: int|
                0 <= k < r@.len() ==> self.is_edge(n as int, #[trigger] r@[k].0 as int)
                    && r@[k].1 == self.weight_at(r@[k].0 as int),
            forall|b: int| self.is_edge(n as int, b) ==> has_node(r@, b),
            forall|k1: int, k2: int| 0 <= k1 < k2 < r@.len() ==> r@[k1].0 != r@[k2].0,
            r@.len() <= 8,
            self.interior(n as int) ==> r@.len() == 8,
    {
        proof {
            self.lemma_size_bound();
            self.lemma_node_decode(n as int);
        }
        let w = self.width;
        let x = n as usize % w;
        let y = n as usize / w;
        let mut out: Vec<(u64, u64)> = Vec::new();
        let mut dy: usize = 0;
        while dy < 3
            invariant
                self.wf(),
                dy <= 3,
                x == self.node_x(n as int),
                y == self.node_y(n as int),
                self.node_of(x as int, y as int) == n,
                x < self.width,
                y < self.height,
                w == self.width,
                0 <= n < self.size(),
                forall|k: int|
                    0 <= k < out@.len() ==> self.is_edge(n as int, #[trigger] out@[k].0 as int)
                        && out@[k].1 == self.weight_at(out@[k].0 as int),
                forall|bx: int, by: int|
                    #![trigger self.node_of(bx, by)]
                    self.in_grid(bx, by) && y - 1 <= by < y - 1 + dy && x - 1 <= bx <= x + 1 && !(bx
                        == x && by == y) ==> has_node(out@, self.node_of(bx, by)),
                // the rows walked so far bound the list and, inside the
                // grid, fill it exactly
                out@.len() as int <= 3 * dy - (if dy >= 2 { 1int } else { 0int }),
                self.interior(n as int) ==> out@.len() as int == 3 * dy - (if dy >= 2 {
                    1int
                } else {
                    0int
                }),
                // every listed node lies in a fully walked row
                forall|k: int|
                    0 <= k < out@.len() ==> self.node_y((#[trigger] out@[k]).0 as int) < y - 1 + dy,
                forall|k1: int, k2: int| 0 <= k1 < k2 < out@.len() ==> out@[k1].0 != out@[k2].0,
            decreases 3 - dy,
        {
            let ty = y + dy;
            if 1 <= ty && ty - 1 < self.height {
                let ny = ty - 1;
                let mut dx: usize = 0;
                while dx < 3
                    invariant
                        self.wf(),
                        dx <= 3,
                        dy < 3,
                        ny == y + dy - 1,
                        0 <= ny < self.height,
                        x == self.node_x(n as int),
                        y == self.node_y(n as int),
                        self.node_of(x as int, y as int) == n,
                        x < self.width,
                        y < self.height,
                        w == self.width,
                        0 <= n < self.size(),
                        forall|k: int|
                            0 <= k < out@.len() ==> self.is_edge(n as int, #[trigger] out@[k].0 as int)
                                && out@[k].1 == self.weight_at(out@[k].0 as int),
                        forall|bx: int, by: int|
                            #![trigger self.node_of(bx, by)]
                            self.in_grid(bx, by) && y - 1 <= by < y - 1 + dy && x - 1 <= bx <= x + 1
                                && !(bx == x && by == y) ==> has_node(out@, self.node_of(bx, by)),
                        forall|bx: int|
                            #![trigger self.node_of(bx, ny as int)]
                            self.in_grid(bx, ny as int) && x - 1 <= bx < x - 1 + dx && !(bx == x
                                && ny == y) ==> has_node(out@, self.node_of(bx, ny as int)),
                        out@.len() as int <= 3 * dy - (if dy >= 2 { 1int } else { 0int }) + dx - (
                        if ny == y && dx >= 2 { 1int } else { 0int }),
                        self.interior(n as int) ==> out@.len() as int == 3 * dy - (if dy >= 2 {
                            1int
                        } else {
                            0int
                        }) + dx - (if ny == y && dx >= 2 { 1int } else { 0int }),
                        // every listed node lies behind the walk frontier
                        forall|k: int|
                            0 <= k < out@.len() ==> self.node_y((#[trigger] out@[k]).0 as int) < ny
                                || (self.node_y(out@[k].0 as int) == ny && self.node_x(
                                out@[k].0 as int,
                            ) < x - 1 + dx),
                        forall|k1: int, k2: int|
                            0 <= k1 < k2 < out@.len() ==> out@[k1].0 != out@[k2].0,
                    decreases 3 - dx,
                {
                    let tx = x + dx;
                    if 1 <= tx && tx - 1 < w {
                        let nx = tx - 1;
                        if !(nx == x && ny == y) {
                            proof {
                                self.lemma_size_bound();
                                self.lemma_node_coords(nx as int, ny as int);
                            }
                            let node = nx + ny * w;
                            let cost = self.weights[node];
                            let ghost pre = out@;
                            out.push((node as u64, cost));
                            proof {
                                lemma_push_keeps_nodes(pre, (node as u64, cost));
                                assert(out@ == pre.push((node as u64, cost)));
                                assert(self.is_edge(n as int, node as int));
                                // the fresh node lies on the frontier, so it
                                // differs from everything already listed
                                assert forall|k1: int, k2: int|
                                    0 <= k1 < k2 < out@.len() implies out@[k1].0 != out@[k2].0 by {
                                    if k2 == out@.len() - 1 {
                                        assert(out@[k1] == pre[k1]);
                                        assert(out@[k2].0 == node as u64);
                                    } else {
                                        assert(out@[k1] == pre[k1] && out@[k2] == pre[k2]);
                                    }
                                }
                            }
                        }
                    }
                    dx = dx + 1;
                }
            }
            dy = dy + 1;
        }
        proof {
            assert forall|b: int| self.is_edge(n as int, b) implies has_node(out@, b) by {
                self.lemma_node_decode(b);
                let bx = self.node_x(b);
                let by = self.node_y(b);
                assert(self.in_grid(bx, by));
                assert(self.node_of(bx, by) == b);
                assert(y - 1 <= by <= y + 1 && x - 1 <= bx <= x + 1);
            }
        }
        out
    }

    /// The estimated remaining cost from `a` to `b`: the diagonal-distance
    /// step count scaled by the cheapest tile weight.  Diagonal and straight
    /// steps both cost the entered tile's weight under this edge metric, so
    /// the octile estimate degenerates to the Chebyshev step count, and
    /// scaling it by the minimum weight keeps the estimate at or below the
    /// true cost of any route (see [`MapData::lemma_heuristic_admissible`]).
    pub fn get_diag_dist(&self, a: u64, b: u64) -> (h: u64)
        requires
            self.wf(),
            0 <= a < self.size(),
            0 <= b < self.size(),
        ensures
            h == self.heuristic(a as int, b as int),
    {
        proof {
            self.lemma_size_bound();
            self.lemma_node_decode(a as int);
            self.lemma_node_decode(b as int);
        }
        let w = self.width;
        let ax = a as usize % w;
        let ay = a as usize / w;
        let bx = b as usize % w;
        let by = b as usize / w;
        let ddx = if ax >= bx { ax - bx } else { bx - ax };
        let ddy = if ay >= by { ay - by } else { by - ay };
        let cheb = if ddx >= ddy { ddx } else { ddy };
        proof {
            assert(self.min_weight * cheb <= MAX_TILE_WEIGHT_MU * 1000) by (nonlinear_arith)
                requires 1 <= self.min_weight <= MAX_TILE_WEIGHT_MU, 0 <= cheb <= 1000;
        }
        self.min_weight * cheb as u64
    }

    /// Chebyshev step count between two nodes.
    pub open spec fn chebyshev(self, a: int, b: int) -> int {
        let ddx = iabs(self.node_x(b) - self.node_x(a));
        let ddy = iabs(self.node_y(b) - self.node_y(a));
        if ddx >= ddy {
            ddx
        } else {
            ddy
        }
    }

    /// The distance estimate of the path search.
    pub open spec fn heuristic(self, a: int, b: int) -> int {
        self.min_weight * self.chebyshev(a, b)
    }

    /// A nonempty node sequence whose consecutive nodes are all edges.
    pub open spec fn valid_path(self, p: Seq<u64>) -> bool {
        &&& p.len() >= 1
        &&& forall|i: int| 0 <= i < p.len() - 1 ==> self.is_edge(#[trigger] p[i] as int, p[i + 1] as int)
    }

    /// Total cost of a path: the sum of the entered tiles' weights.
    pub open spec fn path_cost(self, p: Seq<u64>) -> int
        decreases p.len(),
    {
        if p.len() <= 1 {
            0
        } else {
            self.weight_at(p[1] as int) + self.path_cost(p.drop_first())
        }
    }

    /// The distance estimate never overestimates: along any route between
    /// two nodes, every step costs at least the minimum weight and shortens
    /// the Chebyshev step count by at most one.
    pub proof fn lemma_heuristic_admissible(self, p: Seq<u64>)
        requires
            self.wf(),
            self.valid_path(p),
            0 <= p[0] < self.size(),
        ensures
            self.heuristic(p[0] as int, p.last() as int) <= self.path_cost(p),
        decreases p.len(),
    {
        if p.len() <= 1 {
            assert(self.chebyshev(p[0] as int, p.last() as int) == 0);
            assert(self.heuristic(p[0] as int, p.last() as int) == 0) by (nonlinear_arith)
                requires self.heuristic(p[0] as int, p.last() as int) == self.min_weight * 0;
        } else {
            let rest = p.drop_first();
            assert(self.is_edge(p[0] as int, p[1] as int));
            assert(forall|i: int|
                0 <= i < rest.len() - 1 ==> self.is_edge(#[trigger] rest[i] as int, rest[i + 1] as int))
                by {
                assert(forall|i: int|
                    #![trigger rest[i]]
                    0 <= i < rest.len() - 1 ==> rest[i] == p[i + 1] && rest[i + 1] == p[i + 2]);
            }
            self.lemma_heuristic_admissible(rest);
            assert(rest.last() == p.last());
            let c0 = self.chebyshev(p[0] as int, p.last() as int);
            let c1 = self.chebyshev(p[1] as int, p.last() as int);
            // one step changes each coordinate by at most one
            assert(c0 <= c1 + 1);
            assert(self.min_weight * c0 <= self.min_weight * c1 + self.min_weight)
                by (nonlinear_arith)
                requires c0 <= c1 + 1, self.min_weight >= 1, c1 >= 0;
            assert(self.min_weight <= self.weight_at(p[1] as int));
        }
    }

}

/// Whether some listed successor pair carries node `b`.
pub open spec fn has_node(s: Seq<(u64, u64)>, b: int) -> bool {
    exists|k: int| 0 <= k < s.len() && #[trigger] s[k].0 == b
}

/// Pushing a pair keeps every node already listed, and lists the new one.
proof fn lemma_push_keeps_nodes(pre: Seq<(u64, u64)>, e: (u64, u64))
    ensures
        forall|b: int| has_node(pre, b) ==> has_node(pre.push(e), b),
        has_node(pre.push(e), e.0 as int),
{
    assert forall|b: int| has_node(pre, b) implies has_node(pre.push(e), b) by {
        let k = choose|k: int| 0 <= k < pre.len() && #[trigger] pre[k].0 == b;
        assert(pre.push(e)[k].0 == b);
    }
    assert(pre.push(e)[pre.len() as int].0 == e.0);
}

/// Whether a position lies on the tile a node addresses.
pub open spec fn position_marks(m: MapData, p: Point, n: int) -> bool {
    &&& p.x >= 0
    &&& p.y >= 0
    &&& m.in_grid(p.x as int / TILE_SIZE_MU as int, p.y as int / TILE_SIZE_MU as int)
    &&& n == m.node_of(p.x as int / TILE_SIZE_MU as int, p.y as int / TILE_SIZE_MU as int)
}

} // verus!
