//! Per-entity routing: the pathfinding request/result holder, the budgeted
//! per-tick search pass over the entity set, and the path follower that
//! turns a ready tile path into queued move actions.

use vstd::prelude::*;
use crate::geom::Point;
use crate::map::{MapData, TilePos};
use crate::action::{Action, ActionParams, ActionType, Nerve};
use crate::TILE_SIZE_MU;

verus! {

/// How many entities may compute a path in one tick; the rest defer to the
/// next tick.
pub const MAX_PATHFINDERS: usize = 10;

/// Mathematical view of a [`Pathfinder`].
pub struct PathfinderView {
    pub needs_pathfinding: bool,
    pub path_ready: bool,
    pub path_start: TilePos,
    pub path_goal: TilePos,
    pub real_goal: Point,
    pub tile_path: Seq<TilePos>,
    pub path: Seq<Point>,
    pub path_index: usize,
}

impl PathfinderView {
    /// Tile and world paths running in step, world entries in the entity
    /// band, the cursor within the path, and a goal on the grid's side of
    /// the plane.
    pub open spec fn wf(self) -> bool {
        &&& self.tile_path.len() == self.path.len()
        &&& self.path_index <= self.path.len()
        &&& forall|i: int| 0 <= i < self.path.len() ==> (#[trigger] self.path[i]).wf()
        &&& self.real_goal.wf()
        &&& self.real_goal.x >= 0
        &&& self.real_goal.y >= 0
    }
}

/// Per-entity routing state: the request flags, the start and goal tiles,
/// the precise sub-tile goal, and the computed tile and world paths with a
/// cursor into them.
#[derive(Debug)]
pub struct Pathfinder {
    pub needs_pathfinding: bool,
    pub path_ready: bool,
    pub path_start: TilePos,
    pub path_goal: TilePos,
    /// The exact goal coordinate; the final path entry targets it instead of
    /// its tile's center.
    pub real_goal: Point,
    pub tile_path: Vec<TilePos>,
    pub path: Vec<Point>,
    pub path_index: usize,
}

impl View for Pathfinder {
    type V = PathfinderView;

    open spec fn view(&self) -> PathfinderView {
        PathfinderView {
            needs_pathfinding: self.needs_pathfinding,
            path_ready: self.path_ready,
            path_start: self.path_start,
            path_goal: self.path_goal,
            real_goal: self.real_goal,
            tile_path: self.tile_path@,
            path: self.path@,
            path_index: self.path_index,
        }
    }
}

impl Default for Pathfinder {
    /// A pathfinder with no request and no path.
    fn default() -> (pf: Pathfinder)
        ensures
            pf@.wf(),
            !pf@.needs_pathfinding,
            !pf@.path_ready,
            pf@.tile_path.len() == 0,
            pf@.path.len() == 0,
            pf@.path_index == 0,
            pf@.real_goal == (Point { x: 0i64, y: 0i64 }),
            pf@.path_start == (TilePos { x: 0usize, y: 0usize }),
            pf@.path_goal == (TilePos { x: 0usize, y: 0usize }),
    {
        Pathfinder {
            needs_pathfinding: false,
            path_ready: false,
            path_start: TilePos { x: 0, y: 0 },
            path_goal: TilePos { x: 0, y: 0 },
            real_goal: Point { x: 0, y: 0 },
            tile_path: Vec::new(),
            path: Vec::new(),
            path_index: 0,
        }
    }
}

/// The shared per-tick pathfinding budget counter.
#[derive(Debug)]
pub struct PathfindersQueue(pub usize);

/// One routed entity of the per-tick pass: its routing state and its
/// position.
#[derive(Debug)]
pub struct PathAgent {
    pub pf: Pathfinder,
    pub pos: Point,
}

/// Relies on `pathfinding::prelude::astar` (pathfinding crate): it returns,
/// as its documentation states, a start-inclusive node path to the goal
/// together with the summed edge costs, or `None` exactly when the goal
/// cannot be reached through the successor lists.  The returned cost is
/// minimal because the estimate handed to it never exceeds the true
/// remaining cost ([`MapData::lemma_heuristic_admissible`]) and the search
/// re-expands a node whenever a cheaper way to it is found.  The closures
/// only call the verified successor, estimate and equality functions.
#[verifier::external_body]
fn astar_search(map: &MapData, start: u64, goal: u64) -> (r: Option<(Vec<u64>, u64)>)
    requires
        map.wf(),
        0 <= start < map.size(),
        0 <= goal < map.size(),
    ensures
        match r {
            Some(pc) => {
                &&& map.valid_path(pc.0@)
                &&& pc.0@[0] == start
                &&& pc.0@.last() == goal
                &&& forall|k: int| 0 <= k < pc.0@.len() ==> 0 <= #[trigger] pc.0@[k] < map.size()
                &&& pc.1 == map.path_cost(pc.0@)
                &&& forall|q: Seq<u64>|
                    map.valid_path(q) && q[0] == start && q.last() == goal
                        ==> #[trigger] map.path_cost(q) >= pc.1
            },
            None => forall|q: Seq<u64>|
                !(#[trigger] map.valid_path(q) && q[0] == start && q.last() == goal),
        },
{
    pathfinding::prelude::astar(
        &start,
        |n: &u64| map.successors(*n),
        |n: &u64| map.get_diag_dist(*n, goal),
        |n: &u64| *n == goal,
    )
}

/// How many of the first `i` agents request pathfinding.
pub open spec fn pending_before(s: Seq<PathAgent>, i: int) -> int
    decreases i,
{
    if i <= 0 {
        0
    } else {
        pending_before(s, i - 1) + if s[i - 1].pf@.needs_pathfinding {
            1int
        } else {
            0int
        }
    }
}

/// How many agents request pathfinding.
pub open spec fn pending_count(s: Seq<PathAgent>) -> int {
    pending_before(s, s.len() as int)
}

proof fn lemma_pending_monotone(s: Seq<PathAgent>, i: int, j: int)
    requires
        0 <= i <= j,
    ensures
        pending_before(s, i) <= pending_before(s, j),
    decreases j - i,
{
    if i < j {
        lemma_pending_monotone(s, i, j - 1);
    }
}

/// The relation a served agent's routing state steps by: the request is
/// cleared; when the entity stands on an in-grid tile and the goal tile is
/// in grid, the cursor rewinds, the start tile is recorded, and either a
/// cheapest route is installed — tile path plus the goal tile, world path of
/// tile centers ending at the precise goal — or no route exists and the
/// paths are emptied so the entity stays put.
pub open spec fn pathfound(m: MapData, pf0: PathfinderView, pos: Point, pf1: PathfinderView) -> bool {
    &&& pf1.needs_pathfinding == false
    &&& pf1.path_ready == pf0.path_ready
    &&& pf1.path_goal == pf0.path_goal
    &&& pf1.real_goal == pf0.real_goal
    &&& {
        let sx = pos.x as int / TILE_SIZE_MU as int;
        let sy = pos.y as int / TILE_SIZE_MU as int;
        let gx = pf0.path_goal.x as int;
        let gy = pf0.path_goal.y as int;
        if pos.x >= 0 && pos.y >= 0 && m.in_grid(sx, sy) && m.in_grid(gx, gy) {
            &&& pf1.path_start.x == sx && pf1.path_start.y == sy
            &&& pf1.path_index == 0
            &&& {
                ||| (exists|p: Seq<u64>|
                    {
                        &&& #[trigger] m.valid_path(p)
                        &&& p[0] == m.node_of(sx, sy)
                        &&& p.last() == m.node_of(gx, gy)
                        &&& (forall|q: Seq<u64>|
                            m.valid_path(q) && q[0] == p[0] && q.last() == p.last()
                                ==> #[trigger] m.path_cost(q) >= m.path_cost(p))
                        &&& pf1.tile_path.len() == p.len() + 1
                        &&& pf1.path.len() == p.len() + 1
                        &&& (forall|k: int|
                            0 <= k < p.len() ==> (#[trigger] pf1.tile_path[k]).x == m.node_x(
                                p[k] as int,
                            ) && pf1.tile_path[k].y == m.node_y(p[k] as int))
                        &&& (forall|k: int|
                            0 <= k < p.len() ==> (#[trigger] pf1.path[k]).x == TILE_SIZE_MU / 2
                                + pf1.tile_path[k].x * TILE_SIZE_MU && pf1.path[k].y == TILE_SIZE_MU
                                / 2 + pf1.tile_path[k].y * TILE_SIZE_MU)
                        &&& pf1.tile_path.last().x == pf0.real_goal.x as int / TILE_SIZE_MU as int
                        &&& pf1.tile_path.last().y == pf0.real_goal.y as int / TILE_SIZE_MU as int
                        &&& pf1.path.last() == pf0.real_goal
                    })
                ||| {
                    &&& (forall|q: Seq<u64>|
                        !(#[trigger] m.valid_path(q) && q[0] == m.node_of(sx, sy) && q.last()
                            == m.node_of(gx, gy)))
                    &&& pf1.tile_path.len() == 0
                    &&& pf1.path.len() == 0
                    &&& pf1.path_index == 0
                }
            }
        } else {
            // the entity stands off the grid or the goal lies off it: the
            // request is dropped and the entity stays put
            &&& pf1.tile_path.len() == 0
            &&& pf1.path.len() == 0
            &&& pf1.path_index == 0
            &&& pf1.path_start == pf0.path_start
        }
    }
}

/// Serve one pathfinding request; see [`pathfound`] for the outcome.
fn serve_agent(map: &MapData, pf: &mut Pathfinder, pos: Point)
    requires
        map.wf(),
        old(pf)@.wf(),
        pos.wf(),
    ensures
        final(pf)@.wf(),
        pathfound(*map, old(pf)@, pos, final(pf)@),
{
    let start_tile = match TilePos::from_coords(pos) {
        Some(t) => t,
        None => {
            // a position off the tile plane cannot be routed from
            clear_request_paths(pf);
            return ;
        },
    };
    if !(start_tile.x < map.width && start_tile.y < map.height && pf.path_goal.x < map.width
        && pf.path_goal.y < map.height) {
        clear_request_paths(pf);
        return ;
    }
    pf.path_index = 0;
    pf.path_start = start_tile;
    proof {
        map.lemma_size_bound();
        map.lemma_node_coords(start_tile.x as int, start_tile.y as int);
        map.lemma_node_coords(pf.path_goal.x as int, pf.path_goal.y as int);
    }
    let start: u64 = (start_tile.x + start_tile.y * map.width) as u64;
    let goal: u64 = (pf.path_goal.x + pf.path_goal.y * map.width) as u64;

    match astar_search(map, start, goal) {
        Some((nodes, _cost)) => {
            let mut tile_path: Vec<TilePos> = Vec::new();
            let mut path: Vec<Point> = Vec::new();
            let mut k: usize = 0;
            while k < nodes.len()
                invariant
                    map.wf(),
                    k <= nodes@.len(),
                    tile_path@.len() == k,
                    path@.len() == k,
                    forall|j: int| 0 <= j < nodes@.len() ==> 0 <= #[trigger] nodes@[j] < map.size(),
                    forall|j: int|
                        0 <= j < k ==> (#[trigger] tile_path@[j]).x == map.node_x(nodes@[j] as int)
                            && tile_path@[j].y == map.node_y(nodes@[j] as int),
                    forall|j: int|
                        0 <= j < k ==> (#[trigger] path@[j]).x == TILE_SIZE_MU / 2 + tile_path@[j].x
                            * TILE_SIZE_MU && path@[j].y == TILE_SIZE_MU / 2 + tile_path@[j].y
                            * TILE_SIZE_MU && path@[j].wf(),
                decreases nodes@.len() - k,
            {
                let n = nodes[k];
                proof {
                    map.lemma_size_bound();
                    map.lemma_node_decode(n as int);
                }
                let tile = TilePos { x: n as usize % map.width, y: n as usize / map.width };
                tile_path.push(tile);
                path.push(tile.to_coords());
                k = k + 1;
            }
            let goal_tile = match TilePos::from_coords(pf.real_goal) {
                Some(t) => t,
                None => {
                    // unreachable: the goal coordinate is kept non-negative
                    TilePos { x: 0, y: 0 }
                },
            };
            tile_path.push(goal_tile);
            path.push(pf.real_goal);
            pf.tile_path = tile_path;
            pf.path = path;
            pf.needs_pathfinding = false;
        },
        None => {
            // no route: drop the request and leave the entity stationary;
            // a later goal-setting event may raise it again
            clear_request_paths(pf);
        },
    }
}

/// Clear a routing request together with its paths.
fn clear_request_paths(pf: &mut Pathfinder)
    requires
        old(pf)@.wf(),
    ensures
        final(pf)@.wf(),
        final(pf)@ == (PathfinderView {
            needs_pathfinding: false,
            tile_path: Seq::<TilePos>::empty(),
            path: Seq::<Point>::empty(),
            path_index: 0usize,
            ..old(pf)@
        }),
{
    pf.needs_pathfinding = false;
    pf.tile_path = Vec::new();
    pf.path = Vec::new();
    pf.path_index = 0;
}


/// The per-tick pathfinding pass: the shared budget counter resets at the
/// start of every tick — even on ticks where it was never exhausted — and
/// then the pending requests are served in entity order until the budget is
/// spent; any request beyond it defers, untouched, to the next tick.  So of
/// `p` requests raised in one tick, exactly `min(p, MAX_PATHFINDERS)` paths
/// are computed that tick and the rest remain pending.
pub fn pathfind(waiting: &mut PathfindersQueue, map: &MapData, agents: &mut Vec<PathAgent>)
    requires
        map.wf(),
        forall|i: int|
            0 <= i < old(agents)@.len() ==> (#[trigger] old(agents)@[i]).pf@.wf()
                && old(agents)@[i].pos.wf(),
    ensures
        final(agents)@.len() == old(agents)@.len(),
        final(waiting).0 == if pending_count(old(agents)@) < MAX_PATHFINDERS {
            pending_count(old(agents)@)
        } else {
            MAX_PATHFINDERS as int
        },
        forall|i: int|
            0 <= i < old(agents)@.len() ==> (#[trigger] final(agents)@[i]).pos == old(agents)@[i].pos,
        forall|i: int|
            0 <= i < old(agents)@.len() && !old(agents)@[i].pf@.needs_pathfinding ==> (
            #[trigger] final(agents)@[i]).pf@ == old(agents)@[i].pf@,
        forall|i: int|
            0 <= i < old(agents)@.len() && old(agents)@[i].pf@.needs_pathfinding && pending_before(
                old(agents)@,
                i,
            ) >= MAX_PATHFINDERS ==> (#[trigger] final(agents)@[i]).pf@ == old(agents)@[i].pf@,
        forall|i: int|
            0 <= i < old(agents)@.len() && old(agents)@[i].pf@.needs_pathfinding && pending_before(
                old(agents)@,
                i,
            ) < MAX_PATHFINDERS ==> pathfound(
                *map,
                old(agents)@[i].pf@,
                old(agents)@[i].pos,
                (#[trigger] final(agents)@[i]).pf@,
            ) && final(agents)@[i].pf@.wf(),
{
    // the budget resets at the start of every tick, exhausted or not
    waiting.0 = 0;
    let n = agents.len();
    let mut i: usize = 0;
    while i < n && waiting.0 < MAX_PATHFINDERS
        invariant
            map.wf(),
            i <= n,
            n == agents@.len(),
            agents@.len() == old(agents)@.len(),
            forall|j: int|
                0 <= j < old(agents)@.len() ==> (#[trigger] old(agents)@[j]).pf@.wf()
                    && old(agents)@[j].pos.wf(),
            waiting.0 == pending_before(old(agents)@, i as int),
            waiting.0 <= MAX_PATHFINDERS,
            forall|j: int| i <= j < n ==> #[trigger] agents@[j] == old(agents)@[j],
            forall|j: int|
                0 <= j < i ==> (#[trigger] agents@[j]).pos == old(agents)@[j].pos,
            forall|j: int|
                0 <= j < i && !old(agents)@[j].pf@.needs_pathfinding ==> (
                #[trigger] agents@[j]).pf@ == old(agents)@[j].pf@,
            forall|j: int|
                0 <= j < i && old(agents)@[j].pf@.needs_pathfinding ==> pending_before(
                    old(agents)@,
                    j,
                ) < MAX_PATHFINDERS && pathfound(
                    *map,
                    old(agents)@[j].pf@,
                    old(agents)@[j].pos,
                    (#[trigger] agents@[j]).pf@,
                ) && agents@[j].pf@.wf(),
        decreases n - i,
    {
        let ghost pre = agents@;
        let pending = agents[i].pf.needs_pathfinding;
        if pending {
            let mut agent = agents.remove(i);
            let pos = agent.pos;
            serve_agent(map, &mut agent.pf, pos);
            agents.insert(i, agent);
            waiting.0 = waiting.0 + 1;
            proof {
                assert(agents@ =~= pre.update(i as int, agents@[i as int]));
                assert(agents@[i as int].pos == old(agents)@[i as int].pos);
                assert(pathfound(
                    *map,
                    old(agents)@[i as int].pf@,
                    old(agents)@[i as int].pos,
                    agents@[i as int].pf@,
                ));
                assert(agents@[i as int].pf@.wf());
                assert(pending_before(old(agents)@, i as int) < MAX_PATHFINDERS);
            }
        }
        proof {
            assert forall|j: int|
                0 <= j < i + 1 && old(agents)@[j].pf@.needs_pathfinding implies pending_before(
                    old(agents)@,
                    j,
                ) < MAX_PATHFINDERS && pathfound(
                    *map,
                    old(agents)@[j].pf@,
                    old(agents)@[j].pos,
                    agents@[j].pf@,
                ) && agents@[j].pf@.wf() by {
                if j < i as int {
                    assert(agents@[j] == pre[j]);
                    assert(pathfound(
                        *map,
                        old(agents)@[j].pf@,
                        old(agents)@[j].pos,
                        pre[j].pf@,
                    ));
                }
            }
        }
        i = i + 1;
    }
    proof {
        if i < n {
            // the budget ran out: everything at or past `i` is pending rank
            // MAX_PATHFINDERS or beyond, and stays untouched
            assert(waiting.0 == MAX_PATHFINDERS);
            assert forall|j: int|
                i <= j < n implies pending_before(old(agents)@, j) >= MAX_PATHFINDERS by {
                lemma_pending_monotone(old(agents)@, i as int, j);
            }
            lemma_pending_monotone(old(agents)@, i as int, old(agents)@.len() as int);
        }
    }
}

/// The pathfinding budget splits each tick's requests exactly: with the
/// relation [`pathfind`] establishes between the agent set before and after
/// a pass, the number of requests still pending afterward is the number
/// raised minus the `min(raised, MAX_PATHFINDERS)` served.
pub proof fn lemma_budget_split(s0: Seq<PathAgent>, s1: Seq<PathAgent>)
    requires
        s0.len() == s1.len(),
        forall|i: int|
            0 <= i < s0.len() ==> ((#[trigger] s1[i]).pf@.needs_pathfinding <==> (
            s0[i].pf@.needs_pathfinding && pending_before(s0, i) >= MAX_PATHFINDERS)),
    ensures
        pending_count(s1) == pending_count(s0) - if pending_count(s0) < MAX_PATHFINDERS {
            pending_count(s0)
        } else {
            MAX_PATHFINDERS as int
        },
{
    lemma_budget_split_prefix(s0, s1, s0.len() as int);
    lemma_pending_monotone(s0, 0, s0.len() as int);
}

proof fn lemma_budget_split_prefix(s0: Seq<PathAgent>, s1: Seq<PathAgent>, j: int)
    requires
        s0.len() == s1.len(),
        0 <= j <= s0.len(),
        forall|i: int|
            0 <= i < s0.len() ==> ((#[trigger] s1[i]).pf@.needs_pathfinding <==> (
            s0[i].pf@.needs_pathfinding && pending_before(s0, i) >= MAX_PATHFINDERS)),
    ensures
        pending_before(s1, j) == pending_before(s0, j) - if pending_before(s0, j)
            < MAX_PATHFINDERS {
            pending_before(s0, j)
        } else {
            MAX_PATHFINDERS as int
        },
    decreases j,
{
    if j > 0 {
        lemma_budget_split_prefix(s0, s1, j - 1);
        lemma_pending_monotone(s0, j - 1, j);
    }
}

/// The Move action the path follower enqueues for one path step: a loose
/// arrival tolerance of one tile.
pub open spec fn follow_action(p: Point) -> Action {
    Action {
        action_type: ActionType::Move,
        target_point: Some(p),
        target_id: None,
        params: ActionParams {
            range: Some(10_000u64),
            min_range: None,
            no_skip: false,
            duration_ms: None,
        },
    }
}

/// Advance the path cursor while the entity walks the tile path, and when
/// the entity is fully idle — empty current action and empty queue — enqueue
/// one Move action per remaining path step.  An entity that is not idle is
/// never enqueued into: no duplicate enqueue storms.
pub fn follow_path(pf: &mut Pathfinder, nerve: &mut Nerve, pos: Point)
    requires
        old(pf)@.wf(),
        pos.wf(),
    ensures
        final(pf)@.wf(),
        !(old(nerve)@.current_action.action_type is Empty && old(nerve)@.action_queue.len() == 0)
            ==> final(nerve)@ == old(nerve)@,
        final(pf)@ == (PathfinderView {
            path_index: final(pf)@.path_index,
            path_ready: final(pf)@.path_ready,
            ..old(pf)@
        }),
        ({
            let pf0 = old(pf)@;
            if pf0.tile_path.len() == 0 {
                *final(pf) == *old(pf) && final(nerve)@ == old(nerve)@
            } else {
                let adv = pf0.path_index < pf0.tile_path.len() && pos.x >= 0 && pos.y >= 0
                    && pf0.tile_path[pf0.path_index as int].x == pos.x as int / TILE_SIZE_MU as int
                    && pf0.tile_path[pf0.path_index as int].y == pos.y as int / TILE_SIZE_MU as int;
                let idx = if adv {
                    pf0.path_index + 1
                } else {
                    pf0.path_index as int
                };
                &&& final(pf)@.path_index == idx
                &&& if idx < pf0.tile_path.len() && old(nerve)@.current_action.action_type is Empty
                    && old(nerve)@.action_queue.len() == 0 {
                    &&& final(nerve)@.action_queue == Seq::new(
                        (pf0.path.len() - idx) as nat,
                        |k: int| follow_action(pf0.path[idx + k]),
                    )
                    &&& final(nerve)@.current_action == old(nerve)@.current_action
                    &&& final(nerve)@.action_timer == old(nerve)@.action_timer
                    &&& final(pf)@.path_ready == true
                } else {
                    final(nerve)@ == old(nerve)@ && final(pf)@.path_ready == pf0.path_ready
                }
            }
        }),
{
    if pf.tile_path.len() == 0 {
        return ;
    }
    if pf.path_index < pf.tile_path.len() {
        let path_tile = pf.tile_path[pf.path_index];
        if let Some(cur) = TilePos::from_coords(pos) {
            if cur.same_tile(&path_tile) {
                pf.path_index = pf.path_index + 1;
            }
        }
    }
    if pf.path_index < pf.tile_path.len() && nerve.is_curr_action_empty() && nerve.action_queue.len()
        == 0 {
        let start = pf.path_index;
        let ghost pf_mid = pf@;
        let mut idx = start;
        while idx < pf.path.len()
            invariant
                pf@.wf(),
                pf@ == pf_mid,
                start == pf_mid.path_index,
                start <= idx <= pf@.path.len(),
                nerve@.current_action == old(nerve)@.current_action,
                nerve@.action_timer == old(nerve)@.action_timer,
                nerve@.action_queue.len() == idx - start,
                forall|k: int|
                    0 <= k < idx - start ==> #[trigger] nerve@.action_queue[k] == follow_action(
                        pf@.path[start + k],
                    ),
            decreases pf@.path.len() - idx,
        {
            let target = pf.path[idx];
            nerve.action_queue.push_back(Action {
                action_type: ActionType::Move,
                target_point: Some(target),
                target_id: None,
                params: ActionParams {
                    range: Some(10_000),
                    min_range: None,
                    no_skip: false,
                    duration_ms: None,
                },
            });
            idx = idx + 1;
        }
        pf.path_ready = true;
        proof {
            assert(nerve@.action_queue =~= Seq::new(
                (pf@.path.len() - start) as nat,
                |k: int| follow_action(pf@.path[start + k]),
            ));
        }
    }
}

} // verus!
