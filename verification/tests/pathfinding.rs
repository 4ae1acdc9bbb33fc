//! The spatial map, the budgeted path search, and the path follower.

use mercenaries::action::{Action, ActionParams, ActionType, Nerve};
use mercenaries::geom::Point;
use mercenaries::map::{
    convert_sample_to_tiletype, get_map_weight_from_tile_type, MapData, TilePos, TileType,
};
use mercenaries::pathfind::{
    follow_path, pathfind, PathAgent, Pathfinder, PathfindersQueue, MAX_PATHFINDERS,
};

fn uniform_map() -> MapData {
    // the window is 80 by 45 tiles of 10 units
    MapData::default_map()
}

fn requesting_agent(pos: Point, goal: TilePos, real_goal: Point) -> PathAgent {
    let mut pf = Pathfinder::default();
    pf.needs_pathfinding = true;
    pf.path_goal = goal;
    pf.real_goal = real_goal;
    PathAgent { pf, pos }
}

#[test]
fn tile_conversions() {
    assert_eq!(
        TilePos::from_coords(Point { x: 55_000, y: 31_000 }),
        Some(TilePos { x: 5, y: 3 })
    );
    assert_eq!(TilePos::from_coords(Point { x: -1, y: 5000 }), None);
    assert_eq!(TilePos::from_coords(Point { x: 5000, y: -200 }), None);
    let center = TilePos { x: 5, y: 5 }.to_coords();
    assert_eq!((center.x, center.y), (55_000, 55_000));
}

#[test]
fn terrain_classification_and_weights() {
    assert!(matches!(convert_sample_to_tiletype(0), TileType::Water));
    assert!(matches!(convert_sample_to_tiletype(500), TileType::Water));
    assert!(matches!(convert_sample_to_tiletype(501), TileType::Grass));
    assert!(matches!(convert_sample_to_tiletype(1000), TileType::Grass));
    assert!(matches!(convert_sample_to_tiletype(-5), TileType::Empty));
    assert!(matches!(convert_sample_to_tiletype(1500), TileType::Empty));
    // the weight policy is currently uniform
    assert_eq!(get_map_weight_from_tile_type(TileType::Grass), 1000);
    assert_eq!(get_map_weight_from_tile_type(TileType::Water), 1000);
}

#[test]
fn update_map_rebuilds_weights() {
    let mut map = uniform_map();
    let tiles: Vec<TileType> = (0..(80 * 45))
        .map(|i| if i % 2 == 0 { TileType::Grass } else { TileType::Water })
        .collect();
    map.update_map(&tiles);
    assert!(map.weights.iter().all(|&w| w == 1000));
    assert_eq!(map.min_weight, 1000);
}

#[test]
fn occupancy_is_rebuilt_not_accumulated() {
    let mut map = uniform_map();
    let here = TilePos { x: 3, y: 4 };
    let there = TilePos { x: 10, y: 10 };
    map.refresh_occupancy(&vec![Point { x: 35_000, y: 45_000 }]);
    assert!(map.is_tile_occupied(&here));
    assert!(!map.is_tile_occupied(&there));
    // the next rebuild forgets the previous tick entirely
    map.refresh_occupancy(&vec![Point { x: 105_000, y: 105_000 }]);
    assert!(!map.is_tile_occupied(&here));
    assert!(map.is_tile_occupied(&there));
    // negative positions mark nothing
    map.refresh_occupancy(&vec![Point { x: -5000, y: 5000 }]);
    assert!(!map.is_tile_occupied(&here));
    assert!(!map.is_tile_occupied(&there));
}

#[test]
fn diagonal_path_costs_five_not_ten() {
    // entity on tile (0,0), goal tile (5,5), uniform weight 1.0: the only
    // five-step route is the pure diagonal, and its total cost is five
    let map = uniform_map();
    let goal = TilePos { x: 5, y: 5 };
    let real_goal = goal.to_coords();
    let mut agents = vec![requesting_agent(Point { x: 0, y: 0 }, goal, real_goal)];
    let mut waiting = PathfindersQueue(0);
    pathfind(&mut waiting, &map, &mut agents);

    let pf = &agents[0].pf;
    assert!(!pf.needs_pathfinding);
    assert_eq!(pf.path_index, 0);
    assert_eq!(pf.path_start, TilePos { x: 0, y: 0 });
    // six nodes for five steps, plus the appended goal tile
    assert_eq!(pf.tile_path.len(), 7);
    for (k, t) in pf.tile_path.iter().take(6).enumerate() {
        assert_eq!(*t, TilePos { x: k, y: k });
    }
    assert_eq!(pf.tile_path[6], goal);
    // the walked cost is the five entered tiles' weights: 5 x 1.0
    let cost: u64 = (1..6).map(|_| 1000u64).sum();
    assert_eq!(cost, 5000);
    // world path: tile centers, with the final entry the precise goal
    assert_eq!(pf.path.len(), 7);
    assert_eq!(pf.path[0], TilePos { x: 0, y: 0 }.to_coords());
    assert_eq!(pf.path[6], real_goal);
}

#[test]
fn pathfinding_budget_serves_max_and_defers_the_rest() {
    let map = uniform_map();
    let goal = TilePos { x: 5, y: 5 };
    let real_goal = goal.to_coords();
    let mut agents: Vec<PathAgent> = (0..MAX_PATHFINDERS + 5)
        .map(|i| {
            requesting_agent(
                Point { x: 10_000 * i as i64, y: 0 },
                goal,
                real_goal,
            )
        })
        .collect();
    let mut waiting = PathfindersQueue(7);  // stale value from a prior tick
    pathfind(&mut waiting, &map, &mut agents);

    // the budget reset at tick start, then counted exactly MAX searches
    assert_eq!(waiting.0, MAX_PATHFINDERS);
    let served = agents.iter().filter(|a| !a.pf.needs_pathfinding).count();
    let deferred = agents.iter().filter(|a| a.pf.needs_pathfinding).count();
    assert_eq!(served, MAX_PATHFINDERS);
    assert_eq!(deferred, 5);
    // the first MAX requests in entity order were the ones served
    for (i, a) in agents.iter().enumerate() {
        assert_eq!(a.pf.needs_pathfinding, i >= MAX_PATHFINDERS);
    }

    // the next tick's pass serves the remainder: the budget reset again
    pathfind(&mut waiting, &map, &mut agents);
    assert_eq!(waiting.0, 5);
    assert!(agents.iter().all(|a| !a.pf.needs_pathfinding));
}

#[test]
fn pathfinding_rejects_off_grid_requests() {
    let map = uniform_map();
    // entity at a negative coordinate: the request is dropped, not served
    let mut agents = vec![requesting_agent(
        Point { x: -5000, y: 100 },
        TilePos { x: 5, y: 5 },
        TilePos { x: 5, y: 5 }.to_coords(),
    )];
    let mut waiting = PathfindersQueue(0);
    pathfind(&mut waiting, &map, &mut agents);
    assert!(!agents[0].pf.needs_pathfinding);
    assert_eq!(agents[0].pf.tile_path.len(), 0);
    assert_eq!(agents[0].pf.path.len(), 0);

    // goal tile outside the grid: likewise dropped
    let mut agents = vec![requesting_agent(
        Point { x: 5000, y: 5000 },
        TilePos { x: 500, y: 5 },
        Point { x: 5_005_000, y: 55_000 },
    )];
    let mut waiting = PathfindersQueue(0);
    pathfind(&mut waiting, &map, &mut agents);
    assert!(!agents[0].pf.needs_pathfinding);
    assert_eq!(agents[0].pf.tile_path.len(), 0);
}

#[test]
fn successor_lists_are_duplicate_free() {
    let map = uniform_map();
    // the corner tile has exactly its three neighbours
    let corner = map.successors(0);
    assert_eq!(corner.len(), 3);
    // an interior tile has the full eight, each listed once, each carrying
    // the entered tile's weight
    let inner = map.successors(5 + 5 * 80);
    assert_eq!(inner.len(), 8);
    for i in 0..inner.len() {
        for j in 0..i {
            assert_ne!(inner[i].0, inner[j].0);
        }
    }
    assert!(inner.iter().all(|p| p.1 == 1000));
}

fn ready_pathfinder() -> Pathfinder {
    let map = uniform_map();
    let goal = TilePos { x: 3, y: 0 };
    let mut agents = vec![requesting_agent(
        Point { x: 5_000, y: 5_000 },
        goal,
        goal.to_coords(),
    )];
    let mut waiting = PathfindersQueue(0);
    pathfind(&mut waiting, &map, &mut agents);
    agents.remove(0).pf
}

#[test]
fn follow_path_enqueues_only_when_idle() {
    let mut pf = ready_pathfinder();
    let len = pf.tile_path.len();
    assert!(len >= 2);

    // a busy nerve is never enqueued into; standing on the first path tile
    // still advances the cursor
    let mut nerve = Nerve::new();
    nerve.current_action = Action {
        action_type: ActionType::Wait,
        target_point: None,
        target_id: None,
        params: ActionParams { range: None, min_range: None, no_skip: false, duration_ms: None },
    };
    follow_path(&mut pf, &mut nerve, Point { x: 5_000, y: 5_000 });
    assert_eq!(nerve.action_queue.len(), 0);
    assert!(!pf.path_ready);
    assert_eq!(pf.path_index, 1);

    // a nonempty queue also counts as busy
    let mut nerve = Nerve::new();
    nerve.action_queue.push_back(Action {
        action_type: ActionType::Wait,
        target_point: None,
        target_id: None,
        params: ActionParams { range: None, min_range: None, no_skip: false, duration_ms: None },
    });
    let queued_before = nerve.action_queue.len();
    follow_path(&mut pf, &mut nerve, Point { x: 5_000, y: 5_000 });
    assert_eq!(nerve.action_queue.len(), queued_before);
    assert!(!pf.path_ready);
    assert_eq!(pf.path_index, 1);

    // an idle nerve receives one Move per remaining step
    let mut nerve = Nerve::new();
    follow_path(&mut pf, &mut nerve, Point { x: 5_000, y: 5_000 });
    assert!(pf.path_ready);
    assert_eq!(pf.path_index, 1);
    assert_eq!(nerve.action_queue.len(), pf.path.len() - pf.path_index);
    for (k, a) in nerve.action_queue.iter().enumerate() {
        assert!(matches!(a.action_type, ActionType::Move));
        assert_eq!(a.target_point, Some(pf.path[pf.path_index + k]));
        assert_eq!(a.params.range, Some(10_000));
        assert!(!a.params.no_skip);
    }
}

#[test]
fn follow_path_cursor_tracks_entity_tile() {
    let mut pf = ready_pathfinder();
    let mut nerve = Nerve::new();
    // keep the nerve busy so only the cursor moves
    nerve.current_action = Action {
        action_type: ActionType::Wait,
        target_point: None,
        target_id: None,
        params: ActionParams { range: None, min_range: None, no_skip: false, duration_ms: None },
    };
    // not on the cursor's tile: no advance
    follow_path(&mut pf, &mut nerve, Point { x: 95_000, y: 95_000 });
    assert_eq!(pf.path_index, 0);
    // on it: advance by one
    let on_first = pf.path[0];
    follow_path(&mut pf, &mut nerve, on_first);
    assert_eq!(pf.path_index, 1);
    // a negative position lies on no tile and never matches
    follow_path(&mut pf, &mut nerve, Point { x: -1000, y: -1000 });
    assert_eq!(pf.path_index, 1);
}

#[test]
fn follow_path_with_no_path_does_nothing() {
    let mut pf = Pathfinder::default();
    let mut nerve = Nerve::new();
    follow_path(&mut pf, &mut nerve, Point { x: 5_000, y: 5_000 });
    assert_eq!(nerve.action_queue.len(), 0);
    assert!(!pf.path_ready);
    assert_eq!(pf.path_index, 0);
}
