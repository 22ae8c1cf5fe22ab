use maze_protocol::maze_solver::{
    can_move, decide_action, relative_of, solve_maze_pledge, Direction, LocalView, NavMode,
    NavigationState,
};
use maze_protocol::messages::RelativeDirection;

fn example_grid() -> Vec<Vec<bool>> {
    vec![
        vec![false, false, false, false, false],
        vec![false, true, true, true, false],
        vec![false, true, false, true, false],
        vec![false, true, true, true, false],
        vec![false, false, false, false, false],
    ]
}

#[test]
fn test_solve_maze_pledge() {
    let grid = example_grid();
    let start = (1, 1);
    let exit = (3, 3);
    let goal = Direction::East;
    let path = solve_maze_pledge(&grid, start, exit, goal);
    assert!(path.is_some());
}

#[test]
fn pledge_path_is_a_valid_walk() {
    let grid = example_grid();
    let start = (1, 1);
    let exit = (3, 3);
    let path = solve_maze_pledge(&grid, start, exit, Direction::East).unwrap();
    assert_eq!(path[0], start);
    assert_eq!(*path.last().unwrap(), exit);
    for w in path.windows(2) {
        let (a, b) = (w[0], w[1]);
        let dr = (a.0 as i64 - b.0 as i64).abs();
        let dc = (a.1 as i64 - b.1 as i64).abs();
        assert_eq!(dr + dc, 1, "consecutive cells must differ by one cardinal step");
        assert!(grid[b.0][b.1], "every step must enter a passable cell");
    }
}

#[test]
fn pledge_gives_no_solution_when_exit_is_walled_off() {
    // The exit cell is unreachable: the single passable region does not
    // touch it.
    let grid = vec![
        vec![false, false, false, false, false],
        vec![false, true, true, false, false],
        vec![false, true, false, false, false],
        vec![false, false, false, true, false],
        vec![false, false, false, false, false],
    ];
    let path = solve_maze_pledge(&grid, (1, 1), (3, 3), Direction::East);
    assert!(path.is_none());
}

#[test]
fn can_move_is_bounded_and_reads_the_grid() {
    let grid = example_grid();
    assert!(can_move(&grid, (1, 1)));
    assert!(!can_move(&grid, (2, 2)));
    assert!(!can_move(&grid, (0, 0)));
    assert!(!can_move(&grid, (5, 1)));
    assert!(!can_move(&grid, (1, 5)));
}

#[test]
fn turns_follow_one_cyclic_ordering() {
    assert_eq!(Direction::North.turn_right(), Direction::East);
    assert_eq!(Direction::East.turn_right(), Direction::South);
    assert_eq!(Direction::South.turn_right(), Direction::West);
    assert_eq!(Direction::West.turn_right(), Direction::North);
    assert_eq!(Direction::North.turn_left(), Direction::West);
    assert_eq!(Direction::West.turn_left(), Direction::South);
    assert_eq!(Direction::South.turn_left(), Direction::East);
    assert_eq!(Direction::East.turn_left(), Direction::North);
}

#[test]
fn offsets_name_rows_then_columns() {
    assert_eq!(Direction::North.as_offset(), (-1, 0));
    assert_eq!(Direction::South.as_offset(), (1, 0));
    assert_eq!(Direction::East.as_offset(), (0, 1));
    assert_eq!(Direction::West.as_offset(), (0, -1));
}

#[test]
fn direct_mode_moves_toward_open_goal() {
    let mut state = NavigationState {
        heading: Direction::North,
        pledge_counter: 0,
        mode: NavMode::Direct,
    };
    let view = LocalView { north: false, east: true, south: false, west: false };
    let mv = decide_action(&mut state, &view, Direction::East);
    assert_eq!(mv, Some(Direction::East));
    assert_eq!(state.mode, NavMode::Direct);
    assert_eq!(state.heading, Direction::East);
    assert_eq!(state.pledge_counter, 0);
}

#[test]
fn blocked_goal_starts_wall_following() {
    let mut state = NavigationState {
        heading: Direction::East,
        pledge_counter: 0,
        mode: NavMode::Direct,
    };
    // The goal (east) is walled, so the walker turns right of the goal
    // (south) and follows the wall: right of south is west (closed), so
    // it moves ahead, south.
    let view = LocalView { north: false, east: false, south: true, west: false };
    let mv = decide_action(&mut state, &view, Direction::East);
    assert_eq!(mv, Some(Direction::South));
    assert_eq!(state.mode, NavMode::FollowWall);
}

#[test]
fn enclosed_walker_makes_no_move() {
    let mut state = NavigationState {
        heading: Direction::North,
        pledge_counter: 0,
        mode: NavMode::Direct,
    };
    let view = LocalView { north: false, east: false, south: false, west: false };
    let mv = decide_action(&mut state, &view, Direction::North);
    assert_eq!(mv, None);
}

#[test]
fn balanced_counter_and_open_goal_leave_wall_mode() {
    let mut state = NavigationState {
        heading: Direction::South,
        pledge_counter: 0,
        mode: NavMode::FollowWall,
    };
    let view = LocalView { north: false, east: true, south: true, west: false };
    let mv = decide_action(&mut state, &view, Direction::East);
    assert_eq!(mv, Some(Direction::East));
    assert_eq!(state.mode, NavMode::Direct);
}

#[test]
fn relative_of_measures_against_heading() {
    assert_eq!(relative_of(Direction::North, Direction::North), RelativeDirection::Front);
    assert_eq!(relative_of(Direction::North, Direction::East), RelativeDirection::Right);
    assert_eq!(relative_of(Direction::North, Direction::West), RelativeDirection::Left);
    assert_eq!(relative_of(Direction::North, Direction::South), RelativeDirection::Back);
    assert_eq!(relative_of(Direction::East, Direction::North), RelativeDirection::Left);
}
