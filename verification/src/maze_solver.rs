//! Wall-following ("Pledge") maze navigation.

use vstd::prelude::*;
use crate::messages::RelativeDirection;

verus! {

/// A cell position in the maze grid: (row, column).
pub type Position = (usize, usize);

/// One of the four cardinal headings.
///
/// The cyclic order used by every turn is North -> East -> South -> West for
/// right turns, and its reverse for left turns.
#[derive(Debug, Copy, Clone, PartialEq, Eq, Structural)]
pub enum Direction {
    North,
    East,
    South,
    West,
}

impl Direction {
    /// The heading after a quarter turn to the left.
    pub open spec fn spec_turn_left(self) -> Direction {
        match self {
            Direction::North => Direction::West,
            Direction::West => Direction::South,
            Direction::South => Direction::East,
            Direction::East => Direction::North,
        }
    }

    /// The heading after a quarter turn to the right.
    pub open spec fn spec_turn_right(self) -> Direction {
        match self {
            Direction::North => Direction::East,
            Direction::East => Direction::South,
            Direction::South => Direction::West,
            Direction::West => Direction::North,
        }
    }

    /// Heading after a left turn.
    pub fn turn_left(self) -> (r: Direction)
        ensures
            r == self.spec_turn_left(),
    {
        match self {
            Direction::North => Direction::West,
            Direction::West => Direction::South,
            Direction::South => Direction::East,
            Direction::East => Direction::North,
        }
    }

    /// Heading after a right turn.
    pub fn turn_right(self) -> (r: Direction)
        ensures
            r == self.spec_turn_right(),
    {
        match self {
            Direction::North => Direction::East,
            Direction::East => Direction::South,
            Direction::South => Direction::West,
            Direction::West => Direction::North,
        }
    }

    /// The (row, column) offset of one step along this heading.
    pub open spec fn spec_as_offset(self) -> (i32, i32) {
        match self {
            Direction::North => (-1i32, 0i32),
            Direction::South => (1i32, 0i32),
            Direction::East => (0i32, 1i32),
            Direction::West => (0i32, -1i32),
        }
    }

    /// The (row, column) offset of one step along this heading.
    pub fn as_offset(self) -> (r: (i32, i32))
        ensures
            r == self.spec_as_offset(),
    {
        match self {
            Direction::North => (-1, 0),
            Direction::South => (1, 0),
            Direction::East => (0, 1),
            Direction::West => (0, -1),
        }
    }
}

/// Four left turns, or four right turns, lead back to the same heading, and a
/// left turn undoes a right turn.
pub proof fn lemma_turns_cycle(d: Direction)
    ensures
        d.spec_turn_left().spec_turn_right() == d,
        d.spec_turn_right().spec_turn_left() == d,
        d.spec_turn_right().spec_turn_right().spec_turn_right().spec_turn_right() == d,
        d.spec_turn_left().spec_turn_left().spec_turn_left().spec_turn_left() == d,
{
}

} // verus!

verus! {

/// Whether every row of the grid has the same width as the first row.
pub open spec fn grid_wf(grid: Seq<Vec<bool>>) -> bool {
    forall|r: int| 0 <= r < grid.len() ==> (#[trigger] grid[r])@.len() == grid[0]@.len()
}

/// Whether `pos` lies inside the grid and holds a passable cell.
pub open spec fn passable(grid: Seq<Vec<bool>>, pos: (int, int)) -> bool {
    &&& 0 < grid.len()
    &&& 0 <= pos.0 < grid.len()
    &&& 0 <= pos.1 < grid[0]@.len()
    &&& grid[pos.0]@[pos.1]
}

/// The position one step from `pos` along `d`.
pub open spec fn step_from(pos: (int, int), d: Direction) -> (int, int) {
    (pos.0 + d.spec_as_offset().0 as int, pos.1 + d.spec_as_offset().1 as int)
}

/// Whether `q` is exactly one cardinal step away from `p`.
pub open spec fn cardinal_step(p: (int, int), q: (int, int)) -> bool {
    exists|d: Direction| q == #[trigger] step_from(p, d)
}

/// Whether `pos` lies inside the grid and holds a passable cell; any
/// position outside the grid counts as blocked.
pub fn can_move(grid: &Vec<Vec<bool>>, pos: Position) -> (r: bool)
    requires
        grid_wf(grid@),
    ensures
        r == passable(grid@, (pos.0 as int, pos.1 as int)),
{
    let (i, j) = pos;
    if i < grid.len() && j < grid[0].len() {
        grid[i][j]
    } else {
        false
    }
}

} // verus!

verus! {

/// The full state of one wall-following escape attempt.
pub ghost struct PledgeState {
    /// The current position.
    pub pos: (int, int),
    /// The current heading.
    pub heading: Direction,
    /// Signed turn counter: right turns add one, left turns take one away.
    pub counter: int,
    /// Whether the walker is following a wall rather than heading for the
    /// goal direction.
    pub in_pledge: bool,
    /// Every position visited so far, in order.
    pub path: Seq<(int, int)>,
}

/// One wall-following move: turn right and advance when the right-hand
/// cell is open, advance when the cell ahead is open, otherwise rotate
/// left in place; afterwards, leave wall-following mode as soon as the
/// turn counter is balanced and the goal direction is open.
pub open spec fn pledge_wall_step(grid: Seq<Vec<bool>>, goal: Direction, s: PledgeState) -> PledgeState {
    let right = s.heading.spec_turn_right();
    let pos_right = step_from(s.pos, right);
    let pos_forward = step_from(s.pos, s.heading);
    let s1 = if passable(grid, pos_right) {
        PledgeState {
            pos: pos_right,
            heading: right,
            counter: s.counter + 1,
            path: s.path.push(pos_right),
            ..s
        }
    } else if passable(grid, pos_forward) {
        PledgeState { pos: pos_forward, path: s.path.push(pos_forward), ..s }
    } else {
        PledgeState { heading: s.heading.spec_turn_left(), counter: s.counter - 1, ..s }
    };
    if s1.in_pledge && s1.counter == 0 && passable(grid, step_from(s1.pos, goal)) {
        PledgeState { in_pledge: false, heading: goal, ..s1 }
    } else {
        s1
    }
}

/// One decision step of the escape attempt: head straight for the goal
/// direction while the way is open; at a wall, turn left once, so that
/// the wall that blocked the way lies on the right hand, and follow it.
pub open spec fn pledge_step(grid: Seq<Vec<bool>>, goal: Direction, s: PledgeState) -> PledgeState {
    if !s.in_pledge {
        let ahead = step_from(s.pos, goal);
        if passable(grid, ahead) {
            PledgeState { pos: ahead, path: s.path.push(ahead), ..s }
        } else {
            pledge_wall_step(
                grid,
                goal,
                PledgeState {
                    heading: goal.spec_turn_left(),
                    counter: 0,
                    in_pledge: true,
                    ..s
                },
            )
        }
    } else {
        pledge_wall_step(grid, goal, s)
    }
}

/// The outcome of running the escape attempt for at most `fuel` decision
/// steps: the visited path once the walker stands on the exit, `None`
/// when the step bound runs out first.
pub open spec fn pledge_run(
    grid: Seq<Vec<bool>>,
    exit: (int, int),
    goal: Direction,
    s: PledgeState,
    fuel: nat,
) -> Option<Seq<(int, int)>>
    decreases fuel,
{
    if fuel == 0 {
        None
    } else if s.pos == exit {
        Some(s.path)
    } else {
        pledge_run(grid, exit, goal, pledge_step(grid, goal, s), (fuel - 1) as nat)
    }
}

/// The state in which an escape attempt from `start` toward `goal` begins.
pub open spec fn pledge_init(start: (int, int), goal: Direction) -> PledgeState {
    PledgeState {
        pos: start,
        heading: goal,
        counter: 0,
        in_pledge: false,
        path: seq![start],
    }
}

/// The outcome of the whole escape attempt: the wall-following walk from
/// `start`, bounded by 20 decision steps per grid cell.
pub open spec fn spec_solve_maze(
    grid: Seq<Vec<bool>>,
    start: (int, int),
    exit: (int, int),
    goal: Direction,
) -> Option<Seq<(int, int)>> {
    pledge_run(grid, exit, goal, pledge_init(start, goal), (grid.len() * grid[0]@.len() * 20) as nat)
}

/// The integer pair of a grid position.
pub open spec fn pos_ints(p: Position) -> (int, int) {
    (p.0 as int, p.1 as int)
}

/// The integer pairs of a path of grid positions.
pub open spec fn path_ints(s: Seq<Position>) -> Seq<(int, int)> {
    s.map_values(|p: Position| pos_ints(p))
}

} // verus!

verus! {

/// The neighbouring position one step along `d`, or `None` when that step
/// would leave the grid through row or column zero.
fn step_pos(pos: Position, d: Direction) -> (r: Option<Position>)
    requires
        pos.0 < usize::MAX,
        pos.1 < usize::MAX,
    ensures
        match r {
            Some(q) => pos_ints(q) == step_from(pos_ints(pos), d),
            None => step_from(pos_ints(pos), d).0 < 0 || step_from(pos_ints(pos), d).1 < 0,
        },
{
    match d {
        Direction::North => if pos.0 == 0 {
            None
        } else {
            Some((pos.0 - 1, pos.1))
        },
        Direction::South => Some((pos.0 + 1, pos.1)),
        Direction::East => Some((pos.0, pos.1 + 1)),
        Direction::West => if pos.1 == 0 {
            None
        } else {
            Some((pos.0, pos.1 - 1))
        },
    }
}

/// Escapes the maze with the wall-following ("Pledge") strategy.
///
/// `grid` holds `true` for a passage and `false` for a wall; the walk
/// starts at `start`, aims for `exit`, and `goal` is the believed
/// direction toward the exit. The number of decision steps is bounded by
/// 20 per grid cell; when the bound runs out before the exit is reached,
/// the attempt yields `None` — the strategy is only guaranteed to escape
/// simply-connected regions, so a caller must decide what to do then.
///
/// A returned path starts at `start`, ends at `exit`, and every
/// consecutive pair differs by exactly one cardinal step into a passable
/// cell.
pub fn solve_maze_pledge(
    grid: &Vec<Vec<bool>>,
    start: Position,
    exit: Position,
    goal: Direction,
) -> (r: Option<Vec<Position>>)
    requires
        grid_wf(grid@),
        grid@.len() > 0,
        grid@.len() * grid@[0]@.len() * 20 <= i32::MAX,
        start.0 < usize::MAX,
        start.1 < usize::MAX,
    ensures
        match r {
            Some(path) => {
                &&& spec_solve_maze(grid@, pos_ints(start), pos_ints(exit), goal) == Some(
                    path_ints(path@),
                )
                &&& path@.len() >= 1
                &&& path@[0] == start
                &&& path@.last() == exit
                &&& forall|t: int|
                    0 <= t < path@.len() - 1 ==> cardinal_step(
                        pos_ints(path@[t]),
                        pos_ints(#[trigger] path@[t + 1]),
                    ) && passable(grid@, pos_ints(path@[t + 1]))
            },
            None => spec_solve_maze(grid@, pos_ints(start), pos_ints(exit), goal) == None::<
                Seq<(int, int)>,
            >,
        },
{
    let rows = grid.len();
    let cols = grid[0].len();
    let max_steps: usize = rows * cols * 20;
    let mut current = start;
    let mut dir = goal;
    let mut counter: i32 = 0;
    let mut in_pledge = false;
    let mut path: Vec<Position> = Vec::new();
    path.push(start);
    let ghost gexit = pos_ints(exit);
    let ghost init = pledge_init(pos_ints(start), goal);
    proof {
        assert(path_ints(path@) =~= seq![pos_ints(start)]);
    }
    let mut k: usize = 0;
    while k < max_steps
        invariant
            grid_wf(grid@),
            grid@.len() > 0,
            rows == grid@.len(),
            cols == grid@[0]@.len(),
            max_steps == rows * cols * 20,
            max_steps <= i32::MAX,
            k <= max_steps,
            gexit == pos_ints(exit),
            init == pledge_init(pos_ints(start), goal),
            current.0 < usize::MAX,
            current.1 < usize::MAX,
            -(k as int) <= counter as int <= k as int,
            path@.len() >= 1,
            path@[0] == start,
            path@.last() == current,
            forall|t: int|
                0 <= t < path@.len() - 1 ==> cardinal_step(
                    pos_ints(path@[t]),
                    pos_ints(#[trigger] path@[t + 1]),
                ) && passable(grid@, pos_ints(path@[t + 1])),
            pledge_run(
                grid@,
                gexit,
                goal,
                PledgeState {
                    pos: pos_ints(current),
                    heading: dir,
                    counter: counter as int,
                    in_pledge: in_pledge,
                    path: path_ints(path@),
                },
                (max_steps - k) as nat,
            ) == pledge_run(grid@, gexit, goal, init, max_steps as nat),
        decreases max_steps - k,
    {
        let ghost s0 = PledgeState {
            pos: pos_ints(current),
            heading: dir,
            counter: counter as int,
            in_pledge: in_pledge,
            path: path_ints(path@),
        };
        if current.0 == exit.0 && current.1 == exit.1 {
            proof {
                assert(s0.pos == gexit);
                assert(pledge_run(grid@, gexit, goal, s0, (max_steps - k) as nat) == Some(
                    s0.path,
                ));
            }
            return Some(path);
        }
        let mut did_move = false;
        if !in_pledge {
            let mut goal_open = false;
            match step_pos(current, goal) {
                Some(q) => {
                    if can_move(grid, q) {
                        goal_open = true;
                        current = q;
                        path.push(q);
                        did_move = true;
                        proof {
                            assert(path_ints(path@) =~= s0.path.push(pos_ints(q)));
                        }
                    }
                },
                None => {},
            }
            if !goal_open {
                in_pledge = true;
                dir = goal.turn_left();
                counter = 0;
            }
        }
        if !did_move {
            let ghost s_wall = PledgeState {
                pos: pos_ints(current),
                heading: dir,
                counter: counter as int,
                in_pledge: true,
                path: path_ints(path@),
            };
            let right = dir.turn_right();
            let mut wall_moved = false;
            match step_pos(current, right) {
                Some(q) => {
                    if can_move(grid, q) {
                        dir = right;
                        counter = counter + 1;
                        current = q;
                        path.push(q);
                        wall_moved = true;
                        proof {
                            assert(path_ints(path@) =~= s_wall.path.push(pos_ints(q)));
                        }
                    }
                },
                None => {},
            }
            if !wall_moved {
                let mut forward_moved = false;
                match step_pos(current, dir) {
                    Some(q) => {
                        if can_move(grid, q) {
                            current = q;
                            path.push(q);
                            forward_moved = true;
                            proof {
                                assert(path_ints(path@) =~= s_wall.path.push(pos_ints(q)));
                            }
                        }
                    },
                    None => {},
                }
                if !forward_moved {
                    dir = dir.turn_left();
                    counter = counter - 1;
                }
            }
            if counter == 0 {
                let mut goal_open_here = false;
                match step_pos(current, goal) {
                    Some(q) => {
                        if can_move(grid, q) {
                            goal_open_here = true;
                        }
                    },
                    None => {},
                }
                if goal_open_here {
                    in_pledge = false;
                    dir = goal;
                }
            }
        }
        proof {
            let s1 = PledgeState {
                pos: pos_ints(current),
                heading: dir,
                counter: counter as int,
                in_pledge: in_pledge,
                path: path_ints(path@),
            };
            assert(s1 == pledge_step(grid@, goal, s0));
            assert(pledge_run(grid@, gexit, goal, s0, (max_steps - k) as nat) == pledge_run(
                grid@,
                gexit,
                goal,
                s1,
                (max_steps - k - 1) as nat,
            ));
        }
        k = k + 1;
    }
    proof {
        assert(pledge_run(
            grid@,
            gexit,
            goal,
            PledgeState {
                pos: pos_ints(current),
                heading: dir,
                counter: counter as int,
                in_pledge: in_pledge,
                path: path_ints(path@),
            },
            0,
        ) == None::<Seq<(int, int)>>);
    }
    None
}

} // verus!

verus! {

/// The decoded neighborhood of the current cell: whether the adjacent
/// cell along each heading is passable. Derived once per received radar
/// snapshot, consumed once by a navigation decision, then discarded.
#[derive(Debug, Copy, Clone, PartialEq, Eq, Structural)]
pub struct LocalView {
    /// The cell to the north is passable.
    pub north: bool,
    /// The cell to the east is passable.
    pub east: bool,
    /// The cell to the south is passable.
    pub south: bool,
    /// The cell to the west is passable.
    pub west: bool,
}

/// Whether the neighbouring cell along `d` is passable in this view.
pub open spec fn view_passable(v: LocalView, d: Direction) -> bool {
    match d {
        Direction::North => v.north,
        Direction::East => v.east,
        Direction::South => v.south,
        Direction::West => v.west,
    }
}

/// Whether the walker heads straight for the goal or follows a wall.
#[derive(Debug, Copy, Clone, PartialEq, Eq, Structural)]
pub enum NavMode {
    /// Head straight along the goal direction.
    Direct,
    /// Follow the wall on the right hand.
    FollowWall,
}

/// The navigation engine's state between decisions: the heading, the
/// signed turn counter of the wall-following strategy, and the mode.
/// Owned by one engine instance per active player session.
#[derive(Debug, Copy, Clone, PartialEq, Eq, Structural)]
pub struct NavigationState {
    /// The current heading.
    pub heading: Direction,
    /// Right turns add one, left turns take one away; balance means the
    /// wall has been followed around to the goal heading.
    pub pledge_counter: i64,
    /// The current mode.
    pub mode: NavMode,
}

/// The mathematical value of a navigation state.
pub ghost struct SpecNavState {
    pub heading: Direction,
    pub pledge_counter: int,
    pub mode: NavMode,
}

impl View for NavigationState {
    type V = SpecNavState;

    open spec fn view(&self) -> SpecNavState {
        SpecNavState {
            heading: self.heading,
            pledge_counter: self.pledge_counter as int,
            mode: self.mode,
        }
    }
}

/// One wall-following decision on a local view: turn right and move when
/// the right-hand cell is open, move ahead when the cell ahead is open,
/// otherwise rotate left in place and try again, up to `tries` rotations.
/// `None` means the walker is fully enclosed and no move is possible.
pub open spec fn spec_wall_decide(v: LocalView, s: SpecNavState, tries: nat) -> (
    SpecNavState,
    Option<Direction>,
)
    decreases tries,
{
    if tries == 0 {
        (s, None)
    } else {
        let right = s.heading.spec_turn_right();
        if view_passable(v, right) {
            (
                SpecNavState { heading: right, pledge_counter: s.pledge_counter + 1, ..s },
                Some(right),
            )
        } else if view_passable(v, s.heading) {
            (s, Some(s.heading))
        } else {
            spec_wall_decide(
                v,
                SpecNavState {
                    heading: s.heading.spec_turn_left(),
                    pledge_counter: s.pledge_counter - 1,
                    ..s
                },
                (tries - 1) as nat,
            )
        }
    }
}

/// One navigation decision on a local view, toward a fixed goal heading:
/// leave wall-following as soon as the turn counter is balanced and the
/// goal direction is open; head straight for the goal while it is open;
/// at a wall, turn left once, so that the wall that blocked the way lies
/// on the right hand, and follow it.
pub open spec fn spec_decide(v: LocalView, s: SpecNavState, goal: Direction) -> (
    SpecNavState,
    Option<Direction>,
) {
    let s0 = if s.mode is FollowWall && s.pledge_counter == 0 && view_passable(v, goal) {
        SpecNavState { mode: NavMode::Direct, heading: goal, ..s }
    } else {
        s
    };
    if s0.mode is Direct {
        if view_passable(v, goal) {
            (SpecNavState { heading: goal, ..s0 }, Some(goal))
        } else {
            spec_wall_decide(
                v,
                SpecNavState {
                    mode: NavMode::FollowWall,
                    heading: goal.spec_turn_left(),
                    pledge_counter: 0,
                    ..s0
                },
                4,
            )
        }
    } else {
        spec_wall_decide(v, s0, 4)
    }
}

/// Whether the neighbouring cell along `d` is passable in this view.
pub fn local_view_passable(v: &LocalView, d: Direction) -> (r: bool)
    ensures
        r == view_passable(*v, d),
{
    match d {
        Direction::North => v.north,
        Direction::East => v.east,
        Direction::South => v.south,
        Direction::West => v.west,
    }
}

/// The wall-following decision, rotating left at most `tries` times.
fn wall_decide(view: &LocalView, state: &mut NavigationState, tries: u8) -> (r: Option<Direction>)
    requires
        old(state).pledge_counter + 1 <= i64::MAX,
        old(state).pledge_counter - tries >= i64::MIN,
    ensures
        (final(state)@, r) == spec_wall_decide(*view, old(state)@, tries as nat),
        match r {
            Some(d) => view_passable(*view, d),
            None => true,
        },
    decreases tries,
{
    if tries == 0 {
        return None;
    }
    let right = state.heading.turn_right();
    if local_view_passable(view, right) {
        state.heading = right;
        state.pledge_counter = state.pledge_counter + 1;
        Some(right)
    } else if local_view_passable(view, state.heading) {
        Some(state.heading)
    } else {
        state.heading = state.heading.turn_left();
        state.pledge_counter = state.pledge_counter - 1;
        wall_decide(view, state, tries - 1)
    }
}

/// Makes one navigation decision for the current local view and the fixed
/// goal heading. `Some` names the heading to move along, always into a
/// passable cell of the view; `None` means the walker is fully enclosed
/// and must wait for fresh sensor data.
pub fn decide_action(state: &mut NavigationState, view: &LocalView, goal: Direction) -> (r: Option<
    Direction,
>)
    requires
        old(state).pledge_counter + 1 <= i64::MAX,
        old(state).pledge_counter - 4 >= i64::MIN,
    ensures
        (final(state)@, r) == spec_decide(*view, old(state)@, goal),
        match r {
            Some(d) => view_passable(*view, d),
            None => true,
        },
{
    let counter_balanced = state.pledge_counter == 0;
    let follow_wall = match state.mode {
        NavMode::FollowWall => true,
        NavMode::Direct => false,
    };
    if follow_wall && counter_balanced && local_view_passable(view, goal) {
        state.mode = NavMode::Direct;
        state.heading = goal;
    }
    match state.mode {
        NavMode::Direct => {
            if local_view_passable(view, goal) {
                state.heading = goal;
                Some(goal)
            } else {
                state.mode = NavMode::FollowWall;
                state.heading = goal.turn_left();
                state.pledge_counter = 0;
                wall_decide(view, state, 4)
            }
        },
        NavMode::FollowWall => wall_decide(view, state, 4),
    }
}

/// The relative direction that turns the given heading into the target
/// heading: ahead, a right turn, a reversal, or a left turn.
pub open spec fn spec_relative_of(heading: Direction, target: Direction) -> RelativeDirection {
    if target == heading {
        RelativeDirection::Front
    } else if target == heading.spec_turn_right() {
        RelativeDirection::Right
    } else if target == heading.spec_turn_left() {
        RelativeDirection::Left
    } else {
        RelativeDirection::Back
    }
}

/// The relative direction that turns the given heading into the target
/// heading.
pub fn relative_of(heading: Direction, target: Direction) -> (r: RelativeDirection)
    ensures
        r == spec_relative_of(heading, target),
{
    if target == heading {
        RelativeDirection::Front
    } else if target == heading.turn_right() {
        RelativeDirection::Right
    } else if target == heading.turn_left() {
        RelativeDirection::Left
    } else {
        RelativeDirection::Back
    }
}

} // verus!

verus! {

/// Whether `path` is a walk a player could take: nonempty, and every
/// following position is one cardinal step away, into a passable cell.
pub open spec fn valid_walk(grid: Seq<Vec<bool>>, path: Seq<(int, int)>) -> bool {
    &&& path.len() >= 1
    &&& forall|t: int|
        0 <= t < path.len() - 1 ==> cardinal_step(path[t], #[trigger] path[t + 1]) && passable(
            grid,
            path[t + 1],
        )
}

/// Every decision step keeps the recorded path a valid walk that starts
/// where it started and ends at the walker's position.
proof fn lemma_pledge_step_keeps_walk(grid: Seq<Vec<bool>>, goal: Direction, s: PledgeState)
    requires
        valid_walk(grid, s.path),
        s.path.last() == s.pos,
    ensures
        valid_walk(grid, pledge_step(grid, goal, s).path),
        pledge_step(grid, goal, s).path.last() == pledge_step(grid, goal, s).pos,
        pledge_step(grid, goal, s).path[0] == s.path[0],
{
    let s1 = pledge_step(grid, goal, s);
    if s1.path != s.path {
        assert(forall|q: (int, int)|
            s.path.push(q).len() >= 1 && #[trigger] s.path.push(q).last() == q);
        assert forall|q: (int, int), d: Direction|
            q == step_from(s.pos, d) && passable(grid, q) implies valid_walk(
            grid,
            s.path.push(q),
        ) by {
            let p2 = s.path.push(q);
            assert(forall|t: int| 0 <= t < s.path.len() - 1 ==> #[trigger] p2[t + 1] == s.path[t + 1]);
            assert(p2[p2.len() - 2] == s.pos && p2[p2.len() - 1] == q);
            assert(cardinal_step(s.pos, q));
        }
    }
}

/// Whatever the fuel, a found escape is a valid walk from the start of
/// the recorded path to the exit.
proof fn lemma_pledge_run_valid(
    grid: Seq<Vec<bool>>,
    exit: (int, int),
    goal: Direction,
    s: PledgeState,
    fuel: nat,
)
    requires
        valid_walk(grid, s.path),
        s.path.last() == s.pos,
    ensures
        match pledge_run(grid, exit, goal, s, fuel) {
            Some(p) => valid_walk(grid, p) && p[0] == s.path[0] && p.last() == exit,
            None => true,
        },
    decreases fuel,
{
    if fuel == 0 {
    } else if s.pos == exit {
    } else {
        lemma_pledge_step_keeps_walk(grid, goal, s);
        lemma_pledge_run_valid(grid, exit, goal, pledge_step(grid, goal, s), (fuel - 1) as nat);
    }
}

/// On a maze region with no route from the start to the exit, the solver
/// gives no solution within its step bound — it never invents a path and,
/// being bounded, never runs forever.
pub proof fn lemma_no_route_gives_no_solution(
    grid: Seq<Vec<bool>>,
    start: (int, int),
    exit: (int, int),
    goal: Direction,
)
    requires
        forall|p: Seq<(int, int)>|
            !(valid_walk(grid, p) && #[trigger] p[0] == start && p.last() == exit),
    ensures
        spec_solve_maze(grid, start, exit, goal) == None::<Seq<(int, int)>>,
{
    let init = pledge_init(start, goal);
    assert(valid_walk(grid, init.path) && init.path.last() == start);
    lemma_pledge_run_valid(grid, exit, goal, init, (grid.len() * grid[0]@.len() * 20) as nat);
}

} // verus!
