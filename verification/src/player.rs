//! The actor: an ordered body of grid cells, head first, that moves one cell
//! per tick in its current direction.

use std::collections::VecDeque;
use vstd::prelude::*;
use crate::renderer::{DrawCommand, Renderer};

verus! {

/// The glyph that a segment of the actor is drawn with.
pub const SEGMENT_GLYPH: char = '\u{2588}';

/// The four ways the actor can face. `y` grows downwards, as rows on a screen do.
#[derive(Copy, Clone, Debug, PartialEq, Eq, Structural)]
pub enum Direction {
    Up,
    Down,
    Left,
    Right,
}

/// The direction that faces the other way.
pub open spec fn opposite_of(direction: Direction) -> Direction {
    match direction {
        Direction::Up => Direction::Down,
        Direction::Down => Direction::Up,
        Direction::Left => Direction::Right,
        Direction::Right => Direction::Left,
    }
}

/// The cell one step from `cell` in `direction`.
pub open spec fn step(cell: (int, int), direction: Direction) -> (int, int) {
    match direction {
        Direction::Up => (cell.0, cell.1 - 1),
        Direction::Down => (cell.0, cell.1 + 1),
        Direction::Left => (cell.0 - 1, cell.1),
        Direction::Right => (cell.0 + 1, cell.1),
    }
}

/// The direction held after a request to face `wanted`: a request to reverse
/// is ignored.
pub open spec fn turned(current: Direction, wanted: Direction) -> Direction {
    if wanted == opposite_of(current) {
        current
    } else {
        wanted
    }
}

/// Whether `cell` lies outside the square grid of side `grid_size`.
pub open spec fn outside_grid(cell: (int, int), grid_size: int) -> bool {
    cell.0 < 0 || cell.0 >= grid_size || cell.1 < 0 || cell.1 >= grid_size
}

/// Whether the head shares its cell with another segment.
pub open spec fn head_meets_body(segments: Seq<(int, int)>) -> bool {
    exists|i: int| 1 <= i < segments.len() && #[trigger] segments[i] == segments[0]
}

/// Whether no two segments behind the head share a cell.
pub open spec fn tail_is_distinct(segments: Seq<(int, int)>) -> bool {
    forall|i: int, j: int|
        1 <= i < segments.len() && 1 <= j < segments.len() && i != j ==> segments[i]
            != segments[j]
}

/// Whether both coordinates of `cell` can be held in an `i32`.
pub open spec fn representable(cell: (int, int)) -> bool {
    i32::MIN <= cell.0 <= i32::MAX && i32::MIN <= cell.1 <= i32::MAX
}

/// The segments as mathematical cells.
pub open spec fn cells_of(body: Seq<(i32, i32)>) -> Seq<(int, int)> {
    body.map_values(|cell: (i32, i32)| (cell.0 as int, cell.1 as int))
}

/// The calls that draw `segments`, head first.
pub open spec fn segment_commands(segments: Seq<(int, int)>) -> Seq<DrawCommand> {
    segments.map_values(
        |cell: (int, int)| DrawCommand::PutChar { x: cell.0, y: cell.1, glyph: SEGMENT_GLYPH },
    )
}

/// A head that shares its cell with another segment is a case of two
/// segments on one cell. So an actor whose segments all lie on cells of
/// their own does not collide with itself.
pub proof fn lemma_head_collision_is_duplicate(segments: Seq<(int, int)>)
    ensures
        head_meets_body(segments) ==> !segments.no_duplicates(),
        segments.no_duplicates() ==> !head_meets_body(segments),
{
    if head_meets_body(segments) {
        let i = choose|i: int| 1 <= i < segments.len() && #[trigger] segments[i] == segments[0];
        assert(segments[i] == segments[0]);
    }
}

/// The head shares its cell with another segment exactly if some two
/// segments share a cell. A body whose head is on a cell of its own while
/// two segments behind the head share one is left out: it has two segments
/// on one cell, and the head does not collide.
pub proof fn lemma_self_collision_law(segments: Seq<(int, int)>)
    requires
        tail_is_distinct(segments) || head_meets_body(segments),
    ensures
        head_meets_body(segments) <==> !segments.no_duplicates(),
{
    lemma_head_collision_is_duplicate(segments);
}

impl Direction {
    /// The direction that faces the other way.
    pub fn opposite(self) -> (direction: Direction)
        ensures
            direction == opposite_of(self),
    {
        match self {
            Direction::Up => Direction::Down,
            Direction::Down => Direction::Up,
            Direction::Left => Direction::Right,
            Direction::Right => Direction::Left,
        }
    }
}

/// Why the actor could not move.
#[derive(Copy, Clone, Debug, PartialEq, Eq, Structural)]
pub enum PlayerError {
    /// The actor has no segment to move from.
    EmptyBody,
}

impl PlayerError {
    /// The error in words.
    pub fn message(&self) -> (text: String)
        ensures
            text@ == "the actor has no segments"@,
    {
        match self {
            PlayerError::EmptyBody => "the actor has no segments".to_owned(),
        }
    }
}

/// What an actor is, to the rules of the game.
pub struct PlayerView {
    /// The cells of the body, head first.
    pub segments: Seq<(int, int)>,
    /// The direction of the next move.
    pub direction: Direction,
    /// Whether the next move keeps the tail.
    pub pending_growth: bool,
}

impl PlayerView {
    /// The cell that the next move puts the head on.
    pub open spec fn next_head(self) -> (int, int)
        recommends
            self.segments.len() > 0,
    {
        step(self.segments[0], self.direction)
    }

    /// The actor after one move: the new head is put in front, and the tail is
    /// dropped unless growth was pending.
    pub open spec fn advanced(self) -> PlayerView
        recommends
            self.segments.len() > 0,
    {
        PlayerView {
            segments: if self.pending_growth {
                seq![self.next_head()] + self.segments
            } else {
                seq![self.next_head()] + self.segments.drop_last()
            },
            direction: self.direction,
            pending_growth: false,
        }
    }
}

/// The actor.
pub struct Player {
    body: VecDeque<(i32, i32)>,
    direction: Direction,
    has_eaten: bool,
}

impl View for Player {
    type V = PlayerView;

    closed spec fn view(&self) -> PlayerView {
        PlayerView {
            segments: cells_of(self.body@),
            direction: self.direction,
            pending_growth: self.has_eaten,
        }
    }
}

impl Player {
    /// The actor as a round starts: five segments in a row, facing right.
    pub fn new() -> (player: Self)
        ensures
            player@.segments == seq![(5int, 1int), (4, 1), (3, 1), (2, 1), (1, 1)],
            player@.direction == Direction::Right,
            !player@.pending_growth,
    {
        let mut body: VecDeque<(i32, i32)> = VecDeque::new();
        body.push_back((5, 1));
        body.push_back((4, 1));
        body.push_back((3, 1));
        body.push_back((2, 1));
        body.push_back((1, 1));
        let player = Self { body, direction: Direction::Right, has_eaten: false };
        assert(player@.segments =~= seq![(5int, 1int), (4, 1), (3, 1), (2, 1), (1, 1)]);
        player
    }

    /// An actor with the given body, head first, facing `direction`, with no
    /// growth pending.
    pub fn with_body(body: VecDeque<(i32, i32)>, direction: Direction) -> (player: Self)
        ensures
            player@.segments == cells_of(body@),
            player@.direction == direction,
            !player@.pending_growth,
    {
        Self { body, direction, has_eaten: false }
    }

    /// Draws every segment, head first.
    pub fn draw(&self, renderer: &mut impl Renderer)
        requires
            old(renderer).valid(),
        ensures
            final(renderer).valid(),
            final(renderer).drawn() == old(renderer).drawn() + segment_commands(self@.segments),
    {
        let mut i: usize = 0;
        while i < self.body.len()
            invariant
                i <= self.body.len(),
                renderer.valid(),
                renderer.drawn() == old(renderer).drawn() + segment_commands(
                    self@.segments.take(i as int),
                ),
            decreases self.body.len() - i,
        {
            let cell = self.body[i];
            renderer.put_char(cell.0, cell.1, SEGMENT_GLYPH);
            i += 1;
            assert(segment_commands(self@.segments.take(i as int)) =~= segment_commands(
                self@.segments.take(i as int - 1),
            ).push(
                DrawCommand::PutChar { x: cell.0 as int, y: cell.1 as int, glyph: SEGMENT_GLYPH },
            ));
        }
        assert(self@.segments.take(i as int) =~= self@.segments);
    }

    /// Moves one cell in the current direction: the cell in front of the head
    /// becomes the new head. The tail is dropped, unless growth was pending,
    /// in which case the actor gets one segment longer and the growth is used
    /// up. An actor without segments cannot move and is left as it was.
    pub fn move_next_square(&mut self) -> (result: Result<(), PlayerError>)
        requires
            old(self)@.segments.len() > 0 ==> representable(old(self)@.next_head()),
        ensures
            result is Ok <==> old(self)@.segments.len() > 0,
            result is Ok ==> final(self)@ == old(self)@.advanced(),
            result is Err ==> result == Err::<(), PlayerError>(PlayerError::EmptyBody)
                && final(self)@ == old(self)@,
            !old(self)@.pending_growth ==> final(self)@.segments.len() == old(
                self,
            )@.segments.len(),
            result is Ok && old(self)@.pending_growth ==> final(self)@.segments.len() == old(
                self,
            )@.segments.len() + 1 && !final(self)@.pending_growth,
    {
        if self.body.len() == 0 {
            return Err(PlayerError::EmptyBody);
        }
        let head = self.body[0];
        let next_square = match self.direction {
            Direction::Up => (head.0, head.1 - 1),
            Direction::Down => (head.0, head.1 + 1),
            Direction::Left => (head.0 - 1, head.1),
            Direction::Right => (head.0 + 1, head.1),
        };
        self.body.push_front(next_square);
        if !self.has_eaten {
            let _ = self.body.pop_back();
            assert(self@.segments =~= old(self)@.advanced().segments);
        } else {
            self.has_eaten = false;
            assert(self@.segments =~= old(self)@.advanced().segments);
        }
        Ok(())
    }

    /// Faces `direction`, unless that would reverse the actor on the spot.
    pub fn turn(&mut self, direction: Direction)
        ensures
            final(self)@.direction == turned(old(self)@.direction, direction),
            final(self)@.segments == old(self)@.segments,
            final(self)@.pending_growth == old(self)@.pending_growth,
            direction == opposite_of(old(self)@.direction) ==> final(self)@ == old(self)@,
    {
        if direction != self.direction.opposite() {
            self.direction = direction;
        }
    }

    /// Faces up, unless the actor is facing down.
    pub fn turn_up(&mut self)
        ensures
            final(self)@.direction == turned(old(self)@.direction, Direction::Up),
            final(self)@.segments == old(self)@.segments,
            final(self)@.pending_growth == old(self)@.pending_growth,
    {
        self.turn(Direction::Up);
    }

    /// Faces down, unless the actor is facing up.
    pub fn turn_down(&mut self)
        ensures
            final(self)@.direction == turned(old(self)@.direction, Direction::Down),
            final(self)@.segments == old(self)@.segments,
            final(self)@.pending_growth == old(self)@.pending_growth,
    {
        self.turn(Direction::Down);
    }

    /// Faces left, unless the actor is facing right.
    pub fn turn_left(&mut self)
        ensures
            final(self)@.direction == turned(old(self)@.direction, Direction::Left),
            final(self)@.segments == old(self)@.segments,
            final(self)@.pending_growth == old(self)@.pending_growth,
    {
        self.turn(Direction::Left);
    }

    /// Faces right, unless the actor is facing left.
    pub fn turn_right(&mut self)
        ensures
            final(self)@.direction == turned(old(self)@.direction, Direction::Right),
            final(self)@.segments == old(self)@.segments,
            final(self)@.pending_growth == old(self)@.pending_growth,
    {
        self.turn(Direction::Right);
    }

    /// Whether the head has left the grid of side `grid_size`. An actor
    /// without segments has no head and is nowhere out of bounds.
    pub fn out_of_bounds(&self, grid_size: i32) -> (out: bool)
        ensures
            out == (self@.segments.len() > 0 && outside_grid(self@.segments[0], grid_size as int)),
    {
        if self.body.len() == 0 {
            return false;
        }
        let head = self.body[0];
        head.0 >= grid_size || head.0 < 0 || head.1 >= grid_size || head.1 < 0
    }

    /// Whether the head shares its cell with another segment.
    pub fn collides_with_self(&self) -> (hit: bool)
        ensures
            hit == head_meets_body(self@.segments),
            self@.segments.no_duplicates() ==> !hit,
    {
        proof {
            lemma_head_collision_is_duplicate(self@.segments);
        }
        if self.body.len() == 0 {
            return false;
        }
        let head = self.body[0];
        let mut i: usize = 1;
        while i < self.body.len()
            invariant
                1 <= i <= self.body.len(),
                head == self.body@[0],
                forall|j: int| 1 <= j < i ==> #[trigger] self@.segments[j] != self@.segments[0],
            decreases self.body.len() - i,
        {
            let point = self.body[i];
            if point.0 == head.0 && point.1 == head.1 {
                assert(self@.segments[i as int] == self@.segments[0]);
                return true;
            }
            i += 1;
        }
        false
    }

    /// The segments, head first.
    pub fn body(&self) -> (body: &VecDeque<(i32, i32)>)
        ensures
            cells_of(body@) == self@.segments,
    {
        &self.body
    }

    /// Whether some segment lies on the cell `(x, y)`.
    pub fn collides(&self, x: i32, y: i32) -> (hit: bool)
        ensures
            hit == self@.segments.contains((x as int, y as int)),
    {
        let mut i: usize = 0;
        while i < self.body.len()
            invariant
                i <= self.body.len(),
                forall|j: int| 0 <= j < i ==> #[trigger] self@.segments[j] != (x as int, y as int),
            decreases self.body.len() - i,
        {
            let point = self.body[i];
            if point.0 == x && point.1 == y {
                assert(self@.segments[i as int] == (x as int, y as int));
                return true;
            }
            i += 1;
        }
        false
    }

    /// Makes the next move keep the tail.
    pub fn eat(&mut self)
        ensures
            final(self)@.pending_growth,
            final(self)@.segments == old(self)@.segments,
            final(self)@.direction == old(self)@.direction,
    {
        self.has_eaten = true;
    }
}

} // verus!
