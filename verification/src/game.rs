//! The round: what one tick does to the actor, the pickup and the screen.
//!
//! A tick takes in the key that was pressed, if any, moves the actor one
//! cell, ends the round when the actor has left the grid or run into itself,
//! lets the actor eat the pickup it has reached, puts out a new pickup when
//! there is none, and draws the frame. Whoever drives the game calls `tick`
//! once per frame for as long as it answers `Continue`, and waits between
//! two ticks for what `frame_pause` says.

use vstd::prelude::*;
use vstd::string::StringExecFns;
use crate::controller::{latch, InputController, Key, KeyPress};
use crate::pickup::{free_cells_of, spawn};
use crate::player::{
    head_meets_body,
    outside_grid,
    segment_commands,
    turned,
    Direction,
    Player,
    PlayerError,
    PlayerView,
};
use crate::renderer::{DrawCommand, Renderer};

verus! {

/// The time from the start of one tick to the start of the next, in
/// nanoseconds.
pub const FRAME_DURATION_NANOS: u64 = 200_000_000;

/// The glyph that the pickup is drawn with.
pub const APPLE_GLYPH: char = '\u{2588}';

/// The screen column where the score starts.
pub const SCORE_COLUMN: i32 = 2;

/// The screen row of the score.
pub const SCORE_ROW: i32 = 2;

/// How a tick ended.
#[derive(Copy, Clone, Debug, PartialEq, Eq, Structural)]
pub enum Tick {
    /// The round goes on.
    Continue,
    /// The actor left the grid or ran into itself.
    GameOver,
    /// The player asked to leave.
    Quit,
}

/// The glyph of a decimal digit.
pub open spec fn digit_glyph(digit: nat) -> char {
    ((48 + digit) as u8) as char
}

/// `number` written in decimal digits.
pub open spec fn decimal(number: nat) -> Seq<char>
    decreases number,
{
    if number < 10 {
        seq![digit_glyph(number)]
    } else {
        decimal(number / 10).push(digit_glyph(number % 10))
    }
}

/// The text that shows the score.
pub open spec fn score_label(score: nat) -> Seq<char> {
    "Score: "@ + decimal(score)
}

/// The direction that a key asks for, if it asks for one.
pub open spec fn direction_of(key: Key) -> Option<Direction> {
    match key {
        Key::Up => Some(Direction::Up),
        Key::Down => Some(Direction::Down),
        Key::Left => Some(Direction::Left),
        Key::Right => Some(Direction::Right),
        Key::Quit => None,
    }
}

/// How long to wait before the next tick when the current one has taken
/// `elapsed_nanos` so far: the rest of the frame, or nothing when the frame
/// is used up.
pub fn frame_pause(elapsed_nanos: u128) -> (pause: u64)
    ensures
        elapsed_nanos < FRAME_DURATION_NANOS ==> pause == FRAME_DURATION_NANOS - elapsed_nanos,
        elapsed_nanos >= FRAME_DURATION_NANOS ==> pause == 0,
{
    if elapsed_nanos < FRAME_DURATION_NANOS as u128 {
        FRAME_DURATION_NANOS - elapsed_nanos as u64
    } else {
        0
    }
}

/// Writes `number` in decimal digits by `format!`, that is by the `Display`
/// of `usize`, which the standard library documents to give the decimal
/// digits of the number, without sign or leading zeros.
#[verifier::external_body]
fn decimal_text(number: usize) -> (text: String)
    ensures
        text@ == decimal(number as nat),
{
    format!("{}", number)
}

/// The text that shows `score`.
pub fn score_text(score: usize) -> (text: String)
    ensures
        text@ == score_label(score as nat),
{
    let mut text = String::from_str("Score: ");
    let digits = decimal_text(score);
    text.append(digits.as_str());
    text
}

/// What a round is, to the rules of the game.
pub struct GameView {
    /// Whether the round is still going on.
    pub running: bool,
    pub score: nat,
    pub player: PlayerView,
    /// The intent that the controller holds.
    pub held: Key,
    /// The side of the grid.
    pub grid_size: int,
    /// The cell of the pickup, if one is out.
    pub apple: Option<(int, int)>,
}

impl GameView {
    /// What holds of every round: the actor has a head; while the round
    /// goes on, no two segments share a cell and the head is not on the
    /// edge of what an `i32` can hold; and the pickup lies on the grid and
    /// not under the actor.
    pub open spec fn well_formed(self) -> bool {
        &&& self.player.segments.len() > 0
        &&& self.running ==> {
            &&& self.player.segments.no_duplicates()
            &&& i32::MIN < self.player.segments[0].0 < i32::MAX
            &&& i32::MIN < self.player.segments[0].1 < i32::MAX
        }
        &&& self.apple matches Some(cell) ==> !outside_grid(cell, self.grid_size)
            && !self.player.segments.contains(cell)
    }

    /// The round as it starts on a grid of side `grid_size`.
    pub open spec fn start(grid_size: int) -> GameView {
        GameView {
            running: true,
            score: 0,
            player: PlayerView {
                segments: seq![(5int, 1int), (4, 1), (3, 1), (2, 1), (1, 1)],
                direction: Direction::Right,
                pending_growth: false,
            },
            held: Key::Right,
            grid_size,
            apple: None,
        }
    }

    /// The round after the input of a tick was taken in: the controller
    /// holds the latest intent; the intent to quit stops the round, any
    /// other turns the actor, unless it would reverse it.
    pub open spec fn with_input(self, event: Option<KeyPress>) -> GameView {
        let held = latch(self.held, event);
        match direction_of(held) {
            None => GameView { held, running: false, ..self },
            Some(direction) => GameView {
                held,
                player: PlayerView {
                    direction: turned(self.player.direction, direction),
                    ..self.player
                },
                ..self
            },
        }
    }

    /// The round after the actor has moved one cell.
    pub open spec fn moved(self) -> GameView {
        GameView { player: self.player.advanced(), ..self }
    }

    /// Whether the actor has left the grid or run into itself.
    pub open spec fn lost(self) -> bool {
        outside_grid(self.player.segments[0], self.grid_size) || head_meets_body(
            self.player.segments,
        )
    }

    /// The round after the actor has eaten the pickup under its head, if
    /// there is one: the pickup is gone and the actor will grow.
    pub open spec fn fed(self) -> GameView {
        if self.apple == Some(self.player.segments[0]) {
            GameView {
                player: PlayerView { pending_growth: true, ..self.player },
                apple: None,
                ..self
            }
        } else {
            self
        }
    }

    /// The calls that draw the pickup.
    pub open spec fn apple_commands(self) -> Seq<DrawCommand> {
        match self.apple {
            Some(cell) => seq![DrawCommand::PutChar { x: cell.0, y: cell.1, glyph: APPLE_GLYPH }],
            None => Seq::empty(),
        }
    }

    /// The call that draws the score.
    pub open spec fn score_command(self) -> DrawCommand {
        DrawCommand::DrawText {
            text: score_label(self.score),
            x: SCORE_COLUMN as int,
            y: SCORE_ROW as int,
        }
    }

    /// The calls that draw a frame: the board, the actor from head to tail,
    /// the score, the pickup, and the order to show it all.
    pub open spec fn frame_commands(self) -> Seq<DrawCommand> {
        seq![DrawCommand::Clear] + segment_commands(self.player.segments) + seq![
            self.score_command(),
        ] + self.apple_commands() + seq![DrawCommand::Present]
    }
}

/// A round of the game.
pub struct Game {
    running: bool,
    score: usize,
    player: Player,
    controller: InputController,
    grid_size: i32,
    apple: Option<(i32, i32)>,
}

impl View for Game {
    type V = GameView;

    closed spec fn view(&self) -> GameView {
        GameView {
            running: self.running,
            score: self.score as nat,
            player: self.player@,
            held: self.controller@,
            grid_size: self.grid_size as int,
            apple: match self.apple {
                Some(cell) => Some((cell.0 as int, cell.1 as int)),
                None => None,
            },
        }
    }
}

impl Game {
    /// A round on a grid of side `grid_size`, about to start.
    pub fn new(grid_size: i32) -> (game: Self)
        ensures
            game@ == GameView::start(grid_size as int),
            game@.well_formed(),
    {
        Game {
            grid_size,
            running: true,
            score: 0,
            player: Player::new(),
            controller: InputController::new(),
            apple: None,
        }
    }

    /// Whether the round is still going on.
    pub fn is_running(&self) -> (running: bool)
        ensures
            running == self@.running,
    {
        self.running
    }

    /// The score.
    pub fn score(&self) -> (score: usize)
        ensures
            score == self@.score,
    {
        self.score
    }

    /// The actor.
    pub fn player(&self) -> (player: &Player)
        ensures
            player@ == self@.player,
    {
        &self.player
    }

    /// The cell of the pickup, if one is out.
    pub fn apple(&self) -> (apple: Option<(i32, i32)>)
        ensures
            match apple {
                Some(cell) => self@.apple == Some((cell.0 as int, cell.1 as int)),
                None => self@.apple is None,
            },
    {
        self.apple
    }

    /// Takes in what one look at the keyboard found. The controller keeps
    /// the latest intent. The intent to quit stops the round; a direction
    /// turns the actor, unless it would reverse it on the spot.
    pub fn handle_input(&mut self, event: Option<KeyPress>)
        ensures
            final(self)@ == old(self)@.with_input(event),
            old(self)@.well_formed() ==> final(self)@.well_formed(),
    {
        self.controller.poll(event);
        if self.controller.should_exit() {
            self.running = false;
            return ;
        }
        match self.controller.direction() {
            Key::Up => self.player.turn_up(),
            Key::Down => self.player.turn_down(),
            Key::Left => self.player.turn_left(),
            Key::Right => self.player.turn_right(),
            _ => {},
        }
    }

    /// Puts a pickup on a free cell of the grid, picked at random. When the
    /// actor leaves no cell free, the pickup stays as it was.
    pub fn spawn_apple(&mut self)
        ensures
            final(self)@ == (GameView { apple: final(self)@.apple, ..old(self)@ }),
            free_cells_of(old(self)@.player.segments, old(self)@.grid_size).len() == 0
                ==> final(self)@.apple == old(self)@.apple,
            free_cells_of(old(self)@.player.segments, old(self)@.grid_size).len() > 0 ==> (
            final(self)@.apple matches Some(cell) && free_cells_of(
                old(self)@.player.segments,
                old(self)@.grid_size,
            ).contains(cell)),
            old(self)@.well_formed() ==> final(self)@.well_formed(),
    {
        if let Some(cell) = spawn(&self.player, self.grid_size) {
            self.apple = Some(cell);
        }
    }

    /// Draws the frame: the board, the actor, the score and the pickup, and
    /// shows it.
    pub fn render(&self, renderer: &mut impl Renderer)
        requires
            old(renderer).valid(),
        ensures
            final(renderer).valid(),
            final(renderer).drawn() == old(renderer).drawn() + self@.frame_commands(),
    {
        renderer.clear();
        self.player.draw(renderer);
        self.draw_score(renderer);
        self.draw_apple(renderer);
        renderer.present();
        assert(renderer.drawn() =~= old(renderer).drawn() + self@.frame_commands());
    }

    /// Writes the score.
    pub fn draw_score(&self, renderer: &mut impl Renderer)
        requires
            old(renderer).valid(),
        ensures
            final(renderer).valid(),
            final(renderer).drawn() == old(renderer).drawn().push(self@.score_command()),
    {
        let text = score_text(self.score);
        renderer.draw_text(text.as_str(), SCORE_COLUMN, SCORE_ROW);
    }

    /// Draws the pickup, if one is out.
    pub fn draw_apple(&self, renderer: &mut impl Renderer)
        requires
            old(renderer).valid(),
        ensures
            final(renderer).valid(),
            final(renderer).drawn() == old(renderer).drawn() + self@.apple_commands(),
    {
        if let Some(pos) = self.apple {
            renderer.put_char(pos.0, pos.1, APPLE_GLYPH);
            assert(renderer.drawn() =~= old(renderer).drawn() + self@.apple_commands());
        } else {
            assert(renderer.drawn() =~= old(renderer).drawn() + self@.apple_commands());
        }
    }
}

/// When the actor has moved and its head met no other segment, no two of
/// its segments share a cell.
proof fn lemma_moved_stays_distinct(before: PlayerView)
    requires
        before.segments.len() > 0,
        before.segments.no_duplicates(),
        !head_meets_body(before.advanced().segments),
    ensures
        before.advanced().segments.no_duplicates(),
{
    let after = before.advanced().segments;
    assert forall|i: int, j: int| 0 <= i < after.len() && 0 <= j < after.len() && i != j implies after[i]
        != after[j] by {
        if i >= 1 && j >= 1 {
            assert(after[i] == before.segments[i - 1]);
            assert(after[j] == before.segments[j - 1]);
        }
    }
}

/// A cell that the actor did not occupy before it moved is occupied after
/// the move exactly if the head has come to lie on it.
proof fn lemma_moved_onto(before: PlayerView, cell: (int, int))
    requires
        before.segments.len() > 0,
        !before.segments.contains(cell),
    ensures
        before.advanced().segments.contains(cell) <==> before.advanced().segments[0] == cell,
{
    let after = before.advanced().segments;
    if after.contains(cell) {
        let i = choose|i: int| 0 <= i < after.len() && after[i] == cell;
        if i >= 1 {
            assert(after[i] == before.segments[i - 1]);
            assert(before.segments.contains(cell));
        }
    }
}

impl Game {
    /// One tick of the round.
    ///
    /// The input is taken in first. If the player asked to leave, the round
    /// stops there: the actor does not move and nothing is drawn. Else the
    /// actor moves one cell. If it has left the grid or run into itself, the
    /// round is over, and again nothing is drawn. Else the actor eats the
    /// pickup under its head, a pickup is put out if there is none and a
    /// cell is free for it, and the frame is drawn.
    pub fn tick(&mut self, event: Option<KeyPress>, renderer: &mut impl Renderer) -> (result: Result<
        Tick,
        PlayerError,
    >)
        requires
            old(self)@.well_formed(),
            old(self)@.running,
            old(renderer).valid(),
        ensures
            final(self)@.well_formed(),
            final(renderer).valid(),
            match result {
                Ok(Tick::Quit) => {
                    &&& !old(self)@.with_input(event).running
                    &&& final(self)@ == old(self)@.with_input(event)
                    &&& final(renderer).drawn() == old(renderer).drawn()
                },
                Ok(Tick::GameOver) => {
                    &&& old(self)@.with_input(event).running
                    &&& old(self)@.with_input(event).moved().lost()
                    &&& final(self)@ == (GameView {
                        running: false,
                        ..old(self)@.with_input(event).moved()
                    })
                    &&& final(renderer).drawn() == old(renderer).drawn()
                },
                Ok(Tick::Continue) => {
                    let fed = old(self)@.with_input(event).moved().fed();
                    let free = free_cells_of(fed.player.segments, fed.grid_size);
                    &&& old(self)@.with_input(event).running
                    &&& !old(self)@.with_input(event).moved().lost()
                    &&& final(self)@ == (GameView { apple: final(self)@.apple, ..fed })
                    &&& fed.apple is Some ==> final(self)@.apple == fed.apple
                    &&& fed.apple is None && free.len() == 0 ==> final(self)@.apple is None
                    &&& fed.apple is None && free.len() > 0 ==> (final(self)@.apple matches Some(
                        cell,
                    ) && free.contains(cell))
                    &&& final(renderer).drawn() == old(renderer).drawn()
                        + final(self)@.frame_commands()
                },
                Err(_) => false,
            },
    {
        self.handle_input(event);
        if !self.running {
            return Ok(Tick::Quit);
        }
        let ghost turned = self@;
        match self.player.move_next_square() {
            Err(error) => {
                return Err(error);
            },
            Ok(()) => {},
        }
        if self.player.out_of_bounds(self.grid_size) || self.player.collides_with_self() {
            self.running = false;
            proof {
                if let Some(cell) = turned.apple {
                    lemma_moved_onto(turned.player, cell);
                }
            }
            return Ok(Tick::GameOver);
        }
        proof {
            lemma_moved_stays_distinct(turned.player);
        }
        if let Some(pos) = self.apple {
            proof {
                lemma_moved_onto(turned.player, (pos.0 as int, pos.1 as int));
            }
            if self.player.collides(pos.0, pos.1) {
                self.player.eat();
                self.apple = None;
            }
        }
        if self.apple.is_none() {
            self.spawn_apple();
        }
        self.render(renderer);
        Ok(Tick::Continue)
    }
}

} // verus!
