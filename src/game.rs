use vstd::prelude::*;

verus! {

/// The value `x` limited to the range `[a, b]`.
pub open spec fn clamp_spec(x: int, a: int, b: int) -> int {
    if x < a {
        a
    } else if b < x {
        b
    } else {
        x
    }
}

/// The value `x` mirrored back into the range `[a, b]` at the bound it passed.
pub open spec fn reflect_spec(x: int, a: int, b: int) -> int {
    if x < a {
        a - (x - a)
    } else if b < x {
        b - (x - b)
    } else {
        x
    }
}

/// Limits `x` to `[a, b]`; below `a` gives `a`, above `b` gives `b`.
pub fn clamp(x: i64, a: i64, b: i64) -> (r: i64)
    ensures
        r == clamp_spec(x as int, a as int, b as int),
{
    if x < a {
        a
    } else if b < x {
        b
    } else {
        x
    }
}

/// Mirrors `x` into `[a, b]` at the bound that it passed.
pub fn reflect(x: i64, a: i64, b: i64) -> (r: i64)
    requires
        x < a ==> i64::MIN <= 2 * a - x <= i64::MAX,
        b < x ==> i64::MIN <= 2 * b - x <= i64::MAX,
    ensures
        r == reflect_spec(x as int, a as int, b as int),
{
    if x < a {
        a - (x - a)
    } else if b < x {
        b - (x - b)
    } else {
        x
    }
}


/// Length of one simulation frame in clock units.
pub const FRAME_TIME: u64 = 1000;

/// Vertical speed of a paddle that is moving, in world units per frame.
pub const PADDLE_SPEED: i64 = 300;

/// Speed of the ball along each axis when a match is initialized.
pub const BALL_SPEED: i64 = 240;

/// Speed of a served ball along x, from which the serve formula scales.
pub const SERVE_SPEED: i64 = 300;

/// Largest extent a configuration may use, so that every position stays far
/// from the limits of `i64`.
pub const WORLD_LIMIT: i64 = 1_099_511_627_776;

/// Lifecycle of a match.
#[derive(Clone, Copy, Debug, PartialEq, Eq, Structural)]
pub enum State {
    Uninitialized,
    Ready,
    Running,
}

/// The only failure: an action other than `Initialize` came first.
#[derive(Clone, Copy, Debug, PartialEq, Eq, Structural)]
pub enum Error {
    NotInitialized,
}

#[derive(Clone, Copy, Debug, PartialEq, Eq, Structural)]
pub enum Player {
    Left,
    Right,
}

#[derive(Clone, Copy, Debug, PartialEq, Eq, Structural)]
pub enum Direction {
    Up,
    Neutral,
    Down,
}

/// What a front-end asks the simulation to do.
#[derive(Clone, Copy, Debug, PartialEq, Eq, Structural)]
pub enum Action {
    Initialize,
    Start,
    Reset { seed: i64 },
    Time { t: u64 },
    Move { player: Player, direction: Direction },
}

#[derive(Clone, Copy, Debug, PartialEq, Eq, Structural)]
pub enum Entity {
    LeftPaddle,
    RightPaddle,
    Ball,
}

/// Stable identity of an entity.
pub type ID = u64;

/// What the simulation reports, in the order it happened.
#[derive(Clone, Copy, Debug, PartialEq, Eq, Structural)]
pub enum Event {
    Create { id: ID, entity: Entity, x: i64, y: i64 },
    Destroy { id: ID },
    Move { id: ID, x: i64, y: i64 },
    Goal { player: Player, score: u8 },
    Reset,
    RoundStart,
}

/// A point or a velocity in world units.
#[derive(Clone, Copy, Debug, PartialEq, Eq, Structural)]
pub struct Vec2 {
    pub x: i64,
    pub y: i64,
}

/// Half-extents of the playfield and of the paddles, and the ball's half-size.
#[derive(Clone, Copy, Debug, PartialEq, Eq, Structural)]
pub struct GameConfiguration {
    pub area: Vec2,
    pub paddle: Vec2,
    pub ball_size: i64,
}

impl GameConfiguration {
    /// All extents are non-negative and bounded, a paddle fits in the field's
    /// height, and the field is tall enough that a bounce off one wall cannot
    /// carry the ball past the other.
    pub open spec fn wf(&self) -> bool {
        &&& 0 <= self.area.x <= WORLD_LIMIT
        &&& 0 <= self.paddle.x <= WORLD_LIMIT
        &&& 0 <= self.paddle.y <= self.area.y <= WORLD_LIMIT
        &&& BALL_SPEED <= 2 * self.area.y
        &&& 0 <= self.ball_size <= WORLD_LIMIT
    }
}

impl GameConfiguration {
    /// Whether the configuration may be used to construct a `Game`.
    pub fn is_valid(&self) -> (r: bool)
        ensures
            r == self.wf(),
    {
        0 <= self.area.x && self.area.x <= WORLD_LIMIT && 0 <= self.paddle.x
            && self.paddle.x <= WORLD_LIMIT && 0 <= self.paddle.y && self.paddle.y <= self.area.y
            && self.area.y <= WORLD_LIMIT && BALL_SPEED / 2 <= self.area.y && 0 <= self.ball_size
            && self.ball_size <= WORLD_LIMIT
    }
}

/// Lowest y a paddle may reach.
pub open spec fn paddle_min(c: GameConfiguration) -> int {
    c.paddle.y - c.area.y
}

/// Highest y a paddle may reach.
pub open spec fn paddle_max(c: GameConfiguration) -> int {
    c.area.y - c.paddle.y
}

/// Distance from the centre past which the ball is in a goal.
pub open spec fn goal_x(c: GameConfiguration) -> int {
    c.area.x + c.ball_size
}

pub open spec fn left_start_x(c: GameConfiguration) -> int {
    c.paddle.x - c.area.x
}

pub open spec fn right_start_x(c: GameConfiguration) -> int {
    c.area.x - c.paddle.x
}

pub open spec fn abs(v: int) -> int {
    if v < 0 { -v } else { v }
}

/// Position and velocity of one entity.
pub struct Body {
    pub x: int,
    pub y: int,
    pub vx: int,
    pub vy: int,
}

/// The mathematical state of a match.
pub struct GameModel {
    pub state: State,
    pub cfg: GameConfiguration,
    pub t: int,
    pub left: Body,
    pub right: Body,
    pub ball: Body,
    pub left_score: int,
    pub right_score: int,
}

pub open spec fn paddle_velocity(d: Direction) -> int {
    match d {
        Direction::Up => PADDLE_SPEED as int,
        Direction::Neutral => 0,
        Direction::Down => -PADDLE_SPEED,
    }
}

/// The remainder of `seed` divided by 2 as Rust's `%` gives it: its sign
/// follows the dividend, so an odd negative seed gives -1.
pub open spec fn seed_parity(seed: int) -> int {
    if seed % 2 == 0 {
        0
    } else if seed >= 0 {
        1
    } else {
        -1
    }
}

/// Ball x-velocity after a reset: `((seed % 2) - 1) * 300`.
pub open spec fn serve_velocity(seed: int) -> int {
    (seed_parity(seed) - 1) * SERVE_SPEED
}

/// A score after one more goal; a score at the top of `u8` stays there.
pub open spec fn bump(s: int) -> int {
    if s < 255 { s + 1 } else { 255 }
}

impl GameModel {
    pub open spec fn paddle_ok(self, p: Body) -> bool {
        &&& paddle_min(self.cfg) <= p.y <= paddle_max(self.cfg)
        &&& p.vx == 0
        &&& p.vy == PADDLE_SPEED || p.vy == 0 || p.vy == -PADDLE_SPEED
    }

    /// The invariant of every reachable state.
    pub open spec fn wf(self) -> bool {
        &&& self.cfg.wf()
        &&& 0 <= self.t <= u64::MAX
        &&& self.left.x == left_start_x(self.cfg)
        &&& self.right.x == right_start_x(self.cfg)
        &&& self.paddle_ok(self.left)
        &&& self.paddle_ok(self.right)
        &&& -goal_x(self.cfg) <= self.ball.x <= goal_x(self.cfg)
        &&& -self.cfg.area.y <= self.ball.y <= self.cfg.area.y
        &&& -2 * SERVE_SPEED <= self.ball.vx <= 2 * SERVE_SPEED
        &&& -BALL_SPEED <= self.ball.vy <= BALL_SPEED
        &&& 0 <= self.left_score <= 255
        &&& 0 <= self.right_score <= 255
    }
}

/// The state of a match that was just constructed.
pub open spec fn initial_model(c: GameConfiguration) -> GameModel {
    GameModel {
        state: State::Uninitialized,
        cfg: c,
        t: 0,
        left: Body { x: left_start_x(c), y: 0, vx: 0, vy: 0 },
        right: Body { x: right_start_x(c), y: 0, vx: 0, vy: 0 },
        ball: Body { x: 0, y: 0, vx: BALL_SPEED as int, vy: BALL_SPEED as int },
        left_score: 0,
        right_score: 0,
    }
}

pub open spec fn move_event(id: ID, b: Body) -> Event {
    Event::Move { id, x: b.x as i64, y: b.y as i64 }
}

pub open spec fn create_event(id: ID, entity: Entity, b: Body) -> Event {
    Event::Create { id, entity, x: b.x as i64, y: b.y as i64 }
}

/// The three Move events that close every frame.
pub open spec fn frame_moves(m: GameModel) -> Seq<Event> {
    seq![move_event(0, m.left), move_event(1, m.right), move_event(2, m.ball)]
}

/// A paddle after one frame of motion, kept inside its range.
pub open spec fn moved_paddle(c: GameConfiguration, p: Body) -> Body {
    Body { x: p.x + p.vx, y: clamp_spec(p.y + p.vy, paddle_min(c), paddle_max(c)), ..p }
}

/// Whether the ball at `(bx, by)` overlaps the paddle `p`; touching does not count.
pub open spec fn overlaps(c: GameConfiguration, bx: int, by: int, p: Body) -> bool {
    abs(bx - p.x) < c.paddle.x + c.ball_size && abs(by - p.y) < c.paddle.y + c.ball_size
}

/// One physics frame: paddles move, the ball moves, then either a goal is
/// scored or the ball bounces off the walls and the paddle it approaches.
pub open spec fn tick(m: GameModel) -> (GameModel, Seq<Event>) {
    let c = m.cfg;
    let left = moved_paddle(c, m.left);
    let right = moved_paddle(c, m.right);
    let bx = m.ball.x + m.ball.vx;
    let by = m.ball.y + m.ball.vy;
    if bx > goal_x(c) || bx < -goal_x(c) {
        let scorer = if bx > goal_x(c) { Player::Left } else { Player::Right };
        let m1 = GameModel {
            state: State::Ready,
            left,
            right,
            ball: Body { x: 0, y: 0, ..m.ball },
            left_score: if scorer == Player::Left { bump(m.left_score) } else { m.left_score },
            right_score: if scorer == Player::Right { bump(m.right_score) } else { m.right_score },
            ..m
        };
        let score = if scorer == Player::Left { m1.left_score } else { m1.right_score };
        (m1, seq![Event::Goal { player: scorer, score: score as u8 }] + frame_moves(m1))
    } else {
        let ry = reflect_spec(by, -c.area.y, c.area.y as int);
        let vy = if ry != by { -m.ball.vy } else { m.ball.vy };
        let target = if m.ball.vx < 0 { left } else { right };
        let vx = if overlaps(c, bx, ry, target) { -m.ball.vx } else { m.ball.vx };
        let m1 = GameModel { left, right, ball: Body { x: bx, y: ry, vx, vy }, ..m };
        (m1, frame_moves(m1))
    }
}

/// Up to `n` frames, each advancing the clock by one frame time; frames stop
/// as soon as the match is no longer Running, so a goal ends the run.
pub open spec fn advance(m: GameModel, n: nat) -> (GameModel, Seq<Event>)
    decreases n,
{
    if n == 0 || m.state != State::Running {
        (m, seq![])
    } else {
        let first = tick(GameModel { t: m.t + FRAME_TIME, ..m });
        let rest = advance(first.0, (n - 1) as nat);
        (rest.0, first.1 + rest.1)
    }
}

/// Number of whole frames from the clock of `m` up to `t`.
pub open spec fn frames_until(m: GameModel, t: int) -> nat {
    if t >= m.t { ((t - m.t) / FRAME_TIME as int) as nat } else { 0 }
}

/// The clock after a Time action: it moves to `t`, never backwards.
pub open spec fn next_clock(m: GameModel, t: int) -> int {
    if t >= m.t { t } else { m.t }
}

/// The effect of an action: the next state, the events emitted, the result.
pub open spec fn step(m: GameModel, a: Action) -> (GameModel, Seq<Event>, Result<(), Error>) {
    match a {
        Action::Initialize => {
            let c = m.cfg;
            let m1 = GameModel {
                state: State::Ready,
                left: Body { x: left_start_x(c), y: 0, ..m.left },
                right: Body { x: right_start_x(c), y: 0, ..m.right },
                ball: Body { x: 0, y: 0, vx: BALL_SPEED as int, vy: BALL_SPEED as int },
                ..m
            };
            (m1, seq![
                create_event(0, Entity::LeftPaddle, m1.left),
                create_event(1, Entity::RightPaddle, m1.right),
                create_event(2, Entity::Ball, m1.ball),
            ], Ok(()))
        },
        _ => if m.state == State::Uninitialized {
            (m, seq![], Err(Error::NotInitialized))
        } else {
            match a {
                Action::Start => (GameModel { state: State::Running, ..m }, seq![Event::RoundStart], Ok(())),
                Action::Reset { seed } => {
                    let m1 = GameModel {
                        state: State::Ready,
                        left: Body { y: 0, ..m.left },
                        right: Body { y: 0, ..m.right },
                        ball: Body { x: 0, y: 0, vx: serve_velocity(seed as int), ..m.ball },
                        ..m
                    };
                    (m1, frame_moves(m1).push(Event::Reset), Ok(()))
                },
                Action::Time { t } => if m.state == State::Running {
                    let r = advance(m, frames_until(m, t as int));
                    (GameModel { t: next_clock(m, t as int), ..r.0 }, r.1, Ok(()))
                } else {
                    (GameModel { t: next_clock(m, t as int), ..m }, seq![], Ok(()))
                },
                Action::Move { player, direction } => {
                    let v = paddle_velocity(direction);
                    if player == Player::Left {
                        (GameModel { left: Body { vy: v, ..m.left }, ..m }, seq![], Ok(()))
                    } else {
                        (GameModel { right: Body { vy: v, ..m.right }, ..m }, seq![], Ok(()))
                    }
                },
                Action::Initialize => (m, seq![], Ok(())),
            }
        },
    }
}


/// A frame keeps the invariant and leaves the clock alone.
pub proof fn lemma_tick_wf(m: GameModel)
    requires
        m.wf(),
    ensures
        tick(m).0.wf(),
        tick(m).0.t == m.t,
        tick(m).0.cfg == m.cfg,
{
}

/// Any number of frames keeps the invariant and moves the clock by at most
/// that many frames.
pub proof fn lemma_advance_wf(m: GameModel, n: nat)
    requires
        m.wf(),
        m.t + n * FRAME_TIME <= u64::MAX,
    ensures
        advance(m, n).0.wf(),
        m.t <= advance(m, n).0.t <= m.t + n * FRAME_TIME,
        advance(m, n).0.cfg == m.cfg,
    decreases n,
{
    if n > 0 && m.state == State::Running {
        let m0 = GameModel { t: m.t + FRAME_TIME, ..m };
        lemma_tick_wf(m0);
        lemma_advance_wf(tick(m0).0, (n - 1) as nat);
    }
}

/// Every action keeps the invariant and the configuration.
pub proof fn lemma_step_wf(m: GameModel, a: Action)
    requires
        m.wf(),
    ensures
        step(m, a).0.wf(),
        step(m, a).0.cfg == m.cfg,
{
    if let Action::Time { t } = a {
        if m.state == State::Running {
            let n = frames_until(m, t as int);
            lemma_advance_wf(m, n);
        }
    }
}


struct PlayerData {
    id: ID,
    score: u8,
    position: Vec2,
    velocity: Vec2,
}

struct BallData {
    id: ID,
    position: Vec2,
    velocity: Vec2,
}

/// A match: its configuration, its clock, the two paddles and the ball.
pub struct Game {
    state: State,
    cfg: GameConfiguration,
    t: u64,
    left: PlayerData,
    right: PlayerData,
    ball: BallData,
}

pub open spec fn body_of(position: Vec2, velocity: Vec2) -> Body {
    Body { x: position.x as int, y: position.y as int, vx: velocity.x as int, vy: velocity.y as int }
}

impl View for Game {
    type V = GameModel;

    closed spec fn view(&self) -> GameModel {
        GameModel {
            state: self.state,
            cfg: self.cfg,
            t: self.t as int,
            left: body_of(self.left.position, self.left.velocity),
            right: body_of(self.right.position, self.right.velocity),
            ball: body_of(self.ball.position, self.ball.velocity),
            left_score: self.left.score as int,
            right_score: self.right.score as int,
        }
    }
}

impl Game {
    /// The model holds its invariant and the entities keep their identities.
    pub closed spec fn wf(&self) -> bool {
        &&& self@.wf()
        &&& self.left.id == 0
        &&& self.right.id == 1
        &&& self.ball.id == 2
    }

    /// A match that has not been initialized yet.
    pub fn new(cfg: GameConfiguration) -> (game: Game)
        requires
            cfg.wf(),
        ensures
            game.wf(),
            game@.wf(),
            game@ == initial_model(cfg),
    {
        Game {
            state: State::Uninitialized,
            t: 0,
            left: PlayerData {
                id: 0,
                score: 0,
                position: Vec2 { x: cfg.paddle.x - cfg.area.x, y: 0 },
                velocity: Vec2 { x: 0, y: 0 },
            },
            right: PlayerData {
                id: 1,
                score: 0,
                position: Vec2 { x: cfg.area.x - cfg.paddle.x, y: 0 },
                velocity: Vec2 { x: 0, y: 0 },
            },
            ball: BallData {
                id: 2,
                position: Vec2 { x: 0, y: 0 },
                velocity: Vec2 { x: BALL_SPEED, y: BALL_SPEED },
            },
            cfg,
        }
    }

    fn require_initialized(&self) -> (r: Result<(), Error>)
        ensures
            r is Err <==> self.state == State::Uninitialized,
            r is Err ==> r == Err::<(), Error>(Error::NotInitialized),
    {
        match self.state {
            State::Uninitialized => Err(Error::NotInitialized),
            _ => Ok(()),
        }
    }

    fn action_initialize(&mut self, events: &mut Vec<Event>)
        requires
            old(self).wf(),
        ensures
            final(self).wf(),
            final(self)@ == step(old(self)@, Action::Initialize).0,
            final(events)@ == old(events)@ + step(old(self)@, Action::Initialize).1,
    {
        self.left.position = Vec2 { x: self.cfg.paddle.x - self.cfg.area.x, y: 0 };
        self.right.position = Vec2 { x: self.cfg.area.x - self.cfg.paddle.x, y: 0 };
        self.ball.position = Vec2 { x: 0, y: 0 };
        self.ball.velocity = Vec2 { x: BALL_SPEED, y: BALL_SPEED };
        events.push(Event::Create {
            id: self.left.id,
            entity: Entity::LeftPaddle,
            x: self.left.position.x,
            y: self.left.position.y,
        });
        events.push(Event::Create {
            id: self.right.id,
            entity: Entity::RightPaddle,
            x: self.right.position.x,
            y: self.right.position.y,
        });
        events.push(Event::Create {
            id: self.ball.id,
            entity: Entity::Ball,
            x: self.ball.position.x,
            y: self.ball.position.y,
        });
        self.state = State::Ready;
        proof {
            lemma_step_wf(old(self)@, Action::Initialize);
        }
    }

    fn action_start(&mut self, events: &mut Vec<Event>) -> (r: Result<(), Error>)
        requires
            old(self).wf(),
        ensures
            final(self).wf(),
            final(self)@ == step(old(self)@, Action::Start).0,
            final(events)@ == old(events)@ + step(old(self)@, Action::Start).1,
            r == step(old(self)@, Action::Start).2,
    {
        self.require_initialized()?;
        self.state = State::Running;
        events.push(Event::RoundStart);
        proof {
            lemma_step_wf(old(self)@, Action::Start);
        }
        Ok(())
    }

    fn action_reset(&mut self, seed: i64, events: &mut Vec<Event>) -> (r: Result<(), Error>)
        requires
            old(self).wf(),
        ensures
            final(self).wf(),
            final(self)@ == step(old(self)@, Action::Reset { seed }).0,
            final(events)@ == old(events)@ + step(old(self)@, Action::Reset { seed }).1,
            r == step(old(self)@, Action::Reset { seed }).2,
    {
        self.require_initialized()?;
        self.left.position.y = 0;
        self.right.position.y = 0;
        self.ball.position.x = 0;
        self.ball.position.y = 0;
        let parity: i64 = if seed % 2 == 0 {
            0
        } else if seed >= 0 {
            1
        } else {
            -1
        };
        self.ball.velocity.x = (parity - 1) * SERVE_SPEED;
        self.state = State::Ready;
        events.push(Event::Move { id: self.left.id, x: self.left.position.x, y: 0 });
        events.push(Event::Move { id: self.right.id, x: self.right.position.x, y: 0 });
        events.push(Event::Move { id: self.ball.id, x: 0, y: 0 });
        events.push(Event::Reset);
        proof {
            lemma_step_wf(old(self)@, Action::Reset { seed });
        }
        Ok(())
    }

    fn action_move(&mut self, player: Player, direction: Direction) -> (r: Result<(), Error>)
        requires
            old(self).wf(),
        ensures
            final(self).wf(),
            final(self)@ == step(old(self)@, Action::Move { player, direction }).0,
            r == step(old(self)@, Action::Move { player, direction }).2,
    {
        self.require_initialized()?;
        let v: i64 = match direction {
            Direction::Up => PADDLE_SPEED,
            Direction::Neutral => 0,
            Direction::Down => -PADDLE_SPEED,
        };
        match player {
            Player::Left => self.left.velocity.y = v,
            Player::Right => self.right.velocity.y = v,
        }
        proof {
            lemma_step_wf(old(self)@, Action::Move { player, direction });
        }
        Ok(())
    }

    fn add_point(&mut self, player: Player) -> (score: u8)
        requires
            old(self).wf(),
        ensures
            player == Player::Left ==> final(self).left.score == bump(old(self).left.score as int)
                && final(self).right.score == old(self).right.score && score == final(self).left.score,
            player == Player::Right ==> final(self).right.score == bump(old(self).right.score as int)
                && final(self).left.score == old(self).left.score && score == final(self).right.score,
            final(self).left.id == old(self).left.id,
            final(self).right.id == old(self).right.id,
            final(self).left.position == old(self).left.position,
            final(self).right.position == old(self).right.position,
            final(self).left.velocity == old(self).left.velocity,
            final(self).right.velocity == old(self).right.velocity,
            final(self).ball == old(self).ball,
            final(self).state == old(self).state,
            final(self).cfg == old(self).cfg,
            final(self).t == old(self).t,
    {
        match player {
            Player::Left => {
                if self.left.score < 255 {
                    self.left.score = self.left.score + 1;
                }
                self.left.score
            },
            Player::Right => {
                if self.right.score < 255 {
                    self.right.score = self.right.score + 1;
                }
                self.right.score
            },
        }
    }

    fn advance_frame(&mut self, events: &mut Vec<Event>)
        requires
            old(self).wf(),
        ensures
            final(self).wf(),
            final(self)@ == tick(old(self)@).0,
            final(events)@ == old(events)@ + tick(old(self)@).1,
    {
        proof {
            lemma_tick_wf(self@);
        }
        let lo = self.cfg.paddle.y - self.cfg.area.y;
        let hi = self.cfg.area.y - self.cfg.paddle.y;
        self.left.position.x = self.left.position.x + self.left.velocity.x;
        self.left.position.y = clamp(self.left.position.y + self.left.velocity.y, lo, hi);
        self.right.position.x = self.right.position.x + self.right.velocity.x;
        self.right.position.y = clamp(self.right.position.y + self.right.velocity.y, lo, hi);

        self.ball.position.x = self.ball.position.x + self.ball.velocity.x;
        self.ball.position.y = self.ball.position.y + self.ball.velocity.y;

        let goal = self.cfg.area.x + self.cfg.ball_size;
        if self.ball.position.x > goal || self.ball.position.x < -goal {
            let player = if self.ball.position.x > goal {
                Player::Left
            } else {
                Player::Right
            };
            self.ball.position = Vec2 { x: 0, y: 0 };
            let score = self.add_point(player);
            self.state = State::Ready;
            events.push(Event::Goal { player, score });
        } else {
            let y = reflect(self.ball.position.y, -self.cfg.area.y, self.cfg.area.y);
            if y != self.ball.position.y {
                self.ball.velocity.y = -self.ball.velocity.y;
            }
            self.ball.position.y = y;

            let target = if self.ball.velocity.x < 0 {
                self.left.position
            } else {
                self.right.position
            };
            let dx = self.ball.position.x - target.x;
            let dy = self.ball.position.y - target.y;
            let reach_x = self.cfg.paddle.x + self.cfg.ball_size;
            let reach_y = self.cfg.paddle.y + self.cfg.ball_size;
            if dx < reach_x && -dx < reach_x && dy < reach_y && -dy < reach_y {
                self.ball.velocity.x = -self.ball.velocity.x;
            }
        }

        events.push(Event::Move { id: self.left.id, x: self.left.position.x, y: self.left.position.y });
        events.push(Event::Move { id: self.right.id, x: self.right.position.x, y: self.right.position.y });
        events.push(Event::Move { id: self.ball.id, x: self.ball.position.x, y: self.ball.position.y });
    }

    fn action_time(&mut self, t: u64, events: &mut Vec<Event>) -> (r: Result<(), Error>)
        requires
            old(self).wf(),
        ensures
            final(self).wf(),
            final(self)@ == step(old(self)@, Action::Time { t }).0,
            final(events)@ == old(events)@ + step(old(self)@, Action::Time { t }).1,
            r == step(old(self)@, Action::Time { t }).2,
    {
        self.require_initialized()?;
        proof {
            lemma_step_wf(self@, Action::Time { t });
        }
        let clock = if t >= self.t {
            t
        } else {
            self.t
        };
        match self.state {
            State::Running => {
                let ghost m0 = self@;
                let ghost e0 = events@;
                let ghost total = frames_until(m0, t as int);
                let ghost target = advance(m0, total);
                let ghost mut left: nat = total;
                proof {
                    lemma_advance_wf(m0, total);
                }
                while self.state == State::Running && t >= self.t && t - self.t >= FRAME_TIME
                    invariant
                        self.wf(),
                        self@.cfg == m0.cfg,
                        t >= self.t ==> left * FRAME_TIME <= t - self.t < left * FRAME_TIME + FRAME_TIME,
                        t < self.t ==> left == 0,
                        advance(self@, left).0 == target.0,
                        events@ + advance(self@, left).1 == e0 + target.1,
                        t >= m0.t ==> self.t <= t,
                        t < m0.t ==> self.t == m0.t,
                    decreases t - self.t,
                {
                    self.t = self.t + FRAME_TIME;
                    let ghost before = self@;
                    proof {
                        lemma_tick_wf(before);
                    }
                    let ghost pending = events@;
                    self.advance_frame(events);
                    proof {
                        let rest = advance(self@, (left - 1) as nat);
                        assert(pending + (tick(before).1 + rest.1) == (pending + tick(before).1) + rest.1);
                        left = (left - 1) as nat;
                    }
                }
                self.t = clock;
                Ok(())
            },
            _ => {
                self.t = clock;
                Ok(())
            },
        }
    }

    /// Performs one action, appending the events it produces to `events` in
    /// the order they happen.
    pub fn process(&mut self, action: Action, events: &mut Vec<Event>) -> (r: Result<(), Error>)
        requires
            old(self).wf(),
        ensures
            final(self).wf(),
            final(self)@.wf(),
            final(self)@ == step(old(self)@, action).0,
            final(events)@ == old(events)@ + step(old(self)@, action).1,
            r == step(old(self)@, action).2,
    {
        match action {
            Action::Initialize => {
                self.action_initialize(events);
                Ok(())
            },
            Action::Start => self.action_start(events),
            Action::Reset { seed } => self.action_reset(seed, events),
            Action::Time { t } => self.action_time(t, events),
            Action::Move { player, direction } => {
                let r = self.action_move(player, direction);
                proof {
                    assert(events@ == old(events)@ + seq![]);
                }
                r
            },
        }
    }

    /// A well-formed game's model holds the model's invariant, so the laws
    /// over `GameModel` apply to it.
    pub proof fn lemma_view_wf(&self)
        requires
            self.wf(),
        ensures
            self@.wf(),
    {
    }

    /// The lifecycle state of the match.
    pub fn state(&self) -> (r: State)
        ensures
            r == self@.state,
    {
        self.state
    }

    /// How many goals `player` has scored.
    pub fn score(&self, player: Player) -> (r: u8)
        ensures
            player == Player::Left ==> r as int == self@.left_score,
            player == Player::Right ==> r as int == self@.right_score,
    {
        match player {
            Player::Left => self.left.score,
            Player::Right => self.right.score,
        }
    }
}

} // verus!
